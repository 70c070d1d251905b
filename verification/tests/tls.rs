use vash_server::metrics::ServerMetrics;
use vash_server::tls::{
    expiry, identity_for, read_chain, read_key, record_expiry, require, Holder, KeyForm, Material,
    MAX_LIFETIME_SECS,
};

const ROOT: &str = "\
-----BEGIN CERTIFICATE-----
MIIBPDCB46ADAgECAhQ9VUeB6BRFHtMoAb9bwAMgwRvrmzAKBggqhkjOPQQDAjAU
MRIwEAYDVQQDDAl0ZXN0IHJvb3QwHhcNMjAwMTAxMDAwMDAwWhcNMzUwMTAxMDAw
MDAwWjAUMRIwEAYDVQQDDAl0ZXN0IHJvb3QwWTATBgcqhkjOPQIBBggqhkjOPQMB
BwNCAASrlhT+ADs6wxSZEn6fC/ugoZevo4aOBCgesmP2v78gHxjualPHIdUrdbsz
g1EytSTRl3RfayrwBwctWOlgyMF5oxMwETAPBgNVHRMBAf8EBTADAQH/MAoGCCqG
SM49BAMCA0gAMEUCIQD40ukh1EdonFKBtXEPGw28z8mlF4U36O0Ffv5bbni2OgIg
FdwUYjVGmOnXWYvfiyM1uhs/1MUD9O/e6ko6l9HnwHI=
-----END CERTIFICATE-----
";

const INTERMEDIATE: &str = "\
-----BEGIN CERTIFICATE-----
MIIBRTCB66ADAgECAhRrNxuzEi8aJOHxjBmAtZgpDhS4GzAKBggqhkjOPQQDAjAU
MRIwEAYDVQQDDAl0ZXN0IHJvb3QwHhcNMjAwMTAxMDAwMDAwWhcNMjgwMTAxMDAw
MDAwWjAcMRowGAYDVQQDDBF0ZXN0IGludGVybWVkaWF0ZTBZMBMGByqGSM49AgEG
CCqGSM49AwEHA0IABHHn3mxnJXKnWdi1f7R1pShEdjpA7RPhdXG38xXd8LBhFlyu
f2WaujSURHUVfm2ga5fW38Is4Ubuc5ToJKhhw0ejEzARMA8GA1UdEwEB/wQFMAMB
Af8wCgYIKoZIzj0EAwIDSQAwRgIhANfafjZijeY6IJw78Ag/O4aRjGqpr2qTE2ew
K2aWyolCAiEAuLFroUDCqc+DDzaF3CnJETjTsOF3chAsESADxuYDx2s=
-----END CERTIFICATE-----
";

const LEAF: &str = "\
-----BEGIN CERTIFICATE-----
MIIBYzCCAQigAwIBAgIUIeYghTdgOIXvqo0Uq7+oP0zkLxIwCgYIKoZIzj0EAwIw
FDESMBAGA1UEAwwJdGVzdCByb290MB4XDTIwMDEwMTAwMDAwMFoXDTMwMDEwMTAw
MDAwMFowDzENMAsGA1UEAwwEbGVhZjBZMBMGByqGSM49AgEGCCqGSM49AwEHA0IA
BEzBFaX1IPAD1BFe4nsuLPH4cjjQ9saFMhvVElAH+Wn8M5wnvmSmZH1WTLs5jA3C
otcLNu+vyWlVV26zNl7qtuOjPTA7MAwGA1UdEwEB/wQCMAAwKwYDVR0RBCQwIoIJ
bG9jYWxob3N0gg8qLmNhY2hlLmV4YW1wbGWHBH8AAAEwCgYIKoZIzj0EAwIDSQAw
RgIhAIuMxPfMwmBTfrNHXvoahfJyxCX3qTBVdShb4zr8FC7vAiEA9ae3dhxoEJq6
UMxwIyCA4ao0gdhH0tNbzmo0HCF3vZs=
-----END CERTIFICATE-----
";

const DEEP_LEAF: &str = "\
-----BEGIN CERTIFICATE-----
MIIBWzCCAQCgAwIBAgIUIcpGwpG8RStqLMIjIILAkmrmA/0wCgYIKoZIzj0EAwIw
HDEaMBgGA1UEAwwRdGVzdCBpbnRlcm1lZGlhdGUwHhcNMjAwMTAxMDAwMDAwWhcN
MzAwMTAxMDAwMDAwWjAQMQ4wDAYDVQQDDAVsZWFmMjBZMBMGByqGSM49AgEGCCqG
SM49AwEHA0IABEzBFaX1IPAD1BFe4nsuLPH4cjjQ9saFMhvVElAH+Wn8M5wnvmSm
ZH1WTLs5jA3CotcLNu+vyWlVV26zNl7qtuOjLDAqMAwGA1UdEwEB/wQCMAAwGgYD
VR0RBBMwEYIPYmlsbGluZy5leGFtcGxlMAoGCCqGSM49BAMCA0kAMEYCIQDawjGz
HjP2uLWzyHHuJuE0dCNekcPu/uW0UMnwhyGUgwIhALcdgf/Eb0Oms8GmBT9njkzU
OP5mW28illN7CL2v21Qs
-----END CERTIFICATE-----
";

const LONG_LEAF: &str = "\
-----BEGIN CERTIFICATE-----
MIIBYTCCAQigAwIBAgIUHDuixXMQu5wyJWekKn8f4f8ywD0wCgYIKoZIzj0EAwIw
FDESMBAGA1UEAwwJdGVzdCByb290MB4XDTIwMDEwMTAwMDAwMFoXDTQ5MDEwMTAw
MDAwMFowDzENMAsGA1UEAwwEbG9uZzBZMBMGByqGSM49AgEGCCqGSM49AwEHA0IA
BEzBFaX1IPAD1BFe4nsuLPH4cjjQ9saFMhvVElAH+Wn8M5wnvmSmZH1WTLs5jA3C
otcLNu+vyWlVV26zNl7qtuOjPTA7MAwGA1UdEwEB/wQCMAAwKwYDVR0RBCQwIoIJ
bG9jYWxob3N0gg8qLmNhY2hlLmV4YW1wbGWHBH8AAAEwCgYIKoZIzj0EAwIDRwAw
RAIgbLVNohstfARYZ0VkLu9N6rT/s+x9HKKNPkNWx6eL4UgCIC+7+4TruJNG48L6
V70vS9/rdznAtwV9nwXz40uJUaL7
-----END CERTIFICATE-----
";

/// A time at which every certificate above is valid.
const NOW: u64 = 1_700_000_000;

/// The first second of 2028 and of 2030.
const Y2028: u64 = 1_830_297_600;
const Y2030: u64 = 1_893_456_000;

fn chain(pem: &[&str]) -> Vec<Vec<u8>> {
    read_chain(pem.concat().as_bytes()).unwrap()
}

fn holder(name: &str, subject: &str) -> Holder {
    Holder {
        name: name.to_string(),
        subject: subject.to_string(),
    }
}

#[test]
fn a_chain_is_read_leaf_first() {
    let found = chain(&[LEAF, ROOT]);
    assert_eq!(found.len(), 2);
    assert_eq!(found[0], chain(&[LEAF])[0]);
    assert_ne!(found[0], found[1]);
    // A DER certificate is a SEQUENCE, not the text it came from.
    assert_eq!(found[0][0], 0x30);
    assert!(chain(&[""]).is_empty());
}

#[test]
fn a_broken_pem_says_so() {
    let broken = LEAF.replace("END CERTIFICATE", "END SOMETHING");
    assert!(!read_chain(broken.as_bytes()).unwrap_err().is_empty());
}

#[test]
fn a_chain_expires_with_its_leaf() {
    assert_eq!(expiry(&chain(&[LEAF, ROOT]), Some(NOW)), Some(Y2030));
}

#[test]
fn a_chain_expires_with_its_first_part_to_expire() {
    let deep = chain(&[DEEP_LEAF, INTERMEDIATE, ROOT]);
    assert_eq!(expiry(&deep, Some(NOW)), Some(Y2028));
    // Up to its own last certificate, the intermediate is only an anchor.
    let cut = chain(&[DEEP_LEAF, INTERMEDIATE]);
    assert_eq!(expiry(&cut, Some(NOW)), Some(Y2030));
}

#[test]
fn a_lifetime_past_the_ceiling_is_reported_as_the_ceiling() {
    assert_eq!(
        expiry(&chain(&[LONG_LEAF, ROOT]), Some(NOW)),
        Some(NOW + MAX_LIFETIME_SECS)
    );
}

#[test]
fn what_does_not_verify_has_no_expiry() {
    assert_eq!(expiry(&Vec::new(), Some(NOW)), None);
    assert_eq!(expiry(&chain(&[LEAF, ROOT]), None), None);
    // Expired, and not yet valid.
    assert_eq!(expiry(&chain(&[LEAF, ROOT]), Some(Y2030 + 1)), None);
    assert_eq!(expiry(&chain(&[LEAF, ROOT]), Some(1_000_000_000)), None);
    // Issued by somebody else.
    assert_eq!(expiry(&chain(&[DEEP_LEAF, ROOT]), Some(NOW)), None);
    assert_eq!(expiry(&vec![b"junk".to_vec()], Some(NOW)), None);
    assert_eq!(
        expiry(&vec![chain(&[LEAF])[0].clone(), b"junk".to_vec()], Some(NOW)),
        None
    );
}

#[test]
fn the_gauge_reads_zero_where_nothing_is_known() {
    let mut metrics = ServerMetrics::default();
    let pem = [LEAF, ROOT].concat();
    assert_eq!(
        record_expiry(&mut metrics, Some(pem.as_bytes()), Some(NOW)),
        Some(Y2030)
    );
    assert_eq!(metrics.tls_cert_expiry, Y2030);
    assert_eq!(record_expiry(&mut metrics, None, Some(NOW)), None);
    assert_eq!(metrics.tls_cert_expiry, 0);
}

#[test]
fn a_certificate_is_who_its_names_say() {
    let holders = vec![
        holder("nobody", "not a name"),
        holder("other", "elsewhere.example"),
        holder("api", "localhost"),
        holder("late", "localhost"),
    ];
    let leaf = &chain(&[LEAF])[0];
    assert_eq!(identity_for(&holders, leaf).unwrap().name(), "api");
    assert!(identity_for(&holders[..2].iter().map(|h| holder(&h.name, &h.subject)).collect(), leaf).is_none());
    assert!(identity_for(&holders, b"junk").is_none());
}

#[test]
fn wildcards_and_addresses_are_names_too() {
    let leaf = &chain(&[LEAF])[0];
    for (subject, matches) in [
        ("node-1.cache.example", true),
        ("cache.example", false),
        ("a.b.cache.example", false),
        ("127.0.0.1", true),
        ("127.0.0.2", false),
    ] {
        assert_eq!(
            identity_for(&vec![holder("n", subject)], leaf).is_some(),
            matches,
            "{subject}"
        );
    }
}

/// The common name alone identifies nobody.
#[test]
fn a_common_name_is_not_a_name() {
    let leaf = &chain(&[DEEP_LEAF])[0];
    assert!(identity_for(&vec![holder("n", "leaf2")], leaf).is_none());
    assert!(identity_for(&vec![holder("n", "billing.example")], leaf).is_some());
}

#[test]
fn a_listener_without_its_material_is_refused() {
    assert!(require(Material::Certificate, 1, "c.pem").is_ok());
    assert_eq!(
        require(Material::Certificate, 0, "c.pem").unwrap_err(),
        "c.pem contains no certificate. Expected PEM, leaf first"
    );
    assert_eq!(
        require(Material::PrivateKey, 0, "k.pem").unwrap_err(),
        "k.pem contains no private key"
    );
    assert!(require(Material::ClientCa, 0, "ca.pem")
        .unwrap_err()
        .starts_with("ca.pem contains no certificate, so no client certificate"));
}

#[test]
fn the_first_private_key_is_read_in_the_form_it_is_in() {
    let section = |label: &str, body: &str| {
        format!("-----BEGIN {label}-----\n{body}\n-----END {label}-----\n")
    };
    let pkcs8 = section("PRIVATE KEY", "AQID");
    let pkcs1 = section("RSA PRIVATE KEY", "BAUG");
    let sec1 = section("EC PRIVATE KEY", "BwgJ");
    assert_eq!(read_key(pkcs8.as_bytes()), Ok(Some((KeyForm::Pkcs8, vec![1, 2, 3]))));
    assert_eq!(read_key(pkcs1.as_bytes()), Ok(Some((KeyForm::Pkcs1, vec![4, 5, 6]))));
    assert_eq!(read_key(sec1.as_bytes()), Ok(Some((KeyForm::Sec1, vec![7, 8, 9]))));
    let bundle = format!("{LEAF}{sec1}{pkcs8}");
    assert_eq!(read_key(bundle.as_bytes()), Ok(Some((KeyForm::Sec1, vec![7, 8, 9]))));
    assert_eq!(read_key(LEAF.as_bytes()), Ok(None));
    assert_eq!(read_key(b""), Ok(None));
    assert!(read_key(section("PRIVATE KEY", "*").as_bytes()).is_err());
}
