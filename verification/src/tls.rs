//! Certificates: reading a chain, dating it, and telling which identity a client
//! certificate stands for.
use crate::auth;
use crate::auth::Identity;
use crate::metrics::ServerMetrics;
use rustls::pki_types::{CertificateDer, PrivateKeyDer, ServerName, UnixTime};
use vstd::prelude::*;

verus! {

/// Ten years, in seconds. A ceiling on what the gauge reports: nothing issues a
/// certificate longer than this, and a deployment that somehow has one does not
/// need an expiry alert.
pub const MAX_LIFETIME_SECS: u64 = 315_360_000;

/// The bytes of each certificate of a list.
pub open spec fn ders(list: Seq<Vec<u8>>) -> Seq<Seq<u8>> {
    Seq::new(list.len(), |i: int| list[i]@)
}

/// What reading the certificates out of some PEM text gives: their DER bytes, or
/// what is wrong with the text.
pub uninterp spec fn pem_certificates(pem: Seq<u8>) -> Result<Seq<Seq<u8>>, Seq<char>>;

/// `rustls_pemfile::certs`, collected: the certificate sections of a PEM text in
/// order, or the text of the first error. A function of the bytes alone.
#[verifier::external_body]
fn certs(pem: &[u8]) -> (list: Result<Vec<Vec<u8>>, String>)
    ensures
        match (list, pem_certificates(pem@)) {
            (Ok(found), Ok(named)) => ders(found@) == named,
            (Err(fault), Err(named)) => fault@ == named,
            _ => false,
        },
{
    let mut rest: &[u8] = pem;
    match rustls_pemfile::certs(&mut rest).collect::<Result<Vec<_>, _>>() {
        Ok(found) => Ok(found.into_iter().map(|der| der.to_vec()).collect()),
        Err(fault) => Err(fault.to_string()),
    }
}

/// The encoding a private key is in.
#[derive(Debug, Clone, Copy, PartialEq, Eq, Structural)]
pub enum KeyForm {
    Pkcs1,
    Sec1,
    Pkcs8,
}

/// What reading a private key out of some PEM text gives: the first one there is,
/// its form and DER bytes, or what is wrong with the text.
pub uninterp spec fn pem_private_key(pem: Seq<u8>) -> Result<
    Option<(KeyForm, Seq<u8>)>,
    Seq<char>,
>;

/// Whether a key that was read is a key that was named.
pub open spec fn same_key(
    read: Result<Option<(KeyForm, Vec<u8>)>, String>,
    named: Result<Option<(KeyForm, Seq<u8>)>, Seq<char>>,
) -> bool {
    match (read, named) {
        (Ok(Some(found)), Ok(Some(expected))) => found.0 == expected.0 && found.1@ == expected.1,
        (Ok(None), Ok(None)) => true,
        (Err(fault), Err(expected)) => fault@ == expected,
        _ => false,
    }
}

/// `rustls_pemfile::private_key`: the first private key section of a PEM text, in
/// one of the three forms that it gives, or nothing, or the text of the error. A
/// function of the bytes alone.
#[verifier::external_body]
fn private_key(pem: &[u8]) -> (key: Result<Option<(KeyForm, Vec<u8>)>, String>)
    ensures
        same_key(key, pem_private_key(pem@)),
{
    let mut rest: &[u8] = pem;
    match rustls_pemfile::private_key(&mut rest) {
        Ok(Some(PrivateKeyDer::Pkcs1(k))) => Ok(Some((KeyForm::Pkcs1, k.secret_pkcs1_der().to_vec()))),
        Ok(Some(PrivateKeyDer::Sec1(k))) => Ok(Some((KeyForm::Sec1, k.secret_sec1_der().to_vec()))),
        Ok(Some(PrivateKeyDer::Pkcs8(k))) => Ok(Some((KeyForm::Pkcs8, k.secret_pkcs8_der().to_vec()))),
        Ok(_) => Ok(None),
        Err(fault) => Err(fault.to_string()),
    }
}

/// Whether some bytes parse as an end-entity certificate.
pub uninterp spec fn end_entity_parses(der: Seq<u8>) -> bool;

/// `webpki::EndEntityCert::try_from`: whether it accepts the certificate. A
/// function of the bytes alone.
#[verifier::external_body]
fn parses_as_end_entity(der: &[u8]) -> (yes: bool)
    ensures
        yes == end_entity_parses(der@),
{
    webpki::EndEntityCert::try_from(&CertificateDer::from(der)).is_ok()
}

/// Whether some bytes parse as a trust anchor.
pub uninterp spec fn anchor_parses(der: Seq<u8>) -> bool;

/// `webpki::anchor_from_trusted_cert`: whether it accepts the certificate. A
/// function of the bytes alone.
#[verifier::external_body]
fn parses_as_anchor(der: &[u8]) -> (yes: bool)
    ensures
        yes == anchor_parses(der@),
{
    webpki::anchor_from_trusted_cert(&CertificateDer::from(der)).is_ok()
}

/// Whether a certificate verifies for server use at a time, in Unix seconds,
/// through some intermediates up to an anchor.
pub uninterp spec fn path_verifies(
    leaf: Seq<u8>,
    intermediates: Seq<Seq<u8>>,
    anchor: Seq<u8>,
    at: u64,
) -> bool;

/// `webpki::EndEntityCert::verify_for_usage`, for server authentication, with
/// every algorithm of the `ring` provider, no revocation lists and no check of
/// its own on the path. A function of the certificates and the time alone; false
/// where the leaf or the anchor does not parse.
#[verifier::external_body]
fn verifies(leaf: &[u8], intermediates: &Vec<Vec<u8>>, anchor: &[u8], at: u64) -> (yes: bool)
    ensures
        yes == path_verifies(leaf@, ders(intermediates@), anchor@, at),
{
    let (leaf, anchor) = (CertificateDer::from(leaf), CertificateDer::from(anchor));
    let between: Vec<CertificateDer> = intermediates.iter().map(|der| der.as_slice().into()).collect();
    let algorithms = rustls::crypto::ring::default_provider().signature_verification_algorithms.all;
    let time = UnixTime::since_unix_epoch(std::time::Duration::from_secs(at));
    let usage = webpki::KeyUsage::server_auth();
    match (webpki::EndEntityCert::try_from(&leaf), webpki::anchor_from_trusted_cert(&anchor)) {
        (Ok(parsed), Ok(root)) => parsed.verify_for_usage(
            algorithms, &[root], &between, time, usage, None, None).is_ok(),
        _ => false,
    }
}

/// Whether a text is a name that a certificate could carry.
pub uninterp spec fn subject_parses(subject: Seq<char>) -> bool;

/// `rustls::pki_types::ServerName::try_from`: whether it accepts the text, as a
/// DNS name or an IP address. A function of the text alone.
#[verifier::external_body]
fn parses_as_subject(subject: &str) -> (yes: bool)
    ensures
        yes == subject_parses(subject@),
{
    ServerName::try_from(subject).is_ok()
}

/// Whether a certificate is valid for a name.
pub uninterp spec fn certificate_names(der: Seq<u8>, subject: Seq<char>) -> bool;

/// `webpki::EndEntityCert::verify_is_valid_for_subject_name`: whether the
/// certificate carries the name among its Subject Alternative Names. A function
/// of the two alone; false where either does not parse.
#[verifier::external_body]
fn names(der: &[u8], subject: &str) -> (yes: bool)
    ensures
        yes == certificate_names(der@, subject@),
{
    let certificate = CertificateDer::from(der);
    match (webpki::EndEntityCert::try_from(&certificate), ServerName::try_from(subject)) {
        (Ok(parsed), Ok(name)) => parsed.verify_is_valid_for_subject_name(&name).is_ok(),
        _ => false,
    }
}

/// Reads the private key of a PEM text, or says what is wrong with it.
pub fn read_key(pem: &[u8]) -> (key: Result<Option<(KeyForm, Vec<u8>)>, String>)
    ensures
        same_key(key, pem_private_key(pem@)),
{
    private_key(pem)
}

/// Reads the certificates of a PEM text, leaf first, or says what is wrong with
/// it.
pub fn read_chain(pem: &[u8]) -> (chain: Result<Vec<Vec<u8>>, String>)
    ensures
        match (chain, pem_certificates(pem@)) {
            (Ok(found), Ok(named)) => ders(found@) == named,
            (Err(fault), Err(named)) => fault@ == named,
            _ => false,
        },
{
    certs(pem)
}

/// What a TLS listener cannot do without.
#[derive(Debug, Clone, Copy, PartialEq, Eq, Structural)]
pub enum Material {
    Certificate,
    PrivateKey,
    ClientCa,
}

/// What is said where a file holds none of what was asked of it.
pub open spec fn missing_text(what: Material, path: Seq<char>) -> Seq<char> {
    path + match what {
        Material::Certificate => " contains no certificate. Expected PEM, leaf first"@,
        Material::PrivateKey => " contains no private key"@,
        Material::ClientCa => " contains no certificate, so no client certificate could ever be                      verified against it"@,
    }
}

/// Refuses a file that holds none of what was asked of it: a certificate that
/// cannot be served must stop startup rather than surface as a failed handshake.
pub fn require(what: Material, found: usize, path: &str) -> (checked: Result<(), String>)
    ensures
        checked is Ok <==> found > 0,
        checked is Err ==> checked->Err_0@ == missing_text(what, path@),
{
    if found > 0 {
        return Ok(());
    }
    let mut out = path.to_owned();
    match what {
        Material::Certificate => out.append(" contains no certificate. Expected PEM, leaf first"),
        Material::PrivateKey => out.append(" contains no private key"),
        Material::ClientCa => out.append(
            " contains no certificate, so no client certificate could ever be                      verified against it",
        ),
    }
    Err(out)
}

/// The certificates between the leaf of a chain and its last one. An anchor that
/// is also the leaf must not appear as its own intermediate.
pub open spec fn between(chain: Seq<Seq<u8>>) -> Seq<Seq<u8>> {
    if chain.len() < 2 {
        Seq::empty()
    } else {
        chain.subrange(1, chain.len() - 1)
    }
}

/// Whether a chain verifies at a time, up to its own last certificate.
pub open spec fn chain_verifies(chain: Seq<Seq<u8>>, at: u64) -> bool {
    path_verifies(chain[0], between(chain), chain.last(), at)
}

/// Whether a chain can be dated at all.
pub open spec fn chain_parses(chain: Seq<Seq<u8>>) -> bool {
    chain.len() > 0 && end_entity_parses(chain[0]) && anchor_parses(chain.last())
}

/// Halves the span between a second at which a chain verifies and one at which it
/// does not, down to the last second before the change.
pub open spec fn bisected(chain: Seq<Seq<u8>>, good: u64, bad: u64) -> u64
    decreases bad - good,
{
    if bad <= good || bad - good <= 1 {
        good
    } else {
        let middle = (good + (bad - good) / 2) as u64;
        if chain_verifies(chain, middle) {
            bisected(chain, middle, bad)
        } else {
            bisected(chain, good, middle)
        }
    }
}

/// When a chain stops verifying. Nothing where it does not verify now, or cannot
/// be read, or there is no telling what now is.
pub open spec fn expires(chain: Seq<Seq<u8>>, now: Option<u64>) -> Option<u64> {
    match now {
        Some(now) if chain_parses(chain) && chain_verifies(chain, now) => {
            let ceiling = (now + MAX_LIFETIME_SECS) as u64;
            if chain_verifies(chain, ceiling) {
                Some(ceiling)
            } else {
                Some(bisected(chain, now, ceiling))
            }
        },
        _ => None,
    }
}

proof fn lemma_bisected(chain: Seq<Seq<u8>>, good: u64, bad: u64)
    requires
        good < bad,
        chain_verifies(chain, good),
        !chain_verifies(chain, bad),
    ensures
        good <= bisected(chain, good, bad) < bad,
        chain_verifies(chain, bisected(chain, good, bad)),
        !chain_verifies(chain, (bisected(chain, good, bad) + 1) as u64),
    decreases bad - good,
{
    if bad - good > 1 {
        let middle = (good + (bad - good) / 2) as u64;
        if chain_verifies(chain, middle) {
            lemma_bisected(chain, middle, bad);
        } else {
            lemma_bisected(chain, good, middle);
        }
    }
}

/// The second that is reported is one at which the chain verifies, and the next
/// one is not, unless the ceiling was reached. Where the chain verifies from now
/// up to some second and never after it, that second is what is reported.
pub proof fn the_reported_second_is_the_last_usable_one(chain: Seq<Seq<u8>>, now: u64, last: u64)
    requires
        now <= u64::MAX - MAX_LIFETIME_SECS,
    ensures
        expires(chain, Some(now)) matches Some(at) ==> {
            &&& now <= at <= now + MAX_LIFETIME_SECS
            &&& chain_verifies(chain, at)
            &&& at < now + MAX_LIFETIME_SECS ==> !chain_verifies(chain, (at + 1) as u64)
        },
        chain_parses(chain) && now <= last <= now + MAX_LIFETIME_SECS && (forall|t: u64|
            now <= t <= now + MAX_LIFETIME_SECS ==> #[trigger] chain_verifies(chain, t) == (t
                <= last)) ==> expires(chain, Some(now)) == Some(last),
{
    let ceiling = (now + MAX_LIFETIME_SECS) as u64;
    if chain_parses(chain) && chain_verifies(chain, now) && !chain_verifies(chain, ceiling) {
        lemma_bisected(chain, now, ceiling);
    }
}

fn copy_bytes(bytes: &Vec<u8>) -> (out: Vec<u8>)
    ensures
        out@ == bytes@,
{
    vstd::slice::slice_to_vec(bytes.as_slice())
}

/// When a chain stops verifying, in Unix seconds.
///
/// The search asks the verifier itself, which takes the time as a parameter. It
/// finds when the whole chain breaks, not only its leaf.
pub fn expiry(chain: &Vec<Vec<u8>>, now: Option<u64>) -> (at: Option<u64>)
    requires
        now is Some ==> now->0 <= u64::MAX - MAX_LIFETIME_SECS,
    ensures
        at == expires(ders(chain@), now),
{
    let ghost named = ders(chain@);
    let n: usize = chain.len();
    if n == 0 {
        return None;
    }
    if !parses_as_end_entity(chain[0].as_slice()) {
        return None;
    }
    if !parses_as_anchor(chain[n - 1].as_slice()) {
        return None;
    }
    let mut middle_certs: Vec<Vec<u8>> = Vec::new();
    let mut i: usize = 1;
    while i < n - 1
        invariant
            n == chain@.len(),
            n > 0,
            1 <= i <= n,
            n >= 2 ==> i <= n - 1,
            middle_certs@.len() == i - 1,
            forall|j: int| 0 <= j < i - 1 ==> (#[trigger] middle_certs@[j])@ == chain@[j + 1]@,
        decreases n - i,
    {
        middle_certs.push(copy_bytes(&chain[i]));
        i = i + 1;
    }
    assert(ders(middle_certs@) =~= between(named));
    let now: u64 = match now {
        Some(now) => now,
        None => {
            return None;
        },
    };
    if !verifies(chain[0].as_slice(), &middle_certs, chain[n - 1].as_slice(), now) {
        return None;
    }
    let mut good: u64 = now;
    let mut bad: u64 = now + MAX_LIFETIME_SECS;
    if verifies(chain[0].as_slice(), &middle_certs, chain[n - 1].as_slice(), bad) {
        return Some(bad);
    }
    while bad - good > 1
        invariant
            n == chain@.len(),
            n > 0,
            named == ders(chain@),
            ders(middle_certs@) == between(named),
            good < bad,
            bisected(named, good, bad) == bisected(
                named,
                now,
                (now + MAX_LIFETIME_SECS) as u64,
            ),
        decreases bad - good,
    {
        let middle: u64 = good + (bad - good) / 2;
        if verifies(chain[0].as_slice(), &middle_certs, chain[n - 1].as_slice(), middle) {
            good = middle;
        } else {
            bad = middle;
        }
    }
    Some(good)
}

/// Records when the served chain stops verifying, for the gauge, and returns it.
///
/// Failure here is never fatal: a certificate that is already being served with
/// is not made unusable by an inability to date it. The gauge then reads zero.
pub fn record_expiry(metrics: &mut ServerMetrics, pem: Option<&[u8]>, now: Option<u64>) -> (at:
    Option<u64>)
    requires
        now is Some ==> now->0 <= u64::MAX - MAX_LIFETIME_SECS,
    ensures
        at == (match pem {
            Some(pem) => match pem_certificates(pem@) {
                Ok(chain) => expires(chain, now),
                Err(_) => None,
            },
            None => None,
        }),
        *final(metrics) == (ServerMetrics {
            tls_cert_expiry: match at {
                Some(at) => at,
                None => 0,
            },
            ..*old(metrics)
        }),
{
    let at: Option<u64> = match pem {
        None => None,
        Some(pem) => match read_chain(pem) {
            Ok(chain) => expiry(&chain, now),
            Err(_) => None,
        },
    };
    match at {
        Some(second) => metrics.tls_cert_expires_at(second),
        None => metrics.tls_cert_expires_at(0),
    }
    at
}

/// An identity that a client certificate may stand for: the name of its row, and
/// the subject a certificate must carry.
#[derive(Debug)]
pub struct Holder {
    pub name: String,
    pub subject: String,
}

/// Whether a certificate stands for a holder.
pub open spec fn held_by(certificate: Seq<u8>, holder: Holder) -> bool {
    subject_parses(holder.subject@) && certificate_names(certificate, holder.subject@)
}

/// The name of the first holder a certificate stands for.
pub open spec fn holder_of(certificate: Seq<u8>, holders: Seq<Holder>) -> Option<Seq<char>>
    decreases holders.len(),
{
    if holders.len() == 0 {
        None
    } else if held_by(certificate, holders[0]) {
        Some(holders[0].name@)
    } else {
        holder_of(certificate, holders.skip(1))
    }
}

/// Resolves a verified client certificate to the identity that holds it.
///
/// The chain is already verified by the time this runs, so this answers only
/// which row it is. Subject Alternative Names only: a certificate whose name is
/// only in its Common Name does not authenticate. A row whose subject is not a
/// name that a certificate could carry matches nothing.
pub fn identity_for(holders: &Vec<Holder>, certificate: &[u8]) -> (identity: Option<Identity>)
    ensures
        match (identity, if end_entity_parses(certificate@) {
            holder_of(certificate@, holders@)
        } else {
            None
        }) {
            (Some(found), Some(name)) => found@ == name,
            (None, None) => true,
            _ => false,
        },
{
    if !parses_as_end_entity(certificate) {
        return None;
    }
    let mut i: usize = 0;
    assert(holders@.skip(0) =~= holders@);
    while i < holders.len()
        invariant
            i <= holders@.len(),
            holder_of(certificate@, holders@.skip(i as int)) == holder_of(certificate@, holders@),
            end_entity_parses(certificate@),
        decreases holders@.len() - i,
    {
        let holder = &holders[i];
        assert(holders@.skip(i as int)[0] == *holder);
        assert(holders@.skip(i as int).skip(1) =~= holders@.skip(i + 1));
        if parses_as_subject(holder.subject.as_str()) && names(
            certificate,
            holder.subject.as_str(),
        ) {
            return Some(auth::identified(holder.name.as_str()));
        }
        i = i + 1;
    }
    None
}

/// A certificate that stands for nobody listed identifies nobody.
pub proof fn an_unlisted_certificate_identifies_nobody(
    certificate: Seq<u8>,
    holders: Seq<Holder>,
)
    ensures
        holder_of(certificate, holders) is None <==> forall|i: int|
            0 <= i < holders.len() ==> !held_by(certificate, #[trigger] holders[i]),
    decreases holders.len(),
{
    if holders.len() > 0 {
        let rest = holders.skip(1);
        an_unlisted_certificate_identifies_nobody(certificate, rest);
        if holder_of(certificate, holders) is None {
            assert forall|i: int| 0 <= i < holders.len() implies !held_by(
                certificate,
                #[trigger] holders[i],
            ) by {
                if i > 0 {
                    assert(rest[i - 1] == holders[i]);
                }
            }
        } else if held_by(certificate, holders[0]) {
        } else {
            let j = choose|j: int| 0 <= j < rest.len() && held_by(certificate, #[trigger] rest[j]);
            assert(holders[j + 1] == rest[j]);
        }
    }
}

/// A client certificate stands for the first holder whose subject it carries, and a
/// subject that no certificate could carry is nobody's.
pub proof fn a_certificate_stands_for_the_holder_it_names(
    certificate: Seq<u8>,
    holders: Seq<Holder>,
    i: int,
)
    requires
        0 <= i < holders.len(),
        held_by(certificate, holders[i]),
        forall|j: int| 0 <= j < i ==> !held_by(certificate, #[trigger] holders[j]),
    ensures
        holder_of(certificate, holders) == Some(holders[i].name@),
        subject_parses(holders[i].subject@),
        certificate_names(certificate, holders[i].subject@),
    decreases i,
{
    if i > 0 {
        let rest = holders.skip(1);
        assert(!held_by(certificate, holders[0]));
        assert forall|j: int| 0 <= j < i - 1 implies !held_by(certificate, #[trigger] rest[j]) by {
            assert(rest[j] == holders[j + 1]);
        }
        a_certificate_stands_for_the_holder_it_names(certificate, rest, i - 1);
    }
}

/// A chain is dated with the leaf at its start, its last certificate as the anchor, and
/// every other one between them.
pub proof fn a_chain_is_taken_apart_whole(chain: Seq<Seq<u8>>)
    requires
        chain.len() > 1,
    ensures
        seq![chain[0]] + between(chain) + seq![chain.last()] == chain,
        chain_verifies(chain, 0) == path_verifies(chain[0], between(chain), chain.last(), 0),
{
    assert(seq![chain[0]] + between(chain) + seq![chain.last()] =~= chain);
}

} // verus!
