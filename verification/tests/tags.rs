use vash_server::domain::{TagGeneration, TagOffer};
use vash_server::tags::{build_digest, tag_sync};

fn tag(name: &str, generation: u64) -> TagGeneration {
    TagGeneration {
        name: name.as_bytes().to_vec(),
        generation,
    }
}

fn shown(list: &[TagGeneration]) -> Vec<(String, u64)> {
    list.iter()
        .map(|t| (String::from_utf8(t.name.clone()).unwrap(), t.generation))
        .collect()
}

fn pairs(list: &[(&str, u64)]) -> Vec<(String, u64)> {
    list.iter().map(|(n, g)| (n.to_string(), *g)).collect()
}

#[test]
fn a_peer_is_told_what_it_is_behind_on() {
    let known = vec![tag("a", 5), tag("b", 2), tag("c", 0), tag("d", 1)];
    let offered = vec![
        TagOffer { name: b"a", generation: 3 },
        TagOffer { name: b"b", generation: 2 },
        TagOffer { name: b"new", generation: 9 },
    ];
    assert_eq!(shown(&tag_sync(false, &offered, &known, 10)), pairs(&[("a", 5)]));
    // A whole table licenses an answer about what was not mentioned.
    assert_eq!(
        shown(&tag_sync(true, &offered, &known, 10)),
        pairs(&[("a", 5), ("d", 1)])
    );
    assert_eq!(shown(&tag_sync(true, &offered, &known, 1)), pairs(&[("a", 5)]));
}

#[test]
fn a_table_that_fits_is_offered_whole() {
    let known = vec![tag("b", 2), tag("never", 0), tag("a", 1)];
    let (full, digest) = build_digest(&known, 7, 2);
    assert!(full);
    assert_eq!(shown(&digest), pairs(&[("b", 2), ("a", 1)]));
}

#[test]
fn a_larger_table_is_offered_in_turns() {
    let known = vec![tag("c", 3), tag("a", 1), tag("e", 5), tag("b", 2), tag("d", 4)];
    let round = |n| {
        let (full, digest) = build_digest(&known, n, 2);
        assert!(!full);
        shown(&digest)
    };
    assert_eq!(round(0), pairs(&[("a", 1), ("b", 2)]));
    assert_eq!(round(1), pairs(&[("c", 3), ("d", 4)]));
    assert_eq!(round(2), pairs(&[("e", 5), ("a", 1)]));
    assert_eq!(round(3), pairs(&[("b", 2), ("c", 3)]));
}

#[test]
fn any_lap_of_rounds_offers_every_tag() {
    let names = ["a", "b", "c", "d", "e", "f", "g"];
    let known: Vec<TagGeneration> = names.iter().map(|name| tag(name, 1)).collect();
    for max in 1..known.len() {
        let lap = known.len().div_ceil(max);
        for first in 0..20 {
            let mut offered: Vec<Vec<u8>> = (first..first + lap)
                .flat_map(|round| build_digest(&known, round, max).1)
                .map(|entry| entry.name)
                .collect();
            offered.sort();
            offered.dedup();
            assert_eq!(offered.len(), known.len(), "windows of {max} from round {first}");
        }
    }
}

#[test]
fn two_nodes_converge_on_the_larger_generations() {
    let mut ours = vec![tag("x", 1), tag("y", 7)];
    let theirs = vec![tag("x", 4), tag("z", 2)];
    let (full, digest) = build_digest(&ours, 0, 100);
    let offered: Vec<TagOffer> = digest
        .iter()
        .map(|t| TagOffer { name: &t.name, generation: t.generation })
        .collect();
    for learned in tag_sync(full, &offered, &theirs, 100) {
        match ours.iter_mut().find(|t| t.name == learned.name) {
            Some(known) => known.generation = known.generation.max(learned.generation),
            None => ours.push(learned),
        }
    }
    assert_eq!(shown(&ours), pairs(&[("x", 4), ("y", 7), ("z", 2)]));
}
