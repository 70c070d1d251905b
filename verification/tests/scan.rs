use vash_server::scan::{ScanCursors, START};

const SECOND: u128 = 1_000_000_000;
const MILLI: u128 = 1_000_000;

fn table() -> ScanCursors {
    ScanCursors::new(4, 60 * SECOND)
}

#[test]
fn a_position_round_trips_through_its_token() {
    let mut cursors = table();
    let token = cursors.issue(b"\x00\x00session:42", 0);
    assert_eq!(
        cursors.resolve(token, 0).as_deref(),
        Some(&b"\x00\x00session:42"[..])
    );
}

#[test]
fn no_token_is_ever_the_start_sentinel() {
    let mut cursors = table();
    for _ in 0..8 {
        assert_ne!(cursors.issue(b"x", 0), START);
    }
}

#[test]
fn resolving_does_not_consume() {
    let mut cursors = table();
    let token = cursors.issue(b"x", 0);
    assert!(cursors.resolve(token, 0).is_some());
    assert!(cursors.resolve(token, 0).is_some());
}

#[test]
fn an_unknown_token_resolves_to_nothing() {
    let mut cursors = table();
    let token = cursors.issue(b"x", 0);
    assert!(cursors.resolve(token + 1, 0).is_none());
    assert!(cursors.resolve(START, 0).is_none());
    assert!(cursors.resolve(u64::MAX, 0).is_none());
}

#[test]
fn capacity_drops_the_oldest_and_keeps_the_newest() {
    let mut cursors = table();
    let first = cursors.issue(b"1", 0);
    for _ in 0..4 {
        cursors.issue(b"n", 0);
    }

    assert_eq!(cursors.len(), 4, "the table is bounded");
    assert!(
        cursors.resolve(first, 0).is_none(),
        "the oldest token is the one that goes"
    );
}

#[test]
fn a_live_iterations_token_survives_other_traffic() {
    let mut cursors = table();
    for _ in 0..16 {
        cursors.issue(b"theirs", 0);
        cursors.issue(b"theirs", 0);
        cursors.issue(b"theirs", 0);

        let mine = cursors.issue(b"mine", 0);
        assert!(cursors.resolve(mine, 0).is_some());
    }
}

#[test]
fn an_expired_token_is_refused_even_with_no_sweep() {
    let mut cursors = ScanCursors::new(4, MILLI);
    let token = cursors.issue(b"x", 0);

    assert_eq!(cursors.len(), 1, "nothing swept it");
    assert!(cursors.resolve(token, 5 * MILLI).is_none(), "and it is still refused");
}

#[test]
fn the_sweep_reclaims_expired_entries() {
    let mut cursors = ScanCursors::new(64, MILLI);
    for _ in 0..8 {
        cursors.issue(b"x", 0);
    }

    cursors.issue(b"fresh", 5 * MILLI);
    assert_eq!(cursors.len(), 1, "the sweep runs on issue");
}

#[test]
fn tokens_count_up_from_one() {
    let mut cursors = table();
    assert!(cursors.can_issue());
    assert_eq!(cursors.issue(b"a", 0), 1);
    assert_eq!(cursors.issue(b"b", 0), 2);
    assert_eq!(cursors.resolve(2, 0).unwrap(), b"b");
}

#[test]
fn a_token_lives_exactly_its_time() {
    let mut cursors = ScanCursors::new(4, 10);
    let token = cursors.issue(b"x", 100);
    assert!(cursors.resolve(token, 109).is_some());
    assert!(cursors.resolve(token, 110).is_none());
    // A clock that reads earlier than the issue expires nothing.
    assert!(cursors.resolve(token, 50).is_some());
}

#[test]
fn a_table_without_room_keeps_nothing() {
    let mut cursors = ScanCursors::new(0, SECOND);
    let token = cursors.issue(b"x", 0);
    assert_eq!(cursors.len(), 0);
    assert!(cursors.resolve(token, 0).is_none());
}
