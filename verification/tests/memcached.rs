use vash_server::auth::{Auth, ConnAuth};
use vash_server::config::ProtocolConfig;
use vash_server::dispatch::{Closing, Failed};
use vash_server::domain::{Command, Key, Listing, Reply, SetMode, SetRequest, Status, TtlChange};
use vash_server::memcached::{
    begin_cachedump, begin_dump, dump_cut_error, execute_unauthenticated, executed_answer,
    listing_page, memcached_error, meta_get_answer, retrieve_answer, route, split_credential,
    unparsed, Answer, CacheDump, CacheDumpStart, Dump, DumpNext, DumpStart, ErrorKind, Parsed,
    ResponseStyle, Route, StatsSection,
};
use vash_server::metrics::ServerMetrics;

const SECRET: &str = "hunter2hunter2hu";

fn key(bytes: &[u8]) -> Key<'_> {
    Key::new(bytes, 250).unwrap()
}

fn parsed(command: Command<'_>, style: ResponseStyle) -> Parsed<'_> {
    Parsed { command, style, noreply: false }
}

fn auth_set(value: &[u8], mode: SetMode) -> Command<'_> {
    Command::SetOne(SetRequest {
        key: key(b"ignored"),
        value,
        ttl: TtlChange::To(0),
        mc_flags: 0,
        tags: Vec::new(),
        mode,
        return_previous: false,
    })
}

#[test]
fn a_gated_command_goes_nowhere() {
    let mut metrics = ServerMetrics::default();
    let get = parsed(Command::GetMany(vec![key(b"k")]), ResponseStyle::Retrieval { with_cas: false });
    assert!(matches!(route(&mut metrics, true, &get), Route::Unauthenticated));
    assert!(matches!(
        route(&mut metrics, false, &get),
        Route::Retrieve { with_cas: false, .. }
    ));
}

#[test]
fn only_one_key_is_rendered_straight_out_of_the_store() {
    let mut metrics = ServerMetrics::default();
    let style = ResponseStyle::Retrieval { with_cas: true };
    let two = parsed(Command::GetMany(vec![key(b"a"), key(b"b")]), style);
    assert!(matches!(route(&mut metrics, false, &two), Route::Execute));
    // A get-and-touch shares the style and writes.
    let touch = parsed(Command::GetAndTouch { keys: vec![key(b"a")], ttl_secs: 1 }, style);
    assert!(matches!(route(&mut metrics, false, &touch), Route::Execute));
    let meta = parsed(Command::Get { key: key(b"a") }, ResponseStyle::MetaGet);
    assert!(matches!(route(&mut metrics, false, &meta), Route::MetaGet { .. }));
    let quiet = Parsed { noreply: true, ..meta };
    assert!(matches!(route(&mut metrics, false, &quiet), Route::Execute));
    assert_eq!(metrics.outcomes.meta_commands, 2);
}

#[test]
fn a_section_about_the_server_is_counted_here() {
    let mut metrics = ServerMetrics::default();
    let conns = parsed(Command::Stats, ResponseStyle::Stats(StatsSection::Conns));
    assert!(matches!(
        route(&mut metrics, false, &conns),
        Route::Section(StatsSection::Conns)
    ));
    assert_eq!(metrics.commands_total, 1);
    let general = parsed(Command::Stats, ResponseStyle::Stats(StatsSection::General));
    assert!(matches!(route(&mut metrics, false, &general), Route::Execute));
    assert_eq!(metrics.commands_total, 1);
}

#[test]
fn a_miss_is_worded_by_its_dialect() {
    assert!(matches!(retrieve_answer(Ok(true)), Answer::RetrievalEnd));
    assert!(matches!(retrieve_answer(Ok(false)), Answer::RetrievalEnd));
    assert!(matches!(meta_get_answer(Ok(true)), Answer::Nothing));
    assert!(matches!(meta_get_answer(Ok(false)), Answer::MetaMiss));
    let failed = Failed::status(Status::Internal);
    assert!(matches!(meta_get_answer(Err(failed)), Answer::Error(ErrorKind::Server(_))));
}

#[test]
fn quitting_ends_the_connection_even_silently() {
    let (answer, closing) = executed_answer(true, &Ok(Reply::Closing));
    assert!(matches!(answer, Answer::Nothing));
    assert_eq!(closing, Closing::Yes);
    let (answer, closing) = executed_answer(false, &Ok(Reply::Pong));
    assert!(matches!(answer, Answer::Reply));
    assert_eq!(closing, Closing::No);
}

#[test]
fn errors_are_the_clients_or_the_servers() {
    assert!(matches!(memcached_error(Status::TooLarge), ErrorKind::Server("object too large for cache")));
    assert!(matches!(memcached_error(Status::CapacityFull), ErrorKind::Server(_)));
    assert!(matches!(memcached_error(Status::BadRequest), ErrorKind::Client(_)));
    assert!(matches!(memcached_error(Status::Unauthorized), ErrorKind::Client(_)));
}

#[test]
fn a_stranger_cannot_probe_the_parser() {
    let mut metrics = ServerMetrics::default();
    assert!(matches!(
        unparsed(&mut metrics, true, ErrorKind::Error),
        ErrorKind::Client("unauthenticated")
    ));
    assert_eq!(metrics.auth_refused, 1);
    assert!(matches!(unparsed(&mut metrics, false, ErrorKind::Error), ErrorKind::Error));
    assert_eq!(metrics.auth_refused, 1);
}

#[test]
fn one_space_splits_a_credential() {
    assert_eq!(split_credential(b"user pass"), Some((&b"user"[..], &b"pass"[..])));
    for block in [&b""[..], b"user", b" pass", b"user ", b"user two words"] {
        assert_eq!(split_credential(block), None, "{block:?}");
    }
}

#[test]
fn authentication_tunnels_through_a_set() {
    let table = Auth::for_test(true, "user", SECRET.as_bytes());
    let mut metrics = ServerMetrics::default();
    let mut conn = ConnAuth::default();
    let good = format!("user {SECRET}");
    let mut attempt = |conn: &mut ConnAuth, command: Command, noreply: bool| {
        let parsed = Parsed { command, style: ResponseStyle::Storage, noreply };
        execute_unauthenticated(&mut metrics, conn, &table, &parsed)
    };
    let reason = |answer: Answer| match answer {
        Answer::Error(ErrorKind::Client(reason)) => reason,
        other => panic!("{other:?}"),
    };
    let (answer, _) = attempt(&mut conn, Command::Ping, false);
    assert_eq!(reason(answer), "unauthenticated");
    let (answer, _) = attempt(&mut conn, auth_set(good.as_bytes(), SetMode::Add), false);
    assert_eq!(reason(answer), "unauthenticated");
    assert_eq!(conn.failures(), 0);
    let (answer, _) = attempt(&mut conn, auth_set(b"malformed", SetMode::Always), false);
    assert_eq!(reason(answer), "bad authentication token format");
    let (answer, _) = attempt(&mut conn, auth_set(b"user wrong", SetMode::Always), false);
    assert_eq!(reason(answer), "authentication failure");
    assert_eq!(conn.failures(), 2);
    let (answer, closing) = attempt(&mut conn, auth_set(b"user wrong", SetMode::Always), true);
    assert!(matches!(answer, Answer::Nothing));
    assert_eq!(closing, Closing::No);
    let (answer, _) = attempt(&mut conn, auth_set(good.as_bytes(), SetMode::Always), false);
    assert!(matches!(answer, Answer::Authenticated));
    assert_eq!(conn.identity().unwrap().name(), "user");
    let (answer, closing) = attempt(&mut conn, Command::Quit, false);
    assert!(matches!(answer, Answer::Nothing));
    assert_eq!(closing, Closing::Yes);
    assert_eq!((metrics.auth_ok, metrics.auth_failed, metrics.auth_refused), (1, 3, 2));
}

#[test]
fn a_dump_spends_one_listings_budget() {
    let mut protocol = ProtocolConfig::default();
    assert!(matches!(
        begin_dump(&protocol, Dump { selected: false }),
        DumpStart::Refused(Failed { status: Status::Unauthorized, .. })
    ));
    protocol.listing_enabled = true;
    protocol.listing_max_scan = 100;
    assert!(matches!(begin_dump(&protocol, Dump { selected: false }), DumpStart::Empty));
    let mut run = match begin_dump(&protocol, Dump { selected: true }) {
        DumpStart::Page(run) => run,
        other => panic!("{other:?}"),
    };
    assert_eq!(run.request(10).cursor, b"");
    assert_eq!(run.after_page(60, Some(b"here".to_vec())), DumpNext::Page);
    assert_eq!(run.request(10).cursor, b"here");
    assert_eq!(run.request(10).limit, 10);
    assert_eq!(run.after_page(40, Some(b"there".to_vec())), DumpNext::Cut);
    assert_eq!(run.after_page(1, None), DumpNext::Finished);
    assert!(matches!(dump_cut_error(), ErrorKind::Server(reason) if reason.contains("scan budget")));
}

#[test]
fn a_cachedump_is_one_page() {
    let mut protocol = ProtocolConfig::default();
    let dump = CacheDump { selected: true, limit: 5 };
    assert!(matches!(begin_cachedump(&protocol, dump), CacheDumpStart::Refused(_)));
    protocol.listing_enabled = true;
    assert!(matches!(begin_cachedump(&protocol, dump), CacheDumpStart::Page(5)));
    let other = CacheDump { selected: false, limit: 5 };
    assert!(matches!(begin_cachedump(&protocol, other), CacheDumpStart::Empty));
    let listing = Listing { entries: Vec::new(), cursor: None, scanned: 3 };
    assert_eq!(listing_page(Reply::Listing(listing)).unwrap().scanned, 3);
    assert_eq!(listing_page(Reply::Pong).unwrap_err().status, Status::Internal);
}
