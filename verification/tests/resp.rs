use vash_server::auth::{Auth, ConnAuth};
use vash_server::dispatch::Failed;
use vash_server::domain::{
    Applied, Command, CoreError, Deadline, ListEntry, Listing, Number, Reply, Status, TtlChange,
    Value, TTL_ALREADY_EXPIRED,
};
use vash_server::metrics::ServerMetrics;
use vash_server::resp::{
    answer_scan, authenticate, begin_scan, count_failure, count_unparsed, inline_safe,
    next_scan_token, refusal, render, resp_error, route, run_auth, run_hello, scan_request,
    translate, ttl_change_for, ttl_from_deadline, Condition, ExpireCondition, Expiry, IncrEx,
    Increment, Pair, Piece, Presented, RespCommand, RespSet, Route, Scan, ScanStart, Version,
};
use vash_server::scan::ScanCursors;

const SECRET: &[u8] = b"hunter2hunter2hu";
const MAX_KEY: usize = 250;

fn storage_commands() -> Vec<RespCommand<'static>> {
    let set = |condition, expiry, return_previous| {
        RespCommand::SetOne(RespSet {
            key: b"k",
            value: b"v",
            condition,
            expiry,
            return_previous,
        })
    };
    vec![
        RespCommand::Ping { message: None },
        RespCommand::Get { key: b"k" },
        RespCommand::MGet { keys: vec![b"k"] },
        RespCommand::Exists { keys: vec![b"k"] },
        RespCommand::Type { key: b"k" },
        RespCommand::Ttl { key: b"k" },
        RespCommand::Delete { keys: vec![b"k"] },
        set(Condition::Always, Expiry::Unset, false),
        set(Condition::IfAbsent, Expiry::Keep, true),
        RespCommand::MSet {
            pairs: vec![Pair { key: b"k", value: b"v" }],
        },
        RespCommand::MSetEx {
            pairs: vec![Pair { key: b"k", value: b"v" }],
            condition: Condition::IfAbsent,
            expiry: Expiry::After(1000),
        },
        RespCommand::Append {
            key: b"k",
            value: b"v",
        },
        RespCommand::Expire {
            key: b"k",
            expiry: Expiry::After(1000),
            condition: ExpireCondition::IfLater,
        },
        RespCommand::Persist { key: b"k" },
        RespCommand::Incr {
            key: b"k",
            delta: Increment::Int(1),
        },
        RespCommand::IncrEx(IncrEx {
            key: b"k",
            delta: Increment::Int(1),
            lower: None,
            upper: None,
            saturate: false,
            expiry: None,
            only_if_persistent: false,
        }),
    ]
}

#[test]
fn the_shortcut_agrees_with_the_domain() {
    for command in storage_commands() {
        let translated = translate(&command, 0, MAX_KEY).expect("a storage command translates");
        assert_eq!(
            inline_safe(&command),
            translated.inline_safe(),
            "{command:?} is classified differently by the shortcut and by the domain"
        );
    }
}

#[test]
fn the_connection_commands_are_inline_safe() {
    let credential = Presented {
        name: None,
        secret: b"s",
    };
    for command in [
        RespCommand::Quit,
        RespCommand::Auth(credential),
        RespCommand::Hello {
            version: Some(3),
            auth: None,
        },
    ] {
        assert!(inline_safe(&command), "{command:?} must be inline-safe");
        assert!(
            translate(&command, 0, MAX_KEY).is_err(),
            "{command:?} must not reach the storage boundary"
        );
    }
}

#[test]
fn a_gated_connection_may_only_authenticate() {
    let get = RespCommand::Get { key: b"k" };
    assert!(refusal(false, &get).is_none());
    let failure = refusal(true, &get).unwrap();
    assert_eq!(failure.code, "NOAUTH");
    assert_eq!(failure.message, "Authentication required.");
    assert!(refusal(true, &RespCommand::Quit).is_none());
    let bare = RespCommand::Hello { version: Some(3), auth: None };
    assert_eq!(refusal(true, &bare).unwrap().code, "NOAUTH");
    let with = RespCommand::Hello {
        version: Some(3),
        auth: Some(Presented { name: None, secret: b"s" }),
    };
    assert!(refusal(true, &with).is_none());
}

#[test]
fn a_one_argument_auth_is_the_default_identity() {
    let table = Auth::for_test(true, "default", SECRET);
    let mut metrics = ServerMetrics::default();
    let mut conn = ConnAuth::default();
    let wrong = Presented { name: None, secret: b"nope" };
    let failure = authenticate(&mut metrics, &mut conn, &table, &wrong).unwrap_err();
    assert_eq!(failure.code, "WRONGPASS");
    assert_eq!(conn.failures(), 1);
    let right = Presented { name: None, secret: SECRET };
    assert!(authenticate(&mut metrics, &mut conn, &table, &right).is_ok());
    assert_eq!(conn.identity().unwrap().name(), "default");
    assert_eq!(metrics.auth_ok, 1);
    assert_eq!(metrics.auth_failed, 1);
}

#[test]
fn a_command_that_goes_no_further_is_counted_where_it_stops() {
    let mut metrics = ServerMetrics::default();
    let get = RespCommand::Get { key: b"k" };
    assert!(matches!(route(&mut metrics, true, &get, 0, MAX_KEY), Route::Refused(_)));
    assert_eq!(metrics.auth_refused, 1);
    assert_eq!((metrics.commands_total, metrics.errors_client), (1, 1));
    assert!(matches!(route(&mut metrics, true, &RespCommand::Quit, 0, MAX_KEY), Route::Quit));
    assert_eq!(metrics.commands_total, 2);
    assert!(matches!(route(&mut metrics, false, &get, 0, MAX_KEY), Route::Get(_)));
    assert_eq!(metrics.commands_total, 2);
    let empty = RespCommand::Get { key: b"" };
    match route(&mut metrics, false, &empty, 0, MAX_KEY) {
        Route::Failed(failure) => count_failure(&mut metrics, &failure),
        other => panic!("{other:?}"),
    }
    assert_eq!((metrics.commands_total, metrics.errors_client), (3, 2));
    count_unparsed(&mut metrics);
    assert_eq!((metrics.commands_total, metrics.errors_client), (4, 3));
}

#[test]
fn a_credential_counts_as_a_command_whatever_became_of_it() {
    let table = Auth::for_test(true, "default", SECRET);
    let mut metrics = ServerMetrics::default();
    let mut conn = ConnAuth::default();
    let wrong = Presented { name: None, secret: b"nope" };
    assert!(run_auth(&mut metrics, &mut conn, &table, &wrong).is_err());
    let right = Presented { name: None, secret: SECRET };
    assert!(run_auth(&mut metrics, &mut conn, &table, &right).is_ok());
    assert_eq!(metrics.commands_total, 2);
    assert_eq!((metrics.auth_ok, metrics.auth_failed), (1, 1));
}

#[test]
fn a_wrong_name_and_a_wrong_secret_are_told_the_same() {
    let table = Auth::for_test(true, "default", SECRET);
    let mut metrics = ServerMetrics::default();
    let mut conn = ConnAuth::default();
    let bad_secret = Presented { name: Some(b"default"), secret: b"nope" };
    let bad_name = Presented { name: Some(b"nobody"), secret: SECRET };
    let first = run_auth(&mut metrics, &mut conn, &table, &bad_secret).unwrap_err();
    let second = run_auth(&mut metrics, &mut conn, &table, &bad_name).unwrap_err();
    assert_eq!((first.code, first.message), (second.code, second.message));
}

#[test]
fn hello_negotiates_and_refuses_what_it_does_not_speak() {
    let table = Auth::default();
    let mut metrics = ServerMetrics::default();
    let mut conn = ConnAuth::default();
    let mut version = Version::default();
    assert!(run_hello(&mut metrics, &mut conn, &table, Some(3), None, &mut version).is_ok());
    assert_eq!(version, Version::Resp3);
    assert!(run_hello(&mut metrics, &mut conn, &table, None, None, &mut version).is_ok());
    assert_eq!(version, Version::Resp3);
    let failure = run_hello(&mut metrics, &mut conn, &table, Some(4), None, &mut version).unwrap_err();
    assert_eq!(failure.code, "NOPROTO");
    assert_eq!(version, Version::Resp3);
}

#[test]
fn a_deadline_is_rounded_to_the_nearest_second_and_stays_ahead() {
    let now: i64 = 1_700_000_000_000;
    assert_eq!(ttl_from_deadline(now, now), TTL_ALREADY_EXPIRED);
    assert_eq!(ttl_from_deadline(now - 1, now), TTL_ALREADY_EXPIRED);
    assert_eq!(ttl_from_deadline(now + 60_000, now), 1_700_000_060);
    assert_eq!(ttl_from_deadline(now + 60_499, now), 1_700_000_060);
    assert_eq!(ttl_from_deadline(now + 60_500, now), 1_700_000_061);
    // A tenth of a second buys up to a full one.
    assert_eq!(ttl_from_deadline(now + 100, now), 1_700_000_001);
    // A stamp inside the first thirty days of 1970 would be read as an offset.
    assert_eq!(ttl_from_deadline(2_592_000_000, 0), TTL_ALREADY_EXPIRED);
    assert_eq!(ttl_from_deadline(-5, -10), TTL_ALREADY_EXPIRED);
    assert_eq!(ttl_from_deadline(i64::MAX, now), u32::MAX - 1);
}

#[test]
fn an_expiry_option_changes_the_lifetime() {
    let now: i64 = 1_700_000_000_000;
    assert_eq!(ttl_change_for(Expiry::Unset, now, "m").unwrap(), TtlChange::To(0));
    assert_eq!(ttl_change_for(Expiry::Persist, now, "m").unwrap(), TtlChange::To(0));
    assert_eq!(ttl_change_for(Expiry::Keep, now, "m").unwrap(), TtlChange::Keep);
    assert_eq!(
        ttl_change_for(Expiry::After(5_000), now, "m").unwrap(),
        TtlChange::To(1_700_000_005)
    );
    assert_eq!(
        ttl_change_for(Expiry::At(now + 7_000), now, "m").unwrap(),
        TtlChange::To(1_700_000_007)
    );
    assert_eq!(
        ttl_change_for(Expiry::After(i64::MAX), now, "too far").unwrap_err().message,
        "too far"
    );
}

#[test]
fn an_empty_key_is_a_client_error() {
    let failure = translate(&RespCommand::Get { key: b"" }, 0, MAX_KEY).unwrap_err();
    assert_eq!(failure.code, "ERR");
    assert!(!failure.counted);
    assert!(translate(&RespCommand::Get { key: &[b'k'; 251] }, 0, MAX_KEY).is_err());
}

#[test]
fn a_ttl_is_answered_in_seconds() {
    let command = RespCommand::Ttl { key: b"k" };
    let at = |deadline| Reply::Deadline(deadline);
    let piece = |reply: Reply, now: u64| match &render(&command, &reply, now).unwrap()[..] {
        [Piece::Integer(n)] => *n,
        other => panic!("{other:?}"),
    };
    assert_eq!(piece(at(None), 0), -2);
    assert_eq!(piece(at(Some(Deadline::Never)), 0), -1);
    assert_eq!(piece(at(Some(Deadline::At(10_000))), 0), 10);
}

/// What `EX` asks for is what `TTL` answers at once.
#[test]
fn ttl_answers_what_ex_asked_for() {
    for now in [1_700_000_000_000u64, 1_700_000_000_499, 1_700_000_000_501] {
        let stamp = ttl_from_deadline(now as i64 + 60_000, now as i64);
        let reply = Reply::Deadline(Some(Deadline::At(u64::from(stamp) * 1_000)));
        let pieces = render(&RespCommand::Ttl { key: b"k" }, &reply, now).unwrap();
        assert!(matches!(pieces[..], [Piece::Integer(60)]), "{now}: {pieces:?}");
    }
}

#[test]
fn a_value_renders_as_a_bulk_string_and_a_miss_as_null() {
    let command = RespCommand::Get { key: b"k" };
    let reply = Reply::Value(Value {
        data: b"data".to_vec(),
        mc_flags: 0,
        cas: 1,
        expires_at_ms: None,
    });
    assert!(matches!(render(&command, &reply, 0).unwrap()[..], [Piece::Bulk(b"data")]));
    assert!(matches!(render(&command, &Reply::NotFound, 0).unwrap()[..], [Piece::Null]));
    // A reply that this command cannot have is an internal error.
    assert_eq!(render(&command, &Reply::Pong, 0).unwrap_err().message, "internal error");
}

#[test]
fn a_counter_renders_its_new_value() {
    let command = RespCommand::Incr { key: b"k", delta: Increment::Int(2) };
    let reply = Reply::Arithmetic(Applied {
        value: Number::Int(12),
        applied: Number::Int(2),
        wrote: true,
    });
    assert!(matches!(render(&command, &reply, 0).unwrap()[..], [Piece::Integer(12)]));
}

#[test]
fn a_store_failure_keeps_its_wire_code() {
    let full = resp_error(Failed { status: Status::CapacityFull, cause: None });
    assert_eq!(full.code, "OOM");
    assert!(full.counted);
    let number = resp_error(Failed { status: Status::NotNumeric, cause: Some(CoreError::NotAnInteger) });
    assert_eq!(number.message, "value is not an integer or out of range");
}

#[test]
fn a_scan_pages_until_it_ends() {
    let mut cursors = ScanCursors::new(4, 1_000);
    let op = Scan { token: 0, count: 10, pattern: b"*", only_strings: true };
    let start = match begin_scan(&op, &cursors, 0) {
        ScanStart::Page(cursor) => cursor,
        other => panic!("{other:?}"),
    };
    assert!(start.is_empty());
    let request = scan_request(&op, &start);
    assert_eq!(request.limit, 10);
    assert_eq!(request.pattern, b"*");

    let page = Listing {
        entries: vec![ListEntry { name: b"a".to_vec(), expires_at_ms: None, size: 0 }],
        cursor: Some(b"next".to_vec()),
        scanned: 1,
    };
    let token = next_scan_token(&page, &mut cursors, 0);
    assert_eq!(token, 1);
    let resumed = Scan { token, ..op };
    assert!(matches!(begin_scan(&resumed, &cursors, 0), ScanStart::Page(c) if c == b"next"));
    // Past its time the token names nothing.
    assert!(matches!(begin_scan(&resumed, &cursors, 1_000), ScanStart::Refused(_)));

    let last = Listing { entries: Vec::new(), cursor: None, scanned: 0 };
    assert_eq!(next_scan_token(&last, &mut cursors, 0), 0);
    let pieces = answer_scan(token, &page.entries);
    assert!(matches!(pieces[0], Piece::Array(2)), "{pieces:?}");
    assert!(matches!(pieces.last(), Some(Piece::Bulk(b"a"))));

    let typed = Scan { only_strings: false, ..op };
    assert!(matches!(begin_scan(&typed, &cursors, 0), ScanStart::Nothing));
}

#[test]
fn a_write_translates_with_its_options() {
    let command = RespCommand::SetOne(RespSet {
        key: b"k",
        value: b"v",
        condition: Condition::IfAbsent,
        expiry: Expiry::After(2_000),
        return_previous: true,
    });
    match translate(&command, 1_700_000_000_000, MAX_KEY).unwrap() {
        Command::SetOne(set) => {
            assert_eq!(set.key.bytes, b"k");
            assert_eq!(set.value, b"v");
            assert_eq!(set.ttl, TtlChange::To(1_700_000_002));
            assert_eq!(set.mode, vash_server::domain::SetMode::Add);
            assert!(set.return_previous);
        }
        other => panic!("{other:?}"),
    }
}
