use vash_server::config::ProtocolConfig;
use vash_server::dispatch::{
    count, execute, execute_get_into, listing_gate, offset_to_store_ttl, offsets_to_store_ttls,
    plan, server_info, settle, to_failed, CapabilityBits, Effect, Failed, Gates, Performed, Plan,
    StoreAnswer, StoreCall, StoreError,
};
use vash_server::domain::{
    BatchGuard, Command, CoreError, Deadline, Key, ListRequest, Reply, ServerInfo, SetMode,
    SetRequest, Status, Stored, TagGeneration, TagOffer, TtlChange, Value,
};
use vash_server::metrics::{CommandKind, Dialect, ServerMetrics};

fn key(bytes: &[u8]) -> Key<'_> {
    Key::new(bytes, 250).unwrap()
}

fn info() -> ServerInfo {
    ServerInfo {
        protocol_version: 3,
        shards: 1,
        max_key_len: 250,
        max_value_len: 1024,
        capabilities: 0,
        max_tags_per_record: 32,
    }
}

fn gates(protocol: ProtocolConfig) -> Gates {
    Gates {
        protocol_version: 3,
        info: info(),
        protocol,
    }
}

fn set(ttl: TtlChange, return_previous: bool) -> SetRequest<'static> {
    SetRequest {
        key: key(b"k"),
        value: b"v",
        ttl,
        mc_flags: 0,
        tags: Vec::new(),
        mode: SetMode::Always,
        return_previous,
    }
}

fn value(data: &[u8]) -> Value {
    Value {
        data: data.to_vec(),
        mc_flags: 0,
        cas: 1,
        expires_at_ms: None,
    }
}

#[test]
fn a_handshake_of_another_version_is_refused() {
    let gates = gates(ProtocolConfig::default());
    assert!(matches!(
        plan(&Command::Hello { protocol_version: 3 }, &gates),
        Plan::Answer(Ok(Reply::Hello(hello))) if hello == info()
    ));
    assert!(matches!(
        plan(&Command::Hello { protocol_version: 2 }, &gates),
        Plan::Answer(Err(Failed { status: Status::Unsupported, cause: None }))
    ));
    assert!(matches!(plan(&Command::Ping, &gates), Plan::Answer(Ok(Reply::Pong))));
    assert!(matches!(plan(&Command::Quit, &gates), Plan::Answer(Ok(Reply::Closing))));
}

#[test]
fn what_was_not_enabled_is_refused() {
    let mut protocol = ProtocolConfig::default();
    let request = ListRequest { limit: 1, cursor: b"", pattern: b"" };
    let refused = |plan: Plan| matches!(
        plan,
        Plan::Answer(Err(Failed { status: Status::Unauthorized, cause: None }))
    );
    assert!(listing_gate(&protocol).is_err());
    assert!(refused(plan(&Command::Flush, &gates(protocol))));
    assert!(refused(plan(&Command::ListKeys(request), &gates(protocol))));
    assert!(refused(plan(&Command::ListTags(request), &gates(protocol))));
    protocol.flush_enabled = true;
    protocol.listing_enabled = true;
    protocol.listing_max_scan = 77;
    assert!(matches!(plan(&Command::Flush, &gates(protocol)), Plan::Ask(StoreCall::Flush)));
    assert!(matches!(
        plan(&Command::ListKeys(request), &gates(protocol)),
        Plan::Ask(StoreCall::ListKeys { max_scan: 77, .. })
    ));
    assert!(listing_gate(&protocol).is_ok());
}

#[test]
fn a_guarded_batch_is_another_call() {
    let gates = gates(ProtocolConfig::default());
    let plain = Command::SetMany { sets: Vec::new(), guard: BatchGuard::Always };
    assert!(matches!(plan(&plain, &gates), Plan::Ask(StoreCall::SetMany(_))));
    let guarded = Command::SetMany { sets: Vec::new(), guard: BatchGuard::IfAllAbsent };
    assert!(matches!(
        plan(&guarded, &gates),
        Plan::Ask(StoreCall::SetManyIf { guard: BatchGuard::IfAllAbsent, .. })
    ));
}

#[test]
fn every_store_failure_has_its_status() {
    for (error, status) in [
        (StoreError::CapacityFull, Status::CapacityFull),
        (StoreError::TagLimit, Status::CapacityFull),
        (StoreError::Overloaded, Status::Overloaded),
        (StoreError::ShuttingDown, Status::Overloaded),
        (StoreError::Unsupported, Status::Unsupported),
        (StoreError::Other, Status::Internal),
        (StoreError::Core(CoreError::ValueTooLarge), Status::TooLarge),
        (StoreError::Core(CoreError::KeyTooLong), Status::TooLarge),
        (StoreError::Core(CoreError::NotAnInteger), Status::NotNumeric),
        (StoreError::Core(CoreError::Overflow), Status::NotNumeric),
        (StoreError::Core(CoreError::EmptyKey), Status::BadRequest),
    ] {
        let failed = to_failed(error);
        assert_eq!(failed.status, status);
        assert_eq!(failed.cause.is_some(), matches!(error, StoreError::Core(_)));
    }
}

#[test]
fn only_a_writer_that_asked_learns_what_it_displaced() {
    let written = || StoreAnswer::Written {
        outcome: Stored::Stored(5),
        previous: Some(value(b"old")),
    };
    let plain = Command::SetOne(set(TtlChange::To(0), false));
    assert!(matches!(
        settle(&plain, Ok(written()), 10).outcome,
        Ok(Reply::Stored(Stored::Stored(5)))
    ));
    let asked = Command::SetOne(set(TtlChange::To(0), true));
    match settle(&asked, Ok(written()), 10).outcome {
        Ok(Reply::Swapped { previous: Some(old), .. }) => assert_eq!(old.data, b"old"),
        other => panic!("{other:?}"),
    }
}

#[test]
fn an_invalidation_is_propagated_once_it_committed() {
    let command = Command::DeleteByTag { tag: b"t" };
    let known = settle(&command, Ok(StoreAnswer::Generation(Some(4))), 10);
    assert!(matches!(known.outcome, Ok(Reply::Invalidated(true))));
    assert!(matches!(known.effect, Effect::Propagate { generation: 4 }));
    let unknown = settle(&command, Ok(StoreAnswer::Generation(None)), 10);
    assert!(matches!(unknown.effect, Effect::Nothing));
    let failed = settle(&command, Err(StoreError::Overloaded), 10);
    assert!(matches!(failed.outcome, Err(Failed { status: Status::Overloaded, .. })));
    assert!(matches!(failed.effect, Effect::Nothing));
}

#[test]
fn a_tag_exchange_answers_and_merges() {
    let command = Command::TagSync {
        full: false,
        entries: vec![TagOffer { name: b"t", generation: 1 }],
    };
    let known = vec![TagGeneration { name: b"t".to_vec(), generation: 3 }];
    let settled = settle(&command, Ok(StoreAnswer::TagGenerations(known)), 10);
    match settled.outcome {
        Ok(Reply::TagSync(behind)) => assert_eq!(behind[0].generation, 3),
        other => panic!("{other:?}"),
    }
    assert!(matches!(settled.effect, Effect::Merge));
}

#[test]
fn an_answer_of_the_wrong_shape_is_an_internal_error() {
    let settled = settle(&Command::Get { key: key(b"k") }, Ok(StoreAnswer::Flushed(1)), 10);
    assert!(matches!(
        settled.outcome,
        Err(Failed { status: Status::Internal, cause: None })
    ));
}

#[test]
fn a_command_is_counted_by_what_it_found() {
    let mut metrics = ServerMetrics::default();
    let get = Command::Get { key: key(b"k") };
    count(&mut metrics, &get, Dialect::Vcp, &Ok(Reply::Value(value(b"v"))), 10);
    count(&mut metrics, &get, Dialect::Vcp, &Ok(Reply::NotFound), 10);
    let ttl = Command::Deadline { key: key(b"k") };
    count(&mut metrics, &ttl, Dialect::Resp, &Ok(Reply::Deadline(Some(Deadline::Never))), 10);
    let delete = Command::Delete { key: key(b"k") };
    count(&mut metrics, &delete, Dialect::Vcp, &Ok(Reply::NotFound), 10);
    count(&mut metrics, &delete, Dialect::Vcp, &Ok(Reply::Deleted), 10);
    let expire = Command::Expire {
        key: key(b"k"),
        ttl: TtlChange::To(1),
        guard: vash_server::domain::ExpireGuard::Always,
    };
    count(&mut metrics, &expire, Dialect::Resp, &Ok(Reply::Applied(false)), 10);
    let too_large = Err(Failed::status(Status::TooLarge));
    count(&mut metrics, &get, Dialect::Vcp, &too_large, 10);
    assert_eq!(metrics.commands_total, 7);
    assert_eq!((metrics.hits, metrics.misses), (2, 1));
    assert_eq!((metrics.reads, metrics.writes), (3, 1));
    assert_eq!(metrics.errors_client, 1);
    assert_eq!(metrics.outcomes.store_too_large, 1);
    assert_eq!(metrics.commands.total(CommandKind::Get), 3);
    assert_eq!(metrics.commands.total(CommandKind::Deadline), 1);
}

#[test]
fn a_performed_command_is_settled_and_counted() {
    let mut metrics = ServerMetrics::default();
    let get = Command::Get { key: key(b"k") };
    let found = Performed::Asked(Ok(StoreAnswer::Value(Some(value(b"v")))));
    let out = execute(&mut metrics, &get, Dialect::Vcp, found, 10, 7);
    assert!(matches!(out.outcome, Ok(Reply::Value(_))));
    let refused = Performed::Answered(Err(Failed::status(Status::Unsupported)));
    let out = execute(&mut metrics, &Command::Stats, Dialect::Vcp, refused, 10, 7);
    assert_eq!(out.outcome.unwrap_err(), Failed::status(Status::Unsupported));
    assert!(matches!(out.effect, Effect::Nothing));
    assert_eq!(metrics.commands_total, 2);
    assert_eq!((metrics.hits, metrics.misses), (1, 0));
    assert_eq!(metrics.commands.total(CommandKind::Get), 1);
    assert_eq!(metrics.commands.total(CommandKind::Stats), 1);
}

#[test]
fn a_guarded_batch_is_counted_as_it_applied() {
    for guard in [BatchGuard::IfAllAbsent, BatchGuard::IfAllPresent] {
        let mut metrics = ServerMetrics::default();
        let sets = vec![set(TtlChange::To(1), false), set(TtlChange::Keep, false)];
        let batch = Command::SetMany { sets, guard };
        let mut run = |applied: bool| {
            let performed = Performed::Asked(Ok(StoreAnswer::Applied(applied)));
            execute(&mut metrics, &batch, Dialect::Resp, performed, 10, 7).outcome
        };
        assert!(matches!(run(true), Ok(Reply::StoredMany(_))));
        assert!(matches!(run(false), Ok(Reply::Stored(Stored::NotStored))));
        assert_eq!(metrics.commands_total, 2);
        assert_eq!(metrics.outcomes.total_items, 2);
    }
}

#[test]
fn a_fused_read_counts_as_a_plain_one() {
    let mut fused = ServerMetrics::default();
    assert_eq!(execute_get_into(&mut fused, CommandKind::Get, Dialect::Vcp, Ok(true), 10), Ok(true));
    assert_eq!(execute_get_into(&mut fused, CommandKind::Get, Dialect::Vcp, Ok(false), 10), Ok(false));
    let mut plain = ServerMetrics::default();
    let get = Command::Get { key: key(b"k") };
    count(&mut plain, &get, Dialect::Vcp, &Ok(Reply::Value(value(b"v"))), 10);
    count(&mut plain, &get, Dialect::Vcp, &Ok(Reply::NotFound), 10);
    assert_eq!((fused.hits, fused.misses, fused.commands_total), (plain.hits, plain.misses, plain.commands_total));
    let failed = execute_get_into(&mut fused, CommandKind::Get, Dialect::Vcp, Err(StoreError::Other), 10);
    assert_eq!(failed, Err(Failed::status(Status::Internal)));
}

#[test]
fn a_capability_is_claimed_by_what_does_it() {
    let bits = CapabilityBits {
        tags: 1,
        cluster: 2,
        listing: 4,
        flush: 8,
        memcached: 16,
        resp: 32,
        auth_required: 64,
    };
    let mut protocol = ProtocolConfig::default();
    let info = |protocol, cluster, auth| {
        server_info(&bits, 3, 250, protocol, 2, 1024, 32, cluster, auth).capabilities
    };
    assert_eq!(info(protocol, false, false), 1 + 16 + 32);
    protocol.listing_enabled = true;
    protocol.flush_enabled = true;
    protocol.resp_enabled = false;
    assert_eq!(info(protocol, true, true), 1 + 2 + 4 + 8 + 16 + 64);
}

#[test]
fn only_offsets_are_translated() {
    let double = |offset: u32| offset * 2;
    assert_eq!(offset_to_store_ttl(&double, TtlChange::To(4)), TtlChange::To(8));
    assert_eq!(
        offset_to_store_ttl(&double, TtlChange::ToIfPersistent(5)),
        TtlChange::ToIfPersistent(10)
    );
    assert_eq!(offset_to_store_ttl(&double, TtlChange::Keep), TtlChange::Keep);
    let batch = Command::SetMany {
        sets: vec![set(TtlChange::To(1), false), set(TtlChange::Keep, false)],
        guard: BatchGuard::Always,
    };
    match offsets_to_store_ttls(batch, &double) {
        Command::SetMany { sets, .. } => {
            assert_eq!(sets[0].ttl, TtlChange::To(2));
            assert_eq!(sets[1].ttl, TtlChange::Keep);
        }
        other => panic!("{other:?}"),
    }
    let touch = Command::Touch { key: key(b"k"), ttl_secs: 21 };
    assert!(matches!(
        offsets_to_store_ttls(touch, &double),
        Command::Touch { ttl_secs: 42, .. }
    ));
}
