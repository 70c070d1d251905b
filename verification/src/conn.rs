//! One connection: measuring what has arrived, deciding where each stretch of it
//! runs, and when the connection ends.
//!
//! The program reads and writes the socket and runs the parsers. Everything it
//! has to decide in between is here.
use crate::auth;
use crate::auth::{ConnAuth, Limits};
use crate::config::ProtocolConfig;
use crate::domain::{Command, SetMode, SetRequest, Status};
use crate::memcached;
use crate::memcached::{Parsed, ResponseStyle};
use crate::metrics::ServerMetrics;
use crate::protocol::Protocol;
use crate::resp;
use crate::resp::{Presented, RespCommand};
use crate::vcp;
use vstd::prelude::*;

verus! {

/// Most bytes an unauthenticated connection may have buffered, or ask the server
/// to reserve.
pub const PRE_AUTH_MAX_BUFFERED: usize = 4096;

/// How a stretch of commands may be served.
#[derive(Debug, Clone, Copy, PartialEq, Eq, Structural)]
pub enum RunKind {
    /// Answerable without touching the writer.
    Reads,
    /// Unconditional writes that may be submitted at once and awaited.
    Writes,
    /// Everything else.
    Other,
}

/// A maximal stretch of commands of one kind, measured in bytes.
#[derive(Debug, Clone, Copy, PartialEq, Eq, Structural)]
pub struct Run {
    pub len: usize,
    pub kind: RunKind,
}

/// The bytes in some runs.
pub open spec fn total(runs: Seq<Run>) -> nat
    decreases runs.len(),
{
    if runs.len() == 0 {
        0
    } else {
        total(runs.drop_last()) + runs.last().len as nat
    }
}

/// Whether no two neighbours are of one kind.
pub open spec fn maximal(runs: Seq<Run>) -> bool {
    forall|i: int, j: int|
        0 <= i && j == i + 1 && j < runs.len() ==> (#[trigger] runs[i]).kind != (
        #[trigger] runs[j]).kind
}

/// The runs after `len` more bytes of a kind: the last one grows where it is of
/// that kind.
pub open spec fn extended(runs: Seq<Run>, kind: RunKind, len: usize) -> Seq<Run> {
    if runs.len() > 0 && runs.last().kind == kind {
        runs.drop_last().push(Run { len: (runs.last().len + len) as usize, kind })
    } else {
        runs.push(Run { len, kind })
    }
}

proof fn lemma_total_push(runs: Seq<Run>, run: Run)
    ensures
        total(runs.push(run)) == total(runs) + run.len,
{
    assert(runs.push(run).drop_last() =~= runs);
}

proof fn lemma_extended(runs: Seq<Run>, kind: RunKind, len: usize)
    requires
        total(runs) + len <= usize::MAX,
        maximal(runs),
    ensures
        total(extended(runs, kind, len)) == total(runs) + len,
        maximal(extended(runs, kind, len)),
{
    if runs.len() > 0 && runs.last().kind == kind {
        lemma_total_push(
            runs.drop_last(),
            Run { len: (runs.last().len + len) as usize, kind },
        );
        let out = extended(runs, kind, len);
        assert forall|i: int, j: int| 0 <= i && j == i + 1 && j < out.len() implies (
        #[trigger] out[i]).kind != (#[trigger] out[j]).kind by {
            assert(runs[i].kind != runs[j].kind);
        }
    } else {
        lemma_total_push(runs, Run { len, kind });
    }
}

impl Run {
    /// Adds `len` bytes of `kind`, extending the run in progress when it matches,
    /// so that a uniform block still produces exactly one.
    pub fn extend(runs: &mut Vec<Run>, kind: RunKind, len: usize)
        requires
            total(old(runs)@) + len <= usize::MAX,
            maximal(old(runs)@),
        ensures
            final(runs)@ == extended(old(runs)@, kind, len),
            total(final(runs)@) == total(old(runs)@) + len,
            maximal(final(runs)@),
    {
        proof {
            lemma_extended(runs@, kind, len);
        }
        let n: usize = runs.len();
        if n > 0 && runs[n - 1].kind == kind {
            let ghost before = runs@;
            let grown: usize = runs[n - 1].len + len;
            runs.set(n - 1, Run { len: grown, kind });
            assert(runs@ =~= extended(before, kind, len));
        } else {
            runs.push(Run { len, kind });
        }
    }
}

/// How a memcached command may be served: a read where it can only read, and an
/// awaited write where it is a plain store that the writers take as one batch.
pub fn memcached_kind(parsed: &Parsed, awaitable: bool) -> (kind: RunKind)
    ensures
        kind == (if parsed.command.reads_only() {
            RunKind::Reads
        } else if parsed.style is Storage && awaitable {
            RunKind::Writes
        } else {
            RunKind::Other
        }),
        kind == RunKind::Reads <==> parsed.command.reads_only(),
        kind == RunKind::Writes ==> awaitable,
{
    if parsed.command.inline_safe() {
        return RunKind::Reads;
    }
    match parsed.style {
        ResponseStyle::Storage => if awaitable {
            RunKind::Writes
        } else {
            RunKind::Other
        },
        _ => RunKind::Other,
    }
}

/// How a Redis command may be served.
pub fn resp_kind(command: &RespCommand, batchable: bool) -> (kind: RunKind)
    ensures
        kind == (if resp::reads_only(*command) {
            RunKind::Reads
        } else if batchable {
            RunKind::Writes
        } else {
            RunKind::Other
        }),
        kind == RunKind::Reads <==> resp::reads_only(*command),
        kind == RunKind::Writes ==> batchable,
{
    if resp::inline_safe(command) {
        RunKind::Reads
    } else if batchable {
        RunKind::Writes
    } else {
        RunKind::Other
    }
}

/// How much of the read buffer forms whole commands, and what that implies.
#[derive(Debug)]
pub struct Measured {
    /// Bytes at the front of the buffer that form complete commands.
    pub complete: usize,
    /// Framing is unrecoverable; the connection closes once any reply is out.
    pub fatal: Option<&'static str>,
    /// Total length of the command still arriving.
    pub reserve: usize,
    pub runs: Vec<Run>,
}

/// What stands at the front of the unmeasured bytes, on the native protocol.
#[derive(Debug, Clone, Copy)]
pub enum Frame {
    /// A whole frame, and whether its opcode can only read.
    Complete { len: usize, read_only: bool },
    /// A frame that needs this many bytes in all.
    Incomplete { needed: usize },
    TooLarge,
}

/// What stands at the front of the unmeasured bytes, on a text protocol.
#[derive(Debug, Clone, Copy)]
pub enum TextCommand {
    Incomplete,
    /// A whole command, and how it may be served.
    Command { consumed: usize, kind: RunKind },
    /// Something unparseable that can be stepped over. Its error has to land in
    /// the response stream in the position it occupied.
    Recoverable { consumed: usize },
    Fatal(&'static str),
}

impl Measured {
    /// Every measured byte belongs to exactly one run, and the runs are as few as
    /// their kinds allow.
    pub open spec fn wf(self) -> bool {
        total(self.runs@) == self.complete && maximal(self.runs@)
    }

    pub fn new() -> (measured: Self)
        ensures
            measured.wf(),
            measured.complete == 0,
            measured.fatal is None,
            measured.reserve == 0,
            measured.runs@.len() == 0,
    {
        Measured { complete: 0, fatal: None, reserve: 0, runs: Vec::new() }
    }

    fn take(&mut self, kind: RunKind, len: usize)
        requires
            old(self).wf(),
            old(self).complete + len <= usize::MAX,
        ensures
            final(self).wf(),
            final(self).runs@ == extended(old(self).runs@, kind, len),
            final(self).complete == old(self).complete + len,
            final(self).fatal == old(self).fatal,
            final(self).reserve == old(self).reserve,
    {
        Run::extend(&mut self.runs, kind, len);
        self.complete = self.complete + len;
    }

    /// Takes one frame into account. Says whether to look for another.
    ///
    /// A frame's length comes from a header that a stranger controls, so an
    /// unauthenticated connection may not have much reserved for it.
    pub fn frame(&mut self, gated: bool, frame: Frame) -> (more: bool)
        requires
            old(self).wf(),
            frame matches Frame::Complete { len, .. } ==> old(self).complete + len <= usize::MAX,
        ensures
            final(self).wf(),
            more == (frame is Complete),
            match frame {
                Frame::Complete { len, read_only } => {
                    let kind = if read_only {
                        RunKind::Reads
                    } else {
                        RunKind::Other
                    };
                    &&& final(self).complete == old(self).complete + len
                    &&& final(self).runs@ == extended(old(self).runs@, kind, len)
                    &&& final(self).fatal == old(self).fatal
                    &&& final(self).reserve == old(self).reserve
                },
                Frame::Incomplete { needed } => {
                    &&& final(self).complete == old(self).complete
                    &&& final(self).runs@ == old(self).runs@
                    &&& if gated && needed > PRE_AUTH_MAX_BUFFERED {
                        &&& final(self).fatal matches Some(detail)
                            && detail@ == "unauthenticated frame is too large"@
                        &&& final(self).reserve == old(self).reserve
                    } else {
                        final(self).fatal == old(self).fatal && final(self).reserve == needed
                    }
                },
                Frame::TooLarge => {
                    &&& final(self).complete == old(self).complete
                    &&& final(self).runs@ == old(self).runs@
                    &&& final(self).fatal matches Some(detail)
                        && detail@ == "frame length exceeds the maximum"@
                    &&& final(self).reserve == old(self).reserve
                },
            },
    {
        match frame {
            Frame::Complete { len, read_only } => {
                let kind = if read_only {
                    RunKind::Reads
                } else {
                    RunKind::Other
                };
                self.take(kind, len);
                true
            },
            Frame::Incomplete { needed } => {
                if gated && needed > PRE_AUTH_MAX_BUFFERED {
                    self.fatal = Some("unauthenticated frame is too large");
                } else {
                    self.reserve = needed;
                }
                false
            },
            Frame::TooLarge => {
                self.fatal = Some("frame length exceeds the maximum");
                false
            },
        }
    }

    /// Takes one text command into account. Says whether to look for another.
    pub fn text(&mut self, command: TextCommand) -> (more: bool)
        requires
            old(self).wf(),
            command matches TextCommand::Command { consumed, .. } ==> old(self).complete + consumed
                <= usize::MAX,
            command matches TextCommand::Recoverable { consumed } ==> old(self).complete + consumed
                <= usize::MAX,
        ensures
            final(self).wf(),
            final(self).reserve == old(self).reserve,
            more == (command is Command || command is Recoverable),
            match command {
                TextCommand::Command { consumed, kind } => {
                    &&& final(self).complete == old(self).complete + consumed
                    &&& final(self).runs@ == extended(old(self).runs@, kind, consumed)
                    &&& final(self).fatal == old(self).fatal
                },
                TextCommand::Recoverable { consumed } => {
                    &&& final(self).complete == old(self).complete + consumed
                    &&& final(self).runs@ == extended(old(self).runs@, RunKind::Other, consumed)
                    &&& final(self).fatal == old(self).fatal
                },
                TextCommand::Incomplete => {
                    &&& final(self).complete == old(self).complete
                    &&& final(self).runs@ == old(self).runs@
                    &&& final(self).fatal == old(self).fatal
                },
                TextCommand::Fatal(detail) => {
                    &&& final(self).complete == old(self).complete
                    &&& final(self).runs@ == old(self).runs@
                    &&& final(self).fatal == Some(detail)
                },
            },
    {
        match command {
            TextCommand::Incomplete => false,
            TextCommand::Command { consumed, kind } => {
                self.take(kind, consumed);
                true
            },
            TextCommand::Recoverable { consumed } => {
                self.take(RunKind::Other, consumed);
                true
            },
            TextCommand::Fatal(detail) => {
                self.fatal = Some(detail);
                false
            },
        }
    }
}

/// Where a stretch of commands runs.
#[derive(Debug, Clone, Copy, PartialEq, Eq, Structural)]
pub enum Tier {
    /// On the network worker.
    Inline,
    /// Submitted to the shard writers and awaited.
    Awaited,
    /// On the blocking pool.
    Pool,
}

/// A stretch of the block and where it runs.
#[derive(Debug, Clone, Copy, PartialEq, Eq, Structural)]
pub struct Segment {
    pub start: usize,
    pub len: usize,
    pub tier: Tier,
}

/// Where a run may go: reads on the worker when that is allowed, writes awaited
/// when the dialect decodes them, everything else to the pool.
pub open spec fn tier_of(kind: RunKind, inline_reads: bool, awaits_writes: bool) -> Tier {
    match kind {
        RunKind::Reads => if inline_reads {
            Tier::Inline
        } else {
            Tier::Pool
        },
        RunKind::Writes => if awaits_writes {
            Tier::Awaited
        } else {
            Tier::Pool
        },
        RunKind::Other => Tier::Pool,
    }
}

fn tier(kind: RunKind, inline_reads: bool, awaits_writes: bool) -> (tier: Tier)
    ensures
        tier == tier_of(kind, inline_reads, awaits_writes),
{
    match kind {
        RunKind::Reads => if inline_reads {
            Tier::Inline
        } else {
            Tier::Pool
        },
        RunKind::Writes => if awaits_writes {
            Tier::Awaited
        } else {
            Tier::Pool
        },
        RunKind::Other => Tier::Pool,
    }
}

/// The segments after one more run: neighbours that both end up on the pool are
/// one hop.
pub open spec fn joined(segments: Seq<Segment>, len: usize, tier: Tier) -> Seq<Segment> {
    if tier == Tier::Pool && segments.len() > 0 && segments.last().tier == Tier::Pool {
        let last = segments.last();
        segments.drop_last().push(
            Segment { start: last.start, len: (last.len + len) as usize, tier: Tier::Pool },
        )
    } else {
        segments.push(Segment { start: end_of(segments) as usize, len, tier })
    }
}

/// Where the segments end.
pub open spec fn end_of(segments: Seq<Segment>) -> int {
    if segments.len() == 0 {
        0
    } else {
        segments.last().start + segments.last().len
    }
}

/// The segments of some runs.
pub open spec fn segments_of(runs: Seq<Run>, inline_reads: bool, awaits_writes: bool) -> Seq<
    Segment,
>
    decreases runs.len(),
{
    if runs.len() == 0 {
        Seq::empty()
    } else {
        joined(
            segments_of(runs.drop_last(), inline_reads, awaits_writes),
            runs.last().len,
            tier_of(runs.last().kind, inline_reads, awaits_writes),
        )
    }
}

/// The runs as they are served: a mixed block stays whole where reads have
/// nowhere better to go, because splitting it would only fragment one hop into
/// several.
pub open spec fn served_runs(runs: Seq<Run>, inline_reads: bool) -> Seq<Run> {
    if !inline_reads && runs.len() > 1 {
        seq![Run { len: total(runs) as usize, kind: RunKind::Other }]
    } else {
        runs
    }
}

/// Whether segments cover a block of `n` bytes from its start to its end, each
/// starting where the one before it stopped.
pub open spec fn covers(segments: Seq<Segment>, n: nat) -> bool {
    &&& end_of(segments) == n
    &&& segments.len() > 0 ==> segments[0].start == 0
    &&& forall|i: int, j: int|
        0 <= i && j == i + 1 && j < segments.len() ==> (#[trigger] segments[i]).start
            + segments[i].len == (#[trigger] segments[j]).start
}

/// Whether no two neighbours are both on the pool.
pub open spec fn hops_merged(segments: Seq<Segment>) -> bool {
    forall|i: int, j: int|
        0 <= i && j == i + 1 && j < segments.len() ==> !((#[trigger] segments[i]).tier == Tier::Pool
            && (#[trigger] segments[j]).tier == Tier::Pool)
}

proof fn lemma_total_prefix(runs: Seq<Run>, i: int)
    requires
        0 <= i <= runs.len(),
    ensures
        total(runs.take(i)) <= total(runs),
    decreases runs.len() - i,
{
    if i == runs.len() {
        assert(runs.take(i) =~= runs);
    } else {
        lemma_total_prefix(runs, i + 1);
        assert(runs.take(i + 1).drop_last() =~= runs.take(i));
    }
}

/// The segments of a block cover it exactly, in order, and as few hops reach the
/// pool as the kinds allow.
pub proof fn segments_cover_the_block(runs: Seq<Run>, inline_reads: bool, awaits_writes: bool)
    requires
        total(runs) <= usize::MAX,
    ensures
        covers(segments_of(runs, inline_reads, awaits_writes), total(runs)),
        hops_merged(segments_of(runs, inline_reads, awaits_writes)),
    decreases runs.len(),
{
    if runs.len() > 0 {
        let front = runs.drop_last();
        segments_cover_the_block(front, inline_reads, awaits_writes);
        let before = segments_of(front, inline_reads, awaits_writes);
        let after = segments_of(runs, inline_reads, awaits_writes);
        let n = after.len();
        assert forall|i: int, j: int| 0 <= i && j == i + 1 && j < n implies (
        #[trigger] after[i]).start + after[i].len == (#[trigger] after[j]).start by {
            if j < before.len() {
                assert(before[i].start + before[i].len == before[j].start);
            }
        }
        assert forall|i: int, j: int| 0 <= i && j == i + 1 && j < n implies !((
        #[trigger] after[i]).tier == Tier::Pool && (#[trigger] after[j]).tier == Tier::Pool) by {
            if j < before.len() {
                assert(!(before[i].tier == Tier::Pool && before[j].tier == Tier::Pool));
            }
        }
    }
}

/// Nothing that can write ever runs on the network worker.
pub proof fn only_reads_run_inline(kind: RunKind, inline_reads: bool, awaits_writes: bool)
    requires
        tier_of(kind, inline_reads, awaits_writes) == Tier::Inline,
    ensures
        kind == RunKind::Reads,
        inline_reads,
{
}

/// The kind of the run that a byte belongs to.
pub open spec fn kind_at(runs: Seq<Run>, p: int) -> RunKind
    decreases runs.len(),
{
    if runs.len() == 0 {
        RunKind::Other
    } else if p >= total(runs.drop_last()) {
        runs.last().kind
    } else {
        kind_at(runs.drop_last(), p)
    }
}

/// Where the segment that a byte belongs to runs.
pub open spec fn tier_at(segments: Seq<Segment>, p: int) -> Tier
    decreases segments.len(),
{
    if segments.len() == 0 {
        Tier::Pool
    } else if p >= segments.last().start {
        segments.last().tier
    } else {
        tier_at(segments.drop_last(), p)
    }
}

/// Every byte of a block runs where its own command may.
pub proof fn every_command_runs_where_it_may(
    runs: Seq<Run>,
    inline_reads: bool,
    awaits_writes: bool,
    p: int,
)
    requires
        total(runs) <= usize::MAX,
        0 <= p < total(runs),
    ensures
        ({
            let tier = tier_at(segments_of(runs, inline_reads, awaits_writes), p);
            let kind = kind_at(runs, p);
            &&& tier == Tier::Inline <==> inline_reads && kind == RunKind::Reads
            &&& tier == Tier::Awaited <==> awaits_writes && kind == RunKind::Writes
        }),
    decreases runs.len(),
{
    let front = runs.drop_last();
    let before = segments_of(front, inline_reads, awaits_writes);
    let after = segments_of(runs, inline_reads, awaits_writes);
    segments_cover_the_block(front, inline_reads, awaits_writes);
    segments_cover_the_block(runs, inline_reads, awaits_writes);
    assert(after.drop_last() =~= before || after.drop_last() =~= before.drop_last());
    if p < total(front) {
        every_command_runs_where_it_may(front, inline_reads, awaits_writes, p);
        if after.len() == before.len() {
            assert(after.drop_last() =~= before.drop_last());
        } else {
            assert(after.drop_last() =~= before);
        }
    }
}

/// Whether nothing of a block runs where it may not: no byte of a command that may
/// write on the network worker, and none but those of plain writes awaited.
pub open spec fn runs_safely(
    runs: Seq<Run>,
    segments: Seq<Segment>,
    inline_reads: bool,
    awaits_writes: bool,
) -> bool {
    forall|p: int|
        0 <= p < total(runs) ==> {
            &&& #[trigger] tier_at(segments, p) == Tier::Inline ==> inline_reads && kind_at(runs, p)
                == RunKind::Reads
            &&& tier_at(segments, p) == Tier::Awaited ==> awaits_writes && kind_at(runs, p)
                == RunKind::Writes
            &&& inline_reads && kind_at(runs, p) == RunKind::Reads ==> tier_at(segments, p)
                == Tier::Inline
        }
}

/// A block is never served where it may not be, whether it is split or kept whole.
pub proof fn a_block_is_served_safely(runs: Seq<Run>, inline_reads: bool, awaits_writes: bool)
    requires
        total(runs) <= usize::MAX,
    ensures
        runs_safely(
            runs,
            segments_of(served_runs(runs, inline_reads), inline_reads, awaits_writes),
            inline_reads,
            awaits_writes,
        ),
{
    let served = served_runs(runs, inline_reads);
    let segments = segments_of(served, inline_reads, awaits_writes);
    if !inline_reads && runs.len() > 1 {
        assert(served.drop_last() =~= Seq::empty());
        assert(total(served) == total(runs)) by {
            assert(total(served.drop_last()) == 0);
        }
        assert(segments_of(served.drop_last(), inline_reads, awaits_writes) =~= Seq::empty());
        assert(segments.drop_last() =~= Seq::empty());
    } else {
        assert forall|p: int| 0 <= p < total(runs) implies {
            &&& #[trigger] tier_at(segments, p) == Tier::Inline ==> inline_reads && kind_at(runs, p)
                == RunKind::Reads
            &&& tier_at(segments, p) == Tier::Awaited ==> awaits_writes && kind_at(runs, p)
                == RunKind::Writes
            &&& inline_reads && kind_at(runs, p) == RunKind::Reads ==> tier_at(segments, p)
                == Tier::Inline
        } by {
            every_command_runs_where_it_may(runs, inline_reads, awaits_writes, p);
        }
    }
}

/// Plans how a block of whole commands is served: each run goes to the tier that
/// suits it, in order, so that a read pipelined behind a write of the same key
/// is answered behind it.
pub fn plan_segments(runs: &Vec<Run>, inline_reads: bool, awaits_writes: bool) -> (segments: Vec<
    Segment,
>)
    requires
        total(runs@) <= usize::MAX,
    ensures
        segments@ == segments_of(served_runs(runs@, inline_reads), inline_reads, awaits_writes),
        covers(segments@, total(runs@)),
        hops_merged(segments@),
        runs_safely(runs@, segments@, inline_reads, awaits_writes),
{
    let ghost served = served_runs(runs@, inline_reads);
    proof {
        a_block_is_served_safely(runs@, inline_reads, awaits_writes);
    }
    if !inline_reads && runs.len() > 1 {
        let whole = bytes_in(runs);
        let segments = vec![Segment { start: 0, len: whole, tier: Tier::Pool }];
        proof {
            let run = Run { len: whole, kind: RunKind::Other };
            assert(served =~= Seq::empty().push(run));
            assert(served.drop_last() =~= Seq::empty());
            lemma_total_push(Seq::empty(), run);
            assert(segments_of(served.drop_last(), inline_reads, awaits_writes) =~= Seq::empty());
            assert(segments@ =~= segments_of(served, inline_reads, awaits_writes));
        }
        return segments;
    }
    let mut segments: Vec<Segment> = Vec::new();
    let mut end: usize = 0;
    let mut i: usize = 0;
    assert(segments@ =~= segments_of(runs@.take(0), inline_reads, awaits_writes));
    assert(total(runs@.take(0)) == 0);
    while i < runs.len()
        invariant
            total(runs@) <= usize::MAX,
            i <= runs@.len(),
            segments@ == segments_of(runs@.take(i as int), inline_reads, awaits_writes),
            end == total(runs@.take(i as int)),
            end == end_of(segments@),
        decreases runs@.len() - i,
    {
        let run = runs[i];
        let to = tier(run.kind, inline_reads, awaits_writes);
        proof {
            lemma_total_prefix(runs@, i + 1);
            assert(runs@.take(i + 1).drop_last() =~= runs@.take(i as int));
            segments_cover_the_block(runs@.take(i as int), inline_reads, awaits_writes);
        }
        let n: usize = segments.len();
        let ghost before = segments@;
        if to == Tier::Pool && n > 0 && segments[n - 1].tier == Tier::Pool {
            let last = segments[n - 1];
            segments.set(
                n - 1,
                Segment { start: last.start, len: last.len + run.len, tier: Tier::Pool },
            );
            assert(segments@ =~= joined(before, run.len, to));
        } else {
            segments.push(Segment { start: end, len: run.len, tier: to });
        }
        end = end + run.len;
        i = i + 1;
    }
    proof {
        assert(runs@.take(i as int) =~= runs@);
        segments_cover_the_block(runs@, inline_reads, awaits_writes);
    }
    segments
}

fn bytes_in(runs: &Vec<Run>) -> (n: usize)
    requires
        total(runs@) <= usize::MAX,
    ensures
        n == total(runs@),
{
    let mut n: usize = 0;
    let mut i: usize = 0;
    while i < runs.len()
        invariant
            total(runs@) <= usize::MAX,
            i <= runs@.len(),
            n == total(runs@.take(i as int)),
        decreases runs@.len() - i,
    {
        proof {
            lemma_total_prefix(runs@, i + 1);
            assert(runs@.take(i + 1).drop_last() =~= runs@.take(i as int));
        }
        n = n + runs[i].len;
        i = i + 1;
    }
    assert(runs@.take(i as int) =~= runs@);
    n
}

/// How much to reserve for the command still arriving, given what is buffered.
pub fn reserve_for(measured: &Measured, buffered: usize) -> (extra: usize)
    ensures
        extra == (if measured.reserve > buffered {
            (measured.reserve - buffered) as usize
        } else {
            0
        }),
{
    measured.reserve.saturating_sub(buffered)
}

/// How many replies a run of awaited writes owes: one for each that did not ask
/// for silence.
pub open spec fn owed(suppress: Seq<bool>) -> nat {
    (suppress.len() - crate::domain::count_true(suppress)) as nat
}

/// Whether a decoded run of writes can be awaited at all, and the replies it owes.
pub fn awaited_replies(sets: usize, suppress: &Vec<bool>) -> (replies: Option<usize>)
    ensures
        replies is None <==> sets == 0,
        replies is Some ==> replies->0 == owed(suppress@),
{
    if sets == 0 {
        return None;
    }
    let silent = crate::domain::hits(suppress);
    Some((suppress.len() as u64 - silent) as usize)
}

/// What a connection does once bytes arrived.
#[derive(Debug, Clone, Copy, PartialEq, Eq, Structural)]
pub enum Arrival {
    Close,
    ReadMore,
    /// Handles every complete command of this dialect. `gated` says that the
    /// connection must authenticate first.
    Drain { protocol: Protocol, gated: bool },
}

/// What the first byte says.
#[derive(Debug, Clone, Copy, PartialEq, Eq, Structural)]
pub enum Detected {
    /// No byte has arrived.
    Nothing,
    Dialect(Protocol),
    Unknown(u8),
}

/// A connection's state between reads.
#[derive(Debug)]
pub struct Connection {
    /// The dialect the first byte settled, never revisited.
    pub protocol: Option<Protocol>,
    pub auth: ConnAuth,
    /// Whether the server enforced authentication when the connection opened.
    pub enforcing: bool,
    pub limits: Limits,
}

impl Connection {
    pub fn open(enforcing: bool, limits: Limits) -> (conn: Self)
        ensures
            conn.protocol is None,
            conn.auth.who() is None,
            conn.auth.failure_count() == 0,
            conn.enforcing == enforcing,
            conn.limits == limits,
    {
        Connection { protocol: None, auth: ConnAuth::default(), enforcing, limits }
    }

    /// Whether the connection still has to authenticate.
    pub open spec fn stranger(self) -> bool {
        self.enforcing && self.auth.who() is None
    }

    /// Whether the deadline of an unauthenticated connection applies.
    pub fn unauthenticated(&self) -> (yes: bool)
        ensures
            yes == self.stranger(),
    {
        self.auth.gated(self.enforcing)
    }

    /// What an arrival of `n` bytes leads to, `buffered` of them waiting.
    ///
    /// An empty read is a disconnect. A connection that has presented nothing
    /// must not make the server hold arbitrary bytes. A dialect turned off is
    /// closed rather than refused by its own parser.
    pub open spec fn arrival(
        self,
        n: usize,
        buffered: usize,
        detected: Detected,
        protocol: ProtocolConfig,
        required: bool,
    ) -> Arrival {
        if n == 0 || (self.stranger() && buffered > PRE_AUTH_MAX_BUFFERED) {
            Arrival::Close
        } else {
            let gated = required && self.auth.who() is None;
            match self.protocol {
                Some(settled) => Arrival::Drain { protocol: settled, gated },
                None => match detected {
                    Detected::Nothing => Arrival::ReadMore,
                    Detected::Unknown(_) => Arrival::Close,
                    Detected::Dialect(chosen) => if served(protocol, chosen) {
                        Arrival::Drain { protocol: chosen, gated }
                    } else {
                        Arrival::Close
                    },
                },
            }
        }
    }

    /// Decides what an arrival leads to, and counts its bytes.
    pub fn arrived(
        &mut self,
        metrics: &mut ServerMetrics,
        n: usize,
        buffered: usize,
        detected: Detected,
        protocol: &ProtocolConfig,
        required: bool,
    ) -> (arrival: Arrival)
        ensures
            arrival == old(self).arrival(n, buffered, detected, *protocol, required),
            final(self).protocol == (match arrival {
                Arrival::Drain { protocol: settled, .. } => Some(settled),
                _ => old(self).protocol,
            }),
            final(self).auth == old(self).auth,
            final(self).enforcing == old(self).enforcing,
            final(self).limits == old(self).limits,
            *final(metrics) == (ServerMetrics {
                outcomes: crate::metrics::OutcomeMetrics {
                    bytes_read: old(metrics).outcomes.bytes_read.wrapping_add(n as u64),
                    ..old(metrics).outcomes
                },
                ..*old(metrics)
            }),
    {
        metrics.outcomes.bytes_read = metrics.outcomes.bytes_read.wrapping_add(n as u64);
        if n == 0 {
            return Arrival::Close;
        }
        if self.unauthenticated() && buffered > PRE_AUTH_MAX_BUFFERED {
            return Arrival::Close;
        }
        let gated = self.auth.gated(required);
        match self.protocol {
            Some(settled) => Arrival::Drain { protocol: settled, gated },
            None => match detected {
                Detected::Nothing => Arrival::ReadMore,
                Detected::Unknown(_) => Arrival::Close,
                Detected::Dialect(chosen) => {
                    if !protocol.dialect_enabled(chosen) {
                        return Arrival::Close;
                    }
                    self.protocol = Some(chosen);
                    Arrival::Drain { protocol: chosen, gated }
                },
            },
        }
    }

    /// Ends a connection that did not authenticate in time.
    pub fn timed_out(&self, metrics: &mut ServerMetrics)
        ensures
            *final(metrics) == (ServerMetrics {
                auth_timeouts: old(metrics).auth_timeouts.wrapping_add(1),
                ..*old(metrics)
            }),
    {
        metrics.auth_timeout();
    }

    /// Whether the connection ends once its replies are out: it asked to, its
    /// framing broke, or it guessed too often.
    ///
    /// Deliberately no lockout across connections: whoever could trigger one
    /// would have a denial of service against the legitimate holder.
    pub fn drained(&self, metrics: &mut ServerMetrics, keep_going: bool, written: usize) -> (
        close: bool)
        ensures
            close == (!keep_going || self.auth.failure_count() >= self.limits.max_attempts),
            !keep_going ==> close,
            !close ==> self.auth.failure_count() < self.limits.max_attempts,
            *final(metrics) == (ServerMetrics {
                outcomes: crate::metrics::OutcomeMetrics {
                    bytes_written: old(metrics).outcomes.bytes_written.wrapping_add(written as u64),
                    ..old(metrics).outcomes
                },
                ..*old(metrics)
            }),
    {
        metrics.outcomes.bytes_written = metrics.outcomes.bytes_written.wrapping_add(
            written as u64,
        );
        !keep_going || self.auth.failures() >= self.limits.max_attempts
    }
}

/// Whether a dialect is served.
pub open spec fn served(protocol: ProtocolConfig, dialect: Protocol) -> bool {
    match dialect {
        Protocol::Vcp => true,
        Protocol::Memcached => protocol.memcached_enabled,
        Protocol::Resp => protocol.resp_enabled,
    }
}

/// A stranger's bytes are never handled past the pre-authentication bound, and
/// the dialect of a connection never changes once it is settled.
pub proof fn a_stranger_is_bounded(
    conn: Connection,
    n: usize,
    buffered: usize,
    detected: Detected,
    protocol: ProtocolConfig,
    required: bool,
)
    ensures
        conn.arrival(n, buffered, detected, protocol, required) is Drain && conn.stranger()
            ==> buffered <= PRE_AUTH_MAX_BUFFERED,
        conn.arrival(n, buffered, detected, protocol, required) matches Arrival::Drain {
            protocol: settled,
            ..
        } ==> (conn.protocol is Some ==> conn.protocol == Some(settled)),
{
}

/// There is one credential table for all three dialects: a name and a secret that
/// can be written in each of them are accepted in all of them, or in none.
pub proof fn a_credential_is_good_in_every_dialect(
    policy: auth::Policy,
    name: Seq<u8>,
    secret: Seq<u8>,
    presented: Presented,
    set: SetRequest,
)
    requires
        name.len() > 0,
        secret.len() > 0,
        !name.contains(0x20u8),
        !secret.contains(0x20u8),
        presented.name is Some,
        presented.name->0@ == name,
        presented.secret@ == secret,
        set.mode == SetMode::Always,
        set.value@ == name + seq![0x20u8] + secret,
    ensures
        vcp::auth_status(policy, 0, name, secret) == Status::Success <==> policy.accepts(
            name,
            secret,
        ),
        resp::login_of(policy, presented) is Accepted <==> policy.accepts(name, secret),
        memcached::admission(Command::SetOne(set), policy) is Accepted <==> policy.accepts(
            name,
            secret,
        ),
{
    memcached::a_credential_block_round_trips(name, secret);
}

/// What arrives is handled in the dialect the connection has settled on, or in the one
/// its first byte names where that one is served; and it is gated exactly where the
/// connection has not authenticated and must. Where nothing arrived, or the first byte
/// names nothing that is served, the connection ends.
pub proof fn what_arrives_is_handled_in_a_dialect_that_is_served(
    conn: Connection,
    n: usize,
    buffered: usize,
    detected: Detected,
    protocol: ProtocolConfig,
    required: bool,
)
    ensures
        ({
            let arrival = conn.arrival(n, buffered, detected, protocol, required);
            let welcome = n > 0 && (buffered <= PRE_AUTH_MAX_BUFFERED || !conn.enforcing
                || conn.auth.who() is Some);
            &&& !welcome ==> arrival is Close
            &&& arrival matches Arrival::Drain { protocol: dialect, gated } ==> {
                &&& gated == (required && conn.auth.who() is None)
                &&& conn.protocol == Some(dialect) || conn.protocol is None && detected
                    == Detected::Dialect(dialect)
            }
            &&& welcome && conn.protocol is Some ==> arrival is Drain
            &&& welcome && conn.protocol is None && detected is Nothing ==> arrival is ReadMore
            &&& conn.protocol is None && detected is Unknown ==> arrival is Close
            &&& welcome && conn.protocol is None && detected == Detected::Dialect(Protocol::Vcp)
                ==> arrival is Drain
            &&& welcome && conn.protocol is None && detected == Detected::Dialect(
                Protocol::Memcached,
            ) ==> (arrival is Drain <==> protocol.memcached_enabled) && (arrival is Close
                <==> !protocol.memcached_enabled)
            &&& welcome && conn.protocol is None && detected == Detected::Dialect(Protocol::Resp)
                ==> (arrival is Drain <==> protocol.resp_enabled) && (arrival is Close
                <==> !protocol.resp_enabled)
        }),
{
}

} // verus!
