//! Request-level counters, and Prometheus rendering.
//!
//! With this few instrumentation points a global recorder would be more
//! machinery than it saves, and the exposition format stays explicit. Nothing
//! here reports a value it does not measure.
//!
//! Counters wrap at the end of their range, as an atomic counter does.
use crate::credentials;
use crate::domain::{hits, BatchGuard, Command, Delta, Reply, SetMode, Stored};
use crate::domain;
use crate::text;
use vstd::prelude::*;

verus! {

/// Upper bounds of the latency buckets, in microseconds. Everything past the
/// last falls into the overflow bucket.
pub open spec fn latency_bounds() -> Seq<u64> {
    seq![10u64, 25u64, 50u64, 100u64, 250u64, 500u64, 1000u64, 2500u64, 5000u64, 25000u64, 100000u64]
}

/// The latency bounds in seconds, as they are printed.
pub open spec fn bound_texts() -> Seq<Seq<char>> {
    seq!["0.00001"@, "0.000025"@, "0.00005"@, "0.0001"@, "0.00025"@, "0.0005"@, "0.001"@, "0.0025"@, "0.005"@, "0.025"@, "0.1"@]
}

fn bounds() -> (list: [u64; 11])
    ensures
        list@ == latency_bounds(),
{
    let list: [u64; 11] = [10, 25, 50, 100, 250, 500, 1000, 2500, 5000, 25000, 100000];
    assert(list@ =~= latency_bounds());
    list
}

fn bound_text(i: usize) -> (s: &'static str)
    requires
        i < 11,
    ensures
        s@ == bound_texts()[i as int],
{
    match i {
        0 => "0.00001",
        1 => "0.000025",
        2 => "0.00005",
        3 => "0.0001",
        4 => "0.00025",
        5 => "0.0005",
        6 => "0.001",
        7 => "0.0025",
        8 => "0.005",
        9 => "0.025",
        _ => "0.1",
    }
}

/// The bucket that a latency falls into: the first whose bound covers it, or the
/// overflow bucket.
pub open spec fn bucket_of(micros: u64, i: nat) -> nat
    decreases 11 - i,
{
    if i >= 11 {
        11
    } else if micros <= latency_bounds()[i as int] {
        i
    } else {
        bucket_of(micros, i + 1)
    }
}

/// A fixed-bucket latency histogram.
#[derive(Debug)]
pub struct Histogram {
    buckets: [u64; 12],
    sum_us: u64,
    count: u64,
}

/// What a histogram holds: one count per bound plus one for everything above the
/// last, the sum of the latencies, and their number.
#[verifier::ext_equal]
pub struct Latencies {
    pub buckets: Seq<u64>,
    pub sum_us: u64,
    pub count: u64,
}

/// How many observations lie in the first `n` buckets.
pub open spec fn cumulative(buckets: Seq<u64>, n: nat) -> u64
    decreases n,
{
    if n == 0 {
        0
    } else {
        cumulative(buckets, (n - 1) as nat).wrapping_add(buckets[n - 1])
    }
}

impl Latencies {
    /// Every observation is in one bucket.
    pub open spec fn wf(self) -> bool {
        &&& self.buckets.len() == 12
        &&& cumulative(self.buckets, 12) == self.count
    }

    /// The histogram after one more observation.
    pub open spec fn observed(self, elapsed_us: u128) -> Latencies {
        let micros = if elapsed_us > u64::MAX {
            u64::MAX
        } else {
            elapsed_us as u64
        };
        let b = bucket_of(micros, 0) as int;
        Latencies {
            buckets: self.buckets.update(b, self.buckets[b].wrapping_add(1)),
            sum_us: self.sum_us.wrapping_add(micros),
            count: self.count.wrapping_add(1),
        }
    }

    /// No observation.
    pub open spec fn empty() -> Latencies {
        Latencies { buckets: Seq::new(12, |i: int| 0u64), sum_us: 0, count: 0 }
    }
}

proof fn lemma_bucket_bound(micros: u64, i: nat)
    requires
        i <= 11,
    ensures
        i <= bucket_of(micros, i) <= 11,
    decreases 11 - i,
{
    if i < 11 && micros > latency_bounds()[i as int] {
        lemma_bucket_bound(micros, i + 1);
    }
}

proof fn lemma_cumulative_update(buckets: Seq<u64>, b: int, n: nat)
    requires
        0 <= b < buckets.len(),
        n <= buckets.len(),
    ensures
        cumulative(buckets.update(b, buckets[b].wrapping_add(1)), n) == (if b < n {
            cumulative(buckets, n).wrapping_add(1)
        } else {
            cumulative(buckets, n)
        }),
    decreases n,
{
    if n > 0 {
        lemma_cumulative_update(buckets, b, (n - 1) as nat);
    }
}

proof fn lemma_cumulative_zero(n: nat)
    requires
        n <= 12,
    ensures
        cumulative(Latencies::empty().buckets, n) == 0,
    decreases n,
{
    if n > 0 {
        lemma_cumulative_zero((n - 1) as nat);
    }
}

/// The overflow line of a histogram counts every observation: the `+Inf` bucket
/// always equals the count.
pub proof fn every_observation_is_in_one_bucket(h: Latencies, elapsed_us: u128)
    ensures
        Latencies::empty().wf(),
        h.wf() ==> h.observed(elapsed_us).wf(),
{
    lemma_cumulative_zero(12);
    if h.wf() {
        let micros = if elapsed_us > u64::MAX {
            u64::MAX
        } else {
            elapsed_us as u64
        };
        lemma_bucket_bound(micros, 0);
        lemma_cumulative_update(h.buckets, bucket_of(micros, 0) as int, 12);
    }
}

/// Buckets are cumulative: an observation is counted on the line of every bound
/// that covers it, and on no smaller one.
pub proof fn buckets_are_cumulative(h: Latencies, elapsed_us: u64, i: int)
    requires
        h.wf(),
        0 <= i < 11,
    ensures
        cumulative(h.observed(elapsed_us as u128).buckets, (i + 1) as nat) == (if elapsed_us
            <= latency_bounds()[i] {
            cumulative(h.buckets, (i + 1) as nat).wrapping_add(1)
        } else {
            cumulative(h.buckets, (i + 1) as nat)
        }),
{
    lemma_bucket_bound(elapsed_us, 0);
    lemma_bucket_covers(elapsed_us, 0, i);
    lemma_cumulative_update(h.buckets, bucket_of(elapsed_us, 0) as int, (i + 1) as nat);
}

proof fn lemma_bucket_covers(micros: u64, from: nat, i: int)
    requires
        from <= i < 11,
    ensures
        bucket_of(micros, from) <= i <==> micros <= latency_bounds()[i],
    decreases 11 - from,
{
    assert(forall|a: int, b: int|
        0 <= a <= b < 11 ==> latency_bounds()[a] <= latency_bounds()[b]);
    if micros <= latency_bounds()[from as int] {
    } else if from < i {
        lemma_bucket_covers(micros, from + 1, i);
    } else if from < 10 {
        lemma_bucket_bound(micros, from + 1);
    }
}

/// `s` without the commas it ends in.
pub open spec fn trim_commas(s: Seq<char>) -> Seq<char>
    decreases s.len(),
{
    if s.len() > 0 && s.last() == ',' {
        trim_commas(s.drop_last())
    } else {
        s
    }
}

fn without_trailing_commas(s: &str) -> (out: String)
    ensures
        out@ == trim_commas(s@),
{
    let chars = text::chars_of(s);
    let mut end: usize = chars.len();
    assert(chars@.take(end as int) =~= chars@);
    while end > 0 && chars[end - 1] == ','
        invariant
            end <= chars@.len(),
            trim_commas(chars@.take(end as int)) == trim_commas(s@),
        decreases end,
    {
        assert(chars@.take(end as int).last() == chars@[end - 1]);
        assert(chars@.take(end as int).drop_last() =~= chars@.take(end - 1));
        end = end - 1;
    }
    assert(end > 0 ==> chars@.take(end as int).last() == chars@[end - 1]);
    assert(chars@.subrange(0, end as int) =~= chars@.take(end as int));
    text::text_between(&chars, 0, end)
}

/// Microseconds as seconds with six decimals.
pub open spec fn seconds_text(us: nat) -> Seq<char> {
    text::decimal(us / 1_000_000) + "."@ + six_digits(us % 1_000_000)
}

/// A number below a million in six digits.
pub open spec fn six_digits(n: nat) -> Seq<char> {
    seq![
        text::digit(n / 100_000 % 10),
        text::digit(n / 10_000 % 10),
        text::digit(n / 1_000 % 10),
        text::digit(n / 100 % 10),
        text::digit(n / 10 % 10),
        text::digit(n % 10),
    ]
}

fn push_seconds(out: &mut String, us: u64)
    ensures
        final(out)@ == old(out)@ + seconds_text(us as nat),
{
    text::push_decimal(out, us / 1_000_000);
    out.append(".");
    let rest: u64 = us % 1_000_000;
    text::push_digit(out, rest / 100_000 % 10);
    text::push_digit(out, rest / 10_000 % 10);
    text::push_digit(out, rest / 1_000 % 10);
    text::push_digit(out, rest / 100 % 10);
    text::push_digit(out, rest / 10 % 10);
    text::push_digit(out, rest % 10);
    assert(out@ =~= old(out)@ + seconds_text(us as nat));
}

/// One bucket line of a histogram.
pub open spec fn bucket_line(
    name: Seq<char>,
    labels: Seq<char>,
    bound: Seq<char>,
    running: u64,
) -> Seq<char> {
    name + "_bucket{"@ + labels + "le=\""@ + bound + "\"} "@ + text::decimal(running as nat) + "\n"@
}

/// The lines of the first `n` bounds.
pub open spec fn bucket_lines(h: Latencies, name: Seq<char>, labels: Seq<char>, n: nat) -> Seq<char>
    decreases n,
{
    if n == 0 {
        Seq::empty()
    } else {
        bucket_lines(h, name, labels, (n - 1) as nat) + bucket_line(
            name,
            labels,
            bound_texts()[n - 1],
            cumulative(h.buckets, n),
        )
    }
}

/// One Prometheus histogram family, with `labels` on every series.
pub open spec fn histogram_text(h: Latencies, name: Seq<char>, labels: Seq<char>) -> Seq<char> {
    bucket_lines(h, name, labels, 11) + bucket_line(
        name,
        labels,
        "+Inf"@,
        cumulative(h.buckets, 12),
    ) + name + "_sum{"@ + trim_commas(labels) + "} "@ + seconds_text(h.sum_us as nat) + "\n"@ + name
        + "_count{"@ + trim_commas(labels) + "} "@ + text::decimal(h.count as nat) + "\n"@
}

fn push_bucket_line(out: &mut String, name: &str, labels: &str, bound: &str, running: u64)
    ensures
        final(out)@ == old(out)@ + bucket_line(name@, labels@, bound@, running),
{
    let mut line = name.to_owned();
    line.append("_bucket{");
    line.append(labels);
    line.append("le=\"");
    line.append(bound);
    line.append("\"} ");
    text::push_decimal(&mut line, running);
    line.append("\n");
    out.append(line.as_str());
}

impl View for Histogram {
    type V = Latencies;

    closed spec fn view(&self) -> Latencies {
        Latencies { buckets: self.buckets@, sum_us: self.sum_us, count: self.count }
    }
}

impl Default for Histogram {
    fn default() -> (h: Self)
        ensures
            h@ == Latencies::empty(),
            h@.wf(),
    {
        proof {
            lemma_cumulative_zero(12);
        }
        let h = Histogram { buckets: [0u64; 12], sum_us: 0, count: 0 };
        assert(h@ =~= Latencies::empty());
        h
    }
}

impl Histogram {
    /// Records one latency, given in microseconds.
    pub fn observe(&mut self, elapsed_us: u128)
        ensures
            final(self)@ == old(self)@.observed(elapsed_us),
            old(self)@.wf() ==> final(self)@.wf(),
    {
        let micros: u64 = if elapsed_us > u64::MAX as u128 {
            u64::MAX
        } else {
            elapsed_us as u64
        };
        let list = bounds();
        let mut bucket: usize = 0;
        while bucket < 11 && micros > list[bucket]
            invariant
                list@ == latency_bounds(),
                bucket <= 11,
                bucket_of(micros, bucket as nat) == bucket_of(micros, 0),
            decreases 11 - bucket,
        {
            bucket = bucket + 1;
        }
        proof {
            every_observation_is_in_one_bucket(self@, elapsed_us);
        }
        let ghost before = self.buckets@;
        self.buckets[bucket] = self.buckets[bucket].wrapping_add(1);
        self.sum_us = self.sum_us.wrapping_add(micros);
        self.count = self.count.wrapping_add(1);
        assert(self@ =~= old(self)@.observed(elapsed_us));
    }

    /// Renders one Prometheus histogram family, with `labels` on every series.
    ///
    /// Each `le` line carries the running total rather than the bucket's own
    /// count.
    pub fn render(&self, out: &mut String, name: &str, labels: &str)
        ensures
            final(out)@ == old(out)@ + histogram_text(self@, name@, labels@),
    {
        let ghost start = out@;
        let mut running: u64 = 0;
        let mut i: usize = 0;
        assert(out@ =~= start + bucket_lines(self@, name@, labels@, 0));
        while i < 11
            invariant
                i <= 11,
                running == cumulative(self.buckets@, i as nat),
                out@ == start + bucket_lines(self@, name@, labels@, i as nat),
            decreases 11 - i,
        {
            running = running.wrapping_add(self.buckets[i]);
            push_bucket_line(out, name, labels, bound_text(i), running);
            i = i + 1;
            assert(out@ =~= start + bucket_lines(self@, name@, labels@, i as nat));
        }
        running = running.wrapping_add(self.buckets[11]);
        push_bucket_line(out, name, labels, "+Inf", running);
        let trimmed = without_trailing_commas(labels);
        out.append(name);
        out.append("_sum{");
        out.append(trimmed.as_str());
        out.append("} ");
        push_seconds(out, self.sum_us);
        out.append("\n");
        out.append(name);
        out.append("_count{");
        out.append(trimmed.as_str());
        out.append("} ");
        text::push_decimal(out, self.count);
        out.append("\n");
        assert(out@ =~= start + histogram_text(self@, name@, labels@));
    }
}

/// Which wire dialect a request arrived on.
#[derive(Debug, Clone, Copy, PartialEq, Eq, Structural)]
pub enum Dialect {
    Vcp,
    Memcached,
    Resp,
}

/// Every dialect.
pub open spec fn dialects() -> Seq<Dialect> {
    seq![Dialect::Vcp, Dialect::Memcached, Dialect::Resp]
}

impl Dialect {
    /// The label a dialect goes by.
    pub open spec fn label(self) -> Seq<char> {
        match self {
            Dialect::Vcp => "vcp"@,
            Dialect::Memcached => "memcached"@,
            Dialect::Resp => "resp"@,
        }
    }

    /// The slot of a dialect.
    pub open spec fn slot(self) -> nat {
        match self {
            Dialect::Vcp => 0,
            Dialect::Memcached => 1,
            Dialect::Resp => 2,
        }
    }

    pub fn all() -> (list: Vec<Dialect>)
        ensures
            list@ == dialects(),
    {
        let list = vec![Dialect::Vcp, Dialect::Memcached, Dialect::Resp];
        assert(list@ =~= dialects());
        list
    }

    pub fn name(self) -> (s: &'static str)
        ensures
            s@ == self.label(),
    {
        match self {
            Dialect::Vcp => "vcp",
            Dialect::Memcached => "memcached",
            Dialect::Resp => "resp",
        }
    }

    fn index(self) -> (i: usize)
        ensures
            i == self.slot(),
            i < 3,
    {
        match self {
            Dialect::Vcp => 0,
            Dialect::Memcached => 1,
            Dialect::Resp => 2,
        }
    }
}

/// One counted command.
///
/// Coarser than the wire: `EXISTS`, `TYPE` and `TTL` all arrive as a deadline
/// query and are counted as one, because that is the operation the store
/// performs.
#[derive(Debug, Clone, Copy, PartialEq, Eq, Structural)]
pub enum CommandKind {
    Hello,
    Ping,
    Get,
    GetMany,
    Deadline,
    SetOne,
    SetMany,
    Delete,
    DeleteMany,
    Touch,
    Expire,
    Append,
    Arithmetic,
    GetAndTouch,
    DeleteByTag,
    Flush,
    TagSync,
    Cluster,
    Listing,
    Stats,
    Other,
}

/// Every command kind, in the order of its slots.
pub open spec fn kinds() -> Seq<CommandKind> {
    seq![
        CommandKind::Hello,
        CommandKind::Ping,
        CommandKind::Get,
        CommandKind::GetMany,
        CommandKind::Deadline,
        CommandKind::SetOne,
        CommandKind::SetMany,
        CommandKind::Delete,
        CommandKind::DeleteMany,
        CommandKind::Touch,
        CommandKind::Expire,
        CommandKind::Append,
        CommandKind::Arithmetic,
        CommandKind::GetAndTouch,
        CommandKind::DeleteByTag,
        CommandKind::Flush,
        CommandKind::TagSync,
        CommandKind::Cluster,
        CommandKind::Listing,
        CommandKind::Stats,
        CommandKind::Other,
    ]
}

impl CommandKind {
    /// The label a kind goes by.
    pub open spec fn label(self) -> Seq<char> {
        match self {
            CommandKind::Hello => "hello"@,
            CommandKind::Ping => "ping"@,
            CommandKind::Get => "get"@,
            CommandKind::GetMany => "get_many"@,
            CommandKind::Deadline => "deadline"@,
            CommandKind::SetOne => "set"@,
            CommandKind::SetMany => "set_many"@,
            CommandKind::Delete => "delete"@,
            CommandKind::DeleteMany => "delete_many"@,
            CommandKind::Touch => "touch"@,
            CommandKind::Expire => "expire"@,
            CommandKind::Append => "append"@,
            CommandKind::Arithmetic => "arithmetic"@,
            CommandKind::GetAndTouch => "get_and_touch"@,
            CommandKind::DeleteByTag => "delete_by_tag"@,
            CommandKind::Flush => "flush"@,
            CommandKind::TagSync => "tag_sync"@,
            CommandKind::Cluster => "cluster"@,
            CommandKind::Listing => "listing"@,
            CommandKind::Stats => "stats"@,
            CommandKind::Other => "other"@,
        }
    }

    /// The slot a kind is counted in.
    pub open spec fn slot(self) -> nat {
        match self {
            CommandKind::Hello => 0,
            CommandKind::Ping => 1,
            CommandKind::Get => 2,
            CommandKind::GetMany => 3,
            CommandKind::Deadline => 4,
            CommandKind::SetOne => 5,
            CommandKind::SetMany => 6,
            CommandKind::Delete => 7,
            CommandKind::DeleteMany => 8,
            CommandKind::Touch => 9,
            CommandKind::Expire => 10,
            CommandKind::Append => 11,
            CommandKind::Arithmetic => 12,
            CommandKind::GetAndTouch => 13,
            CommandKind::DeleteByTag => 14,
            CommandKind::Flush => 15,
            CommandKind::TagSync => 16,
            CommandKind::Cluster => 17,
            CommandKind::Listing => 18,
            CommandKind::Stats => 19,
            CommandKind::Other => 20,
        }
    }

    pub fn all() -> (list: Vec<CommandKind>)
        ensures
            list@ == kinds(),
    {
        let list = vec![
            CommandKind::Hello,
            CommandKind::Ping,
            CommandKind::Get,
            CommandKind::GetMany,
            CommandKind::Deadline,
            CommandKind::SetOne,
            CommandKind::SetMany,
            CommandKind::Delete,
            CommandKind::DeleteMany,
            CommandKind::Touch,
            CommandKind::Expire,
            CommandKind::Append,
            CommandKind::Arithmetic,
            CommandKind::GetAndTouch,
            CommandKind::DeleteByTag,
            CommandKind::Flush,
            CommandKind::TagSync,
            CommandKind::Cluster,
            CommandKind::Listing,
            CommandKind::Stats,
            CommandKind::Other,
        ];
        assert(list@ =~= kinds());
        list
    }

    pub fn name(self) -> (s: &'static str)
        ensures
            s@ == self.label(),
    {
        match self {
            CommandKind::Hello => "hello",
            CommandKind::Ping => "ping",
            CommandKind::Get => "get",
            CommandKind::GetMany => "get_many",
            CommandKind::Deadline => "deadline",
            CommandKind::SetOne => "set",
            CommandKind::SetMany => "set_many",
            CommandKind::Delete => "delete",
            CommandKind::DeleteMany => "delete_many",
            CommandKind::Touch => "touch",
            CommandKind::Expire => "expire",
            CommandKind::Append => "append",
            CommandKind::Arithmetic => "arithmetic",
            CommandKind::GetAndTouch => "get_and_touch",
            CommandKind::DeleteByTag => "delete_by_tag",
            CommandKind::Flush => "flush",
            CommandKind::TagSync => "tag_sync",
            CommandKind::Cluster => "cluster",
            CommandKind::Listing => "listing",
            CommandKind::Stats => "stats",
            CommandKind::Other => "other",
        }
    }

    pub fn index(self) -> (i: usize)
        ensures
            i == self.slot(),
            i < 21,
            kinds()[i as int] == self,
    {
        match self {
            CommandKind::Hello => 0,
            CommandKind::Ping => 1,
            CommandKind::Get => 2,
            CommandKind::GetMany => 3,
            CommandKind::Deadline => 4,
            CommandKind::SetOne => 5,
            CommandKind::SetMany => 6,
            CommandKind::Delete => 7,
            CommandKind::DeleteMany => 8,
            CommandKind::Touch => 9,
            CommandKind::Expire => 10,
            CommandKind::Append => 11,
            CommandKind::Arithmetic => 12,
            CommandKind::GetAndTouch => 13,
            CommandKind::DeleteByTag => 14,
            CommandKind::Flush => 15,
            CommandKind::TagSync => 16,
            CommandKind::Cluster => 17,
            CommandKind::Listing => 18,
            CommandKind::Stats => 19,
            CommandKind::Other => 20,
        }
    }

    /// The kind an operation is counted as.
    pub open spec fn kind_of(command: Command) -> CommandKind {
        match command {
            Command::Hello { .. } => CommandKind::Hello,
            Command::Ping => CommandKind::Ping,
            Command::Get { .. } => CommandKind::Get,
            Command::GetMany(_) => CommandKind::GetMany,
            Command::Deadline { .. } => CommandKind::Deadline,
            Command::Deadlines(_) => CommandKind::Deadline,
            Command::SetOne(_) => CommandKind::SetOne,
            Command::SetMany { .. } => CommandKind::SetMany,
            Command::Delete { .. } => CommandKind::Delete,
            Command::DeleteMany(_) => CommandKind::DeleteMany,
            Command::Touch { .. } => CommandKind::Touch,
            Command::Expire { .. } => CommandKind::Expire,
            Command::Append { .. } => CommandKind::Append,
            Command::Arithmetic(_) => CommandKind::Arithmetic,
            Command::GetAndTouch { .. } => CommandKind::GetAndTouch,
            Command::DeleteByTag { .. } => CommandKind::DeleteByTag,
            Command::Flush => CommandKind::Flush,
            Command::TagSync { .. } => CommandKind::TagSync,
            Command::Cluster => CommandKind::Cluster,
            Command::ListKeys(_) => CommandKind::Listing,
            Command::ListTags(_) => CommandKind::Listing,
            Command::Stats => CommandKind::Stats,
            Command::Version => CommandKind::Other,
            Command::Quit => CommandKind::Other,
        }
    }

    pub fn of(command: &Command) -> (kind: Self)
        ensures
            kind == CommandKind::kind_of(*command),
    {
        match command {
            Command::Hello { .. } => CommandKind::Hello,
            Command::Ping => CommandKind::Ping,
            Command::Get { .. } => CommandKind::Get,
            Command::GetMany(_) => CommandKind::GetMany,
            Command::Deadline { .. } => CommandKind::Deadline,
            Command::Deadlines(_) => CommandKind::Deadline,
            Command::SetOne(_) => CommandKind::SetOne,
            Command::SetMany { .. } => CommandKind::SetMany,
            Command::Delete { .. } => CommandKind::Delete,
            Command::DeleteMany(_) => CommandKind::DeleteMany,
            Command::Touch { .. } => CommandKind::Touch,
            Command::Expire { .. } => CommandKind::Expire,
            Command::Append { .. } => CommandKind::Append,
            Command::Arithmetic(_) => CommandKind::Arithmetic,
            Command::GetAndTouch { .. } => CommandKind::GetAndTouch,
            Command::DeleteByTag { .. } => CommandKind::DeleteByTag,
            Command::Flush => CommandKind::Flush,
            Command::TagSync { .. } => CommandKind::TagSync,
            Command::Cluster => CommandKind::Cluster,
            Command::ListKeys(_) => CommandKind::Listing,
            Command::ListTags(_) => CommandKind::Listing,
            Command::Stats => CommandKind::Stats,
            Command::Version => CommandKind::Other,
            Command::Quit => CommandKind::Other,
        }
    }
}

/// Every kind has a slot of its own, and the list of kinds is in slot order.
pub proof fn every_kind_has_its_own_slot(kind: CommandKind)
    ensures
        kinds().len() == 21,
        kind.slot() < 21,
        kinds()[kind.slot() as int] == kind,
{
}

/// Two commands are counted together only where an operator would not tell them apart:
/// two deadline queries, two listings, and the two that only end or name a conversation.
/// The label is the command's own name.
pub proof fn every_command_is_counted_as_itself(a: Command, b: Command)
    requires
        CommandKind::kind_of(a) == CommandKind::kind_of(b),
    ensures
        a is Hello == b is Hello,
        a is Ping == b is Ping,
        a is Get == b is Get,
        a is GetMany == b is GetMany,
        (a is Deadline || a is Deadlines) == (b is Deadline || b is Deadlines),
        a is SetOne == b is SetOne,
        a is SetMany == b is SetMany,
        a is Delete == b is Delete,
        a is DeleteMany == b is DeleteMany,
        a is Touch == b is Touch,
        a is Expire == b is Expire,
        a is Append == b is Append,
        a is Arithmetic == b is Arithmetic,
        a is GetAndTouch == b is GetAndTouch,
        a is DeleteByTag == b is DeleteByTag,
        a is Flush == b is Flush,
        a is TagSync == b is TagSync,
        a is Cluster == b is Cluster,
        (a is ListKeys || a is ListTags) == (b is ListKeys || b is ListTags),
        a is Stats == b is Stats,
        a is Get ==> CommandKind::kind_of(a).label() == "get"@,
        a is GetMany ==> CommandKind::kind_of(a).label() == "get_many"@,
        a is SetOne ==> CommandKind::kind_of(a).label() == "set"@,
        a is SetMany ==> CommandKind::kind_of(a).label() == "set_many"@,
        a is Delete ==> CommandKind::kind_of(a).label() == "delete"@,
        a is DeleteMany ==> CommandKind::kind_of(a).label() == "delete_many"@,
        a is Touch ==> CommandKind::kind_of(a).label() == "touch"@,
        a is Expire ==> CommandKind::kind_of(a).label() == "expire"@,
        a is Append ==> CommandKind::kind_of(a).label() == "append"@,
        a is Arithmetic ==> CommandKind::kind_of(a).label() == "arithmetic"@,
        a is GetAndTouch ==> CommandKind::kind_of(a).label() == "get_and_touch"@,
        a is DeleteByTag ==> CommandKind::kind_of(a).label() == "delete_by_tag"@,
        a is Flush ==> CommandKind::kind_of(a).label() == "flush"@,
        a is TagSync ==> CommandKind::kind_of(a).label() == "tag_sync"@,
        a is Stats ==> CommandKind::kind_of(a).label() == "stats"@,
{
}

/// The slot of the kind that goes by a label, told by its length and a few of its
/// characters.
spec fn labelled_slot(s: Seq<char>) -> nat {
    if s.len() == 5 && s[0] == 'h' {
        0
    } else if s.len() == 4 && s[0] == 'p' {
        1
    } else if s.len() == 3 && s[0] == 'g' {
        2
    } else if s.len() == 8 && s[0] == 'g' {
        3
    } else if s.len() == 8 && s[0] == 'd' {
        4
    } else if s.len() == 3 && s[0] == 's' {
        5
    } else if s.len() == 8 && s[0] == 's' {
        6
    } else if s.len() == 6 && s[0] == 'd' {
        7
    } else if s.len() == 11 && s[0] == 'd' {
        8
    } else if s.len() == 5 && s[0] == 't' {
        9
    } else if s.len() == 6 && s[0] == 'e' {
        10
    } else if s.len() == 6 && s[0] == 'a' {
        11
    } else if s.len() == 10 && s[0] == 'a' {
        12
    } else if s.len() == 13 && s[0] == 'g' {
        13
    } else if s.len() == 13 && s[0] == 'd' {
        14
    } else if s.len() == 5 && s[0] == 'f' {
        15
    } else if s.len() == 8 && s[0] == 't' {
        16
    } else if s.len() == 7 && s[0] == 'c' {
        17
    } else if s.len() == 7 && s[0] == 'l' {
        18
    } else if s.len() == 5 && s[0] == 's' {
        19
    } else if s.len() == 5 && s[0] == 'o' {
        20
    } else {
        21
    }
}

proof fn lemma_labelled_slot(kind: CommandKind)
    ensures
        labelled_slot(kind.label()) == kind.slot(),
{
    match kind {
        CommandKind::Hello => {
            reveal_strlit("hello");
        },
        CommandKind::Ping => {
            reveal_strlit("ping");
        },
        CommandKind::Get => {
            reveal_strlit("get");
        },
        CommandKind::GetMany => {
            reveal_strlit("get_many");
        },
        CommandKind::Deadline => {
            reveal_strlit("deadline");
        },
        CommandKind::SetOne => {
            reveal_strlit("set");
        },
        CommandKind::SetMany => {
            reveal_strlit("set_many");
        },
        CommandKind::Delete => {
            reveal_strlit("delete");
        },
        CommandKind::DeleteMany => {
            reveal_strlit("delete_many");
        },
        CommandKind::Touch => {
            reveal_strlit("touch");
        },
        CommandKind::Expire => {
            reveal_strlit("expire");
        },
        CommandKind::Append => {
            reveal_strlit("append");
        },
        CommandKind::Arithmetic => {
            reveal_strlit("arithmetic");
        },
        CommandKind::GetAndTouch => {
            reveal_strlit("get_and_touch");
        },
        CommandKind::DeleteByTag => {
            reveal_strlit("delete_by_tag");
        },
        CommandKind::Flush => {
            reveal_strlit("flush");
        },
        CommandKind::TagSync => {
            reveal_strlit("tag_sync");
        },
        CommandKind::Cluster => {
            reveal_strlit("cluster");
        },
        CommandKind::Listing => {
            reveal_strlit("listing");
        },
        CommandKind::Stats => {
            reveal_strlit("stats");
        },
        CommandKind::Other => {
            reveal_strlit("other");
        },
    }
}

/// No two kinds share a name, so no two commands share a series.
pub proof fn kind_names_are_distinct(a: CommandKind, b: CommandKind)
    requires
        a.label() == b.label(),
    ensures
        a == b,
{
    lemma_labelled_slot(a);
    lemma_labelled_slot(b);
    every_kind_has_its_own_slot(a);
    every_kind_has_its_own_slot(b);
}

/// Per-command rates and latencies.
///
/// The counter carries the dialect, so an operator can see who is sending what.
/// The histogram does not, because a command's latency is a property of the
/// storage work rather than of the wire format that asked for it.
#[derive(Debug)]
pub struct CommandMetrics {
    counts: Vec<u64>,
    latency: Vec<Histogram>,
}

/// What the per-command metrics hold: a count for each kind and dialect, and a
/// histogram for each kind, in slot order.
#[verifier::ext_equal]
pub struct CommandCounters {
    pub counts: Seq<u64>,
    pub latency: Seq<Latencies>,
}

impl CommandCounters {
    pub open spec fn wf(self) -> bool {
        &&& self.counts.len() == 63
        &&& self.latency.len() == 21
        &&& forall|i: int| 0 <= i < 21 ==> (#[trigger] self.latency[i]).wf()
    }

    /// The counters after one more command.
    pub open spec fn observed(
        self,
        kind: CommandKind,
        dialect: Dialect,
        elapsed_us: u128,
    ) -> CommandCounters {
        let slot = kind.slot() as int;
        let cell = slot * 3 + dialect.slot() as int;
        CommandCounters {
            counts: self.counts.update(cell, self.counts[cell].wrapping_add(1)),
            latency: self.latency.update(slot, self.latency[slot].observed(elapsed_us)),
        }
    }

    /// How many times a command ran, across every dialect.
    pub open spec fn total(self, kind: CommandKind) -> u64 {
        let base = kind.slot() as int * 3;
        self.counts[base].wrapping_add(self.counts[base + 1]).wrapping_add(self.counts[base + 2])
    }

    /// The counter line of one kind and dialect.
    pub open spec fn count_line(self, i: int) -> Seq<char> {
        "vash_command_total{command=\""@ + kinds()[i / 3].label() + "\",dialect=\""@
            + dialects()[i % 3].label() + "\"} "@ + text::decimal(self.counts[i] as nat) + "\n"@
    }

    /// The first `n` counter lines.
    pub open spec fn count_lines(self, n: nat) -> Seq<char>
        decreases n,
    {
        if n == 0 {
            Seq::empty()
        } else {
            self.count_lines((n - 1) as nat) + self.count_line(n - 1)
        }
    }

    /// The histograms of the first `n` kinds.
    pub open spec fn latency_text(self, n: nat) -> Seq<char>
        decreases n,
    {
        if n == 0 {
            Seq::empty()
        } else {
            self.latency_text((n - 1) as nat) + histogram_text(
                self.latency[n - 1],
                "vash_command_seconds"@,
                "command=\""@ + kinds()[n - 1].label() + "\","@,
            )
        }
    }

    /// The two families, as Prometheus reads them.
    pub open spec fn exposition(self) -> Seq<char> {
        "# HELP vash_command_total Commands executed, by command and dialect.\n"@
            + "# TYPE vash_command_total counter\n"@ + self.count_lines(63)
            + "# HELP vash_command_seconds Time to execute a command, once it reached a thread that could.\n"@
            + "# TYPE vash_command_seconds histogram\n"@ + self.latency_text(21)
    }

    /// Nothing counted yet.
    pub open spec fn empty() -> CommandCounters {
        CommandCounters {
            counts: Seq::new(63, |i: int| 0u64),
            latency: Seq::new(21, |i: int| Latencies::empty()),
        }
    }
}

impl View for CommandMetrics {
    type V = CommandCounters;

    closed spec fn view(&self) -> CommandCounters {
        CommandCounters {
            counts: self.counts@,
            latency: Seq::new(self.latency@.len(), |i: int| self.latency@[i]@),
        }
    }
}

impl CommandMetrics {
    pub fn new() -> (m: Self)
        ensures
            m@.wf(),
            m@ == CommandCounters::empty(),
    {
        let mut counts: Vec<u64> = Vec::new();
        let mut i: usize = 0;
        while i < 63
            invariant
                i <= 63,
                counts@.len() == i,
                forall|j: int| 0 <= j < i ==> counts@[j] == 0,
            decreases 63 - i,
        {
            counts.push(0);
            i = i + 1;
        }
        let mut latency: Vec<Histogram> = Vec::new();
        let mut k: usize = 0;
        while k < 21
            invariant
                k <= 21,
                latency@.len() == k,
                forall|j: int| 0 <= j < k ==> (#[trigger] latency@[j])@ == Latencies::empty(),
            decreases 21 - k,
        {
            latency.push(Histogram::default());
            k = k + 1;
        }
        proof {
            every_observation_is_in_one_bucket(Latencies::empty(), 0);
        }
        let m = CommandMetrics { counts, latency };
        assert(m@ =~= CommandCounters::empty());
        m
    }

    /// Records one command and how long it took, in microseconds.
    pub fn observe(&mut self, kind: CommandKind, dialect: Dialect, elapsed_us: u128)
        requires
            old(self)@.wf(),
        ensures
            final(self)@.wf(),
            final(self)@ == old(self)@.observed(kind, dialect, elapsed_us),
    {
        let slot = kind.index();
        let cell: usize = slot * 3 + dialect.index();
        let ghost before = self@;
        let bumped: u64 = self.counts[cell].wrapping_add(1);
        self.counts.set(cell, bumped);
        assert(before.latency[slot as int] == self.latency@[slot as int]@);
        self.latency[slot].observe(elapsed_us);
        assert(self@ =~= before.observed(kind, dialect, elapsed_us));
    }

    /// How many times this command ran, across every dialect.
    pub fn total(&self, kind: CommandKind) -> (n: u64)
        requires
            self@.wf(),
        ensures
            n == self@.total(kind),
    {
        let base: usize = kind.index() * 3;
        self.counts[base].wrapping_add(self.counts[base + 1]).wrapping_add(self.counts[base + 2])
    }

    pub fn render(&self, out: &mut String)
        requires
            self@.wf(),
        ensures
            final(out)@ == old(out)@ + self@.exposition(),
    {
        let ghost start = out@;
        out.append("# HELP vash_command_total Commands executed, by command and dialect.\n");
        out.append("# TYPE vash_command_total counter\n");
        let all = CommandKind::all();
        let wires = Dialect::all();
        let ghost rows = out@;
        assert(out@ =~= rows + self@.count_lines(0));
        let mut i: usize = 0;
        while i < 63
            invariant
                self@.wf(),
                all@ == kinds(),
                wires@ == dialects(),
                i <= 63,
                out@ == rows + self@.count_lines(i as nat),
            decreases 63 - i,
        {
            let mut line = "vash_command_total{command=\"".to_owned();
            line.append(all[i / 3].name());
            line.append("\",dialect=\"");
            line.append(wires[i % 3].name());
            line.append("\"} ");
            text::push_decimal(&mut line, self.counts[i]);
            line.append("\n");
            assert(line@ == self@.count_line(i as int));
            let ghost done = self@.count_lines(i as nat);
            out.append(line.as_str());
            proof {
                text::lemma_append_associates(rows, done, line@);
            }
            i = i + 1;
        }
        out.append(
            "# HELP vash_command_seconds Time to execute a command, once it reached a thread that could.\n",
        );
        out.append("# TYPE vash_command_seconds histogram\n");
        let ghost tables = out@;
        assert(out@ =~= tables + self@.latency_text(0));
        let mut k: usize = 0;
        while k < 21
            invariant
                self@.wf(),
                all@ == kinds(),
                k <= 21,
                out@ == tables + self@.latency_text(k as nat),
            decreases 21 - k,
        {
            let mut labels = "command=\"".to_owned();
            labels.append(all[k].name());
            labels.append("\",");
            assert(self.latency@[k as int]@ == self@.latency[k as int]);
            let ghost done = self@.latency_text(k as nat);
            self.latency[k].render(out, "vash_command_seconds", labels.as_str());
            proof {
                text::lemma_append_associates(
                    tables,
                    done,
                    histogram_text(
                        self@.latency[k as int],
                        "vash_command_seconds"@,
                        "command=\""@ + kinds()[k as int].label() + "\","@,
                    ),
                );
            }
            k = k + 1;
        }
        assert(out@ =~= start + self@.exposition());
    }
}

/// Per-command outcomes: how often each command found what it was aimed at.
#[derive(Debug, Clone, Copy, PartialEq, Eq, Structural)]
pub struct OutcomeMetrics {
    pub delete_hits: u64,
    pub delete_misses: u64,
    pub incr_hits: u64,
    pub incr_misses: u64,
    pub decr_hits: u64,
    pub decr_misses: u64,
    pub cas_hits: u64,
    pub cas_misses: u64,
    /// A `cas` against a key that exists but has moved on.
    pub cas_badval: u64,
    pub touch_hits: u64,
    pub touch_misses: u64,
    /// Writes refused for exceeding `store.max_value_bytes`.
    pub store_too_large: u64,
    /// Stores that applied.
    pub total_items: u64,
    /// Commands that arrived on the memcached meta dialect.
    pub meta_commands: u64,
    pub bytes_read: u64,
    pub bytes_written: u64,
}

/// Whether a float, given by its bit pattern, is below zero.
pub open spec fn float_negative(bits: u64) -> bool {
    0x8000_0000_0000_0000 < bits <= 0xfff0_0000_0000_0000
}

/// Whether an arithmetic operation moves a counter down.
pub open spec fn moves_down(delta: Delta) -> bool {
    match delta {
        Delta::Counter { decrement, .. } => decrement,
        Delta::Int { delta, .. } => delta < 0,
        Delta::Float { delta, .. } => float_negative(delta),
    }
}

fn is_down(delta: &Delta) -> (yes: bool)
    ensures
        yes == moves_down(*delta),
{
    match delta {
        Delta::Counter { decrement, .. } => *decrement,
        Delta::Int { delta, .. } => *delta < 0,
        Delta::Float { delta, .. } => 0x8000_0000_0000_0000 < *delta && *delta
            <= 0xfff0_0000_0000_0000,
    }
}

impl OutcomeMetrics {
    /// The counters after `n` more deletes that hit and `m` that missed.
    pub open spec fn deleted(self, n: nat, m: nat) -> OutcomeMetrics {
        OutcomeMetrics {
            delete_hits: self.delete_hits.wrapping_add(n as u64),
            delete_misses: self.delete_misses.wrapping_add(m as u64),
            ..self
        }
    }

    /// The counters after `n` more items were stored.
    pub open spec fn stored(self, n: nat) -> OutcomeMetrics {
        OutcomeMetrics { total_items: self.total_items.wrapping_add(n as u64), ..self }
    }

    /// The counters after a command and what it answered.
    ///
    /// CAS is the one write whose outcomes are all distinct: applied, moved on,
    /// and not there. A guarded batch that applied is answered without tokens, and
    /// stored every write of it.
    pub open spec fn observed(self, command: Command, reply: Reply) -> OutcomeMetrics {
        match (command, reply) {
            (Command::Delete { .. }, Reply::Deleted) => self.deleted(1, 0),
            (Command::Delete { .. }, Reply::NotFound) => self.deleted(0, 1),
            (Command::DeleteMany(_), Reply::DeletedMany(hits)) => {
                let found = domain::count_true(hits@);
                self.deleted(found, (hits@.len() - found) as nat)
            },
            (Command::Touch { .. }, Reply::Touched) => OutcomeMetrics {
                touch_hits: self.touch_hits.wrapping_add(1),
                ..self
            },
            (Command::Touch { .. }, Reply::NotFound) => OutcomeMetrics {
                touch_misses: self.touch_misses.wrapping_add(1),
                ..self
            },
            (Command::Arithmetic(op), reply) => {
                let down = moves_down(op.delta);
                match reply {
                    Reply::Arithmetic(_) => if down {
                        OutcomeMetrics { decr_hits: self.decr_hits.wrapping_add(1), ..self }
                    } else {
                        OutcomeMetrics { incr_hits: self.incr_hits.wrapping_add(1), ..self }
                    },
                    Reply::NotFound => if down {
                        OutcomeMetrics { decr_misses: self.decr_misses.wrapping_add(1), ..self }
                    } else {
                        OutcomeMetrics { incr_misses: self.incr_misses.wrapping_add(1), ..self }
                    },
                    _ => self,
                }
            },
            (Command::SetOne(set), Reply::Stored(outcome)) => match (set.mode, outcome) {
                (SetMode::Cas(_), Stored::Stored(_)) => OutcomeMetrics {
                    cas_hits: self.cas_hits.wrapping_add(1),
                    ..self
                }.stored(1),
                (SetMode::Cas(_), Stored::Exists) => OutcomeMetrics {
                    cas_badval: self.cas_badval.wrapping_add(1),
                    ..self
                },
                (SetMode::Cas(_), _) => OutcomeMetrics {
                    cas_misses: self.cas_misses.wrapping_add(1),
                    ..self
                },
                (_, Stored::Stored(_)) => self.stored(1),
                _ => self,
            },
            (_, Reply::Stored(Stored::Stored(_))) => self.stored(1),
            (_, Reply::Swapped { outcome, .. }) => if outcome is Stored {
                self.stored(1)
            } else {
                self
            },
            (Command::SetMany { sets, guard }, Reply::StoredMany(stored)) => self.stored(
                if guard == BatchGuard::Always {
                    stored@.len()
                } else {
                    sets@.len()
                },
            ),
            (_, Reply::StoredMany(stored)) => self.stored(stored@.len()),
            _ => self,
        }
    }

    /// Records what a command found, from the reply the executor already has.
    pub fn observe(&mut self, command: &Command, reply: &Reply)
        ensures
            *final(self) == old(self).observed(*command, *reply),
    {
        match (command, reply) {
            (Command::Delete { .. }, Reply::Deleted) => {
                self.delete_hits = self.delete_hits.wrapping_add(1);
            },
            (Command::Delete { .. }, Reply::NotFound) => {
                self.delete_misses = self.delete_misses.wrapping_add(1);
            },
            (Command::DeleteMany(_), Reply::DeletedMany(items)) => {
                let found = hits(items);
                self.delete_hits = self.delete_hits.wrapping_add(found);
                self.delete_misses = self.delete_misses.wrapping_add(items.len() as u64 - found);
            },
            (Command::Touch { .. }, Reply::Touched) => {
                self.touch_hits = self.touch_hits.wrapping_add(1);
            },
            (Command::Touch { .. }, Reply::NotFound) => {
                self.touch_misses = self.touch_misses.wrapping_add(1);
            },
            (Command::Arithmetic(op), _) => {
                let down = is_down(&op.delta);
                match reply {
                    Reply::Arithmetic(_) => if down {
                        self.decr_hits = self.decr_hits.wrapping_add(1);
                    } else {
                        self.incr_hits = self.incr_hits.wrapping_add(1);
                    },
                    Reply::NotFound => if down {
                        self.decr_misses = self.decr_misses.wrapping_add(1);
                    } else {
                        self.incr_misses = self.incr_misses.wrapping_add(1);
                    },
                    _ => {},
                }
            },
            (Command::SetOne(set), Reply::Stored(outcome)) => {
                match (set.mode, outcome) {
                    (SetMode::Cas(_), Stored::Stored(_)) => {
                        self.cas_hits = self.cas_hits.wrapping_add(1);
                        self.total_items = self.total_items.wrapping_add(1);
                    },
                    (SetMode::Cas(_), Stored::Exists) => {
                        self.cas_badval = self.cas_badval.wrapping_add(1);
                    },
                    (SetMode::Cas(_), _) => {
                        self.cas_misses = self.cas_misses.wrapping_add(1);
                    },
                    (_, Stored::Stored(_)) => {
                        self.total_items = self.total_items.wrapping_add(1);
                    },
                    _ => {},
                }
            },
            (_, Reply::Stored(Stored::Stored(_))) => {
                self.total_items = self.total_items.wrapping_add(1);
            },
            (_, Reply::Swapped { outcome, .. }) => {
                if let Stored::Stored(_) = outcome {
                    self.total_items = self.total_items.wrapping_add(1);
                }
            },
            (Command::SetMany { sets, guard }, Reply::StoredMany(stored)) => {
                let n: usize = match guard {
                    BatchGuard::Always => stored.len(),
                    _ => sets.len(),
                };
                self.total_items = self.total_items.wrapping_add(n as u64);
            },
            (_, Reply::StoredMany(stored)) => {
                self.total_items = self.total_items.wrapping_add(stored.len() as u64);
            },
            _ => {},
        }
    }
}

/// A `GET` leaves every outcome counter alone, whatever it answers: reading a
/// value straight out of the store may skip this bookkeeping.
pub proof fn observe_has_nothing_to_say_about_a_get(m: OutcomeMetrics, command: Command, reply: Reply)
    requires
        command is Get || command is GetMany,
        reply is Value || reply is NotFound || reply is Values,
    ensures
        m.observed(command, reply) == m,
{
}

impl Default for OutcomeMetrics {
    fn default() -> (m: Self)
        ensures
            m == OutcomeMetrics::zero(),
    {
        OutcomeMetrics {
            delete_hits: 0,
            delete_misses: 0,
            incr_hits: 0,
            incr_misses: 0,
            decr_hits: 0,
            decr_misses: 0,
            cas_hits: 0,
            cas_misses: 0,
            cas_badval: 0,
            touch_hits: 0,
            touch_misses: 0,
            store_too_large: 0,
            total_items: 0,
            meta_commands: 0,
            bytes_read: 0,
            bytes_written: 0,
        }
    }
}

impl OutcomeMetrics {
    /// Nothing counted yet.
    pub open spec fn zero() -> OutcomeMetrics {
        OutcomeMetrics {
            delete_hits: 0,
            delete_misses: 0,
            incr_hits: 0,
            incr_misses: 0,
            decr_hits: 0,
            decr_misses: 0,
            cas_hits: 0,
            cas_misses: 0,
            cas_badval: 0,
            touch_hits: 0,
            touch_misses: 0,
            store_too_large: 0,
            total_items: 0,
            meta_commands: 0,
            bytes_read: 0,
            bytes_written: 0,
        }
    }
}

/// Error groupings an operator responds to differently.
#[derive(Debug, Clone, Copy, PartialEq, Eq, Structural)]
pub enum ErrorClass {
    Client,
    Capacity,
    Overloaded,
    Internal,
}

/// What the whole server counted.
#[derive(Debug)]
pub struct ServerMetrics {
    pub connections_total: u64,
    pub connections_active: u64,
    pub connections_rejected: u64,
    pub auth_ok: u64,
    pub auth_failed: u64,
    pub auth_refused: u64,
    pub auth_timeouts: u64,
    pub auth_capacity_rejected: u64,
    pub commands_total: u64,
    pub reads: u64,
    pub writes: u64,
    pub hits: u64,
    pub misses: u64,
    pub errors_client: u64,
    pub errors_capacity: u64,
    pub errors_overloaded: u64,
    pub errors_internal: u64,
    /// When the served certificate chain stops verifying, in Unix seconds. Zero
    /// where that is not known.
    pub tls_cert_expiry: u64,
    pub commands: CommandMetrics,
    pub outcomes: OutcomeMetrics,
}

impl Default for ServerMetrics {
    fn default() -> (m: Self)
        ensures
            m.commands@.wf(),
            m.commands@ == CommandCounters::empty(),
            m == (ServerMetrics {
                connections_total: 0,
                connections_active: 0,
                connections_rejected: 0,
                auth_ok: 0,
                auth_failed: 0,
                auth_refused: 0,
                auth_timeouts: 0,
                auth_capacity_rejected: 0,
                commands_total: 0,
                reads: 0,
                writes: 0,
                hits: 0,
                misses: 0,
                errors_client: 0,
                errors_capacity: 0,
                errors_overloaded: 0,
                errors_internal: 0,
                tls_cert_expiry: 0,
                commands: m.commands,
                outcomes: OutcomeMetrics::zero(),
            }),
    {
        ServerMetrics {
            connections_total: 0,
            connections_active: 0,
            connections_rejected: 0,
            auth_ok: 0,
            auth_failed: 0,
            auth_refused: 0,
            auth_timeouts: 0,
            auth_capacity_rejected: 0,
            commands_total: 0,
            reads: 0,
            writes: 0,
            hits: 0,
            misses: 0,
            errors_client: 0,
            errors_capacity: 0,
            errors_overloaded: 0,
            errors_internal: 0,
            tls_cert_expiry: 0,
            commands: CommandMetrics::new(),
            outcomes: OutcomeMetrics::default(),
        }
    }
}

impl ServerMetrics {
    /// The counters after a read of some keys.
    pub open spec fn with_read(self, hits: u64, misses: u64) -> ServerMetrics {
        ServerMetrics {
            commands_total: self.commands_total.wrapping_add(1),
            reads: self.reads.wrapping_add(1),
            hits: self.hits.wrapping_add(hits),
            misses: self.misses.wrapping_add(misses),
            ..self
        }
    }

    /// The counters after a write.
    pub open spec fn with_write(self) -> ServerMetrics {
        ServerMetrics {
            commands_total: self.commands_total.wrapping_add(1),
            writes: self.writes.wrapping_add(1),
            ..self
        }
    }

    /// The counters after a command that was neither.
    pub open spec fn with_other(self) -> ServerMetrics {
        ServerMetrics { commands_total: self.commands_total.wrapping_add(1), ..self }
    }

    /// The counters after an error.
    pub open spec fn with_error(self, class: ErrorClass) -> ServerMetrics {
        match class {
            ErrorClass::Client => ServerMetrics {
                errors_client: self.errors_client.wrapping_add(1),
                ..self
            },
            ErrorClass::Capacity => ServerMetrics {
                errors_capacity: self.errors_capacity.wrapping_add(1),
                ..self
            },
            ErrorClass::Overloaded => ServerMetrics {
                errors_overloaded: self.errors_overloaded.wrapping_add(1),
                ..self
            },
            ErrorClass::Internal => ServerMetrics {
                errors_internal: self.errors_internal.wrapping_add(1),
                ..self
            },
        }
    }

    /// The counters after a successful authentication.
    pub open spec fn with_auth_ok(self) -> ServerMetrics {
        ServerMetrics { auth_ok: self.auth_ok.wrapping_add(1), ..self }
    }

    /// The counters after a failed authentication.
    pub open spec fn with_auth_failed(self) -> ServerMetrics {
        ServerMetrics { auth_failed: self.auth_failed.wrapping_add(1), ..self }
    }

    /// The counters after a command refused for want of authentication.
    pub open spec fn with_auth_refused(self) -> ServerMetrics {
        ServerMetrics { auth_refused: self.auth_refused.wrapping_add(1), ..self }
    }

    pub fn connection_opened(&mut self)
        ensures
            *final(self) == (ServerMetrics {
                connections_total: old(self).connections_total.wrapping_add(1),
                connections_active: old(self).connections_active.wrapping_add(1),
                ..*old(self)
            }),
    {
        self.connections_total = self.connections_total.wrapping_add(1);
        self.connections_active = self.connections_active.wrapping_add(1);
    }

    pub fn connection_closed(&mut self)
        ensures
            *final(self) == (ServerMetrics {
                connections_active: old(self).connections_active.wrapping_sub(1),
                ..*old(self)
            }),
    {
        self.connections_active = self.connections_active.wrapping_sub(1);
    }

    pub fn connection_rejected(&mut self)
        ensures
            *final(self) == (ServerMetrics {
                connections_rejected: old(self).connections_rejected.wrapping_add(1),
                ..*old(self)
            }),
    {
        self.connections_rejected = self.connections_rejected.wrapping_add(1);
    }

    pub fn auth_timeout(&mut self)
        ensures
            *final(self) == (ServerMetrics {
                auth_timeouts: old(self).auth_timeouts.wrapping_add(1),
                ..*old(self)
            }),
    {
        self.auth_timeouts = self.auth_timeouts.wrapping_add(1);
    }

    pub fn auth_capacity_rejected(&mut self)
        ensures
            *final(self) == (ServerMetrics {
                auth_capacity_rejected: old(self).auth_capacity_rejected.wrapping_add(1),
                ..*old(self)
            }),
    {
        self.auth_capacity_rejected = self.auth_capacity_rejected.wrapping_add(1);
    }

    pub fn auth_ok(&mut self)
        ensures
            *final(self) == old(self).with_auth_ok(),
    {
        self.auth_ok = self.auth_ok.wrapping_add(1);
    }

    pub fn auth_failed(&mut self)
        ensures
            *final(self) == old(self).with_auth_failed(),
    {
        self.auth_failed = self.auth_failed.wrapping_add(1);
    }

    pub fn auth_refused(&mut self)
        ensures
            *final(self) == old(self).with_auth_refused(),
    {
        self.auth_refused = self.auth_refused.wrapping_add(1);
    }

    /// Records when the served certificate chain stops verifying.
    pub fn tls_cert_expires_at(&mut self, unix_seconds: u64)
        ensures
            *final(self) == (ServerMetrics { tls_cert_expiry: unix_seconds, ..*old(self) }),
    {
        self.tls_cert_expiry = unix_seconds;
    }

    pub fn read(&mut self, hits: u64, misses: u64)
        ensures
            *final(self) == old(self).with_read(hits, misses),
    {
        self.commands_total = self.commands_total.wrapping_add(1);
        self.reads = self.reads.wrapping_add(1);
        self.hits = self.hits.wrapping_add(hits);
        self.misses = self.misses.wrapping_add(misses);
    }

    pub fn write(&mut self)
        ensures
            *final(self) == old(self).with_write(),
    {
        self.commands_total = self.commands_total.wrapping_add(1);
        self.writes = self.writes.wrapping_add(1);
    }

    pub fn other(&mut self)
        ensures
            *final(self) == old(self).with_other(),
    {
        self.commands_total = self.commands_total.wrapping_add(1);
    }

    pub fn error(&mut self, class: ErrorClass)
        ensures
            *final(self) == old(self).with_error(class),
    {
        match class {
            ErrorClass::Client => {
                self.errors_client = self.errors_client.wrapping_add(1);
            },
            ErrorClass::Capacity => {
                self.errors_capacity = self.errors_capacity.wrapping_add(1);
            },
            ErrorClass::Overloaded => {
                self.errors_overloaded = self.errors_overloaded.wrapping_add(1);
            },
            ErrorClass::Internal => {
                self.errors_internal = self.errors_internal.wrapping_add(1);
            },
        }
    }
}

/// A connection that opens and closes leaves the number of open ones as it was.
pub proof fn opening_and_closing_balance(active: u64)
    ensures
        active.wrapping_add(1).wrapping_sub(1) == active,
{
}

/// Counters for cluster invalidation.
///
/// The three questions an operator has about it: is fan-out getting through, is
/// anti-entropy running, and how long since this node last heard from a peer.
///
/// Times are milliseconds on any clock that does not go backwards.
#[derive(Debug, Clone, Copy)]
pub struct ClusterMetrics {
    peers: u64,
    fanout_sent: u64,
    fanout_failed: u64,
    gossip_rounds: u64,
    gossip_failed: u64,
    merged: u64,
    last_gossip_ms: u64,
    started: Option<u64>,
}

/// What the cluster counters hold. `last_gossip_ms` is measured from `started`;
/// zero means there has been no exchange.
pub struct ClusterCounters {
    pub peers: u64,
    pub fanout_sent: u64,
    pub fanout_failed: u64,
    pub gossip_rounds: u64,
    pub gossip_failed: u64,
    pub merged: u64,
    pub last_gossip_ms: u64,
    pub started: Option<u64>,
}

impl ClusterCounters {
    /// When the clock started: at the first question about it.
    pub open spec fn origin(self, now_ms: u64) -> u64 {
        match self.started {
            Some(at) => at,
            None => now_ms,
        }
    }

    /// Time since the clock started.
    pub open spec fn uptime(self, now_ms: u64) -> u64 {
        if now_ms >= self.origin(now_ms) {
            (now_ms - self.origin(now_ms)) as u64
        } else {
            0
        }
    }

    /// The counters with the clock running.
    pub open spec fn running(self, now_ms: u64) -> ClusterCounters {
        ClusterCounters { started: Some(self.origin(now_ms)), ..self }
    }

    /// How long since an exchange with a peer last succeeded.
    pub open spec fn age(self, now_ms: u64) -> u64 {
        if self.uptime(now_ms) >= self.last_gossip_ms {
            (self.uptime(now_ms) - self.last_gossip_ms) as u64
        } else {
            0
        }
    }
}

impl View for ClusterMetrics {
    type V = ClusterCounters;

    closed spec fn view(&self) -> ClusterCounters {
        ClusterCounters {
            peers: self.peers,
            fanout_sent: self.fanout_sent,
            fanout_failed: self.fanout_failed,
            gossip_rounds: self.gossip_rounds,
            gossip_failed: self.gossip_failed,
            merged: self.merged,
            last_gossip_ms: self.last_gossip_ms,
            started: self.started,
        }
    }
}

impl Default for ClusterMetrics {
    fn default() -> (m: Self)
        ensures
            m@ == (ClusterCounters {
                peers: 0,
                fanout_sent: 0,
                fanout_failed: 0,
                gossip_rounds: 0,
                gossip_failed: 0,
                merged: 0,
                last_gossip_ms: 0,
                started: None,
            }),
    {
        ClusterMetrics {
            peers: 0,
            fanout_sent: 0,
            fanout_failed: 0,
            gossip_rounds: 0,
            gossip_failed: 0,
            merged: 0,
            last_gossip_ms: 0,
            started: None,
        }
    }
}

impl ClusterMetrics {
    fn uptime_ms(&mut self, now_ms: u64) -> (ms: u64)
        ensures
            ms == old(self)@.uptime(now_ms),
            final(self)@ == old(self)@.running(now_ms),
    {
        let origin: u64 = match self.started {
            Some(at) => at,
            None => now_ms,
        };
        self.started = Some(origin);
        now_ms.saturating_sub(origin)
    }

    /// Starts the clock, so the age of the last exchange is measured from
    /// startup rather than from the first success.
    pub fn peers_configured(&mut self, count: u64, now_ms: u64)
        ensures
            final(self)@ == (ClusterCounters { peers: count, ..old(self)@.running(now_ms) }),
    {
        let _ = self.uptime_ms(now_ms);
        self.peers = count;
    }

    pub fn fanout_sent(&mut self, now_ms: u64)
        ensures
            final(self)@ == (ClusterCounters {
                fanout_sent: old(self)@.fanout_sent.wrapping_add(1),
                last_gossip_ms: old(self)@.uptime(now_ms),
                ..old(self)@.running(now_ms)
            }),
    {
        self.fanout_sent = self.fanout_sent.wrapping_add(1);
        self.last_gossip_ms = self.uptime_ms(now_ms);
    }

    pub fn fanout_failed(&mut self)
        ensures
            final(self)@ == (ClusterCounters {
                fanout_failed: old(self)@.fanout_failed.wrapping_add(1),
                ..old(self)@
            }),
    {
        self.fanout_failed = self.fanout_failed.wrapping_add(1);
    }

    pub fn gossip_round(&mut self, now_ms: u64)
        ensures
            final(self)@ == (ClusterCounters {
                gossip_rounds: old(self)@.gossip_rounds.wrapping_add(1),
                last_gossip_ms: old(self)@.uptime(now_ms),
                ..old(self)@.running(now_ms)
            }),
    {
        self.gossip_rounds = self.gossip_rounds.wrapping_add(1);
        self.last_gossip_ms = self.uptime_ms(now_ms);
    }

    pub fn gossip_rounds(&self) -> (n: u64)
        ensures
            n == self@.gossip_rounds,
    {
        self.gossip_rounds
    }

    pub fn gossip_failed(&mut self)
        ensures
            final(self)@ == (ClusterCounters {
                gossip_failed: old(self)@.gossip_failed.wrapping_add(1),
                ..old(self)@
            }),
    {
        self.gossip_failed = self.gossip_failed.wrapping_add(1);
    }

    pub fn merged(&mut self, count: u64)
        ensures
            final(self)@ == (ClusterCounters {
                merged: old(self)@.merged.wrapping_add(count),
                ..old(self)@
            }),
    {
        self.merged = self.merged.wrapping_add(count);
    }

    /// How long since a peer exchange last succeeded, in milliseconds.
    ///
    /// Measured from startup until the first success, so a node that has never
    /// reached anybody reports a growing number rather than a reassuring zero.
    pub fn since_last_exchange_ms(&mut self, now_ms: u64) -> (ms: u64)
        ensures
            ms == old(self)@.age(now_ms),
            final(self)@ == old(self)@.running(now_ms),
    {
        self.uptime_ms(now_ms).saturating_sub(self.last_gossip_ms)
    }
}

/// A node whose clock started and that never reached a peer reports the whole
/// time since, not zero; an exchange resets the age to zero.
pub proof fn exchange_age(c: ClusterCounters, start: u64, now: u64)
    requires
        c.started == Some(start),
        start <= now,
    ensures
        c.last_gossip_ms == 0 ==> c.age(now) == now - start,
        (ClusterCounters { last_gossip_ms: c.uptime(now), ..c }).age(now) == 0,
{
}

/// What the storage engine reports about itself. The fractions and the mean are
/// floating-point numbers, given as they print.
#[derive(Debug)]
pub struct StoreStats {
    pub shards: u64,
    pub entries: u64,
    pub used_bytes: u64,
    pub map_size: u64,
    /// The fullest shard, with six decimals.
    pub utilisation_6: String,
    /// The fullest shard, with four decimals.
    pub utilisation_4: String,
    pub evicted: u64,
    pub expiry_entries: u64,
    pub tags: u64,
    pub tag_index_entries: u64,
    pub pending_reclaims: u64,
    pub commits: u64,
    pub committed_ops: u64,
    /// Operations per commit, with two decimals.
    pub mean_batch_2: String,
    pub sweeps: u64,
    pub reclaimed: u64,
    pub tag_reclaimed: u64,
    pub sweep_lag_ms: u64,
    pub epoch: u64,
    pub readers_in_use: u64,
    pub max_readers: u64,
    pub oldest_reader_age_ms: u64,
    pub queue_wait_us: u64,
    pub commit_us: u64,
}

impl Default for StoreStats {
    fn default() -> (stats: Self)
        ensures
            stats.shards == 0,
            stats.entries == 0,
            stats.used_bytes == 0,
            stats.map_size == 0,
            stats.utilisation_6@ == "0.000000"@,
            stats.utilisation_4@ == "0.0000"@,
            stats.evicted == 0,
            stats.expiry_entries == 0,
            stats.tags == 0,
            stats.tag_index_entries == 0,
            stats.pending_reclaims == 0,
            stats.commits == 0,
            stats.committed_ops == 0,
            stats.mean_batch_2@ == "0.00"@,
            stats.sweeps == 0,
            stats.reclaimed == 0,
            stats.tag_reclaimed == 0,
            stats.sweep_lag_ms == 0,
            stats.epoch == 0,
            stats.readers_in_use == 0,
            stats.max_readers == 0,
            stats.oldest_reader_age_ms == 0,
            stats.queue_wait_us == 0,
            stats.commit_us == 0,
    {
        StoreStats {
            shards: 0,
            entries: 0,
            used_bytes: 0,
            map_size: 0,
            utilisation_6: "0.000000".to_owned(),
            utilisation_4: "0.0000".to_owned(),
            evicted: 0,
            expiry_entries: 0,
            tags: 0,
            tag_index_entries: 0,
            pending_reclaims: 0,
            commits: 0,
            committed_ops: 0,
            mean_batch_2: "0.00".to_owned(),
            sweeps: 0,
            reclaimed: 0,
            tag_reclaimed: 0,
            sweep_lag_ms: 0,
            epoch: 0,
            readers_in_use: 0,
            max_readers: 0,
            oldest_reader_age_ms: 0,
            queue_wait_us: 0,
            commit_us: 0,
        }
    }
}

/// One family of a single series: its documentation, its type, and its value.
pub open spec fn family(
    name: Seq<char>,
    kind: Seq<char>,
    help: Seq<char>,
    value: Seq<char>,
) -> Seq<char> {
    "# HELP "@ + name + " "@ + help + "\n# TYPE "@ + name + " "@ + kind + "\n"@ + name + " "@
        + value + "\n"@
}

fn push_family(out: &mut String, name: &str, kind: &str, help: &str, value: &str)
    ensures
        final(out)@ == old(out)@ + family(name@, kind@, help@, value@),
{
    let mut block = "# HELP ".to_owned();
    block.append(name);
    block.append(" ");
    block.append(help);
    block.append("\n# TYPE ");
    block.append(name);
    block.append(" ");
    block.append(kind);
    block.append("\n");
    block.append(name);
    block.append(" ");
    block.append(value);
    block.append("\n");
    out.append(block.as_str());
}

/// One line of the outcome family.
pub open spec fn outcome_line(command: Seq<char>, outcome: Seq<char>, value: u64) -> Seq<char> {
    "vash_command_outcome_total{command=\""@ + command + "\",outcome=\""@ + outcome + "\"} "@
        + text::decimal(value as nat) + "\n"@
}

fn push_outcome(out: &mut String, command: &str, outcome: &str, value: u64)
    ensures
        final(out)@ == old(out)@ + outcome_line(command@, outcome@, value),
{
    let mut line = "vash_command_outcome_total{command=\"".to_owned();
    line.append(command);
    line.append("\",outcome=\"");
    line.append(outcome);
    line.append("\"} ");
    text::push_decimal(&mut line, value);
    line.append("\n");
    out.append(line.as_str());
}

/// One line of the error family.
pub open spec fn error_line(class: Seq<char>, value: u64) -> Seq<char> {
    "vash_errors_total{class=\""@ + class + "\"} "@ + text::decimal(value as nat) + "\n"@
}

fn push_error(out: &mut String, class: &str, value: u64)
    ensures
        final(out)@ == old(out)@ + error_line(class@, value),
{
    let mut line = "vash_errors_total{class=\"".to_owned();
    line.append(class);
    line.append("\"} ");
    text::push_decimal(&mut line, value);
    line.append("\n");
    out.append(line.as_str());
}

/// What the server counted: connections, commands, hits and misses.
pub open spec fn server_text(server: ServerMetrics) -> Seq<char> {
    Seq::empty()
        + family(
        "vash_connections_total"@,
        "counter"@,
        "Connections accepted since start."@,
        text::decimal(server.connections_total as nat),
    )
        + family(
        "vash_connections_active"@,
        "gauge"@,
        "Connections currently open."@,
        text::decimal(server.connections_active as nat),
    )
        + family(
        "vash_connections_rejected_total"@,
        "counter"@,
        "Connections refused because the limit was reached."@,
        text::decimal(server.connections_rejected as nat),
    )
        + family(
        "vash_commands_total"@,
        "counter"@,
        "Commands executed."@,
        text::decimal(server.commands_total as nat),
    )
        + family(
        "vash_reads_total"@,
        "counter"@,
        "Read commands executed."@,
        text::decimal(server.reads as nat),
    )
        + family(
        "vash_writes_total"@,
        "counter"@,
        "Write commands executed."@,
        text::decimal(server.writes as nat),
    )
        + family(
        "vash_hits_total"@,
        "counter"@,
        "Keys served from cache. Counted per key, so a multi-get adds several."@,
        text::decimal(server.hits as nat),
    )
        + family(
        "vash_misses_total"@,
        "counter"@,
        "Keys looked up and not found live."@,
        text::decimal(server.misses as nat),
    )
        + server.commands@.exposition()
}

fn server_string(server: &ServerMetrics) -> (out: String)
    requires
        server.commands@.wf(),
    ensures
        out@ == server_text(*server),
{
    let mut out = String::new();
    push_family(
        &mut out,
        "vash_connections_total",
        "counter",
        "Connections accepted since start.",
        text::decimal_text(server.connections_total).as_str(),
    );
    push_family(
        &mut out,
        "vash_connections_active",
        "gauge",
        "Connections currently open.",
        text::decimal_text(server.connections_active).as_str(),
    );
    push_family(
        &mut out,
        "vash_connections_rejected_total",
        "counter",
        "Connections refused because the limit was reached.",
        text::decimal_text(server.connections_rejected).as_str(),
    );
    push_family(
        &mut out,
        "vash_commands_total",
        "counter",
        "Commands executed.",
        text::decimal_text(server.commands_total).as_str(),
    );
    push_family(
        &mut out,
        "vash_reads_total",
        "counter",
        "Read commands executed.",
        text::decimal_text(server.reads).as_str(),
    );
    push_family(
        &mut out,
        "vash_writes_total",
        "counter",
        "Write commands executed.",
        text::decimal_text(server.writes).as_str(),
    );
    push_family(
        &mut out,
        "vash_hits_total",
        "counter",
        "Keys served from cache. Counted per key, so a multi-get adds several.",
        text::decimal_text(server.hits).as_str(),
    );
    push_family(
        &mut out,
        "vash_misses_total",
        "counter",
        "Keys looked up and not found live.",
        text::decimal_text(server.misses).as_str(),
    );
    server.commands.render(&mut out);
    out
}

/// What each command found.
pub open spec fn outcome_text(m: OutcomeMetrics) -> Seq<char> {
    Seq::empty()
        + "# HELP vash_command_outcome_total What a command found, by command and outcome.\n"@
        + "# TYPE vash_command_outcome_total counter\n"@
        + outcome_line("delete"@, "hit"@, m.delete_hits)
        + outcome_line("delete"@, "miss"@, m.delete_misses)
        + outcome_line("incr"@, "hit"@, m.incr_hits)
        + outcome_line("incr"@, "miss"@, m.incr_misses)
        + outcome_line("decr"@, "hit"@, m.decr_hits)
        + outcome_line("decr"@, "miss"@, m.decr_misses)
        + outcome_line("cas"@, "hit"@, m.cas_hits)
        + outcome_line("cas"@, "miss"@, m.cas_misses)
        + outcome_line("cas"@, "badval"@, m.cas_badval)
        + outcome_line("touch"@, "hit"@, m.touch_hits)
        + outcome_line("touch"@, "miss"@, m.touch_misses)
}

fn outcome_string(m: &OutcomeMetrics) -> (out: String)
    ensures
        out@ == outcome_text(*m),
{
    let mut out = String::new();
    out.append(
        "# HELP vash_command_outcome_total What a command found, by command and outcome.\n",
    );
    out.append("# TYPE vash_command_outcome_total counter\n");
    push_outcome(&mut out, "delete", "hit", m.delete_hits);
    push_outcome(&mut out, "delete", "miss", m.delete_misses);
    push_outcome(&mut out, "incr", "hit", m.incr_hits);
    push_outcome(&mut out, "incr", "miss", m.incr_misses);
    push_outcome(&mut out, "decr", "hit", m.decr_hits);
    push_outcome(&mut out, "decr", "miss", m.decr_misses);
    push_outcome(&mut out, "cas", "hit", m.cas_hits);
    push_outcome(&mut out, "cas", "miss", m.cas_misses);
    push_outcome(&mut out, "cas", "badval", m.cas_badval);
    push_outcome(&mut out, "touch", "hit", m.touch_hits);
    push_outcome(&mut out, "touch", "miss", m.touch_misses);
    out
}

/// Items, traffic and errors.
pub open spec fn traffic_text(server: ServerMetrics) -> Seq<char> {
    Seq::empty()
        + family(
        "vash_items_stored_total"@,
        "counter"@,
        "Stores that applied. A guarded write that was rejected is not one, which is what separates this from the store command rate."@,
        text::decimal(server.outcomes.total_items as nat),
    )
        + family(
        "vash_store_too_large_total"@,
        "counter"@,
        "Writes refused for exceeding store.max_value_bytes. Distinct from a full map: this is the client's problem, not the cache's size."@,
        text::decimal(server.outcomes.store_too_large as nat),
    )
        + family(
        "vash_meta_commands_total"@,
        "counter"@,
        "Commands that arrived on the memcached meta dialect rather than the classic one."@,
        text::decimal(server.outcomes.meta_commands as nat),
    )
        + family(
        "vash_network_read_bytes_total"@,
        "counter"@,
        "Bytes read from client sockets."@,
        text::decimal(server.outcomes.bytes_read as nat),
    )
        + family(
        "vash_network_written_bytes_total"@,
        "counter"@,
        "Bytes written to client sockets."@,
        text::decimal(server.outcomes.bytes_written as nat),
    )
        + "# HELP vash_errors_total Requests answered with an error.\n"@
        + "# TYPE vash_errors_total counter\n"@
        + error_line("client"@, server.errors_client)
        + error_line("capacity"@, server.errors_capacity)
        + error_line("overloaded"@, server.errors_overloaded)
        + error_line("internal"@, server.errors_internal)
}

fn traffic_string(server: &ServerMetrics) -> (out: String)
    ensures
        out@ == traffic_text(*server),
{
    let mut out = String::new();
    push_family(
        &mut out,
        "vash_items_stored_total",
        "counter",
        "Stores that applied. A guarded write that was rejected is not one, which is what separates this from the store command rate.",
        text::decimal_text(server.outcomes.total_items).as_str(),
    );
    push_family(
        &mut out,
        "vash_store_too_large_total",
        "counter",
        "Writes refused for exceeding store.max_value_bytes. Distinct from a full map: this is the client's problem, not the cache's size.",
        text::decimal_text(server.outcomes.store_too_large).as_str(),
    );
    push_family(
        &mut out,
        "vash_meta_commands_total",
        "counter",
        "Commands that arrived on the memcached meta dialect rather than the classic one.",
        text::decimal_text(server.outcomes.meta_commands).as_str(),
    );
    push_family(
        &mut out,
        "vash_network_read_bytes_total",
        "counter",
        "Bytes read from client sockets.",
        text::decimal_text(server.outcomes.bytes_read).as_str(),
    );
    push_family(
        &mut out,
        "vash_network_written_bytes_total",
        "counter",
        "Bytes written to client sockets.",
        text::decimal_text(server.outcomes.bytes_written).as_str(),
    );
    out.append("# HELP vash_errors_total Requests answered with an error.\n");
    out.append("# TYPE vash_errors_total counter\n");
    push_error(&mut out, "client", server.errors_client);
    push_error(&mut out, "capacity", server.errors_capacity);
    push_error(&mut out, "overloaded", server.errors_overloaded);
    push_error(&mut out, "internal", server.errors_internal);
    out
}

/// What the store reports.
pub open spec fn store_text(store: StoreStats) -> Seq<char> {
    Seq::empty()
        + family(
        "vash_shards"@,
        "gauge"@,
        "Independent storage environments, and therefore concurrent writers."@,
        text::decimal(store.shards as nat),
    )
        + family(
        "vash_items"@,
        "gauge"@,
        "Records on disk, including any not yet reclaimed."@,
        text::decimal(store.entries as nat),
    )
        + family(
        "vash_bytes_used"@,
        "gauge"@,
        "Bytes occupied, excluding pages on the free list."@,
        text::decimal(store.used_bytes as nat),
    )
        + family(
        "vash_bytes_limit"@,
        "gauge"@,
        "Total map size across shards."@,
        text::decimal(store.map_size as nat),
    )
        + family(
        "vash_utilisation"@,
        "gauge"@,
        "Fullest shard, as a fraction. The eviction watermarks act on this."@,
        store.utilisation_6@,
    )
        + family(
        "vash_evicted_total"@,
        "counter"@,
        "Live records dropped to reclaim space. Rising means the cache is too small."@,
        text::decimal(store.evicted as nat),
    )
        + family(
        "vash_expired_total"@,
        "counter"@,
        "Records reclaimed after their TTL passed."@,
        text::decimal(store.reclaimed as nat),
    )
        + family(
        "vash_tag_reclaimed_total"@,
        "counter"@,
        "Records reclaimed after a tag invalidation."@,
        text::decimal(store.tag_reclaimed as nat),
    )
        + family(
        "vash_pending_reclaims"@,
        "gauge"@,
        "Tag invalidations whose space has not been freed yet."@,
        text::decimal(store.pending_reclaims as nat),
    )
        + family(
        "vash_sweep_lag_ms"@,
        "gauge"@,
        "How far behind the oldest due expiry is, on the worst shard. Sustained growth means reclamation is losing."@,
        text::decimal(store.sweep_lag_ms as nat),
    )
        + family(
        "vash_tags"@,
        "gauge"@,
        "Registered tag names."@,
        text::decimal(store.tags as nat),
    )
        + family(
        "vash_commits_total"@,
        "counter"@,
        "Write transactions committed."@,
        text::decimal(store.commits as nat),
    )
        + family(
        "vash_committed_ops_total"@,
        "counter"@,
        "Operations those commits carried. Divided by commits, the mean batch size."@,
        text::decimal(store.committed_ops as nat),
    )
        + family(
        "vash_readers_in_use"@,
        "gauge"@,
        "LMDB reader slots held. Approaching the limit means reads will start failing."@,
        text::decimal(store.readers_in_use as nat),
    )
        + family(
        "vash_readers_max"@,
        "gauge"@,
        "Reader slots available."@,
        text::decimal(store.max_readers as nat),
    )
        + family(
        "vash_oldest_reader_age_ms"@,
        "gauge"@,
        "Age of the oldest open read transaction. Sustained growth means a reader is pinning a snapshot and blocking page reuse, which grows the file without bound."@,
        text::decimal(store.oldest_reader_age_ms as nat),
    )
        + family(
        "vash_writer_queue_wait_seconds_total"@,
        "counter"@,
        "Time write jobs spent waiting in a shard queue. Divided by vash_committed_ops_total, the mean wait; when it dominates the commit time below, the shard writer is the bottleneck."@,
        seconds_text(store.queue_wait_us as nat),
    )
        + family(
        "vash_writer_commit_seconds_total"@,
        "counter"@,
        "Time spent applying and committing write batches. Divided by vash_commits_total, the mean commit; when it dominates, the device is the bottleneck and more shards would make it worse."@,
        seconds_text(store.commit_us as nat),
    )
}

fn store_string(store: &StoreStats) -> (out: String)
    ensures
        out@ == store_text(*store),
{
    let mut out = String::new();
    push_family(
        &mut out,
        "vash_shards",
        "gauge",
        "Independent storage environments, and therefore concurrent writers.",
        text::decimal_text(store.shards).as_str(),
    );
    push_family(
        &mut out,
        "vash_items",
        "gauge",
        "Records on disk, including any not yet reclaimed.",
        text::decimal_text(store.entries).as_str(),
    );
    push_family(
        &mut out,
        "vash_bytes_used",
        "gauge",
        "Bytes occupied, excluding pages on the free list.",
        text::decimal_text(store.used_bytes).as_str(),
    );
    push_family(
        &mut out,
        "vash_bytes_limit",
        "gauge",
        "Total map size across shards.",
        text::decimal_text(store.map_size).as_str(),
    );
    push_family(
        &mut out,
        "vash_utilisation",
        "gauge",
        "Fullest shard, as a fraction. The eviction watermarks act on this.",
        store.utilisation_6.as_str(),
    );
    push_family(
        &mut out,
        "vash_evicted_total",
        "counter",
        "Live records dropped to reclaim space. Rising means the cache is too small.",
        text::decimal_text(store.evicted).as_str(),
    );
    push_family(
        &mut out,
        "vash_expired_total",
        "counter",
        "Records reclaimed after their TTL passed.",
        text::decimal_text(store.reclaimed).as_str(),
    );
    push_family(
        &mut out,
        "vash_tag_reclaimed_total",
        "counter",
        "Records reclaimed after a tag invalidation.",
        text::decimal_text(store.tag_reclaimed).as_str(),
    );
    push_family(
        &mut out,
        "vash_pending_reclaims",
        "gauge",
        "Tag invalidations whose space has not been freed yet.",
        text::decimal_text(store.pending_reclaims).as_str(),
    );
    push_family(
        &mut out,
        "vash_sweep_lag_ms",
        "gauge",
        "How far behind the oldest due expiry is, on the worst shard. Sustained growth means reclamation is losing.",
        text::decimal_text(store.sweep_lag_ms).as_str(),
    );
    push_family(
        &mut out,
        "vash_tags",
        "gauge",
        "Registered tag names.",
        text::decimal_text(store.tags).as_str(),
    );
    push_family(
        &mut out,
        "vash_commits_total",
        "counter",
        "Write transactions committed.",
        text::decimal_text(store.commits).as_str(),
    );
    push_family(
        &mut out,
        "vash_committed_ops_total",
        "counter",
        "Operations those commits carried. Divided by commits, the mean batch size.",
        text::decimal_text(store.committed_ops).as_str(),
    );
    push_family(
        &mut out,
        "vash_readers_in_use",
        "gauge",
        "LMDB reader slots held. Approaching the limit means reads will start failing.",
        text::decimal_text(store.readers_in_use).as_str(),
    );
    push_family(
        &mut out,
        "vash_readers_max",
        "gauge",
        "Reader slots available.",
        text::decimal_text(store.max_readers).as_str(),
    );
    push_family(
        &mut out,
        "vash_oldest_reader_age_ms",
        "gauge",
        "Age of the oldest open read transaction. Sustained growth means a reader is pinning a snapshot and blocking page reuse, which grows the file without bound.",
        text::decimal_text(store.oldest_reader_age_ms).as_str(),
    );
    push_family(
        &mut out,
        "vash_writer_queue_wait_seconds_total",
        "counter",
        "Time write jobs spent waiting in a shard queue. Divided by vash_committed_ops_total, the mean wait; when it dominates the commit time below, the shard writer is the bottleneck.",
        seconds_string(store.queue_wait_us).as_str(),
    );
    push_family(
        &mut out,
        "vash_writer_commit_seconds_total",
        "counter",
        "Time spent applying and committing write batches. Divided by vash_commits_total, the mean commit; when it dominates, the device is the bottleneck and more shards would make it worse.",
        seconds_string(store.commit_us).as_str(),
    );
    out
}

/// What the cluster counted.
pub open spec fn cluster_text(cluster: ClusterCounters, peers_reachable: u64, now_ms: u64) -> Seq<char> {
    Seq::empty()
        + family(
        "vash_cluster_peers"@,
        "gauge"@,
        "Peers configured."@,
        text::decimal(cluster.peers as nat),
    )
        + family(
        "vash_cluster_peers_reachable"@,
        "gauge"@,
        "Peers whose last exchange succeeded."@,
        text::decimal(peers_reachable as nat),
    )
        + family(
        "vash_cluster_fanout_total"@,
        "counter"@,
        "Invalidations forwarded to a peer."@,
        text::decimal(cluster.fanout_sent as nat),
    )
        + family(
        "vash_cluster_fanout_failures_total"@,
        "counter"@,
        "Invalidations that did not reach a peer. Anti-entropy repairs these, so a low rate is normal and a sustained one means a peer is down."@,
        text::decimal(cluster.fanout_failed as nat),
    )
        + family(
        "vash_cluster_gossip_rounds_total"@,
        "counter"@,
        "Anti-entropy exchanges completed."@,
        text::decimal(cluster.gossip_rounds as nat),
    )
        + family(
        "vash_cluster_gossip_failures_total"@,
        "counter"@,
        "Anti-entropy exchanges that failed."@,
        text::decimal(cluster.gossip_failed as nat),
    )
        + family(
        "vash_cluster_merged_total"@,
        "counter"@,
        "Tag generations received from peers and max-merged."@,
        text::decimal(cluster.merged as nat),
    )
        + family(
        "vash_cluster_last_exchange_age_ms"@,
        "gauge"@,
        "Milliseconds since an exchange with any peer last succeeded. Growing past a few gossip intervals means this node is diverging."@,
        text::decimal(cluster.age(now_ms) as nat),
    )
}

fn cluster_string(cluster: &mut ClusterMetrics, peers_reachable: u64, now_ms: u64) -> (out: String)
    ensures
        out@ == cluster_text(old(cluster)@, peers_reachable, now_ms),
        final(cluster)@ == old(cluster)@.running(now_ms),
{
    let mut out = String::new();
    push_family(
        &mut out,
        "vash_cluster_peers",
        "gauge",
        "Peers configured.",
        text::decimal_text(cluster.peers).as_str(),
    );
    push_family(
        &mut out,
        "vash_cluster_peers_reachable",
        "gauge",
        "Peers whose last exchange succeeded.",
        text::decimal_text(peers_reachable).as_str(),
    );
    push_family(
        &mut out,
        "vash_cluster_fanout_total",
        "counter",
        "Invalidations forwarded to a peer.",
        text::decimal_text(cluster.fanout_sent).as_str(),
    );
    push_family(
        &mut out,
        "vash_cluster_fanout_failures_total",
        "counter",
        "Invalidations that did not reach a peer. Anti-entropy repairs these, so a low rate is normal and a sustained one means a peer is down.",
        text::decimal_text(cluster.fanout_failed).as_str(),
    );
    push_family(
        &mut out,
        "vash_cluster_gossip_rounds_total",
        "counter",
        "Anti-entropy exchanges completed.",
        text::decimal_text(cluster.gossip_rounds).as_str(),
    );
    push_family(
        &mut out,
        "vash_cluster_gossip_failures_total",
        "counter",
        "Anti-entropy exchanges that failed.",
        text::decimal_text(cluster.gossip_failed).as_str(),
    );
    push_family(
        &mut out,
        "vash_cluster_merged_total",
        "counter",
        "Tag generations received from peers and max-merged.",
        text::decimal_text(cluster.merged).as_str(),
    );
    let age = cluster.since_last_exchange_ms(now_ms);
    push_family(
        &mut out,
        "vash_cluster_last_exchange_age_ms",
        "gauge",
        "Milliseconds since an exchange with any peer last succeeded. Growing past a few gossip intervals means this node is diverging.",
        text::decimal_text(age).as_str(),
    );
    out
}

fn seconds_string(us: u64) -> (out: String)
    ensures
        out@ == seconds_text(us as nat),
{
    let mut out = String::new();
    push_seconds(&mut out, us);
    assert(out@ =~= seconds_text(us as nat));
    out
}

/// The whole exposition.
pub open spec fn exposition(
    server: ServerMetrics,
    store: StoreStats,
    cluster: ClusterCounters,
    peers_reachable: u64,
    now_ms: u64,
) -> Seq<char> {
    server_text(server) + outcome_text(server.outcomes) + traffic_text(server) + store_text(store)
        + cluster_text(cluster, peers_reachable, now_ms)
}

/// Renders the Prometheus text exposition format.
pub fn render_prometheus(
    server: &ServerMetrics,
    store: &StoreStats,
    cluster: &mut ClusterMetrics,
    peers_reachable: u64,
    now_ms: u64,
) -> (out: String)
    requires
        server.commands@.wf(),
    ensures
        out@ == exposition(*server, *store, old(cluster)@, peers_reachable, now_ms),
        final(cluster)@ == old(cluster)@.running(now_ms),
{
    let mut out = server_string(server);
    out.append(outcome_string(&server.outcomes).as_str());
    out.append(traffic_string(server).as_str());
    out.append(store_string(store).as_str());
    out.append(cluster_string(cluster, peers_reachable, now_ms).as_str());
    out
}

/// One sample: its name, and its value.
pub open spec fn sample(name: Seq<char>, value: Seq<char>) -> Seq<char> {
    "\n"@ + name + " "@ + value + "\n"@
}

/// Whether a text holds each of some others.
pub open spec fn holds_each(whole: Seq<char>, parts: Seq<Seq<char>>) -> bool {
    forall|i: int| 0 <= i < parts.len() ==> credentials::holds_text(whole, #[trigger] parts[i])
}

proof fn lemma_holds_more(text: Seq<char>, parts: Seq<Seq<char>>, more: Seq<char>, part: Seq<char>)
    requires
        holds_each(text, parts),
        credentials::holds_text(more, part),
    ensures
        holds_each(text + more, parts.push(part)),
{
    let whole = text + more;
    let all = parts.push(part);
    assert forall|i: int| 0 <= i < all.len() implies credentials::holds_text(
        whole,
        #[trigger] all[i],
    ) by {
        let p = all[i];
        if i < parts.len() {
            assert(credentials::holds_text(text, parts[i]));
            let k = choose|k: int|
                0 <= k <= text.len() - p.len() && #[trigger] text.subrange(k, k + p.len()) == p;
            assert(whole.subrange(k, k + p.len()) =~= p);
        } else {
            let k = choose|k: int|
                0 <= k <= more.len() - p.len() && #[trigger] more.subrange(k, k + p.len()) == p;
            let at = text.len() + k;
            assert(whole.subrange(at, at + p.len()) =~= p);
        }
    }
}

proof fn lemma_holds_itself(text: Seq<char>)
    ensures
        credentials::holds_text(text, text),
{
    let at: int = 0;
    assert(text.subrange(at, at + text.len()) =~= text);
}

proof fn lemma_still_holds(text: Seq<char>, parts: Seq<Seq<char>>, more: Seq<char>)
    requires
        holds_each(text, parts),
    ensures
        holds_each(text + more, parts),
{
    let none = Seq::<char>::empty();
    let at: int = 0;
    assert(more.subrange(at, at + none.len()) =~= none);
    assert(credentials::holds_text(more, none));
    lemma_holds_more(text, parts, more, none);
    let all = parts.push(none);
    assert forall|i: int| 0 <= i < parts.len() implies credentials::holds_text(
        text + more,
        #[trigger] parts[i],
    ) by {
        assert(all[i] == parts[i]);
    }
}

/// A family always has a sample of its own name, and never one without its
/// documentation and its type before it.
pub proof fn a_family_shows_its_value(
    name: Seq<char>,
    kind: Seq<char>,
    help: Seq<char>,
    value: Seq<char>,
)
    ensures
        credentials::holds_text(family(name, kind, help, value), sample(name, value)),
        family(name, kind, help, value) == ("# HELP "@ + name + " "@ + help) + ("\n# TYPE "@ + name
            + " "@ + kind) + sample(name, value),
{
    let whole = family(name, kind, help, value);
    let head = ("# HELP "@ + name + " "@ + help) + ("\n# TYPE "@ + name + " "@ + kind);
    let part = sample(name, value);
    assert(whole =~= head + part);
    let at = head.len() as int;
    assert(whole.subrange(at, at + part.len()) =~= part);
}

/// The samples that tell what the server counted.
pub open spec fn server_samples(m: ServerMetrics) -> Seq<Seq<char>> {
    Seq::empty()
        .push(sample("vash_connections_total"@, text::decimal(m.connections_total as nat)))
        .push(sample("vash_connections_active"@, text::decimal(m.connections_active as nat)))
        .push(sample("vash_connections_rejected_total"@, text::decimal(m.connections_rejected as nat)))
        .push(sample("vash_commands_total"@, text::decimal(m.commands_total as nat)))
        .push(sample("vash_reads_total"@, text::decimal(m.reads as nat)))
        .push(sample("vash_writes_total"@, text::decimal(m.writes as nat)))
        .push(sample("vash_hits_total"@, text::decimal(m.hits as nat)))
        .push(sample("vash_misses_total"@, text::decimal(m.misses as nat)))
}

/// Every counter of the server is on the page under its own name.
pub proof fn every_server_counter_is_on_the_page(m: ServerMetrics)
    ensures
        holds_each(server_text(m), server_samples(m)),
{
    let t0 = Seq::<char>::empty();
    let s0 = Seq::<Seq<char>>::empty();
    let f0 = family(
        "vash_connections_total"@,
        "counter"@,
        "Connections accepted since start."@,
        text::decimal(m.connections_total as nat),
    );
    let p0 = sample("vash_connections_total"@, text::decimal(m.connections_total as nat));
    a_family_shows_its_value(
        "vash_connections_total"@,
        "counter"@,
        "Connections accepted since start."@,
        text::decimal(m.connections_total as nat),
    );
    lemma_holds_more(t0, s0, f0, p0);
    let t1 = t0 + f0;
    let s1 = s0.push(p0);
    let f1 = family(
        "vash_connections_active"@,
        "gauge"@,
        "Connections currently open."@,
        text::decimal(m.connections_active as nat),
    );
    let p1 = sample("vash_connections_active"@, text::decimal(m.connections_active as nat));
    a_family_shows_its_value(
        "vash_connections_active"@,
        "gauge"@,
        "Connections currently open."@,
        text::decimal(m.connections_active as nat),
    );
    lemma_holds_more(t1, s1, f1, p1);
    let t2 = t1 + f1;
    let s2 = s1.push(p1);
    let f2 = family(
        "vash_connections_rejected_total"@,
        "counter"@,
        "Connections refused because the limit was reached."@,
        text::decimal(m.connections_rejected as nat),
    );
    let p2 = sample("vash_connections_rejected_total"@, text::decimal(m.connections_rejected as nat));
    a_family_shows_its_value(
        "vash_connections_rejected_total"@,
        "counter"@,
        "Connections refused because the limit was reached."@,
        text::decimal(m.connections_rejected as nat),
    );
    lemma_holds_more(t2, s2, f2, p2);
    let t3 = t2 + f2;
    let s3 = s2.push(p2);
    let f3 = family(
        "vash_commands_total"@,
        "counter"@,
        "Commands executed."@,
        text::decimal(m.commands_total as nat),
    );
    let p3 = sample("vash_commands_total"@, text::decimal(m.commands_total as nat));
    a_family_shows_its_value(
        "vash_commands_total"@,
        "counter"@,
        "Commands executed."@,
        text::decimal(m.commands_total as nat),
    );
    lemma_holds_more(t3, s3, f3, p3);
    let t4 = t3 + f3;
    let s4 = s3.push(p3);
    let f4 = family(
        "vash_reads_total"@,
        "counter"@,
        "Read commands executed."@,
        text::decimal(m.reads as nat),
    );
    let p4 = sample("vash_reads_total"@, text::decimal(m.reads as nat));
    a_family_shows_its_value(
        "vash_reads_total"@,
        "counter"@,
        "Read commands executed."@,
        text::decimal(m.reads as nat),
    );
    lemma_holds_more(t4, s4, f4, p4);
    let t5 = t4 + f4;
    let s5 = s4.push(p4);
    let f5 = family(
        "vash_writes_total"@,
        "counter"@,
        "Write commands executed."@,
        text::decimal(m.writes as nat),
    );
    let p5 = sample("vash_writes_total"@, text::decimal(m.writes as nat));
    a_family_shows_its_value(
        "vash_writes_total"@,
        "counter"@,
        "Write commands executed."@,
        text::decimal(m.writes as nat),
    );
    lemma_holds_more(t5, s5, f5, p5);
    let t6 = t5 + f5;
    let s6 = s5.push(p5);
    let f6 = family(
        "vash_hits_total"@,
        "counter"@,
        "Keys served from cache. Counted per key, so a multi-get adds several."@,
        text::decimal(m.hits as nat),
    );
    let p6 = sample("vash_hits_total"@, text::decimal(m.hits as nat));
    a_family_shows_its_value(
        "vash_hits_total"@,
        "counter"@,
        "Keys served from cache. Counted per key, so a multi-get adds several."@,
        text::decimal(m.hits as nat),
    );
    lemma_holds_more(t6, s6, f6, p6);
    let t7 = t6 + f6;
    let s7 = s6.push(p6);
    let f7 = family(
        "vash_misses_total"@,
        "counter"@,
        "Keys looked up and not found live."@,
        text::decimal(m.misses as nat),
    );
    let p7 = sample("vash_misses_total"@, text::decimal(m.misses as nat));
    a_family_shows_its_value(
        "vash_misses_total"@,
        "counter"@,
        "Keys looked up and not found live."@,
        text::decimal(m.misses as nat),
    );
    lemma_holds_more(t7, s7, f7, p7);
    let t8 = t7 + f7;
    let s8 = s7.push(p7);
    lemma_still_holds(t8, s8, m.commands@.exposition());
}

/// The lines that tell what each command found.
pub open spec fn outcome_samples(m: OutcomeMetrics) -> Seq<Seq<char>> {
    Seq::empty()
        .push(outcome_line("delete"@, "hit"@, m.delete_hits))
        .push(outcome_line("delete"@, "miss"@, m.delete_misses))
        .push(outcome_line("incr"@, "hit"@, m.incr_hits))
        .push(outcome_line("incr"@, "miss"@, m.incr_misses))
        .push(outcome_line("decr"@, "hit"@, m.decr_hits))
        .push(outcome_line("decr"@, "miss"@, m.decr_misses))
        .push(outcome_line("cas"@, "hit"@, m.cas_hits))
        .push(outcome_line("cas"@, "miss"@, m.cas_misses))
        .push(outcome_line("cas"@, "badval"@, m.cas_badval))
        .push(outcome_line("touch"@, "hit"@, m.touch_hits))
        .push(outcome_line("touch"@, "miss"@, m.touch_misses))
}

/// What each command found is on the page, each outcome under its own labels.
pub proof fn every_outcome_is_on_the_page(m: OutcomeMetrics)
    ensures
        holds_each(outcome_text(m), outcome_samples(m)),
{
    let t0 = Seq::<char>::empty()
        + "# HELP vash_command_outcome_total What a command found, by command and outcome.\n"@
        + "# TYPE vash_command_outcome_total counter\n"@;
    let s0 = Seq::<Seq<char>>::empty();
    let p0 = outcome_line("delete"@, "hit"@, m.delete_hits);
    lemma_holds_itself(p0);
    lemma_holds_more(t0, s0, p0, p0);
    let t1 = t0 + p0;
    let s1 = s0.push(p0);
    let p1 = outcome_line("delete"@, "miss"@, m.delete_misses);
    lemma_holds_itself(p1);
    lemma_holds_more(t1, s1, p1, p1);
    let t2 = t1 + p1;
    let s2 = s1.push(p1);
    let p2 = outcome_line("incr"@, "hit"@, m.incr_hits);
    lemma_holds_itself(p2);
    lemma_holds_more(t2, s2, p2, p2);
    let t3 = t2 + p2;
    let s3 = s2.push(p2);
    let p3 = outcome_line("incr"@, "miss"@, m.incr_misses);
    lemma_holds_itself(p3);
    lemma_holds_more(t3, s3, p3, p3);
    let t4 = t3 + p3;
    let s4 = s3.push(p3);
    let p4 = outcome_line("decr"@, "hit"@, m.decr_hits);
    lemma_holds_itself(p4);
    lemma_holds_more(t4, s4, p4, p4);
    let t5 = t4 + p4;
    let s5 = s4.push(p4);
    let p5 = outcome_line("decr"@, "miss"@, m.decr_misses);
    lemma_holds_itself(p5);
    lemma_holds_more(t5, s5, p5, p5);
    let t6 = t5 + p5;
    let s6 = s5.push(p5);
    let p6 = outcome_line("cas"@, "hit"@, m.cas_hits);
    lemma_holds_itself(p6);
    lemma_holds_more(t6, s6, p6, p6);
    let t7 = t6 + p6;
    let s7 = s6.push(p6);
    let p7 = outcome_line("cas"@, "miss"@, m.cas_misses);
    lemma_holds_itself(p7);
    lemma_holds_more(t7, s7, p7, p7);
    let t8 = t7 + p7;
    let s8 = s7.push(p7);
    let p8 = outcome_line("cas"@, "badval"@, m.cas_badval);
    lemma_holds_itself(p8);
    lemma_holds_more(t8, s8, p8, p8);
    let t9 = t8 + p8;
    let s9 = s8.push(p8);
    let p9 = outcome_line("touch"@, "hit"@, m.touch_hits);
    lemma_holds_itself(p9);
    lemma_holds_more(t9, s9, p9, p9);
    let t10 = t9 + p9;
    let s10 = s9.push(p9);
    let p10 = outcome_line("touch"@, "miss"@, m.touch_misses);
    lemma_holds_itself(p10);
    lemma_holds_more(t10, s10, p10, p10);
    let t11 = t10 + p10;
    let s11 = s10.push(p10);
}

/// A command is counted once, on the line of its own kind and dialect, and timed once,
/// under its own kind; nothing else moves.
pub proof fn a_command_is_counted_on_its_own_line(
    c: CommandCounters,
    kind: CommandKind,
    dialect: Dialect,
    elapsed_us: u128,
    other: CommandKind,
    i: int,
)
    requires
        c.wf(),
        0 <= i < 63,
    ensures
        ({
            let after = c.observed(kind, dialect, elapsed_us);
            let own = kinds()[i / 3] == kind && dialects()[i % 3] == dialect;
            &&& after.counts.len() == 63
            &&& after.counts[i] == (if own {
                c.counts[i].wrapping_add(1)
            } else {
                c.counts[i]
            })
            &&& after.total(other) == (if other == kind {
                c.total(other).wrapping_add(1)
            } else {
                c.total(other)
            })
            &&& other != kind ==> after.latency[other.slot() as int]
                == c.latency[other.slot() as int]
            &&& after.latency[kind.slot() as int].count
                == c.latency[kind.slot() as int].count.wrapping_add(1)
        }),
{
    every_kind_has_its_own_slot(kind);
    every_kind_has_its_own_slot(other);
    every_kind_has_its_own_slot(kinds()[i / 3]);
    assert(kinds()[i / 3].slot() == i / 3);
    assert(dialects()[i % 3].slot() == i % 3);
}

/// Every event moves its own counter by one, and nothing else.
pub proof fn every_event_has_its_own_counter(m: ServerMetrics, class: ErrorClass)
    ensures
        m.with_auth_ok().auth_ok == m.auth_ok.wrapping_add(1),
        m.with_auth_ok().auth_failed == m.auth_failed,
        m.with_auth_ok().auth_refused == m.auth_refused,
        m.with_auth_failed().auth_failed == m.auth_failed.wrapping_add(1),
        m.with_auth_failed().auth_ok == m.auth_ok,
        m.with_auth_failed().auth_refused == m.auth_refused,
        m.with_auth_refused().auth_refused == m.auth_refused.wrapping_add(1),
        m.with_auth_refused().auth_ok == m.auth_ok,
        m.with_auth_refused().auth_failed == m.auth_failed,
        m.with_error(class).errors_client == m.errors_client.wrapping_add(
            if class is Client {
                1
            } else {
                0
            },
        ),
        m.with_error(class).errors_capacity == m.errors_capacity.wrapping_add(
            if class is Capacity {
                1
            } else {
                0
            },
        ),
        m.with_error(class).errors_overloaded == m.errors_overloaded.wrapping_add(
            if class is Overloaded {
                1
            } else {
                0
            },
        ),
        m.with_error(class).errors_internal == m.errors_internal.wrapping_add(
            if class is Internal {
                1
            } else {
                0
            },
        ),
        m.with_error(class).commands_total == m.commands_total,
        m.with_other().commands_total == m.commands_total.wrapping_add(1),
        m.with_other().reads == m.reads,
        m.with_other().writes == m.writes,
{
}

} // verus!
