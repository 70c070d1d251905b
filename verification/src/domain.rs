//! The operations a cache performs and what they answer, as every dialect sees
//! them.
//!
//! Keys, values and tags are borrowed from the request they arrived in. A
//! floating-point number is held as its IEEE 754 binary64 bit pattern: nothing
//! here computes with one.
use vstd::prelude::*;

verus! {

/// A key the store can hold: not empty, and within the store's ceiling.
#[derive(Debug, Clone, Copy)]
pub struct Key<'a> {
    pub bytes: &'a [u8],
}

/// What the domain refuses.
#[derive(Debug, Clone, Copy, PartialEq, Eq, Structural)]
pub enum CoreError {
    EmptyKey,
    KeyTooLong,
    ValueTooLarge,
    NotAnInteger,
    NotAFloat,
    Overflow,
    NotFinite,
    /// Any other domain failure.
    Invalid,
}

impl<'a> Key<'a> {
    /// A key of some bytes, within a ceiling on its length.
    pub fn new(bytes: &'a [u8], max_len: usize) -> (key: Result<Self, CoreError>)
        ensures
            key == key_of(bytes, max_len),
    {
        if bytes.len() == 0 {
            Err(CoreError::EmptyKey)
        } else if bytes.len() > max_len {
            Err(CoreError::KeyTooLong)
        } else {
            Ok(Key { bytes })
        }
    }
}

/// The key that some bytes are.
pub open spec fn key_of(bytes: &[u8], max_len: usize) -> Result<Key<'_>, CoreError> {
    if bytes@.len() == 0 {
        Err(CoreError::EmptyKey)
    } else if bytes@.len() > max_len {
        Err(CoreError::KeyTooLong)
    } else {
        Ok(Key { bytes })
    }
}

/// What a write does to a record's lifetime.
///
/// Seconds are overloaded as memcached overloads `exptime`: zero is never, the
/// largest value is already expired, and anything past 30 days is an absolute
/// unix second.
#[derive(Debug, Clone, Copy, PartialEq, Eq, Structural)]
pub enum TtlChange {
    To(u32),
    /// Applies only to a record that has no deadline.
    ToIfPersistent(u32),
    Keep,
}

/// The `exptime` that means "already expired".
pub const TTL_ALREADY_EXPIRED: u32 = 0xffff_ffff;

/// The longest `exptime` that is an offset rather than an absolute stamp: 30
/// days.
pub const MAX_TTL_SECS: u32 = 2_592_000;

/// Under what condition a write applies.
#[derive(Debug, Clone, Copy, PartialEq, Eq, Structural)]
pub enum SetMode {
    Always,
    Add,
    Replace,
    Append,
    Prepend,
    Cas(u64),
}

/// One write.
#[derive(Debug)]
pub struct SetRequest<'a> {
    pub key: Key<'a>,
    pub value: &'a [u8],
    pub ttl: TtlChange,
    pub mc_flags: u32,
    pub tags: Vec<&'a [u8]>,
    pub mode: SetMode,
    /// Whether the writer asked to be told what it displaced.
    pub return_previous: bool,
}

/// Under what condition a batch of writes applies.
#[derive(Debug, Clone, Copy, PartialEq, Eq, Structural)]
pub enum BatchGuard {
    Always,
    IfAllAbsent,
    IfAllPresent,
}

/// Under what condition a deadline change applies.
#[derive(Debug, Clone, Copy, PartialEq, Eq, Structural)]
pub enum ExpireGuard {
    Always,
    IfPersistent,
    IfVolatile,
    IfLater,
    IfEarlier,
}

/// A bound on a float counter: a bit pattern, or an integer to be taken as a
/// float.
#[derive(Debug, Clone, Copy, PartialEq, Eq, Structural)]
pub enum FloatBound {
    Bits(u64),
    Integer(i64),
}

/// How far a counter moves, in its own numeric domain.
#[allow(inconsistent_fields)]
#[derive(Debug, Clone, Copy, PartialEq, Eq, Structural)]
pub enum Delta {
    Counter { delta: u64, decrement: bool },
    Int { delta: i64, lower: i64, upper: i64 },
    Float { delta: u64, lower: FloatBound, upper: FloatBound },
}

/// What happens to a counter that would leave its bounds.
#[derive(Debug, Clone, Copy, PartialEq, Eq, Structural)]
pub enum OnBound {
    Fail,
    Skip,
    Clamp,
}

/// What happens to a counter that is not there.
#[derive(Debug, Clone, Copy, PartialEq, Eq, Structural)]
pub enum Missing {
    Miss,
    CreateAtZero,
}

/// One arithmetic operation.
#[derive(Debug, Clone, Copy)]
pub struct Arithmetic<'a> {
    pub key: Key<'a>,
    pub delta: Delta,
    pub on_bound: OnBound,
    pub missing: Missing,
    pub ttl: TtlChange,
}

/// A page of a listing to ask for.
#[derive(Debug, Clone, Copy)]
pub struct ListRequest<'a> {
    pub limit: usize,
    pub cursor: &'a [u8],
    pub pattern: &'a [u8],
}

/// A storage operation.
#[allow(inconsistent_fields)]
#[derive(Debug)]
pub enum Command<'a> {
    Hello { protocol_version: u16 },
    Ping,
    Get { key: Key<'a> },
    GetMany(Vec<Key<'a>>),
    Deadline { key: Key<'a> },
    Deadlines(Vec<Key<'a>>),
    SetOne(SetRequest<'a>),
    SetMany { sets: Vec<SetRequest<'a>>, guard: BatchGuard },
    Delete { key: Key<'a> },
    DeleteMany(Vec<Key<'a>>),
    Touch { key: Key<'a>, ttl_secs: u32 },
    Expire { key: Key<'a>, ttl: TtlChange, guard: ExpireGuard },
    Append { key: Key<'a>, suffix: &'a [u8] },
    Arithmetic(Arithmetic<'a>),
    GetAndTouch { keys: Vec<Key<'a>>, ttl_secs: u32 },
    DeleteByTag { tag: &'a [u8] },
    Flush,
    TagSync { full: bool, entries: Vec<TagOffer<'a>> },
    Cluster,
    ListKeys(ListRequest<'a>),
    ListTags(ListRequest<'a>),
    Stats,
    Version,
    Quit,
}

/// A tag generation that a peer offers.
#[derive(Debug, Clone, Copy)]
pub struct TagOffer<'a> {
    pub name: &'a [u8],
    pub generation: u64,
}

/// A tag and how often it was invalidated.
#[derive(Debug)]
pub struct TagGeneration {
    pub name: Vec<u8>,
    pub generation: u64,
}

impl<'a> Command<'a> {
    /// Whether the operation can be answered without any chance of writing, and
    /// without walking more than the request names.
    pub open spec fn reads_only(self) -> bool {
        match self {
            Command::Hello { .. } | Command::Ping | Command::Get { .. } | Command::GetMany(_)
            | Command::Deadline { .. } | Command::Deadlines(_) | Command::Cluster | Command::Stats
            | Command::Version | Command::Quit => true,
            _ => false,
        }
    }

    /// Whether the operation may run on a network worker.
    pub fn inline_safe(&self) -> (yes: bool)
        ensures
            yes == self.reads_only(),
    {
        match self {
            Command::Hello { .. } | Command::Ping | Command::Get { .. } | Command::GetMany(_)
            | Command::Deadline { .. } | Command::Deadlines(_) | Command::Cluster | Command::Stats
            | Command::Version | Command::Quit => true,
            _ => false,
        }
    }
}

/// A record as a read returns it.
#[derive(Debug)]
pub struct Value {
    pub data: Vec<u8>,
    pub mc_flags: u32,
    pub cas: u64,
    pub expires_at_ms: Option<u64>,
}

/// What became of one write.
#[derive(Debug, Clone, Copy, PartialEq, Eq, Structural)]
pub enum Stored {
    /// Applied, with the record's new CAS token.
    Stored(u64),
    NotStored,
    Exists,
    NotFound,
}

/// When a live record expires.
#[derive(Debug, Clone, Copy, PartialEq, Eq, Structural)]
pub enum Deadline {
    Never,
    /// At this unix millisecond.
    At(u64),
}

/// A counter's value, in its own numeric domain.
#[derive(Debug, Clone, Copy, PartialEq, Eq, Structural)]
pub enum Number {
    Int(i64),
    Float(u64),
    Counter(u64),
}

/// What an arithmetic operation did.
#[derive(Debug, Clone, Copy, PartialEq, Eq, Structural)]
pub struct Applied {
    pub value: Number,
    pub applied: Number,
    pub wrote: bool,
}

/// One listed name.
#[derive(Debug)]
pub struct ListEntry {
    pub name: Vec<u8>,
    pub expires_at_ms: Option<u64>,
    pub size: u64,
}

/// One page of a listing. An absent cursor ends it.
#[derive(Debug)]
pub struct Listing {
    pub entries: Vec<ListEntry>,
    pub cursor: Option<Vec<u8>>,
    pub scanned: u64,
}

/// What a handshake tells a client.
#[derive(Debug, Clone, Copy, PartialEq, Eq, Structural)]
pub struct ServerInfo {
    pub protocol_version: u16,
    pub shards: u16,
    pub max_key_len: u32,
    pub max_value_len: u32,
    pub capabilities: u32,
    pub max_tags_per_record: u16,
}

/// How far a node carries an invalidation.
#[derive(Debug, Clone, Copy, PartialEq, Eq, Structural)]
pub enum ClusterMode {
    Local,
    Fanout,
    FanoutSync,
}

/// One peer, as the cluster view reports it.
#[derive(Debug)]
pub struct PeerInfo {
    pub addr: String,
    pub reachable: bool,
}

/// A node's view of the cluster.
#[derive(Debug)]
pub struct ClusterInfo {
    pub mode: ClusterMode,
    pub peers: Vec<PeerInfo>,
}

/// What an operation answers.
#[derive(Debug)]
pub enum Reply {
    Pong,
    Hello(ServerInfo),
    Value(Value),
    NotFound,
    Values(Vec<Option<Value>>),
    Deadline(Option<Deadline>),
    Deadlines(Vec<Option<Deadline>>),
    Stored(Stored),
    Swapped { outcome: Stored, previous: Option<Value> },
    /// The CAS tokens of a batch.
    StoredMany(Vec<u64>),
    Applied(bool),
    Length(u64),
    Deleted,
    DeletedMany(Vec<bool>),
    Touched,
    Arithmetic(Applied),
    Invalidated(bool),
    TagSync(Vec<TagGeneration>),
    Cluster(ClusterInfo),
    Flushed(u64),
    Listing(Listing),
    Stats(Vec<(String, String)>),
    Version(String),
    Closing,
}

/// The status a request is answered with.
#[derive(Debug, Clone, Copy, PartialEq, Eq, Structural)]
pub enum Status {
    Success,
    NotFound,
    NotStored,
    Exists,
    BadRequest,
    TooLarge,
    NotNumeric,
    Unsupported,
    Unauthorized,
    CapacityFull,
    Overloaded,
    Internal,
}

/// How many entries of a sequence are present.
pub open spec fn count_some<T>(s: Seq<Option<T>>) -> nat
    decreases s.len(),
{
    if s.len() == 0 {
        0
    } else {
        count_some(s.drop_last()) + (if s.last() is Some {
            1nat
        } else {
            0
        })
    }
}

/// How many entries of a sequence are true.
pub open spec fn count_true(s: Seq<bool>) -> nat
    decreases s.len(),
{
    if s.len() == 0 {
        0
    } else {
        count_true(s.drop_last()) + (if s.last() {
            1nat
        } else {
            0
        })
    }
}

/// Counting goes entry by entry: nothing counts as none, one more that is present
/// as one more, and one more that is absent as no more.
pub proof fn counting_goes_entry_by_entry<T>(s: Seq<Option<T>>, entry: Option<T>)
    ensures
        count_some(Seq::<Option<T>>::empty()) == 0,
        count_some(s.push(entry)) == count_some(s) + (if entry is Some {
            1int
        } else {
            0
        }),
{
    assert(s.push(entry).drop_last() =~= s);
}

/// Counting goes entry by entry, of hits as well.
pub proof fn counting_hits_goes_entry_by_entry(s: Seq<bool>, entry: bool)
    ensures
        count_true(Seq::<bool>::empty()) == 0,
        count_true(s.push(entry)) == count_true(s) + (if entry {
            1int
        } else {
            0
        }),
{
    assert(s.push(entry).drop_last() =~= s);
}

/// The places at which a sequence has an entry.
pub open spec fn places<T>(s: Seq<Option<T>>) -> Set<int> {
    Set::new(|i: int| 0 <= i < s.len() && s[i] is Some)
}

/// The places at which a sequence is true.
pub open spec fn hit_places(s: Seq<bool>) -> Set<int> {
    Set::new(|i: int| 0 <= i < s.len() && s[i])
}

/// As many entries are present as there are places that have one.
pub proof fn present_entries_are_counted_by_place<T>(s: Seq<Option<T>>)
    ensures
        places(s).finite(),
        count_some(s) == places(s).len(),
        count_some(s) <= s.len(),
    decreases s.len(),
{
    if s.len() == 0 {
        assert(places(s) =~= Set::empty());
    } else {
        let front = s.drop_last();
        let last = s.len() - 1;
        present_entries_are_counted_by_place(front);
        if s.last() is Some {
            assert(places(s) =~= places(front).insert(last));
        } else {
            assert(places(s) =~= places(front));
        }
    }
}

/// As many entries are true as there are places that are.
pub proof fn hits_are_counted_by_place(s: Seq<bool>)
    ensures
        hit_places(s).finite(),
        count_true(s) == hit_places(s).len(),
        count_true(s) <= s.len(),
    decreases s.len(),
{
    if s.len() == 0 {
        assert(hit_places(s) =~= Set::empty());
    } else {
        let front = s.drop_last();
        let last = s.len() - 1;
        hits_are_counted_by_place(front);
        if s.last() {
            assert(hit_places(s) =~= hit_places(front).insert(last));
        } else {
            assert(hit_places(s) =~= hit_places(front));
        }
    }
}

/// Counts the entries that are present.
pub fn present<T>(items: &Vec<Option<T>>) -> (n: u64)
    ensures
        n == count_some(items@),
        n == places(items@).len(),
        n <= items@.len(),
{
    let mut n: u64 = 0;
    let mut i: usize = 0;
    while i < items.len()
        invariant
            i <= items@.len(),
            n <= i,
            n == count_some(items@.take(i as int)),
        decreases items@.len() - i,
    {
        assert(items@.take(i + 1).drop_last() =~= items@.take(i as int));
        if items[i].is_some() {
            n = n + 1;
        }
        i = i + 1;
    }
    assert(items@.take(i as int) =~= items@);
    proof {
        present_entries_are_counted_by_place(items@);
    }
    n
}

/// Counts the entries that are true.
pub fn hits(items: &Vec<bool>) -> (n: u64)
    ensures
        n == count_true(items@),
        n == hit_places(items@).len(),
        n <= items@.len(),
{
    let mut n: u64 = 0;
    let mut i: usize = 0;
    while i < items.len()
        invariant
            i <= items@.len(),
            n <= i,
            n == count_true(items@.take(i as int)),
        decreases items@.len() - i,
    {
        assert(items@.take(i + 1).drop_last() =~= items@.take(i as int));
        if items[i] {
            n = n + 1;
        }
        i = i + 1;
    }
    assert(items@.take(i as int) =~= items@);
    proof {
        hits_are_counted_by_place(items@);
    }
    n
}

/// Some bytes are a key exactly where there is at least one of them and no more than the
/// store can hold, and the key is then those bytes.
pub proof fn a_key_is_its_bytes(bytes: &[u8], max_len: usize)
    ensures
        key_of(bytes, max_len) is Ok <==> 0 < bytes@.len() <= max_len,
        key_of(bytes, max_len) matches Ok(key) ==> key.bytes@ == bytes@,
        key_of(bytes, max_len) == Err::<Key, CoreError>(CoreError::EmptyKey) <==> bytes@.len() == 0,
{
}

} // verus!
