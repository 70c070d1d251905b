//! Credentials: the table, the file it is written in, and the lines that
//! generate rows for it.
//!
//! The verifier is `SHA-256(secret)`, not a password KDF: the credential is
//! machine-generated with 256 bits of entropy, where guessing is already
//! infeasible against a fast hash. Generating the secret rather than accepting
//! one is what keeps that true.
use crate::text;
use sha2::Digest;
use vstd::prelude::*;
use vstd::utf8::*;

verus! {

/// Longest name accepted, in bytes.
pub const MAX_NAME_LEN: usize = 64;

/// What SHA-256 computes of some bytes.
pub uninterp spec fn sha256_digest(data: Seq<u8>) -> Seq<u8>;

/// `sha2::Sha256`: the digest of the bytes, a function of them alone.
#[verifier::external_body]
pub(crate) fn sha256(bytes: &[u8]) -> (digest: [u8; 32])
    ensures
        digest@ == sha256_digest(bytes@),
{
    sha2::Sha256::digest(bytes).into()
}

/// What `{:?}` prints of a string.
pub uninterp spec fn quoted(s: Seq<char>) -> Seq<char>;

/// `format!` with `{:?}` of a string slice: its quoted, escaped form.
#[verifier::external_body]
pub(crate) fn quote(s: &str) -> (out: String)
    ensures
        out@ == quoted(s@),
{
    format!("{s:?}")
}

/// What `{:?}` prints of a character.
pub uninterp spec fn quoted_char(c: char) -> Seq<char>;

/// `format!` with `{:?}` of a character: its quoted, escaped form.
#[verifier::external_body]
fn quote_char(c: char) -> (out: String)
    ensures
        out@ == quoted_char(c),
{
    format!("{c:?}")
}

/// Which VCP mechanism a credential can satisfy.
///
/// Rows are bound to their mechanism. Without that rule the raw key stored for
/// an `hmac-sha256-key` identity is a password that logs in as that identity
/// over `PLAIN`.
#[derive(Debug, Clone, Copy, PartialEq, Eq, Structural)]
pub enum Mechanism {
    /// The secret crosses the wire; the table holds `SHA-256(secret)`.
    Plain,
    /// Challenge and response. Reserved and not built.
    HmacSha256,
}

impl Mechanism {
    pub fn from_u8(v: u8) -> (mechanism: Option<Self>)
        ensures
            mechanism == (if v == 0 {
                Some(Mechanism::Plain)
            } else if v == 1 {
                Some(Mechanism::HmacSha256)
            } else {
                None
            }),
    {
        match v {
            0 => Some(Mechanism::Plain),
            1 => Some(Mechanism::HmacSha256),
            _ => None,
        }
    }
}

/// One row of the credential table.
#[derive(Debug, Clone, Copy)]
pub struct Credential {
    pub mechanism: Mechanism,
    /// A digest for `Mechanism::Plain`; the key itself for
    /// `Mechanism::HmacSha256`.
    pub value: [u8; 32],
}

/// What a row holds.
#[verifier::ext_equal]
pub struct Secret {
    pub mechanism: Mechanism,
    pub value: Seq<u8>,
}

impl View for Credential {
    type V = Secret;

    open spec fn view(&self) -> Secret {
        Secret { mechanism: self.mechanism, value: self.value@ }
    }
}

#[derive(Debug)]
struct Row {
    name: String,
    credential: Credential,
}

/// Credentials by name. No name occurs twice.
#[derive(Debug)]
pub struct CredentialTable {
    rows: Vec<Row>,
}

spec fn rows_map(rows: Seq<Row>) -> Map<Seq<u8>, Secret>
    decreases rows.len(),
{
    if rows.len() == 0 {
        Map::empty()
    } else {
        rows_map(rows.drop_last()).insert(
            encode_utf8(rows.last().name@),
            rows.last().credential@,
        )
    }
}

spec fn row_named(rows: Seq<Row>, name: Seq<u8>, i: int) -> bool {
    0 <= i < rows.len() && encode_utf8(rows[i].name@) == name
}

spec fn distinct(rows: Seq<Row>) -> bool {
    forall|i: int, j: int|
        #![trigger rows[i], rows[j]]
        0 <= i < j < rows.len() ==> encode_utf8(rows[i].name@) != encode_utf8(rows[j].name@)
}

proof fn lemma_rows_map(rows: Seq<Row>, name: Seq<u8>)
    requires
        distinct(rows),
    ensures
        rows_map(rows).dom().finite(),
        rows_map(rows).dom().len() == rows.len(),
        rows_map(rows).contains_key(name) <==> exists|i: int| row_named(rows, name, i),
        forall|i: int|
            row_named(rows, name, i) ==> rows_map(rows)[name] == #[trigger] rows[i].credential@,
    decreases rows.len(),
{
    if rows.len() > 0 {
        let front = rows.drop_last();
        lemma_rows_map(front, name);
        lemma_rows_map(front, encode_utf8(rows.last().name@));
        let last = rows.len() - 1;
        if row_named(rows, name, last) {
        }
        if exists|i: int| row_named(front, name, i) {
            let i = choose|i: int| row_named(front, name, i);
            assert(row_named(rows, name, i));
        }
        if exists|i: int| row_named(rows, name, i) {
            let i = choose|i: int| row_named(rows, name, i);
            if i < last {
                assert(row_named(front, name, i));
            }
        }
        assert(!front_has(front, rows.last().name@)) by {
            if front_has(front, rows.last().name@) {
                let i = choose|i: int| row_named(front, encode_utf8(rows.last().name@), i);
                assert(rows[i] == front[i]);
                assert(rows[last] == rows.last());
            }
        }
        assert forall|i: int| row_named(rows, name, i) implies rows_map(rows)[name]
            == #[trigger] rows[i].credential@ by {
            if i < last {
                assert(row_named(front, name, i));
                assert(front[i] == rows[i]);
            }
        }
    }
}

spec fn front_has(rows: Seq<Row>, name: Seq<char>) -> bool {
    exists|i: int| row_named(rows, encode_utf8(name), i)
}

impl View for CredentialTable {
    type V = Map<Seq<u8>, Secret>;

    closed spec fn view(&self) -> Map<Seq<u8>, Secret> {
        rows_map(self.rows@)
    }
}

impl CredentialTable {
    pub closed spec fn wf(self) -> bool {
        distinct(self.rows@)
    }

    pub fn new() -> (table: Self)
        ensures
            table.wf(),
            table@ == Map::<Seq<u8>, Secret>::empty(),
    {
        CredentialTable { rows: Vec::new() }
    }

    pub fn len(&self) -> (n: usize)
        requires
            self.wf(),
        ensures
            n == self@.dom().len(),
            self@.dom().finite(),
    {
        proof {
            lemma_rows_map(self.rows@, Seq::empty());
        }
        self.rows.len()
    }

    fn find(&self, name: &[u8]) -> (found: Option<usize>)
        requires
            self.wf(),
        ensures
            found is Some <==> self@.contains_key(name@),
            found is Some ==> row_named(self.rows@, name@, found->0 as int)
                && self.rows@[found->0 as int].credential@ == self@[name@],
    {
        proof {
            lemma_rows_map(self.rows@, name@);
        }
        let mut i: usize = 0;
        while i < self.rows.len()
            invariant
                self.wf(),
                i <= self.rows@.len(),
                forall|j: int| 0 <= j < i ==> !row_named(self.rows@, name@, j),
            decreases self.rows@.len() - i,
        {
            if text::same_bytes(self.rows[i].name.as_str().as_bytes(), name) {
                proof {
                    lemma_rows_map(self.rows@, name@);
                    assert(row_named(self.rows@, name@, i as int));
                }
                return Some(i);
            }
            i = i + 1;
        }
        None
    }

    /// The credential stored under a name.
    pub fn get(&self, name: &[u8]) -> (credential: Option<Credential>)
        requires
            self.wf(),
        ensures
            credential is Some <==> self@.contains_key(name@),
            credential is Some ==> credential->0@ == self@[name@],
    {
        match self.find(name) {
            Some(i) => Some(self.rows[i].credential),
            None => None,
        }
    }

    /// The name and credential stored under a name given as bytes.
    pub(crate) fn lookup(&self, name: &[u8]) -> (row: Option<(String, Credential)>)
        requires
            self.wf(),
        ensures
            row is Some <==> self@.contains_key(name@),
            row is Some ==> encode_utf8((row->0).0@) == name@ && (row->0).1@ == self@[name@],
    {
        match self.find(name) {
            Some(i) => Some((self.rows[i].name.clone(), self.rows[i].credential)),
            None => None,
        }
    }

    pub fn contains_key(&self, name: &[u8]) -> (yes: bool)
        requires
            self.wf(),
        ensures
            yes == self@.contains_key(name@),
    {
        self.find(name).is_some()
    }

    /// Adds a row. A name that is already taken keeps the row it has, and the
    /// answer is `false`.
    pub fn insert(&mut self, name: &str, credential: Credential) -> (added: bool)
        requires
            old(self).wf(),
        ensures
            final(self).wf(),
            added == !old(self)@.contains_key(encode_utf8(name@)),
            final(self)@ == (if added {
                old(self)@.insert(encode_utf8(name@), credential@)
            } else {
                old(self)@
            }),
    {
        if self.find(name.as_bytes()).is_some() {
            return false;
        }
        let ghost before = self.rows@;
        proof {
            lemma_rows_map(before, encode_utf8(name@));
        }
        let row = Row { name: name.to_owned(), credential };
        self.rows.push(row);
        assert(self.rows@.drop_last() =~= before);
        assert forall|i: int, j: int|
            #![trigger self.rows@[i], self.rows@[j]]
            0 <= i < j < self.rows@.len() implies encode_utf8(self.rows@[i].name@) != encode_utf8(
            self.rows@[j].name@,
        ) by {
            if j == before.len() {
                assert(!row_named(before, encode_utf8(name@), i));
            }
        }
        true
    }
}

/// What is wrong with a name.
#[derive(Debug)]
pub enum NameError {
    Length(usize),
    Character(char),
}

/// What is wrong with the hex value of a credential.
#[derive(Debug)]
pub enum HexError {
    Length(usize),
    SplitCharacter,
    Uppercase,
    NotHex(String),
}

/// What is wrong with one line of a credential file.
#[derive(Debug)]
pub enum RowError {
    OneField,
    TrailingField(String),
    Name(NameError),
    ModularCrypt(String),
    NoAlgorithm(String),
    Hex(HexError),
    NotBuilt,
    UnknownAlgorithm(String),
    Duplicate(String),
}

/// The first fault of a credential file, with the line it is on.
#[derive(Debug)]
pub struct FileError {
    pub line_number: usize,
    pub line: String,
    pub reason: RowError,
}

/// A fault of a hex value.
#[verifier::ext_equal]
pub enum HexFault {
    Length(nat),
    SplitCharacter,
    Uppercase,
    NotHex(Seq<char>),
}

/// A fault of one line.
#[verifier::ext_equal]
pub enum RowFault {
    OneField,
    TrailingField(Seq<char>),
    Name(NameError),
    ModularCrypt(Seq<char>),
    NoAlgorithm(Seq<char>),
    Hex(HexFault),
    NotBuilt,
    UnknownAlgorithm(Seq<char>),
    Duplicate(Seq<char>),
}

impl View for HexError {
    type V = HexFault;

    open spec fn view(&self) -> HexFault {
        match self {
            HexError::Length(n) => HexFault::Length(*n as nat),
            HexError::SplitCharacter => HexFault::SplitCharacter,
            HexError::Uppercase => HexFault::Uppercase,
            HexError::NotHex(pair) => HexFault::NotHex(pair@),
        }
    }
}

impl View for RowError {
    type V = RowFault;

    open spec fn view(&self) -> RowFault {
        match self {
            RowError::OneField => RowFault::OneField,
            RowError::TrailingField(s) => RowFault::TrailingField(s@),
            RowError::Name(e) => RowFault::Name(*e),
            RowError::ModularCrypt(s) => RowFault::ModularCrypt(s@),
            RowError::NoAlgorithm(s) => RowFault::NoAlgorithm(s@),
            RowError::Hex(e) => RowFault::Hex(e@),
            RowError::NotBuilt => RowFault::NotBuilt,
            RowError::UnknownAlgorithm(s) => RowFault::UnknownAlgorithm(s@),
            RowError::Duplicate(s) => RowFault::Duplicate(s@),
        }
    }
}

/// What a name error prints as.
pub open spec fn name_message(e: NameError) -> Seq<char> {
    match e {
        NameError::Length(n) => "name is "@ + text::decimal(n as nat)
            + " bytes; it must be 1 to 64"@,
        NameError::Character(c) => "name contains "@ + quoted_char(c)
            + "; only [A-Za-z0-9_.-] is allowed"@,
    }
}

/// What a hex error prints as.
pub open spec fn hex_message(e: HexFault) -> Seq<char> {
    match e {
        HexFault::Length(n) => "expected 64 hex characters, found "@ + text::decimal(n),
        HexFault::SplitCharacter => "a character is split between two hex pairs"@,
        HexFault::Uppercase => "hex must be lowercase"@,
        HexFault::NotHex(pair) => quoted(pair) + " is not hex: invalid digit found in string"@,
    }
}

/// What a line's fault prints as.
pub open spec fn row_message(e: RowFault) -> Seq<char> {
    match e {
        RowFault::OneField =>
            "expected `<name> <algorithm>:<value>`, but the line has only one field"@,
        RowFault::TrailingField(s) => "unknown trailing field "@ + quoted(s)
            + ". No `key=value` fields are defined yet; they are reserved"@,
        RowFault::Name(n) => name_message(n),
        RowFault::ModularCrypt(s) => quoted(s)
            + " looks like a modular crypt hash. That format is reserved for a real key-derivation function, which this build does not implement — see docs/auth.md §4"@,
        RowFault::NoAlgorithm(s) => quoted(s)
            + " has no algorithm. Expected `sha256:<64 hex>` — there is no default"@,
        RowFault::Hex(h) => hex_message(h),
        RowFault::NotBuilt =>
            "`hmac-sha256-key` needs the HMAC_SHA256 mechanism, which is specified but not built in this version — see docs/auth.md §6.3. Use `sha256:` for now"@,
        RowFault::UnknownAlgorithm(s) => "unknown algorithm "@ + quoted(s)
            + ". Known: `sha256`. A misspelt algorithm is refused rather than skipped, so the table never half-loads"@,
        RowFault::Duplicate(s) => "duplicate name "@ + quoted(s),
    }
}

/// What a file's fault prints as: the line, then what is wrong with it.
pub open spec fn file_message(line_number: nat, line: Seq<char>, reason: RowFault) -> Seq<char> {
    "on line "@ + text::decimal(line_number) + ": "@ + quoted(line) + ": "@ + row_message(reason)
}

impl NameError {
    pub fn message(&self) -> (out: String)
        ensures
            out@ == name_message(*self),
    {
        match self {
            NameError::Length(n) => {
                let mut out = "name is ".to_owned();
                text::push_decimal(&mut out, *n as u64);
                out.append(" bytes; it must be 1 to 64");
                out
            },
            NameError::Character(c) => {
                let mut out = "name contains ".to_owned();
                out.append(quote_char(*c).as_str());
                out.append("; only [A-Za-z0-9_.-] is allowed");
                out
            },
        }
    }
}

impl HexError {
    pub fn message(&self) -> (out: String)
        ensures
            out@ == hex_message(self@),
    {
        match self {
            HexError::Length(n) => {
                let mut out = "expected 64 hex characters, found ".to_owned();
                text::push_decimal(&mut out, *n as u64);
                out
            },
            HexError::SplitCharacter => "a character is split between two hex pairs".to_owned(),
            HexError::Uppercase => "hex must be lowercase".to_owned(),
            HexError::NotHex(pair) => {
                let mut out = quote(pair.as_str());
                out.append(" is not hex: invalid digit found in string");
                out
            },
        }
    }
}

impl RowError {
    pub fn message(&self) -> (out: String)
        ensures
            out@ == row_message(self@),
    {
        match self {
            RowError::OneField =>
                "expected `<name> <algorithm>:<value>`, but the line has only one field".to_owned(),
            RowError::TrailingField(s) => {
                let mut out = "unknown trailing field ".to_owned();
                out.append(quote(s.as_str()).as_str());
                out.append(". No `key=value` fields are defined yet; they are reserved");
                out
            },
            RowError::Name(e) => e.message(),
            RowError::ModularCrypt(s) => {
                let mut out = quote(s.as_str());
                out.append(
                    " looks like a modular crypt hash. That format is reserved for a real key-derivation function, which this build does not implement — see docs/auth.md §4",
                );
                out
            },
            RowError::NoAlgorithm(s) => {
                let mut out = quote(s.as_str());
                out.append(
                    " has no algorithm. Expected `sha256:<64 hex>` — there is no default",
                );
                out
            },
            RowError::Hex(e) => e.message(),
            RowError::NotBuilt =>
                "`hmac-sha256-key` needs the HMAC_SHA256 mechanism, which is specified but not built in this version — see docs/auth.md §6.3. Use `sha256:` for now".to_owned(),
            RowError::UnknownAlgorithm(s) => {
                let mut out = "unknown algorithm ".to_owned();
                out.append(quote(s.as_str()).as_str());
                out.append(
                    ". Known: `sha256`. A misspelt algorithm is refused rather than skipped, so the table never half-loads",
                );
                out
            },
            RowError::Duplicate(s) => {
                let mut out = "duplicate name ".to_owned();
                out.append(quote(s.as_str()).as_str());
                out
            },
        }
    }
}

impl FileError {
    pub fn message(&self) -> (out: String)
        ensures
            out@ == file_message(self.line_number as nat, self.line@, self.reason@),
    {
        let mut out = "on line ".to_owned();
        text::push_decimal(&mut out, self.line_number as u64);
        out.append(": ");
        out.append(quote(self.line.as_str()).as_str());
        out.append(": ");
        out.append(self.reason.message().as_str());
        out
    }
}

/// Whether a character may occur in a name.
pub open spec fn name_char(c: char) -> bool {
    ||| 'a' <= c <= 'z'
    ||| 'A' <= c <= 'Z'
    ||| '0' <= c <= '9'
    ||| c == '_'
    ||| c == '.'
    ||| c == '-'
}

/// The first character that may not occur in a name.
pub open spec fn first_bad(name: Seq<char>) -> Option<char>
    decreases name.len(),
{
    if name.len() == 0 {
        None
    } else if !name_char(name[0]) {
        Some(name[0])
    } else {
        first_bad(name.skip(1))
    }
}

/// What is wrong with a name, if anything: its length in bytes first, then its
/// first character outside `[A-Za-z0-9_.-]`.
pub open spec fn name_fault(name: Seq<char>) -> Option<NameError> {
    let n = encode_utf8(name).len();
    if n < 1 || n > MAX_NAME_LEN {
        Some(NameError::Length(n as usize))
    } else {
        match first_bad(name) {
            Some(c) => Some(NameError::Character(c)),
            None => None,
        }
    }
}

/// Checks a name. No colon and no white space, so both splits of a line are
/// unambiguous.
pub fn validate_name(name: &str) -> (checked: Result<(), NameError>)
    ensures
        checked is Ok <==> name_fault(name@) is None,
        checked is Err ==> name_fault(name@) == Some(checked->Err_0),
{
    let n = name.as_bytes().len();
    if n < 1 || n > MAX_NAME_LEN {
        return Err(NameError::Length(n));
    }
    let chars = text::chars_of(name);
    let mut i: usize = 0;
    assert(name@.skip(0) =~= name@);
    while i < chars.len()
        invariant
            chars@ == name@,
            i <= name@.len(),
            first_bad(name@.skip(i as int)) == first_bad(name@),
            1 <= encode_utf8(name@).len() <= MAX_NAME_LEN,
        decreases name@.len() - i,
    {
        let c = chars[i];
        if !(('a' <= c && c <= 'z') || ('A' <= c && c <= 'Z') || ('0' <= c && c <= '9') || c == '_'
            || c == '.' || c == '-') {
            return Err(NameError::Character(c));
        }
        assert(name@.skip(i as int).skip(1) =~= name@.skip(i + 1));
        i = i + 1;
    }
    Ok(())
}

/// The value of a lowercase hex digit.
pub open spec fn hex_value(b: u8) -> Option<u8> {
    if 0x30 <= b <= 0x39 {
        Some((b - 0x30) as u8)
    } else if 0x61 <= b <= 0x66 {
        Some((b - 0x61 + 10) as u8)
    } else {
        None
    }
}

fn hex_digit_value(b: u8) -> (v: Option<u8>)
    ensures
        v == hex_value(b),
        v is Some ==> v->0 < 16,
{
    if 0x30 <= b && b <= 0x39 {
        Some(b - 0x30)
    } else if 0x61 <= b && b <= 0x66 {
        Some(b - 0x61 + 10)
    } else {
        None
    }
}

/// Whether a byte is an uppercase ASCII letter.
pub open spec fn uppercase(b: u8) -> bool {
    0x41 <= b <= 0x5a
}

/// What the pair of hex digits at `2 * i` stands for.
pub open spec fn hex_pair(bytes: Seq<u8>, i: int) -> Result<u8, HexFault> {
    let a = bytes[2 * i];
    let b = bytes[2 * i + 1];
    if !is_char_boundary(bytes, 2 * i) || !is_char_boundary(bytes, 2 * i + 2) {
        Err(HexFault::SplitCharacter)
    } else if uppercase(a) || uppercase(b) {
        Err(HexFault::Uppercase)
    } else if hex_value(a) is None || hex_value(b) is None {
        Err(HexFault::NotHex(decode_utf8(bytes.subrange(2 * i, 2 * i + 2))))
    } else {
        Ok((hex_value(a)->0 * 16 + hex_value(b)->0) as u8)
    }
}

/// The bytes that the pairs from `i` on stand for, up to the first bad one.
pub open spec fn hex_pairs(bytes: Seq<u8>, i: int) -> Result<Seq<u8>, HexFault>
    decreases 32 - i,
{
    if i >= 32 {
        Ok(Seq::empty())
    } else {
        match hex_pair(bytes, i) {
            Err(e) => Err(e),
            Ok(byte) => match hex_pairs(bytes, i + 1) {
                Err(e) => Err(e),
                Ok(rest) => Ok(seq![byte] + rest),
            },
        }
    }
}

/// The 32 bytes that a text of 64 lowercase hex digits stands for.
pub open spec fn hex32(value: Seq<char>) -> Result<Seq<u8>, HexFault> {
    let bytes = encode_utf8(value);
    if bytes.len() != 64 {
        Err(HexFault::Length(bytes.len()))
    } else {
        hex_pairs(bytes, 0)
    }
}

/// Parses 64 lowercase hex digits.
///
/// Lowercase only: one canonical rendering means a file diffs cleanly and two
/// rows for the same digest cannot look different.
pub fn parse_hex32(value: &str) -> (parsed: Result<[u8; 32], HexError>)
    ensures
        match (parsed, hex32(value@)) {
            (Ok(bytes), Ok(expected)) => bytes@ == expected,
            (Err(e), Err(fault)) => e@ == fault,
            _ => false,
        },
{
    let bytes = value.as_bytes();
    if bytes.len() != 64 {
        return Err(HexError::Length(bytes.len()));
    }
    proof {
        encode_utf8_valid_utf8(value@);
        is_char_boundary_start_end_of_seq(bytes@);
    }
    let mut out: [u8; 32] = [0u8; 32];
    let mut i: usize = 0;
    while i < 32
        invariant
            i <= 32,
            bytes@ == encode_utf8(value@),
            valid_utf8(bytes@),
            bytes@.len() == 64,
            match (hex_pairs(bytes@, 0), hex_pairs(bytes@, i as int)) {
                (Ok(all), Ok(rest)) => all == out@.take(i as int) + rest,
                (Err(e), Err(f)) => e == f,
                _ => false,
            },
        decreases 32 - i,
    {
        if !value.is_char_boundary(2 * i) || !value.is_char_boundary(2 * i + 2) {
            return Err(HexError::SplitCharacter);
        }
        let a = bytes[2 * i];
        let b = bytes[2 * i + 1];
        if (0x41 <= a && a <= 0x5a) || (0x41 <= b && b <= 0x5a) {
            return Err(HexError::Uppercase);
        }
        match (hex_digit_value(a), hex_digit_value(b)) {
            (Some(high), Some(low)) => {
                let ghost done = out@.take(i as int);
                out[i] = high * 16 + low;
                assert(out@.take(i + 1) =~= done.push(out@[i as int]));
                assert(forall|rest: Seq<u8>|
                    done + (seq![out@[i as int]] + rest) =~= out@.take(i + 1) + rest);
            },
            _ => {
                let front = value.split_at(2 * i + 2).0;
                proof {
                    lemma_boundary_in_front(bytes@, 2 * i as int, 2 * i + 2 as int);
                }
                let pair = front.split_at(2 * i).1;
                proof {
                    assert(encode_utf8(pair@) =~= bytes@.subrange(2 * i as int, 2 * i + 2));
                    encode_utf8_decode_utf8(pair@);
                }
                return Err(HexError::NotHex(pair.to_owned()));
            },
        }
        i = i + 1;
    }
    assert(out@.take(32) =~= out@);
    assert(out@ + Seq::<u8>::empty() =~= out@);
    Ok(out)
}

proof fn lemma_each_pair(bytes: Seq<u8>, from: int, i: int)
    requires
        0 <= from <= i < 32,
        hex_pairs(bytes, from) is Ok,
    ensures
        hex_pairs(bytes, from)->Ok_0.len() == 32 - from,
        hex_pair(bytes, i) == Ok::<u8, HexFault>(hex_pairs(bytes, from)->Ok_0[i - from]),
    decreases 32 - from,
{
    if from < 31 {
        if i == from {
            lemma_each_pair(bytes, from + 1, i + 1);
        } else {
            lemma_each_pair(bytes, from + 1, i);
        }
    } else {
        assert(hex_pairs(bytes, 32) == Ok::<Seq<u8>, HexFault>(Seq::empty()));
    }
}

proof fn lemma_pair_injective(x: Seq<u8>, y: Seq<u8>, i: int)
    requires
        hex_pair(x, i) is Ok,
        hex_pair(x, i) == hex_pair(y, i),
    ensures
        x[2 * i] == y[2 * i],
        x[2 * i + 1] == y[2 * i + 1],
{
    let (a, b) = (hex_value(x[2 * i])->0, hex_value(x[2 * i + 1])->0);
    let (c, d) = (hex_value(y[2 * i])->0, hex_value(y[2 * i + 1])->0);
    assert(a < 16 && b < 16 && c < 16 && d < 16);
    assert(a * 16 + b == c * 16 + d);
}

/// There is one way to write a value: two texts that stand for the same 32 bytes
/// are the same text.
pub proof fn hex_is_canonical(a: Seq<char>, b: Seq<char>)
    requires
        hex32(a) is Ok,
        hex32(a) == hex32(b),
    ensures
        a == b,
{
    let x = encode_utf8(a);
    let y = encode_utf8(b);
    assert forall|k: int| 0 <= k < 64 implies x[k] == y[k] by {
        let i = k / 2;
        lemma_each_pair(x, 0, i);
        lemma_each_pair(y, 0, i);
        lemma_pair_injective(x, y, i);
        assert(k == 2 * i || k == 2 * i + 1);
    }
    assert(x.len() == 64 && y.len() == 64);
    assert(x =~= y);
    encode_utf8_decode_utf8(a);
    encode_utf8_decode_utf8(b);
}

proof fn lemma_boundary_in_front(bytes: Seq<u8>, i: int, end: int)
    requires
        valid_utf8(bytes),
        is_char_boundary(bytes, i),
        is_char_boundary(bytes, end),
        0 <= i < end <= bytes.len(),
    ensures
        valid_utf8(bytes.subrange(0, end)),
        is_char_boundary(bytes.subrange(0, end), i),
{
    valid_utf8_split(bytes, end);
    let front = bytes.subrange(0, end);
    is_char_boundary_iff_not_is_continuation_byte(bytes, i);
    is_char_boundary_iff_not_is_continuation_byte(front, i);
    assert(front[i] == bytes[i]);
}

/// The credential that a field stands for.
///
/// Modular crypt hashes are refused before anything else: that format names a
/// key-derivation function, and a bare digest behind its label would silently
/// disagree with every tool that reads it.
pub open spec fn credential_of(field: Seq<char>) -> Result<Secret, RowFault> {
    let k = text::run_before(field, ':') as int;
    let value = field.skip(k + 1);
    if field.len() > 0 && field[0] == '$' {
        Err(RowFault::ModularCrypt(field))
    } else if k >= field.len() {
        Err(RowFault::NoAlgorithm(field))
    } else if field.take(k) == "sha256"@ {
        match hex32(value) {
            Ok(digest) => Ok(Secret { mechanism: Mechanism::Plain, value: digest }),
            Err(e) => Err(RowFault::Hex(e)),
        }
    } else if field.take(k) == "hmac-sha256-key"@ {
        match hex32(value) {
            Ok(_) => Err(RowFault::NotBuilt),
            Err(e) => Err(RowFault::Hex(e)),
        }
    } else {
        Err(RowFault::UnknownAlgorithm(field.take(k)))
    }
}

/// Parses `<algorithm>:<value>`.
pub fn parse_credential(field: &[char]) -> (parsed: Result<Credential, RowError>)
    ensures
        match (parsed, credential_of(field@)) {
            (Ok(credential), Ok(expected)) => credential@ == expected,
            (Err(e), Err(fault)) => e@ == fault,
            _ => false,
        },
{
    if field.len() > 0 && field[0] == '$' {
        assert(field@.subrange(0, field@.len() as int) =~= field@);
        return Err(RowError::ModularCrypt(text::text_between(field, 0, field.len())));
    }
    assert(field@.skip(0) =~= field@);
    let k = text::find_from(field, 0, ':');
    if k == field.len() {
        assert(field@.subrange(0, field@.len() as int) =~= field@);
        return Err(RowError::NoAlgorithm(text::text_between(field, 0, field.len())));
    }
    assert(field@.subrange(0, k as int) =~= field@.take(k as int));
    assert(field@.subrange(k + 1, field@.len() as int) =~= field@.skip(k + 1));
    let algorithm = text::copy_between(field, 0, k);
    let value = text::text_between(field, k + 1, field.len());
    if text::same_text(&algorithm, &text::chars_of("sha256")) {
        return match parse_hex32(value.as_str()) {
            Ok(value) => Ok(Credential { mechanism: Mechanism::Plain, value }),
            Err(e) => Err(RowError::Hex(e)),
        };
    }
    if text::same_text(&algorithm, &text::chars_of("hmac-sha256-key")) {
        return match parse_hex32(value.as_str()) {
            Ok(_) => Err(RowError::NotBuilt),
            Err(e) => Err(RowError::Hex(e)),
        };
    }
    Err(RowError::UnknownAlgorithm(text::text_between(field, 0, k)))
}

/// The row that a line stands for, given the rows before it.
///
/// A third field is refused rather than ignored, and so is a name that is
/// already taken.
pub open spec fn row_of(
    line: Seq<char>,
    table: Map<Seq<u8>, Secret>,
) -> Result<(Seq<u8>, Secret), RowFault> {
    let fields = text::words(line);
    if fields.len() < 2 {
        Err(RowFault::OneField)
    } else if fields.len() > 2 {
        Err(RowFault::TrailingField(fields[2]))
    } else {
        match name_fault(fields[0]) {
            Some(e) => Err(RowFault::Name(e)),
            None => match credential_of(fields[1]) {
                Err(e) => Err(e),
                Ok(secret) => if table.contains_key(encode_utf8(fields[0])) {
                    Err(RowFault::Duplicate(fields[0]))
                } else {
                    Ok((encode_utf8(fields[0]), secret))
                },
            },
        }
    }
}

/// Parses one line into the table.
pub fn parse_line(line: &[char], table: &mut CredentialTable) -> (parsed: Result<(), RowError>)
    requires
        old(table).wf(),
        text::words(line@).len() > 0,
    ensures
        final(table).wf(),
        match (parsed, row_of(line@, old(table)@)) {
            (Ok(_), Ok(row)) => final(table)@ == old(table)@.insert(row.0, row.1),
            (Err(e), Err(fault)) => e@ == fault && final(table)@ == old(table)@,
            _ => false,
        },
{
    let fields = text::words_of(line);
    let ghost model = text::words(line@);
    assert(forall|i: int| 0 <= i < fields@.len() ==> fields@[i]@ == #[trigger] model[i]);
    if fields.len() < 2 {
        return Err(RowError::OneField);
    }
    if fields.len() > 2 {
        let extra = &fields[2];
        assert(extra@ == model[2]);
        assert(extra@.subrange(0, extra@.len() as int) =~= extra@);
        return Err(RowError::TrailingField(text::text_between(extra, 0, extra.len())));
    }
    let name = text::text_between(&fields[0], 0, fields[0].len());
    assert(name@ =~= model[0]);
    assert(fields@[1]@ == model[1]);
    match validate_name(name.as_str()) {
        Ok(_) => {},
        Err(e) => {
            return Err(RowError::Name(e));
        },
    }
    match parse_credential(&fields[1]) {
        Ok(credential) => {
            if table.insert(name.as_str(), credential) {
                Ok(())
            } else {
                Err(RowError::Duplicate(name))
            }
        },
        Err(e) => Err(e),
    }
}

/// The fault of a file: the number of the line, the line, and what is wrong
/// with it.
#[verifier::ext_equal]
pub struct FileFault {
    pub line_number: nat,
    pub line: Seq<char>,
    pub reason: RowFault,
}

impl View for FileError {
    type V = FileFault;

    open spec fn view(&self) -> FileFault {
        FileFault {
            line_number: self.line_number as nat,
            line: self.line@,
            reason: self.reason@,
        }
    }
}

/// Whether a trimmed line holds no row.
pub open spec fn skipped(line: Seq<char>) -> bool {
    line.len() == 0 || line[0] == '#'
}

/// The table that the lines from `k` on complete, or the first fault in them.
pub open spec fn rows_from(
    lines: Seq<Seq<char>>,
    k: int,
    table: Map<Seq<u8>, Secret>,
) -> Result<Map<Seq<u8>, Secret>, FileFault>
    decreases lines.len() - k,
{
    if k >= lines.len() {
        Ok(table)
    } else {
        let line = text::trimmed(lines[k]);
        if skipped(line) {
            rows_from(lines, k + 1, table)
        } else {
            match row_of(line, table) {
                Ok(row) => rows_from(lines, k + 1, table.insert(row.0, row.1)),
                Err(reason) => Err(
                    FileFault { line_number: (k + 1) as nat, line, reason },
                ),
            }
        }
    }
}

/// The table that a credential file stands for, or its first fault.
pub open spec fn table_of(text: Seq<char>) -> Result<Map<Seq<u8>, Secret>, FileFault> {
    rows_from(text::lines(text), 0, Map::empty())
}

/// How many of the lines from `k` on hold a row.
pub open spec fn row_count(lines: Seq<Seq<char>>, k: int) -> nat
    decreases lines.len() - k,
{
    if k >= lines.len() {
        0
    } else if skipped(text::trimmed(lines[k])) {
        row_count(lines, k + 1)
    } else {
        1 + row_count(lines, k + 1)
    }
}

/// Whether a table has the row that a line holds.
pub open spec fn holds_row(table: Map<Seq<u8>, Secret>, line: Seq<char>) -> bool {
    let fields = text::words(line);
    let name = encode_utf8(fields[0]);
    table.contains_key(name) && credential_of(fields[1]) == Ok::<Secret, RowFault>(table[name])
}

proof fn lemma_rows_from(lines: Seq<Seq<char>>, k: int, table: Map<Seq<u8>, Secret>)
    requires
        0 <= k,
        table.dom().finite(),
        rows_from(lines, k, table) is Ok,
    ensures
        ({
            let whole = rows_from(lines, k, table)->Ok_0;
            &&& whole.dom().finite()
            &&& whole.dom().len() == table.dom().len() + row_count(lines, k)
            &&& forall|name: Seq<u8>| #[trigger]
                table.contains_key(name) ==> whole.contains_key(name) && whole[name] == table[name]
            &&& forall|j: int|
                k <= j < lines.len() && !skipped(#[trigger] text::trimmed(lines[j])) ==> holds_row(
                    whole,
                    text::trimmed(lines[j]),
                )
        }),
    decreases lines.len() - k,
{
    if k < lines.len() {
        let line = text::trimmed(lines[k]);
        if skipped(line) {
            lemma_rows_from(lines, k + 1, table);
        } else {
            let row = row_of(line, table)->Ok_0;
            let more = table.insert(row.0, row.1);
            assert(more.dom() =~= table.dom().insert(row.0));
            lemma_rows_from(lines, k + 1, more);
            let whole = rows_from(lines, k, table)->Ok_0;
            assert(more.contains_key(row.0) && more[row.0] == row.1);
            assert(whole.contains_key(row.0) && whole[row.0] == row.1);
            assert forall|name: Seq<u8>| #[trigger]
                table.contains_key(name) implies whole.contains_key(name) && whole[name]
                == table[name] by {
                assert(more.contains_key(name) && more[name] == table[name]);
            }
        }
    }
}

/// A file never half-loads: the table of a file that loads has one row for each
/// of its lines that is neither blank nor a comment, and the row is what the line
/// says.
pub proof fn a_file_never_half_loads(source: Seq<char>)
    requires
        table_of(source) is Ok,
    ensures
        ({
            let table = table_of(source)->Ok_0;
            let lines = text::lines(source);
            &&& table.dom().finite()
            &&& table.dom().len() == row_count(lines, 0)
            &&& forall|j: int|
                0 <= j < lines.len() && !skipped(#[trigger] text::trimmed(lines[j])) ==> holds_row(
                    table,
                    text::trimmed(lines[j]),
                )
        }),
{
    lemma_rows_from(text::lines(source), 0, Map::empty());
}

/// Parses the credential file format.
///
/// ```text
/// <name>  <algorithm>:<value>
/// ```
///
/// One credential per line, fields separated by white space, `#` comments. A
/// file never half-loads: the first fault is the whole answer.
pub fn parse(source: &str) -> (parsed: Result<CredentialTable, FileError>)
    ensures
        match (parsed, table_of(source@)) {
            (Ok(table), Ok(expected)) => table.wf() && table@ == expected,
            (Err(e), Err(fault)) => e@ == fault,
            _ => false,
        },
{
    let mut table = CredentialTable::new();
    let lines = text::lines_of(&text::chars_of(source));
    let ghost model = text::lines(source@);
    let mut k: usize = 0;
    while k < lines.len()
        invariant
            k <= lines@.len() == model.len(),
            text::views(lines@) == model,
            table.wf(),
            rows_from(model, k as int, table@) == table_of(source@),
        decreases lines@.len() - k,
    {
        let raw = &lines[k];
        assert(raw@ == model[k as int]);
        let (from, to) = text::trim_bounds(raw);
        let line = text::copy_between(raw, from, to);
        if line.len() > 0 && line[0] != '#' {
            proof {
                text::lemma_trimmed_has_words(raw@);
            }
            match parse_line(&line, &mut table) {
                Ok(_) => {},
                Err(reason) => {
                    return Err(
                        FileError {
                            line_number: k + 1,
                            line: text::text_between(raw, from, to),
                            reason,
                        },
                    );
                },
            }
        }
        k = k + 1;
    }
    Ok(table)
}

/// The character of a hex digit.
pub open spec fn hex_digit(v: int) -> char {
    if v < 10 {
        (0x30 + v) as char
    } else {
        (0x61 + v - 10) as char
    }
}

/// Bytes in lowercase hex, two digits each.
pub open spec fn hex_text(bytes: Seq<u8>) -> Seq<char> {
    Seq::new(
        2 * bytes.len(),
        |i: int|
            hex_digit(
                if i % 2 == 0 {
                    bytes[i / 2] as int / 16
                } else {
                    bytes[i / 2] as int % 16
                },
            ),
    )
}

fn hex_digit_char(v: u8) -> (c: char)
    requires
        v < 16,
    ensures
        c == hex_digit(v as int),
{
    if v < 10 {
        (0x30 + v) as char
    } else {
        (0x61 + (v - 10)) as char
    }
}

/// Renders bytes in lowercase hex.
pub fn hex(bytes: &[u8]) -> (out: String)
    ensures
        out@ == hex_text(bytes@),
{
    let mut out = String::new();
    let mut i: usize = 0;
    while i < bytes.len()
        invariant
            i <= bytes@.len(),
            out@ == hex_text(bytes@.take(i as int)),
        decreases bytes@.len() - i,
    {
        let b = bytes[i];
        out.push(hex_digit_char(b / 16));
        out.push(hex_digit_char(b % 16));
        assert(out@ =~= hex_text(bytes@.take(i + 1)));
        i = i + 1;
    }
    assert(bytes@.take(i as int) =~= bytes@);
    out
}

/// The line that stores a digest under a name.
pub open spec fn row_line(name: Seq<char>, digest: Seq<u8>) -> Seq<char> {
    name + "  sha256:"@ + hex_text(digest)
}

/// Hex is read back as it was written: parsing the rendering of 32 bytes gives
/// those bytes.
pub proof fn hex_round_trips(bytes: Seq<u8>)
    requires
        bytes.len() == 32,
    ensures
        hex32(hex_text(bytes)) == Ok::<Seq<u8>, HexFault>(bytes),
{
    let s = hex_text(bytes);
    assert(is_ascii_chars(s));
    is_ascii_chars_encode_utf8(s);
    let e = encode_utf8(s);
    encode_utf8_valid_utf8(s);
    assert forall|i: int| 0 <= i < 32 implies #[trigger] hex_pair(e, i) == Ok::<u8, HexFault>(
        bytes[i],
    ) by {
        let b = bytes[i] as int;
        assert((2 * i) / 2 == i && (2 * i) % 2 == 0);
        assert((2 * i + 1) / 2 == i && (2 * i + 1) % 2 == 1);
        assert(s[2 * i] == hex_digit(b / 16));
        assert(s[2 * i + 1] == hex_digit(b % 16));
        assert(e[2 * i] == s[2 * i] as u8);
        assert(e[2 * i + 1] == s[2 * i + 1] as u8);
        assert(hex_value(e[2 * i]) == Some((b / 16) as u8));
        assert(hex_value(e[2 * i + 1]) == Some((b % 16) as u8));
        lemma_ascii_boundary(e, 2 * i);
        lemma_ascii_boundary(e, 2 * i + 2);
    }
    lemma_hex_pairs(e, bytes, 0);
    assert(bytes.skip(0) =~= bytes);
}

proof fn lemma_ascii_boundary(e: Seq<u8>, i: int)
    requires
        valid_utf8(e),
        0 <= i <= e.len(),
        forall|j: int| 0 <= j < e.len() ==> #[trigger] e[j] < 0x80,
    ensures
        is_char_boundary(e, i),
{
    if i == e.len() {
        is_char_boundary_start_end_of_seq(e);
    } else {
        is_char_boundary_iff_not_is_continuation_byte(e, i);
        let b = e[i];
        assert(b < 0x80);
        utf8_byte_ranges_bitwise(b);
    }
}

proof fn lemma_hex_pairs(e: Seq<u8>, bytes: Seq<u8>, i: int)
    requires
        bytes.len() == 32,
        0 <= i <= 32,
        forall|j: int|
            0 <= j < 32 ==> #[trigger] hex_pair(e, j) == Ok::<u8, HexFault>(bytes[j]),
    ensures
        hex_pairs(e, i) == Ok::<Seq<u8>, HexFault>(bytes.skip(i)),
    decreases 32 - i,
{
    if i < 32 {
        lemma_hex_pairs(e, bytes, i + 1);
        assert(seq![bytes[i]] + bytes.skip(i + 1) =~= bytes.skip(i));
        assert(hex_pair(e, i) == Ok::<u8, HexFault>(bytes[i]));
    } else {
        assert(bytes.skip(32) =~= Seq::empty());
    }
}

proof fn lemma_good_name(name: Seq<char>)
    requires
        first_bad(name) is None,
    ensures
        forall|i: int| 0 <= i < name.len() ==> name_char(#[trigger] name[i]),
    decreases name.len(),
{
    if name.len() > 0 {
        lemma_good_name(name.skip(1));
        assert forall|i: int| 0 <= i < name.len() implies name_char(#[trigger] name[i]) by {
            if i > 0 {
                assert(name[i] == name.skip(1)[i - 1]);
            }
        }
    }
}

proof fn lemma_hex_is_plain(bytes: Seq<u8>)
    ensures
        forall|i: int|
            0 <= i < hex_text(bytes).len() ==> {
                let c = #[trigger] hex_text(bytes)[i];
                ('0' <= c <= '9') || ('a' <= c <= 'f')
            },
{
}

/// A line written for a name and a digest loads as exactly that row.
pub proof fn a_row_line_loads_as_its_row(name: Seq<char>, digest: Seq<u8>)
    requires
        name_fault(name) is None,
        digest.len() == 32,
    ensures
        table_of(row_line(name, digest)) == Ok::<Map<Seq<u8>, Secret>, FileFault>(
            Map::empty().insert(
                encode_utf8(name),
                Secret { mechanism: Mechanism::Plain, value: digest },
            ),
        ),
{
    let gap = "  "@;
    let algorithm = "sha256"@;
    let label = "sha256:"@;
    let h = hex_text(digest);
    let field = label + h;
    let line = row_line(name, digest);
    reveal_strlit("  ");
    reveal_strlit("sha256");
    reveal_strlit("sha256:");
    reveal_strlit("  sha256:");
    reveal_strlit("hmac-sha256-key");
    hex_round_trips(digest);
    lemma_hex_is_plain(digest);
    lemma_good_name(name);
    assert(line =~= name + (gap + field));
    assert(name.len() > 0) by {
        if name.len() == 0 {
            assert(encode_utf8(name).len() == 0);
        }
    }
    // The field.
    assert(forall|i: int| 0 <= i < field.len() ==> !text::white(#[trigger] field[i]));
    text::lemma_run_before_text(algorithm, seq![':'] + h, ':');
    assert(algorithm + (seq![':'] + h) =~= field);
    assert(text::run_before(seq![':'] + h, ':') == 0);
    assert(field.take(6) =~= algorithm);
    assert(field.skip(7) =~= h);
    assert(credential_of(field) == Ok::<Secret, RowFault>(
        Secret { mechanism: Mechanism::Plain, value: digest },
    ));
    // The words of the line.
    text::lemma_word_then_rest(name, gap + field);
    assert((gap + field)[0] == ' ');
    assert(line.skip(0) =~= line);
    assert(line.take(name.len() as int) =~= name);
    assert(line.skip(name.len() as int) =~= gap + field);
    let rest = gap + field;
    text::lemma_white_then_word(gap, field);
    assert(rest.skip(2) =~= field);
    text::lemma_word_then_rest(field, Seq::empty());
    assert(field + Seq::<char>::empty() =~= field);
    assert(field.take(field.len() as int) =~= field);
    assert(field.skip(field.len() as int) =~= Seq::empty());
    let empty = Seq::<char>::empty();
    assert(text::words(empty) =~= Seq::empty()) by {
        assert(empty.skip(0) =~= empty);
    }
    assert(text::words(rest) =~= seq![field] + text::words(empty));
    assert(text::words(line) =~= seq![name] + text::words(rest));
    assert(text::words(line) =~= seq![name, field]);
    // The line itself.
    assert(text::white_run(line) == 0);
    assert(!text::white(line.last())) by {
        assert(line.last() == field.last());
    }
    assert(text::trimmed(line) =~= line);
    assert forall|i: int| 0 <= i < line.len() implies #[trigger] line[i] != '\n' by {
        if i < name.len() {
            assert(line[i] == name[i]);
        } else if i < name.len() + 9 {
        } else {
            assert(line[i] == h[i - name.len() - 9]);
        }
    }
    text::lemma_run_before_absent(line, '\n');
    let one = text::lines(line);
    assert(one =~= seq![line]);
    assert(one[0] == line);
    assert(name_char(line[0]));
    let table = Map::<Seq<u8>, Secret>::empty();
    let row = row_of(line, table);
    assert(row == Ok::<(Seq<u8>, Secret), RowFault>(
        (encode_utf8(name), Secret { mechanism: Mechanism::Plain, value: digest }),
    ));
    assert(rows_from(one, 1, table.insert(row->Ok_0.0, row->Ok_0.1)) == Ok::<
        Map<Seq<u8>, Secret>,
        FileFault,
    >(table.insert(row->Ok_0.0, row->Ok_0.1)));
}

/// Renders the secret for some random bytes, and the credential line for it.
pub fn credential_line(name: &str, random: &[u8; 32]) -> (made: Result<
    (String, String),
    NameError,
>)
    ensures
        match made {
            Err(e) => name_fault(name@) == Some(e),
            Ok((secret, line)) => {
                &&& name_fault(name@) is None
                &&& secret@ == hex_text(random@)
                &&& line@ == row_line(name@, sha256_digest(encode_utf8(secret@)))
                &&& table_of(line@) == Ok::<Map<Seq<u8>, Secret>, FileFault>(
                    Map::empty().insert(
                        encode_utf8(name@),
                        Secret {
                            mechanism: Mechanism::Plain,
                            value: sha256_digest(encode_utf8(secret@)),
                        },
                    ),
                )
            },
        },
{
    match validate_name(name) {
        Ok(_) => {},
        Err(e) => {
            return Err(e);
        },
    }
    let secret = hex(random);
    let digest = sha256(secret.as_str().as_bytes());
    let mut line = name.to_owned();
    line.append("  sha256:");
    line.append(hex(&digest).as_str());
    proof {
        a_row_line_loads_as_its_row(name@, digest@);
    }
    Ok((secret, line))
}

/// Whether a text holds another one.
pub open spec fn holds_text(whole: Seq<char>, part: Seq<char>) -> bool {
    exists|k: int|
        0 <= k <= whole.len() - part.len() && #[trigger] whole.subrange(k, k + part.len()) == part
}

/// The line of a credential does not give its secret away: it holds the secret
/// only where the name does, or where the digest reads as the secret itself.
pub proof fn a_line_does_not_hold_its_secret(name: Seq<char>, random: Seq<u8>, digest: Seq<u8>)
    requires
        random.len() == 32,
        digest.len() == 32,
        !holds_text(name, hex_text(random)),
        hex_text(digest) != hex_text(random),
    ensures
        !holds_text(row_line(name, digest), hex_text(random)),
{
    let secret = hex_text(random);
    let line = row_line(name, digest);
    let n = name.len() as int;
    reveal_strlit("  sha256:");
    assert forall|j: int| 0 <= j < secret.len() implies #[trigger] secret[j] != ' ' && secret[j]
        != ':' by {
        assert(random[j / 2] as int / 16 < 16);
    }
    if holds_text(line, secret) {
        let k = choose|k: int|
            0 <= k <= line.len() - secret.len() && #[trigger] line.subrange(k, k + secret.len())
                == secret;
        let found = line.subrange(k, k + secret.len());
        assert(line[n] == ' ');
        assert(line[n + 8] == ':');
        if k + secret.len() <= n {
            assert(name.subrange(k, k + secret.len()) =~= found);
        } else if k <= n {
            assert(found[n - k] == ' ');
        } else if k <= n + 8 {
            assert(found[n + 8 - k] == ':');
        } else {
            assert(found =~= hex_text(digest));
        }
    }
}

#[verifier::external_type_specification]
#[verifier::external_body]
pub struct ExRandomError(getrandom::Error);

/// `getrandom::fill`: 32 bytes from the system's random source, or its error.
/// Nothing is claimed of the bytes.
#[verifier::external_body]
fn random_bytes() -> (random: Result<[u8; 32], getrandom::Error>) {
    let mut bytes = [0u8; 32];
    getrandom::fill(&mut bytes)?;
    Ok(bytes)
}

/// Why no credential was generated.
#[derive(Debug)]
pub enum GenerateError {
    Name(NameError),
    RandomSource,
}

impl GenerateError {
    pub fn message(&self) -> (out: String)
        ensures
            out@ == match self {
                GenerateError::Name(e) => name_message(*e),
                GenerateError::RandomSource => "reading from the system random source"@,
            },
    {
        match self {
            GenerateError::Name(e) => e.message(),
            GenerateError::RandomSource => "reading from the system random source".to_owned(),
        }
    }
}

/// Generates a secret and renders the credential line for it.
///
/// Returns `(secret, line)`. Whatever the random source gives, the secret is 64
/// hex digits and the line loads as a table in which the name has that secret.
pub fn generate(name: &str) -> (made: Result<(String, String), GenerateError>)
    ensures
        match made {
            Err(GenerateError::Name(e)) => name_fault(name@) == Some(e),
            Err(GenerateError::RandomSource) => name_fault(name@) is None,
            Ok((secret, line)) => {
                &&& name_fault(name@) is None
                &&& secret@.len() == 64
                &&& exists|random: Seq<u8>|
                    random.len() == 32 && secret@ == #[trigger] hex_text(random)
                &&& line@ == row_line(name@, sha256_digest(encode_utf8(secret@)))
                &&& table_of(line@) == Ok::<Map<Seq<u8>, Secret>, FileFault>(
                    Map::empty().insert(
                        encode_utf8(name@),
                        Secret {
                            mechanism: Mechanism::Plain,
                            value: sha256_digest(encode_utf8(secret@)),
                        },
                    ),
                )
            },
        },
{
    match validate_name(name) {
        Ok(_) => {},
        Err(e) => {
            return Err(GenerateError::Name(e));
        },
    }
    match random_bytes() {
        Err(_) => Err(GenerateError::RandomSource),
        Ok(random) => match credential_line(name, &random) {
            Ok(made) => {
                assert(made.0@ == hex_text(random@));
                Ok(made)
            },
            Err(e) => Err(GenerateError::Name(e)),
        },
    }
}

/// A name is good exactly where it has from one to as many characters as a name may
/// have, every one of them a letter, a digit, an underscore, a dot or a dash of ASCII.
/// So it holds nothing that separates the fields of a line.
pub proof fn a_good_name_separates_nothing(name: Seq<char>)
    requires
        name_fault(name) is None,
    ensures
        0 < encode_utf8(name).len() <= MAX_NAME_LEN,
        forall|i: int|
            0 <= i < name.len() ==> (#[trigger] name[i]) as u32 > 0x20 && (name[i] as u32) <= 0x7f
                && name[i] != ':' && name[i] != '#' && name[i] != '$' && name[i] != '/',
    decreases name.len(),
{
    lemma_no_bad(name);
}

proof fn lemma_no_bad(name: Seq<char>)
    requires
        first_bad(name) is None,
    ensures
        forall|i: int| 0 <= i < name.len() ==> name_char(#[trigger] name[i]),
    decreases name.len(),
{
    if name.len() > 0 {
        let rest = name.skip(1);
        lemma_no_bad(rest);
        assert forall|i: int| 0 <= i < name.len() implies name_char(#[trigger] name[i]) by {
            if i > 0 {
                assert(rest[i - 1] == name[i]);
            }
        }
    }
}

/// Every row that loads is verified as a plain secret's digest: a password hash of
/// another making, a key of a mechanism that is not built, and a field that names no
/// algorithm are all refused rather than taken for one.
pub proof fn only_a_digest_loads(field: Seq<char>)
    ensures
        credential_of(field) matches Ok(secret) ==> {
            &&& secret.mechanism == Mechanism::Plain
            &&& field.len() > 7 && field.take(7) == "sha256:"@
            &&& hex32(field.skip(7)) == Ok::<Seq<u8>, HexFault>(secret.value)
        },
        field.len() > 0 && field[0] == '$' ==> credential_of(field) is Err,
{
    reveal_strlit("sha256");
    reveal_strlit("sha256:");
    let k = text::run_before(field, ':') as int;
    if credential_of(field) is Ok {
        text::lemma_run_bounds(field, ':');
        text::lemma_run_ends(field, ':');
        assert(field.take(k).len() == 6);
        assert(field[k] == ':');
        assert(field.take(7) =~= "sha256:"@) by {
            assert forall|i: int| 0 <= i < 7 implies field.take(7)[i] == "sha256:"@[i] by {
                if i < 6 {
                    assert(field.take(k)[i] == "sha256"@[i]);
                }
            }
        }
        if field.len() == 7 {
            assert(field.skip(7) =~= Seq::empty());
        }
    }
}

/// A line is a row exactly where it has two fields, a good name and a digest, and the
/// name is not taken; a row is then what its two fields say.
pub proof fn a_line_is_a_name_and_a_credential(line: Seq<char>, table: Map<Seq<u8>, Secret>)
    ensures
        ({
            let fields = text::words(line);
            row_of(line, table) is Ok <==> fields.len() == 2 && name_fault(fields[0]) is None
                && credential_of(fields[1]) is Ok && !table.contains_key(encode_utf8(fields[0]))
        }),
        row_of(line, table) matches Ok(row) ==> row.0 == encode_utf8(text::words(line)[0])
            && credential_of(text::words(line)[1]) == Ok::<Secret, RowFault>(row.1),
{
}

} // verus!
