//! Text building: the few string operations the rest of the crate renders with.
use vstd::prelude::*;

verus! {

/// `String::push` appends one character to the end of the string.
pub assume_specification[ String::push ](s: &mut String, c: char)
    ensures
        final(s)@ == old(s)@.push(c),
;

/// The character of a decimal digit.
pub open spec fn digit(d: nat) -> char {
    (('0' as u32) + d) as char
}

/// A natural number in decimal, without leading zeros.
pub open spec fn decimal(n: nat) -> Seq<char>
    decreases n,
{
    if n < 10 {
        seq![digit(n)]
    } else {
        decimal(n / 10).push(digit(n % 10))
    }
}

fn digit_char(d: u64) -> (c: char)
    requires
        d < 10,
    ensures
        c == digit(d as nat),
{
    ((48 + d) as u8) as char
}

/// Appends one decimal digit.
pub fn push_digit(out: &mut String, d: u64)
    requires
        d < 10,
    ensures
        final(out)@ == old(out)@.push(digit(d as nat)),
{
    out.push(digit_char(d));
}

/// Appends `n` in decimal.
pub fn push_decimal(out: &mut String, n: u64)
    ensures
        final(out)@ == old(out)@ + decimal(n as nat),
    decreases n,
{
    if n >= 10 {
        push_decimal(out, n / 10);
    }
    out.push(digit_char(n % 10));
    assert(out@ =~= old(out)@ + decimal(n as nat));
}

/// A natural number in octal, without leading zeros.
pub open spec fn octal(n: nat) -> Seq<char>
    decreases n,
{
    if n < 8 {
        seq![digit(n)]
    } else {
        octal(n / 8).push(digit(n % 8))
    }
}

/// Appends `n` in octal.
pub fn push_octal(out: &mut String, n: u64)
    ensures
        final(out)@ == old(out)@ + octal(n as nat),
    decreases n,
{
    if n >= 8 {
        push_octal(out, n / 8);
    }
    out.push(digit_char(n % 8));
    assert(out@ =~= old(out)@ + octal(n as nat));
}

/// `n` in decimal.
pub fn decimal_text(n: u64) -> (out: String)
    ensures
        out@ == decimal(n as nat),
{
    let mut out = String::new();
    push_decimal(&mut out, n);
    assert(out@ =~= decimal(n as nat));
    out
}

/// The characters of a string, as a vector.
pub fn chars_of(s: &str) -> (out: Vec<char>)
    ensures
        out@ == s@,
{
    let mut out: Vec<char> = Vec::new();
    for c in it: s.chars()
        invariant
            out@.len() == it.index(),
            forall|i: int| 0 <= i < out@.len() ==> out@[i] == it.seq()[i],
            it.seq() == s@,
    {
        out.push(c);
    }
    assert(out@ =~= s@);
    out
}

/// The string holding exactly the characters `chars[from..to]`.
pub fn text_between(chars: &[char], from: usize, to: usize) -> (out: String)
    requires
        from <= to <= chars@.len(),
    ensures
        out@ == chars@.subrange(from as int, to as int),
{
    let mut out = String::new();
    let mut i: usize = from;
    while i < to
        invariant
            from <= i <= to <= chars@.len(),
            out@ == chars@.subrange(from as int, i as int),
        decreases to - i,
    {
        out.push(chars[i]);
        i = i + 1;
        assert(out@ =~= chars@.subrange(from as int, i as int));
    }
    out
}

/// Whether a character has the Unicode `White_Space` property.
pub open spec fn white(c: char) -> bool {
    let v = c as u32;
    ||| 0x09 <= v <= 0x0d
    ||| v == 0x20
    ||| v == 0x85
    ||| v == 0xa0
    ||| v == 0x1680
    ||| 0x2000 <= v <= 0x200a
    ||| v == 0x2028
    ||| v == 0x2029
    ||| v == 0x202f
    ||| v == 0x205f
    ||| v == 0x3000
}

fn is_white(c: char) -> (yes: bool)
    ensures
        yes == white(c),
{
    let v: u32 = c as u32;
    (0x09 <= v && v <= 0x0d) || v == 0x20 || v == 0x85 || v == 0xa0 || v == 0x1680 || (0x2000 <= v
        && v <= 0x200a) || v == 0x2028 || v == 0x2029 || v == 0x202f || v == 0x205f || v == 0x3000
}

/// How many characters `s` starts with that are white space.
pub open spec fn white_run(s: Seq<char>) -> nat
    decreases s.len(),
{
    if s.len() > 0 && white(s[0]) {
        1 + white_run(s.skip(1))
    } else {
        0
    }
}

/// How many characters `s` starts with that are not white space.
pub open spec fn word_run(s: Seq<char>) -> nat
    decreases s.len(),
{
    if s.len() > 0 && !white(s[0]) {
        1 + word_run(s.skip(1))
    } else {
        0
    }
}

/// How many characters `s` starts with before the first `sep`.
pub open spec fn run_before(s: Seq<char>, sep: char) -> nat
    decreases s.len(),
{
    if s.len() > 0 && s[0] != sep {
        1 + run_before(s.skip(1), sep)
    } else {
        0
    }
}

/// A leading run is never longer than the text it starts.
pub proof fn lemma_run_bounds(s: Seq<char>, sep: char)
    ensures
        white_run(s) <= s.len(),
        word_run(s) <= s.len(),
        run_before(s, sep) <= s.len(),
    decreases s.len(),
{
    if s.len() > 0 {
        lemma_run_bounds(s.skip(1), sep);
    }
}

/// The character behind a leading run is the one that ends it.
pub(crate) proof fn lemma_run_ends(s: Seq<char>, sep: char)
    ensures
        run_before(s, sep) < s.len() ==> s[run_before(s, sep) as int] == sep,
    decreases s.len(),
{
    if s.len() > 0 && s[0] != sep {
        lemma_run_ends(s.skip(1), sep);
    }
}

/// The maximal runs of characters that are not white space, in order.
pub open spec fn words(s: Seq<char>) -> Seq<Seq<char>>
    decreases s.len(),
{
    proof {
        lemma_run_bounds(s, ' ');
        lemma_run_bounds(s.skip(white_run(s) as int), ' ');
    }
    let t = s.skip(white_run(s) as int);
    if t.len() == 0 {
        Seq::empty()
    } else {
        seq![t.take(word_run(t) as int)] + words(t.skip(word_run(t) as int))
    }
}

/// `s` without the white space it ends in.
pub open spec fn trim_end(s: Seq<char>) -> Seq<char>
    decreases s.len(),
{
    if s.len() > 0 && white(s.last()) {
        trim_end(s.drop_last())
    } else {
        s
    }
}

/// `s` without the white space around it.
pub open spec fn trimmed(s: Seq<char>) -> Seq<char> {
    trim_end(s.skip(white_run(s) as int))
}

/// The pieces of `s` between newlines.
pub open spec fn lines(s: Seq<char>) -> Seq<Seq<char>>
    decreases s.len(),
{
    proof {
        lemma_run_bounds(s, '\n');
    }
    let k = run_before(s, '\n') as int;
    if k == s.len() {
        seq![s]
    } else {
        seq![s.take(k)] + lines(s.skip(k + 1))
    }
}

/// The characters of each string in a vector of them.
pub open spec fn views(v: Seq<Vec<char>>) -> Seq<Seq<char>> {
    Seq::new(v.len(), |i: int| v[i]@)
}

/// The index where the white space starting at `from` ends.
fn skip_white(chars: &[char], from: usize) -> (to: usize)
    requires
        from <= chars@.len(),
    ensures
        to == from + white_run(chars@.skip(from as int)),
        to <= chars@.len(),
{
    let mut i: usize = from;
    while i < chars.len() && is_white(chars[i])
        invariant
            from <= i <= chars@.len(),
            from + white_run(chars@.skip(from as int)) == i + white_run(chars@.skip(i as int)),
        decreases chars@.len() - i,
    {
        assert(chars@.skip(i as int).skip(1) =~= chars@.skip(i + 1));
        i = i + 1;
    }
    i
}

/// The index where the word starting at `from` ends.
fn skip_word(chars: &[char], from: usize) -> (to: usize)
    requires
        from <= chars@.len(),
    ensures
        to == from + word_run(chars@.skip(from as int)),
        to <= chars@.len(),
{
    let mut i: usize = from;
    while i < chars.len() && !is_white(chars[i])
        invariant
            from <= i <= chars@.len(),
            from + word_run(chars@.skip(from as int)) == i + word_run(chars@.skip(i as int)),
        decreases chars@.len() - i,
    {
        assert(chars@.skip(i as int).skip(1) =~= chars@.skip(i + 1));
        i = i + 1;
    }
    i
}

/// The index of the first `sep` at or after `from`, or the length.
pub fn find_from(chars: &[char], from: usize, sep: char) -> (to: usize)
    requires
        from <= chars@.len(),
    ensures
        to == from + run_before(chars@.skip(from as int), sep),
        to <= chars@.len(),
        to < chars@.len() ==> chars@[to as int] == sep,
{
    let mut i: usize = from;
    while i < chars.len() && chars[i] != sep
        invariant
            from <= i <= chars@.len(),
            from + run_before(chars@.skip(from as int), sep) == i + run_before(
                chars@.skip(i as int),
                sep,
            ),
        decreases chars@.len() - i,
    {
        assert(chars@.skip(i as int).skip(1) =~= chars@.skip(i + 1));
        i = i + 1;
    }
    i
}

/// A copy of `chars[from..to]`.
pub fn copy_between(chars: &[char], from: usize, to: usize) -> (out: Vec<char>)
    requires
        from <= to <= chars@.len(),
    ensures
        out@ == chars@.subrange(from as int, to as int),
{
    let mut out: Vec<char> = Vec::new();
    let mut i: usize = from;
    while i < to
        invariant
            from <= i <= to <= chars@.len(),
            out@ == chars@.subrange(from as int, i as int),
        decreases to - i,
    {
        out.push(chars[i]);
        i = i + 1;
        assert(out@ =~= chars@.subrange(from as int, i as int));
    }
    out
}

/// Splits on runs of white space.
pub fn words_of(chars: &[char]) -> (out: Vec<Vec<char>>)
    ensures
        views(out@) == words(chars@),
{
    let mut out: Vec<Vec<char>> = Vec::new();
    let mut i: usize = 0;
    assert(views(out@) + words(chars@.skip(0)) =~= words(chars@)) by {
        assert(chars@.skip(0) =~= chars@);
    }
    while i < chars.len()
        invariant
            i <= chars@.len(),
            views(out@) + words(chars@.skip(i as int)) == words(chars@),
        decreases chars@.len() - i,
    {
        let ghost s = chars@.skip(i as int);
        let start = skip_white(chars, i);
        let ghost t = s.skip(white_run(s) as int);
        assert(t =~= chars@.skip(start as int));
        if start == chars.len() {
            assert(words(s) =~= Seq::empty());
            assert(views(out@) =~= words(chars@));
            return out;
        }
        let end = skip_word(chars, start);
        proof {
            lemma_run_bounds(s, ' ');
            lemma_white_run_stops(s);
            assert(t.skip(word_run(t) as int) =~= chars@.skip(end as int));
            assert(t.take(word_run(t) as int) =~= chars@.subrange(start as int, end as int));
        }
        let ghost before = out@;
        out.push(copy_between(chars, start, end));
        assert(views(out@) =~= views(before).push(t.take(word_run(t) as int)));
        assert(views(out@) + words(chars@.skip(end as int)) =~= views(before) + words(s));
        assert(end > start);
        i = end;
    }
    assert(words(chars@.skip(i as int)) =~= Seq::empty());
    assert(views(out@) =~= words(chars@));
    out
}

proof fn lemma_white_run_stops(s: Seq<char>)
    ensures
        white_run(s) < s.len() ==> !white(s[white_run(s) as int]),
    decreases s.len(),
{
    if s.len() > 0 && white(s[0]) {
        lemma_white_run_stops(s.skip(1));
    }
}

/// The bounds of `chars` without the white space around it.
pub fn trim_bounds(chars: &[char]) -> (bounds: (usize, usize))
    ensures
        bounds.0 <= bounds.1 <= chars@.len(),
        chars@.subrange(bounds.0 as int, bounds.1 as int) == trimmed(chars@),
{
    assert(chars@.skip(0) =~= chars@);
    let from = skip_white(chars, 0);
    let mut to: usize = chars.len();
    let ghost t = chars@.skip(from as int);
    assert(chars@.subrange(from as int, to as int) =~= t);
    while to > from && is_white(chars[to - 1])
        invariant
            from <= to <= chars@.len(),
            trim_end(chars@.subrange(from as int, to as int)) == trim_end(t),
        decreases to,
    {
        let ghost u = chars@.subrange(from as int, to as int);
        assert(u.last() == chars@[to - 1]);
        to = to - 1;
        assert(u.drop_last() =~= chars@.subrange(from as int, to as int));
    }
    let ghost u = chars@.subrange(from as int, to as int);
    assert(u.len() > 0 ==> u.last() == chars@[to - 1]);
    (from, to)
}

/// Splits on newlines.
pub fn lines_of(chars: &[char]) -> (out: Vec<Vec<char>>)
    ensures
        views(out@) == lines(chars@),
{
    let mut out: Vec<Vec<char>> = Vec::new();
    let mut i: usize = 0;
    assert(views(out@) + lines(chars@.skip(0)) =~= lines(chars@)) by {
        assert(chars@.skip(0) =~= chars@);
    }
    loop
        invariant
            i <= chars@.len(),
            views(out@) + lines(chars@.skip(i as int)) == lines(chars@),
        decreases chars@.len() - i,
    {
        let ghost s = chars@.skip(i as int);
        let ghost before = out@;
        let end = find_from(chars, i, '\n');
        out.push(copy_between(chars, i, end));
        assert(chars@.subrange(i as int, end as int) =~= s.take(end - i));
        assert(views(out@) =~= views(before).push(s.take(end - i)));
        if end == chars.len() {
            assert(s.take(end - i) =~= s);
            assert(views(out@) =~= views(before) + lines(s));
            return out;
        }
        assert(s.skip(end - i + 1) =~= chars@.skip(end + 1));
        assert(views(out@) + lines(chars@.skip(end + 1)) =~= views(before) + lines(s));
        i = end + 1;
    }
}

/// Whether two character slices hold the same text.
pub fn same_text(a: &[char], b: &[char]) -> (yes: bool)
    ensures
        yes == (a@ == b@),
{
    if a.len() != b.len() {
        return false;
    }
    let mut i: usize = 0;
    while i < a.len()
        invariant
            i <= a@.len() == b@.len(),
            a@.take(i as int) == b@.take(i as int),
        decreases a@.len() - i,
    {
        if a[i] != b[i] {
            return false;
        }
        assert(a@.take(i + 1) =~= a@.take(i as int).push(a@[i as int]));
        assert(b@.take(i + 1) =~= b@.take(i as int).push(b@[i as int]));
        i = i + 1;
    }
    assert(a@.take(i as int) =~= a@);
    assert(b@.take(i as int) =~= b@);
    true
}

/// Whether two byte slices hold the same bytes.
pub fn same_bytes(a: &[u8], b: &[u8]) -> (yes: bool)
    ensures
        yes == (a@ == b@),
{
    if a.len() != b.len() {
        return false;
    }
    let mut i: usize = 0;
    while i < a.len()
        invariant
            i <= a@.len() == b@.len(),
            a@.take(i as int) == b@.take(i as int),
        decreases a@.len() - i,
    {
        if a[i] != b[i] {
            return false;
        }
        assert(a@.take(i + 1) =~= a@.take(i as int).push(a@[i as int]));
        assert(b@.take(i + 1) =~= b@.take(i as int).push(b@[i as int]));
        i = i + 1;
    }
    assert(a@.take(i as int) =~= a@);
    assert(b@.take(i as int) =~= b@);
    true
}

/// A trimmed text that is not empty holds a word.
pub(crate) proof fn lemma_trimmed_has_words(s: Seq<char>)
    ensures
        trimmed(s).len() > 0 ==> words(trimmed(s)).len() > 0,
{
    let t = s.skip(white_run(s) as int);
    lemma_run_bounds(s, ' ');
    lemma_white_run_stops(s);
    lemma_trim_end_is_prefix(t);
    let u = trimmed(s);
    if u.len() > 0 {
        assert(u[0] == t[0]);
        assert(white_run(u) == 0);
        assert(u.skip(0) =~= u);
    }
}

proof fn lemma_trim_end_is_prefix(s: Seq<char>)
    ensures
        trim_end(s).len() <= s.len(),
        trim_end(s) == s.take(trim_end(s).len() as int),
    decreases s.len(),
{
    if s.len() > 0 && white(s.last()) {
        lemma_trim_end_is_prefix(s.drop_last());
        assert(s.drop_last().take(trim_end(s).len() as int) =~= s.take(trim_end(s).len() as int));
    } else {
        assert(s.take(s.len() as int) =~= s);
    }
}

/// Text without `sep`, followed by more text, runs into that text.
pub(crate) proof fn lemma_run_before_text(w: Seq<char>, rest: Seq<char>, sep: char)
    requires
        forall|i: int| 0 <= i < w.len() ==> #[trigger] w[i] != sep,
    ensures
        run_before(w + rest, sep) == w.len() + run_before(rest, sep),
    decreases w.len(),
{
    let s = w + rest;
    if w.len() > 0 {
        lemma_run_before_text(w.skip(1), rest, sep);
        assert(s.skip(1) =~= w.skip(1) + rest);
        assert(s[0] == w[0]);
    } else {
        assert(s =~= rest);
    }
}

/// Text without `sep` is one run.
pub(crate) proof fn lemma_run_before_absent(s: Seq<char>, sep: char)
    requires
        forall|i: int| 0 <= i < s.len() ==> #[trigger] s[i] != sep,
    ensures
        run_before(s, sep) == s.len(),
{
    lemma_run_before_text(s, Seq::empty(), sep);
    assert(s + Seq::<char>::empty() =~= s);
}

/// A word followed by nothing or by white space ends where it ends.
pub(crate) proof fn lemma_word_then_rest(w: Seq<char>, rest: Seq<char>)
    requires
        forall|i: int| 0 <= i < w.len() ==> !white(#[trigger] w[i]),
        rest.len() > 0 ==> white(rest[0]),
    ensures
        word_run(w + rest) == w.len(),
    decreases w.len(),
{
    let s = w + rest;
    if w.len() > 0 {
        lemma_word_then_rest(w.skip(1), rest);
        assert(s.skip(1) =~= w.skip(1) + rest);
        assert(s[0] == w[0]);
    } else {
        assert(s =~= rest);
    }
}

/// White space followed by nothing or by a word ends where it ends.
pub(crate) proof fn lemma_white_then_word(w: Seq<char>, rest: Seq<char>)
    requires
        forall|i: int| 0 <= i < w.len() ==> white(#[trigger] w[i]),
        rest.len() > 0 ==> !white(rest[0]),
    ensures
        white_run(w + rest) == w.len(),
    decreases w.len(),
{
    let s = w + rest;
    if w.len() > 0 {
        lemma_white_then_word(w.skip(1), rest);
        assert(s.skip(1) =~= w.skip(1) + rest);
        assert(s[0] == w[0]);
    } else {
        assert(s =~= rest);
    }
}

/// A separator occurs exactly where the run before it ends early.
pub(crate) proof fn lemma_run_before_contains(s: Seq<char>, sep: char)
    ensures
        s.contains(sep) <==> run_before(s, sep) < s.len(),
    decreases s.len(),
{
    if s.len() > 0 && s[0] != sep {
        lemma_run_before_contains(s.skip(1), sep);
        if s.contains(sep) {
            let i = choose|i: int| 0 <= i < s.len() && s[i] == sep;
            assert(s.skip(1)[i - 1] == sep);
        }
        if s.skip(1).contains(sep) {
            let i = choose|i: int| 0 <= i < s.skip(1).len() && s.skip(1)[i] == sep;
            assert(s[i + 1] == sep);
        }
    }
}

/// The index of the last `sep`.
pub open spec fn last_index(s: Seq<char>, sep: char) -> Option<nat>
    decreases s.len(),
{
    if s.len() == 0 {
        None
    } else if s.last() == sep {
        Some((s.len() - 1) as nat)
    } else {
        last_index(s.drop_last(), sep)
    }
}

/// The index of the last `sep`.
pub fn find_last(chars: &[char], sep: char) -> (found: Option<usize>)
    ensures
        found is Some <==> last_index(chars@, sep) is Some,
        found is Some ==> found->0 == last_index(chars@, sep)->0 && found->0 < chars@.len(),
{
    let mut end: usize = chars.len();
    assert(chars@.take(chars@.len() as int) =~= chars@);
    while end > 0
        invariant
            end <= chars@.len(),
            last_index(chars@.take(end as int), sep) == last_index(chars@, sep),
        decreases end,
    {
        assert(chars@.take(end as int).last() == chars@[end - 1]);
        if chars[end - 1] == sep {
            return Some(end - 1);
        }
        assert(chars@.take(end as int).drop_last() =~= chars@.take(end - 1));
        end = end - 1;
    }
    None
}

/// Appending is associative.
pub(crate) proof fn lemma_append_associates(a: Seq<char>, b: Seq<char>, c: Seq<char>)
    ensures
        (a + b) + c == a + (b + c),
{
    assert((a + b) + c =~= a + (b + c));
}

/// Where the first space of some bytes is, or where they end.
pub open spec fn first_space(block: Seq<u8>) -> nat
    decreases block.len(),
{
    if block.len() > 0 && block[0] != 0x20 {
        1 + first_space(block.skip(1))
    } else {
        0
    }
}

pub(crate) proof fn lemma_first_space(block: Seq<u8>, i: int)
    requires
        0 <= i <= block.len(),
        forall|j: int| 0 <= j < i ==> #[trigger] block[j] != 0x20,
        i < block.len() ==> block[i] == 0x20,
    ensures
        first_space(block) == i,
    decreases i,
{
    if i > 0 {
        assert forall|j: int| 0 <= j < i - 1 implies #[trigger] block.skip(1)[j] != 0x20 by {
            assert(block.skip(1)[j] == block[j + 1]);
        }
        lemma_first_space(block.skip(1), i - 1);
    }
}

pub(crate) proof fn lemma_at_first_space(block: Seq<u8>)
    ensures
        first_space(block) <= block.len(),
        first_space(block) < block.len() ==> block[first_space(block) as int] == 0x20,
    decreases block.len(),
{
    if block.len() > 0 && block[0] != 0x20 {
        lemma_at_first_space(block.skip(1));
    }
}

pub(crate) proof fn lemma_before_first_space(block: Seq<u8>)
    ensures
        forall|j: int| 0 <= j < first_space(block) && j < block.len() ==> #[trigger] block[j] != 0x20,
    decreases block.len(),
{
    if block.len() > 0 && block[0] != 0x20 {
        let rest = block.skip(1);
        lemma_before_first_space(rest);
        assert forall|j: int| 0 <= j < first_space(block) && j < block.len() implies #[trigger] block[j]
            != 0x20 by {
            if j > 0 {
                assert(rest[j - 1] == block[j]);
            }
        }
    }
}

pub(crate) fn find_space(block: &[u8], from: usize) -> (at: usize)
    requires
        from <= block@.len(),
    ensures
        from <= at <= block@.len(),
        forall|j: int| from <= j < at ==> #[trigger] block@[j] != 0x20,
        at < block@.len() ==> block@[at as int] == 0x20,
{
    let mut i: usize = from;
    while i < block.len() && block[i] != 0x20
        invariant
            from <= i <= block@.len(),
            forall|j: int| from <= j < i ==> #[trigger] block@[j] != 0x20,
        decreases block@.len() - i,
    {
        i = i + 1;
    }
    i
}

} // verus!
