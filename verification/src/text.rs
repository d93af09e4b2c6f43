//! Mathematical model of text: a sequence of chars split into lines by `'\n'`,
//! addressed by char index or by byte index of its UTF-8 encoding.
use vstd::prelude::*;
use vstd::utf8::{encode_scalar, encode_utf8};

verus! {

/// Number of `'\n'` characters in `s`.
pub open spec fn count_nl(s: Seq<char>) -> nat
    decreases s.len(),
{
    if s.len() == 0 {
        0
    } else {
        count_nl(s.drop_last()) + if s.last() == '\n' {
            1nat
        } else {
            0nat
        }
    }
}

/// Number of lines of `s`: one more than the number of line breaks.
pub open spec fn len_lines(s: Seq<char>) -> nat {
    count_nl(s) + 1
}

/// Char index at which line `i` of `s` starts; `s.len()` when `s` has fewer than `i + 1` lines.
pub open spec fn line_start(s: Seq<char>, i: nat) -> nat
    decreases s.len(),
{
    if i == 0 {
        0
    } else if count_nl(s) < i {
        s.len()
    } else if count_nl(s.drop_last()) < i {
        s.len()
    } else {
        line_start(s.drop_last(), i)
    }
}

/// The chars of line `i`, its line break included.
pub open spec fn line_chars(s: Seq<char>, i: nat) -> Seq<char> {
    s.subrange(line_start(s, i) as int, line_start(s, i + 1) as int)
}

/// Number of bytes that `c` takes in UTF-8.
pub open spec fn char_width(c: char) -> nat {
    encode_scalar(c as u32).len()
}

/// Number of bytes of the UTF-8 encoding of `s`.
pub open spec fn byte_len(s: Seq<char>) -> nat {
    encode_utf8(s).len()
}

/// Byte index at which line `i` starts.
pub open spec fn line_to_byte(s: Seq<char>, i: nat) -> nat {
    byte_len(s.take(line_start(s, i) as int))
}

/// Number of bytes of line `i`, its line break included.
pub open spec fn line_len_bytes(s: Seq<char>, i: nat) -> nat {
    byte_len(line_chars(s, i))
}

/// Index of the char that byte `b` belongs to (`s.len()` for a byte at or past the end).
pub open spec fn byte_to_char(s: Seq<char>, b: nat) -> nat
    decreases s.len(),
{
    if s.len() == 0 {
        0
    } else if b < char_width(s[0]) {
        0
    } else {
        1 + byte_to_char(s.drop_first(), (b - char_width(s[0])) as nat)
    }
}

/// Line that byte `b` lies on: the number of line breaks before it.
pub open spec fn byte_to_line(s: Seq<char>, b: nat) -> nat {
    count_nl(s.take(byte_to_char(s, b) as int))
}

/// `s` with its chars in the opposite order.
pub open spec fn reverse(s: Seq<char>) -> Seq<char> {
    Seq::new(s.len(), |i: int| s[s.len() - 1 - i])
}

/// Byte length splits over concatenation.
pub proof fn lemma_byte_len_concat(a: Seq<char>, b: Seq<char>)
    ensures
        byte_len(a + b) == byte_len(a) + byte_len(b),
    decreases a.len(),
{
    if a.len() == 0 {
        assert(a + b =~= b);
    } else {
        assert((a + b).drop_first() =~= a.drop_first() + b);
        lemma_byte_len_concat(a.drop_first(), b);
    }
}

/// The byte length of a prefix is at most that of the whole.
pub proof fn lemma_byte_len_take(s: Seq<char>, k: int)
    requires
        0 <= k <= s.len(),
    ensures
        byte_len(s.take(k)) <= byte_len(s),
        k <= byte_len(s.take(k)),
{
    assert(s =~= s.take(k) + s.skip(k));
    lemma_byte_len_concat(s.take(k), s.skip(k));
    lemma_byte_len_ge_len(s.take(k));
}

/// Every char takes at least one byte.
pub proof fn lemma_byte_len_ge_len(s: Seq<char>)
    ensures
        s.len() <= byte_len(s),
    decreases s.len(),
{
    if s.len() > 0 {
        lemma_byte_len_ge_len(s.drop_first());
    }
}

/// Line break counts split over concatenation.
pub proof fn lemma_count_nl_concat(a: Seq<char>, b: Seq<char>)
    ensures
        count_nl(a + b) == count_nl(a) + count_nl(b),
    decreases b.len(),
{
    if b.len() == 0 {
        assert(a + b =~= a);
    } else {
        assert((a + b).drop_last() =~= a + b.drop_last());
        lemma_count_nl_concat(a, b.drop_last());
    }
}

/// A prefix holds at most the line breaks of the whole.
pub proof fn lemma_count_nl_take(s: Seq<char>, k: int)
    requires
        0 <= k <= s.len(),
    ensures
        count_nl(s.take(k)) <= count_nl(s),
{
    assert(s =~= s.take(k) + s.skip(k));
    lemma_count_nl_concat(s.take(k), s.skip(k));
}

/// A line starts within the text.
pub proof fn lemma_line_start_le_len(s: Seq<char>, i: nat)
    ensures
        line_start(s, i) <= s.len(),
    decreases s.len(),
{
    if i != 0 && count_nl(s) >= i && count_nl(s.drop_last()) >= i {
        lemma_line_start_le_len(s.drop_last(), i);
    }
}

/// The line that holds char index `c` starts at or before it.
pub proof fn lemma_line_start_le_char(t: Seq<char>, c: nat)
    requires
        c <= t.len(),
    ensures
        line_start(t, count_nl(t.take(c as int))) <= c,
    decreases t.len(),
{
    let i = count_nl(t.take(c as int));
    if i == 0 {
    } else if c == t.len() {
        lemma_line_start_le_len(t, i);
    } else {
        assert(t.take(c as int) =~= t.drop_last().take(c as int));
        lemma_count_nl_take(t, c as int);
        lemma_count_nl_take(t.drop_last(), c as int);
        lemma_line_start_le_char(t.drop_last(), c);
    }
}

/// The char that byte `b` belongs to starts at or before `b`, and is within the text.
pub proof fn lemma_byte_to_char_le(t: Seq<char>, b: nat)
    ensures
        byte_to_char(t, b) <= t.len(),
        byte_len(t.take(byte_to_char(t, b) as int)) <= b,
    decreases t.len(),
{
    if t.len() == 0 {
        assert(t.take(0) =~= Seq::<char>::empty());
        assert(byte_len(Seq::<char>::empty()) == 0);
    } else if b < char_width(t[0]) {
        assert(t.take(0) =~= Seq::<char>::empty());
        assert(byte_len(Seq::<char>::empty()) == 0);
    } else {
        let w = char_width(t[0]);
        let r = t.drop_first();
        let k = byte_to_char(r, (b - w) as nat);
        lemma_byte_to_char_le(r, (b - w) as nat);
        assert(t.take(1 + k as int) =~= seq![t[0]] + r.take(k as int));
        lemma_byte_len_concat(seq![t[0]], r.take(k as int));
        assert(seq![t[0]].drop_first() =~= Seq::<char>::empty());
        assert(encode_utf8(Seq::<char>::empty()) =~= Seq::<u8>::empty());
        assert(encode_utf8(seq![t[0]]) == encode_scalar(t[0] as u32) + encode_utf8(
            Seq::<char>::empty(),
        ));
        assert(encode_scalar(t[0] as u32) + Seq::<u8>::empty() =~= encode_scalar(t[0] as u32));
        assert(byte_len(seq![t[0]]) == w);
        assert(byte_to_char(t, b) == 1 + k);
    }
}

/// Byte lengths of prefixes grow with the prefix.
pub proof fn lemma_byte_len_take_mono(t: Seq<char>, a: int, b: int)
    requires
        0 <= a <= b <= t.len(),
    ensures
        byte_len(t.take(a)) <= byte_len(t.take(b)),
{
    assert(t.take(b) =~= t.take(a) + t.take(b).skip(a));
    lemma_byte_len_concat(t.take(a), t.take(b).skip(a));
}

/// The line that a byte lies on starts at or before it, and exists.
pub proof fn lemma_byte_to_line_start(t: Seq<char>, pos: nat)
    ensures
        byte_to_line(t, pos) < len_lines(t),
        line_to_byte(t, byte_to_line(t, pos)) <= pos,
{
    let c = byte_to_char(t, pos);
    lemma_byte_to_char_le(t, pos);
    lemma_count_nl_take(t, c as int);
    lemma_line_start_le_char(t, c);
    lemma_byte_len_take_mono(t, line_start(t, byte_to_line(t, pos)) as int, c as int);
}

/// Lines start in order: a line that ends with a line break is followed by one that
/// starts after it.
pub proof fn lemma_line_start_strict(s: Seq<char>, i: nat)
    requires
        i < count_nl(s),
    ensures
        line_start(s, i) < line_start(s, i + 1),
    decreases s.len(),
{
    if count_nl(s.drop_last()) < i + 1 {
        if i > 0 {
            lemma_line_start_le_len(s.drop_last(), i);
        }
    } else {
        lemma_line_start_strict(s.drop_last(), i);
    }
}

/// Lines start in order.
pub proof fn lemma_line_start_mono(s: Seq<char>, i: nat)
    ensures
        line_start(s, i) <= line_start(s, i + 1),
{
    if i < count_nl(s) {
        lemma_line_start_strict(s, i);
    } else {
        lemma_line_start_le_len(s, i);
    }
}

/// A line ends where the bytes of its text end: its start plus its UTF-8 length is the
/// start of the next line, within the text.
pub proof fn lemma_line_bytes_within(s: Seq<char>, i: nat)
    ensures
        line_to_byte(s, i) + line_len_bytes(s, i) == line_to_byte(s, i + 1),
        line_to_byte(s, i + 1) <= byte_len(s),
        line_chars(s, i).len() <= line_len_bytes(s, i),
{
    let a = line_start(s, i) as int;
    let b = line_start(s, i + 1) as int;
    lemma_line_start_mono(s, i);
    lemma_line_start_le_len(s, i + 1);
    assert(s.take(b) =~= s.take(a) + s.subrange(a, b));
    lemma_byte_len_concat(s.take(a), s.subrange(a, b));
    lemma_byte_len_take(s, b);
    lemma_byte_len_ge_len(s.subrange(a, b));
}

/// Every line but the last one holds at least its line break.
pub proof fn lemma_line_not_last_nonempty(s: Seq<char>, i: nat)
    requires
        i + 1 < len_lines(s),
    ensures
        line_chars(s, i).len() >= 1,
{
    lemma_line_start_strict(s, i);
    lemma_line_start_le_len(s, i + 1);
}

/// Taking one char out removes at most one line break.
pub proof fn lemma_count_nl_remove_one(t: Seq<char>, p: int)
    requires
        0 <= p < t.len(),
    ensures
        count_nl(t.take(p) + t.skip(p + 1)) + 1 >= count_nl(t),
{
    let single = t.subrange(p, p + 1);
    assert(t =~= t.take(p) + single + t.skip(p + 1));
    lemma_count_nl_concat(t.take(p) + single, t.skip(p + 1));
    lemma_count_nl_concat(t.take(p), single);
    lemma_count_nl_concat(t.take(p), t.skip(p + 1));
    assert(single.drop_last() =~= Seq::<char>::empty());
    assert(count_nl(Seq::<char>::empty()) == 0);
    assert(count_nl(single) <= 1);
}

/// Line `i`, for `0 < i <= count_nl(s)`, starts just after a line break, with `i` line
/// breaks before it.
pub proof fn lemma_line_start_break(s: Seq<char>, i: nat)
    requires
        0 < i <= count_nl(s),
    ensures
        0 < line_start(s, i) <= s.len(),
        s[line_start(s, i) - 1] == '\n',
        count_nl(s.take(line_start(s, i) as int)) == i,
    decreases s.len(),
{
    assert(s.take(s.len() as int) =~= s);
    if count_nl(s.drop_last()) < i {
        assert(s.last() == '\n');
    } else {
        lemma_line_start_break(s.drop_last(), i);
        let q = line_start(s.drop_last(), i);
        assert(s.drop_last().take(q as int) =~= s.take(q as int));
    }
}

/// The index just after the `i`-th line break is where line `i` starts.
pub proof fn lemma_line_start_unique(s: Seq<char>, i: nat, q: nat)
    requires
        0 < i,
        0 < q <= s.len(),
        s[q - 1] == '\n',
        count_nl(s.take(q as int)) == i,
    ensures
        line_start(s, i) == q,
    decreases s.len(),
{
    lemma_count_nl_take(s, q as int);
    let d = s.drop_last();
    if q < s.len() {
        assert(d.take(q as int) =~= s.take(q as int));
        lemma_count_nl_take(d, q as int);
        lemma_line_start_unique(d, i, q);
    } else {
        assert(s.take(q as int) =~= s);
        assert(s.last() == '\n');
    }
}

/// Lines start in order.
pub proof fn lemma_line_start_mono_le(s: Seq<char>, a: nat, b: nat)
    requires
        a <= b,
    ensures
        line_start(s, a) <= line_start(s, b),
    decreases b - a,
{
    if a < b {
        lemma_line_start_mono_le(s, a, (b - 1) as nat);
        lemma_line_start_mono(s, (b - 1) as nat);
    }
}

/// A text that agrees with `s` up to `p` has the same start for each line of `s` that
/// starts at or before `p`.
pub proof fn lemma_line_start_prefix(s: Seq<char>, s1: Seq<char>, p: nat, k: nat)
    requires
        k <= count_nl(s),
        line_start(s, k) <= p <= s.len(),
        p <= s1.len(),
        s1.take(p as int) == s.take(p as int),
    ensures
        line_start(s1, k) == line_start(s, k),
{
    if k > 0 {
        lemma_line_start_break(s, k);
        let q = line_start(s, k);
        assert(s1.take(q as int) =~= s1.take(p as int).take(q as int));
        assert(s.take(q as int) =~= s.take(p as int).take(q as int));
        assert(s1[q - 1] == s1.take(p as int)[q - 1]);
        assert(s[q - 1] == s.take(p as int)[q - 1]);
        lemma_line_start_unique(s1, k, q);
    }
}

} // verus!
