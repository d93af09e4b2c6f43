//! The rope of the `ropey` crate, seen through the sequence of chars it holds.
//!
//! Lines are separated by `'\n'` alone: the crate is built without its
//! `cr_lines` and `unicode_lines` features.
use vstd::prelude::*;
use crate::text::{byte_len, byte_to_line, len_lines, line_chars, line_len_bytes, line_to_byte};

verus! {

#[verifier::external_type_specification]
#[verifier::external_body]
pub struct ExRope(ropey::Rope);

/// The chars that a rope holds.
pub uninterp spec fn rope_text(r: ropey::Rope) -> Seq<char>;

/// `Rope::new`: a rope that holds no char.
#[verifier::external_body]
pub(crate) fn rope_new() -> (r: ropey::Rope)
    ensures
        rope_text(r) == Seq::<char>::empty(),
{
    ropey::Rope::new()
}

/// `Rope::len_chars`: the number of chars.
#[verifier::external_body]
pub(crate) fn rope_len_chars(r: &ropey::Rope) -> (n: usize)
    ensures
        n == rope_text(*r).len(),
{
    r.len_chars()
}

/// `Rope::len_bytes`: the number of bytes of the UTF-8 encoding.
#[verifier::external_body]
pub(crate) fn rope_len_bytes(r: &ropey::Rope) -> (n: usize)
    ensures
        n == byte_len(rope_text(*r)),
{
    r.len_bytes()
}

/// `Rope::len_lines`: one more than the number of `'\n'`.
#[verifier::external_body]
pub(crate) fn rope_len_lines(r: &ropey::Rope) -> (n: usize)
    ensures
        n == len_lines(rope_text(*r)),
{
    r.len_lines()
}

/// `Rope::char`: the char at index `i`; the crate panics past the end.
#[verifier::external_body]
pub(crate) fn rope_char(r: &ropey::Rope, i: usize) -> (c: char)
    requires
        i < rope_text(*r).len(),
    ensures
        c == rope_text(*r)[i as int],
{
    r.char(i)
}

/// `Rope::insert`: puts `chars` before char index `i`; the crate panics when `i` is past the end.
#[verifier::external_body]
pub(crate) fn rope_insert(r: &mut ropey::Rope, i: usize, chars: &[char])
    requires
        i <= rope_text(*old(r)).len(),
    ensures
        rope_text(*final(r)) == rope_text(*old(r)).take(i as int) + chars@ + rope_text(
            *old(r),
        ).skip(i as int),
{
    let s: String = chars.iter().collect();
    r.insert(i, &s)
}

/// `Rope::remove`: takes out the chars at indices `start..end`; the crate panics unless
/// `start <= end <= len_chars`.
#[verifier::external_body]
pub(crate) fn rope_remove(r: &mut ropey::Rope, start: usize, end: usize)
    requires
        start <= end <= rope_text(*old(r)).len(),
    ensures
        rope_text(*final(r)) == rope_text(*old(r)).take(start as int) + rope_text(*old(r)).skip(
            end as int,
        ),
{
    r.remove(start..end)
}

/// `Rope::line_to_byte`: the byte index where line `i` starts; the crate panics when
/// `i > len_lines`.
#[verifier::external_body]
pub(crate) fn rope_line_to_byte(r: &ropey::Rope, i: usize) -> (n: usize)
    requires
        i <= len_lines(rope_text(*r)),
    ensures
        n == line_to_byte(rope_text(*r), i as nat),
{
    r.line_to_byte(i)
}

/// `Rope::byte_to_line`: the line that byte `b` lies on; the crate panics when
/// `b > len_bytes`.
#[verifier::external_body]
pub(crate) fn rope_byte_to_line(r: &ropey::Rope, b: usize) -> (n: usize)
    requires
        b <= byte_len(rope_text(*r)),
    ensures
        n == byte_to_line(rope_text(*r), b as nat),
{
    r.byte_to_line(b)
}

/// `Rope::line`, measured by `RopeSlice::len_bytes`: the UTF-8 length of line `i`, its
/// line break included; the crate panics when `i >= len_lines`.
#[verifier::external_body]
pub(crate) fn rope_line_len_bytes(r: &ropey::Rope, i: usize) -> (n: usize)
    requires
        i < len_lines(rope_text(*r)),
    ensures
        n == line_len_bytes(rope_text(*r), i as nat),
{
    r.line(i).len_bytes()
}

/// `Rope::line`, measured by `RopeSlice::len_chars`: the number of chars of line `i`, its
/// line break included; the crate panics when `i >= len_lines`.
#[verifier::external_body]
pub(crate) fn rope_line_len_chars(r: &ropey::Rope, i: usize) -> (n: usize)
    requires
        i < len_lines(rope_text(*r)),
    ensures
        n == line_chars(rope_text(*r), i as nat).len(),
{
    r.line(i).len_chars()
}

/// `Rope::line`, with its chars collected: the chars of line `i`, its line break
/// included; the crate panics when `i >= len_lines`.
#[verifier::external_body]
pub(crate) fn rope_line(r: &ropey::Rope, i: usize) -> (v: Vec<char>)
    requires
        i < len_lines(rope_text(*r)),
    ensures
        v@ == line_chars(rope_text(*r), i as nat),
{
    r.line(i).chars().collect()
}

} // verus!
