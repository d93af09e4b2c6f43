//! Pattern search in a rope with a bad-match table: the text is scanned from a start
//! index forwards or backwards, and after a mismatch the scan skips by the distance
//! that the table gives for the mismatched text char.
use vstd::prelude::*;
use std::collections::HashMap;
use crate::chars::{char_is_ascii_whitespace, is_ascii_ws, str_chars};
use crate::rope::{rope_char, rope_len_chars, rope_text};
use crate::text::byte_len;

verus! {

broadcast use vstd::std_specs::hash::group_hash_axioms;

/// The direction of a search.
pub enum SearchOrder {
    Next,
    Prev,
}

/// At least one.
pub open spec fn at_least_one(n: int) -> int {
    if n < 1 {
        1
    } else {
        n
    }
}

/// The table built from the first `k` chars of `p`, whose UTF-8 length is `pl`: each char
/// is mapped to its backward and forward shift, a later occurrence replacing an earlier one.
pub open spec fn bad_match_prefix(p: Seq<char>, pl: nat, k: nat) -> Map<u32, (usize, usize)>
    decreases k,
{
    if k == 0 {
        Map::empty()
    } else {
        bad_match_prefix(p, pl, (k - 1) as nat).insert(
            p[k - 1] as u32,
            (at_least_one(k - 1) as usize, at_least_one(pl - k) as usize),
        )
    }
}

/// The bad-match table of pattern `p`.
pub open spec fn bad_match(p: Seq<char>) -> Map<u32, (usize, usize)> {
    bad_match_prefix(p, byte_len(p), p.len())
}

/// Distance to skip forwards after a mismatch on text char `c`.
pub open spec fn forward_skip(tab: Map<u32, (usize, usize)>, c: char, pl: nat) -> nat {
    if tab.contains_key(c as u32) {
        tab[c as u32].1 as nat
    } else if is_ascii_ws(c) {
        1
    } else {
        pl
    }
}

/// Distance to skip backwards after a mismatch on text char `c`.
pub open spec fn backward_skip(tab: Map<u32, (usize, usize)>, c: char, pl: nat) -> nat {
    if tab.contains_key(c as u32) {
        tab[c as u32].0 as nat
    } else if is_ascii_ws(c) {
        1
    } else {
        pl
    }
}

/// Outcome of comparing the pattern with the text at one index.
pub enum Scan {
    /// Every compared char matched.
    Match,
    /// A char differed; the scan moves on by this distance.
    Skip(nat),
    /// The pattern has fewer chars than its UTF-8 length, and a compared index fell past
    /// its end: the search gives up.
    Stop,
}

/// Compares pattern chars `i - 1` down to `0` with the text chars at `idx + i - 1` down
/// to `idx`.
pub open spec fn scan_next(t: Seq<char>, p: Seq<char>, idx: nat, i: nat) -> Scan
    decreases i,
{
    if i == 0 {
        Scan::Match
    } else {
        let k = (i - 1) as nat;
        if k >= p.len() {
            Scan::Stop
        } else if t[(idx + k) as int] != p[k as int] {
            Scan::Skip(forward_skip(bad_match(p), t[(idx + k) as int], byte_len(p)))
        } else {
            scan_next(t, p, idx, k)
        }
    }
}

/// Compares the pattern, first char first, with the text chars that end at `idx`: the
/// `i` of them that are compared last are the pattern chars `pl - i` on.
pub open spec fn scan_prev(t: Seq<char>, p: Seq<char>, idx: nat, i: nat) -> Scan
    decreases i,
{
    if i == 0 {
        Scan::Match
    } else {
        let k = (i - 1) as nat;
        let j = byte_len(p) - k - 1;
        if j >= p.len() {
            Scan::Stop
        } else if t[idx - k] != p[j] {
            Scan::Skip(backward_skip(bad_match(p), t[idx - k], byte_len(p)))
        } else {
            scan_prev(t, p, idx, k)
        }
    }
}

/// Text chars that remain at and after `idx`.
pub open spec fn remaining(t: Seq<char>, idx: nat) -> nat {
    if idx <= t.len() {
        (t.len() - idx) as nat
    } else {
        0
    }
}

/// The forward search from `idx`: the first index reached by the skips at which the
/// pattern matches, with the index of its last char.
pub open spec fn search_next_from(t: Seq<char>, p: Seq<char>, idx: nat) -> Option<(nat, nat)>
    decreases remaining(t, idx),
{
    let pl = byte_len(p);
    if idx + pl > t.len() || pl == 0 {
        None
    } else {
        match scan_next(t, p, idx, pl) {
            Scan::Match => Some((idx, (idx + pl - 1) as nat)),
            Scan::Stop => None,
            Scan::Skip(s) => if s == 0 {
                None
            } else {
                search_next_from(t, p, idx + s)
            },
        }
    }
}

/// The backward search from `idx`: the first index reached by the skips at which a match
/// of the pattern ends, with the index where that match starts.
pub open spec fn search_prev_from(t: Seq<char>, p: Seq<char>, idx: nat) -> Option<(nat, nat)>
    decreases idx,
{
    let pl = byte_len(p);
    if idx + 1 < pl || pl == 0 {
        None
    } else {
        match scan_prev(t, p, idx, pl) {
            Scan::Match => Some(((idx + 1 - pl) as nat, idx)),
            Scan::Stop => None,
            Scan::Skip(s) => if s == 0 || idx < s {
                None
            } else {
                search_prev_from(t, p, (idx - s) as nat)
            },
        }
    }
}

/// The index at which a search starts: `start`, or the last char when `start` is past it.
pub open spec fn search_start(t: Seq<char>, start: nat) -> nat {
    if start >= t.len() {
        (t.len() - 1) as nat
    } else {
        start
    }
}

/// The result of a search in either direction.
pub open spec fn search_spec(t: Seq<char>, p: Seq<char>, start: nat, order: SearchOrder) -> Option<
    (nat, nat),
> {
    match order {
        SearchOrder::Next => search_next_from(t, p, search_start(t, start)),
        SearchOrder::Prev => search_prev_from(t, p, search_start(t, start)),
    }
}

/// Whether the chars of `t` from `a` to `b` (both included) are exactly `p`.
pub open spec fn matches_at(t: Seq<char>, p: Seq<char>, a: nat, b: nat) -> bool {
    &&& a <= b < t.len()
    &&& t.subrange(a as int, b + 1 as int) == p
}

/// Every shift of the table is at least one and at most the pattern's UTF-8 length.
proof fn lemma_bad_match_positive(p: Seq<char>, pl: nat, k: nat)
    requires
        k <= p.len() <= pl <= usize::MAX,
    ensures
        forall|c: u32| #[trigger]
            bad_match_prefix(p, pl, k).contains_key(c) ==> 1 <= bad_match_prefix(p, pl, k)[c].0
                <= pl && 1 <= bad_match_prefix(p, pl, k)[c].1 <= pl,
    decreases k,
{
    if k > 0 {
        lemma_bad_match_positive(p, pl, (k - 1) as nat);
        let a = at_least_one(k - 1);
        let b = at_least_one(pl - k);
        assert(a as usize == a);
        assert(b as usize == b);
        let m = bad_match_prefix(p, pl, (k - 1) as nat);
        let key = p[k - 1] as u32;
        assert(bad_match_prefix(p, pl, k) == m.insert(key, (a as usize, b as usize)));
        assert forall|c: u32| #[trigger] bad_match_prefix(p, pl, k).contains_key(c) implies 1
            <= bad_match_prefix(p, pl, k)[c].0 <= pl && 1 <= bad_match_prefix(p, pl, k)[c].1
            <= pl by {
            if c != key {
                assert(m.contains_key(c));
            }
        }
    }
}

/// A full forward comparison that matched saw equal chars at every compared index.
proof fn lemma_scan_next_match(t: Seq<char>, p: Seq<char>, idx: nat, i: nat)
    requires
        scan_next(t, p, idx, i) is Match,
    ensures
        i <= p.len(),
        forall|k: int| 0 <= k < i ==> #[trigger] t[idx + k] == p[k],
    decreases i,
{
    if i > 0 {
        lemma_scan_next_match(t, p, idx, (i - 1) as nat);
    }
}

/// A full backward comparison that matched saw equal chars at every compared index.
proof fn lemma_scan_prev_match(t: Seq<char>, p: Seq<char>, idx: nat, i: nat)
    requires
        scan_prev(t, p, idx, i) is Match,
        i <= byte_len(p),
    ensures
        i > 0 ==> byte_len(p) <= p.len(),
        forall|k: int| 0 <= k < i ==> #[trigger] t[idx - k] == p[byte_len(p) - k - 1],
    decreases i,
{
    if i > 0 {
        lemma_scan_prev_match(t, p, idx, (i - 1) as nat);
    }
}

/// Soundness of the forward search: what it finds is an occurrence of the pattern that
/// starts at or after the index the search started from.
pub proof fn law_search_next_sound(t: Seq<char>, p: Seq<char>, idx: nat)
    ensures
        search_next_from(t, p, idx) matches Some((a, b)) ==> idx <= a && matches_at(t, p, a, b),
    decreases remaining(t, idx),
{
    let pl = byte_len(p);
    if idx + pl > t.len() || pl == 0 {
    } else {
        match scan_next(t, p, idx, pl) {
            Scan::Match => {
                lemma_scan_next_match(t, p, idx, pl);
                crate::text::lemma_byte_len_ge_len(p);
                assert(t.subrange(idx as int, (idx + pl) as int) =~= p) by {
                    assert forall|k: int| 0 <= k < pl implies t.subrange(idx as int, (idx + pl) as int)[k]
                        == p[k] by {
                        assert(t[idx + k] == p[k]);
                    }
                }
            },
            Scan::Stop => {},
            Scan::Skip(s) => {
                if s != 0 {
                    law_search_next_sound(t, p, idx + s);
                }
            },
        }
    }
}

/// Soundness of the backward search: what it finds is an occurrence of the pattern that
/// ends at or before the index the search started from.
pub proof fn law_search_prev_sound(t: Seq<char>, p: Seq<char>, idx: nat)
    requires
        idx < t.len(),
    ensures
        search_prev_from(t, p, idx) matches Some((a, b)) ==> b <= idx && matches_at(t, p, a, b),
    decreases idx,
{
    let pl = byte_len(p);
    if idx + 1 < pl || pl == 0 {
    } else {
        match scan_prev(t, p, idx, pl) {
            Scan::Match => {
                lemma_scan_prev_match(t, p, idx, pl);
                crate::text::lemma_byte_len_ge_len(p);
                let a: int = idx + 1 - pl;
                assert(t.subrange(a, (idx + 1) as int) =~= p) by {
                    assert forall|j: int| 0 <= j < pl implies t.subrange(a, (idx + 1) as int)[j] == p[j] by {
                        let k = pl - 1 - j;
                        assert(t[idx - k] == p[pl - k - 1]);
                    }
                }
            },
            Scan::Stop => {},
            Scan::Skip(s) => {
                if s != 0 && idx >= s {
                    law_search_prev_sound(t, p, (idx - s) as nat);
                }
            },
        }
    }
}

/// Soundness of a search: a range that `SearchRegistry::search` answers holds exactly
/// the pattern, forwards at or after the start and backwards at or before it.
pub proof fn law_search_sound(t: Seq<char>, p: Seq<char>, start: nat, order: SearchOrder)
    requires
        t.len() > 0,
    ensures
        search_spec(t, p, start, order) matches Some((a, b)) ==> matches_at(t, p, a, b),
        order is Next ==> (search_spec(t, p, start, order) matches Some((a, b)) ==> search_start(
            t,
            start,
        ) <= a),
        order is Prev ==> (search_spec(t, p, start, order) matches Some((a, b)) ==> b
            <= search_start(t, start)),
{
    law_search_next_sound(t, p, search_start(t, start));
    law_search_prev_sound(t, p, search_start(t, start));
}

/// A char that does not occur in the pattern has no entry in its table.
pub proof fn lemma_absent_not_in_table(p: Seq<char>, pl: nat, k: nat, c: char)
    requires
        k <= p.len(),
        forall|m: int| 0 <= m < k ==> p[m] != c,
    ensures
        !bad_match_prefix(p, pl, k).contains_key(c as u32),
    decreases k,
{
    if k > 0 {
        lemma_absent_not_in_table(p, pl, (k - 1) as nat, c);
        let d = p[k - 1];
        assert(d != c);
        if (d as u32) == (c as u32) {
            vstd::utf8::char_u32_cast(d, d as u32);
            vstd::utf8::char_u32_cast(c, c as u32);
        }
    }
}

/// The forward comparison at `idx` stops at its right-most mismatch `j`.
proof fn lemma_scan_next_mismatch(t: Seq<char>, p: Seq<char>, idx: nat, i: nat, j: nat)
    requires
        j < i <= p.len(),
        idx + p.len() <= t.len(),
        t[(idx + j) as int] != p[j as int],
        forall|k: int| j < k < i ==> t[idx + k] == p[k],
    ensures
        scan_next(t, p, idx, i) == Scan::Skip(forward_skip(bad_match(p), t[(idx + j) as int], byte_len(p))),
    decreases i,
{
    if i - 1 > j {
        lemma_scan_next_mismatch(t, p, idx, (i - 1) as nat, j);
    }
}

/// The backward comparison of the chars that end at `idx` stops at its left-most
/// mismatch `j` of the pattern.
proof fn lemma_scan_prev_mismatch(t: Seq<char>, p: Seq<char>, idx: nat, i: nat, j: nat)
    requires
        byte_len(p) == p.len(),
        p.len() <= idx + 1,
        idx < t.len(),
        p.len() - i <= j < p.len(),
        t[idx + 1 - p.len() + j as int] != p[j as int],
        forall|m: int| p.len() - i <= m < j ==> t[idx + 1 - p.len() + m] == p[m],
    ensures
        scan_prev(t, p, idx, i) == Scan::Skip(
            backward_skip(bad_match(p), t[idx + 1 - p.len() + j as int], byte_len(p)),
        ),
    decreases i,
{
    let k = (i - 1) as nat;
    let jj = p.len() - k - 1;
    assert(idx - k == idx + 1 - p.len() + jj);
    if jj < j {
        lemma_scan_prev_mismatch(t, p, idx, (i - 1) as nat, j);
    }
}

/// Forward skip law: when the pattern, compared from its end at `idx`, first differs on
/// a text char that is ASCII whitespace and occurs nowhere in the pattern, the search
/// goes on at the next index, so an occurrence that begins just after that char is still
/// found. The pattern's chars take one byte each.
pub proof fn law_search_next_space_skip(t: Seq<char>, p: Seq<char>, idx: nat, j: nat)
    requires
        byte_len(p) == p.len(),
        j < p.len(),
        idx + p.len() <= t.len(),
        t[(idx + j) as int] != p[j as int],
        forall|k: int| j < k < p.len() ==> t[idx + k] == p[k],
        is_ascii_ws(t[(idx + j) as int]),
        !p.contains(t[(idx + j) as int]),
    ensures
        search_next_from(t, p, idx) == search_next_from(t, p, idx + 1),
{
    lemma_scan_next_mismatch(t, p, idx, p.len(), j);
    lemma_absent_not_in_table(p, byte_len(p), p.len(), t[(idx + j) as int]);
}

/// Backward skip law: when the pattern, compared from its start with the chars that end
/// at `idx`, first differs on a text char that is ASCII whitespace and occurs nowhere in
/// the pattern, the search goes on at the index before, so an occurrence that ends just
/// before that char is still found. The pattern's chars take one byte each.
pub proof fn law_search_prev_space_skip(t: Seq<char>, p: Seq<char>, idx: nat, j: nat)
    requires
        byte_len(p) == p.len(),
        j < p.len() <= idx,
        idx < t.len(),
        t[idx + 1 - p.len() + j as int] != p[j as int],
        forall|m: int| 0 <= m < j ==> t[idx + 1 - p.len() + m] == p[m],
        is_ascii_ws(t[idx + 1 - p.len() + j as int]),
        !p.contains(t[idx + 1 - p.len() + j as int]),
    ensures
        search_prev_from(t, p, idx) == search_prev_from(t, p, (idx - 1) as nat),
{
    lemma_scan_prev_mismatch(t, p, idx, p.len(), j);
    lemma_absent_not_in_table(p, byte_len(p), p.len(), t[idx + 1 - p.len() + j as int]);
}

/// A pattern and its bad-match table.
pub struct SearchRegistry {
    pattern: String,
    bad_match_table: HashMap<u32, (usize, usize)>,
}

impl SearchRegistry {
    /// The chars of the pattern.
    pub closed spec fn pattern(&self) -> Seq<char> {
        self.pattern@
    }

    /// The table always is the one that the pattern gives.
    pub closed spec fn wf(&self) -> bool {
        &&& self.bad_match_table@ == bad_match(self.pattern@)
        &&& byte_len(self.pattern@) <= usize::MAX
    }

    /// Number of chars of the pattern.
    pub fn pattern_chars(&self) -> (n: usize)
        ensures
            n == self.pattern().len(),
    {
        str_chars(self.pattern.as_str()).len()
    }

    /// UTF-8 length of the pattern.
    pub fn pattern_len(&self) -> (n: usize)
        requires
            self.wf(),
        ensures
            n == byte_len(self.pattern()),
    {
        self.pattern.as_str().len()
    }

    /// The registry of `pattern`, which must not be empty.
    pub fn new(pattern: String) -> (r: Self)
        requires
            pattern@.len() > 0,
            byte_len(pattern@) <= usize::MAX,
        ensures
            r.wf(),
            r.pattern() == pattern@,
    {
        let pl = pattern.as_str().len();
        let chars = str_chars(pattern.as_str());
        proof {
            crate::text::lemma_byte_len_ge_len(pattern@);
        }
        let mut table: HashMap<u32, (usize, usize)> = HashMap::new();
        let n = chars.len();
        let mut i: usize = 0;
        while i < n
            invariant
                chars@ == pattern@,
                n == chars@.len(),
                pl == byte_len(pattern@),
                n <= pl,
                i <= n,
                table@ == bad_match_prefix(pattern@, pl as nat, i as nat),
            decreases n - i,
        {
            let c = chars[i];
            let back: usize = if i < 1 { 1 } else { i };
            let fwd: usize = if pl - i - 1 < 1 { 1 } else { pl - i - 1 };
            table.insert(c as u32, (back, fwd));
            i = i + 1;
        }
        SearchRegistry { pattern, bad_match_table: table }
    }

    /// Searches `text` from `start_pos` (the last char when it is past the end) for the
    /// pattern, forwards or backwards, and answers the indices of the first and last char
    /// of the match found. Text and pattern must not be empty, and a forward search needs
    /// a pattern no longer than the text, whose skip distances would underflow otherwise.
    pub fn search(&self, text: &ropey::Rope, start_pos: usize, order: SearchOrder) -> (r: Option<
        (usize, usize),
    >)
        requires
            self.wf(),
            rope_text(*text).len() > 0,
            self.pattern().len() > 0,
            order is Next ==> byte_len(self.pattern()) <= rope_text(*text).len(),
        ensures
            r matches Some((a, b)) ==> search_spec(
                rope_text(*text),
                self.pattern(),
                start_pos as nat,
                order,
            ) == Some((a as nat, b as nat)),
            r is None ==> search_spec(rope_text(*text), self.pattern(), start_pos as nat, order)
                is None,
    {
        let len = rope_len_chars(text);
        let index = if start_pos >= len {
            len - 1
        } else {
            start_pos
        };
        match order {
            SearchOrder::Next => self.search_next(text, index),
            SearchOrder::Prev => self.search_prev(text, index),
        }
    }

    /// Compares the pattern with the text at `index`, last char first.
    fn scan_forward(&self, text: &ropey::Rope, pchars: &Vec<char>, pattern_len: usize, index: usize) -> (r: ScanOutcome)
        requires
            self.wf(),
            pchars@ == self.pattern(),
            self.pattern().len() > 0,
            pattern_len == byte_len(self.pattern()),
            index + pattern_len <= rope_text(*text).len(),
        ensures
            r@ == scan_next(rope_text(*text), self.pattern(), index as nat, pattern_len as nat),
            r matches ScanOutcome::Skip(s) ==> 1 <= s <= pattern_len,
    {
        proof {
            crate::text::lemma_byte_len_ge_len(self.pattern());
            lemma_bad_match_positive(self.pattern(), pattern_len as nat, self.pattern().len());
        }
        let ghost t = rope_text(*text);
        let ghost p = self.pattern();
        let len = rope_len_chars(text);
        let mut i: usize = pattern_len;
        while i > 0
            invariant
                self.wf(),
                t == rope_text(*text),
                p == self.pattern(),
                pchars@ == p,
                pattern_len == byte_len(p),
                len == t.len(),
                index + pattern_len <= t.len(),
                i <= pattern_len,
                0 < pattern_len,
                forall|c: u32| #[trigger] bad_match(p).contains_key(c) ==> 1 <= bad_match(p)[c].1 <= pattern_len,
                scan_next(t, p, index as nat, pattern_len as nat) == scan_next(t, p, index as nat, i as nat),
            decreases i,
        {
            let k = i - 1;
            let c_text = rope_char(text, index + k);
            if k >= pchars.len() {
                return ScanOutcome::Stop;
            }
            if c_text != pchars[k] {
                let skips = match self.bad_match_table.get(&(c_text as u32)) {
                    Some(shifts) => shifts.1,
                    None => if char_is_ascii_whitespace(c_text) {
                        1
                    } else {
                        pattern_len
                    },
                };
                return ScanOutcome::Skip(skips);
            }
            i = k;
        }
        ScanOutcome::Match
    }

    /// Compares the pattern with the text that ends at `index`, first char first.
    fn scan_backward(&self, text: &ropey::Rope, pchars: &Vec<char>, pattern_len: usize, index: usize) -> (r: ScanOutcome)
        requires
            self.wf(),
            pchars@ == self.pattern(),
            self.pattern().len() > 0,
            pattern_len == byte_len(self.pattern()),
            index < rope_text(*text).len(),
            index + 1 >= pattern_len,
        ensures
            r@ == scan_prev(rope_text(*text), self.pattern(), index as nat, pattern_len as nat),
            r matches ScanOutcome::Skip(s) ==> 1 <= s <= pattern_len,
    {
        proof {
            crate::text::lemma_byte_len_ge_len(self.pattern());
            lemma_bad_match_positive(self.pattern(), pattern_len as nat, self.pattern().len());
        }
        let ghost t = rope_text(*text);
        let ghost p = self.pattern();
        let mut i: usize = pattern_len;
        while i > 0
            invariant
                self.wf(),
                t == rope_text(*text),
                p == self.pattern(),
                pchars@ == p,
                pattern_len == byte_len(p),
                index < t.len(),
                index + 1 >= pattern_len,
                i <= pattern_len,
                0 < pattern_len,
                forall|c: u32| #[trigger] bad_match(p).contains_key(c) ==> 1 <= bad_match(p)[c].0 <= pattern_len,
                scan_prev(t, p, index as nat, pattern_len as nat) == scan_prev(t, p, index as nat, i as nat),
            decreases i,
        {
            let k = i - 1;
            let c_text = rope_char(text, index - k);
            let j = pattern_len - k - 1;
            if j >= pchars.len() {
                return ScanOutcome::Stop;
            }
            if c_text != pchars[j] {
                let skips = match self.bad_match_table.get(&(c_text as u32)) {
                    Some(shifts) => shifts.0,
                    None => if char_is_ascii_whitespace(c_text) {
                        1
                    } else {
                        pattern_len
                    },
                };
                return ScanOutcome::Skip(skips);
            }
            i = k;
        }
        ScanOutcome::Match
    }

    /// The forward search from `index`.
    fn search_next(&self, text: &ropey::Rope, index: usize) -> (r: Option<(usize, usize)>)
        requires
            self.wf(),
            self.pattern().len() > 0,
            byte_len(self.pattern()) <= rope_text(*text).len(),
        ensures
            r matches Some((a, b)) ==> search_next_from(
                rope_text(*text),
                self.pattern(),
                index as nat,
            ) == Some((a as nat, b as nat)),
            r is None ==> search_next_from(rope_text(*text), self.pattern(), index as nat) is None,
    {
        let ghost t = rope_text(*text);
        let ghost p = self.pattern();
        let pattern_len = self.pattern.as_str().len();
        let pchars = str_chars(self.pattern.as_str());
        let len = rope_len_chars(text);
        proof {
            crate::text::lemma_byte_len_ge_len(p);
            lemma_bad_match_positive(p, pattern_len as nat, p.len());
        }
        let ghost start = index;
        let mut idx = index;
        while idx <= len - pattern_len
            invariant
                self.wf(),
                t == rope_text(*text),
                p == self.pattern(),
                pchars@ == p,
                pattern_len == byte_len(p),
                0 < p.len() <= pattern_len <= len,
                len == t.len(),
                forall|c: u32| #[trigger] bad_match(p).contains_key(c) ==> 1 <= bad_match(p)[c].1 <= pattern_len,
                start == index,
                search_next_from(t, p, idx as nat) == search_next_from(t, p, start as nat),
            decreases len - idx,
        {
            match self.scan_forward(text, &pchars, pattern_len, idx) {
                ScanOutcome::Match => {
                    let offset = idx + pattern_len - 1;
                    return Some((idx, offset));
                },
                ScanOutcome::Stop => {
                    return None;
                },
                ScanOutcome::Skip(skips) => {
                    if skips > len || idx > len - skips {
                        assert(search_next_from(t, p, (idx + skips) as nat) is None);
                        return None;
                    }
                    idx = idx + skips;
                },
            }
        }
        None
    }

    /// The backward search from `index`.
    fn search_prev(&self, text: &ropey::Rope, index: usize) -> (r: Option<(usize, usize)>)
        requires
            self.wf(),
            self.pattern().len() > 0,
            index < rope_text(*text).len(),
        ensures
            r matches Some((a, b)) ==> search_prev_from(
                rope_text(*text),
                self.pattern(),
                index as nat,
            ) == Some((a as nat, b as nat)),
            r is None ==> search_prev_from(rope_text(*text), self.pattern(), index as nat) is None,
    {
        let ghost t = rope_text(*text);
        let ghost p = self.pattern();
        let pattern_len = self.pattern.as_str().len();
        let pchars = str_chars(self.pattern.as_str());
        proof {
            crate::text::lemma_byte_len_ge_len(p);
            lemma_bad_match_positive(p, pattern_len as nat, p.len());
        }
        let ghost start = index;
        let mut idx = index;
        while idx >= pattern_len - 1
            invariant
                self.wf(),
                t == rope_text(*text),
                p == self.pattern(),
                pchars@ == p,
                pattern_len == byte_len(p),
                0 < p.len() <= pattern_len,
                idx < t.len(),
                forall|c: u32| #[trigger] bad_match(p).contains_key(c) ==> 1 <= bad_match(p)[c].0 <= pattern_len,
                start == index,
                search_prev_from(t, p, idx as nat) == search_prev_from(t, p, start as nat),
            decreases idx,
        {
            match self.scan_backward(text, &pchars, pattern_len, idx) {
                ScanOutcome::Match => {
                    let offset = idx - (pattern_len - 1);
                    return Some((offset, idx));
                },
                ScanOutcome::Stop => {
                    return None;
                },
                ScanOutcome::Skip(skips) => {
                    if idx < skips {
                        return None;
                    }
                    idx = idx - skips;
                },
            }
        }
        None
    }
}

impl Default for SearchRegistry {
    /// A registry with an empty pattern, which finds nothing.
    fn default() -> (r: Self)
        ensures
            r.wf(),
            r.pattern() == Seq::<char>::empty(),
    {
        let r = SearchRegistry { pattern: String::new(), bad_match_table: HashMap::new() };
        assert(r.pattern@ =~= Seq::<char>::empty());
        r
    }
}

/// Outcome of one comparison, as the search computes it.
enum ScanOutcome {
    Match,
    Skip(usize),
    Stop,
}

impl View for ScanOutcome {
    type V = Scan;

    closed spec fn view(&self) -> Scan {
        match self {
            ScanOutcome::Match => Scan::Match,
            ScanOutcome::Skip(s) => Scan::Skip(*s as nat),
            ScanOutcome::Stop => Scan::Stop,
        }
    }
}

} // verus!
