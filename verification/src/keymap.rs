//! Key bindings: per editing mode, a tree from key sequences to commands, built from
//! textual descriptions such as `gg` or `<Space>y`.
use vstd::prelude::*;
use std::collections::{BTreeMap, HashMap};
use crate::buffer::Mode;
use crate::chars::{chars_to_string, lowercase, str_chars, str_to_lowercase};
use crate::command::CmdType;
use crate::event::{event_of, input_key, is_modifier_name, Event, Input, Modifiers};

verus! {

broadcast use vstd::std_specs::btree::group_btree_axioms, vstd::laws_cmp::group_laws_cmp,
    vstd::std_specs::hash::group_hash_axioms;

/// Index of the first `>` at or after `j` in `t`, unless a line break or the end of the
/// text comes first.
pub open spec fn close_of(t: Seq<char>, j: nat) -> Option<nat>
    decreases t.len() - j,
{
    if j >= t.len() {
        None
    } else if t[j as int] == '>' {
        Some(j)
    } else if t[j as int] == '\n' {
        None
    } else {
        close_of(t, j + 1)
    }
}

/// A `>` found from `j` on lies at or after `j`, within the text.
pub proof fn lemma_close_of_range(t: Seq<char>, j: nat)
    ensures
        close_of(t, j) matches Some(c) ==> j <= c < t.len() && t[c as int] == '>',
    decreases t.len() - j,
{
    if j < t.len() && t[j as int] != '>' && t[j as int] != '\n' {
        lemma_close_of_range(t, j + 1);
    }
}

/// The group one of each match of `<(.*?)>` in `t` from index `i` on, left to right: a
/// match runs from a `<` to the first `>` after it, with no line break between (`.`
/// matches any char but a line break, and `*?` takes as few as it can); its group one
/// is what lies between. The search goes on after the `>`.
pub open spec fn angle_groups(t: Seq<char>, i: nat) -> Seq<Seq<char>>
    decreases t.len() - i,
{
    if i >= t.len() {
        Seq::empty()
    } else if t[i as int] == '<' && close_of(t, i + 1) is Some {
        let c = close_of(t, i + 1)->0;
        proof {
            lemma_close_of_range(t, i + 1);
        }
        seq![t.subrange(i + 1 as int, c as int)] + angle_groups(t, c + 1)
    } else {
        angle_groups(t, i + 1)
    }
}

/// `t` from index `i` on with each match of `<(.*?)>` taken out.
pub open spec fn angle_cleared(t: Seq<char>, i: nat) -> Seq<char>
    decreases t.len() - i,
{
    if i >= t.len() {
        Seq::empty()
    } else if t[i as int] == '<' && close_of(t, i + 1) is Some {
        proof {
            lemma_close_of_range(t, i + 1);
        }
        angle_cleared(t, close_of(t, i + 1)->0 + 1)
    } else {
        seq![t[i as int]] + angle_cleared(t, i + 1)
    }
}

/// The views of a vector of strings.
pub open spec fn strings_view(v: Seq<String>) -> Seq<Seq<char>> {
    v.map_values(|s: String| s@)
}

/// `Regex::new` then `Regex::captures_iter`, each capture reduced to its group one: for
/// the pattern `<(.*?)>`, which compiles, the text between the angle brackets of every
/// match in `text`, in order. The group takes part in every match of this pattern.
#[verifier::external_body]
fn regex_captures(pattern: &str, text: &str) -> (r: Option<Vec<String>>)
    requires
        pattern@ == KEY_PATTERN@,
    ensures
        r is Some,
        r matches Some(v) ==> strings_view(v@) == angle_groups(text@, 0),
{
    let re = regex::Regex::new(pattern).ok()?;
    Some(re.captures_iter(text).map(|c| c.get(1).map_or(String::new(), |m| m.as_str().to_string())).collect())
}

/// `Regex::new` then `Regex::replace_all` with an empty replacement: for the pattern
/// `<(.*?)>`, which compiles, `text` without its matches.
#[verifier::external_body]
fn regex_remove_all(pattern: &str, text: &str) -> (r: Option<String>)
    requires
        pattern@ == KEY_PATTERN@,
    ensures
        r is Some,
        r matches Some(s) ==> s@ == angle_cleared(text@, 0),
{
    let re = regex::Regex::new(pattern).ok()?;
    Some(re.replace_all(text, "").into_owned())
}

/// A special key in a binding: a name between angle brackets.
pub const KEY_PATTERN: &'static str = "<(.*?)>";

/// The bindings of one level: each input leads to a command or to further bindings.
#[derive(Debug, PartialEq)]
pub struct Bindings(pub BTreeMap<u64, Keymap>);

/// A command, or the bindings that the next input is looked up in.
#[derive(Debug, PartialEq)]
pub enum Keymap {
    Leaf(CmdType),
    Node(Bindings),
}

/// What a path of inputs leads to from bindings `m`.
pub open spec fn lookup(m: Map<u64, Keymap>, path: Seq<u64>) -> Option<Keymap>
    decreases path.len(),
{
    if path.len() == 0 || !m.contains_key(path[0]) {
        None
    } else if path.len() == 1 {
        Some(m[path[0]])
    } else {
        match m[path[0]] {
            Keymap::Node(b) => lookup(b.0@, path.drop_first()),
            Keymap::Leaf(_) => None,
        }
    }
}

/// The inputs that the key names `keys` stand for, the last name first, or `None` when
/// a name stands for no key.
pub open spec fn key_path(keys: Seq<Seq<char>>, m: Modifiers) -> Option<Seq<u64>>
    decreases keys.len(),
{
    if keys.len() == 0 {
        Some(Seq::empty())
    } else {
        match (event_of(keys.last()), key_path(keys.drop_last(), m)) {
            (Some(e), Some(p)) => Some(seq![input_key(Input { event: e, modifiers: m })] + p),
            _ => None,
        }
    }
}

/// The inputs of the leading key names of `keys` (the last name first) that stand for a
/// key, up to the first one that does not.
pub open spec fn valid_path(keys: Seq<Seq<char>>, m: Modifiers) -> Seq<u64>
    decreases keys.len(),
{
    if keys.len() == 0 {
        Seq::empty()
    } else {
        match event_of(keys.last()) {
            Some(e) => seq![input_key(Input { event: e, modifiers: m })] + valid_path(keys.drop_last(), m),
            None => Seq::empty(),
        }
    }
}

/// Whether the path `q` is a prefix of the path `p` (or equal to it).
pub open spec fn path_prefix(q: Seq<u64>, p: Seq<u64>) -> bool {
    q.len() <= p.len() && p.subrange(0, q.len() as int) == q
}

/// What binding the key names `keys`, with `m` held, to `cmd` guarantees of the bindings
/// before (`a`) and after (`b`): the path leads to the command; nothing changes but the
/// entry of the first input; and every path that is neither a prefix nor an extension
/// of the bound path leads where it led before, so that bindings sharing a first key
/// are kept. A command bound to a proper prefix of the path is replaced.
pub open spec fn bound(a: Map<u64, Keymap>, b: Map<u64, Keymap>, m: Modifiers, keys: Seq<Seq<char>>, cmd: CmdType) -> bool {
    &&& keys.len() > 0 && key_path(keys, m) is Some ==> lookup(b, key_path(keys, m)->0) == Some(
        Keymap::Leaf(cmd),
    )
    &&& keys.len() == 0 || event_of(keys.last()) is None ==> b == a
    &&& keys.len() > 0 && event_of(keys.last()) is Some ==> b.remove(
        input_key(Input { event: event_of(keys.last())->0, modifiers: m }),
    ) == a.remove(input_key(Input { event: event_of(keys.last())->0, modifiers: m }))
    &&& forall|q: Seq<u64>|
        q.len() > 0 && !path_prefix(q, valid_path(keys, m)) && !path_prefix(valid_path(keys, m), q)
            ==> #[trigger] lookup(b, q) == lookup(a, q)
}

/// What binding the text `seq` to `cmd` does to the bindings `a`, giving `b`: the key
/// names of `seq` are bound with its modifiers held.
pub open spec fn parse_step(a: Map<u64, Keymap>, b: Map<u64, Keymap>, seq: Seq<char>, cmd: CmdType) -> bool {
    bound(a, b, binding_mods(seq), binding_keys(seq), cmd)
}

/// The `(binding text, command)` pairs as mathematical values.
pub open spec fn mappings_view(m: Seq<(&str, CmdType)>) -> Seq<(Seq<char>, CmdType)> {
    m.map_values(|p: (&str, CmdType)| (p.0@, p.1))
}

/// `ms` are the bindings after each pair of `mappings` in turn, from no binding on.
pub open spec fn binding_chain(ms: Seq<Map<u64, Keymap>>, mappings: Seq<(Seq<char>, CmdType)>) -> bool {
    &&& ms.len() == mappings.len() + 1
    &&& ms[0] == Map::<u64, Keymap>::empty()
    &&& forall|i: int| 0 <= i < mappings.len() ==> #[trigger] parse_step(ms[i], ms[i + 1], mappings[i].0, mappings[i].1)
}

/// The bindings `b` come from binding each pair of `mappings`, in order, from no binding.
pub open spec fn binds_all(mappings: Seq<(Seq<char>, CmdType)>, b: Map<u64, Keymap>) -> bool {
    exists|ms: Seq<Map<u64, Keymap>>| #[trigger] binding_chain(ms, mappings) && ms.last() == b
}

/// The modifiers that the special names hold: a name that is, in lower case, `ctrl`,
/// `alt` or `shift`.
pub open spec fn mods_of(specials: Seq<Seq<char>>) -> Modifiers {
    Modifiers {
        ctr: exists|i: int| 0 <= i < specials.len() && lowercase(#[trigger] specials[i]) == "ctrl"@,
        alt: exists|i: int| 0 <= i < specials.len() && lowercase(#[trigger] specials[i]) == "alt"@,
        shift: exists|i: int| 0 <= i < specials.len() && lowercase(#[trigger] specials[i]) == "shift"@,
    }
}

/// The special names that are no modifier, in order.
pub open spec fn non_modifiers(specials: Seq<Seq<char>>) -> Seq<Seq<char>>
    decreases specials.len(),
{
    if specials.len() == 0 {
        Seq::empty()
    } else if is_modifier_name(lowercase(specials.last())) {
        non_modifiers(specials.drop_last())
    } else {
        non_modifiers(specials.drop_last()).push(specials.last())
    }
}

/// Each char of `s` as a name of its own.
pub open spec fn plain_keys(s: Seq<char>) -> Seq<Seq<char>> {
    Seq::new(s.len(), |i: int| seq![s[i]])
}

/// Whether `needle` occurs in `hay` at index `i`.
pub open spec fn occurs_at(hay: Seq<char>, needle: Seq<char>, i: int) -> bool {
    0 <= i && i + needle.len() <= hay.len() && hay.subrange(i, i + needle.len()) == needle
}

/// The first index from `from` on at which `needle` occurs in `hay`.
pub open spec fn first_occurrence(hay: Seq<char>, needle: Seq<char>, from: nat) -> Option<nat>
    decreases hay.len() + 1 - from,
{
    if from + needle.len() > hay.len() {
        None
    } else if occurs_at(hay, needle, from as int) {
        Some(from)
    } else {
        first_occurrence(hay, needle, from + 1)
    }
}

/// Where `key` first occurs in the binding text `seq`; past every index when it does not.
pub open spec fn key_pos(seq: Seq<char>, key: Seq<char>) -> nat {
    match first_occurrence(seq, key, 0) {
        Some(i) => i,
        None => usize::MAX as nat,
    }
}

/// `x` put into `s` after every name that occurs no later than it.
pub open spec fn insert_by_pos(s: Seq<Seq<char>>, x: Seq<char>, seq: Seq<char>) -> Seq<Seq<char>>
    decreases s.len(),
{
    if s.len() == 0 {
        seq![x]
    } else if key_pos(seq, s.last()) <= key_pos(seq, x) {
        s.push(x)
    } else {
        insert_by_pos(s.drop_last(), x, seq).push(s.last())
    }
}

/// The names ordered by where they first occur in `seq`; names that occur at the same
/// place keep their order.
pub open spec fn sort_by_pos(s: Seq<Seq<char>>, seq: Seq<char>) -> Seq<Seq<char>>
    decreases s.len(),
{
    if s.len() == 0 {
        s
    } else {
        insert_by_pos(sort_by_pos(s.drop_last(), seq), s.last(), seq)
    }
}

/// `s` in the opposite order.
pub open spec fn reversed<T>(s: Seq<T>) -> Seq<T> {
    Seq::new(s.len(), |i: int| s[s.len() - 1 - i])
}

/// The key names of the binding text `seq`, the first one last: its plain chars and its
/// special names that are no modifier, ordered by where they occur.
pub open spec fn binding_keys(seq: Seq<char>) -> Seq<Seq<char>> {
    reversed(
        sort_by_pos(
            plain_keys(angle_cleared(seq, 0)) + non_modifiers(angle_groups(seq, 0)),
            seq,
        ),
    )
}

/// The modifiers that the binding text `seq` holds.
pub open spec fn binding_mods(seq: Seq<char>) -> Modifiers {
    mods_of(angle_groups(seq, 0))
}

/// The modifiers that the special names hold.
pub fn modifiers_of(specials: &Vec<String>) -> (m: Modifiers)
    ensures
        m == mods_of(strings_view(specials@)),
{
    let ghost sv = strings_view(specials@);
    let mut m = Modifiers { ctr: false, alt: false, shift: false };
    let mut i: usize = 0;
    while i < specials.len()
        invariant
            sv == strings_view(specials@),
            i <= specials@.len(),
            m.ctr == exists|j: int| 0 <= j < i && lowercase(#[trigger] sv[j]) == "ctrl"@,
            m.alt == exists|j: int| 0 <= j < i && lowercase(#[trigger] sv[j]) == "alt"@,
            m.shift == exists|j: int| 0 <= j < i && lowercase(#[trigger] sv[j]) == "shift"@,
        decreases specials@.len() - i,
    {
        let low = str_to_lowercase(specials[i].as_str());
        let lv = str_chars(low.as_str());
        assert(sv[i as int] == specials@[i as int]@);
        if crate::event::chars_are(lv.as_slice(), "ctrl") {
            m.ctr = true;
        }
        if crate::event::chars_are(lv.as_slice(), "alt") {
            m.alt = true;
        }
        if crate::event::chars_are(lv.as_slice(), "shift") {
            m.shift = true;
        }
        i = i + 1;
    }
    m
}

/// The special names that are no modifier, in order.
fn retain_non_modifiers(specials: Vec<String>) -> (r: Vec<String>)
    ensures
        strings_view(r@) == non_modifiers(strings_view(specials@)),
{
    let ghost sv = strings_view(specials@);
    let mut r: Vec<String> = Vec::new();
    let mut i: usize = 0;
    while i < specials.len()
        invariant
            sv == strings_view(specials@),
            i <= specials@.len(),
            strings_view(r@) == non_modifiers(sv.take(i as int)),
        decreases specials@.len() - i,
    {
        let low = str_to_lowercase(specials[i].as_str());
        assert(sv.take(i + 1).drop_last() =~= sv.take(i as int));
        assert(sv.take(i + 1).last() == specials@[i as int]@);
        if !Modifiers::contain(low.as_str()) {
            let ghost before = r@;
            r.push(specials[i].clone());
            assert(strings_view(r@) =~= strings_view(before).push(specials@[i as int]@));
        }
        i = i + 1;
    }
    assert(sv.take(specials@.len() as int) =~= sv);
    r
}

/// Each char of `s` as a name of its own.
fn split_chars(s: &str) -> (r: Vec<String>)
    ensures
        strings_view(r@) == plain_keys(s@),
{
    let chars = str_chars(s);
    let mut r: Vec<String> = Vec::new();
    let mut i: usize = 0;
    while i < chars.len()
        invariant
            chars@ == s@,
            i <= chars@.len(),
            strings_view(r@) =~= plain_keys(s@).take(i as int),
        decreases chars@.len() - i,
    {
        let one = [chars[i]];
        let c = chars_to_string(&one);
        let ghost before = r@;
        r.push(c);
        proof {
            assert(one@ =~= seq![chars@[i as int]]);
            assert(strings_view(r@) =~= strings_view(before).push(c@));
        }
        i = i + 1;
    }
    r
}

/// Whether `needle` occurs in `hay` at `i`, computed.
fn occurs_at_exec(hay: &Vec<char>, needle: &Vec<char>, i: usize) -> (b: bool)
    requires
        i + needle@.len() <= hay@.len(),
    ensures
        b == occurs_at(hay@, needle@, i as int),
{
    let hl = hay.len();
    let mut k: usize = 0;
    while k < needle.len()
        invariant
            hl == hay@.len(),
            i + needle@.len() <= hay@.len(),
            k <= needle@.len(),
            forall|j: int| 0 <= j < k ==> hay@[i + j] == needle@[j],
        decreases needle@.len() - k,
    {
        if hay[i + k] != needle[k] {
            assert(hay@.subrange(i as int, i + needle@.len())[k as int] != needle@[k as int]);
            return false;
        }
        k = k + 1;
    }
    assert(hay@.subrange(i as int, i + needle@.len()) =~= needle@);
    true
}

/// Where `key` first occurs in `seq`; `usize::MAX` when it does not.
fn key_position(seq: &Vec<char>, key: &String) -> (p: usize)
    ensures
        p == key_pos(seq@, key@),
{
    let needle = str_chars(key.as_str());
    let mut i: usize = 0;
    if needle.len() > seq.len() {
        return usize::MAX;
    }
    let last = seq.len() - needle.len();
    loop
        invariant
            needle@ == key@,
            needle@.len() <= seq@.len(),
            last == seq@.len() - needle@.len(),
            i <= last,
            first_occurrence(seq@, key@, 0) == first_occurrence(seq@, key@, i as nat),
        decreases last - i,
    {
        if occurs_at_exec(seq, &needle, i) {
            return i;
        }
        if i == last {
            assert(first_occurrence(seq@, key@, (i + 1) as nat) is None);
            return usize::MAX;
        }
        i = i + 1;
    }
}

/// The names ordered by where they first occur in `seq`, equal places keeping their
/// order.
fn sort_keys(keys: Vec<String>, seq: &Vec<char>) -> (r: Vec<String>)
    ensures
        strings_view(r@) == sort_by_pos(strings_view(keys@), seq@),
{
    let ghost kv = strings_view(keys@);
    let mut sorted: Vec<String> = Vec::new();
    let mut i: usize = 0;
    while i < keys.len()
        invariant
            kv == strings_view(keys@),
            i <= keys@.len(),
            strings_view(sorted@) == sort_by_pos(kv.take(i as int), seq@),
        decreases keys@.len() - i,
    {
        let x = keys[i].clone();
        let px = key_position(seq, &x);
        let mut j = sorted.len();
        let ghost sv = strings_view(sorted@);
        assert(sv.take(j as int) =~= sv);
        assert(sv.skip(j as int) =~= Seq::<Seq<char>>::empty());
        assert(insert_by_pos(sv, x@, seq@) + Seq::<Seq<char>>::empty() =~= insert_by_pos(sv, x@, seq@));
        while j > 0 && key_position(seq, &sorted[j - 1]) > px
            invariant
                sv == strings_view(sorted@),
                j <= sorted@.len(),
                px == key_pos(seq@, x@),
                insert_by_pos(sv, x@, seq@) == insert_by_pos(sv.take(j as int), x@, seq@) + sv.skip(j as int),
            decreases j,
        {
            proof {
                assert(sv.take(j as int).last() == sv[j - 1]);
                assert(sv.take(j as int).drop_last() =~= sv.take(j - 1));
                assert(sv.take(j - 1).push(sv[j - 1]) =~= sv.take(j as int));
                assert(insert_by_pos(sv.take(j as int), x@, seq@) == insert_by_pos(sv.take(j - 1), x@, seq@).push(sv[j - 1]));
                assert(insert_by_pos(sv.take(j - 1), x@, seq@).push(sv[j - 1]) + sv.skip(j as int) =~= insert_by_pos(sv.take(j - 1), x@, seq@) + sv.skip(j - 1));
            }
            j = j - 1;
        }
        proof {
            if j > 0 {
                assert(sv.take(j as int).last() == sv[j - 1]);
                assert(key_pos(seq@, sv[j - 1]) <= key_pos(seq@, x@));
                assert(insert_by_pos(sv.take(j as int), x@, seq@) == sv.take(j as int).push(x@));
            } else {
                assert(sv.take(0) =~= Seq::<Seq<char>>::empty());
            }
            assert(kv.take(i + 1).drop_last() =~= kv.take(i as int));
            assert(kv.take(i + 1).last() == x@);
        }
        sorted.insert(j, x);
        proof {
            assert(strings_view(sorted@) =~= sv.take(j as int).push(x@) + sv.skip(j as int));
        }
        i = i + 1;
    }
    assert(kv.take(keys@.len() as int) =~= kv);
    sorted
}

/// The names in the opposite order.
fn reverse_keys(keys: Vec<String>) -> (r: Vec<String>)
    ensures
        strings_view(r@) == reversed(strings_view(keys@)),
{
    let mut r: Vec<String> = Vec::new();
    let n = keys.len();
    let mut k: usize = 0;
    while k < n
        invariant
            n == keys@.len(),
            k <= n,
            strings_view(r@) =~= reversed(strings_view(keys@)).take(k as int),
        decreases n - k,
    {
        let ghost before = r@;
        let x = keys[n - 1 - k].clone();
        r.push(x);
        proof {
            assert(strings_view(r@) =~= strings_view(before).push(keys@[n - 1 - k]@));
        }
        k = k + 1;
    }
    r
}

impl Bindings {
    /// No binding.
    pub fn new() -> (b: Self)
        ensures
            b.0@ == Map::<u64, Keymap>::empty(),
    {
        Bindings(BTreeMap::new())
    }

    /// What `input` leads to.
    pub fn get(&self, input: &Input) -> (r: Option<&Keymap>)
        ensures
            r matches Some(k) ==> self.0@.contains_key(input_key(*input)) && *k == self.0@[input_key(*input)],
            r is None ==> !self.0@.contains_key(input_key(*input)),
    {
        let k = input.key();
        self.0.get(&k)
    }

    /// Binds the binding text `sequence`, such as `gg` or `<Space>y`, to `cmd`: the names
    /// between angle brackets that are modifiers are held, the other ones and the plain
    /// chars are the keys, in the order in which they occur.
    pub fn parse(&mut self, sequence: &str, cmd: CmdType)
        ensures
            parse_step(old(self).0@, final(self).0@, sequence@, cmd),
    {
        let specials = match regex_captures(KEY_PATTERN, sequence) {
            Some(v) => v,
            None => return,
        };
        let modifiers = modifiers_of(&specials);
        let specials = retain_non_modifiers(specials);
        let cleared = match regex_remove_all(KEY_PATTERN, sequence) {
            Some(c) => c,
            None => return,
        };
        let mut keys = split_chars(cleared.as_str());
        let ghost plain = strings_view(keys@);
        let mut i: usize = 0;
        while i < specials.len()
            invariant
                i <= specials@.len(),
                strings_view(keys@) =~= plain + strings_view(specials@).take(i as int),
            decreases specials@.len() - i,
        {
            let ghost before = keys@;
            keys.push(specials[i].clone());
            proof {
                assert(strings_view(keys@) =~= strings_view(before).push(specials@[i as int]@));
            }
            i = i + 1;
        }
        proof {
            assert(strings_view(specials@).take(specials@.len() as int) =~= strings_view(specials@));
        }
        let seq = str_chars(sequence);
        let keys = sort_keys(keys, &seq);
        let keys = reverse_keys(keys);
        self.parse_keys(modifiers, keys, cmd);
    }

    /// Bindings made from `(binding text, command)` pairs, in order.
    pub fn from_mappings(mappings: Vec<(&str, CmdType)>) -> (b: Self)
        ensures
            binds_all(mappings_view(mappings@), b.0@),
    {
        let ghost mv = mappings_view(mappings@);
        let mut bindings = Bindings::new();
        let ghost mut ms: Seq<Map<u64, Keymap>> = seq![bindings.0@];
        let mut i: usize = 0;
        assert(mv.take(0) =~= Seq::<(Seq<char>, CmdType)>::empty());
        while i < mappings.len()
            invariant
                mv == mappings_view(mappings@),
                i <= mappings@.len(),
                binding_chain(ms, mv.take(i as int)),
                ms.last() == bindings.0@,
            decreases mappings@.len() - i,
        {
            let (sequence, cmd) = mappings[i];
            bindings.parse(sequence, cmd);
            proof {
                let ms1 = ms.push(bindings.0@);
                assert(mv.take(i + 1) =~= mv.take(i as int).push(mv[i as int]));
                assert forall|j: int| 0 <= j < i + 1 implies #[trigger] parse_step(
                    ms1[j],
                    ms1[j + 1],
                    mv.take(i + 1)[j].0,
                    mv.take(i + 1)[j].1,
                ) by {
                    if j < i {
                        assert(parse_step(ms[j], ms[j + 1], mv.take(i as int)[j].0, mv.take(i as int)[j].1));
                    }
                }
                ms = ms1;
            }
            i = i + 1;
        }
        assert(mv.take(mappings@.len() as int) =~= mv);
        assert(binding_chain(ms, mv));
        bindings
    }

    /// Binds the key names `keys`, the last one first, with `modifiers` held, to `cmd`.
    /// Binding stops at a name that stands for no key; a command bound to a prefix of the
    /// sequence is replaced by further bindings.
    pub fn parse_keys(&mut self, modifiers: Modifiers, keys: Vec<String>, cmd: CmdType)
        ensures
            bound(old(self).0@, final(self).0@, modifiers, strings_view(keys@), cmd),
        decreases keys@.len(),
    {
        let ghost ks = strings_view(keys@);
        let mut keys = keys;
        let key = match keys.pop() {
            Some(k) => k,
            None => return,
        };
        proof {
            assert(strings_view(keys@) =~= ks.drop_last());
        }
        let event = match Event::from_name(key.as_str()) {
            Some(e) => e,
            None => return,
        };
        let input = Input { event, modifiers };
        let k = input.key();
        if keys.len() == 0 {
            self.0.insert(k, Keymap::Leaf(cmd));
            proof {
                assert(ks.drop_last() =~= Seq::<Seq<char>>::empty());
                assert(key_path(ks, modifiers) == Some(seq![k]));
                assert(self.0@.remove(k) =~= old(self).0@.remove(k));
                let vp = valid_path(ks, modifiers);
                assert(valid_path(ks.drop_last(), modifiers) == Seq::<u64>::empty());
                assert(vp =~= seq![k]);
                assert forall|q: Seq<u64>|
                    q.len() > 0 && !path_prefix(q, vp) && !path_prefix(vp, q)
                        implies #[trigger] lookup(self.0@, q) == lookup(old(self).0@, q) by {
                    if q[0] == k {
                        assert(q.subrange(0, 1) =~= vp);
                    }
                    assert(self.0@.contains_key(q[0]) == old(self).0@.contains_key(q[0]));
                    if self.0@.contains_key(q[0]) {
                        assert(self.0@[q[0]] == old(self).0@[q[0]]);
                    }
                }
            }
        } else {
            let mut child = match self.0.remove(&k) {
                Some(Keymap::Node(c)) => c,
                _ => Bindings::new(),
            };
            let ghost child_old = child.0@;
            proof {
                assert(old(self).0@.contains_key(k) && old(self).0@[k] is Node ==> child_old
                    == old(self).0@[k]->Node_0.0@);
                assert(!(old(self).0@.contains_key(k) && old(self).0@[k] is Node) ==> child_old
                    == Map::<u64, Keymap>::empty());
            }
            child.parse_keys(modifiers, keys, cmd);
            let ghost child_new = child.0@;
            self.0.insert(k, Keymap::Node(child));
            proof {
                let rest = strings_view(keys@);
                let vp = valid_path(ks, modifiers);
                assert(vp == seq![k] + valid_path(rest, modifiers));
                assert forall|q: Seq<u64>|
                    q.len() > 0 && !path_prefix(q, vp) && !path_prefix(vp, q)
                        implies #[trigger] lookup(self.0@, q) == lookup(old(self).0@, q) by {
                    if q[0] == k {
                        let q1 = q.drop_first();
                        if q.len() == 1 {
                            assert(vp.subrange(0, 1) =~= q);
                        }
                        assert(q1.len() > 0);
                        if path_prefix(q1, valid_path(rest, modifiers)) {
                            assert(vp.subrange(0, q.len() as int) =~= seq![k] + valid_path(rest, modifiers).subrange(0, q1.len() as int));
                            assert(q =~= seq![k] + q1);
                        }
                        if path_prefix(valid_path(rest, modifiers), q1) {
                            assert(q.subrange(0, vp.len() as int) =~= seq![k] + q1.subrange(0, valid_path(rest, modifiers).len() as int));
                        }
                        assert(lookup(child_new, q1) == lookup(child_old, q1));
                        assert(lookup(self.0@, q) == lookup(child_new, q1));
                        if !(old(self).0@.contains_key(k) && old(self).0@[k] is Node) {
                            assert(lookup(child_old, q1) == None::<Keymap>);
                        }
                    } else {
                        assert(self.0@.contains_key(q[0]) == old(self).0@.contains_key(q[0]));
                        assert(self.0@.remove(k).contains_key(q[0]) ==> self.0@[q[0]] == self.0@.remove(k)[q[0]]);
                        assert(self.0@[q[0]] == old(self).0@[q[0]]);
                    }
                }
                assert(self.0@.remove(k) =~= old(self).0@.remove(k));
                if let Some(p) = key_path(ks, modifiers) {
                    let rest = key_path(ks.drop_last(), modifiers)->0;
                    assert(p == seq![k] + rest);
                    assert(p.drop_first() =~= rest);
                }
            }
        }
    }
}

/// The code under which the bindings of a mode are kept.
pub open spec fn mode_code(m: Mode) -> u8 {
    match m {
        Mode::Normal => 0,
        Mode::Insert => 1,
        Mode::Visual => 2,
        Mode::Search => 3,
    }
}

/// The code of a mode, computed.
pub fn mode_key(m: &Mode) -> (c: u8)
    ensures
        c == mode_code(*m),
{
    match m {
        Mode::Normal => 0,
        Mode::Insert => 1,
        Mode::Visual => 2,
        Mode::Search => 3,
    }
}

/// The pairs of binding text and command that normal and visual mode share.
pub open spec fn common_mappings() -> Seq<(Seq<char>, CmdType)> {
    seq![
        ("h"@, CmdType::MoveLeft),
        ("j"@, CmdType::MoveDown),
        ("k"@, CmdType::MoveUp),
        ("l"@, CmdType::MoveRight),
        ("d"@, CmdType::Delete),
        ("gg"@, CmdType::GoToTopLine),
        ("ge"@, CmdType::GoToBottomLine),
        ("gl"@, CmdType::GoToLineEnd),
        ("gh"@, CmdType::GoToLineStart),
        ("w"@, CmdType::MoveNextWordStart),
        ("e"@, CmdType::MoveNextWordEnd),
        ("b"@, CmdType::MovePrevWordStart),
        ("x"@, CmdType::SelectLine),
        ("y"@, CmdType::CopyLocal),
        ("<Space>y"@, CmdType::CopyGlobal),
        ("p"@, CmdType::PasteLocal),
        ("<Space>p"@, CmdType::PasteGlobal),
        ("/"@, CmdType::SearchMode),
        ("n"@, CmdType::SearchNext),
        ("N"@, CmdType::SearchPrev),
    ]
}

/// The pairs of binding text and command of normal mode.
pub open spec fn normal_mappings() -> Seq<(Seq<char>, CmdType)> {
    seq![
        ("i"@, CmdType::InsertMode),
        ("A"@, CmdType::InsertModeLineEnd),
        ("I"@, CmdType::InsertModeLineStart),
        ("o"@, CmdType::InsertModeLineNext),
        ("O"@, CmdType::InsertModeLinePrev),
        ("u"@, CmdType::Undo),
        ("U"@, CmdType::Redo),
        ("v"@, CmdType::VisualMode),
    ] + common_mappings()
}

/// The pairs of binding text and command of visual mode.
pub open spec fn visual_mappings() -> Seq<(Seq<char>, CmdType)> {
    seq![("<Esc>"@, CmdType::NormalMode)] + common_mappings()
}

/// The key bindings of each mode that has some.
pub struct Keymaps(pub HashMap<u8, Bindings>);

impl Keymaps {
    /// The bindings of normal and visual mode; the other modes have none.
    pub fn init() -> (k: Self)
        ensures
            k.0@.dom() == set![mode_code(Mode::Normal), mode_code(Mode::Visual)],
            binds_all(normal_mappings(), k.0@[mode_code(Mode::Normal)].0@),
            binds_all(visual_mappings(), k.0@[mode_code(Mode::Visual)].0@),
    {
        let mut map: HashMap<u8, Bindings> = HashMap::new();
        map.insert(mode_key(&Mode::Normal), Self::normal_mode());
        map.insert(mode_key(&Mode::Visual), Self::visual_mode());
        proof {
            assert(map@.dom() =~= set![mode_code(Mode::Normal), mode_code(Mode::Visual)]);
        }
        Keymaps(map)
    }

    /// The bindings of `mode`, if it has some.
    pub fn get(&self, mode: &Mode) -> (r: Option<&Bindings>)
        ensures
            r matches Some(b) ==> self.0@.contains_key(mode_code(*mode)) && *b == self.0@[mode_code(*mode)],
            r is None ==> !self.0@.contains_key(mode_code(*mode)),
    {
        let c = mode_key(mode);
        self.0.get(&c)
    }

    /// The bindings that normal and visual mode share.
    pub fn common_bindings() -> (v: Vec<(&'static str, CmdType)>)
        ensures
            v@ == seq![
                ("h", CmdType::MoveLeft),
                ("j", CmdType::MoveDown),
                ("k", CmdType::MoveUp),
                ("l", CmdType::MoveRight),
                ("d", CmdType::Delete),
                ("gg", CmdType::GoToTopLine),
                ("ge", CmdType::GoToBottomLine),
                ("gl", CmdType::GoToLineEnd),
                ("gh", CmdType::GoToLineStart),
                ("w", CmdType::MoveNextWordStart),
                ("e", CmdType::MoveNextWordEnd),
                ("b", CmdType::MovePrevWordStart),
                ("x", CmdType::SelectLine),
                ("y", CmdType::CopyLocal),
                ("<Space>y", CmdType::CopyGlobal),
                ("p", CmdType::PasteLocal),
                ("<Space>p", CmdType::PasteGlobal),
                ("/", CmdType::SearchMode),
                ("n", CmdType::SearchNext),
                ("N", CmdType::SearchPrev),
            ],
    {
        let v: Vec<(&'static str, CmdType)> = vec![
            ("h", CmdType::MoveLeft),
            ("j", CmdType::MoveDown),
            ("k", CmdType::MoveUp),
            ("l", CmdType::MoveRight),
            ("d", CmdType::Delete),
            ("gg", CmdType::GoToTopLine),
            ("ge", CmdType::GoToBottomLine),
            ("gl", CmdType::GoToLineEnd),
            ("gh", CmdType::GoToLineStart),
            ("w", CmdType::MoveNextWordStart),
            ("e", CmdType::MoveNextWordEnd),
            ("b", CmdType::MovePrevWordStart),
            ("x", CmdType::SelectLine),
            ("y", CmdType::CopyLocal),
            ("<Space>y", CmdType::CopyGlobal),
            ("p", CmdType::PasteLocal),
            ("<Space>p", CmdType::PasteGlobal),
            ("/", CmdType::SearchMode),
            ("n", CmdType::SearchNext),
            ("N", CmdType::SearchPrev),
        ];
        v
    }

    /// The bindings of normal mode: its own, then the common ones.
    pub fn normal_mode() -> (b: Bindings)
        ensures
            binds_all(normal_mappings(), b.0@),
    {
        let mut bindings: Vec<(&'static str, CmdType)> = vec![
            ("i", CmdType::InsertMode),
            ("A", CmdType::InsertModeLineEnd),
            ("I", CmdType::InsertModeLineStart),
            ("o", CmdType::InsertModeLineNext),
            ("O", CmdType::InsertModeLinePrev),
            ("u", CmdType::Undo),
            ("U", CmdType::Redo),
            ("v", CmdType::VisualMode),
        ];
        let mut common = Self::common_bindings();
        bindings.append(&mut common);
        assert(mappings_view(bindings@) =~= normal_mappings());
        Bindings::from_mappings(bindings)
    }

    /// The bindings of visual mode: `Esc` back to normal mode, then the common ones.
    pub fn visual_mode() -> (b: Bindings)
        ensures
            binds_all(visual_mappings(), b.0@),
    {
        let mut bindings: Vec<(&'static str, CmdType)> = vec![("<Esc>", CmdType::NormalMode)];
        let mut common = Self::common_bindings();
        bindings.append(&mut common);
        assert(mappings_view(bindings@) =~= visual_mappings());
        Bindings::from_mappings(bindings)
    }
}

} // verus!
