//! What surrounds a run of the NASM assembler: the source handed to it, with
//! the directives that would move the code commented out and a header that
//! asks for a symbol map, and the reading of that map into label addresses.
use vstd::prelude::*;
use crate::numbers::{from_str_radix, parse_radix};
use crate::text::{
    alphanumeric, char_is_alphanumeric, chars_eq, chars_of, is_prefix, lines, push_char, push_chars,
    split_lines, split_words, starts_with, string_of, to_lowercase, lowercase, trim, trim_chars,
    words,
};

verus! {

/// Label names and the addresses they stand for. A later entry for a name
/// replaces an earlier one.
pub struct Labels {
    entries: Vec<(String, u64)>,
}

/// The map that a list of entries describes, later entries winning.
pub open spec fn label_map(entries: Seq<(String, u64)>) -> Map<Seq<char>, u64>
    decreases entries.len(),
{
    if entries.len() == 0 {
        Map::empty()
    } else {
        label_map(entries.drop_last()).insert(entries.last().0@, entries.last().1)
    }
}

impl View for Labels {
    type V = Map<Seq<char>, u64>;

    closed spec fn view(&self) -> Map<Seq<char>, u64> {
        label_map(self.entries@)
    }
}

/// Entries past `i` that do not name `k` do not change what the map says of `k`.
proof fn lemma_label_map_suffix(s: Seq<(String, u64)>, i: int, k: Seq<char>)
    requires
        0 <= i <= s.len(),
        forall|j: int| i <= j < s.len() ==> (#[trigger] s[j]).0@ != k,
    ensures
        label_map(s).dom().contains(k) == label_map(s.take(i)).dom().contains(k),
        label_map(s).dom().contains(k) ==> label_map(s)[k] == label_map(s.take(i))[k],
    decreases s.len(),
{
    if i == s.len() {
        assert(s.take(i) =~= s);
    } else {
        assert(s.drop_last().take(i) =~= s.take(i));
        assert(s.last() == s[s.len() - 1]);
        lemma_label_map_suffix(s.drop_last(), i, k);
    }
}

/// The map holds exactly the names of the entries, with the address of the last
/// entry of each name.
proof fn lemma_label_map_last(s: Seq<(String, u64)>, i: int)
    requires
        0 <= i < s.len(),
        forall|j: int| i < j < s.len() ==> (#[trigger] s[j]).0@ != s[i].0@,
    ensures
        label_map(s).dom().contains(s[i].0@),
        label_map(s)[s[i].0@] == s[i].1,
{
    lemma_label_map_suffix(s, i + 1, s[i].0@);
    assert(s.take(i + 1).drop_last() =~= s.take(i));
    assert(s.take(i + 1).last() == s[i]);
}

/// A name that no entry carries is not in the map.
proof fn lemma_label_map_absent(s: Seq<(String, u64)>, k: Seq<char>)
    requires
        forall|j: int| 0 <= j < s.len() ==> (#[trigger] s[j]).0@ != k,
    ensures
        !label_map(s).dom().contains(k),
{
    lemma_label_map_suffix(s, 0, k);
    assert(s.take(0).len() == 0);
}

/// A label recorded last is found with the address recorded for it, and
/// recording it leaves every other label as it was.
pub proof fn lemma_labels_read_back(l: Labels, name: Seq<char>, addr: u64, other: Seq<char>)
    requires
        other != name,
    ensures
        l@.insert(name, addr).dom().contains(name),
        l@.insert(name, addr)[name] == addr,
        l@.insert(name, addr).dom().contains(other) == l@.dom().contains(other),
        l@.dom().contains(other) ==> l@.insert(name, addr)[other] == l@[other],
{
}

impl Labels {
    /// No labels.
    pub fn new() -> (l: Labels)
        ensures
            l@ == Map::<Seq<char>, u64>::empty(),
    {
        Labels { entries: Vec::new() }
    }

    /// Records that `name` stands for `addr`, replacing what it stood for before.
    pub fn insert(&mut self, name: String, addr: u64)
        ensures
            final(self)@ == old(self)@.insert(name@, addr),
    {
        let ghost before = self.entries@;
        self.entries.push((name, addr));
        assert(self.entries@.drop_last() =~= before);
    }

    /// The index of the last entry named `key`.
    fn last_index(&self, key: &str) -> (r: Option<usize>)
        ensures
            match r {
                Some(i) => i < self.entries@.len() && self.entries@[i as int].0@ == key@ && self@.dom().contains(key@)
                    && self@[key@] == self.entries@[i as int].1,
                None => !self@.dom().contains(key@),
            },
    {
        let k = String::from_str(key);
        let mut i: usize = self.entries.len();
        while i > 0
            invariant
                i <= self.entries@.len(),
                k@ == key@,
                forall|j: int| i <= j < self.entries@.len() ==> (#[trigger] self.entries@[j]).0@ != key@,
            decreases i,
        {
            if self.entries[i - 1].0 == k {
                proof {
                    lemma_label_map_last(self.entries@, i - 1);
                }
                return Some(i - 1);
            }
            i = i - 1;
        }
        proof {
            lemma_label_map_absent(self.entries@, key@);
        }
        None
    }

    /// The address that `key` stands for, if it is a label.
    pub fn get(&self, key: &str) -> (r: Option<&u64>)
        ensures
            match r {
                Some(v) => self@.dom().contains(key@) && *v == self@[key@],
                None => !self@.dom().contains(key@),
            },
    {
        match self.last_index(key) {
            Some(i) => Some(&self.entries[i].1),
            None => None,
        }
    }

    /// Whether `key` is a label.
    pub fn contains_key(&self, key: &str) -> (b: bool)
        ensures
            b == self@.dom().contains(key@),
    {
        self.last_index(key).is_some()
    }

    /// Whether there are no labels.
    pub fn is_empty(&self) -> (b: bool)
        ensures
            b == (self@ == Map::<Seq<char>, u64>::empty()),
    {
        if self.entries.len() == 0 {
            assert(self@ =~= Map::<Seq<char>, u64>::empty());
            true
        } else {
            proof {
                let s = self.entries@;
                assert(label_map(s).dom().contains(s.last().0@));
            }
            false
        }
    }

    /// The labels with their addresses, each once, in increasing order of
    /// address.
    pub fn by_address(&self) -> (r: Vec<(String, u64)>)
        ensures
            sorted_by_address(r@),
            distinct_names(r@),
            forall|a: int|
                0 <= a < r@.len() ==> self@.dom().contains((#[trigger] r@[a]).0@) && self@[r@[a].0@]
                    == r@[a].1,
            forall|k: Seq<char>| self@.dom().contains(k) ==> exists|a: int| 0 <= a < r@.len() && (#[trigger] r@[a]).0@ == k,
    {
        let ghost s = self.entries@;
        let mut out: Vec<(String, u64)> = Vec::new();
        let mut i: usize = self.entries.len();
        assert(names_from(out@, s, i as int)) by { reveal(names_from); }
        assert(names_cover(out@, s, i as int)) by { reveal(names_cover); }
        while i > 0
            invariant
                i <= s.len(),
                s == self.entries@,
                sorted_by_address(out@),
                distinct_names(out@),
                agrees_with(out@, label_map(s)),
                names_from(out@, s, i as int),
                names_cover(out@, s, i as int),
            decreases i,
        {
            let entry = &self.entries[i - 1];
            let seen = Self::position_of(&out, &entry.0);
            match seen {
                None => {
                    proof {
                        lemma_unseen_is_last(out@, s, i as int);
                        lemma_label_map_last(s, i - 1);
                    }
                    let ghost before = out@;
                    let p = Self::insert_by_address(&mut out, entry.0.clone(), entry.1);
                    proof {
                        lemma_insert_new(before, out@, p as int, s, i as int);
                    }
                },
                Some(a) => {
                    proof {
                        lemma_seen_step(out@, s, i as int, a as int);
                    }
                },
            }
            i = i - 1;
        }
        proof {
            assert forall|k: Seq<char>| label_map(s).dom().contains(k) implies exists|a: int| 0 <= a < out@.len()
                && (#[trigger] out@[a]).0@ == k by {
                if forall|j: int| 0 <= j < s.len() ==> (#[trigger] s[j]).0@ != k {
                    lemma_label_map_absent(s, k);
                } else {
                    let j = choose|j: int| 0 <= j < s.len() && (#[trigger] s[j]).0@ == k;
                    reveal(names_cover);
                    assert(names_cover(out@, s, 0));
                    assert(s[j].0@ == k);
                }
            }
        }
        out
    }

    /// The index in `v` of the entry named `name`.
    fn position_of(v: &Vec<(String, u64)>, name: &String) -> (r: Option<usize>)
        ensures
            match r {
                Some(a) => a < v@.len() && v@[a as int].0@ == name@,
                None => forall|a: int| 0 <= a < v@.len() ==> (#[trigger] v@[a]).0@ != name@,
            },
    {
        let mut a: usize = 0;
        while a < v.len()
            invariant
                a <= v@.len(),
                forall|b: int| 0 <= b < a ==> (#[trigger] v@[b]).0@ != name@,
            decreases v.len() - a,
        {
            if v[a].0 == *name {
                return Some(a);
            }
            a = a + 1;
        }
        None
    }

    /// Inserts an entry into `v`, kept in increasing order of address, after
    /// every entry with the same address.
    fn insert_by_address(v: &mut Vec<(String, u64)>, name: String, addr: u64) -> (p: usize)
        requires
            sorted_by_address(old(v)@),
        ensures
            sorted_by_address(final(v)@),
            p <= old(v)@.len(),
            final(v)@ == old(v)@.insert(p as int, (name, addr)),
    {
        let mut pos: usize = 0;
        while pos < v.len() && v[pos].1 <= addr
            invariant
                pos <= v@.len(),
                v@ == old(v)@,
                forall|a: int| 0 <= a < pos ==> (#[trigger] v@[a]).1 <= addr,
            decreases v.len() - pos,
        {
            pos = pos + 1;
        }
        let ghost before = v@;
        v.insert(pos, (name, addr));
        assert(v@ == before.insert(pos as int, (name, addr)));
        assert forall|a: int, b: int| 0 <= a < b < v@.len() implies (#[trigger] v@[a]).1 <= (
        #[trigger] v@[b]).1 by {
            if b < pos {
                assert(v@[a] == before[a] && v@[b] == before[b]);
            } else if b == pos {
                assert(v@[a] == before[a]);
            } else if a < pos {
                assert(v@[a] == before[a] && v@[b] == before[b - 1]);
            } else if a == pos {
                assert(v@[b] == before[b - 1]);
            } else {
                assert(v@[a] == before[a - 1] && v@[b] == before[b - 1]);
            }
        }
        pos
    }
}

/// Whether entries come in increasing order of address.
pub open spec fn sorted_by_address(v: Seq<(String, u64)>) -> bool {
    forall|a: int, b: int| 0 <= a < b < v.len() ==> (#[trigger] v[a]).1 <= (#[trigger] v[b]).1
}

/// Whether no two entries carry the same name.
pub open spec fn distinct_names(v: Seq<(String, u64)>) -> bool {
    forall|a: int, b: int|
        0 <= a < v.len() && 0 <= b < v.len() && a != b ==> (#[trigger] v[a]).0@ != (#[trigger] v[b]).0@
}

/// Whether every entry gives its name the address that `m` gives it.
pub open spec fn agrees_with(v: Seq<(String, u64)>, m: Map<Seq<char>, u64>) -> bool {
    forall|a: int| 0 <= a < v.len() ==> m.dom().contains((#[trigger] v[a]).0@) && m[v[a].0@] == v[a].1
}

/// Whether every entry of `v` is named as some entry of `s` from index `i` on.
#[verifier::opaque]
pub open spec fn names_from(v: Seq<(String, u64)>, s: Seq<(String, u64)>, i: int) -> bool {
    forall|a: int| 0 <= a < v.len() ==> exists|j: int| i <= j < s.len() && (#[trigger] s[j]).0@ == (#[trigger] v[a]).0@
}

/// Whether every entry of `s` from index `i` on is named in `v`.
#[verifier::opaque]
pub open spec fn names_cover(v: Seq<(String, u64)>, s: Seq<(String, u64)>, i: int) -> bool {
    forall|j: int| i <= j < s.len() ==> exists|a: int| 0 <= a < v.len() && (#[trigger] v[a]).0@ == (#[trigger] s[j]).0@
}

/// A name not yet collected does not occur after the entry being looked at.
proof fn lemma_unseen_is_last(v: Seq<(String, u64)>, s: Seq<(String, u64)>, i: int)
    requires
        0 < i <= s.len(),
        names_cover(v, s, i),
        forall|a: int| 0 <= a < v.len() ==> (#[trigger] v[a]).0@ != s[i - 1].0@,
    ensures
        forall|j: int| i - 1 < j < s.len() ==> (#[trigger] s[j]).0@ != s[i - 1].0@,
{
    reveal(names_cover);
    assert forall|j: int| i - 1 < j < s.len() implies (#[trigger] s[j]).0@ != s[i - 1].0@ by {
        let a = choose|a: int| 0 <= a < v.len() && (#[trigger] v[a]).0@ == s[j].0@;
        assert(v[a].0@ == s[j].0@);
    }
}

/// Collecting a name not yet collected keeps the collection's invariants.
proof fn lemma_insert_new(
    before: Seq<(String, u64)>,
    after: Seq<(String, u64)>,
    p: int,
    s: Seq<(String, u64)>,
    i: int,
)
    requires
        0 < i <= s.len(),
        0 <= p <= before.len(),
        after == before.insert(p, (after[p].0, after[p].1)),
        after[p].0@ == s[i - 1].0@,
        after[p].1 == s[i - 1].1,
        distinct_names(before),
        agrees_with(before, label_map(s)),
        names_from(before, s, i),
        names_cover(before, s, i),
        forall|a: int| 0 <= a < before.len() ==> (#[trigger] before[a]).0@ != s[i - 1].0@,
        label_map(s).dom().contains(s[i - 1].0@),
        label_map(s)[s[i - 1].0@] == s[i - 1].1,
    ensures
        distinct_names(after),
        agrees_with(after, label_map(s)),
        names_from(after, s, i - 1),
        names_cover(after, s, i - 1),
{
    assert forall|a: int| 0 <= a < after.len() implies (a < p ==> after[a] == before[a]) && (a > p
        ==> after[a] == before[a - 1]) by {}
    assert forall|a: int, b: int|
        0 <= a < after.len() && 0 <= b < after.len() && a != b implies (#[trigger] after[a]).0@ != (
        #[trigger] after[b]).0@ by {
        if a != p && b != p {
            let a2 = if a < p { a } else { a - 1 };
            let b2 = if b < p { b } else { b - 1 };
            assert(after[a] == before[a2] && after[b] == before[b2]);
        } else if a == p {
            let b2 = if b < p { b } else { b - 1 };
            assert(after[b] == before[b2]);
        } else {
            let a2 = if a < p { a } else { a - 1 };
            assert(after[a] == before[a2]);
        }
    }
    assert forall|a: int| 0 <= a < after.len() implies label_map(s).dom().contains((#[trigger] after[a]).0@)
        && label_map(s)[after[a].0@] == after[a].1 by {
        if a != p {
            let a2 = if a < p { a } else { a - 1 };
            assert(after[a] == before[a2]);
        }
    }
    assert(names_from(after, s, i - 1)) by {
    reveal(names_from);
    assert forall|a: int| 0 <= a < after.len() implies exists|j: int| i - 1 <= j < s.len() && (
    #[trigger] s[j]).0@ == (#[trigger] after[a]).0@ by {
        if a == p {
            assert(s[i - 1].0@ == after[a].0@);
        } else {
            let a2 = if a < p { a } else { a - 1 };
            assert(after[a] == before[a2]);
            let j = choose|j: int| i <= j < s.len() && (#[trigger] s[j]).0@ == before[a2].0@;
            assert(s[j].0@ == after[a].0@);
        }
    }
    }
    assert(names_cover(after, s, i - 1)) by {
    reveal(names_cover);
    assert forall|j: int| i - 1 <= j < s.len() implies exists|a: int| 0 <= a < after.len() && (
    #[trigger] after[a]).0@ == (#[trigger] s[j]).0@ by {
        if j == i - 1 {
            assert(after[p].0@ == s[j].0@);
        } else {
            let b = choose|b: int| 0 <= b < before.len() && (#[trigger] before[b]).0@ == s[j].0@;
            let a = if b < p { b } else { b + 1 };
            assert(after[a] == before[b]);
            assert(after[a].0@ == s[j].0@);
        }
    }
    }
}

/// Passing over a name already collected keeps the collection's invariants.
proof fn lemma_seen_step(v: Seq<(String, u64)>, s: Seq<(String, u64)>, i: int, a: int)
    requires
        0 < i <= s.len(),
        0 <= a < v.len(),
        v[a].0@ == s[i - 1].0@,
        names_from(v, s, i),
        names_cover(v, s, i),
    ensures
        names_from(v, s, i - 1),
        names_cover(v, s, i - 1),
{
    assert(names_from(v, s, i - 1)) by {
        reveal(names_from);
        assert forall|b: int| 0 <= b < v.len() implies exists|j: int| i - 1 <= j < s.len() && (
        #[trigger] s[j]).0@ == (#[trigger] v[b]).0@ by {
            let j = choose|j: int| i <= j < s.len() && (#[trigger] s[j]).0@ == v[b].0@;
            assert(s[j].0@ == v[b].0@);
        }
    }
    assert(names_cover(v, s, i - 1)) by {
        reveal(names_cover);
        assert forall|j: int| i - 1 <= j < s.len() implies exists|b: int| 0 <= b < v.len() && (
        #[trigger] v[b]).0@ == (#[trigger] s[j]).0@ by {
            if j == i - 1 {
                assert(v[a].0@ == s[j].0@);
            }
        }
    }
}

/// The text `format!("[map symbols {}]\norg 0x0100\n", map_path)` gives.
pub open spec fn source_header(map_path: Seq<char>) -> Seq<char> {
    "[map symbols "@ + map_path + "]\norg 0x0100\n"@
}

/// Whether a source line places code itself, with a `section`, `segment` or
/// `org` directive: its trimmed, lower-cased text starts with one of them.
pub open spec fn is_placement_directive(line: Seq<char>) -> bool {
    let t = lowercase(trim(line));
    is_prefix("section "@, t) || is_prefix("segment "@, t) || is_prefix("org "@, t)
}

/// A source line as it is handed to the assembler: commented out when it is a
/// placement directive, and ended by a line feed.
pub open spec fn rewritten_line(line: Seq<char>) -> Seq<char> {
    (if is_placement_directive(line) {
        "; "@
    } else {
        seq![]
    }) + line + seq!['\n']
}

/// The rewritten lines one after another.
pub open spec fn rewritten_lines(ls: Seq<Seq<char>>) -> Seq<char>
    decreases ls.len(),
{
    if ls.len() == 0 {
        seq![]
    } else {
        rewritten_lines(ls.drop_last()) + rewritten_line(ls.last())
    }
}

/// The source handed to the assembler for an exercise's source `src`: a header
/// that loads the code at `0x0100` and writes the symbol map to `map_path`, then
/// each line of `src`, with the placement directives commented out.
pub open spec fn prepared_source(src: Seq<char>, map_path: Seq<char>) -> Seq<char> {
    source_header(map_path) + rewritten_lines(lines(src))
}

/// Whether `line` is a placement directive, computed.
fn placement_directive(line: &[char]) -> (b: bool)
    ensures
        b == is_placement_directive(line@),
{
    let trimmed = string_of(trim_chars(line).as_slice());
    let lower = to_lowercase(trimmed.as_str());
    let t = chars_of(lower.as_str());
    let section = chars_of("section ");
    let segment = chars_of("segment ");
    let org = chars_of("org ");
    starts_with(t.as_slice(), section.as_slice()) || starts_with(t.as_slice(), segment.as_slice())
        || starts_with(t.as_slice(), org.as_slice())
}

/// The source handed to the assembler for the exercise source `src`, with the
/// symbol map written to `map_path`.
pub fn prepare_source(src: &str, map_path: &str) -> (r: String)
    ensures
        r@ == prepared_source(src@, map_path@),
{
    let mut out = String::from_str("[map symbols ");
    out.append(map_path);
    out.append("]\norg 0x0100\n");
    let chars = chars_of(src);
    let ls = split_lines(chars.as_slice());
    let ghost all = lines(src@);
    let mut i: usize = 0;
    assert(all.take(0) =~= seq![]);
    while i < ls.len()
        invariant
            i <= ls@.len(),
            ls@.len() == all.len(),
            forall|k: int| 0 <= k < ls@.len() ==> #[trigger] ls@[k]@ == all[k],
            out@ == source_header(map_path@) + rewritten_lines(all.take(i as int)),
        decreases ls.len() - i,
    {
        let line = &ls[i];
        if placement_directive(line.as_slice()) {
            out.append("; ");
        }
        push_chars(&mut out, line.as_slice());
        push_char(&mut out, '\n');
        proof {
            assert(all.take(i + 1).drop_last() =~= all.take(i as int));
            assert(all.take(i + 1).last() == line@);
        }
        assert(out@ =~= source_header(map_path@) + rewritten_lines(all.take(i + 1)));
        i = i + 1;
    }
    assert(all.take(ls.len() as int) =~= all);
    out
}

/// Whether a label name is one the tooling keeps: not empty, and made of
/// alphanumeric characters and underscores.
pub open spec fn is_label_name(l: Seq<char>) -> bool {
    l.len() > 0 && forall|i: int| 0 <= i < l.len() ==> #[trigger] alphanumeric(l[i]) || l[i] == '_'
}

/// How many `%` characters `s` starts with.
pub open spec fn percent_len(s: Seq<char>) -> nat
    decreases s.len(),
{
    if s.len() > 0 && s[0] == '%' {
        1 + percent_len(s.drop_first())
    } else {
        0
    }
}

proof fn lemma_percent_len(s: Seq<char>)
    ensures
        percent_len(s) <= s.len(),
    decreases s.len(),
{
    if s.len() > 0 && s[0] == '%' {
        lemma_percent_len(s.drop_first());
    }
}

/// The label and address that a line of a NASM symbol map records, if any: a
/// line of exactly three words, the first of which is not `Real` but a
/// hexadecimal address, and the third a label name once its leading `%`
/// characters are removed.
pub open spec fn map_line_entry(line: Seq<char>) -> Option<(Seq<char>, u64)> {
    let t = words(line);
    if t.len() == 3 && t[0] != "Real"@ {
        match from_str_radix(t[0], 16) {
            Some(addr) => {
                let label = t[2].skip(percent_len(t[2]) as int);
                if is_label_name(label) {
                    Some((label, addr))
                } else {
                    None
                }
            },
            None => None,
        }
    } else {
        None
    }
}

/// The labels that the lines of a symbol map record, a later line for a label
/// replacing an earlier one.
pub open spec fn map_labels(ls: Seq<Seq<char>>) -> Map<Seq<char>, u64>
    decreases ls.len(),
{
    if ls.len() == 0 {
        Map::empty()
    } else {
        match map_line_entry(ls.last()) {
            Some((label, addr)) => map_labels(ls.drop_last()).insert(label, addr),
            None => map_labels(ls.drop_last()),
        }
    }
}

/// The label recorded by one line of a symbol map, computed.
fn map_line(line: &[char]) -> (r: Option<(Vec<char>, u64)>)
    ensures
        match r {
            Some((label, addr)) => map_line_entry(line@) == Some((label@, addr)),
            None => map_line_entry(line@) is None,
        },
{
    let t = split_words(line);
    if t.len() != 3 {
        return None;
    }
    let heading = chars_of("Real");
    if chars_eq(t[0].as_slice(), heading.as_slice()) {
        return None;
    }
    let addr = match parse_radix(t[0].as_slice(), 16) {
        Some(a) => a,
        None => {
            return None;
        },
    };
    let third = &t[2];
    let mut skip: usize = 0;
    assert(third@.skip(0) =~= third@);
    while skip < third.len() && third[skip] == '%'
        invariant
            skip <= third@.len(),
            percent_len(third@) == skip + percent_len(third@.skip(skip as int)),
        decreases third.len() - skip,
    {
        assert(third@.skip(skip as int).drop_first() =~= third@.skip(skip + 1));
        skip = skip + 1;
    }
    assert(percent_len(third@.skip(skip as int)) == 0);
    let mut label: Vec<char> = Vec::new();
    let mut k: usize = skip;
    let mut ok = true;
    while k < third.len()
        invariant
            skip <= k <= third@.len(),
            label@ == third@.subrange(skip as int, k as int),
            ok == forall|j: int| 0 <= j < label@.len() ==> #[trigger] alphanumeric(label@[j]) || label@[j] == '_',
        decreases third.len() - k,
    {
        let c = third[k];
        let good = char_is_alphanumeric(c) || c == '_';
        label.push(c);
        proof {
            assert(third@.subrange(skip as int, k + 1) =~= third@.subrange(skip as int, k as int).push(c));
            let l = label@;
            if ok && good {
                assert forall|j: int| 0 <= j < l.len() implies #[trigger] alphanumeric(l[j]) || l[j] == '_' by {
                    if j < l.len() - 1 {
                        assert(l[j] == third@.subrange(skip as int, k as int)[j]);
                    }
                }
            }
            if !good {
                assert(!(alphanumeric(l[l.len() - 1]) || l[l.len() - 1] == '_'));
            }
            if !ok {
                let j = choose|j: int| 0 <= j < l.len() - 1 && !(#[trigger] alphanumeric(
                    third@.subrange(skip as int, k as int)[j],
                ) || third@.subrange(skip as int, k as int)[j] == '_');
                assert(l[j] == third@.subrange(skip as int, k as int)[j]);
            }
        }
        ok = ok && good;
        k = k + 1;
    }
    assert(label@ =~= third@.skip(skip as int));
    if label.len() > 0 && ok {
        Some((label, addr))
    } else {
        None
    }
}

/// The labels that a NASM symbol map lists: for each line of three words whose
/// first is a hexadecimal address (not the `Real` heading), the third word,
/// without leading `%`, when it is a label name. A later line for the same label
/// wins.
pub fn parse_labels(text: &str) -> (l: Labels)
    ensures
        l@ == map_labels(lines(text@)),
{
    let chars = chars_of(text);
    let ls = split_lines(chars.as_slice());
    let ghost all = lines(text@);
    let mut labels = Labels::new();
    let mut i: usize = 0;
    assert(all.take(0) =~= seq![]);
    while i < ls.len()
        invariant
            i <= ls@.len(),
            ls@.len() == all.len(),
            forall|k: int| 0 <= k < ls@.len() ==> #[trigger] ls@[k]@ == all[k],
            labels@ == map_labels(all.take(i as int)),
        decreases ls.len() - i,
    {
        proof {
            assert(all.take(i + 1).drop_last() =~= all.take(i as int));
            assert(all.take(i + 1).last() == ls@[i as int]@);
        }
        match map_line(ls[i].as_slice()) {
            Some((label, addr)) => {
                labels.insert(string_of(label.as_slice()), addr);
            },
            None => {},
        }
        i = i + 1;
    }
    assert(all.take(ls.len() as int) =~= all);
    labels
}

/// The source handed to the assembler for the lines `a` and then `b` is that of
/// `a` followed by that of `b`.
pub proof fn lemma_rewritten_lines_concat(a: Seq<Seq<char>>, b: Seq<Seq<char>>)
    ensures
        rewritten_lines(a + b) == rewritten_lines(a) + rewritten_lines(b),
    decreases b.len(),
{
    if b.len() == 0 {
        assert(a + b =~= a);
        assert(rewritten_lines(b) =~= seq![]);
        assert(rewritten_lines(a) + rewritten_lines(b) =~= rewritten_lines(a));
    } else {
        lemma_rewritten_lines_concat(a, b.drop_last());
        assert((a + b).drop_last() =~= a + b.drop_last());
        assert((a + b).last() == b.last());
        assert(rewritten_lines(a + b) =~= rewritten_lines(a) + rewritten_lines(b.drop_last())
            + rewritten_line(b.last()));
    }
}

/// A line whose trimmed, lower-cased text starts with `section `, `segment ` or
/// `org `, whatever follows the keyword, reaches the assembler behind `; `; every
/// other line reaches it unchanged. Either way it is ended by a line feed.
pub proof fn lemma_directive_line_commented(line: Seq<char>)
    ensures
        ({
            let t = lowercase(trim(line));
            (exists|rest: Seq<char>| t == "section "@ + rest)
                || (exists|rest: Seq<char>| t == "segment "@ + rest)
                || (exists|rest: Seq<char>| t == "org "@ + rest)
        }) ==> rewritten_line(line) == "; "@ + line + seq!['\n'],
        !({
            let t = lowercase(trim(line));
            (exists|rest: Seq<char>| t == "section "@ + rest)
                || (exists|rest: Seq<char>| t == "segment "@ + rest)
                || (exists|rest: Seq<char>| t == "org "@ + rest)
        }) ==> rewritten_line(line) == line + seq!['\n'],
{
    let t = lowercase(trim(line));
    let k1 = "section "@;
    let k2 = "segment "@;
    let k3 = "org "@;
    if exists|rest: Seq<char>| t == k1 + rest {
        let rest = choose|rest: Seq<char>| t == k1 + rest;
        assert(t.take(k1.len() as int) =~= k1);
    }
    if exists|rest: Seq<char>| t == k2 + rest {
        let rest = choose|rest: Seq<char>| t == k2 + rest;
        assert(t.take(k2.len() as int) =~= k2);
    }
    if exists|rest: Seq<char>| t == k3 + rest {
        let rest = choose|rest: Seq<char>| t == k3 + rest;
        assert(t.take(k3.len() as int) =~= k3);
    }
    if is_prefix(k1, t) {
        assert(t =~= k1 + t.skip(k1.len() as int));
    }
    if is_prefix(k2, t) {
        assert(t =~= k2 + t.skip(k2.len() as int));
    }
    if is_prefix(k3, t) {
        assert(t =~= k3 + t.skip(k3.len() as int));
    }
    assert(("; "@ + line) + seq!['\n'] == "; "@ + line + seq!['\n']);
    assert(seq![] + line =~= line);
}

/// In the prepared source, the header comes first and each line of the exercise
/// keeps its place: the `k`-th line stands, behind `; ` when it is a `section`,
/// `segment` or `org` directive, between the lines before it and those after it.
pub proof fn lemma_prepared_source_line(src: Seq<char>, map_path: Seq<char>, k: int)
    requires
        0 <= k < lines(src).len(),
    ensures
        ({
            let ls = lines(src);
            let t = lowercase(trim(ls[k]));
            prepared_source(src, map_path) == source_header(map_path) + rewritten_lines(ls.take(k))
                + (if is_prefix("section "@, t) || is_prefix("segment "@, t) || is_prefix("org "@, t) {
                "; "@
            } else {
                seq![]
            }) + ls[k] + seq!['\n'] + rewritten_lines(ls.skip(k + 1))
        }),
{
    let ls = lines(src);
    assert(ls =~= ls.take(k) + seq![ls[k]] + ls.skip(k + 1));
    lemma_rewritten_lines_concat(ls.take(k) + seq![ls[k]], ls.skip(k + 1));
    lemma_rewritten_lines_concat(ls.take(k), seq![ls[k]]);
    assert(seq![ls[k]].drop_last() =~= Seq::<Seq<char>>::empty());
    assert(rewritten_lines(seq![ls[k]]) =~= rewritten_lines(Seq::<Seq<char>>::empty()) + rewritten_line(ls[k]));
    assert(rewritten_lines(Seq::<Seq<char>>::empty()) + rewritten_line(ls[k]) =~= rewritten_line(ls[k]));
    let t = lowercase(trim(ls[k]));
    let pre: Seq<char> = if is_prefix("section "@, t) || is_prefix("segment "@, t) || is_prefix("org "@, t) {
        "; "@
    } else {
        seq![]
    };
    assert(rewritten_line(ls[k]) == pre + ls[k] + seq!['\n']);
    assert(source_header(map_path) + rewritten_lines(ls) =~= source_header(map_path)
        + rewritten_lines(ls.take(k)) + pre + ls[k] + seq!['\n'] + rewritten_lines(ls.skip(k + 1)));
}

/// How many `%` characters come first in `n` of them followed by a text that
/// does not start with one: `n`.
proof fn lemma_percent_len_prefix(n: nat, name: Seq<char>)
    requires
        name.len() > 0,
        name[0] != '%',
    ensures
        percent_len(Seq::new(n, |i: int| '%') + name) == n,
    decreases n,
{
    let s = Seq::new(n, |i: int| '%') + name;
    if n > 0 {
        lemma_percent_len_prefix((n - 1) as nat, name);
        assert(s.drop_first() =~= Seq::new((n - 1) as nat, |i: int| '%') + name);
    } else {
        assert(s =~= name);
    }
}

/// A symbol-map line of three words, the first a hexadecimal address other than
/// the `Real` heading and the third some `%` characters followed by a non-empty
/// name whose characters are each alphanumeric (digits as well as letters) or
/// `_`, puts that name at that address, whatever lines came before it.
pub proof fn lemma_map_line_records_label(
    before: Seq<Seq<char>>,
    line: Seq<char>,
    first: Seq<char>,
    second: Seq<char>,
    percents: nat,
    name: Seq<char>,
    addr: u64,
)
    requires
        words(line) == seq![first, second, Seq::new(percents, |i: int| '%') + name],
        first != "Real"@,
        from_str_radix(first, 16) == Some(addr),
        name.len() > 0,
        name[0] != '%',
        forall|i: int| 0 <= i < name.len() ==> alphanumeric(#[trigger] name[i]) || name[i] == '_',
    ensures
        map_labels(before.push(line)).dom().contains(name),
        map_labels(before.push(line))[name] == addr,
{
    let third = Seq::new(percents, |i: int| '%') + name;
    lemma_percent_len_prefix(percents, name);
    assert(third.skip(percents as int) =~= name);
    assert(is_label_name(name));
    assert(map_line_entry(line) == Some((name, addr)));
    assert(before.push(line).drop_last() =~= before);
    assert(before.push(line).last() == line);
}

/// The assembled code of an exercise and the labels of its symbol map.
pub struct AssembleOutput {
    pub code: Vec<u8>,
    pub labels: Labels,
}

} // verus!
