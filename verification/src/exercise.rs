//! Exercises and the outcome of one assertion about a student's program: an
//! exercise is named by the stem of its file name, and the exercises of a folder
//! are its `.asm` files in name order.
use vstd::prelude::*;
use crate::text::{chars_eq, chars_of, slice_to_vec, string_of};

verus! {

/// The outcome of one check of a test case.
#[derive(Debug)]
pub struct AssertionResult {
    pub passed: bool,
    pub name_str: String,
    pub expected_str: String,
    pub actual_str: String,
}

/// The outcome of one check, as values.
pub struct ResultSpec {
    pub passed: bool,
    pub name: Seq<char>,
    pub expected: Seq<char>,
    pub actual: Seq<char>,
}

impl View for AssertionResult {
    type V = ResultSpec;

    open spec fn view(&self) -> ResultSpec {
        ResultSpec {
            passed: self.passed,
            name: self.name_str@,
            expected: self.expected_str@,
            actual: self.actual_str@,
        }
    }
}

/// An exercise: the path of its assembly file, and its name.
#[derive(Debug)]
pub struct Exercise {
    pub path: String,
    pub name: String,
}

/// How many characters at the end of `s` are not `sep`.
pub open spec fn tail_len(s: Seq<char>, sep: char) -> nat
    decreases s.len(),
{
    if s.len() > 0 && s.last() != sep {
        1 + tail_len(s.drop_last(), sep)
    } else {
        0
    }
}

pub proof fn lemma_tail_len(s: Seq<char>, sep: char)
    ensures
        tail_len(s, sep) <= s.len(),
        tail_len(s, sep) < s.len() ==> s[s.len() - tail_len(s, sep) - 1] == sep,
        forall|k: int| s.len() - tail_len(s, sep) <= k < s.len() ==> s[k] != sep,
    decreases s.len(),
{
    if s.len() > 0 && s.last() != sep {
        lemma_tail_len(s.drop_last(), sep);
        assert forall|k: int| s.len() - tail_len(s, sep) <= k < s.len() implies s[k] != sep by {
            if k < s.len() - 1 {
                assert(s[k] == s.drop_last()[k]);
            }
        }
    }
}

/// The final component of a `/`-separated path, as `Path::file_name` gives it:
/// trailing separators and `.` components are passed over, and a final `..`,
/// an empty path or a bare root have none.
pub open spec fn file_name(p: Seq<char>) -> Option<Seq<char>>
    decreases p.len(),
{
    if p.len() == 0 {
        None
    } else if p.last() == '/' {
        file_name(p.drop_last())
    } else {
        let n = tail_len(p, '/');
        let piece = p.skip(p.len() - n);
        proof {
            lemma_tail_len(p, '/');
        }
        if piece == seq!['.'] {
            file_name(p.take(p.len() - n))
        } else if piece == seq!['.', '.'] {
            None
        } else {
            Some(piece)
        }
    }
}

/// Where the last `.` of a file name splits it into stem and extension, as
/// `Path::file_stem` and `Path::extension` split it: none when the name has no
/// `.` other than a leading one.
pub open spec fn dot_split(name: Seq<char>) -> Option<int> {
    let n = tail_len(name, '.');
    if n < name.len() && name.len() - n - 1 > 0 {
        Some(name.len() - n - 1)
    } else {
        None
    }
}

/// The stem of a path's file name, as `Path::file_stem` gives it.
pub open spec fn file_stem(p: Seq<char>) -> Option<Seq<char>> {
    match file_name(p) {
        Some(name) => match dot_split(name) {
            Some(k) => Some(name.take(k)),
            None => Some(name),
        },
        None => None,
    }
}

/// The extension of a path's file name, as `Path::extension` gives it.
pub open spec fn extension(p: Seq<char>) -> Option<Seq<char>> {
    match file_name(p) {
        Some(name) => match dot_split(name) {
            Some(k) => Some(name.skip(k + 1)),
            None => None,
        },
        None => None,
    }
}

/// The bounds of the file name of `p` inside `p`.
fn file_name_bounds(p: &[char]) -> (r: Option<(usize, usize)>)
    ensures
        match r {
            Some((a, b)) => a <= b <= p.len() && file_name(p@) == Some(p@.subrange(a as int, b as int)),
            None => file_name(p@) is None,
        },
{
    let mut end: usize = p.len();
    assert(p@.take(end as int) =~= p@);
    loop
        invariant
            end <= p.len(),
            file_name(p@) == file_name(p@.take(end as int)),
        decreases end,
    {
        let ghost q = p@.take(end as int);
        if end == 0 {
            return None;
        }
        if p[end - 1] == '/' {
            assert(q.drop_last() =~= p@.take(end - 1));
            end = end - 1;
        } else {
            let mut start: usize = end;
            while start > 0 && p[start - 1] != '/'
                invariant
                    start <= end,
                    end <= p.len(),
                    q == p@.take(end as int),
                    tail_len(q, '/') == (end - start) + tail_len(p@.take(start as int), '/'),
                decreases start,
            {
                assert(p@.take(start as int).drop_last() =~= p@.take(start - 1));
                start = start - 1;
            }
            assert(tail_len(p@.take(start as int), '/') == 0);
            proof {
                lemma_tail_len(q, '/');
            }
            let ghost piece = q.skip(q.len() - tail_len(q, '/'));
            assert(piece =~= p@.subrange(start as int, end as int));
            let len = end - start;
            if len == 1 && p[start] == '.' {
                assert(piece =~= seq!['.']);
                assert(q.take(q.len() - tail_len(q, '/')) =~= p@.take(start as int));
                end = start;
            } else if len == 2 && p[start] == '.' && p[start + 1] == '.' {
                assert(piece =~= seq!['.', '.']);
                return None;
            } else {
                assert(piece != seq!['.']) by {
                    if piece == seq!['.'] {
                        assert(piece[0] == p@[start as int]);
                    }
                }
                assert(piece != seq!['.', '.']) by {
                    if piece == seq!['.', '.'] {
                        assert(piece[0] == p@[start as int]);
                        assert(piece[1] == p@[start + 1]);
                    }
                }
                return Some((start, end));
            }
        }
    }
}

/// The position of the dot that splits a file name, computed.
fn dot_position(name: &[char]) -> (r: Option<usize>)
    ensures
        match r {
            Some(k) => dot_split(name@) == Some(k as int),
            None => dot_split(name@) is None,
        },
{
    let n = name.len();
    let mut k: usize = n;
    assert(name@.take(n as int) =~= name@);
    while k > 0 && name[k - 1] != '.'
        invariant
            k <= n,
            n == name.len(),
            tail_len(name@, '.') == (n - k) + tail_len(name@.take(k as int), '.'),
        decreases k,
    {
        assert(name@.take(k as int).drop_last() =~= name@.take(k - 1));
        k = k - 1;
    }
    assert(tail_len(name@.take(k as int), '.') == 0);
    if k >= 2 {
        Some(k - 1)
    } else {
        None
    }
}

/// The stem of the file name of the path `p`, or nothing.
pub fn path_file_stem(p: &[char]) -> (r: Option<Vec<char>>)
    ensures
        match r {
            Some(v) => file_stem(p@) == Some(v@),
            None => file_stem(p@) is None,
        },
{
    match file_name_bounds(p) {
        Some((a, b)) => {
            let name = slice_to_vec(p, a, b);
            match dot_position(name.as_slice()) {
                Some(k) => Some(slice_to_vec(name.as_slice(), 0, k)),
                None => Some(name),
            }
        },
        None => None,
    }
}

/// The extension of the file name of the path `p`, or nothing.
pub fn path_extension(p: &[char]) -> (r: Option<Vec<char>>)
    ensures
        match r {
            Some(v) => extension(p@) == Some(v@),
            None => extension(p@) is None,
        },
{
    match file_name_bounds(p) {
        Some((a, b)) => {
            let name = slice_to_vec(p, a, b);
            match dot_position(name.as_slice()) {
                Some(k) => Some(slice_to_vec(name.as_slice(), k + 1, name.len())),
                None => None,
            }
        },
        None => None,
    }
}

/// The name of the exercise whose file is at `p`: the stem of the file name,
/// or nothing when the path has no file name.
pub open spec fn exercise_name(p: Seq<char>) -> Seq<char> {
    match file_stem(p) {
        Some(s) => s,
        None => seq![],
    }
}

impl Exercise {
    /// The exercise whose assembly file is at `path`; its name is the stem of
    /// the file name.
    pub fn load(path: String) -> (ex: Exercise)
        ensures
            ex.path@ == path@,
            ex.name@ == exercise_name(path@),
    {
        let chars = chars_of(path.as_str());
        let name = match path_file_stem(chars.as_slice()) {
            Some(stem) => string_of(stem.as_slice()),
            None => String::new(),
        };
        Exercise { path, name }
    }
}

/// The name shown for an exercise: its name with underscores as spaces.
pub open spec fn display_name(name: Seq<char>) -> Seq<char> {
    name.map_values(|c: char| if c == '_' { ' ' } else { c })
}

/// The name of an exercise as it is shown, with underscores as spaces.
pub fn display_name_of(name: &str) -> (r: String)
    ensures
        r@ == display_name(name@),
{
    let chars = chars_of(name);
    let mut out: Vec<char> = Vec::new();
    let mut i: usize = 0;
    while i < chars.len()
        invariant
            i <= chars.len(),
            chars@ == name@,
            out@ == display_name(chars@.take(i as int)),
        decreases chars.len() - i,
    {
        let c = chars[i];
        out.push(if c == '_' { ' ' } else { c });
        assert(display_name(chars@.take(i + 1)) =~= display_name(chars@.take(i as int)).push(
            if c == '_' { ' ' } else { c },
        ));
        i = i + 1;
    }
    assert(chars@.take(chars.len() as int) =~= chars@);
    string_of(out.as_slice())
}

/// Lexicographic order of character sequences by code point, the order in which
/// `Path` sorts the files of one folder.
pub open spec fn lex_le(a: Seq<char>, b: Seq<char>) -> bool
    decreases a.len(),
{
    if a.len() == 0 {
        true
    } else if b.len() == 0 {
        false
    } else if a[0] != b[0] {
        a[0] < b[0]
    } else {
        lex_le(a.drop_first(), b.drop_first())
    }
}

/// Any two sequences are ordered one way or the other.
pub proof fn lemma_lex_total(a: Seq<char>, b: Seq<char>)
    ensures
        lex_le(a, b) || lex_le(b, a),
    decreases a.len(),
{
    if a.len() > 0 && b.len() > 0 && a[0] == b[0] {
        lemma_lex_total(a.drop_first(), b.drop_first());
    }
}

/// The order is transitive.
pub proof fn lemma_lex_trans(a: Seq<char>, b: Seq<char>, c: Seq<char>)
    requires
        lex_le(a, b),
        lex_le(b, c),
    ensures
        lex_le(a, c),
    decreases a.len(),
{
    if a.len() > 0 && b.len() > 0 && c.len() > 0 && a[0] == b[0] && b[0] == c[0] {
        lemma_lex_trans(a.drop_first(), b.drop_first(), c.drop_first());
    }
}

/// Two names ordered each before the other are the same name.
pub proof fn lemma_lex_antisymmetric(a: Seq<char>, b: Seq<char>)
    requires
        lex_le(a, b),
        lex_le(b, a),
    ensures
        a == b,
    decreases a.len(),
{
    if a.len() > 0 && b.len() > 0 && a[0] == b[0] {
        lemma_lex_antisymmetric(a.drop_first(), b.drop_first());
        assert(a =~= seq![a[0]] + a.drop_first());
        assert(b =~= seq![b[0]] + b.drop_first());
    } else if a.len() == 0 && b.len() == 0 {
        assert(a =~= b);
    }
}

/// Names that agree up to a position and differ there are ordered by the
/// characters at that position.
pub proof fn lemma_lex_first_difference(a: Seq<char>, b: Seq<char>, i: int)
    requires
        0 <= i < a.len(),
        i < b.len(),
        a.take(i) == b.take(i),
        (a[i] as int) < (b[i] as int),
    ensures
        lex_le(a, b),
        !lex_le(b, a),
    decreases i,
{
    if i > 0 {
        assert(a[0] == a.take(i)[0] && b[0] == b.take(i)[0]);
        assert(a.drop_first().take(i - 1) =~= a.take(i).drop_first());
        assert(b.drop_first().take(i - 1) =~= b.take(i).drop_first());
        lemma_lex_first_difference(a.drop_first(), b.drop_first(), i - 1);
    }
}

/// A name comes before every longer name that it begins.
pub proof fn lemma_lex_proper_prefix(a: Seq<char>, b: Seq<char>)
    requires
        a.len() < b.len(),
        b.take(a.len() as int) == a,
    ensures
        lex_le(a, b),
        !lex_le(b, a),
    decreases a.len(),
{
    if a.len() > 0 {
        assert(a[0] == b.take(a.len() as int)[0]);
        assert(b.drop_first().take(a.drop_first().len() as int) =~= a.drop_first());
        lemma_lex_proper_prefix(a.drop_first(), b.drop_first());
    }
}

/// Whether `a` comes before `b` or equals it in lexicographic order.
pub fn lex_le_exec(a: &[char], b: &[char]) -> (r: bool)
    ensures
        r == lex_le(a@, b@),
{
    let mut i: usize = 0;
    assert(a@.skip(0) =~= a@);
    assert(b@.skip(0) =~= b@);
    while i < a.len() && i < b.len() && a[i] == b[i]
        invariant
            i <= a.len(),
            i <= b.len(),
            lex_le(a@, b@) == lex_le(a@.skip(i as int), b@.skip(i as int)),
        decreases a.len() - i,
    {
        assert(a@.skip(i as int).drop_first() =~= a@.skip(i + 1));
        assert(b@.skip(i as int).drop_first() =~= b@.skip(i + 1));
        i = i + 1;
    }
    if i == a.len() {
        assert(a@.skip(i as int).len() == 0);
        true
    } else if i == b.len() {
        assert(b@.skip(i as int).len() == 0);
        false
    } else {
        assert(a@.skip(i as int)[0] == a@[i as int]);
        assert(b@.skip(i as int)[0] == b@[i as int]);
        a[i] < b[i]
    }
}

/// The character views of a sequence of strings.
pub open spec fn views(v: Seq<String>) -> Seq<Seq<char>> {
    v.map_values(|s: String| s@)
}

/// Whether a sequence is in lexicographic order.
pub open spec fn lex_sorted(v: Seq<Seq<char>>) -> bool {
    forall|i: int, j: int| 0 <= i < j < v.len() ==> lex_le(#[trigger] v[i], #[trigger] v[j])
}

/// Whether a file name is that of an assembly exercise: its extension is `asm`.
pub open spec fn is_asm_file(name: Seq<char>) -> bool {
    extension(name) == Some(seq!['a', 's', 'm'])
}

/// The exercises among the files of a folder, in the order they are worked
/// through: the files whose extension is `asm`, sorted by name.
pub fn select_exercises(files: &Vec<String>) -> (r: Vec<String>)
    ensures
        lex_sorted(views(r@)),
        views(r@).to_multiset() == views(files@).filter(|n: Seq<char>| is_asm_file(n)).to_multiset(),
{
    let mut out: Vec<String> = Vec::new();
    let mut i: usize = 0;
    let ghost pred = |n: Seq<char>| is_asm_file(n);
    assert(views(files@).take(0).filter(pred) =~= seq![]);
    assert(views(out@) =~= seq![]);
    while i < files.len()
        invariant
            i <= files.len(),
            lex_sorted(views(out@)),
            views(out@).to_multiset() == views(files@).take(i as int).filter(pred).to_multiset(),
            pred == (|n: Seq<char>| is_asm_file(n)),
        decreases files.len() - i,
    {
        let name = files[i].clone();
        let chars = chars_of(name.as_str());
        let ext = path_extension(chars.as_slice());
        let wanted: [char; 3] = ['a', 's', 'm'];
        assert(wanted@ =~= seq!['a', 's', 'm']);
        let is_asm = match ext {
            Some(e) => chars_eq(e.as_slice(), wanted.as_slice()),
            None => false,
        };
        assert(chars@ == name@);
        assert(is_asm == is_asm_file(name@));
        proof {
            assert(views(files@).take(i + 1) =~= views(files@).take(i as int).push(name@));
            views(files@).take(i as int).lemma_filter_push(name@, pred);
        }
        if is_asm {
            insert_sorted(&mut out, name);
        }
        proof {
            broadcast use vstd::seq_lib::group_to_multiset_ensures;
            assert(pred(name@) == is_asm_file(name@));
            assert(is_asm == pred(name@));
            if is_asm {
                assert(views(files@).take(i + 1).filter(pred) == views(files@).take(i as int).filter(
                    pred,
                ).push(name@));
            }
        }
        i = i + 1;
    }
    assert(views(files@).take(files.len() as int) =~= views(files@));
    out
}

/// Inserts `name` into the sorted `v` after every name not greater than it.
fn insert_sorted(v: &mut Vec<String>, name: String)
    requires
        lex_sorted(views(old(v)@)),
    ensures
        lex_sorted(views(final(v)@)),
        views(final(v)@).to_multiset() == views(old(v)@).to_multiset().insert(name@),
{
    let name_chars = chars_of(name.as_str());
    let mut pos: usize = 0;
    while pos < v.len() && lex_le_exec(chars_of(v[pos].as_str()).as_slice(), name_chars.as_slice())
        invariant
            pos <= v.len(),
            v@ == old(v)@,
            name_chars@ == name@,
            forall|k: int| 0 <= k < pos ==> lex_le(#[trigger] views(v@)[k], name@),
        decreases v.len() - pos,
    {
        pos = pos + 1;
    }
    let ghost before = views(v@);
    proof {
        if pos < v.len() {
            lemma_lex_total(before[pos as int], name@);
        }
    }
    v.insert(pos, name);
    proof {
        let after = views(v@);
        assert(after =~= before.insert(pos as int, name@));
        assert forall|i: int, j: int| 0 <= i < j < after.len() implies lex_le(
            #[trigger] after[i],
            #[trigger] after[j],
        ) by {
            if j < pos {
                assert(after[i] == before[i] && after[j] == before[j]);
            } else if j == pos {
                assert(after[i] == before[i]);
            } else if i < pos {
                assert(after[i] == before[i] && after[j] == before[j - 1]);
                assert(lex_le(before[i], name@));
                assert(lex_le(name@, before[pos as int]));
                if pos < j - 1 {
                    lemma_lex_trans(name@, before[pos as int], before[j - 1]);
                }
                lemma_lex_trans(before[i], name@, before[j - 1]);
            } else if i == pos {
                assert(after[j] == before[j - 1]);
                assert(lex_le(name@, before[pos as int]));
                if pos < j - 1 {
                    lemma_lex_trans(name@, before[pos as int], before[j - 1]);
                }
            } else {
                assert(after[i] == before[i - 1] && after[j] == before[j - 1]);
            }
        }
        assert(after.remove(pos as int) =~= before);
        broadcast use vstd::seq_lib::group_to_multiset_ensures;
        assert(after[pos as int] == name@);
        assert(after.to_multiset().remove(name@) =~= before.to_multiset());
        assert(after.to_multiset().count(name@) > 0);
        assert(after.to_multiset() =~= before.to_multiset().insert(name@));
    }
}

} // verus!
