//! Fortran-namelist style input: comment stripping, `&NAME ... /` sections and
//! `key = value` assignment lists.
//!
//! Every scanner here is specified by a recursive spec function over the
//! characters of the input; the executable code walks the same characters
//! left to right and is proved to produce exactly what the spec describes.

use vstd::prelude::*;
use crate::text::{
    is_ws, is_whitespace, is_ascii_alnum, is_alnum, lower, lower_range, slice_chars, trim,
    trim_bounds, to_chars, string_from_chars,
};

verus! {

broadcast use vstd::string::group_string_axioms;

// ---------------------------------------------------------------------------
// Quoting and comments
// ---------------------------------------------------------------------------

/// Quote state `(in_single, in_double)` after reading `c`: `'` toggles single
/// quoting outside double quotes, `"` toggles double quoting outside single
/// quotes.
pub open spec fn quote_step(q: (bool, bool), c: char) -> (bool, bool) {
    if c == '\'' && !q.1 {
        (!q.0, q.1)
    } else if c == '"' && !q.0 {
        (q.0, !q.1)
    } else {
        q
    }
}

/// Characters that start a comment outside quotes.
pub open spec fn is_comment_start(c: char) -> bool {
    c == '!' || c == '#'
}

/// Comment stripping of `s[i..]` with quote state `q`; `skip` holds while the
/// rest of the current line is a comment.
///
/// Lines end at `\n`; a `\r` directly before a `\n` belongs to the line end.
/// Each line is cut at the first `!` or `#` outside quotes and ends with one
/// `\n` in the output (a last line without `\n` gets one too).
pub open spec fn strip_from(s: Seq<char>, i: int, q: (bool, bool), skip: bool) -> Seq<char>
    decreases s.len() - i,
{
    if i >= s.len() {
        if s.len() > 0 && s.last() != '\n' {
            seq!['\n']
        } else {
            Seq::empty()
        }
    } else if s[i] == '\n' {
        seq!['\n'] + strip_from(s, i + 1, (false, false), false)
    } else if s[i] == '\r' && i + 1 < s.len() && s[i + 1] == '\n' {
        strip_from(s, i + 1, q, skip)
    } else if skip {
        strip_from(s, i + 1, q, true)
    } else {
        let q2 = quote_step(q, s[i]);
        if !q2.0 && !q2.1 && is_comment_start(s[i]) {
            strip_from(s, i + 1, q2, true)
        } else {
            seq![s[i]] + strip_from(s, i + 1, q2, false)
        }
    }
}

/// `s` without its comments, line by line.
pub open spec fn stripped(s: Seq<char>) -> Seq<char> {
    strip_from(s, 0, (false, false), false)
}

/// The text with `!` and `#` comments removed from every line.
pub fn strip_comments(input: &Vec<char>) -> (out: Vec<char>)
    ensures
        out@ == stripped(input@),
{
    let mut out: Vec<char> = Vec::new();
    let mut i: usize = 0;
    let mut sq = false;
    let mut dq = false;
    let mut skip = false;
    while i < input.len()
        invariant
            i <= input.len(),
            out@ + strip_from(input@, i as int, (sq, dq), skip) == stripped(input@),
        decreases input.len() - i,
    {
        let c = input[i];
        let ghost before = out@;
        let ghost rest = strip_from(input@, i as int + 1, (false, false), false);
        if c == '\n' {
            out.push('\n');
            sq = false;
            dq = false;
            skip = false;
            assert(before + (seq!['\n'] + rest) =~= out@ + rest);
        } else if c == '\r' && i + 1 < input.len() && input[i + 1] == '\n' {
        } else if skip {
        } else {
            if c == '\'' && !dq {
                sq = !sq;
            } else if c == '"' && !sq {
                dq = !dq;
            }
            if !sq && !dq && (c == '!' || c == '#') {
                skip = true;
            } else {
                let ghost r2 = strip_from(input@, i as int + 1, (sq, dq), false);
                out.push(c);
                assert(before + (seq![c] + r2) =~= out@ + r2);
            }
        }
        i = i + 1;
    }
    let ghost before = out@;
    if input.len() > 0 && input[input.len() - 1] != '\n' {
        out.push('\n');
        assert(before + seq!['\n'] =~= out@);
    } else {
        assert(before + Seq::<char>::empty() =~= before);
    }
    out
}

// ---------------------------------------------------------------------------
// `&NAME ... /` sections
// ---------------------------------------------------------------------------

/// Characters of a section name.
pub open spec fn is_name_char(c: char) -> bool {
    is_ascii_alnum(c) || c == '_'
}

/// The first index at or after `k` holding an `&` (at least `k`; `>= s.len()`
/// when there is none).
pub open spec fn next_amp(s: Seq<char>, k: int) -> int
    decreases s.len() - k,
{
    if k >= s.len() {
        k
    } else if s[k] == '&' {
        k
    } else {
        next_amp(s, k + 1)
    }
}

/// The end of the run of name characters that starts at `k`.
pub open spec fn name_end(s: Seq<char>, k: int) -> int
    decreases s.len() - k,
{
    if 0 <= k < s.len() && is_name_char(s[k]) {
        name_end(s, k + 1)
    } else {
        k
    }
}

/// The first `/` at or after `k` outside quotes, reading from quote state `q`.
pub open spec fn terminator_from(s: Seq<char>, k: int, q: (bool, bool)) -> Option<int>
    decreases s.len() - k,
{
    if k < 0 || k >= s.len() {
        None
    } else if s[k] == '/' && !q.0 && !q.1 {
        Some(k)
    } else {
        terminator_from(s, k + 1, quote_step(q, s[k]))
    }
}

/// The next `&` is found at or after the starting index.
pub proof fn lemma_next_amp(s: Seq<char>, k: int)
    ensures
        next_amp(s, k) >= k,
    decreases s.len() - k,
{
    if k < s.len() && s[k] != '&' {
        lemma_next_amp(s, k + 1);
    }
}

/// A section name ends at or after its start and within the text.
pub proof fn lemma_name_end(s: Seq<char>, k: int)
    ensures
        name_end(s, k) >= k,
        k <= s.len() ==> name_end(s, k) <= s.len(),
    decreases s.len() - k,
{
    if 0 <= k < s.len() && is_name_char(s[k]) {
        lemma_name_end(s, k + 1);
    }
}

/// A terminator, when found, is a `/` at or after the starting index and
/// inside the text.
pub proof fn lemma_terminator_from(s: Seq<char>, k: int, q: (bool, bool))
    ensures
        terminator_from(s, k, q) matches Some(t) ==> k <= t < s.len() && s[t] == '/',
    decreases s.len() - k,
{
    if 0 <= k < s.len() && !(s[k] == '/' && !q.0 && !q.1) {
        lemma_terminator_from(s, k + 1, quote_step(q, s[k]));
    }
}

/// The bodies of the `&target ... /` sections of `s` from index `i` on, in
/// order (`None` when one of them has no terminating `/`). Section names are
/// compared in ASCII lower case; a body runs from the end of the name to the
/// first `/` outside quotes.
pub open spec fn sections_from(s: Seq<char>, target: Seq<char>, i: int) -> Option<
    Seq<Seq<char>>,
>
    decreases s.len() - i,
{
    let a = next_amp(s, i);
    if i < 0 || a >= s.len() {
        Some(Seq::empty())
    } else {
        let e = name_end(s, a + 1);
        if e == a + 1 {
            proof {
                lemma_next_amp(s, i);
            }
            sections_from(s, target, a + 1)
        } else if lower(s.subrange(a + 1, e)) != lower(target) {
            proof {
                lemma_next_amp(s, i);
                lemma_name_end(s, a + 1);
            }
            sections_from(s, target, e)
        } else {
            match terminator_from(s, e, (false, false)) {
                None => None,
                Some(t) => {
                    proof {
                        lemma_next_amp(s, i);
                        lemma_name_end(s, a + 1);
                        lemma_terminator_from(s, e, (false, false));
                    }
                    match sections_from(s, target, t + 1) {
                        None => None,
                        Some(rest) => Some(seq![s.subrange(e, t)] + rest),
                    }
                },
            }
        }
    }
}

/// Bodies of the sections named `target` in `s`, in order, or `None` when
/// one of them lacks its terminating `/`.
pub open spec fn sections_of(s: Seq<char>, target: Seq<char>) -> Option<Seq<Seq<char>>> {
    sections_from(s, target, 0)
}

/// Message for a section `name` without a terminating `/`.
pub open spec fn missing_terminator_message(name: Seq<char>) -> Seq<char> {
    "section `&"@ + name + "` is missing a terminating `/`"@
}

/// Character vectors as sequences.
pub open spec fn char_vecs_view(v: Seq<Vec<char>>) -> Seq<Seq<char>> {
    v.map_values(|x: Vec<char>| x@)
}

fn find_amp(s: &Vec<char>, k: usize) -> (r: usize)
    requires
        k <= s.len(),
    ensures
        r == next_amp(s@, k as int),
        k <= r <= s.len(),
{
    let mut j = k;
    while j < s.len() && s[j] != '&'
        invariant
            k <= j <= s.len(),
            next_amp(s@, k as int) == next_amp(s@, j as int),
        decreases s.len() - j,
    {
        j = j + 1;
    }
    j
}

fn find_name_end(s: &Vec<char>, k: usize) -> (r: usize)
    requires
        k <= s.len(),
    ensures
        r == name_end(s@, k as int),
        k <= r <= s.len(),
{
    let mut j = k;
    while j < s.len() && (is_alnum(s[j]) || s[j] == '_')
        invariant
            k <= j <= s.len(),
            name_end(s@, k as int) == name_end(s@, j as int),
        decreases s.len() - j,
    {
        j = j + 1;
    }
    j
}

fn find_terminator(s: &Vec<char>, k: usize) -> (r: Option<usize>)
    requires
        k <= s.len(),
    ensures
        r matches Some(t) ==> terminator_from(s@, k as int, (false, false)) == Some(t as int),
        r is None ==> terminator_from(s@, k as int, (false, false)) is None,
{
    let mut j = k;
    let mut sq = false;
    let mut dq = false;
    while j < s.len()
        invariant
            k <= j <= s.len(),
            terminator_from(s@, k as int, (false, false)) == terminator_from(
                s@,
                j as int,
                (sq, dq),
            ),
        decreases s.len() - j,
    {
        let c = s[j];
        if c == '/' && !sq && !dq {
            return Some(j);
        }
        if c == '\'' && !dq {
            sq = !sq;
        } else if c == '"' && !sq {
            dq = !dq;
        }
        j = j + 1;
    }
    None
}

/// The bodies of all `&section_name ... /` sections of `input`, in order.
pub fn extract_namelist_sections(input: &Vec<char>, section_name: &str) -> (r: Result<
    Vec<Vec<char>>,
    String,
>)
    ensures
        match r {
            Ok(v) => sections_of(input@, section_name@) == Some(char_vecs_view(v@)),
            Err(m) => sections_of(input@, section_name@) is None && m@
                == missing_terminator_message(section_name@),
        },
{
    let name_chars = to_chars(section_name);
    let target = lower_range(&name_chars, 0, name_chars.len());
    proof {
        assert(name_chars@.subrange(0, name_chars@.len() as int) =~= section_name@);
    }
    let mut sections: Vec<Vec<char>> = Vec::new();
    let mut idx: usize = 0;
    while idx < input.len()
        invariant
            idx <= input.len(),
            target@ == lower(section_name@),
            sections_of(input@, section_name@) == match sections_from(
                input@,
                section_name@,
                idx as int,
            ) {
                None => None,
                Some(rest) => Some(char_vecs_view(sections@) + rest),
            },
        decreases input.len() - idx,
    {
        let ghost old_sections = sections@;
        let a = find_amp(input, idx);
        if a >= input.len() {
            proof {
                assert(sections_from(input@, section_name@, idx as int) == Some(
                    Seq::<Seq<char>>::empty(),
                ));
                assert(char_vecs_view(sections@) + Seq::<Seq<char>>::empty() =~= char_vecs_view(
                    sections@,
                ));
            }
            return Ok(sections);
        }
        let e = find_name_end(input, a + 1);
        if e == a + 1 {
            idx = a + 1;
        } else {
            let name = lower_range(input, a + 1, e);
            let mut same = name.len() == target.len();
            let mut j: usize = 0;
            while same && j < name.len()
                invariant
                    name.len() == target.len() || !same,
                    j <= name.len(),
                    same ==> forall|m: int| 0 <= m < j ==> name@[m] == target@[m],
                    !same ==> name@ != target@,
                decreases name.len() - j,
            {
                if name[j] != target[j] {
                    same = false;
                }
                j = j + 1;
            }
            proof {
                if same {
                    assert(name@ =~= target@);
                }
            }
            if !same {
                idx = e;
            } else {
                match find_terminator(input, e) {
                    None => {
                        let mut m = String::from_str("section `&");
                        m.append(section_name);
                        m.append("` is missing a terminating `/`");
                        return Err(m);
                    },
                    Some(t) => {
                        proof {
                            lemma_terminator_from(input@, e as int, (false, false));
                        }
                        let body = slice_chars(input, e, t);
                        sections.push(body);
                        proof {
                            let rest = sections_from(input@, section_name@, t as int + 1);
                            assert(char_vecs_view(sections@) =~= char_vecs_view(old_sections).push(
                                body@,
                            ));
                            if let Some(r) = rest {
                                assert(char_vecs_view(old_sections) + (seq![body@] + r)
                                    =~= char_vecs_view(sections@) + r);
                            }
                        }
                        idx = t + 1;
                    },
                }
            }
        }
    }
    proof {
        assert(sections_from(input@, section_name@, idx as int) == Some(
            Seq::<Seq<char>>::empty(),
        ));
        assert(char_vecs_view(sections@) + Seq::<Seq<char>>::empty() =~= char_vecs_view(
            sections@,
        ));
    }
    Ok(sections)
}

// ---------------------------------------------------------------------------
// Key/value maps
// ---------------------------------------------------------------------------

/// The map that a list of `(key, value)` pairs describes; a later pair for
/// the same key replaces an earlier one.
pub open spec fn assignment_map(l: Seq<(Seq<char>, Seq<char>)>) -> Map<Seq<char>, Seq<char>>
    decreases l.len(),
{
    if l.len() == 0 {
        Map::empty()
    } else {
        assignment_map(l.drop_last()).insert(l.last().0, l.last().1)
    }
}

/// Key/value pairs as character sequences.
pub open spec fn entry_views(s: Seq<(String, String)>) -> Seq<(Seq<char>, Seq<char>)> {
    s.map_values(|p: (String, String)| (p.0@, p.1@))
}

/// No key occurs twice.
pub open spec fn keys_distinct(s: Seq<(String, String)>) -> bool {
    forall|i: int, j: int| 0 <= i < j < s.len() ==> #[trigger] s[i].0@ != #[trigger] s[j].0@
}

/// String keys with string values, as read from an assignment list. Each key
/// occurs once; its view is the map from key text to value text.
#[derive(Debug)]
pub struct ConfigMap {
    entries: Vec<(String, String)>,
}

impl View for ConfigMap {
    type V = Map<Seq<char>, Seq<char>>;

    closed spec fn view(&self) -> Map<Seq<char>, Seq<char>> {
        assignment_map(entry_views(self.entries@))
    }
}

proof fn lemma_map_present(s: Seq<(String, String)>, j: int)
    requires
        keys_distinct(s),
        0 <= j < s.len(),
    ensures
        assignment_map(entry_views(s)).contains_key(s[j].0@),
        assignment_map(entry_views(s))[s[j].0@] == s[j].1@,
    decreases s.len(),
{
    let v = entry_views(s);
    assert(v.drop_last() =~= entry_views(s.drop_last()));
    if j < s.len() - 1 {
        lemma_map_present(s.drop_last(), j);
        assert(s[j].0@ != s[s.len() - 1].0@);
    }
}

proof fn lemma_map_absent(s: Seq<(String, String)>, k: Seq<char>)
    requires
        forall|i: int| 0 <= i < s.len() ==> s[i].0@ != k,
    ensures
        !assignment_map(entry_views(s)).contains_key(k),
    decreases s.len(),
{
    if s.len() > 0 {
        let v = entry_views(s);
        assert(v.drop_last() =~= entry_views(s.drop_last()));
        lemma_map_absent(s.drop_last(), k);
    }
}

proof fn lemma_map_update(s: Seq<(String, String)>, j: int, p: (String, String))
    requires
        keys_distinct(s),
        0 <= j < s.len(),
        s[j].0@ == p.0@,
    ensures
        assignment_map(entry_views(s.update(j, p))) == assignment_map(entry_views(s)).insert(
            p.0@,
            p.1@,
        ),
    decreases s.len(),
{
    let t = s.update(j, p);
    assert(entry_views(s).drop_last() =~= entry_views(s.drop_last()));
    assert(entry_views(t).drop_last() =~= entry_views(t.drop_last()));
    if j == s.len() - 1 {
        assert(t.drop_last() =~= s.drop_last());
        assert(assignment_map(entry_views(t)) =~= assignment_map(entry_views(s)).insert(
            p.0@,
            p.1@,
        ));
    } else {
        assert(t.drop_last() =~= s.drop_last().update(j, p));
        lemma_map_update(s.drop_last(), j, p);
        assert(s[j].0@ != s[s.len() - 1].0@);
        assert(assignment_map(entry_views(t)) =~= assignment_map(entry_views(s)).insert(
            p.0@,
            p.1@,
        ));
    }
}

impl ConfigMap {
    #[verifier::type_invariant]
    closed spec fn inv(self) -> bool {
        keys_distinct(self.entries@)
    }

    /// The empty map.
    pub fn new() -> (m: Self)
        ensures
            m@ == Map::<Seq<char>, Seq<char>>::empty(),
    {
        let m = ConfigMap { entries: Vec::new() };
        proof {
            assert(entry_views(m.entries@) =~= Seq::empty());
        }
        m
    }

    /// Sets `key` to `value`, replacing an earlier value of `key`.
    pub fn insert(&mut self, key: String, value: String)
        ensures
            final(self)@ == old(self)@.insert(key@, value@),
    {
        proof {
            use_type_invariant(&*self);
        }
        let mut entries: Vec<(String, String)> = Vec::new();
        std::mem::swap(&mut entries, &mut self.entries);
        let ghost s = entries@;
        let mut i: usize = 0;
        while i < entries.len()
            invariant
                i <= entries.len(),
                entries@ == s,
                s == old(self).entries@,
                keys_distinct(s),
                forall|m: int| 0 <= m < i ==> s[m].0@ != key@,
            decreases entries.len() - i,
        {
            if entries[i].0 == key {
                proof {
                    lemma_map_update(s, i as int, (key, value));
                    assert forall|a: int, b: int|
                        0 <= a < b < s.len() implies #[trigger] s.update(i as int, (key, value))[a].0@
                        != #[trigger] s.update(i as int, (key, value))[b].0@ by {}
                }
                entries.set(i, (key, value));
                self.entries = entries;
                return;
            }
            i = i + 1;
        }
        proof {
            let t = s.push((key, value));
            assert(entry_views(t).drop_last() =~= entry_views(s));
            assert forall|a: int, b: int| 0 <= a < b < t.len() implies #[trigger] t[a].0@
                != #[trigger] t[b].0@ by {
                if b == s.len() {
                    assert(t[a] == s[a]);
                }
            }
        }
        entries.push((key, value));
        self.entries = entries;
    }

    /// The value of `key`, if it has one.
    pub fn get(&self, key: &str) -> (r: Option<&String>)
        ensures
            match r {
                Some(v) => self@.contains_key(key@) && self@[key@] == v@,
                None => !self@.contains_key(key@),
            },
    {
        proof {
            use_type_invariant(self);
        }
        let k = String::from_str(key);
        let mut i: usize = 0;
        while i < self.entries.len()
            invariant
                i <= self.entries.len(),
                k@ == key@,
                keys_distinct(self.entries@),
                forall|m: int| 0 <= m < i ==> self.entries@[m].0@ != key@,
            decreases self.entries.len() - i,
        {
            if self.entries[i].0 == k {
                proof {
                    lemma_map_present(self.entries@, i as int);
                }
                return Some(&self.entries[i].1);
            }
            i = i + 1;
        }
        proof {
            lemma_map_absent(self.entries@, key@);
        }
        None
    }

    /// The entries, each key once; they describe the map exactly.
    pub fn entries(&self) -> (r: &Vec<(String, String)>)
        ensures
            keys_distinct(r@),
            assignment_map(entry_views(r@)) == self@,
    {
        proof {
            use_type_invariant(self);
        }
        &self.entries
    }
}

// ---------------------------------------------------------------------------
// `key = value` lists
// ---------------------------------------------------------------------------

/// A character that ends a value outside quotes.
pub open spec fn is_value_break(c: char) -> bool {
    c == ',' || c == '\n' || c == '\r'
}

/// First index at or after `k` that is neither whitespace nor `,`.
pub open spec fn skip_separators(s: Seq<char>, k: int) -> int
    decreases s.len() - k,
{
    if 0 <= k < s.len() && (is_ws(s[k]) || s[k] == ',') {
        skip_separators(s, k + 1)
    } else {
        k
    }
}

/// First index at or after `k` that is not whitespace.
pub open spec fn skip_spaces(s: Seq<char>, k: int) -> int
    decreases s.len() - k,
{
    if 0 <= k < s.len() && is_ws(s[k]) {
        skip_spaces(s, k + 1)
    } else {
        k
    }
}

/// First index at or after `k` holding `=`, `,`, `\n` or `\r`.
pub open spec fn key_end(s: Seq<char>, k: int) -> int
    decreases s.len() - k,
{
    if 0 <= k < s.len() && s[k] != '=' && !is_value_break(s[k]) {
        key_end(s, k + 1)
    } else {
        k
    }
}

/// First index at or after `k` holding `,`, `\n` or `\r` outside quotes,
/// reading from quote state `q`.
pub open spec fn value_end(s: Seq<char>, k: int, q: (bool, bool)) -> int
    decreases s.len() - k,
{
    if 0 <= k < s.len() && !(!q.0 && !q.1 && is_value_break(s[k])) {
        value_end(s, k + 1, quote_step(q, s[k]))
    } else {
        k
    }
}

/// Skipping separators stays within the text.
pub proof fn lemma_skip_separators(s: Seq<char>, k: int)
    requires
        0 <= k <= s.len(),
    ensures
        k <= skip_separators(s, k) <= s.len(),
    decreases s.len() - k,
{
    if k < s.len() && (is_ws(s[k]) || s[k] == ',') {
        lemma_skip_separators(s, k + 1);
    }
}

/// Skipping spaces stays within the text.
pub proof fn lemma_skip_spaces(s: Seq<char>, k: int)
    requires
        0 <= k <= s.len(),
    ensures
        k <= skip_spaces(s, k) <= s.len(),
    decreases s.len() - k,
{
    if k < s.len() && is_ws(s[k]) {
        lemma_skip_spaces(s, k + 1);
    }
}

/// A key ends at or after its start and within the text.
pub proof fn lemma_key_end(s: Seq<char>, k: int)
    requires
        0 <= k <= s.len(),
    ensures
        k <= key_end(s, k) <= s.len(),
    decreases s.len() - k,
{
    if k < s.len() && s[k] != '=' && !is_value_break(s[k]) {
        lemma_key_end(s, k + 1);
    }
}

/// A value ends at or after its start and within the text.
pub proof fn lemma_value_end(s: Seq<char>, k: int, q: (bool, bool))
    requires
        0 <= k <= s.len(),
    ensures
        k <= value_end(s, k, q) <= s.len(),
    decreases s.len() - k,
{
    if k < s.len() && !(!q.0 && !q.1 && is_value_break(s[k])) {
        lemma_value_end(s, k + 1, quote_step(q, s[k]));
    }
}

/// `v` without one pair of matching wrapping quotes (`'...'` or `"..."`).
pub open spec fn unquoted(v: Seq<char>) -> Seq<char> {
    if v.len() >= 2 && ((v[0] == '\'' && v.last() == '\'') || (v[0] == '"' && v.last() == '"')) {
        v.subrange(1, v.len() - 1)
    } else {
        v
    }
}

/// Message for a key followed by something other than `=`.
pub open spec fn expected_eq_message(key: Seq<char>) -> Seq<char> {
    "expected `=` after key `"@ + key + "`"@
}

/// Message for a key at the end of the text.
pub open spec fn missing_eq_message(key: Seq<char>) -> Seq<char> {
    "missing `=` for key `"@ + key + "`"@
}

/// Message for an `=` without a key before it.
pub open spec fn empty_key_message() -> Seq<char> {
    "empty key before `=`"@
}

/// Message for a key whose value is empty.
pub open spec fn empty_value_message(key: Seq<char>) -> Seq<char> {
    "empty value for key `"@ + key + "`"@
}

/// The assignments of `s[i..]`, in order, or the message of the first error.
///
/// Assignments are separated by whitespace and commas. A key runs up to `=`
/// (a `,` or line break before it is an error) and is trimmed and lower-cased;
/// a value runs up to the next `,` or line break outside quotes and is trimmed
/// and loses one pair of wrapping quotes. Neither may be empty.
pub open spec fn assignments_from(s: Seq<char>, i: int) -> Result<
    Seq<(Seq<char>, Seq<char>)>,
    Seq<char>,
>
    decreases s.len() - i,
{
    if i < 0 || i > s.len() {
        Ok(Seq::empty())
    } else {
        let k0 = skip_separators(s, i);
        if k0 >= s.len() {
            Ok(Seq::empty())
        } else {
            let ke = key_end(s, k0);
            proof {
                lemma_skip_separators(s, i);
                lemma_key_end(s, k0);
            }
            let raw_key = s.subrange(k0, ke);
            if ke >= s.len() {
                Err(missing_eq_message(trim(raw_key)))
            } else if s[ke] != '=' {
                Err(expected_eq_message(trim(raw_key)))
            } else {
                let key = lower(trim(raw_key));
                if key.len() == 0 {
                    Err(empty_key_message())
                } else {
                    let v0 = skip_spaces(s, ke + 1);
                    proof {
                        lemma_skip_spaces(s, ke + 1);
                    }
                    let ve = value_end(s, v0, (false, false));
                    proof {
                        lemma_value_end(s, v0, (false, false));
                    }
                    let value = unquoted(trim(s.subrange(v0, ve)));
                    if value.len() == 0 {
                        Err(empty_value_message(key))
                    } else {
                        match assignments_from(s, ve) {
                            Ok(rest) => Ok(seq![(key, value)] + rest),
                            Err(m) => Err(m),
                        }
                    }
                }
            }
        }
    }
}

/// The assignments of an input text, comments removed first.
pub open spec fn assignments_of(input: Seq<char>) -> Result<
    Seq<(Seq<char>, Seq<char>)>,
    Seq<char>,
> {
    assignments_from(stripped(input), 0)
}

fn skip_separators_at(s: &Vec<char>, k: usize) -> (r: usize)
    requires
        k <= s.len(),
    ensures
        r == skip_separators(s@, k as int),
        k <= r <= s.len(),
{
    let mut j = k;
    while j < s.len() && (is_whitespace(s[j]) || s[j] == ',')
        invariant
            k <= j <= s.len(),
            skip_separators(s@, k as int) == skip_separators(s@, j as int),
        decreases s.len() - j,
    {
        j = j + 1;
    }
    j
}

fn skip_spaces_at(s: &Vec<char>, k: usize) -> (r: usize)
    requires
        k <= s.len(),
    ensures
        r == skip_spaces(s@, k as int),
        k <= r <= s.len(),
{
    let mut j = k;
    while j < s.len() && is_whitespace(s[j])
        invariant
            k <= j <= s.len(),
            skip_spaces(s@, k as int) == skip_spaces(s@, j as int),
        decreases s.len() - j,
    {
        j = j + 1;
    }
    j
}

fn key_end_at(s: &Vec<char>, k: usize) -> (r: usize)
    requires
        k <= s.len(),
    ensures
        r == key_end(s@, k as int),
        k <= r <= s.len(),
{
    let mut j = k;
    while j < s.len() && s[j] != '=' && s[j] != ',' && s[j] != '\n' && s[j] != '\r'
        invariant
            k <= j <= s.len(),
            key_end(s@, k as int) == key_end(s@, j as int),
        decreases s.len() - j,
    {
        j = j + 1;
    }
    j
}

fn value_end_at(s: &Vec<char>, k: usize) -> (r: usize)
    requires
        k <= s.len(),
    ensures
        r == value_end(s@, k as int, (false, false)),
        k <= r <= s.len(),
{
    let mut j = k;
    let mut sq = false;
    let mut dq = false;
    while j < s.len() && !(!sq && !dq && (s[j] == ',' || s[j] == '\n' || s[j] == '\r'))
        invariant
            k <= j <= s.len(),
            value_end(s@, k as int, (false, false)) == value_end(s@, j as int, (sq, dq)),
        decreases s.len() - j,
    {
        let c = s[j];
        if c == '\'' && !dq {
            sq = !sq;
        } else if c == '"' && !sq {
            dq = !dq;
        }
        j = j + 1;
    }
    j
}

/// `input` without one pair of matching wrapping quotes.
pub fn trim_wrapping_quotes(input: &Vec<char>) -> (r: Vec<char>)
    ensures
        r@ == unquoted(input@),
{
    let n = input.len();
    if n >= 2 && ((input[0] == '\'' && input[n - 1] == '\'') || (input[0] == '"' && input[n
        - 1] == '"')) {
        slice_chars(input, 1, n - 1)
    } else {
        slice_chars(input, 0, n)
    }
}

fn message_with(prefix: &str, middle: &Vec<char>, suffix: &str) -> (m: String)
    ensures
        m@ == prefix@ + middle@ + suffix@,
{
    let mut m = String::from_str(prefix);
    let mid = string_from_chars(slice_chars(middle, 0, middle.len()));
    proof {
        assert(middle@.subrange(0, middle@.len() as int) =~= middle@);
    }
    m.append(mid.as_str());
    m.append(suffix);
    m
}

/// The map of the assignments in `input` (comments removed first); the
/// message of the first malformed assignment otherwise.
pub fn parse_assignments(input: &Vec<char>) -> (r: Result<ConfigMap, String>)
    ensures
        match r {
            Ok(m) => assignments_of(input@) matches Ok(l) && m@ == assignment_map(l),
            Err(e) => assignments_of(input@) == Err::<Seq<(Seq<char>, Seq<char>)>, Seq<char>>(
                e@,
            ),
        },
{
    let s = strip_comments(input);
    let mut map = ConfigMap::new();
    let ghost mut done: Seq<(Seq<char>, Seq<char>)> = Seq::empty();
    let mut i: usize = 0;
    proof {
        assert(done + Seq::<(Seq<char>, Seq<char>)>::empty() =~= done);
    }
    loop
        invariant
            i <= s.len(),
            s@ == stripped(input@),
            map@ == assignment_map(done),
            assignments_from(s@, 0) == match assignments_from(s@, i as int) {
                Ok(rest) => Ok(done + rest),
                Err(e) => Err(e),
            },
        decreases s.len() - i,
    {
        let k0 = skip_separators_at(&s, i);
        if k0 >= s.len() {
            proof {
                assert(done + Seq::<(Seq<char>, Seq<char>)>::empty() =~= done);
            }
            return Ok(map);
        }
        let ke = key_end_at(&s, k0);
        let (klo, khi) = trim_bounds(&s, k0, ke);
        if ke >= s.len() {
            let shown = slice_chars(&s, klo, khi);
            return Err(message_with("missing `=` for key `", &shown, "`"));
        }
        if s[ke] != '=' {
            let shown = slice_chars(&s, klo, khi);
            return Err(message_with("expected `=` after key `", &shown, "`"));
        }
        let key = lower_range(&s, klo, khi);
        if key.len() == 0 {
            return Err(String::from_str("empty key before `=`"));
        }
        let v0 = skip_spaces_at(&s, ke + 1);
        let ve = value_end_at(&s, v0);
        let (vlo, vhi) = trim_bounds(&s, v0, ve);
        let trimmed = slice_chars(&s, vlo, vhi);
        let value = trim_wrapping_quotes(&trimmed);
        if value.len() == 0 {
            return Err(message_with("empty value for key `", &key, "`"));
        }
        let ghost pair = (key@, value@);
        let ghost before = done;
        proof {
            if let Ok(rest) = assignments_from(s@, ve as int) {
                assert(before + (seq![pair] + rest) =~= before.push(pair) + rest);
            }
            assert(before.push(pair).drop_last() =~= before);
        }
        map.insert(string_from_chars(key), string_from_chars(value));
        proof {
            done = before.push(pair);
        }
        i = ve;
    }
}

} // verus!
