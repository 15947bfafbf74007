//! Character-level helpers shared by the configuration and manifest parsers.

use vstd::prelude::*;
use vstd::std_specs::iter::IteratorSpec;

verus! {

broadcast use vstd::string::group_string_axioms;

/// Unicode `White_Space`, the property `char::is_whitespace` and `str::trim` use.
pub open spec fn is_ws(c: char) -> bool {
    ||| ('\t' <= c && c <= '\r')
    ||| c == ' '
    ||| c == '\u{85}'
    ||| c == '\u{A0}'
    ||| c == '\u{1680}'
    ||| ('\u{2000}' <= c && c <= '\u{200A}')
    ||| c == '\u{2028}'
    ||| c == '\u{2029}'
    ||| c == '\u{202F}'
    ||| c == '\u{205F}'
    ||| c == '\u{3000}'
}

/// Whitespace test with the exact meaning of `char::is_whitespace`.
pub fn is_whitespace(c: char) -> (b: bool)
    ensures
        b == is_ws(c),
{
    ('\t' <= c && c <= '\r') || c == ' ' || c == '\u{85}' || c == '\u{A0}' || c == '\u{1680}'
        || ('\u{2000}' <= c && c <= '\u{200A}') || c == '\u{2028}' || c == '\u{2029}'
        || c == '\u{202F}' || c == '\u{205F}' || c == '\u{3000}'
}

/// The characters of `s`, in order.
pub fn to_chars(s: &str) -> (v: Vec<char>)
    ensures
        v@ == s@,
{
    let mut it = s.chars();
    let mut v: Vec<char> = Vec::new();
    loop
        invariant
            v@ + it.remaining() == s@,
            it.decrease() is Some,
        decreases it.decrease()->0,
    {
        let ghost before = it.remaining();
        match it.next() {
            Some(c) => {
                v.push(c);
                assert(v@ + it.remaining() =~= s@) by {
                    assert(before =~= seq![c] + it.remaining());
                }
            },
            None => {
                assert(v@ =~= s@);
                return v;
            },
        }
    }
}

/// std's `String::from_iter` over characters: the string made of the
/// characters of `chars`, in order.
#[verifier::external_body]
pub(crate) fn string_from_chars(chars: Vec<char>) -> (s: String)
    ensures
        s@ == chars@,
{
    String::from_iter(chars)
}

/// ASCII decimal digits.
pub open spec fn is_digit(c: char) -> bool {
    '0' <= c && c <= '9'
}

/// The value of an ASCII decimal digit.
pub open spec fn digit_value(c: char) -> int {
    (c as int) - ('0' as int)
}

/// The ASCII decimal digit for a value in `0..10`.
pub open spec fn digit_char(v: int) -> char {
    ((v + ('0' as int)) as u32) as char
}

/// Whether `c` is an ASCII decimal digit.
pub fn is_ascii_digit(c: char) -> (b: bool)
    ensures
        b == is_digit(c),
{
    '0' <= c && c <= '9'
}

/// The value of an ASCII decimal digit.
pub fn digit_of(c: char) -> (v: u32)
    requires
        is_digit(c),
    ensures
        v == digit_value(c),
        v < 10,
{
    (c as u32) - ('0' as u32)
}

/// The ASCII decimal digit for a value in `0..10`.
pub fn char_of_digit(v: u32) -> (c: char)
    requires
        v < 10,
    ensures
        c == digit_char(v as int),
        is_digit(c),
        digit_value(c) == v,
{
    let b: u8 = (v as u8) + 48u8;
    b as char
}

/// ASCII upper-case letters.
pub open spec fn is_upper(c: char) -> bool {
    'A' <= c && c <= 'Z'
}

/// ASCII letters and decimal digits.
pub open spec fn is_ascii_alnum(c: char) -> bool {
    is_digit(c) || is_upper(c) || ('a' <= c && c <= 'z')
}

/// `char::to_ascii_lowercase`.
pub open spec fn lower_char(c: char) -> char {
    if is_upper(c) {
        ((c as int + 32) as u32) as char
    } else {
        c
    }
}

/// `str::to_ascii_lowercase`, character by character.
pub open spec fn lower(s: Seq<char>) -> Seq<char> {
    s.map_values(|c: char| lower_char(c))
}

/// `char::to_ascii_lowercase`.
pub fn to_lower_char(c: char) -> (r: char)
    ensures
        r == lower_char(c),
{
    if 'A' <= c && c <= 'Z' {
        let b: u8 = (c as u8) + 32u8;
        b as char
    } else {
        c
    }
}

/// Whether `c` is an ASCII letter or decimal digit.
pub fn is_alnum(c: char) -> (b: bool)
    ensures
        b == is_ascii_alnum(c),
{
    ('0' <= c && c <= '9') || ('A' <= c && c <= 'Z') || ('a' <= c && c <= 'z')
}

/// The characters `s[a..b]` in ASCII lower case.
pub fn lower_range(s: &Vec<char>, a: usize, b: usize) -> (r: Vec<char>)
    requires
        a <= b <= s.len(),
    ensures
        r@ == lower(s@.subrange(a as int, b as int)),
{
    let mut r: Vec<char> = Vec::new();
    let mut i = a;
    while i < b
        invariant
            a <= i <= b <= s.len(),
            r@ == lower(s@.subrange(a as int, i as int)),
        decreases b - i,
    {
        r.push(to_lower_char(s[i]));
        i = i + 1;
        assert(r@ =~= lower(s@.subrange(a as int, i as int)));
    }
    r
}

/// The characters `s[a..b]`.
pub fn slice_chars(s: &Vec<char>, a: usize, b: usize) -> (r: Vec<char>)
    requires
        a <= b <= s.len(),
    ensures
        r@ == s@.subrange(a as int, b as int),
{
    let mut r: Vec<char> = Vec::new();
    let mut i = a;
    while i < b
        invariant
            a <= i <= b <= s.len(),
            r@ == s@.subrange(a as int, i as int),
        decreases b - i,
    {
        r.push(s[i]);
        i = i + 1;
        assert(r@ =~= s@.subrange(a as int, i as int));
    }
    r
}

/// Whether two character vectors hold the same characters.
pub fn chars_equal(a: &Vec<char>, b: &Vec<char>) -> (r: bool)
    ensures
        r == (a@ == b@),
{
    if a.len() != b.len() {
        return false;
    }
    let mut i: usize = 0;
    while i < a.len()
        invariant
            a.len() == b.len(),
            i <= a.len(),
            forall|j: int| 0 <= j < i ==> a@[j] == b@[j],
        decreases a.len() - i,
    {
        if a[i] != b[i] {
            return false;
        }
        i = i + 1;
    }
    assert(a@ =~= b@);
    true
}

/// Leading Unicode whitespace removed (`str::trim_start`).
pub open spec fn trim_front(s: Seq<char>) -> Seq<char>
    decreases s.len(),
{
    if s.len() > 0 && is_ws(s[0]) {
        trim_front(s.drop_first())
    } else {
        s
    }
}

/// Trailing Unicode whitespace removed (`str::trim_end`).
pub open spec fn trim_back(s: Seq<char>) -> Seq<char>
    decreases s.len(),
{
    if s.len() > 0 && is_ws(s.last()) {
        trim_back(s.drop_last())
    } else {
        s
    }
}

/// `str::trim`.
pub open spec fn trim(s: Seq<char>) -> Seq<char> {
    trim_back(trim_front(s))
}

/// Bounds of `trim(s[a..b])` inside `s`.
pub fn trim_bounds(s: &Vec<char>, a: usize, b: usize) -> (r: (usize, usize))
    requires
        a <= b <= s.len(),
    ensures
        a <= r.0 <= r.1 <= b,
        s@.subrange(r.0 as int, r.1 as int) == trim(s@.subrange(a as int, b as int)),
{
    let mut lo = a;
    while lo < b && is_whitespace(s[lo])
        invariant
            a <= lo <= b <= s.len(),
            trim_front(s@.subrange(a as int, b as int)) == trim_front(
                s@.subrange(lo as int, b as int),
            ),
        decreases b - lo,
    {
        assert(s@.subrange(lo as int, b as int).drop_first() =~= s@.subrange(
            lo as int + 1,
            b as int,
        ));
        lo = lo + 1;
    }
    assert(trim_front(s@.subrange(lo as int, b as int)) == s@.subrange(lo as int, b as int));
    let mut hi = b;
    while hi > lo && is_whitespace(s[hi - 1])
        invariant
            a <= lo <= hi <= b <= s.len(),
            trim_back(s@.subrange(lo as int, b as int)) == trim_back(
                s@.subrange(lo as int, hi as int),
            ),
        decreases hi,
    {
        assert(s@.subrange(lo as int, hi as int).drop_last() =~= s@.subrange(
            lo as int,
            hi as int - 1,
        ));
        hi = hi - 1;
    }
    (lo, hi)
}

/// `a` lexicographically after `b` (the order of `String` comparison).
pub open spec fn lex_greater(a: Seq<char>, b: Seq<char>) -> bool
    decreases a.len(),
{
    if a.len() == 0 {
        false
    } else if b.len() == 0 {
        true
    } else if a[0] != b[0] {
        a[0] > b[0]
    } else {
        lex_greater(a.drop_first(), b.drop_first())
    }
}

/// Whether `a` sorts after `b` character by character.
pub fn is_lex_greater(a: &Vec<char>, b: &Vec<char>) -> (r: bool)
    ensures
        r == lex_greater(a@, b@),
{
    let mut i: usize = 0;
    assert(a@.skip(0) =~= a@);
    assert(b@.skip(0) =~= b@);
    while i < a.len() && i < b.len() && a[i] == b[i]
        invariant
            i <= a.len(),
            i <= b.len(),
            lex_greater(a@, b@) == lex_greater(a@.skip(i as int), b@.skip(i as int)),
        decreases a.len() - i,
    {
        assert(a@.skip(i as int).drop_first() =~= a@.skip(i as int + 1));
        assert(b@.skip(i as int).drop_first() =~= b@.skip(i as int + 1));
        i = i + 1;
    }
    let ghost sa = a@.skip(i as int);
    let ghost sb = b@.skip(i as int);
    if i == a.len() {
        assert(sa.len() == 0);
        false
    } else if i == b.len() {
        assert(sa.len() > 0 && sb.len() == 0);
        true
    } else {
        assert(sa[0] == a@[i as int] && sb[0] == b@[i as int]);
        a[i] > b[i]
    }
}

/// The characters of `trim(s)`.
pub fn trimmed_chars(s: &str) -> (r: Vec<char>)
    ensures
        r@ == trim(s@),
{
    let chars = to_chars(s);
    let (lo, hi) = trim_bounds(&chars, 0, chars.len());
    proof {
        assert(chars@.subrange(0, chars@.len() as int) =~= chars@);
    }
    slice_chars(&chars, lo, hi)
}

/// Whether `a` equals the text `b`.
pub fn chars_are(a: &Vec<char>, b: &str) -> (r: bool)
    ensures
        r == (a@ == b@),
{
    let bc = to_chars(b);
    chars_equal(a, &bc)
}

/// Whether `a` starts with the text `p`.
pub fn starts_with_text(a: &Vec<char>, p: &str) -> (r: bool)
    ensures
        r == (p@.len() <= a@.len() && a@.subrange(0, p@.len() as int) == p@),
{
    let pc = to_chars(p);
    if pc.len() > a.len() {
        return false;
    }
    let mut i: usize = 0;
    while i < pc.len()
        invariant
            pc.len() <= a.len(),
            pc@ == p@,
            i <= pc.len(),
            forall|j: int| 0 <= j < i ==> a@[j] == pc@[j],
        decreases pc.len() - i,
    {
        if a[i] != pc[i] {
            assert(a@.subrange(0, pc@.len() as int)[i as int] != p@[i as int]);
            return false;
        }
        i = i + 1;
    }
    assert(a@.subrange(0, pc@.len() as int) =~= p@);
    true
}

/// An ASCII hexadecimal digit (`char::is_ascii_hexdigit`).
pub open spec fn is_hex(c: char) -> bool {
    is_digit(c) || ('a' <= c && c <= 'f') || ('A' <= c && c <= 'F')
}

/// Whether `c` is an ASCII hexadecimal digit.
pub fn is_ascii_hex(c: char) -> (b: bool)
    ensures
        b == is_hex(c),
{
    ('0' <= c && c <= '9') || ('a' <= c && c <= 'f') || ('A' <= c && c <= 'F')
}

/// The decimal digits of `n`, without leading zeros.
pub open spec fn decimal_text(n: nat) -> Seq<char>
    decreases n,
{
    if n < 10 {
        seq![digit_char(n as int)]
    } else {
        decimal_text(n / 10).push(digit_char(n as int % 10))
    }
}

/// Appends the decimal digits of `n` to `out`.
pub fn push_decimal(out: &mut Vec<char>, n: u64)
    ensures
        final(out)@ == old(out)@ + decimal_text(n as nat),
    decreases n,
{
    let ghost before = out@;
    if n >= 10 {
        push_decimal(out, n / 10);
    }
    let d = char_of_digit((n % 10) as u32);
    out.push(d);
    proof {
        if n >= 10 {
            assert(out@ =~= before + decimal_text(n as nat));
        } else {
            assert(out@ =~= before + decimal_text(n as nat));
        }
    }
}

/// `n` in decimal.
pub fn decimal_string(n: u64) -> (r: String)
    ensures
        r@ == decimal_text(n as nat),
{
    let mut out: Vec<char> = Vec::new();
    push_decimal(&mut out, n);
    proof {
        assert(out@ =~= decimal_text(n as nat));
    }
    string_from_chars(out)
}

/// Every character is whitespace.
pub open spec fn all_ws(s: Seq<char>) -> bool {
    forall|i: int| 0 <= i < s.len() ==> is_ws(#[trigger] s[i])
}

proof fn lemma_lower_char_ws(c: char)
    ensures
        is_ws(lower_char(c)) == is_ws(c),
        lower_char(lower_char(c)) == lower_char(c),
{
}

/// Lower-casing keeps the whitespace at both ends, so it commutes with
/// trimming.
pub proof fn lemma_trim_lower(s: Seq<char>)
    ensures
        trim_front(lower(s)) == lower(trim_front(s)),
        trim_back(lower(s)) == lower(trim_back(s)),
        trim(lower(s)) == lower(trim(s)),
    decreases s.len(),
{
    if s.len() > 0 {
        lemma_lower_char_ws(s[0]);
        lemma_lower_char_ws(s.last());
        assert(lower(s).drop_first() =~= lower(s.drop_first()));
        assert(lower(s).drop_last() =~= lower(s.drop_last()));
        lemma_trim_lower(s.drop_first());
        lemma_trim_lower(s.drop_last());
    }
    lemma_trim_back_lower(trim_front(s));
}

proof fn lemma_trim_back_lower(s: Seq<char>)
    ensures
        trim_back(lower(s)) == lower(trim_back(s)),
    decreases s.len(),
{
    if s.len() > 0 {
        lemma_lower_char_ws(s.last());
        assert(lower(s).drop_last() =~= lower(s.drop_last()));
        lemma_trim_back_lower(s.drop_last());
    }
}

/// Lower-casing twice is lower-casing once.
pub proof fn lemma_lower_idempotent(s: Seq<char>)
    ensures
        lower(lower(s)) == lower(s),
{
    assert forall|i: int| 0 <= i < s.len() implies lower(lower(s))[i] == lower(s)[i] by {
        lemma_lower_char_ws(s[i]);
    }
    assert(lower(lower(s)) =~= lower(s));
}

proof fn lemma_trim_front_skips_prefix(w: Seq<char>, s: Seq<char>)
    requires
        all_ws(w),
    ensures
        trim_front(w + s) == trim_front(s),
    decreases w.len(),
{
    if w.len() == 0 {
        assert(w + s =~= s);
    } else {
        assert((w + s)[0] == w[0]);
        assert((w + s).drop_first() =~= w.drop_first() + s);
        lemma_trim_front_skips_prefix(w.drop_first(), s);
    }
}

proof fn lemma_trim_back_skips_suffix(s: Seq<char>, w: Seq<char>)
    requires
        all_ws(w),
    ensures
        trim_back(s + w) == trim_back(s),
    decreases w.len(),
{
    if w.len() == 0 {
        assert(s + w =~= s);
    } else {
        assert((s + w).last() == w.last());
        assert((s + w).drop_last() =~= s + w.drop_last());
        lemma_trim_back_skips_suffix(s, w.drop_last());
    }
}

proof fn lemma_trim_front_append(s: Seq<char>, w: Seq<char>)
    requires
        all_ws(w),
    ensures
        trim_front(s).len() > 0 ==> trim_front(s + w) == trim_front(s) + w,
        trim_front(s).len() == 0 ==> trim_front(s + w).len() == 0,
    decreases s.len(),
{
    if s.len() == 0 {
        assert(s + w =~= w);
        lemma_trim_front_skips_prefix(w, Seq::empty());
        assert(w + Seq::<char>::empty() =~= w);
    } else {
        assert((s + w)[0] == s[0]);
        assert((s + w).drop_first() =~= s.drop_first() + w);
        if is_ws(s[0]) {
            lemma_trim_front_append(s.drop_first(), w);
        }
    }
}

/// Whitespace added around a text does not change its trimmed form.
pub proof fn lemma_trim_ignores_padding(w1: Seq<char>, s: Seq<char>, w2: Seq<char>)
    requires
        all_ws(w1),
        all_ws(w2),
    ensures
        trim(w1 + s + w2) == trim(s),
{
    assert(w1 + s + w2 =~= w1 + (s + w2));
    lemma_trim_front_skips_prefix(w1, s + w2);
    lemma_trim_front_append(s, w2);
    if trim_front(s).len() > 0 {
        lemma_trim_back_skips_suffix(trim_front(s), w2);
    } else {
        assert(trim_back(trim_front(s + w2)) == trim_front(s + w2)) by {
            assert(trim_front(s + w2).len() == 0);
        }
    }
}

} // verus!
