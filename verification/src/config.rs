//! Typed reading of the `COMMAND` namelist and the shared key lookups, number
//! parsing and timestamp normalisation used by all configuration files.

use vstd::prelude::*;
use crate::text::{
    is_digit, is_ascii_digit, digit_of, lex_greater, is_lex_greater, trim, trim_bounds, to_chars,
    slice_chars, string_from_chars,
};
use crate::timestamp::{all_digits, digits_value, text_fields, field_value};
use crate::namelist::{
    ConfigMap, assignment_map, assignments_of, sections_of, missing_terminator_message,
    char_vecs_view, extract_namelist_sections, parse_assignments,
};

verus! {

broadcast use vstd::string::group_string_axioms;

// ---------------------------------------------------------------------------
// Errors
// ---------------------------------------------------------------------------

/// Why a configuration could not be read.
#[derive(Debug)]
pub enum ConfigError {
    /// A file or directory that must exist does not.
    MissingPath { path: String },
    /// A file exists but could not be read.
    ReadFile { path: String, message: String },
    /// The text is not well formed.
    Parse { context: String, message: String },
    /// A required key is absent.
    MissingKey { context: String, key: String },
    /// A key holds a value of the wrong form.
    InvalidValue { context: String, key: String, value: String, message: String },
    /// The values are well formed but inconsistent.
    Validation { message: String },
}

/// The text content of a [`ConfigError`].
pub enum ConfigErrorModel {
    MissingPath(Seq<char>),
    ReadFile(Seq<char>, Seq<char>),
    Parse(Seq<char>, Seq<char>),
    MissingKey(Seq<char>, Seq<char>),
    InvalidValue(Seq<char>, Seq<char>, Seq<char>, Seq<char>),
    Validation(Seq<char>),
}

impl View for ConfigError {
    type V = ConfigErrorModel;

    open spec fn view(&self) -> ConfigErrorModel {
        match self {
            ConfigError::MissingPath { path } => ConfigErrorModel::MissingPath(path@),
            ConfigError::ReadFile { path, message } => ConfigErrorModel::ReadFile(
                path@,
                message@,
            ),
            ConfigError::Parse { context, message } => ConfigErrorModel::Parse(
                context@,
                message@,
            ),
            ConfigError::MissingKey { context, key } => ConfigErrorModel::MissingKey(
                context@,
                key@,
            ),
            ConfigError::InvalidValue { context, key, value, message } =>
                ConfigErrorModel::InvalidValue(context@, key@, value@, message@),
            ConfigError::Validation { message } => ConfigErrorModel::Validation(message@),
        }
    }
}

/// The one-line description of an error.
pub open spec fn error_text(e: ConfigErrorModel) -> Seq<char> {
    match e {
        ConfigErrorModel::MissingPath(p) => "missing configuration path: "@ + p,
        ConfigErrorModel::ReadFile(p, m) => "failed to read `"@ + p + "`: "@ + m,
        ConfigErrorModel::Parse(c, m) => "parse error in "@ + c + ": "@ + m,
        ConfigErrorModel::MissingKey(c, k) => "missing key `"@ + k + "` in "@ + c,
        ConfigErrorModel::InvalidValue(c, k, v, m) => "invalid value for `"@ + k + "` in "@ + c
            + ": `"@ + v + "` ("@ + m + ")"@,
        ConfigErrorModel::Validation(m) => "validation error: "@ + m,
    }
}

impl ConfigError {
    /// The one-line description of the error.
    pub fn to_message(&self) -> (r: String)
        ensures
            r@ == error_text(self@),
    {
        match self {
            ConfigError::MissingPath { path } => {
                let mut r = String::from_str("missing configuration path: ");
                r.append(path.as_str());
                r
            },
            ConfigError::ReadFile { path, message } => {
                let mut r = String::from_str("failed to read `");
                r.append(path.as_str());
                r.append("`: ");
                r.append(message.as_str());
                r
            },
            ConfigError::Parse { context, message } => {
                let mut r = String::from_str("parse error in ");
                r.append(context.as_str());
                r.append(": ");
                r.append(message.as_str());
                r
            },
            ConfigError::MissingKey { context, key } => {
                let mut r = String::from_str("missing key `");
                r.append(key.as_str());
                r.append("` in ");
                r.append(context.as_str());
                r
            },
            ConfigError::InvalidValue { context, key, value, message } => {
                let mut r = String::from_str("invalid value for `");
                r.append(key.as_str());
                r.append("` in ");
                r.append(context.as_str());
                r.append(": `");
                r.append(value.as_str());
                r.append("` (");
                r.append(message.as_str());
                r.append(")");
                r
            },
            ConfigError::Validation { message } => {
                let mut r = String::from_str("validation error: ");
                r.append(message.as_str());
                r
            },
        }
    }
}

/// Whether a species is a gas or an aerosol.
#[derive(Clone, Copy, Debug, PartialEq, Eq, Structural)]
pub enum SpeciesKind {
    Gas,
    Aerosol,
}

// ---------------------------------------------------------------------------
// Unsigned numbers
// ---------------------------------------------------------------------------

/// The value of an unsigned decimal text: an optional `+`, then one or more
/// ASCII digits and nothing else.
pub open spec fn unsigned_text_value(s: Seq<char>) -> Option<int> {
    let d = if s.len() > 0 && s[0] == '+' {
        s.drop_first()
    } else {
        s
    };
    if d.len() > 0 && all_digits(d) {
        Some(digits_value(d))
    } else {
        None
    }
}

/// The text read as an unsigned integer of a type whose largest value is `max`
/// (`str::parse` for `u32` and `u64`).
pub open spec fn parse_unsigned_spec(s: Seq<char>, max: int) -> Option<int> {
    match unsigned_text_value(s) {
        Some(v) => if v <= max {
            Some(v)
        } else {
            None
        },
        None => None,
    }
}

proof fn lemma_digits_value_prefix(t: Seq<char>, j: int)
    requires
        all_digits(t),
        0 <= j <= t.len(),
    ensures
        0 <= digits_value(t.subrange(0, j)) <= digits_value(t),
    decreases t.len(),
{
    if j < t.len() {
        let u = t.drop_last();
        assert(u.subrange(0, j) =~= t.subrange(0, j));
        lemma_digits_value_prefix(u, j);
        assert(is_digit(t.last()));
    } else {
        assert(t.subrange(0, j) =~= t);
        lemma_digits_value_nonneg(t);
    }
}

proof fn lemma_digits_value_nonneg(t: Seq<char>)
    requires
        all_digits(t),
    ensures
        digits_value(t) >= 0,
    decreases t.len(),
{
    if t.len() > 0 {
        lemma_digits_value_nonneg(t.drop_last());
        assert(is_digit(t.last()));
    }
}

pub(crate) fn parse_unsigned(s: &Vec<char>, max: u64) -> (r: Option<u64>)
    requires
        max >= 9,
    ensures
        match r {
            Some(v) => parse_unsigned_spec(s@, max as int) == Some(v as int),
            None => parse_unsigned_spec(s@, max as int) is None,
        },
{
    let mut start: usize = 0;
    if s.len() > 0 && s[0] == '+' {
        start = 1;
    }
    let ghost d = if s@.len() > 0 && s@[0] == '+' {
        s@.drop_first()
    } else {
        s@
    };
    proof {
        assert(d =~= s@.subrange(start as int, s@.len() as int));
    }
    if start >= s.len() {
        return None;
    }
    let mut v: u64 = 0;
    let mut i = start;
    proof {
        assert(s@.subrange(start as int, start as int) =~= Seq::<char>::empty());
    }
    while i < s.len()
        invariant
            start <= i <= s.len(),
            d == s@.subrange(start as int, s@.len() as int),
            d == (if s@.len() > 0 && s@[0] == '+' {
                s@.drop_first()
            } else {
                s@
            }),
            d.len() > 0,
            max >= 9,
            all_digits(s@.subrange(start as int, i as int)),
            v == digits_value(s@.subrange(start as int, i as int)),
            v <= max,
        decreases s.len() - i,
    {
        if !is_ascii_digit(s[i]) {
            proof {
                assert(d[i - start] == s@[i as int]);
                assert(!is_digit(d[i - start]));
                assert(!all_digits(d));
            }
            return None;
        }
        let g = digit_of(s[i]) as u64;
        let ghost next = s@.subrange(start as int, i as int + 1);
        proof {
            assert(next.drop_last() =~= s@.subrange(start as int, i as int));
            assert(next.last() == s@[i as int]);
        }
        if v > (max - g) / 10 {
            proof {
                assert(v * 10 + g > max) by (nonlinear_arith)
                    requires
                        v > (max - g) / 10,
                        g <= 9,
                        max >= 9,
                ;
                if all_digits(d) {
                    assert(d.subrange(0, i - start + 1) =~= next);
                    lemma_digits_value_prefix(d, i - start + 1);
                }
            }
            return None;
        }
        proof {
            assert(v * 10 + g <= max) by (nonlinear_arith)
                requires
                    v <= (max - g) / 10,
                    g <= 9,
                    max >= 9,
            ;
        }
        v = v * 10 + g;
        i = i + 1;
    }
    proof {
        assert(s@.subrange(start as int, i as int) =~= d);
    }
    Some(v)
}

// ---------------------------------------------------------------------------
// Timestamps
// ---------------------------------------------------------------------------

/// The ASCII digits of `s`, in order.
pub open spec fn digits_in(s: Seq<char>) -> Seq<char>
    decreases s.len(),
{
    if s.len() == 0 {
        Seq::empty()
    } else if is_digit(s.last()) {
        digits_in(s.drop_last()).push(s.last())
    } else {
        digits_in(s.drop_last())
    }
}

/// `n` zero digits.
pub open spec fn zeros(n: nat) -> Seq<char> {
    Seq::new(n, |i: int| '0')
}

/// `YYYYMMDD`, `YYYYMMDDHH`, `YYYYMMDDHHMM` or `YYYYMMDDHHMMSS` widened to 14
/// digits with zeros.
pub open spec fn widened_timestamp(d: Seq<char>) -> Option<Seq<char>> {
    if d.len() == 8 || d.len() == 10 || d.len() == 12 || d.len() == 14 {
        Some(d + zeros((14 - d.len()) as nat))
    } else {
        None
    }
}

/// Message for a date/time of the wrong number of digits.
pub open spec fn digit_count_message() -> Seq<char> {
    "expected a date/time with 8, 10, 12, or 14 digits (YYYYMMDD[HH[MM[SS]]])"@
}

/// The first out-of-range field of a 14-digit timestamp, as a message.
pub open spec fn timestamp_field_problem(n: Seq<char>) -> Option<Seq<char>> {
    let f = text_fields(n);
    if f.0 == 0 {
        Some("year must be > 0"@)
    } else if !(1 <= f.1 <= 12) {
        Some("month must be in [1, 12]"@)
    } else if !(1 <= f.2 <= 31) {
        Some("day must be in [1, 31]"@)
    } else if f.3 > 23 {
        Some("hour must be in [0, 23]"@)
    } else if f.4 > 59 {
        Some("minute must be in [0, 59]"@)
    } else if f.5 > 59 {
        Some("second must be in [0, 59]"@)
    } else {
        None
    }
}

/// The digits of a date/time text widened to `YYYYMMDDHHMMSS`, or why not.
pub open spec fn normalized_timestamp(raw: Seq<char>) -> Result<Seq<char>, Seq<char>> {
    match widened_timestamp(digits_in(raw)) {
        None => Err(digit_count_message()),
        Some(n) => match timestamp_field_problem(n) {
            Some(m) => Err(m),
            None => Ok(n),
        },
    }
}

proof fn lemma_digits_in(s: Seq<char>)
    ensures
        all_digits(digits_in(s)),
        digits_in(s).len() <= s.len(),
    decreases s.len(),
{
    if s.len() > 0 {
        lemma_digits_in(s.drop_last());
    }
}

/// A date/time text as `YYYYMMDDHHMMSS`: its digits are kept, a missing hour,
/// minute or second is zero, and every field is checked against its range.
pub fn normalize_timestamp(raw: &str) -> (r: Result<String, String>)
    ensures
        match r {
            Ok(n) => normalized_timestamp(raw@) == Ok::<Seq<char>, Seq<char>>(n@),
            Err(m) => normalized_timestamp(raw@) == Err::<Seq<char>, Seq<char>>(m@),
        },
{
    let chars = to_chars(raw);
    let mut digits: Vec<char> = Vec::new();
    let mut i: usize = 0;
    while i < chars.len()
        invariant
            i <= chars.len(),
            chars@ == raw@,
            digits@ == digits_in(chars@.subrange(0, i as int)),
        decreases chars.len() - i,
    {
        proof {
            assert(chars@.subrange(0, i as int + 1).drop_last() =~= chars@.subrange(0, i as int));
        }
        if is_ascii_digit(chars[i]) {
            digits.push(chars[i]);
        }
        i = i + 1;
    }
    proof {
        assert(chars@.subrange(0, i as int) =~= raw@);
        lemma_digits_in(raw@);
    }
    let n = digits.len();
    if !(n == 8 || n == 10 || n == 12 || n == 14) {
        return Err(String::from_str(
            "expected a date/time with 8, 10, 12, or 14 digits (YYYYMMDD[HH[MM[SS]]])",
        ));
    }
    let ghost d = digits@;
    while digits.len() < 14
        invariant
            n <= digits.len() <= 14,
            digits@ == d + zeros((digits.len() - n) as nat),
        decreases 14 - digits.len(),
    {
        digits.push('0');
        proof {
            assert(digits@ =~= d + zeros((digits.len() - n) as nat));
        }
    }
    proof {
        assert forall|k: int| 0 <= k < digits@.len() implies is_digit(#[trigger] digits@[k]) by {
            if k < n {
                assert(digits@[k] == d[k]);
            }
        }
    }
    let year = field_value(&digits, 0, 4);
    let month = field_value(&digits, 4, 6);
    let day = field_value(&digits, 6, 8);
    let hour = field_value(&digits, 8, 10);
    let minute = field_value(&digits, 10, 12);
    let second = field_value(&digits, 12, 14);
    if year == 0 {
        return Err(String::from_str("year must be > 0"));
    }
    if !(1 <= month && month <= 12) {
        return Err(String::from_str("month must be in [1, 12]"));
    }
    if !(1 <= day && day <= 31) {
        return Err(String::from_str("day must be in [1, 31]"));
    }
    if hour > 23 {
        return Err(String::from_str("hour must be in [0, 23]"));
    }
    if minute > 59 {
        return Err(String::from_str("minute must be in [0, 59]"));
    }
    if second > 59 {
        return Err(String::from_str("second must be in [0, 59]"));
    }
    Ok(string_from_chars(digits))
}

// ---------------------------------------------------------------------------
// Key lookups
// ---------------------------------------------------------------------------

/// Key literals as character sequences.
pub open spec fn str_views(keys: Seq<&str>) -> Seq<Seq<char>> {
    keys.map_values(|k: &str| k@)
}

/// The value of the first of `keys` that `m` holds.
pub open spec fn first_value(m: Map<Seq<char>, Seq<char>>, keys: Seq<Seq<char>>) -> Option<
    Seq<char>,
>
    decreases keys.len(),
{
    if keys.len() == 0 {
        None
    } else if m.contains_key(keys[0]) {
        Some(m[keys[0]])
    } else {
        first_value(m, keys.drop_first())
    }
}

proof fn lemma_first_value_some(m: Map<Seq<char>, Seq<char>>, keys: Seq<Seq<char>>)
    requires
        first_value(m, keys) is Some,
    ensures
        keys.len() > 0,
{
}

/// The value of the first of `keys` present in `map`.
pub fn get_first<'a>(map: &'a ConfigMap, keys: &[&str]) -> (r: Option<&'a String>)
    ensures
        match r {
            Some(v) => first_value(map@, str_views(keys@)) == Some(v@),
            None => first_value(map@, str_views(keys@)) is None,
        },
{
    let ghost ks = str_views(keys@);
    let mut i: usize = 0;
    proof {
        assert(ks.skip(0) =~= ks);
    }
    while i < keys.len()
        invariant
            i <= keys.len(),
            ks == str_views(keys@),
            first_value(map@, ks) == first_value(map@, ks.skip(i as int)),
        decreases keys.len() - i,
    {
        proof {
            assert(ks.skip(i as int)[0] == keys@[i as int]@);
            assert(ks.skip(i as int).drop_first() =~= ks.skip(i as int + 1));
        }
        match map.get(keys[i]) {
            Some(v) => {
                return Some(v);
            },
            None => {},
        }
        i = i + 1;
    }
    None
}

/// The first of `keys` present in `map`, trimmed.
pub fn parse_optional_string(map: &ConfigMap, keys: &[&str]) -> (r: Option<String>)
    ensures
        match r {
            Some(v) => first_value(map@, str_views(keys@)) matches Some(x) && v@ == trim(x),
            None => first_value(map@, str_views(keys@)) is None,
        },
{
    match get_first(map, keys) {
        Some(v) => {
            let chars = to_chars(v.as_str());
            let (lo, hi) = trim_bounds(&chars, 0, chars.len());
            proof {
                assert(chars@.subrange(0, chars@.len() as int) =~= chars@);
            }
            Some(string_from_chars(slice_chars(&chars, lo, hi)))
        },
        None => None,
    }
}

/// Message for a value that is no unsigned integer.
pub open spec fn unsigned_message() -> Seq<char> {
    "expected unsigned integer"@
}

/// Reading the first of `keys` as a `u64`.
pub open spec fn u64_lookup(
    m: Map<Seq<char>, Seq<char>>,
    context: Seq<char>,
    keys: Seq<Seq<char>>,
) -> Result<Option<u64>, ConfigErrorModel> {
    match first_value(m, keys) {
        None => Ok(None),
        Some(raw) => match parse_unsigned_spec(raw, u64::MAX as int) {
            Some(v) => Ok(Some(v as u64)),
            None => Err(ConfigErrorModel::InvalidValue(context, keys[0], raw, unsigned_message())),
        },
    }
}

/// Reading the first of `keys` as a `u32`.
pub open spec fn u32_lookup(
    m: Map<Seq<char>, Seq<char>>,
    context: Seq<char>,
    keys: Seq<Seq<char>>,
) -> Result<Option<u32>, ConfigErrorModel> {
    match first_value(m, keys) {
        None => Ok(None),
        Some(raw) => match parse_unsigned_spec(raw, u32::MAX as int) {
            Some(v) => Ok(Some(v as u32)),
            None => Err(ConfigErrorModel::InvalidValue(context, keys[0], raw, unsigned_message())),
        },
    }
}

fn key_text(keys: &[&str]) -> (r: String)
    requires
        keys@.len() > 0,
    ensures
        r@ == str_views(keys@)[0],
{
    String::from_str(keys[0])
}

fn invalid_unsigned(context: &str, keys: &[&str], raw: &String) -> (e: ConfigError)
    requires
        keys@.len() > 0,
    ensures
        e@ == ConfigErrorModel::InvalidValue(
            context@,
            str_views(keys@)[0],
            raw@,
            unsigned_message(),
        ),
{
    ConfigError::InvalidValue {
        context: String::from_str(context),
        key: key_text(keys),
        value: raw.clone(),
        message: String::from_str("expected unsigned integer"),
    }
}

/// The first of `keys` present in `map`, read as a `u64`.
pub fn parse_optional_u64(map: &ConfigMap, context: &str, keys: &[&str]) -> (r: Result<
    Option<u64>,
    ConfigError,
>)
    ensures
        match r {
            Ok(v) => u64_lookup(map@, context@, str_views(keys@)) == Ok::<
                Option<u64>,
                ConfigErrorModel,
            >(v),
            Err(e) => u64_lookup(map@, context@, str_views(keys@)) == Err::<
                Option<u64>,
                ConfigErrorModel,
            >(e@),
        },
{
    match get_first(map, keys) {
        None => Ok(None),
        Some(raw) => {
            proof {
                lemma_first_value_some(map@, str_views(keys@));
            }
            let chars = to_chars(raw.as_str());
            match parse_unsigned(&chars, u64::MAX) {
                Some(v) => Ok(Some(v)),
                None => Err(invalid_unsigned(context, keys, raw)),
            }
        },
    }
}

/// The first of `keys` present in `map`, read as a `u32`.
pub fn parse_optional_u32(map: &ConfigMap, context: &str, keys: &[&str]) -> (r: Result<
    Option<u32>,
    ConfigError,
>)
    ensures
        match r {
            Ok(v) => u32_lookup(map@, context@, str_views(keys@)) == Ok::<
                Option<u32>,
                ConfigErrorModel,
            >(v),
            Err(e) => u32_lookup(map@, context@, str_views(keys@)) == Err::<
                Option<u32>,
                ConfigErrorModel,
            >(e@),
        },
{
    match get_first(map, keys) {
        None => Ok(None),
        Some(raw) => {
            proof {
                lemma_first_value_some(map@, str_views(keys@));
            }
            let chars = to_chars(raw.as_str());
            match parse_unsigned(&chars, 0xffff_ffffu64) {
                Some(v) => Ok(Some(v as u32)),
                None => Err(invalid_unsigned(context, keys, raw)),
            }
        },
    }
}

/// The first of `keys` present in `map`, read as a `u32`; a missing key is an
/// error naming `keys[0]`.
pub fn parse_required_u32(map: &ConfigMap, context: &str, keys: &[&str]) -> (r: Result<
    u32,
    ConfigError,
>)
    requires
        keys@.len() > 0,
    ensures
        match r {
            Ok(v) => u32_lookup(map@, context@, str_views(keys@)) == Ok::<
                Option<u32>,
                ConfigErrorModel,
            >(Some(v)),
            Err(e) => match u32_lookup(map@, context@, str_views(keys@)) {
                Ok(None) => e@ == ConfigErrorModel::MissingKey(context@, str_views(keys@)[0]),
                Ok(Some(_)) => false,
                Err(f) => e@ == f,
            },
        },
{
    match parse_optional_u32(map, context, keys) {
        Ok(Some(v)) => Ok(v),
        Ok(None) => Err(ConfigError::MissingKey {
            context: String::from_str(context),
            key: key_text(keys),
        }),
        Err(e) => Err(e),
    }
}

// ---------------------------------------------------------------------------
// Timestamp keys
// ---------------------------------------------------------------------------

/// An optional key/value pair as character sequences.
pub open spec fn pair_views(p: Option<(&str, &str)>) -> Option<(Seq<char>, Seq<char>)> {
    match p {
        Some((a, b)) => Some((a@, b@)),
        None => None,
    }
}

/// Reading a timestamp from the first of `keys`, or else from a date key and
/// a time key (time `000000` when absent) combined.
pub open spec fn timestamp_lookup(
    m: Map<Seq<char>, Seq<char>>,
    context: Seq<char>,
    keys: Seq<Seq<char>>,
    pair: Option<(Seq<char>, Seq<char>)>,
) -> Result<Seq<char>, ConfigErrorModel> {
    match first_value(m, keys) {
        Some(raw) => match normalized_timestamp(raw) {
            Ok(n) => Ok(n),
            Err(msg) => Err(ConfigErrorModel::InvalidValue(context, keys[0], raw, msg)),
        },
        None => match pair {
            Some(p) => if m.contains_key(p.0) {
                let combined = m[p.0] + (if m.contains_key(p.1) {
                    m[p.1]
                } else {
                    "000000"@
                });
                match normalized_timestamp(combined) {
                    Ok(n) => Ok(n),
                    Err(msg) => Err(
                        ConfigErrorModel::InvalidValue(context, p.0 + "/"@ + p.1, combined, msg),
                    ),
                }
            } else {
                Err(ConfigErrorModel::MissingKey(context, keys[0]))
            },
            None => Err(ConfigErrorModel::MissingKey(context, keys[0])),
        },
    }
}

/// The timestamp held by the first of `direct_keys`, or else by the pair of
/// date and time keys, in `YYYYMMDDHHMMSS` form.
pub fn extract_timestamp(
    map: &ConfigMap,
    context: &str,
    direct_keys: &[&str],
    date_time_keys: Option<(&str, &str)>,
) -> (r: Result<String, ConfigError>)
    requires
        direct_keys@.len() > 0,
    ensures
        match r {
            Ok(t) => timestamp_lookup(
                map@,
                context@,
                str_views(direct_keys@),
                pair_views(date_time_keys),
            ) == Ok::<Seq<char>, ConfigErrorModel>(t@),
            Err(e) => timestamp_lookup(
                map@,
                context@,
                str_views(direct_keys@),
                pair_views(date_time_keys),
            ) == Err::<Seq<char>, ConfigErrorModel>(e@),
        },
{
    if let Some(raw) = get_first(map, direct_keys) {
        return match normalize_timestamp(raw.as_str()) {
            Ok(n) => Ok(n),
            Err(message) => Err(ConfigError::InvalidValue {
                context: String::from_str(context),
                key: key_text(direct_keys),
                value: raw.clone(),
                message,
            }),
        };
    }
    if let Some((date_key, time_key)) = date_time_keys {
        if let Some(date_raw) = map.get(date_key) {
            let mut combined = date_raw.clone();
            match map.get(time_key) {
                Some(t) => combined.append(t.as_str()),
                None => combined.append("000000"),
            }
            return match normalize_timestamp(combined.as_str()) {
                Ok(n) => Ok(n),
                Err(message) => {
                    let mut key = String::from_str(date_key);
                    key.append("/");
                    key.append(time_key);
                    Err(ConfigError::InvalidValue {
                        context: String::from_str(context),
                        key,
                        value: combined,
                        message,
                    })
                },
            };
        }
    }
    Err(ConfigError::MissingKey { context: String::from_str(context), key: key_text(direct_keys) })
}

// ---------------------------------------------------------------------------
// COMMAND
// ---------------------------------------------------------------------------

/// Simulation period and time steps read from the `COMMAND` file.
#[derive(Debug)]
pub struct CommandConfig {
    /// Start of the simulation, `YYYYMMDDHHMMSS`.
    pub start_time: String,
    /// End of the simulation, `YYYYMMDDHHMMSS`.
    pub end_time: String,
    /// Output interval in seconds, when given.
    pub output_interval_seconds: Option<u64>,
    /// Synchronisation interval in seconds, when given.
    pub sync_interval_seconds: Option<u64>,
    /// Every assignment of the `&COMMAND` section.
    pub raw: ConfigMap,
}

/// Accepted keys of the simulation start, in order of precedence.
pub open spec fn start_keys() -> Seq<Seq<char>> {
    seq!["start_time"@, "start"@, "ibdatetime"@]
}

/// Accepted keys of the simulation end, in order of precedence.
pub open spec fn end_keys() -> Seq<Seq<char>> {
    seq!["end_time"@, "end"@, "iedatetime"@]
}

/// Accepted keys of the output interval, in order of precedence.
pub open spec fn output_keys() -> Seq<Seq<char>> {
    seq!["loutstep"@, "outstep"@, "output_interval_seconds"@]
}

/// Accepted keys of the synchronisation interval, in order of precedence.
pub open spec fn sync_keys() -> Seq<Seq<char>> {
    seq!["lsynctime"@, "sync_interval_seconds"@]
}

/// The first inconsistency of a command's values, as a message.
pub open spec fn command_problem(
    start: Seq<char>,
    end: Seq<char>,
    output: Option<u64>,
    sync: Option<u64>,
) -> Option<Seq<char>> {
    if lex_greater(start, end) {
        Some("COMMAND start_time `"@ + start + "` is after end_time `"@ + end + "`"@)
    } else if output == Some(0u64) {
        Some("COMMAND output interval must be > 0"@)
    } else if sync == Some(0u64) {
        Some("COMMAND sync interval must be > 0"@)
    } else {
        None
    }
}

/// The command values that a key/value map describes:
/// `(start, end, output interval, sync interval)`.
pub open spec fn command_from(m: Map<Seq<char>, Seq<char>>, context: Seq<char>) -> Result<
    (Seq<char>, Seq<char>, Option<u64>, Option<u64>),
    ConfigErrorModel,
> {
    match timestamp_lookup(m, context, start_keys(), Some(("ibdate"@, "ibtime"@))) {
        Err(e) => Err(e),
        Ok(start) => match timestamp_lookup(m, context, end_keys(), Some(("iedate"@, "ietime"@))) {
            Err(e) => Err(e),
            Ok(end) => match u64_lookup(m, context, output_keys()) {
                Err(e) => Err(e),
                Ok(output) => match u64_lookup(m, context, sync_keys()) {
                    Err(e) => Err(e),
                    Ok(sync) => match command_problem(start, end, output, sync) {
                        Some(msg) => Err(ConfigErrorModel::Validation(msg)),
                        None => Ok((start, end, output, sync)),
                    },
                },
            },
        },
    }
}

/// Context named in errors about the COMMAND file `source`.
pub open spec fn command_context(source: Seq<char>) -> Seq<char> {
    "COMMAND ("@ + source + ")"@
}

/// Message for a COMMAND file without a COMMAND section.
pub open spec fn missing_command_message() -> Seq<char> {
    "expected `&COMMAND ... /` section"@
}

/// What reading a `COMMAND` text gives: the command values and the map of
/// the first `&COMMAND` section.
pub open spec fn command_of(input: Seq<char>, source: Seq<char>) -> Result<
    (Seq<char>, Seq<char>, Option<u64>, Option<u64>, Map<Seq<char>, Seq<char>>),
    ConfigErrorModel,
> {
    let context = command_context(source);
    match sections_of(input, "COMMAND"@) {
        None => Err(ConfigErrorModel::Parse(context, missing_terminator_message("COMMAND"@))),
        Some(sections) => if sections.len() == 0 {
            Err(ConfigErrorModel::Parse(context, missing_command_message()))
        } else {
            match assignments_of(sections[0]) {
                Err(msg) => Err(ConfigErrorModel::Parse(context, msg)),
                Ok(l) => match command_from(assignment_map(l), context) {
                    Err(e) => Err(e),
                    Ok(c) => Ok((c.0, c.1, c.2, c.3, assignment_map(l))),
                },
            }
        },
    }
}

impl CommandConfig {
    /// `(start, end, output interval, sync interval)`.
    pub open spec fn values(&self) -> (Seq<char>, Seq<char>, Option<u64>, Option<u64>) {
        (self.start_time@, self.end_time@, self.output_interval_seconds, self.sync_interval_seconds)
    }

    /// Reads a `COMMAND` namelist text; `source` names where it came from.
    pub fn parse(input: &str, source: &str) -> (r: Result<CommandConfig, ConfigError>)
        ensures
            match r {
                Ok(c) => command_of(input@, source@) == Ok::<
                    (Seq<char>, Seq<char>, Option<u64>, Option<u64>, Map<Seq<char>, Seq<char>>),
                    ConfigErrorModel,
                >((c.start_time@, c.end_time@, c.output_interval_seconds, c.sync_interval_seconds, c.raw@)),
                Err(e) => command_of(input@, source@) == Err::<
                    (Seq<char>, Seq<char>, Option<u64>, Option<u64>, Map<Seq<char>, Seq<char>>),
                    ConfigErrorModel,
                >(e@),
            },
    {
        let mut context = String::from_str("COMMAND (");
        context.append(source);
        context.append(")");
        let chars = to_chars(input);
        let sections = match extract_namelist_sections(&chars, "COMMAND") {
            Ok(s) => s,
            Err(message) => {
                return Err(ConfigError::Parse { context, message });
            },
        };
        if sections.len() == 0 {
            return Err(ConfigError::Parse {
                context,
                message: String::from_str("expected `&COMMAND ... /` section"),
            });
        }
        proof {
            assert(char_vecs_view(sections@)[0] == sections@[0]@);
        }
        let raw = match parse_assignments(&sections[0]) {
            Ok(m) => m,
            Err(message) => {
                return Err(ConfigError::Parse { context, message });
            },
        };
        Self::from_map(raw, context.as_str())
    }

    /// The command values held by `raw`, checked for consistency.
    pub fn from_map(raw: ConfigMap, context: &str) -> (r: Result<CommandConfig, ConfigError>)
        ensures
            match r {
                Ok(c) => command_from(raw@, context@) == Ok::<
                    (Seq<char>, Seq<char>, Option<u64>, Option<u64>),
                    ConfigErrorModel,
                >(c.values()) && c.raw@ == raw@,
                Err(e) => command_from(raw@, context@) == Err::<
                    (Seq<char>, Seq<char>, Option<u64>, Option<u64>),
                    ConfigErrorModel,
                >(e@),
            },
    {
        let start_names: &[&str] = &["start_time", "start", "ibdatetime"];
        let end_names: &[&str] = &["end_time", "end", "iedatetime"];
        let output_names: &[&str] = &["loutstep", "outstep", "output_interval_seconds"];
        let sync_names: &[&str] = &["lsynctime", "sync_interval_seconds"];
        proof {
            assert(str_views(start_names@) =~= start_keys());
            assert(str_views(end_names@) =~= end_keys());
            assert(str_views(output_names@) =~= output_keys());
            assert(str_views(sync_names@) =~= sync_keys());
        }
        let start_time = match extract_timestamp(
            &raw,
            context,
            start_names,
            Some(("ibdate", "ibtime")),
        ) {
            Ok(t) => t,
            Err(e) => {
                return Err(e);
            },
        };
        let end_time = match extract_timestamp(
            &raw,
            context,
            end_names,
            Some(("iedate", "ietime")),
        ) {
            Ok(t) => t,
            Err(e) => {
                return Err(e);
            },
        };
        let output_interval_seconds = match parse_optional_u64(
            &raw,
            context,
            output_names,
        ) {
            Ok(v) => v,
            Err(e) => {
                return Err(e);
            },
        };
        let sync_interval_seconds = match parse_optional_u64(
            &raw,
            context,
            sync_names,
        ) {
            Ok(v) => v,
            Err(e) => {
                return Err(e);
            },
        };
        let config = CommandConfig {
            start_time,
            end_time,
            output_interval_seconds,
            sync_interval_seconds,
            raw,
        };
        match config.validate() {
            Ok(()) => Ok(config),
            Err(e) => Err(e),
        }
    }

    /// Checks that the start is not after the end and that given intervals
    /// are positive.
    pub fn validate(&self) -> (r: Result<(), ConfigError>)
        ensures
            match r {
                Ok(()) => command_problem(
                    self.start_time@,
                    self.end_time@,
                    self.output_interval_seconds,
                    self.sync_interval_seconds,
                ) is None,
                Err(e) => command_problem(
                    self.start_time@,
                    self.end_time@,
                    self.output_interval_seconds,
                    self.sync_interval_seconds,
                ) matches Some(msg) && e@ == ConfigErrorModel::Validation(msg),
            },
    {
        let start = to_chars(self.start_time.as_str());
        let end = to_chars(self.end_time.as_str());
        if is_lex_greater(&start, &end) {
            let mut message = String::from_str("COMMAND start_time `");
            message.append(self.start_time.as_str());
            message.append("` is after end_time `");
            message.append(self.end_time.as_str());
            message.append("`");
            return Err(ConfigError::Validation { message });
        }
        if self.output_interval_seconds == Some(0u64) {
            return Err(ConfigError::Validation {
                message: String::from_str("COMMAND output interval must be > 0"),
            });
        }
        if self.sync_interval_seconds == Some(0u64) {
            return Err(ConfigError::Validation {
                message: String::from_str("COMMAND sync interval must be > 0"),
            });
        }
        Ok(())
    }
}

// ---------------------------------------------------------------------------
// Laws
// ---------------------------------------------------------------------------

proof fn lemma_digits_in_digits(s: Seq<char>)
    requires
        all_digits(s),
    ensures
        digits_in(s) == s,
    decreases s.len(),
{
    if s.len() > 0 {
        lemma_digits_in_digits(s.drop_last());
        assert(is_digit(s.last()));
        assert(s.drop_last().push(s.last()) =~= s);
    }
}

/// A normalised timestamp is 14 digits and normalises to itself.
pub proof fn lemma_normalized_timestamp_is_fixed_point(raw: Seq<char>)
    requires
        normalized_timestamp(raw) is Ok,
    ensures
        ({
            let n = normalized_timestamp(raw)->Ok_0;
            &&& n.len() == 14
            &&& all_digits(n)
            &&& normalized_timestamp(n) == Ok::<Seq<char>, Seq<char>>(n)
        }),
{
    let d = digits_in(raw);
    lemma_digits_in(raw);
    let n = d + zeros((14 - d.len()) as nat);
    assert(all_digits(n)) by {
        assert forall|i: int| 0 <= i < n.len() implies is_digit(#[trigger] n[i]) by {
            if i >= d.len() {
                assert(n[i] == '0');
            }
        }
    }
    lemma_digits_in_digits(n);
    assert(n + zeros(0) =~= n);
}

/// Among several assignments of one key, the last one is the value.
pub proof fn lemma_last_assignment_wins(
    l: Seq<(Seq<char>, Seq<char>)>,
    key: Seq<char>,
    value: Seq<char>,
    later: Seq<(Seq<char>, Seq<char>)>,
)
    requires
        forall|i: int| 0 <= i < later.len() ==> (#[trigger] later[i]).0 != key,
    ensures
        assignment_map(l.push((key, value)) + later).contains_key(key),
        assignment_map(l.push((key, value)) + later)[key] == value,
    decreases later.len(),
{
    if later.len() == 0 {
        assert(l.push((key, value)) + later =~= l.push((key, value)));
        assert(l.push((key, value)).drop_last() =~= l);
    } else {
        let all = l.push((key, value)) + later;
        assert(all.drop_last() =~= l.push((key, value)) + later.drop_last());
        assert(all.last() == later.last());
        lemma_last_assignment_wins(l, key, value, later.drop_last());
    }
}

} // verus!
