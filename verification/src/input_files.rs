//! Layout of the `RELEASES`, `OUTGRID` and `SPECIES` input files: which
//! key/value assignments each file holds, how entries and names are found,
//! and in which order their values are checked.
//!
//! The values themselves are partly real numbers; the checks here take the
//! outcome of each numeric comparison as a `bool` and decide which problem,
//! if any, is reported first.

use vstd::prelude::*;
use crate::text::{trim, trim_bounds, to_chars, slice_chars, decimal_text, push_decimal, lex_greater,
    is_lex_greater, string_from_chars};
use crate::namelist::{
    ConfigMap, assignment_map, assignments_of, sections_of, stripped, strip_comments,
    missing_terminator_message, char_vecs_view, extract_namelist_sections, parse_assignments,
};
use crate::config::{ConfigError, ConfigErrorModel, first_value, str_views, parse_optional_string};
use crate::adapter::option_view;

verus! {

broadcast use vstd::string::group_string_axioms;

/// A key/value map as read from an assignment list.
pub type KeyValues = Map<Seq<char>, Seq<char>>;

/// Assignment maps as maps of character sequences.
pub open spec fn maps_view(v: Seq<ConfigMap>) -> Seq<KeyValues> {
    v.map_values(|m: ConfigMap| m@)
}

// ---------------------------------------------------------------------------
// Lines (`str::lines`)
// ---------------------------------------------------------------------------

/// Index of the first `\n` at or after `k`, or the length when there is none.
pub open spec fn newline_from(s: Seq<char>, k: int) -> int
    decreases s.len() - k,
{
    if k < 0 || k >= s.len() {
        s.len() as int
    } else if s[k] == '\n' {
        k
    } else {
        newline_from(s, k + 1)
    }
}

proof fn lemma_newline_from(s: Seq<char>, k: int)
    requires
        0 <= k <= s.len(),
    ensures
        k <= newline_from(s, k) <= s.len(),
    decreases s.len() - k,
{
    if k < s.len() && s[k] != '\n' {
        lemma_newline_from(s, k + 1);
    }
}

/// The line `s[k..e]` that ends at index `e`: a `\r` directly before a `\n`
/// belongs to the line ending; a last line without `\n` is kept as it is.
pub open spec fn line_at(s: Seq<char>, k: int, e: int) -> Seq<char> {
    if e < s.len() && e > k && s[e - 1] == '\r' {
        s.subrange(k, e - 1)
    } else {
        s.subrange(k, e)
    }
}

/// The lines of `s[k..]`; a final line ending adds no empty line.
pub open spec fn lines_from(s: Seq<char>, k: int) -> Seq<Seq<char>>
    decreases s.len() - k,
{
    if k < 0 || k >= s.len() {
        Seq::empty()
    } else {
        let e = newline_from(s, k);
        if e < k {
            Seq::empty()
        } else if e >= s.len() {
            seq![line_at(s, k, e)]
        } else {
            seq![line_at(s, k, e)] + lines_from(s, e + 1)
        }
    }
}

/// The lines of `s`, as `str::lines` reads them.
pub open spec fn lines_of(s: Seq<char>) -> Seq<Seq<char>> {
    lines_from(s, 0)
}

/// The lines of `s`.
pub fn split_lines(s: &Vec<char>) -> (r: Vec<Vec<char>>)
    ensures
        char_vecs_view(r@) == lines_of(s@),
{
    let mut out: Vec<Vec<char>> = Vec::new();
    let mut start: usize = 0;
    let mut i: usize = 0;
    proof {
        assert(char_vecs_view(out@) + lines_from(s@, 0) =~= lines_of(s@));
    }
    while i < s.len()
        invariant
            start <= i <= s.len(),
            newline_from(s@, start as int) == newline_from(s@, i as int),
            char_vecs_view(out@) + lines_from(s@, start as int) == lines_of(s@),
        decreases s.len() - i,
    {
        if s[i] == '\n' {
            let end = if i > start && s[i - 1] == '\r' {
                i - 1
            } else {
                i
            };
            let line = slice_chars(s, start, end);
            let ghost before = char_vecs_view(out@);
            proof {
                assert(line@ == line_at(s@, start as int, i as int));
                assert(lines_from(s@, start as int) == seq![line@] + lines_from(
                    s@,
                    i as int + 1,
                ));
            }
            out.push(line);
            proof {
                assert(char_vecs_view(out@) =~= before.push(line@));
                assert(before + (seq![line@] + lines_from(s@, i as int + 1)) =~= before.push(
                    line@,
                ) + lines_from(s@, i as int + 1));
            }
            start = i + 1;
        }
        i = i + 1;
    }
    if start < s.len() {
        let line = slice_chars(s, start, s.len());
        let ghost before = char_vecs_view(out@);
        proof {
            assert(line@ == line_at(s@, start as int, s.len() as int));
            assert(lines_from(s@, start as int) =~= seq![line@]);
        }
        out.push(line);
        proof {
            assert(char_vecs_view(out@) =~= before.push(line@));
            assert(before + seq![line@] =~= before.push(line@));
        }
    } else {
        proof {
            assert(char_vecs_view(out@) + Seq::<Seq<char>>::empty() =~= char_vecs_view(out@));
        }
    }
    out
}

// ---------------------------------------------------------------------------
// Assignment maps of sections and lines
// ---------------------------------------------------------------------------

/// The assignment maps of `secs[j..]`, each parse failure reported in
/// `context`.
pub open spec fn section_maps_from(secs: Seq<Seq<char>>, j: int, context: Seq<char>) -> Result<
    Seq<KeyValues>,
    ConfigErrorModel,
>
    decreases secs.len() - j,
{
    if j < 0 || j >= secs.len() {
        Ok(Seq::empty())
    } else {
        match assignments_of(secs[j]) {
            Err(m) => Err(ConfigErrorModel::Parse(context, m)),
            Ok(l) => match section_maps_from(secs, j + 1, context) {
                Err(e) => Err(e),
                Ok(rest) => Ok(seq![assignment_map(l)] + rest),
            },
        }
    }
}

/// `context, line n` for the line at index `j`.
pub open spec fn line_context(context: Seq<char>, j: int) -> Seq<char> {
    context + ", line "@ + decimal_text((j + 1) as nat)
}

/// The assignment maps of the non-blank lines among `lines[j..]`; a parse
/// failure names its line number (counting every line, blank ones too).
pub open spec fn line_maps_from(lines: Seq<Seq<char>>, j: int, context: Seq<char>) -> Result<
    Seq<KeyValues>,
    ConfigErrorModel,
>
    decreases lines.len() - j,
{
    if j < 0 || j >= lines.len() {
        Ok(Seq::empty())
    } else if trim(lines[j]).len() == 0 {
        line_maps_from(lines, j + 1, context)
    } else {
        match assignments_of(lines[j]) {
            Err(m) => Err(ConfigErrorModel::Parse(line_context(context, j), m)),
            Ok(l) => match line_maps_from(lines, j + 1, context) {
                Err(e) => Err(e),
                Ok(rest) => Ok(seq![assignment_map(l)] + rest),
            },
        }
    }
}

fn parse_error(context: &str, message: String) -> (e: ConfigError)
    ensures
        e@ == ConfigErrorModel::Parse(context@, message@),
{
    ConfigError::Parse { context: String::from_str(context), message }
}

fn section_maps(secs: &Vec<Vec<char>>, context: &str) -> (r: Result<Vec<ConfigMap>, ConfigError>)
    ensures
        match r {
            Ok(v) => section_maps_from(char_vecs_view(secs@), 0, context@) == Ok::<
                Seq<KeyValues>,
                ConfigErrorModel,
            >(maps_view(v@)),
            Err(e) => section_maps_from(char_vecs_view(secs@), 0, context@) == Err::<
                Seq<KeyValues>,
                ConfigErrorModel,
            >(e@),
        },
{
    let ghost cs = char_vecs_view(secs@);
    let mut maps: Vec<ConfigMap> = Vec::new();
    let mut j: usize = 0;
    proof {
        assert(maps_view(maps@) + Seq::<KeyValues>::empty() =~= Seq::<KeyValues>::empty());
        match section_maps_from(cs, 0, context@) {
            Ok(rest) => {
                assert(maps_view(maps@) + rest =~= rest);
            },
            Err(_) => {},
        }
    }
    while j < secs.len()
        invariant
            j <= secs.len(),
            cs == char_vecs_view(secs@),
            section_maps_from(cs, 0, context@) == match section_maps_from(cs, j as int, context@) {
                Ok(rest) => Ok(maps_view(maps@) + rest),
                Err(e) => Err(e),
            },
        decreases secs.len() - j,
    {
        proof {
            assert(cs[j as int] == secs@[j as int]@);
        }
        let m = match parse_assignments(&secs[j]) {
            Ok(m) => m,
            Err(message) => {
                return Err(parse_error(context, message));
            },
        };
        let ghost before = maps_view(maps@);
        maps.push(m);
        proof {
            assert(maps_view(maps@) =~= before.push(maps@.last()@));
            match section_maps_from(cs, j as int + 1, context@) {
                Ok(rest) => {
                    assert(before + (seq![maps@.last()@] + rest) =~= maps_view(maps@) + rest);
                },
                Err(_) => {},
            }
        }
        j = j + 1;
    }
    proof {
        assert(maps_view(maps@) + Seq::<KeyValues>::empty() =~= maps_view(maps@));
    }
    Ok(maps)
}

fn line_context_string(context: &str, j: usize) -> (r: String)
    requires
        j < usize::MAX,
    ensures
        r@ == line_context(context@, j as int),
{
    let mut chars = to_chars(context);
    let suffix = to_chars(", line ");
    let mut k: usize = 0;
    let ghost start = chars@;
    while k < suffix.len()
        invariant
            k <= suffix.len(),
            suffix@ == ", line "@,
            chars@ == start + suffix@.subrange(0, k as int),
        decreases suffix.len() - k,
    {
        chars.push(suffix[k]);
        k = k + 1;
        proof {
            assert(chars@ =~= start + suffix@.subrange(0, k as int));
        }
    }
    proof {
        assert(suffix@.subrange(0, suffix@.len() as int) =~= suffix@);
    }
    push_decimal(&mut chars, (j + 1) as u64);
    proof {
        assert(chars@ =~= line_context(context@, j as int));
    }
    string_from_chars(chars)
}

fn line_maps(lines: &Vec<Vec<char>>, context: &str) -> (r: Result<Vec<ConfigMap>, ConfigError>)
    ensures
        match r {
            Ok(v) => line_maps_from(char_vecs_view(lines@), 0, context@) == Ok::<
                Seq<KeyValues>,
                ConfigErrorModel,
            >(maps_view(v@)),
            Err(e) => line_maps_from(char_vecs_view(lines@), 0, context@) == Err::<
                Seq<KeyValues>,
                ConfigErrorModel,
            >(e@),
        },
{
    let ghost ls = char_vecs_view(lines@);
    let mut maps: Vec<ConfigMap> = Vec::new();
    let mut j: usize = 0;
    proof {
        match line_maps_from(ls, 0, context@) {
            Ok(rest) => {
                assert(maps_view(maps@) + rest =~= rest);
            },
            Err(_) => {},
        }
    }
    while j < lines.len()
        invariant
            j <= lines.len(),
            ls == char_vecs_view(lines@),
            line_maps_from(ls, 0, context@) == match line_maps_from(ls, j as int, context@) {
                Ok(rest) => Ok(maps_view(maps@) + rest),
                Err(e) => Err(e),
            },
        decreases lines.len() - j,
    {
        proof {
            assert(ls[j as int] == lines@[j as int]@);
            assert(lines@[j as int]@.subrange(0, lines@[j as int]@.len() as int) =~= lines@[j as int]@);
        }
        let (lo, hi) = trim_bounds(&lines[j], 0, lines[j].len());
        if lo < hi {
            let m = match parse_assignments(&lines[j]) {
                Ok(m) => m,
                Err(message) => {
                    let ctx = line_context_string(context, j);
                    return Err(ConfigError::Parse { context: ctx, message });
                },
            };
            let ghost before = maps_view(maps@);
            maps.push(m);
            proof {
                assert(maps_view(maps@) =~= before.push(maps@.last()@));
                match line_maps_from(ls, j as int + 1, context@) {
                    Ok(rest) => {
                        assert(before + (seq![maps@.last()@] + rest) =~= maps_view(maps@) + rest);
                    },
                    Err(_) => {},
                }
            }
        }
        j = j + 1;
    }
    proof {
        assert(maps_view(maps@) + Seq::<KeyValues>::empty() =~= maps_view(maps@));
    }
    Ok(maps)
}

// ---------------------------------------------------------------------------
// RELEASES
// ---------------------------------------------------------------------------

/// Context named in errors about the RELEASES file `source`.
pub open spec fn release_context(source: Seq<char>) -> Seq<char> {
    "RELEASES ("@ + source + ")"@
}

/// Message for a RELEASES text without any release entry.
pub open spec fn no_release_message() -> Seq<char> {
    "no release entries found"@
}

/// The assignment maps of the release entries of a `RELEASES` text: one per
/// `&RELEASE ... /` section or, without sections, one per non-blank line of
/// the comment-stripped text. At least one entry is required.
pub open spec fn release_maps_of(input: Seq<char>, source: Seq<char>) -> Result<
    Seq<KeyValues>,
    ConfigErrorModel,
> {
    let context = release_context(source);
    match sections_of(input, "RELEASE"@) {
        None => Err(ConfigErrorModel::Parse(context, missing_terminator_message("RELEASE"@))),
        Some(secs) => {
            let r = if secs.len() > 0 {
                section_maps_from(secs, 0, context)
            } else {
                line_maps_from(lines_of(stripped(input)), 0, context)
            };
            match r {
                Err(e) => Err(e),
                Ok(ms) => if ms.len() == 0 {
                    Err(ConfigErrorModel::Parse(context, no_release_message()))
                } else {
                    Ok(ms)
                },
            }
        },
    }
}

fn context_string(prefix: &str, source: &str) -> (r: String)
    ensures
        r@ == prefix@ + source@ + ")"@,
{
    let mut r = String::from_str(prefix);
    r.append(source);
    r.append(")");
    r
}

/// The assignment maps of the release entries of a `RELEASES` text; `source`
/// names where the text came from.
pub fn release_assignment_maps(input: &str, source: &str) -> (r: Result<
    Vec<ConfigMap>,
    ConfigError,
>)
    ensures
        match r {
            Ok(v) => release_maps_of(input@, source@) == Ok::<Seq<KeyValues>, ConfigErrorModel>(
                maps_view(v@),
            ),
            Err(e) => release_maps_of(input@, source@) == Err::<Seq<KeyValues>, ConfigErrorModel>(
                e@,
            ),
        },
{
    let context = context_string("RELEASES (", source);
    let chars = to_chars(input);
    let sections = match extract_namelist_sections(&chars, "RELEASE") {
        Ok(s) => s,
        Err(message) => {
            return Err(ConfigError::Parse { context, message });
        },
    };
    let maps = if sections.len() > 0 {
        section_maps(&sections, context.as_str())
    } else {
        let lines = split_lines(&strip_comments(&chars));
        line_maps(&lines, context.as_str())
    };
    match maps {
        Err(e) => Err(e),
        Ok(v) => {
            if v.len() == 0 {
                Err(ConfigError::Parse {
                    context,
                    message: String::from_str("no release entries found"),
                })
            } else {
                Ok(v)
            }
        },
    }
}

/// Keys that may name a release, in order of precedence.
pub open spec fn release_name_keys() -> Seq<Seq<char>> {
    seq!["name"@, "release_name"@, "id"@]
}

/// The name of the release entry numbered `ordinal`: the trimmed value of
/// the first name key, or `release_<ordinal>`.
pub open spec fn release_name_of(m: KeyValues, ordinal: nat) -> Seq<char> {
    match first_value(m, release_name_keys()) {
        Some(v) => trim(v),
        None => "release_"@ + decimal_text(ordinal),
    }
}

/// The name of the release entry numbered `ordinal` (counting from one).
pub fn release_name(raw: &ConfigMap, ordinal: u64) -> (r: String)
    ensures
        r@ == release_name_of(raw@, ordinal as nat),
{
    let keys: &[&str] = &["name", "release_name", "id"];
    proof {
        assert(str_views(keys@) =~= release_name_keys());
    }
    match parse_optional_string(raw, keys) {
        Some(v) => v,
        None => {
            let mut chars = to_chars("release_");
            push_decimal(&mut chars, ordinal);
            string_from_chars(chars)
        },
    }
}

/// The first check of a release entry that fails, in the order they are made.
#[derive(Debug, Clone, Copy, PartialEq, Eq, Structural)]
pub enum ReleaseProblem {
    /// The start timestamp is after the end timestamp.
    StartAfterEnd,
    /// The longitude is outside `[-180, 180]`.
    LonOutOfRange,
    /// The latitude is outside `[-90, 90]`.
    LatOutOfRange,
    /// The top of the release is below its bottom.
    TopBelowBottom,
    /// The released mass is not positive.
    MassNotPositive,
    /// No particle is released.
    NoParticles,
}

/// The first problem of a release, in the order the checks are made, or
/// `None`.
pub open spec fn release_problem_of(
    start: Seq<char>,
    end: Seq<char>,
    lon_in_range: bool,
    lat_in_range: bool,
    top_not_below_bottom: bool,
    mass_positive: bool,
    particle_count: u64,
) -> Option<ReleaseProblem> {
    if lex_greater(start, end) {
        Some(ReleaseProblem::StartAfterEnd)
    } else if !lon_in_range {
        Some(ReleaseProblem::LonOutOfRange)
    } else if !lat_in_range {
        Some(ReleaseProblem::LatOutOfRange)
    } else if !top_not_below_bottom {
        Some(ReleaseProblem::TopBelowBottom)
    } else if !mass_positive {
        Some(ReleaseProblem::MassNotPositive)
    } else if particle_count == 0 {
        Some(ReleaseProblem::NoParticles)
    } else {
        None
    }
}

/// The first failing check of a release entry, given the timestamps, the
/// particle count and the outcome of each numeric range check.
pub fn release_problem(
    start: &str,
    end: &str,
    lon_in_range: bool,
    lat_in_range: bool,
    top_not_below_bottom: bool,
    mass_positive: bool,
    particle_count: u64,
) -> (r: Option<ReleaseProblem>)
    ensures
        r == release_problem_of(
            start@,
            end@,
            lon_in_range,
            lat_in_range,
            top_not_below_bottom,
            mass_positive,
            particle_count,
        ),
{
    let s = to_chars(start);
    let e = to_chars(end);
    if is_lex_greater(&s, &e) {
        Some(ReleaseProblem::StartAfterEnd)
    } else if !lon_in_range {
        Some(ReleaseProblem::LonOutOfRange)
    } else if !lat_in_range {
        Some(ReleaseProblem::LatOutOfRange)
    } else if !top_not_below_bottom {
        Some(ReleaseProblem::TopBelowBottom)
    } else if !mass_positive {
        Some(ReleaseProblem::MassNotPositive)
    } else if particle_count == 0 {
        Some(ReleaseProblem::NoParticles)
    } else {
        None
    }
}

// ---------------------------------------------------------------------------
// OUTGRID
// ---------------------------------------------------------------------------

/// Context named in errors about the OUTGRID file `source`.
pub open spec fn outgrid_context(source: Seq<char>) -> Seq<char> {
    "OUTGRID ("@ + source + ")"@
}

/// The assignment map of `text`, or the parse error in `context`.
pub open spec fn parsed_in(text: Seq<char>, context: Seq<char>) -> Result<KeyValues, ConfigErrorModel> {
    match assignments_of(text) {
        Err(m) => Err(ConfigErrorModel::Parse(context, m)),
        Ok(l) => Ok(assignment_map(l)),
    }
}

/// The assignments of an `OUTGRID` text: those of its first `&OUTGRID ... /`
/// section, or of the whole comment-stripped text when it has none.
pub open spec fn outgrid_map_of(input: Seq<char>, source: Seq<char>) -> Result<
    KeyValues,
    ConfigErrorModel,
> {
    let context = outgrid_context(source);
    match sections_of(input, "OUTGRID"@) {
        None => Err(ConfigErrorModel::Parse(context, missing_terminator_message("OUTGRID"@))),
        Some(secs) => if secs.len() > 0 {
            parsed_in(secs[0], context)
        } else {
            parsed_in(stripped(input), context)
        },
    }
}

fn parse_in(text: &Vec<char>, context: &str) -> (r: Result<ConfigMap, ConfigError>)
    ensures
        match r {
            Ok(m) => parsed_in(text@, context@) == Ok::<KeyValues, ConfigErrorModel>(m@),
            Err(e) => parsed_in(text@, context@) == Err::<KeyValues, ConfigErrorModel>(e@),
        },
{
    match parse_assignments(text) {
        Ok(m) => Ok(m),
        Err(message) => Err(parse_error(context, message)),
    }
}

/// The assignments of an `OUTGRID` text; `source` names where it came from.
pub fn outgrid_assignment_map(input: &str, source: &str) -> (r: Result<ConfigMap, ConfigError>)
    ensures
        match r {
            Ok(m) => outgrid_map_of(input@, source@) == Ok::<KeyValues, ConfigErrorModel>(m@),
            Err(e) => outgrid_map_of(input@, source@) == Err::<KeyValues, ConfigErrorModel>(e@),
        },
{
    let context = context_string("OUTGRID (", source);
    let chars = to_chars(input);
    let sections = match extract_namelist_sections(&chars, "OUTGRID") {
        Ok(s) => s,
        Err(message) => {
            return Err(ConfigError::Parse { context, message });
        },
    };
    if sections.len() > 0 {
        proof {
            assert(char_vecs_view(sections@)[0] == sections@[0]@);
        }
        parse_in(&sections[0], context.as_str())
    } else {
        parse_in(&strip_comments(&chars), context.as_str())
    }
}

/// The first check of an output grid that fails, in the order they are made.
#[derive(Debug, Clone, Copy, PartialEq, Eq, Structural)]
pub enum OutgridProblem {
    /// `lon_min` is not below `lon_max`.
    LonNotIncreasing,
    /// `lat_min` is not below `lat_max`.
    LatNotIncreasing,
    /// A longitude bound is outside `[-180, 180]`.
    LonOutOfRange,
    /// A latitude bound is outside `[-90, 90]`.
    LatOutOfRange,
    /// One of `nx`, `ny`, `nz` is zero.
    EmptyDimension,
    /// One of `dx`, `dy`, `dz` is not positive.
    ResolutionNotPositive,
}

/// The first problem of an output grid, in the order the checks are made,
/// or `None`.
pub open spec fn outgrid_problem_of(
    lon_increasing: bool,
    lat_increasing: bool,
    lon_in_range: bool,
    lat_in_range: bool,
    nx: u32,
    ny: u32,
    nz: u32,
    resolution_positive: bool,
) -> Option<OutgridProblem> {
    if !lon_increasing {
        Some(OutgridProblem::LonNotIncreasing)
    } else if !lat_increasing {
        Some(OutgridProblem::LatNotIncreasing)
    } else if !lon_in_range {
        Some(OutgridProblem::LonOutOfRange)
    } else if !lat_in_range {
        Some(OutgridProblem::LatOutOfRange)
    } else if nx == 0 || ny == 0 || nz == 0 {
        Some(OutgridProblem::EmptyDimension)
    } else if !resolution_positive {
        Some(OutgridProblem::ResolutionNotPositive)
    } else {
        None
    }
}

/// The first failing check of an output grid, given its cell counts and the
/// outcome of each numeric comparison.
pub fn outgrid_problem(
    lon_increasing: bool,
    lat_increasing: bool,
    lon_in_range: bool,
    lat_in_range: bool,
    nx: u32,
    ny: u32,
    nz: u32,
    resolution_positive: bool,
) -> (r: Option<OutgridProblem>)
    ensures
        r == outgrid_problem_of(
            lon_increasing,
            lat_increasing,
            lon_in_range,
            lat_in_range,
            nx,
            ny,
            nz,
            resolution_positive,
        ),
{
    if !lon_increasing {
        Some(OutgridProblem::LonNotIncreasing)
    } else if !lat_increasing {
        Some(OutgridProblem::LatNotIncreasing)
    } else if !lon_in_range {
        Some(OutgridProblem::LonOutOfRange)
    } else if !lat_in_range {
        Some(OutgridProblem::LatOutOfRange)
    } else if nx == 0 || ny == 0 || nz == 0 {
        Some(OutgridProblem::EmptyDimension)
    } else if !resolution_positive {
        Some(OutgridProblem::ResolutionNotPositive)
    } else {
        None
    }
}

// ---------------------------------------------------------------------------
// SPECIES
// ---------------------------------------------------------------------------

/// The assignments of a species file: those of its first
/// `&SPECIES_PARAMS ... /` section, else of its first `&SPECIES ... /`
/// section, else of the whole comment-stripped text.
pub open spec fn species_map_of(text: Seq<char>, context: Seq<char>) -> Result<
    KeyValues,
    ConfigErrorModel,
> {
    match sections_of(text, "SPECIES_PARAMS"@) {
        None => Err(
            ConfigErrorModel::Parse(context, missing_terminator_message("SPECIES_PARAMS"@)),
        ),
        Some(a) => if a.len() > 0 {
            parsed_in(a[0], context)
        } else {
            match sections_of(text, "SPECIES"@) {
                None => Err(
                    ConfigErrorModel::Parse(context, missing_terminator_message("SPECIES"@)),
                ),
                Some(b) => if b.len() > 0 {
                    parsed_in(b[0], context)
                } else {
                    parsed_in(stripped(text), context)
                },
            }
        },
    }
}

/// The assignments of a species file; errors are reported in `context`.
pub fn species_assignment_map(file_text: &str, context: &str) -> (r: Result<ConfigMap, ConfigError>)
    ensures
        match r {
            Ok(m) => species_map_of(file_text@, context@) == Ok::<KeyValues, ConfigErrorModel>(m@),
            Err(e) => species_map_of(file_text@, context@) == Err::<KeyValues, ConfigErrorModel>(
                e@,
            ),
        },
{
    let chars = to_chars(file_text);
    let params = match extract_namelist_sections(&chars, "SPECIES_PARAMS") {
        Ok(s) => s,
        Err(message) => {
            return Err(parse_error(context, message));
        },
    };
    if params.len() > 0 {
        proof {
            assert(char_vecs_view(params@)[0] == params@[0]@);
        }
        return parse_in(&params[0], context);
    }
    let legacy = match extract_namelist_sections(&chars, "SPECIES") {
        Ok(s) => s,
        Err(message) => {
            return Err(parse_error(context, message));
        },
    };
    if legacy.len() > 0 {
        proof {
            assert(char_vecs_view(legacy@)[0] == legacy@[0]@);
        }
        parse_in(&legacy[0], context)
    } else {
        parse_in(&strip_comments(&chars), context)
    }
}

/// Keys that may name a species, in order of precedence.
pub open spec fn species_name_keys() -> Seq<Seq<char>> {
    seq!["name"@, "species"@, "specname"@, "pspecies"@]
}

/// The name of a species: the trimmed value of the first name key, else the
/// file stem when it is not blank.
pub open spec fn species_name_of(m: KeyValues, stem: Option<Seq<char>>, context: Seq<char>) -> Result<
    Seq<char>,
    ConfigErrorModel,
> {
    match first_value(m, species_name_keys()) {
        Some(v) => Ok(trim(v)),
        None => match stem {
            Some(s) => if trim(s).len() > 0 {
                Ok(s)
            } else {
                Err(ConfigErrorModel::MissingKey(context, "name"@))
            },
            None => Err(ConfigErrorModel::MissingKey(context, "name"@)),
        },
    }
}

/// The name of a species read from `raw`, falling back to the stem of its
/// file name.
pub fn species_name(raw: &ConfigMap, file_stem: Option<&str>, context: &str) -> (r: Result<
    String,
    ConfigError,
>)
    ensures
        match r {
            Ok(n) => species_name_of(raw@, option_view(file_stem), context@) == Ok::<
                Seq<char>,
                ConfigErrorModel,
            >(n@),
            Err(e) => species_name_of(raw@, option_view(file_stem), context@) == Err::<
                Seq<char>,
                ConfigErrorModel,
            >(e@),
        },
{
    let keys: &[&str] = &["name", "species", "specname", "pspecies"];
    proof {
        assert(str_views(keys@) =~= species_name_keys());
    }
    match parse_optional_string(raw, keys) {
        Some(v) => Ok(v),
        None => {
            let missing = ConfigError::MissingKey {
                context: String::from_str(context),
                key: String::from_str("name"),
            };
            match file_stem {
                Some(stem) => {
                    let chars = to_chars(stem);
                    let (lo, hi) = trim_bounds(&chars, 0, chars.len());
                    proof {
                        assert(chars@.subrange(0, chars@.len() as int) =~= chars@);
                    }
                    if lo < hi {
                        Ok(String::from_str(stem))
                    } else {
                        Err(missing)
                    }
                },
                None => Err(missing),
            }
        },
    }
}

} // verus!
