//! Decisions of the corpus case runner: reading its command line and fixing
//! how many ensemble members of a case run.
//!
//! The declared ensemble size of a case is authoritative; `--seeds N` may
//! select a leading subset but never enlarge the ensemble.

use vstd::prelude::*;
use crate::text::{chars_are, decimal_string, decimal_text, to_chars, string_from_chars};
use crate::config::{parse_unsigned, parse_unsigned_spec};
use crate::cli::strings_view;

verus! {

broadcast use vstd::string::group_string_axioms;

/// The case identifiers run by `--all`, in order.
pub open spec fn all_case_ids() -> Seq<Seq<char>> {
    seq![
        "WIND-UNI-002"@,
        "WIND-SHEAR-003"@,
        "PBL-STABLE-004"@,
        "PBL-NEUTRAL-005"@,
        "PBL-UNSTABLE-006"@,
        "DRY-007"@,
        "WET-008"@,
        "REPEAT-009"@,
        "ADV-ANA-001"@,
    ]
}

/// The case identifiers run by `--all`: the driver cases, then the
/// analytic advection case.
pub fn all_cases() -> (r: Vec<String>)
    ensures
        strings_view(r@) == all_case_ids(),
{
    let mut v: Vec<String> = Vec::new();
    v.push(String::from_str("WIND-UNI-002"));
    v.push(String::from_str("WIND-SHEAR-003"));
    v.push(String::from_str("PBL-STABLE-004"));
    v.push(String::from_str("PBL-NEUTRAL-005"));
    v.push(String::from_str("PBL-UNSTABLE-006"));
    v.push(String::from_str("DRY-007"));
    v.push(String::from_str("WET-008"));
    v.push(String::from_str("REPEAT-009"));
    v.push(String::from_str("ADV-ANA-001"));
    proof {
        assert(strings_view(v@) =~= all_case_ids());
    }
    v
}

/// What the runner's command line asks for.
#[derive(Debug, Clone, PartialEq, Eq)]
pub struct CorpusArgs {
    pub cases: Vec<String>,
    pub seeds: Option<usize>,
    pub out_dir: String,
    pub fixtures: String,
}

/// `(cases, --all given, seeds, output directory, fixture directory)`.
pub type CorpusState = (Seq<Seq<char>>, bool, Option<int>, Seq<char>, Seq<char>);

/// Reading `args[i..]` on top of the state `st`.
pub open spec fn corpus_args_from(args: Seq<Seq<char>>, i: int, st: CorpusState) -> Result<
    CorpusState,
    Seq<char>,
>
    decreases args.len() - i,
{
    if i < 0 || i >= args.len() {
        Ok(st)
    } else {
        let a = args[i];
        let has_value = i + 1 < args.len();
        if a == "--case"@ {
            if has_value {
                corpus_args_from(args, i + 2, (st.0.push(args[i + 1]), st.1, st.2, st.3, st.4))
            } else {
                Err("--case needs a value"@)
            }
        } else if a == "--all"@ {
            corpus_args_from(args, i + 1, (st.0, true, st.2, st.3, st.4))
        } else if a == "--seeds"@ {
            if has_value {
                match parse_unsigned_spec(args[i + 1], usize::MAX as int) {
                    Some(n) => corpus_args_from(args, i + 2, (st.0, st.1, Some(n), st.3, st.4)),
                    None => Err("seeds must be a number"@),
                }
            } else {
                Err("--seeds needs a value"@)
            }
        } else if a == "--out-dir"@ {
            if has_value {
                corpus_args_from(args, i + 2, (st.0, st.1, st.2, args[i + 1], st.4))
            } else {
                Err("--out-dir needs a value"@)
            }
        } else if a == "--fixtures"@ {
            if has_value {
                corpus_args_from(args, i + 2, (st.0, st.1, st.2, st.3, args[i + 1]))
            } else {
                Err("--fixtures needs a value"@)
            }
        } else {
            Err("unknown argument: "@ + a)
        }
    }
}

/// Arguments before any option is read: no cases, not all, no seed count,
/// and the default output and case directories.
pub open spec fn initial_corpus_state() -> CorpusState {
    (Seq::empty(), false, None, "target/corpus/candidate"@, "fixtures/corpus/cases"@)
}

/// The meaning of the runner's arguments (without the program name): the
/// cases, the seed limit and the two directories, or the message to stop
/// with. `--all` replaces any `--case` list.
pub open spec fn corpus_args_meaning(args: Seq<Seq<char>>) -> Result<CorpusState, Seq<char>> {
    match corpus_args_from(args, 0, initial_corpus_state()) {
        Err(m) => Err(m),
        Ok(st) => {
            let cases = if st.1 {
                all_case_ids()
            } else {
                st.0
            };
            if cases.len() == 0 {
                Err("specify --case <ID> (repeatable) or --all"@)
            } else {
                Ok((cases, st.1, st.2, st.3, st.4))
            }
        },
    }
}

fn text_is(a: &String, b: &str) -> (r: bool)
    ensures
        r == (a@ == b@),
{
    let chars = to_chars(a.as_str());
    chars_are(&chars, b)
}

/// Reads the runner's arguments (without the program name).
pub fn parse_corpus_args(args: Vec<String>) -> (r: Result<CorpusArgs, String>)
    ensures
        match r {
            Ok(c) => corpus_args_meaning(strings_view(args@)) matches Ok(st) && strings_view(c.cases@)
                == st.0 && (match c.seeds {
                Some(n) => st.2 == Some(n as int),
                None => st.2 is None,
            }) && c.out_dir@ == st.3 && c.fixtures@ == st.4,
            Err(m) => corpus_args_meaning(strings_view(args@)) == Err::<CorpusState, Seq<char>>(
                m@,
            ),
        },
{
    let ghost sv = strings_view(args@);
    let mut cases: Vec<String> = Vec::new();
    let mut all = false;
    let mut seeds: Option<usize> = None;
    let mut out_dir = String::from_str("target/corpus/candidate");
    let mut fixtures = String::from_str("fixtures/corpus/cases");
    let mut i: usize = 0;
    proof {
        assert(strings_view(cases@) =~= Seq::<Seq<char>>::empty());
    }
    while i < args.len()
        invariant
            i <= args.len() + 1,
            sv == strings_view(args@),
            corpus_args_from(sv, 0, initial_corpus_state()) == corpus_args_from(
                sv,
                i as int,
                (
                    strings_view(cases@),
                    all,
                    match seeds {
                        Some(n) => Some(n as int),
                        None => None,
                    },
                    out_dir@,
                    fixtures@,
                ),
            ),
        decreases args.len() + 1 - i,
    {
        let a = &args[i];
        proof {
            assert(sv[i as int] == a@);
        }
        let has_value = i + 1 < args.len();
        if text_is(a, "--case") {
            if !has_value {
                return Err(String::from_str("--case needs a value"));
            }
            let ghost before = cases@;
            cases.push(args[i + 1].clone());
            proof {
                assert(strings_view(cases@) =~= strings_view(before).push(sv[i + 1]));
            }
            i = i + 2;
        } else if text_is(a, "--all") {
            all = true;
            i = i + 1;
        } else if text_is(a, "--seeds") {
            if !has_value {
                return Err(String::from_str("--seeds needs a value"));
            }
            let value = to_chars(args[i + 1].as_str());
            match parse_unsigned(&value, usize::MAX as u64) {
                Some(n) => {
                    seeds = Some(n as usize);
                },
                None => {
                    return Err(String::from_str("seeds must be a number"));
                },
            }
            i = i + 2;
        } else if text_is(a, "--out-dir") {
            if !has_value {
                return Err(String::from_str("--out-dir needs a value"));
            }
            out_dir = args[i + 1].clone();
            i = i + 2;
        } else if text_is(a, "--fixtures") {
            if !has_value {
                return Err(String::from_str("--fixtures needs a value"));
            }
            fixtures = args[i + 1].clone();
            i = i + 2;
        } else {
            let mut m = String::from_str("unknown argument: ");
            m.append(a.as_str());
            return Err(m);
        }
    }
    if all {
        cases = all_cases();
    }
    if cases.len() == 0 {
        return Err(String::from_str("specify --case <ID> (repeatable) or --all"));
    }
    Ok(CorpusArgs { cases, seeds, out_dir, fixtures })
}

/// The number of ensemble members to run for a case, from its declared
/// ensemble size (`None` when it declares no stochastic identity), whether
/// it uses turbulence, and the `--seeds` limit; or the message to refuse
/// with.
pub open spec fn ensemble_count(
    case_id: Seq<char>,
    declared: Option<u64>,
    turbulence: bool,
    cli_seeds: Option<usize>,
) -> Result<int, Seq<char>> {
    let prefix = "case "@ + case_id + ": "@;
    let d: Result<int, Seq<char>> = match declared {
        Some(c) => if c > usize::MAX {
            Err(prefix + "candidate_philox.count out of range"@)
        } else {
            Ok(c as int)
        },
        None => if turbulence {
            Err(prefix + "physics_switches.turbulence=true requires stochastic.candidate_philox"@)
        } else {
            Ok(1)
        },
    };
    match d {
        Err(m) => Err(m),
        Ok(n) => if n == 0 {
            Err(prefix + "declared ensemble count must be > 0"@)
        } else {
            match cli_seeds {
                None => Ok(n),
                Some(r) => if r == 0 {
                    Err(prefix + "--seeds must be > 0"@)
                } else if r > n {
                    Err(
                        prefix + "--seeds "@ + decimal_text(r as nat)
                            + " exceeds declared ensemble count "@ + decimal_text(n as nat)
                            + "; refusing to invent seeds"@,
                    )
                } else {
                    Ok(r as int)
                },
            }
        },
    }
}

/// Resolves how many seeds of a case run (see [`ensemble_count`]).
pub fn resolve_ensemble_count(
    case_id: &str,
    declared: Option<u64>,
    turbulence: bool,
    cli_seeds: Option<usize>,
) -> (r: Result<usize, String>)
    ensures
        match r {
            Ok(n) => ensemble_count(case_id@, declared, turbulence, cli_seeds) == Ok::<
                int,
                Seq<char>,
            >(n as int),
            Err(m) => ensemble_count(case_id@, declared, turbulence, cli_seeds) == Err::<
                int,
                Seq<char>,
            >(m@),
        },
{
    let mut prefix = String::from_str("case ");
    prefix.append(case_id);
    prefix.append(": ");
    let declared_count: usize = match declared {
        Some(c) => {
            if c > usize::MAX as u64 {
                let mut m = prefix;
                m.append("candidate_philox.count out of range");
                return Err(m);
            }
            c as usize
        },
        None => {
            if turbulence {
                let mut m = prefix;
                m.append("physics_switches.turbulence=true requires stochastic.candidate_philox");
                return Err(m);
            }
            1
        },
    };
    if declared_count == 0 {
        let mut m = prefix;
        m.append("declared ensemble count must be > 0");
        return Err(m);
    }
    match cli_seeds {
        None => Ok(declared_count),
        Some(requested) => {
            if requested == 0 {
                let mut m = prefix;
                m.append("--seeds must be > 0");
                return Err(m);
            }
            if requested > declared_count {
                let mut m = prefix;
                m.append("--seeds ");
                m.append(decimal_string(requested as u64).as_str());
                m.append(" exceeds declared ensemble count ");
                m.append(decimal_string(declared_count as u64).as_str());
                m.append("; refusing to invent seeds");
                return Err(m);
            }
            Ok(requested)
        },
    }
}

/// The ensemble is never enlarged: a resolved count is positive and at most
/// the declared size (one member for a case that declares none).
pub proof fn lemma_ensemble_never_expands(
    case_id: Seq<char>,
    declared: Option<u64>,
    turbulence: bool,
    cli_seeds: Option<usize>,
)
    requires
        ensemble_count(case_id, declared, turbulence, cli_seeds) is Ok,
    ensures
        ({
            let n = ensemble_count(case_id, declared, turbulence, cli_seeds)->Ok_0;
            &&& 1 <= n
            &&& n <= match declared {
                Some(c) => c as int,
                None => 1int,
            }
            &&& cli_seeds is None ==> n == match declared {
                Some(c) => c as int,
                None => 1int,
            }
        }),
{
}

/// The command line `--case xs[0] --case xs[1] ...`.
pub open spec fn case_options(xs: Seq<Seq<char>>) -> Seq<Seq<char>> {
    Seq::new(
        2 * xs.len(),
        |i: int|
            if i % 2 == 0 {
                "--case"@
            } else {
                xs[i / 2]
            },
    )
}

proof fn lemma_case_options_from(xs: Seq<Seq<char>>, k: int, st: CorpusState)
    requires
        0 <= k <= xs.len(),
    ensures
        corpus_args_from(case_options(xs), 2 * k, st) == Ok::<CorpusState, Seq<char>>(
            (st.0 + xs.subrange(k, xs.len() as int), st.1, st.2, st.3, st.4),
        ),
    decreases xs.len() - k,
{
    let args = case_options(xs);
    if k < xs.len() {
        assert(args[2 * k] == "--case"@);
        assert(args[2 * k + 1] == xs[k]);
        let next = (st.0.push(xs[k]), st.1, st.2, st.3, st.4);
        lemma_case_options_from(xs, k + 1, next);
        assert(st.0.push(xs[k]) + xs.subrange(k + 1, xs.len() as int) =~= st.0 + xs.subrange(
            k,
            xs.len() as int,
        ));
    } else {
        assert(st.0 + xs.subrange(k, xs.len() as int) =~= st.0);
    }
}

/// `--case` is repeatable: without `--all`, the runner takes every `--case`
/// value, in the order given, and keeps the default seeds and directories.
pub proof fn lemma_case_options_are_collected_in_order(xs: Seq<Seq<char>>)
    requires
        xs.len() > 0,
    ensures
        corpus_args_meaning(case_options(xs)) == Ok::<CorpusState, Seq<char>>(
            (xs, false, None, "target/corpus/candidate"@, "fixtures/corpus/cases"@),
        ),
{
    lemma_case_options_from(xs, 0, initial_corpus_state());
    assert(Seq::<Seq<char>>::empty() + xs.subrange(0, xs.len() as int) =~= xs);
}

} // verus!
