//! Command-line grammar of the reference checkout tool:
//! `verify --checkout <dir> [--manifest <file>]`, `show`, or `-h`/`--help`.

use vstd::prelude::*;
use crate::text::{to_chars, chars_are, starts_with_text, slice_chars, string_from_chars};

verus! {

broadcast use vstd::string::group_string_axioms;

/// Options of the `verify` command.
#[derive(Debug, Clone, PartialEq, Eq)]
pub struct VerifyOptions {
    /// Checkout directory to verify.
    pub checkout: String,
    /// Manifest file; `None` means the bundled manifest.
    pub manifest: Option<String>,
}

/// A parsed command line.
#[derive(Debug, Clone, PartialEq, Eq)]
pub enum CliCommand {
    Help,
    Show,
    Verify(VerifyOptions),
}

/// Why a command line was refused.
#[derive(Debug, Clone, PartialEq, Eq)]
pub enum CliError {
    /// No arguments at all.
    MissingCommand,
    /// A flag that takes a value ends the command line (the flag is given).
    MissingValue(String),
    /// An argument of `verify` that is not one of its options.
    UnknownArgument(String),
    /// `verify` without `--checkout`.
    MissingCheckout,
    /// A first argument that is no command.
    UnknownCommand(String),
}

/// The text content of a parsed command line.
pub enum CliModel {
    Help,
    Show,
    Verify(Seq<char>, Option<Seq<char>>),
}

/// The text content of a [`CliError`].
pub enum CliErrorModel {
    MissingCommand,
    MissingValue(Seq<char>),
    UnknownArgument(Seq<char>),
    MissingCheckout,
    UnknownCommand(Seq<char>),
}

/// An optional string as a character sequence.
pub open spec fn opt_view(o: Option<String>) -> Option<Seq<char>> {
    match o {
        Some(s) => Some(s@),
        None => None,
    }
}

impl View for CliCommand {
    type V = CliModel;

    open spec fn view(&self) -> CliModel {
        match self {
            CliCommand::Help => CliModel::Help,
            CliCommand::Show => CliModel::Show,
            CliCommand::Verify(o) => CliModel::Verify(o.checkout@, opt_view(o.manifest)),
        }
    }
}

impl View for CliError {
    type V = CliErrorModel;

    open spec fn view(&self) -> CliErrorModel {
        match self {
            CliError::MissingCommand => CliErrorModel::MissingCommand,
            CliError::MissingValue(f) => CliErrorModel::MissingValue(f@),
            CliError::UnknownArgument(a) => CliErrorModel::UnknownArgument(a@),
            CliError::MissingCheckout => CliErrorModel::MissingCheckout,
            CliError::UnknownCommand(c) => CliErrorModel::UnknownCommand(c@),
        }
    }
}

/// Message text of a command-line error.
pub open spec fn cli_error_text(e: CliErrorModel) -> Seq<char> {
    match e {
        CliErrorModel::MissingCommand => "missing command (expected `verify` or `show`)"@,
        CliErrorModel::MissingValue(f) => "missing value after "@ + f,
        CliErrorModel::UnknownArgument(a) => "unknown argument: "@ + a,
        CliErrorModel::MissingCheckout => "`verify` requires --checkout <dir>"@,
        CliErrorModel::UnknownCommand(c) => "unknown command: "@ + c,
    }
}

impl CliError {
    /// The description of the error.
    pub fn to_message(&self) -> (r: String)
        ensures
            r@ == cli_error_text(self@),
    {
        match self {
            CliError::MissingCommand => String::from_str(
                "missing command (expected `verify` or `show`)",
            ),
            CliError::MissingValue(f) => {
                let mut r = String::from_str("missing value after ");
                r.append(f.as_str());
                r
            },
            CliError::UnknownArgument(a) => {
                let mut r = String::from_str("unknown argument: ");
                r.append(a.as_str());
                r
            },
            CliError::MissingCheckout => String::from_str("`verify` requires --checkout <dir>"),
            CliError::UnknownCommand(c) => {
                let mut r = String::from_str("unknown command: ");
                r.append(c.as_str());
                r
            },
        }
    }
}

/// Whether the argument asks for help.
pub open spec fn is_help_flag(a: Seq<char>) -> bool {
    a == "-h"@ || a == "--help"@
}

/// Whether `p` is a prefix of `a`.
pub open spec fn has_prefix(a: Seq<char>, p: Seq<char>) -> bool {
    p.len() <= a.len() && a.subrange(0, p.len() as int) == p
}

/// The `verify` options read from `args[i..]`, given the values seen so far.
/// `--checkout` and `--manifest` take the next argument; `--checkout=<v>` and
/// `--manifest=<v>` carry it; a later value replaces an earlier one.
pub open spec fn verify_options_from(
    args: Seq<Seq<char>>,
    i: int,
    checkout: Option<Seq<char>>,
    manifest: Option<Seq<char>>,
) -> Result<(Option<Seq<char>>, Option<Seq<char>>), CliErrorModel>
    decreases args.len() - i,
{
    if i < 0 || i >= args.len() {
        Ok((checkout, manifest))
    } else {
        let a = args[i];
        if a == "--checkout"@ {
            if i + 1 < args.len() {
                verify_options_from(args, i + 2, Some(args[i + 1]), manifest)
            } else {
                Err(CliErrorModel::MissingValue("--checkout"@))
            }
        } else if a == "--manifest"@ {
            if i + 1 < args.len() {
                verify_options_from(args, i + 2, checkout, Some(args[i + 1]))
            } else {
                Err(CliErrorModel::MissingValue("--manifest"@))
            }
        } else if has_prefix(a, "--checkout="@) {
            verify_options_from(args, i + 1, Some(a.skip(11)), manifest)
        } else if has_prefix(a, "--manifest="@) {
            verify_options_from(args, i + 1, checkout, Some(a.skip(11)))
        } else {
            Err(CliErrorModel::UnknownArgument(a))
        }
    }
}

/// What a command line (without the program name) means.
pub open spec fn cli_meaning(args: Seq<Seq<char>>) -> Result<CliModel, CliErrorModel> {
    if args.len() == 0 {
        Err(CliErrorModel::MissingCommand)
    } else if exists|i: int| 0 <= i < args.len() && is_help_flag(#[trigger] args[i]) {
        Ok(CliModel::Help)
    } else if args[0] == "show"@ {
        Ok(CliModel::Show)
    } else if args[0] == "verify"@ {
        match verify_options_from(args, 1, None, None) {
            Err(e) => Err(e),
            Ok((Some(c), m)) => Ok(CliModel::Verify(c, m)),
            Ok((None, _)) => Err(CliErrorModel::MissingCheckout),
        }
    } else {
        Err(CliErrorModel::UnknownCommand(args[0]))
    }
}

/// Strings as character sequences.
pub open spec fn strings_view(v: Seq<String>) -> Seq<Seq<char>> {
    v.map_values(|s: String| s@)
}

fn text_equals(a: &String, b: &str) -> (r: bool)
    ensures
        r == (a@ == b@),
{
    let chars = to_chars(a.as_str());
    chars_are(&chars, b)
}

fn after_equals_sign(a: &String) -> (r: String)
    requires
        a@.len() >= 11,
    ensures
        r@ == a@.skip(11),
{
    let chars = to_chars(a.as_str());
    let tail = slice_chars(&chars, 11, chars.len());
    proof {
        assert(chars@.subrange(11, chars@.len() as int) =~= a@.skip(11));
    }
    string_from_chars(tail)
}

/// Reads a command line (without the program name).
pub fn parse_cli_args(args: Vec<String>) -> (r: Result<CliCommand, CliError>)
    ensures
        match r {
            Ok(c) => cli_meaning(strings_view(args@)) matches Ok(m) && c@ == m,
            Err(e) => cli_meaning(strings_view(args@)) matches Err(f) && e@ == f,
        },
{
    let ghost sv = strings_view(args@);
    if args.len() == 0 {
        return Err(CliError::MissingCommand);
    }
    let mut k: usize = 0;
    while k < args.len()
        invariant
            k <= args.len(),
            sv == strings_view(args@),
            forall|j: int| 0 <= j < k ==> !is_help_flag(#[trigger] sv[j]),
        decreases args.len() - k,
    {
        if text_equals(&args[k], "-h") || text_equals(&args[k], "--help") {
            proof {
                assert(is_help_flag(sv[k as int]));
            }
            return Ok(CliCommand::Help);
        }
        k = k + 1;
    }
    proof {
        assert(!(exists|i: int| 0 <= i < sv.len() && is_help_flag(#[trigger] sv[i])));
    }
    if text_equals(&args[0], "show") {
        return Ok(CliCommand::Show);
    }
    if !text_equals(&args[0], "verify") {
        return Err(CliError::UnknownCommand(args[0].clone()));
    }
    let mut checkout: Option<String> = None;
    let mut manifest: Option<String> = None;
    let mut i: usize = 1;
    while i < args.len()
        invariant
            1 <= i <= args.len() + 1,
            sv == strings_view(args@),
            sv.len() > 0,
            sv[0] == "verify"@,
            sv[0] != "show"@,
            !(exists|j: int| 0 <= j < sv.len() && is_help_flag(#[trigger] sv[j])),
            verify_options_from(sv, 1, None, None) == verify_options_from(
                sv,
                i as int,
                opt_view(checkout),
                opt_view(manifest),
            ),
        decreases args.len() + 1 - i,
    {
        let a = &args[i];
        let chars = to_chars(a.as_str());
        proof {
            assert(sv[i as int] == a@);
        }
        if text_equals(a, "--checkout") {
            if i + 1 < args.len() {
                checkout = Some(args[i + 1].clone());
                i = i + 2;
            } else {
                return Err(CliError::MissingValue(String::from_str("--checkout")));
            }
        } else if text_equals(a, "--manifest") {
            if i + 1 < args.len() {
                manifest = Some(args[i + 1].clone());
                i = i + 2;
            } else {
                return Err(CliError::MissingValue(String::from_str("--manifest")));
            }
        } else if starts_with_text(&chars, "--checkout=") {
            proof {
                reveal_strlit("--checkout=");
            }
            checkout = Some(after_equals_sign(a));
            i = i + 1;
        } else if starts_with_text(&chars, "--manifest=") {
            proof {
                reveal_strlit("--manifest=");
            }
            manifest = Some(after_equals_sign(a));
            i = i + 1;
        } else {
            return Err(CliError::UnknownArgument(a.clone()));
        }
    }
    match checkout {
        Some(c) => Ok(CliCommand::Verify(VerifyOptions { checkout: c, manifest })),
        None => Err(CliError::MissingCheckout),
    }
}

} // verus!
