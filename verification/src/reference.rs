//! The pinned FLEXPART reference revision and the fail-closed check of a
//! reference checkout against it.
//!
//! A checkout passes only when its `HEAD` is exactly the pinned commit and
//! its work tree is clean; every other outcome is an error.

use vstd::prelude::*;
use crate::text::{is_hex, is_ascii_hex, trim, trimmed_chars, chars_equal};

verus! {

broadcast use vstd::string::group_string_axioms;

/// Description of the normative reference revision.
#[derive(Debug, Clone)]
pub struct ReferenceManifest {
    /// Model name.
    pub name: String,
    /// Model version.
    pub version: String,
    /// Role of the reference.
    pub role: String,
    /// Upstream repository URL.
    pub upstream_repository: String,
    /// Pinned upstream tag.
    pub pinned_tag: String,
    /// Pinned upstream commit (full 40-hex SHA-1).
    pub pinned_commit: String,
    /// License identifier of the upstream sources.
    pub license: String,
    /// URL of the upstream license text.
    pub license_url: String,
    /// Requirement on reference checkouts.
    pub source_requirement: String,
    /// Additional notes.
    pub notes: Vec<String>,
}

/// Why a manifest or checkout was refused.
#[derive(Debug)]
pub enum ReferenceError {
    /// The manifest file could not be read.
    ReadManifest { path: String, reason: String },
    /// The manifest text is not valid JSON for a manifest.
    ParseManifest { message: String },
    /// A manifest field is empty or malformed.
    InvalidManifest { message: String },
    /// The checkout is not a git work tree.
    NotAGitCheckout { path: String, reason: String },
    /// The checkout is at another commit.
    CommitMismatch { path: String, expected: String, actual: String },
    /// The checkout has uncommitted changes.
    DirtyWorkTree { path: String, status: String },
    /// `git` could not be run.
    GitFailed { path: String, reason: String },
}

/// The text content of a [`ReferenceError`].
pub enum ReferenceErrorModel {
    ReadManifest(Seq<char>, Seq<char>),
    ParseManifest(Seq<char>),
    InvalidManifest(Seq<char>),
    NotAGitCheckout(Seq<char>, Seq<char>),
    CommitMismatch(Seq<char>, Seq<char>, Seq<char>),
    DirtyWorkTree(Seq<char>, Seq<char>),
    GitFailed(Seq<char>, Seq<char>),
}

impl View for ReferenceError {
    type V = ReferenceErrorModel;

    open spec fn view(&self) -> ReferenceErrorModel {
        match self {
            ReferenceError::ReadManifest { path, reason } => ReferenceErrorModel::ReadManifest(
                path@,
                reason@,
            ),
            ReferenceError::ParseManifest { message } => ReferenceErrorModel::ParseManifest(
                message@,
            ),
            ReferenceError::InvalidManifest { message } => ReferenceErrorModel::InvalidManifest(
                message@,
            ),
            ReferenceError::NotAGitCheckout { path, reason } =>
                ReferenceErrorModel::NotAGitCheckout(path@, reason@),
            ReferenceError::CommitMismatch { path, expected, actual } =>
                ReferenceErrorModel::CommitMismatch(path@, expected@, actual@),
            ReferenceError::DirtyWorkTree { path, status } => ReferenceErrorModel::DirtyWorkTree(
                path@,
                status@,
            ),
            ReferenceError::GitFailed { path, reason } => ReferenceErrorModel::GitFailed(
                path@,
                reason@,
            ),
        }
    }
}

/// The one-line (for a dirty tree, multi-line) description of an error.
pub open spec fn reference_error_text(e: ReferenceErrorModel) -> Seq<char> {
    match e {
        ReferenceErrorModel::ReadManifest(p, r) => "failed to read manifest `"@ + p + "`: "@ + r,
        ReferenceErrorModel::ParseManifest(m) => "failed to parse manifest JSON: "@ + m,
        ReferenceErrorModel::InvalidManifest(m) => "invalid manifest: "@ + m,
        ReferenceErrorModel::NotAGitCheckout(p, r) => "reference checkout `"@ + p
            + "` is not a git work tree: "@ + r,
        ReferenceErrorModel::CommitMismatch(p, e, a) => "reference checkout `"@ + p
            + "` is at commit "@ + a + ", expected pinned "@ + e,
        ReferenceErrorModel::DirtyWorkTree(p, s) => "reference checkout `"@ + p
            + "` has uncommitted changes and is not an unmodified oracle:\n"@ + s,
        ReferenceErrorModel::GitFailed(p, r) => "failed to run `git` for checkout `"@ + p
            + "`: "@ + r,
    }
}

impl ReferenceError {
    /// The description of the error.
    pub fn to_message(&self) -> (r: String)
        ensures
            r@ == reference_error_text(self@),
    {
        match self {
            ReferenceError::ReadManifest { path, reason } => {
                let mut r = String::from_str("failed to read manifest `");
                r.append(path.as_str());
                r.append("`: ");
                r.append(reason.as_str());
                r
            },
            ReferenceError::ParseManifest { message } => {
                let mut r = String::from_str("failed to parse manifest JSON: ");
                r.append(message.as_str());
                r
            },
            ReferenceError::InvalidManifest { message } => {
                let mut r = String::from_str("invalid manifest: ");
                r.append(message.as_str());
                r
            },
            ReferenceError::NotAGitCheckout { path, reason } => {
                let mut r = String::from_str("reference checkout `");
                r.append(path.as_str());
                r.append("` is not a git work tree: ");
                r.append(reason.as_str());
                r
            },
            ReferenceError::CommitMismatch { path, expected, actual } => {
                let mut r = String::from_str("reference checkout `");
                r.append(path.as_str());
                r.append("` is at commit ");
                r.append(actual.as_str());
                r.append(", expected pinned ");
                r.append(expected.as_str());
                r
            },
            ReferenceError::DirtyWorkTree { path, status } => {
                let mut r = String::from_str("reference checkout `");
                r.append(path.as_str());
                r.append("` has uncommitted changes and is not an unmodified oracle:\n");
                r.append(status.as_str());
                r
            },
            ReferenceError::GitFailed { path, reason } => {
                let mut r = String::from_str("failed to run `git` for checkout `");
                r.append(path.as_str());
                r.append("`: ");
                r.append(reason.as_str());
                r
            },
        }
    }
}

/// A checkout that passed verification.
#[derive(Debug, Clone)]
pub struct VerifiedCheckout {
    /// The checkout directory.
    pub path: String,
    /// The pinned commit it was verified against.
    pub commit: String,
}

/// A full SHA-1: exactly 40 ASCII hex digits.
pub open spec fn is_full_commit(c: Seq<char>) -> bool {
    c.len() == 40 && forall|i: int| 0 <= i < c.len() ==> is_hex(#[trigger] c[i])
}

/// Message for an empty manifest field.
pub open spec fn empty_field_message(field: Seq<char>) -> Seq<char> {
    "manifest field `"@ + field + "` must not be empty"@
}

/// Message for a pinned commit that is no full hexadecimal SHA-1.
pub open spec fn commit_format_message() -> Seq<char> {
    "pinned_commit must be a full 40-character hex SHA-1"@
}

impl ReferenceManifest {
    /// The first structural problem of the manifest, as a message: an empty
    /// (after trimming) name, version, repository, tag or commit, in that
    /// order, then a trimmed commit that is not a full SHA-1.
    pub open spec fn problem(&self) -> Option<Seq<char>> {
        if trim(self.name@).len() == 0 {
            Some(empty_field_message("name"@))
        } else if trim(self.version@).len() == 0 {
            Some(empty_field_message("version"@))
        } else if trim(self.upstream_repository@).len() == 0 {
            Some(empty_field_message("upstream_repository"@))
        } else if trim(self.pinned_tag@).len() == 0 {
            Some(empty_field_message("pinned_tag"@))
        } else if trim(self.pinned_commit@).len() == 0 {
            Some(empty_field_message("pinned_commit"@))
        } else if !is_full_commit(trim(self.pinned_commit@)) {
            Some(commit_format_message())
        } else {
            None
        }
    }

    /// The manifest of the pinned FLEXPART 11.1 reference.
    pub fn bundled() -> (r: Result<Self, ReferenceError>)
        ensures
            r matches Ok(m) && m.name@ == "FLEXPART"@ && m.version@ == "11.1"@ && m.pinned_tag@
                == "v11.1"@ && m.pinned_commit@ == "c70586c2b7f5258850705325881c61f557ea9bd8"@
                && m.upstream_repository@ == "https://gitlab.phaidra.org/flexpart/flexpart"@
                && m.license@ == "GPL-3.0-or-later"@ && m.notes@.len() == 0
                && m.role@ == "normative reference oracle"@ && m.license_url@
                == "https://www.gnu.org/licenses/gpl-3.0.html"@ && m.source_requirement@
                == "unmodified upstream checkout at exactly the pinned commit"@,
    {
        Ok(ReferenceManifest {
            name: String::from_str("FLEXPART"),
            version: String::from_str("11.1"),
            role: String::from_str("normative reference oracle"),
            upstream_repository: String::from_str("https://gitlab.phaidra.org/flexpart/flexpart"),
            pinned_tag: String::from_str("v11.1"),
            pinned_commit: String::from_str("c70586c2b7f5258850705325881c61f557ea9bd8"),
            license: String::from_str("GPL-3.0-or-later"),
            license_url: String::from_str("https://www.gnu.org/licenses/gpl-3.0.html"),
            source_requirement: String::from_str(
                "unmodified upstream checkout at exactly the pinned commit",
            ),
            notes: Vec::new(),
        })
    }

    /// Checks that the required fields are not blank and that the pinned
    /// commit is a full SHA-1.
    pub fn validate(&self) -> (r: Result<(), ReferenceError>)
        ensures
            match r {
                Ok(()) => self.problem() is None,
                Err(e) => self.problem() matches Some(m) && e@ == ReferenceErrorModel::InvalidManifest(
                    m,
                ),
            },
    {
        if trimmed_chars(self.name.as_str()).len() == 0 {
            return Err(empty_field("name"));
        }
        if trimmed_chars(self.version.as_str()).len() == 0 {
            return Err(empty_field("version"));
        }
        if trimmed_chars(self.upstream_repository.as_str()).len() == 0 {
            return Err(empty_field("upstream_repository"));
        }
        if trimmed_chars(self.pinned_tag.as_str()).len() == 0 {
            return Err(empty_field("pinned_tag"));
        }
        let commit = trimmed_chars(self.pinned_commit.as_str());
        if commit.len() == 0 {
            return Err(empty_field("pinned_commit"));
        }
        let mut ok = commit.len() == 40;
        let mut i: usize = 0;
        while ok && i < commit.len()
            invariant
                i <= commit.len(),
                ok ==> commit.len() == 40,
                ok ==> forall|j: int| 0 <= j < i ==> is_hex(#[trigger] commit@[j]),
                !ok ==> !is_full_commit(commit@),
            decreases commit.len() - i,
        {
            if !is_ascii_hex(commit[i]) {
                ok = false;
            }
            i = i + 1;
        }
        if !ok {
            return Err(ReferenceError::InvalidManifest {
                message: String::from_str("pinned_commit must be a full 40-character hex SHA-1"),
            });
        }
        Ok(())
    }
}

fn empty_field(field: &str) -> (e: ReferenceError)
    ensures
        e@ == ReferenceErrorModel::InvalidManifest(empty_field_message(field@)),
{
    let mut message = String::from_str("manifest field `");
    message.append(field);
    message.append("` must not be empty");
    ReferenceError::InvalidManifest { message }
}

/// Compares the commit observed in a checkout with the pinned one; only
/// surrounding whitespace is ignored, so an abbreviated hash never matches.
pub fn check_pinned_commit(checkout: &str, expected: &str, actual: &str) -> (r: Result<
    (),
    ReferenceError,
>)
    ensures
        r is Ok <==> trim(actual@) == trim(expected@),
        r matches Err(e) ==> e@ == ReferenceErrorModel::CommitMismatch(
            checkout@,
            expected@,
            actual@,
        ),
{
    let a = trimmed_chars(actual);
    let e = trimmed_chars(expected);
    if chars_equal(&a, &e) {
        Ok(())
    } else {
        Err(ReferenceError::CommitMismatch {
            path: String::from_str(checkout),
            expected: String::from_str(expected),
            actual: String::from_str(actual),
        })
    }
}

/// Message for a `HEAD` query that printed nothing.
pub open spec fn empty_head_message() -> Seq<char> {
    "`git rev-parse HEAD` produced no output"@
}

/// What checking a checkout gives, from the outputs of `git rev-parse HEAD`
/// and `git status --porcelain` (or the errors of running them): the
/// verified commit, or the first reason to refuse.
pub open spec fn checkout_verdict(
    pinned: Seq<char>,
    checkout: Seq<char>,
    head: Result<Seq<char>, ReferenceErrorModel>,
    status: Result<Seq<char>, ReferenceErrorModel>,
) -> Result<Seq<char>, ReferenceErrorModel> {
    match head {
        Err(e) => Err(e),
        Ok(h) => {
            let actual = trim(h);
            if actual.len() == 0 {
                Err(ReferenceErrorModel::NotAGitCheckout(checkout, empty_head_message()))
            } else if trim(actual) != trim(pinned) {
                Err(ReferenceErrorModel::CommitMismatch(checkout, pinned, actual))
            } else {
                match status {
                    Err(e) => Err(e),
                    Ok(s) => if trim(s).len() != 0 {
                        Err(ReferenceErrorModel::DirtyWorkTree(checkout, trim(s)))
                    } else {
                        Ok(pinned)
                    },
                }
            }
        },
    }
}

/// A command's output, or its error, by their views.
pub open spec fn output_view(o: Result<String, ReferenceError>) -> Result<
    Seq<char>,
    ReferenceErrorModel,
> {
    match o {
        Ok(s) => Ok(s@),
        Err(e) => Err(e@),
    }
}

/// Decides whether `checkout` is an unmodified tree at the pinned commit,
/// from the outputs of `git rev-parse HEAD` and `git status --porcelain` run
/// in it (or the errors of running them). The status output is consulted
/// only once the commit has matched.
pub fn verify_checkout(
    manifest: &ReferenceManifest,
    checkout: &str,
    head_output: Result<String, ReferenceError>,
    status_output: Result<String, ReferenceError>,
) -> (r: Result<VerifiedCheckout, ReferenceError>)
    ensures
        match r {
            Ok(v) => checkout_verdict(
                manifest.pinned_commit@,
                checkout@,
                output_view(head_output),
                output_view(status_output),
            ) == Ok::<Seq<char>, ReferenceErrorModel>(v.commit@) && v.path@ == checkout@,
            Err(e) => checkout_verdict(
                manifest.pinned_commit@,
                checkout@,
                output_view(head_output),
                output_view(status_output),
            ) == Err::<Seq<char>, ReferenceErrorModel>(e@),
        },
{
    let head = match head_output {
        Ok(h) => h,
        Err(e) => {
            return Err(e);
        },
    };
    let actual = trimmed_chars(head.as_str());
    if actual.len() == 0 {
        return Err(ReferenceError::NotAGitCheckout {
            path: String::from_str(checkout),
            reason: String::from_str("`git rev-parse HEAD` produced no output"),
        });
    }
    let actual_text = crate::text::string_from_chars(actual);
    match check_pinned_commit(checkout, manifest.pinned_commit.as_str(), actual_text.as_str()) {
        Ok(()) => {},
        Err(e) => {
            return Err(e);
        },
    }
    let status = match status_output {
        Ok(s) => s,
        Err(e) => {
            return Err(e);
        },
    };
    let trimmed = trimmed_chars(status.as_str());
    if trimmed.len() != 0 {
        return Err(ReferenceError::DirtyWorkTree {
            path: String::from_str(checkout),
            status: crate::text::string_from_chars(trimmed),
        });
    }
    Ok(VerifiedCheckout {
        path: String::from_str(checkout),
        commit: manifest.pinned_commit.clone(),
    })
}

/// Verification is fail-closed: a verified checkout's `HEAD` is the pinned
/// commit (up to surrounding whitespace) and its status output is blank.
pub proof fn lemma_verified_checkout_is_pinned_and_clean(
    pinned: Seq<char>,
    checkout: Seq<char>,
    head: Result<Seq<char>, ReferenceErrorModel>,
    status: Result<Seq<char>, ReferenceErrorModel>,
)
    requires
        checkout_verdict(pinned, checkout, head, status) is Ok,
    ensures
        checkout_verdict(pinned, checkout, head, status)->Ok_0 == pinned,
        head matches Ok(h) && trim(trim(h)) == trim(pinned) && trim(h).len() > 0,
        status matches Ok(s) && trim(s).len() == 0,
{
}

/// The commit check ignores only surrounding whitespace: it accepts the
/// same pairs in either order, and a hash of another length never matches.
pub proof fn lemma_commit_match_is_exact(expected: Seq<char>, actual: Seq<char>)
    ensures
        (trim(actual) == trim(expected)) == (trim(expected) == trim(actual)),
        trim(actual).len() != trim(expected).len() ==> trim(actual) != trim(expected),
{
}

} // verus!
