//! Software (fallback) adapter selection for the compute path.
//!
//! The software adapter runs the same shaders as a hardware GPU through a
//! software rasterizer. Whether it is requested is decided, in this order, by
//! an explicit caller choice, the `FLEXPART_GPU_SOFTWARE` variable and its
//! alias `WGPU_FORCE_FALLBACK_ADAPTER`. A truthy value is `1`, `true`, `yes`
//! or `on`, ignoring ASCII case and surrounding whitespace.

use vstd::prelude::*;
use crate::text::{
    lower, lower_range, trim, trimmed_chars, chars_are, all_ws, lemma_trim_lower,
    lemma_lower_idempotent, lemma_trim_ignores_padding,
};

verus! {

/// Environment variable requesting the software fallback adapter.
pub const SOFTWARE_ADAPTER_ENV: &'static str = "FLEXPART_GPU_SOFTWARE";

/// Alias of [`SOFTWARE_ADAPTER_ENV`].
pub const SOFTWARE_ADAPTER_ENV_ALIAS: &'static str = "WGPU_FORCE_FALLBACK_ADAPTER";

/// Options controlling adapter selection.
#[derive(Debug, Clone, PartialEq, Eq)]
pub struct GpuAdapterOptions {
    /// Request the software fallback adapter.
    pub force_software_fallback: bool,
    /// Backend override forwarded through `WGPU_BACKEND`; `None` leaves the
    /// choice to the defaults.
    pub backend_override: Option<String>,
}

impl Default for GpuAdapterOptions {
    fn default() -> (r: Self)
        ensures
            !r.force_software_fallback,
            r.backend_override is None,
    {
        GpuAdapterOptions { force_software_fallback: false, backend_override: None }
    }
}

impl GpuAdapterOptions {
    /// Options that force the software fallback adapter.
    pub fn software() -> (r: Self)
        ensures
            r.force_software_fallback,
            r.backend_override is None,
    {
        GpuAdapterOptions { force_software_fallback: true, backend_override: None }
    }

    /// Options that request a hardware adapter.
    pub fn hardware() -> (r: Self)
        ensures
            !r.force_software_fallback,
            r.backend_override is None,
    {
        GpuAdapterOptions { force_software_fallback: false, backend_override: None }
    }

    /// Options for the values of the primary variable and of its alias
    /// (`None` when unset).
    pub fn from_flag_values(primary: Option<&str>, alias: Option<&str>) -> (r: Self)
        ensures
            r.force_software_fallback == software_requested(
                option_view(primary),
                option_view(alias),
            ),
            r.backend_override is None,
    {
        GpuAdapterOptions {
            force_software_fallback: is_software_adapter_requested(primary, alias),
            backend_override: None,
        }
    }
}

/// `1`, `true`, `yes` or `on`, in any ASCII case, surrounded by any
/// whitespace.
pub open spec fn is_truthy(value: Seq<char>) -> bool {
    let v = lower(trim(value));
    v == "1"@ || v == "true"@ || v == "yes"@ || v == "on"@
}

/// An optional text as a character sequence.
pub open spec fn option_view(v: Option<&str>) -> Option<Seq<char>> {
    match v {
        Some(s) => Some(s@),
        None => None,
    }
}

/// Whether an optional variable value is set and truthy.
pub open spec fn flag_set(v: Option<Seq<char>>) -> bool {
    match v {
        Some(s) => is_truthy(s),
        None => false,
    }
}

/// Whether the primary variable or its alias holds a truthy value.
pub open spec fn software_requested(primary: Option<Seq<char>>, alias: Option<Seq<char>>) -> bool {
    flag_set(primary) || flag_set(alias)
}

/// Whether `value` is a truthy flag.
pub fn parse_truthy_flag(value: &str) -> (r: bool)
    ensures
        r == is_truthy(value@),
{
    let t = trimmed_chars(value);
    let v = lower_range(&t, 0, t.len());
    proof {
        assert(t@.subrange(0, t@.len() as int) =~= t@);
    }
    chars_are(&v, "1") || chars_are(&v, "true") || chars_are(&v, "yes") || chars_are(&v, "on")
}

/// Whether the values of the primary variable and its alias (`None` when
/// unset) request the software adapter.
pub fn is_software_adapter_requested(primary: Option<&str>, alias: Option<&str>) -> (r: bool)
    ensures
        r == software_requested(option_view(primary), option_view(alias)),
{
    let p = match primary {
        Some(v) => parse_truthy_flag(v),
        None => false,
    };
    let a = match alias {
        Some(v) => parse_truthy_flag(v),
        None => false,
    };
    p || a
}

/// A flag is read the same whatever the ASCII case of its letters.
pub proof fn lemma_truthy_ignores_case(value: Seq<char>)
    ensures
        is_truthy(lower(value)) == is_truthy(value),
{
    lemma_trim_lower(value);
    lemma_lower_idempotent(trim(value));
}

/// A flag is read the same whatever whitespace surrounds it.
pub proof fn lemma_truthy_ignores_padding(w1: Seq<char>, value: Seq<char>, w2: Seq<char>)
    requires
        all_ws(w1),
        all_ws(w2),
    ensures
        is_truthy(w1 + value + w2) == is_truthy(value),
{
    lemma_trim_ignores_padding(w1, value, w2);
}

/// The alias requests the software adapter exactly as the primary variable
/// does, and an unset variable never does.
pub proof fn lemma_either_variable_suffices(primary: Option<Seq<char>>, alias: Option<Seq<char>>)
    ensures
        software_requested(primary, alias) == software_requested(alias, primary),
        software_requested(None, None) == false,
        software_requested(primary, None) == flag_set(primary),
{
}

} // verus!
