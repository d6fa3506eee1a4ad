//! The detector: compose marker check, output scan, host extraction and
//! module building into one short-circuiting pipeline.

use crate::host::{extract_host, spec_extract_host, trim_spaces, trim_spaces_str};
use crate::registry::{extract_registry, spec_extract_registry};
use crate::segment::{
    resolve_style, spec_resolve_style, Module, ModuleView, SegmentView, Style,
};
use vstd::prelude::*;

verus! {

/// The marker filename whose presence makes the directory an NPM project.
pub open spec fn spec_marker_name() -> Seq<char> {
    ".nodenv-vars"@
}

/// The marker filename, for the caller that scans the directory.
pub fn marker_file_name() -> (r: String)
    ensures
        r@ == spec_marker_name(),
{
    String::from_str(".nodenv-vars")
}

/// Does the filename set contain the project marker?
pub open spec fn spec_has_marker(files: Seq<Seq<char>>) -> bool {
    exists|k: int| 0 <= k < files.len() && files[k] == spec_marker_name()
}

/// Report whether any of the given filenames is the project marker.
pub fn has_marker(files: &Vec<String>) -> (r: bool)
    ensures
        r == spec_has_marker(files.deep_view()),
{
    let m = marker_file_name();
    let mut k: usize = 0;
    while k < files.len()
        invariant
            k <= files.len(),
            m@ == spec_marker_name(),
            forall|t: int| 0 <= t < k ==> files.deep_view()[t] != spec_marker_name(),
        decreases files.len() - k,
    {
        if m.eq(&files[k]) {
            proof {
                assert(files.deep_view()[k as int] == spec_marker_name());
            }
            return true;
        }
        k = k + 1;
    }
    false
}

/// The module built for a host: the fixed name, the resolved style, and
/// the symbol segment followed by the trimmed host text.
pub open spec fn spec_module_for(host: Seq<char>, style: Option<Style>) -> ModuleView {
    ModuleView {
        name: "npm"@,
        style: spec_resolve_style(style),
        segments: seq![
            SegmentView { name: "symbol"@, text: "⬢ "@ },
            SegmentView { name: "version"@, text: trim_spaces(host) },
        ],
    }
}

/// The view of an optional borrowed string.
pub open spec fn str_opt_view(o: Option<&str>) -> Option<Seq<char>> {
    match o {
        Some(s) => Some(s@),
        None => None,
    }
}

/// The view of an optional module.
pub open spec fn module_opt_view(o: Option<Module>) -> Option<ModuleView> {
    match o {
        Some(m) => Some(m@),
        None => None,
    }
}

/// Everything detection decides, as a function of its inputs alone: a
/// module exactly when the marker was found, the probe produced output,
/// that output carries a registry value, and the value's URL has a host.
pub open spec fn spec_detect(
    marker_present: bool,
    probe: Option<Seq<char>>,
    style: Option<Style>,
) -> Option<ModuleView> {
    if !marker_present {
        None
    } else {
        match probe {
            None => None,
            Some(out) => match spec_extract_registry(out) {
                None => None,
                Some(raw) => match spec_extract_host(raw) {
                    None => None,
                    Some(host) => Some(spec_module_for(host, style)),
                },
            },
        }
    }
}

/// Decide whether the registry module applies and build it.
///
/// `marker_present` is the marker scan's verdict, `probe_output` the
/// external tool's decoded output (`None` when the tool could not be run
/// or its output could not be decoded), and `style_override` the
/// configured style, if any. Every failure collapses to `None`.
pub fn detect(
    marker_present: bool,
    probe_output: Option<&str>,
    style_override: Option<Style>,
) -> (r: Option<Module>)
    ensures
        module_opt_view(r) == spec_detect(
            marker_present,
            str_opt_view(probe_output),
            style_override,
        ),
{
    if !marker_present {
        return None;
    }
    let out = match probe_output {
        Some(o) => o,
        None => {
            return None;
        },
    };
    let raw = match extract_registry(out) {
        Some(v) => v,
        None => {
            return None;
        },
    };
    let host = match extract_host(raw.as_str()) {
        Some(h) => h,
        None => {
            return None;
        },
    };
    let style = resolve_style(style_override);
    let mut m = Module::new("npm", style);
    m.new_segment("symbol", "⬢ ");
    let text = trim_spaces_str(host.as_str());
    m.new_segment("version", text);
    proof {
        assert(m@.segments =~= spec_module_for(host@, style_override).segments);
        assert(m@ == spec_module_for(host@, style_override));
    }
    Some(m)
}

/// For any filename set without the marker file, detection yields
/// nothing, and the probe's output is irrelevant to the result: the
/// external tool need not be invoked at all.
pub proof fn lemma_no_marker_no_probe(
    files: Seq<Seq<char>>,
    out1: Option<Seq<char>>,
    out2: Option<Seq<char>>,
    style: Option<Style>,
)
    requires
        !spec_has_marker(files),
    ensures
        spec_detect(spec_has_marker(files), out1, style) is None,
        spec_detect(spec_has_marker(files), out1, style) == spec_detect(
            spec_has_marker(files),
            out2,
            style,
        ),
{
}

/// Detection is deterministic: two calls over identical marker state,
/// probe output and style configuration produce identical results.
pub proof fn lemma_detect_idempotent(
    marker_present: bool,
    probe: Option<Seq<char>>,
    style: Option<Style>,
    r1: Option<ModuleView>,
    r2: Option<ModuleView>,
)
    requires
        r1 == spec_detect(marker_present, probe, style),
        r2 == spec_detect(marker_present, probe, style),
    ensures
        r1 == r2,
{
}

} // verus!
