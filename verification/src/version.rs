//! Whether the tool is installed, and which version it reports with
//! `rocm-smi --version --json`.
use vstd::prelude::*;
use std::path::PathBuf;
use crate::json::{json_document, parse_json, Json, JsonView};
use crate::snapshot::{spec_text_field, text_field};

verus! {

/// `std::path::PathBuf`, carried through as an opaque value.
#[verifier::external_type_specification]
#[verifier::external_body]
pub struct ExPathBuf(PathBuf);

/// The versions that the tool reports of itself and of its library.
#[derive(Debug, Clone, PartialEq, Eq)]
pub struct RocmVersion {
    /// The version of the tool (`ROCM-SMI version`).
    pub rocm_smi: String,
    /// The version of the library (`ROCM-SMI-LIB version`).
    pub rocm_smi_lib: String,
}

/// The mathematical content of a [`RocmVersion`].
pub struct VersionView {
    pub rocm_smi: Seq<char>,
    pub rocm_smi_lib: Seq<char>,
}

impl View for RocmVersion {
    type V = VersionView;

    open spec fn view(&self) -> VersionView {
        VersionView { rocm_smi: self.rocm_smi@, rocm_smi_lib: self.rocm_smi_lib@ }
    }
}

/// Where the tool was found, and what version it reported.
#[derive(Debug, Clone, PartialEq, Eq)]
pub struct RocmCheckResult {
    /// The path of the tool, if it is installed.
    pub path: Option<PathBuf>,
    /// The versions, if the tool ran and its report could be read.
    pub version: Option<RocmVersion>,
}

/// The content of an optional version.
pub open spec fn spec_opt_version(version: Option<RocmVersion>) -> Option<VersionView> {
    match version {
        Some(v) => Some(v@),
        None => None,
    }
}

/// The versions in a report, as far as it could be read: the report is an
/// object that holds both versions as strings.
pub open spec fn spec_version(doc: Option<JsonView>) -> Option<VersionView> {
    match doc {
        Some(JsonView::Object(members)) => {
            let tool = spec_text_field(members, "ROCM-SMI version"@);
            let lib = spec_text_field(members, "ROCM-SMI-LIB version"@);
            if tool is Some && lib is Some {
                Some(VersionView { rocm_smi: tool->0, rocm_smi_lib: lib->0 })
            } else {
                None
            }
        },
        _ => None,
    }
}

/// The versions that a check reports: none without a path, none where the
/// tool gave no output, else those in the output.
pub open spec fn spec_checked_version(found: bool, output: Option<Seq<u8>>) -> Option<
    VersionView,
> {
    match output {
        Some(bytes) => if found {
            spec_version(json_document(bytes))
        } else {
            None
        },
        None => None,
    }
}

/// The bytes of an optional output.
pub open spec fn spec_opt_bytes(output: Option<&[u8]>) -> Option<Seq<u8>> {
    match output {
        Some(bytes) => Some(bytes@),
        None => None,
    }
}

impl RocmVersion {
    /// Reads the versions from a report that was read already.
    pub fn from_json(doc: &Json) -> (r: Option<RocmVersion>)
        ensures
            spec_opt_version(r) == spec_version(Some(doc@)),
    {
        match doc.as_object() {
            Some(members) => {
                let tool = text_field(members, "ROCM-SMI version");
                let lib = text_field(members, "ROCM-SMI-LIB version");
                match (tool, lib) {
                    (Some(rocm_smi), Some(rocm_smi_lib)) => Some(
                        RocmVersion { rocm_smi, rocm_smi_lib },
                    ),
                    _ => None,
                }
            },
            None => None,
        }
    }

    /// Reads the versions from the bytes that the tool wrote.
    pub fn parse(bytes: &[u8]) -> (r: Option<RocmVersion>)
        ensures
            spec_opt_version(r) == spec_version(json_document(bytes@)),
    {
        match parse_json(bytes) {
            Some(doc) => RocmVersion::from_json(&doc),
            None => None,
        }
    }
}

/// Puts together the result of a check: `path` is where the tool was found,
/// `output` what it wrote when asked for its version, or `None` where it
/// could not be run.
pub fn check_rocm_smi(path: Option<PathBuf>, output: Option<&[u8]>) -> (r: RocmCheckResult)
    ensures
        r.path == path,
        spec_opt_version(r.version) == spec_checked_version(path is Some, spec_opt_bytes(output)),
{
    let version = match output {
        Some(bytes) => if path.is_some() {
            RocmVersion::parse(bytes)
        } else {
            None
        },
        None => None,
    };
    RocmCheckResult { path, version }
}

} // verus!
