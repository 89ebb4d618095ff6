//! `.app` bundle manifests: the `Resources/Info.toml` record and how a
//! bundle is built from it. Reading the directory and the TOML is the
//! application's job.
use vstd::prelude::*;

use crate::launch_services::AppBundle;
use crate::text::{ends_with, ends_with_str, str_chars};

verus! {

#[verifier::external_type_specification]
#[verifier::external_body]
pub struct ExPathBuf(std::path::PathBuf);

/// Parsed `Resources/Info.toml`; field names are the manifest keys, the two
/// lists default to empty.
#[derive(Debug, Clone)]
pub struct InfoToml {
    pub bundle_id: String,
    pub name: String,
    pub version: String,
    pub entrypoint: String,
    pub supported_types: Vec<String>,
    pub permissions: Vec<String>,
}

/// Why a directory is not a loadable bundle.
#[derive(Debug)]
pub enum BundleError {
    NotABundle(std::path::PathBuf),
    Read(std::path::PathBuf, String),
    Parse(std::path::PathBuf, String),
}

/// A bundle directory's name ends in `.app`.
pub fn is_app_bundle_name(name: &str) -> (r: bool)
    ensures
        r == ends_with(name@, ".app"@),
{
    let v = str_chars(name);
    ends_with_str(&v, ".app")
}

/// The bundle a manifest describes, located at `path` (the `.app`
/// directory); the entrypoint is taken verbatim.
pub fn bundle_from_info(info: InfoToml, path: String) -> (r: AppBundle)
    ensures
        r.bundle_id == info.bundle_id,
        r.name == info.name,
        r.version == info.version,
        r.path == path,
        r.entrypoint == info.entrypoint,
        r.supported_types == info.supported_types,
        r.permissions == info.permissions,
{
    AppBundle {
        bundle_id: info.bundle_id,
        name: info.name,
        version: info.version,
        path,
        entrypoint: info.entrypoint,
        supported_types: info.supported_types,
        permissions: info.permissions,
    }
}

} // verus!
