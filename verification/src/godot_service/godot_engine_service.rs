//! The engine registry's compute side: deriving engine metadata from release
//! assets and from installed-engine folders, and the guard that protects the
//! removal of an installed version. Listing and deleting directories are left
//! to the surrounding application.

use vstd::prelude::*;

use crate::fetcher::download_service::Asset;
use crate::godot_service::godot_engine_version::{
    spec_version_display_name, spec_version_number, GodotEngineVersion, GodotEngineVersionView,
};
use crate::text::{
    contains_at, contains_sub, spec_last_component, spec_normalize_separators, last_component,
    normalize_separators, str_contains,
};

verus! {

/// Derives an engine version from a release asset: the metadata comes from
/// the asset's name, the install path is empty until the engine is installed,
/// and the download address is carried along.
pub fn from_asset(asset: Asset) -> (r: GodotEngineVersion)
    ensures
        r@.version_name == spec_version_display_name(asset@.name),
        r@.version_number == spec_version_number(asset@.name),
        r@.updated_at == asset@.created_at,
        r@.path.len() == 0,
        r@.download_url == asset@.browser_download_url,
{
    GodotEngineVersion::new(asset.name, asset.created_at, String::new(), asset.browser_download_url)
}

/// Derives one engine version per release asset, in order: what a fetched
/// release listing becomes once filtered to the platform's assets.
pub fn versions_from_assets(assets: Vec<Asset>) -> (r: Vec<GodotEngineVersion>)
    ensures
        r@.len() == assets@.len(),
        forall|i: int|
            0 <= i < r@.len() ==> {
                &&& (#[trigger] r@[i])@.version_name == spec_version_display_name(
                    assets@[i]@.name,
                )
                &&& r@[i]@.version_number == spec_version_number(assets@[i]@.name)
                &&& r@[i]@.updated_at == assets@[i]@.created_at
                &&& r@[i]@.path.len() == 0
                &&& r@[i]@.download_url == assets@[i]@.browser_download_url
            },
{
    let mut out: Vec<GodotEngineVersion> = Vec::new();
    let ghost all = assets@;
    let mut i: usize = 0;
    while i < assets.len()
        invariant
            assets@ == all,
            0 <= i <= all.len(),
            out@.len() == i,
            forall|k: int|
                0 <= k < i ==> {
                    &&& (#[trigger] out@[k])@.version_name == spec_version_display_name(
                        all[k]@.name,
                    )
                    &&& out@[k]@.version_number == spec_version_number(all[k]@.name)
                    &&& out@[k]@.updated_at == all[k]@.created_at
                    &&& out@[k]@.path.len() == 0
                    &&& out@[k]@.download_url == all[k]@.browser_download_url
                },
        decreases all.len() - i,
    {
        let version = from_asset(assets[i].clone());
        out.push(version);
        i += 1;
    }
    out
}

/// The timestamp recorded for engines found on disk, whose true release date
/// is not recoverable from the folder alone.
pub open spec fn spec_rescan_placeholder_date() -> Seq<char> {
    "2024-08-12"@
}

/// Derives the engine version recorded for an installed-engine folder: the
/// name comes from the folder's final path component and the timestamp is a
/// placeholder, since only a fresh download knows the true release date.
pub fn installed_version_from_path(path: &String) -> (r: GodotEngineVersion)
    ensures
        r@.version_name == spec_version_display_name(
            spec_last_component(spec_normalize_separators(path@)),
        ),
        r@.version_number == spec_version_number(
            spec_last_component(spec_normalize_separators(path@)),
        ),
        r@.updated_at == spec_rescan_placeholder_date(),
        r@.path == path@,
        r@.download_url.len() == 0,
{
    let normalized = normalize_separators(path.as_str());
    let name = last_component(normalized.as_str());
    GodotEngineVersion::new(
        name,
        String::from_str("2024-08-12"),
        path.clone(),
        String::new(),
    )
}

/// Derives one engine version per installed-engine folder, in listing order.
/// The caller supplies the paths of the immediate subdirectories of the
/// engine storage root.
pub fn get_installed_godot_versions(subdirectory_paths: &Vec<String>) -> (r: Vec<
    GodotEngineVersion,
>)
    ensures
        r@.len() == subdirectory_paths@.len(),
        forall|i: int|
            0 <= i < r@.len() ==> {
                let name = spec_last_component(
                    spec_normalize_separators(#[trigger] subdirectory_paths@[i]@),
                );
                &&& r@[i]@.version_name == spec_version_display_name(name)
                &&& r@[i]@.version_number == spec_version_number(name)
                &&& r@[i]@.updated_at == spec_rescan_placeholder_date()
                &&& r@[i]@.path == subdirectory_paths@[i]@
                &&& r@[i]@.download_url.len() == 0
            },
{
    let mut out: Vec<GodotEngineVersion> = Vec::new();
    let mut i: usize = 0;
    while i < subdirectory_paths.len()
        invariant
            0 <= i <= subdirectory_paths@.len(),
            out@.len() == i,
            forall|k: int|
                0 <= k < i ==> {
                    let name = spec_last_component(
                        spec_normalize_separators(#[trigger] subdirectory_paths@[k]@),
                    );
                    &&& out@[k]@.version_name == spec_version_display_name(name)
                    &&& out@[k]@.version_number == spec_version_number(name)
                    &&& out@[k]@.updated_at == spec_rescan_placeholder_date()
                    &&& out@[k]@.path == subdirectory_paths@[k]@
                    &&& out@[k]@.download_url.len() == 0
                },
        decreases subdirectory_paths@.len() - i,
    {
        let version = installed_version_from_path(&subdirectory_paths[i]);
        out.push(version);
        i += 1;
    }
    out
}

/// The defensive guard on removing an installed version: removal is allowed
/// only when the install path is nonempty and contains the version name, so
/// that a stale record can never delete an unrelated folder.
pub open spec fn spec_removal_allowed(v: GodotEngineVersionView) -> bool {
    &&& v.path.len() > 0
    &&& contains_sub(v.path, v.version_name)
}

/// Decides whether an installed version may be removed from disk: its install
/// path must be nonempty and contain the version name. The caller performs
/// the actual deletion only on a `true` answer.
pub fn removal_allowed(godot_engine_version: &GodotEngineVersion) -> (r: bool)
    ensures
        r == spec_removal_allowed(godot_engine_version@),
{
    if godot_engine_version.path.as_str().unicode_len() == 0 {
        return false;
    }
    if godot_engine_version.version_name.as_str().unicode_len() == 0 {
        proof {
            assert(godot_engine_version@.path.subrange(0, 0)
                =~= godot_engine_version@.version_name);
            assert(contains_at(godot_engine_version@.path, godot_engine_version@.version_name, 0));
        }
        return true;
    }
    str_contains(
        godot_engine_version.path.as_str(),
        godot_engine_version.version_name.as_str(),
    )
}

} // verus!
