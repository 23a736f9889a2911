//! One installed or installable release of the engine, and the derivation of
//! its metadata from a raw release-asset name.

use vstd::prelude::*;

use crate::text::{
    contains_sub, spec_find_version_tag, spec_join_path, spec_remove_all, spec_version_core,
    join_path, remove_all, extract_version_tag, str_contains,
};

verus! {

/// One installed or installable release of the engine.
pub struct GodotEngineVersion {
    pub version_name: String,
    pub version_number: String,
    pub updated_at: String,
    pub path: String,
    pub download_url: String,
    pub executable_path: String,
    pub console_executable_path: String,
}

/// Mathematical model of a [`GodotEngineVersion`].
pub struct GodotEngineVersionView {
    pub version_name: Seq<char>,
    pub version_number: Seq<char>,
    pub updated_at: Seq<char>,
    pub path: Seq<char>,
    pub download_url: Seq<char>,
    pub executable_path: Seq<char>,
    pub console_executable_path: Seq<char>,
}

impl View for GodotEngineVersion {
    type V = GodotEngineVersionView;

    open spec fn view(&self) -> GodotEngineVersionView {
        GodotEngineVersionView {
            version_name: self.version_name@,
            version_number: self.version_number@,
            updated_at: self.updated_at@,
            path: self.path@,
            download_url: self.download_url@,
            executable_path: self.executable_path@,
            console_executable_path: self.console_executable_path@,
        }
    }
}

impl DeepView for GodotEngineVersion {
    type V = GodotEngineVersionView;

    open spec fn deep_view(&self) -> GodotEngineVersionView {
        self.view()
    }
}

impl Clone for GodotEngineVersion {
    fn clone(&self) -> (r: Self)
        ensures
            r == *self,
    {
        GodotEngineVersion {
            version_name: self.version_name.clone(),
            version_number: self.version_number.clone(),
            updated_at: self.updated_at.clone(),
            path: self.path.clone(),
            download_url: self.download_url.clone(),
            executable_path: self.executable_path.clone(),
            console_executable_path: self.console_executable_path.clone(),
        }
    }
}

/// The version number derived from a raw asset name: the digits of its first
/// `v<digits>-` tag, falling back to the stripped asset name when no tag
/// occurs, with ` mono` appended when the name marks a scripting-runtime
/// build.
pub open spec fn spec_version_number(raw_name: Seq<char>) -> Seq<char> {
    let base = if spec_find_version_tag(raw_name, 0) < raw_name.len() {
        spec_version_core(raw_name)
    } else {
        spec_version_display_name(raw_name)
    };
    if contains_sub(raw_name, "_mono_"@) {
        base + " mono"@
    } else {
        base
    }
}

/// The display name derived from a raw asset name: the name with its `.zip`
/// and `.exe` extensions removed.
pub open spec fn spec_version_display_name(raw_name: Seq<char>) -> Seq<char> {
    spec_remove_all(spec_remove_all(raw_name, ".zip"@), ".exe"@)
}

impl GodotEngineVersion {
    /// Derives the full engine metadata from a raw asset or folder name: the
    /// cleaned display name, the extracted version number, and the paths of
    /// the two executables under the install path.
    pub fn new(version_name: String, updated_at: String, path: String, download_url: String) -> (r:
        GodotEngineVersion)
        ensures
            r@.version_name == spec_version_display_name(version_name@),
            r@.version_number == spec_version_number(version_name@),
            r@.updated_at == updated_at@,
            r@.path == path@,
            r@.download_url == download_url@,
            r@.executable_path == spec_join_path(
                path@,
                spec_version_display_name(version_name@) + ".exe"@,
            ),
            r@.console_executable_path == spec_join_path(
                path@,
                spec_version_display_name(version_name@) + "_console.exe"@,
            ),
    {
        let stripped = remove_all(version_name.as_str(), ".zip");
        let name = remove_all(stripped.as_str(), ".exe");
        let base = match extract_version_tag(version_name.as_str()) {
            Some(tag) => tag,
            None => name.clone(),
        };
        let version_number = if str_contains(version_name.as_str(), "_mono_") {
            base.concat(" mono")
        } else {
            base
        };
        let exe_name = name.clone().concat(".exe");
        let console_exe_name = name.clone().concat("_console.exe");
        let executable_path = join_path(path.as_str(), exe_name.as_str());
        let console_executable_path = join_path(path.as_str(), console_exe_name.as_str());
        GodotEngineVersion {
            version_name: name,
            version_number,
            updated_at,
            path,
            download_url,
            executable_path,
            console_executable_path,
        }
    }
}

} // verus!
