//! Engine-version derivation from release-asset names and installed-engine
//! folders, and the removal guard.

use godot_manager::fetcher::download_service::{
    create_engine_version_path, create_file_path_from_url_at_path, filter_assets_by_name, Asset,
    Release,
};
use godot_manager::fetcher::os_type::OsType;
use godot_manager::godot_service::godot_engine_service::{
    from_asset, get_installed_godot_versions, installed_version_from_path, removal_allowed,
};
use godot_manager::godot_service::godot_engine_version::GodotEngineVersion;

fn asset(name: &str) -> Asset {
    Asset {
        browser_download_url: format!("https://example.invalid/{}", name),
        name: name.to_string(),
        created_at: "2024-01-20".to_string(),
        size: 0,
    }
}

#[test]
fn mono_asset_name_yields_mono_version_number() {
    let version = from_asset(asset("Godot_v4.2.1-stable_mono_win64.exe.zip"));
    assert_eq!(version.version_number, "4.2.1 mono");
    assert_eq!(version.version_name, "Godot_v4.2.1-stable_mono_win64");
    assert_eq!(version.updated_at, "2024-01-20");
    assert_eq!(version.path, "");
}

#[test]
fn stable_asset_name_yields_plain_version_number() {
    let version = GodotEngineVersion::new(
        "Godot_v4.2.1-stable_win64.exe.zip".to_string(),
        "2024-01-20".to_string(),
        "".to_string(),
        "https://example.invalid/Godot_v4.2.1-stable_win64.exe.zip".to_string(),
    );
    assert_eq!(version.version_name, "Godot_v4.2.1-stable_win64");
    assert_eq!(version.version_number, "4.2.1");
}

#[test]
fn name_without_version_tag_falls_back_to_the_stripped_name() {
    let version = GodotEngineVersion::new(
        "CustomBuild.zip".to_string(),
        "".to_string(),
        "".to_string(),
        "".to_string(),
    );
    assert_eq!(version.version_number, "CustomBuild");
    assert_eq!(version.version_name, "CustomBuild");
}

#[test]
fn version_tag_takes_digits_and_dots_only() {
    // A plus sign is not a version character, so no tag occurs here and the
    // stripped name is the fallback.
    let version = GodotEngineVersion::new(
        "app_v1+2-x.zip".to_string(),
        "".to_string(),
        "".to_string(),
        "".to_string(),
    );
    assert_eq!(version.version_number, "app_v1+2-x");
}

#[test]
fn empty_filter_keeps_every_asset() {
    let releases = vec![Release { assets: vec![asset("a"), asset("b")] }];
    let kept = filter_assets_by_name(&releases, "");
    assert_eq!(kept.len(), 2);
}

#[test]
fn first_version_tag_wins() {
    let version = GodotEngineVersion::new(
        "app_v1.0-beta_v2.0-final".to_string(),
        "".to_string(),
        "".to_string(),
        "".to_string(),
    );
    assert_eq!(version.version_number, "1.0");
}

#[test]
fn executable_paths_join_the_install_path_and_cleaned_name() {
    let version = GodotEngineVersion::new(
        "Godot_v4.2.1-stable_win64.exe.zip".to_string(),
        "2024-01-20".to_string(),
        "engines/Godot_v4.2.1-stable_win64".to_string(),
        "".to_string(),
    );
    assert_eq!(
        version.executable_path,
        "engines/Godot_v4.2.1-stable_win64/Godot_v4.2.1-stable_win64.exe"
    );
    assert_eq!(
        version.console_executable_path,
        "engines/Godot_v4.2.1-stable_win64/Godot_v4.2.1-stable_win64_console.exe"
    );
}

#[test]
fn installed_folder_yields_version_with_placeholder_date() {
    let version = installed_version_from_path(&"engines\\Godot_v4.2.1-stable_win64".to_string());
    assert_eq!(version.version_name, "Godot_v4.2.1-stable_win64");
    assert_eq!(version.version_number, "4.2.1");
    assert_eq!(version.updated_at, "2024-08-12");
    assert_eq!(version.path, "engines\\Godot_v4.2.1-stable_win64");
}

#[test]
fn installed_listing_yields_one_version_per_folder() {
    let versions = get_installed_godot_versions(&vec![
        "engines/Godot_v4.1-stable_win64".to_string(),
        "engines/Godot_v4.2.1-stable_win64".to_string(),
    ]);
    assert_eq!(versions.len(), 2);
    assert_eq!(versions[0].version_name, "Godot_v4.1-stable_win64");
    assert_eq!(versions[1].version_name, "Godot_v4.2.1-stable_win64");
}

#[test]
fn removal_is_guarded_against_unrelated_paths() {
    let mut version = GodotEngineVersion {
        version_name: "Godot_v4.2.1-stable_win64".to_string(),
        version_number: "4.2.1".to_string(),
        updated_at: String::new(),
        path: String::new(),
        download_url: String::new(),
        executable_path: String::new(),
        console_executable_path: String::new(),
    };
    assert!(!removal_allowed(&version), "empty install path");

    version.path = "engines/SomethingElse".to_string();
    assert!(!removal_allowed(&version), "path does not mention the version");

    version.path = "engines/Godot_v4.2.1-stable_win64".to_string();
    assert!(removal_allowed(&version));
}

#[test]
fn download_service_test_filter_assets() {
    let releases = vec![
        Release {
            assets: vec![
                asset("Godot_v4.2.1-stable_win64.exe.zip"),
                asset("Godot_v4.2.1-stable_linux.x86_64.zip"),
            ],
        },
        Release {
            assets: vec![asset("Godot_v4.1-stable_win64.exe.zip")],
        },
    ];

    let filters = vec![
        OsType::Windows64.value(),
        OsType::Linux64.value(),
    ];
    for filter in filters {
        let filtered = filter_assets_by_name(&releases, &filter);
        println!("testing '{}'", &filter);
        assert!(filtered.len() >= 1);
        assert!(filtered.first().unwrap().name.contains(&filter));
    }

    let win = filter_assets_by_name(&releases, "win64");
    assert_eq!(win.len(), 2);
    assert_eq!(win[0].name, "Godot_v4.2.1-stable_win64.exe.zip");
    assert_eq!(win[1].name, "Godot_v4.1-stable_win64.exe.zip");
}

#[test]
fn platform_markers_are_stable() {
    assert_eq!(OsType::Windows64.all(), "win64");
    assert_eq!(OsType::Windows32.value(), "win32");
    assert_eq!(OsType::LinuxArm32.value(), "linux.arm32");
    assert_eq!(OsType::LinuxArm64.value(), "linux.arm64");
    assert_eq!(OsType::Linux64.value(), "linux.x86_64");
    assert_eq!(OsType::Linux32.value(), "linux.x86_32");
    assert_eq!(OsType::Mac.value(), "macos.universal");
}

#[test]
fn archive_paths_are_derived_from_the_url_and_engine_name() {
    let file = create_file_path_from_url_at_path(
        "engines/Godot_v4.2.1-stable_win64",
        "https://example.invalid/releases/Godot_v4.2.1-stable_win64.exe.zip",
    );
    assert_eq!(
        file,
        "engines/Godot_v4.2.1-stable_win64/Godot_v4.2.1-stable_win64.exe.zip"
    );

    let folder = create_engine_version_path("engines", "My Build_v1.0-x.exe.zip");
    assert_eq!(folder, "engines/My_Build_v1.0-x");
}

#[test]
fn release_listing_becomes_versions_in_order() {
    let versions = godot_manager::godot_service::godot_engine_service::versions_from_assets(vec![
        asset("Godot_v4.2.1-stable_win64.exe.zip"),
        asset("Godot_v4.1-stable_mono_win64.exe.zip"),
    ]);
    assert_eq!(versions.len(), 2);
    assert_eq!(versions[0].version_name, "Godot_v4.2.1-stable_win64");
    assert_eq!(versions[0].version_number, "4.2.1");
    assert_eq!(versions[0].path, "");
    assert_eq!(
        versions[0].download_url,
        "https://example.invalid/Godot_v4.2.1-stable_win64.exe.zip"
    );
    assert_eq!(versions[1].version_number, "4.1 mono");
}
