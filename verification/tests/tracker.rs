//! The download tracker's admission, progress, completion and reporting
//! behavior.

use godot_manager::godot_service::godot_engine_version::GodotEngineVersion;
use godot_manager::session::{start_engine_download, Data, DownloadTracker};

fn engine(version_name: &str) -> GodotEngineVersion {
    GodotEngineVersion {
        version_name: version_name.to_string(),
        version_number: String::new(),
        updated_at: String::new(),
        path: String::new(),
        download_url: String::new(),
        executable_path: String::new(),
        console_executable_path: String::new(),
    }
}

#[test]
fn starting_a_running_download_is_a_no_op() {
    let mut tracker = DownloadTracker::new();
    let installed: Vec<GodotEngineVersion> = vec![];
    let name = "Godot_v4.2.1-stable_win64".to_string();

    assert!(tracker.try_start(&name, &installed));
    assert!(tracker.is_downloading(&name));
    assert!(!tracker.try_start(&name, &installed), "second start must be refused");
    assert_eq!(tracker.snapshot().len(), 1);
}

#[test]
fn starting_an_installed_version_is_refused() {
    let mut tracker = DownloadTracker::new();
    let installed = vec![engine("v4.2")];
    let name = "v4.2".to_string();

    assert!(!tracker.try_start(&name, &installed));
    assert!(!tracker.is_downloading(&name));
    assert_eq!(tracker.snapshot().len(), 0);
}

#[test]
fn finished_download_leaves_the_map_and_becomes_eligible() {
    let mut tracker = DownloadTracker::new();
    let installed: Vec<GodotEngineVersion> = vec![];
    let name = "v4.2".to_string();

    assert!(tracker.try_start(&name, &installed));
    tracker.set_progress(&name, 100, 100);
    let snapshot = tracker.snapshot();
    assert_eq!(snapshot.len(), 1);
    assert_eq!(snapshot[0].0, "v4.2");
    assert_eq!(snapshot[0].1, 100);

    tracker.finish(&name);
    assert!(!tracker.is_downloading(&name));

    // Once its entry is gone, the version may be reported installed again.
    let reported = tracker.filter_installed(vec![engine("v4.2")]);
    assert_eq!(reported.len(), 1);
    assert_eq!(reported[0].version_name, "v4.2");
}

#[test]
fn downloading_versions_are_never_reported_installed() {
    let mut tracker = DownloadTracker::new();
    let installed: Vec<GodotEngineVersion> = vec![];
    tracker.try_start(&"v1".to_string(), &installed);

    let reported = tracker.filter_installed(vec![engine("v1"), engine("v2")]);
    assert_eq!(reported.len(), 1);
    assert_eq!(reported[0].version_name, "v2");
}

#[test]
fn progress_is_the_floor_of_the_received_percentage() {
    assert_eq!(DownloadTracker::progress_percent(0, 7), 0);
    assert_eq!(DownloadTracker::progress_percent(50, 200), 25);
    assert_eq!(DownloadTracker::progress_percent(1, 3), 33);
    assert_eq!(DownloadTracker::progress_percent(2, 3), 66);
    assert_eq!(DownloadTracker::progress_percent(7, 7), 100);
}

#[test]
fn progress_updates_only_the_named_download() {
    let mut tracker = DownloadTracker::new();
    let installed: Vec<GodotEngineVersion> = vec![];
    tracker.try_start(&"a".to_string(), &installed);
    tracker.try_start(&"b".to_string(), &installed);

    tracker.set_progress(&"a".to_string(), 30, 100);
    tracker.set_progress(&"b".to_string(), 60, 100);
    tracker.set_progress(&"a".to_string(), 45, 100);

    let snapshot = tracker.snapshot();
    assert_eq!(snapshot.len(), 2);
    assert_eq!(snapshot[0], ("a".to_string(), 45));
    assert_eq!(snapshot[1], ("b".to_string(), 60));
}

#[test]
fn download_admission_returns_the_known_release() {
    let mut tracker = DownloadTracker::new();
    let data = Data {
        all_godot_engine_versions: vec![engine("v4.1"), engine("v4.2")],
        installed_godot_engine_versions: vec![engine("v4.1")],
        projects: vec![],
    };

    // The installed release is refused; the known, uninstalled one is
    // admitted and handed back.
    assert!(start_engine_download(&mut tracker, &data, &"v4.1".to_string()).is_none());
    let admitted = start_engine_download(&mut tracker, &data, &"v4.2".to_string());
    assert_eq!(admitted.unwrap().version_name, "v4.2");
    // An unknown release name is refused outright.
    assert!(start_engine_download(&mut tracker, &data, &"v9.9".to_string()).is_none());
    // And a second admission of the same name is a no-op.
    assert!(start_engine_download(&mut tracker, &data, &"v4.2".to_string()).is_none());
    assert!(tracker.is_downloading(&"v4.2".to_string()));
}

#[test]
fn progress_never_goes_backwards_as_bytes_accumulate() {
    let mut last = 0;
    for received in [0u64, 10, 35, 35, 99, 128] {
        let percent = DownloadTracker::progress_percent(received, 128);
        assert!(percent >= last);
        last = percent;
    }
    assert_eq!(last, 100);
}
