use domers::madmom::{beat_line_value, choose_madmom_command, madmom_candidates, MadmomLaunchConfig};

#[test]
fn builds_spectrum_compatible_launch_args() {
    let config = MadmomLaunchConfig {
        command: "DBNBeatTracker".to_string(),
        tracker: None,
        audio_input_index: Some(5),
    };

    assert_eq!(
        config.args(),
        ["--host_api", "--audio_input=5", "online"].map(String::from)
    );
}

#[test]
fn builds_spectrum_python_launch_args() {
    let config = MadmomLaunchConfig {
        command: "python.exe".to_string(),
        tracker: Some("DBNBeatTracker".to_string()),
        audio_input_index: Some(5),
    };

    assert_eq!(
        config.args(),
        ["DBNBeatTracker", "--host_api", "--audio_input=5", "online"].map(String::from)
    );
}

#[test]
fn python_launch_uses_script_directory_as_working_directory() {
    let config = MadmomLaunchConfig {
        command: "/opt/spectrum/Madmom/env/Scripts/python.exe".to_string(),
        tracker: Some("DBNBeatTracker".to_string()),
        audio_input_index: Some(5),
    };

    assert_eq!(
        config.working_directory().as_deref(),
        Some("/opt/spectrum/Madmom/env/Scripts")
    );
}

#[test]
fn pathless_python_launch_keeps_current_working_directory() {
    let config = MadmomLaunchConfig {
        command: "python3".to_string(),
        tracker: Some("fake_tracker.py".to_string()),
        audio_input_index: Some(5),
    };

    assert_eq!(config.working_directory(), None);
}

#[test]
fn missing_audio_index_defaults_to_zero() {
    let config = MadmomLaunchConfig {
        command: "DBNBeatTracker".to_string(),
        tracker: None,
        audio_input_index: None,
    };
    assert_eq!(
        config.args(),
        ["--host_api", "--audio_input=0", "online"].map(String::from)
    );
}

#[test]
fn tracker_without_python_has_no_working_directory() {
    let config = MadmomLaunchConfig {
        command: "/opt/tools/runner".to_string(),
        tracker: Some("DBNBeatTracker".to_string()),
        audio_input_index: Some(1),
    };
    assert_eq!(config.working_directory(), None);
    let no_tracker = MadmomLaunchConfig {
        command: "/opt/spectrum/python.exe".to_string(),
        tracker: None,
        audio_input_index: Some(1),
    };
    assert_eq!(no_tracker.working_directory(), None);
}

#[test]
fn python_path_points_at_madmom_checkout() {
    let config = MadmomLaunchConfig {
        command: "/opt/spectrum/Madmom/bin/DBNBeatTracker".to_string(),
        tracker: None,
        audio_input_index: None,
    };
    assert_eq!(config.python_path().as_deref(), Some("/opt/spectrum/Madmom"));
    let bare = MadmomLaunchConfig {
        command: "DBNBeatTracker".to_string(),
        tracker: None,
        audio_input_index: None,
    };
    assert_eq!(bare.python_path(), None);
}

#[test]
fn resolve_keeps_commands_that_are_not_the_bare_tracker() {
    let config = MadmomLaunchConfig {
        command: "python3".to_string(),
        tracker: Some("fake_tracker.py".to_string()),
        audio_input_index: Some(2),
    };
    let resolved = config.resolve_from("/nonexistent/domers");
    assert_eq!(resolved.command, "python3");
    assert_eq!(resolved.tracker.as_deref(), Some("fake_tracker.py"));
    assert_eq!(resolved.audio_input_index, Some(2));
}

#[test]
fn beat_line_value_strips_prefix_and_spaces() {
    assert_eq!(beat_line_value("BEAT:12.345").as_deref(), Some("12.345"));
    assert_eq!(beat_line_value("BEAT:  7 \n").as_deref(), Some("7"));
    assert_eq!(beat_line_value("noise"), None);
    assert_eq!(beat_line_value("beat:1"), None);
}

#[test]
fn sibling_checkouts_are_tried_in_order() {
    let candidates = madmom_candidates("/work/root/domers");
    assert_eq!(
        candidates,
        vec![
            "/work/root/domers/Madmom/bin/DBNBeatTracker".to_string(),
            "/work/root/Madmom/bin/DBNBeatTracker".to_string(),
            "/work/root/domers/spectrum/Madmom/bin/DBNBeatTracker".to_string(),
            "/work/root/spectrum/Madmom/bin/DBNBeatTracker".to_string(),
        ]
    );
    // Only the sibling `spectrum` checkout exists: it is chosen.
    assert_eq!(
        choose_madmom_command("DBNBeatTracker", &candidates, &[false, false, false, true]),
        "/work/root/spectrum/Madmom/bin/DBNBeatTracker"
    );
    // The first existing candidate wins over later ones.
    assert_eq!(
        choose_madmom_command("DBNBeatTracker", &candidates, &[false, true, true, true]),
        "/work/root/Madmom/bin/DBNBeatTracker"
    );
    // None exists: the command is kept.
    assert_eq!(
        choose_madmom_command("DBNBeatTracker", &candidates, &[false, false, false, false]),
        "DBNBeatTracker"
    );
}

#[test]
fn base_without_parent_searches_itself_twice() {
    let candidates = madmom_candidates("/");
    assert_eq!(candidates[0], candidates[1]);
    assert_eq!(candidates[2], candidates[3]);
}
