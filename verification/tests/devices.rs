use ntfy_app::background::Payload;
use ntfy_app::listener::{
    notification_key, notification_title, NotificationState, SeenNotifications,
    SEEN_NOTIFICATION_LIMIT,
};
use ntfy_app::screen::{
    choose_monitor, file_name_from, numbered_file_name, png_extension, screenshot_file_name,
    screenshot_stem,
};
use ntfy_app::tray::{tray_command, window_label, window_shown, TrayCommand};
use ntfy_app::volume::{
    backend_failure, command_failure, decrease_volume, fallback_commands, lowered_volume,
    raised_volume, set_volume, toggle_mute, VolumeChange, VolumeStep,
};

fn payload(id: Option<&str>, time: Option<i64>, message: &str) -> Payload {
    Payload {
        id: id.map(String::from),
        time,
        topic: "news".to_string(),
        title: None,
        message: message.to_string(),
    }
}

fn commands(change: VolumeChange, percent: u8) -> Vec<String> {
    fallback_commands(change, percent)
        .into_iter()
        .map(|(program, args)| format!("{program} {}", args.join(" ")))
        .collect()
}

#[test]
fn png_extension_replaces_the_extension() {
    assert_eq!(png_extension("shot.jpg"), Some("shot.png".to_string()));
    assert_eq!(png_extension("shot"), Some("shot.png".to_string()));
    assert_eq!(png_extension("a.b.c"), Some("a.b.png".to_string()));
    assert_eq!(png_extension(".hidden"), Some(".hidden.png".to_string()));
    assert_eq!(png_extension("trailing."), Some("trailing.png".to_string()));
    assert_eq!(png_extension("..."), Some("...png".to_string()));
    assert_eq!(png_extension(""), None);
    assert_eq!(png_extension("."), None);
    assert_eq!(png_extension(".."), None);
}

#[test]
fn screenshot_names_are_sanitized() {
    assert_eq!(screenshot_file_name("  my:shot?.jpg ", "sc-1.png"), "myshot.png");
    assert_eq!(screenshot_file_name("report_2024", "sc-1.png"), "report_2024.png");
    assert_eq!(screenshot_file_name("  ", "sc-1.png"), "sc-1.png");
    assert_eq!(screenshot_file_name("..", "sc-1.png"), "sc-1.png");
    assert_eq!(screenshot_file_name("a/b\\c", "sc-1.png"), "abc.png");
    assert_eq!(file_name_from("", "fallback.png"), "fallback.png");
    assert_eq!(file_name_from("x.gif", "fallback.png"), "x.png");
}

#[test]
fn numbered_names_follow_the_stem() {
    assert_eq!(screenshot_stem("shot.png"), "shot");
    assert_eq!(screenshot_stem(".."), "screenshot");
    assert_eq!(numbered_file_name("shot", 2), "shot-2.png");
    assert_eq!(numbered_file_name("shot", 10), "shot-10.png");
    assert_ne!(numbered_file_name("shot", 1), numbered_file_name("shot", 11));
}

#[test]
fn the_primary_monitor_is_preferred() {
    assert_eq!(choose_monitor(&vec![false, true, true]), Ok(1));
    assert_eq!(choose_monitor(&vec![false, false]), Ok(0));
    assert_eq!(choose_monitor(&vec![]), Err("No monitors found".to_string()));
}

#[test]
fn volume_steps_stay_in_range() {
    assert_eq!(raised_volume(90, 20), 100);
    assert_eq!(raised_volume(200, 100), 100);
    assert_eq!(raised_volume(10, 5), 15);
    assert_eq!(lowered_volume(10, 20), 0);
    assert_eq!(lowered_volume(30, 5), 25);
}

#[test]
fn fallback_tools_get_their_arguments() {
    assert_eq!(
        commands(VolumeChange::SetLevel, 35),
        vec![
            "wpctl set-volume @DEFAULT_SINK@ 35% --limit 1.0".to_string(),
            "pactl set-sink-volume @DEFAULT_SINK@ 35%".to_string(),
        ]
    );
    assert_eq!(
        commands(VolumeChange::Increase, 5),
        vec![
            "wpctl set-volume @DEFAULT_SINK@ 5%+ --limit 1.0".to_string(),
            "pactl set-sink-volume @DEFAULT_SINK@ +5%".to_string(),
        ]
    );
    assert_eq!(
        commands(VolumeChange::Decrease, 100),
        vec![
            "wpctl set-volume @DEFAULT_SINK@ 100%-".to_string(),
            "pactl set-sink-volume @DEFAULT_SINK@ -100%".to_string(),
        ]
    );
    assert_eq!(
        commands(VolumeChange::ToggleMute, 0),
        vec![
            "wpctl set-mute @DEFAULT_SINK@ toggle".to_string(),
            "pactl set-sink-mute @DEFAULT_SINK@ toggle".to_string(),
        ]
    );
}

#[test]
fn failures_are_reported_in_order() {
    assert_eq!(command_failure("wpctl", "exit status: 1", "  no sink \n"), "wpctl failed: no sink");
    assert_eq!(
        command_failure("pactl", "exit status: 2", "  "),
        "pactl failed with status exit status: 2"
    );
    assert_eq!(
        backend_failure("no device", &vec!["wpctl failed: a".to_string(), "pactl failed: b".to_string()]),
        "No Linux volume backend worked: volumecontrol failed: no device | wpctl failed: a | pactl failed: b"
    );
    assert_eq!(
        backend_failure("x", &vec![]),
        "No Linux volume backend worked: volumecontrol failed: x"
    );
}

#[test]
fn tray_entries_map_to_commands() {
    assert_eq!(tray_command("open"), Some(TrayCommand::ToggleWindow));
    assert_eq!(tray_command("check_updates"), Some(TrayCommand::CheckUpdates));
    assert_eq!(tray_command("reset_instance"), Some(TrayCommand::ResetInstance));
    assert_eq!(tray_command("exit"), Some(TrayCommand::Exit));
    assert_eq!(tray_command("version"), None);
    assert!(window_shown(true, false));
    assert!(!window_shown(true, true));
    assert_eq!(window_label(true), "Hide");
    assert_eq!(window_label(false), "Show");
}

#[test]
fn notification_keys_prefer_the_id() {
    assert_eq!(notification_key(&payload(Some("abc"), Some(5), "hi")), "id:news:abc");
    assert_eq!(notification_key(&payload(Some("  "), Some(-5), "hi")), "fallback:-5:news:hi");
    assert_eq!(notification_key(&payload(None, None, "hi")), "fallback:0:news:hi");
}

#[test]
fn notification_titles_default_to_ntfy() {
    assert_eq!(notification_title(&Some("Alert".to_string())), "Alert");
    assert_eq!(notification_title(&Some("  ".to_string())), "ntfy");
    assert_eq!(notification_title(&None), "ntfy");
}

#[test]
fn repeated_notifications_are_dropped() {
    let mut state = NotificationState::new();
    let n = payload(Some("1"), None, "hello");
    assert!(state.accept(&n));
    assert!(!state.accept(&n));
    assert!(!state.accept(&payload(Some("2"), None, "   ")));
    assert!(state.accept(&payload(Some("2"), None, "world")));
}

#[test]
fn only_the_latest_keys_are_remembered() {
    let mut seen = SeenNotifications::new();
    for i in 0..=SEEN_NOTIFICATION_LIMIT {
        assert!(seen.mark(format!("k{i}")));
    }
    assert!(!seen.contains("k0"));
    assert!(seen.contains("k1"));
    assert!(seen.contains(&format!("k{SEEN_NOTIFICATION_LIMIT}")));
    assert!(seen.mark("k0".to_string()));
    assert!(!seen.contains("k1"));
}

#[test]
fn a_failing_device_falls_back_to_the_tools() {
    let mut attempt = toggle_mute();
    assert!(matches!(attempt.first_step(), VolumeStep::UseDevice));
    match attempt.advance(Err("Failed to toggle mute: busy".to_string())) {
        VolumeStep::RunTool(program, args) => {
            assert_eq!(program, "wpctl");
            assert_eq!(args, vec!["set-mute".to_string(), "@DEFAULT_SINK@".to_string(), "toggle".to_string()]);
        }
        other => panic!("unexpected {other:?}"),
    }
    match attempt.advance(Err("wpctl failed: a".to_string())) {
        VolumeStep::RunTool(program, _) => assert_eq!(program, "pactl"),
        other => panic!("unexpected {other:?}"),
    }
    match attempt.advance(Err("pactl failed: b".to_string())) {
        VolumeStep::Finished(Err(e)) => assert_eq!(
            e,
            "No Linux volume backend worked: volumecontrol failed: Failed to toggle mute: busy | wpctl failed: a | pactl failed: b"
        ),
        other => panic!("unexpected {other:?}"),
    }
}

#[test]
fn the_first_success_ends_the_attempt() {
    let mut direct = set_volume(40);
    assert!(matches!(direct.advance(Ok(())), VolumeStep::Finished(Ok(()))));
    let mut late = decrease_volume(10);
    match late.advance(Err("x".to_string())) {
        VolumeStep::RunTool(_, args) => assert_eq!(args[2], "10%-"),
        other => panic!("unexpected {other:?}"),
    }
    assert!(matches!(late.advance(Ok(())), VolumeStep::Finished(Ok(()))));
}

#[test]
fn names_with_folders_go_through_the_path_rules() {
    assert_eq!(png_extension("dir/shot.jpg"), Some("shot.png".to_string()));
    assert_eq!(png_extension("dir/"), Some("dir.png".to_string()));
    assert_eq!(screenshot_stem("a/b.png"), "b");
    assert_eq!(screenshot_stem("a/.."), "screenshot");
    assert_eq!(file_name_from("dir/x.gif", "fallback.png"), "x.png");
}

#[test]
fn configured_names_are_kept() {
    assert_eq!(screenshot_file_name("my shot", "sc-1.png"), "my shot.png");
    assert_eq!(screenshot_file_name("shot.png", "sc-1.png"), "shot.png");
    assert_eq!(
        screenshot_file_name("  Quarterly report (v2).jpeg ", "sc-1.png"),
        "Quarterly report (v2).png"
    );
    assert_eq!(screenshot_file_name("été", "sc-1.png"), "été.png");
}
