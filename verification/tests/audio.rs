use slopos_shell::audio::{
    detect_backend, parse_pactl_volume, volume_pactl_get_plan, volume_pactl_set_plan,
    volume_get_command, volume_set_command, volume_status_label, volume_wpctl_get_plan,
    volume_wpctl_set_plan, AudioBackend, AudioError,
};

#[test]
fn parse_pactl_typical() {
    let sample = "Volume: front-left: 32768 /  50% / -18.06 dB,   front-right: 32768 /  50% / -18.06 dB\n\
                  balance 0.00\n";
    assert_eq!(parse_pactl_volume(sample), Some(50));
}

#[test]
fn parse_pactl_100() {
    let sample =
        "Volume: front-left: 65536 / 100% / 0.00 dB,   front-right: 65536 / 100% / 0.00 dB\n";
    assert_eq!(parse_pactl_volume(sample), Some(100));
}

#[test]
fn parse_pactl_zero() {
    let sample = "Volume: front-left: 0 /   0% / -inf dB,   front-right: 0 /   0% / -inf dB\n";
    assert_eq!(parse_pactl_volume(sample), Some(0));
}

#[test]
fn parse_pactl_empty() {
    assert_eq!(parse_pactl_volume(""), None);
    assert_eq!(parse_pactl_volume("no percents here"), None);
}

#[test]
fn volume_set_plans_match_shipped_backends() {
    let pactl = volume_pactl_set_plan(42);
    assert_eq!(
        pactl,
        vec!["pactl", "set-sink-volume", "@DEFAULT_SINK@", "42%"]
    );
    assert_eq!(
        volume_pactl_set_plan(200).last().map(String::as_str),
        Some("100%")
    );

    let wpctl = volume_wpctl_set_plan(50);
    assert_eq!(
        wpctl,
        vec!["wpctl", "set-volume", "@DEFAULT_AUDIO_SINK@", "0.50"]
    );
    assert_eq!(
        volume_wpctl_set_plan(0).last().map(String::as_str),
        Some("0.00")
    );
}

#[test]
fn volume_get_plans_are_stable() {
    assert_eq!(
        volume_pactl_get_plan(),
        vec!["pactl", "get-sink-volume", "@DEFAULT_SINK@"]
    );
    assert_eq!(
        volume_wpctl_get_plan(),
        vec!["wpctl", "get-volume", "@DEFAULT_AUDIO_SINK@"]
    );
}

#[test]
fn volume_status_label_pure() {
    assert_eq!(volume_status_label(Some(75)), "🔊 75%");
    assert_eq!(volume_status_label(Some(0)), "🔊 0%");
    assert_eq!(volume_status_label(Some(150)), "🔊 100%");
    assert_eq!(volume_status_label(None), "🔊 —");
}

#[test]
fn backend_prefers_pactl() {
    assert_eq!(detect_backend(true, true), Some(AudioBackend::Pactl));
    assert_eq!(detect_backend(false, true), Some(AudioBackend::Wpctl));
    assert_eq!(detect_backend(false, false), None);
}

#[test]
fn wpctl_plan_formats_every_percentage_with_two_decimals() {
    for p in 0u8..=255 {
        let plan = volume_wpctl_set_plan(p);
        let clamped = p.min(100);
        let expected = format!("{:.2}", f64::from(clamped) / 100.0);
        assert_eq!(plan[3], expected, "percent {p}");
    }
}

#[test]
fn pactl_parse_edges() {
    assert_eq!(parse_pactl_volume("a 150%, b"), Some(100));
    assert_eq!(parse_pactl_volume("x +7%"), Some(7));
    assert_eq!(parse_pactl_volume("x %, 12%"), Some(12));
    assert_eq!(parse_pactl_volume("99999999999% 5%"), Some(5));
    assert_eq!(parse_pactl_volume("\t42%\n"), Some(42));
}

#[test]
fn audio_error_messages() {
    assert_eq!(
        AudioError::ToolNotFound.message(),
        "no volume control tool found (need pactl or wpctl)"
    );
    assert_eq!(
        AudioError::CommandFailed("boom".to_string()).message(),
        "volume tool failed: boom"
    );
    assert_eq!(
        AudioError::ParseError.message(),
        "could not parse volume from tool output"
    );
}

#[test]
fn get_volume_without_tools_is_err() {
    // With neither tool present, reading and setting the volume fail cleanly.
    let backend = detect_backend(false, false);
    assert!(backend.is_none());
    assert!(matches!(volume_get_command(backend), Err(AudioError::ToolNotFound)));
    assert!(matches!(volume_set_command(backend, 50), Err(AudioError::ToolNotFound)));
}

#[test]
fn volume_commands_follow_the_detected_backend() {
    let get = volume_get_command(detect_backend(true, true)).expect("pactl");
    assert_eq!(get, vec!["pactl", "get-sink-volume", "@DEFAULT_SINK@"]);
    let set = volume_set_command(detect_backend(false, true), 150).expect("wpctl");
    assert_eq!(set, vec!["wpctl", "set-volume", "@DEFAULT_AUDIO_SINK@", "1.00"]);
}
