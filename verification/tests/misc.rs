use std::time::{Duration, UNIX_EPOCH};
use rstube::cache::{cache_age_minutes, cache_is_fresh};
use rstube::completion::{inject_bash_playlist_completions, BASH_HELPER, PLAYLIST_COMPLETION, VIDEO_COMPLETION};
use rstube::deps::{detect_system_installer, installer_probe_name, yt_dlp_install_argv, INSTALLER_COUNT};
use rstube::ipc::{get_property_command, mpv_args, PendingRequests, Property};
use rstube::paths::{
    config_dir, config_path, history_path, now_secs, playlist_cache_path, positions_path,
    secs_since_epoch_or_zero, state_dir, video_cache_key,
};

#[test]
fn directories_from_the_environment() {
    assert_eq!(config_dir(Some("/tmp/c"), Some("/x"), Some("/home/u")), "/tmp/c");
    assert_eq!(config_dir(None, Some("/x"), Some("/home/u")), "/x/rstube");
    assert_eq!(config_dir(None, Some(""), Some("/home/u")), "/home/u/.config/rstube");
    assert_eq!(config_dir(None, None, Some("/home/u/")), "/home/u/.config/rstube");
    assert_eq!(config_dir(None, None, None), ".config/rstube");
    assert_eq!(state_dir(None, None, Some("/home/u")), "/home/u/.local/state/rstube");
    assert_eq!(state_dir(Some("/s"), None, None), "/s");
}

#[test]
fn files_in_the_directories() {
    assert_eq!(config_path("/c/rstube"), "/c/rstube/config.toml");
    assert_eq!(positions_path("/s"), "/s/positions.json");
    assert_eq!(history_path("/s/"), "/s/history.jsonl");
    assert_eq!(playlist_cache_path(""), "playlist_cache.json");
    assert_eq!(video_cache_key("dQw4w9WgXcQ"), "rstube:video:dQw4w9WgXcQ");
}

#[test]
fn clock_is_past_the_epoch() {
    assert!(now_secs() > 1_600_000_000);
}

#[test]
fn seconds_since_the_epoch_or_zero() {
    assert_eq!(secs_since_epoch_or_zero(Ok(Duration::from_millis(7_900))), 7);
    let before = UNIX_EPOCH.duration_since(UNIX_EPOCH + Duration::from_secs(5));
    assert!(before.is_err());
    assert_eq!(secs_since_epoch_or_zero(before), 0);
}

#[test]
fn cache_freshness() {
    assert!(cache_is_fresh(1000, 1000 + 86_399));
    assert!(!cache_is_fresh(1000, 1000 + 86_400));
    assert!(cache_is_fresh(5000, 1000));
    assert_eq!(cache_age_minutes(1000, 1000 + 42 * 60 + 59), 42);
    assert_eq!(cache_age_minutes(5000, 1000), 0);
}

#[test]
fn installers() {
    assert_eq!(INSTALLER_COUNT, 5);
    assert_eq!(installer_probe_name(0), "apt-get");
    assert_eq!(installer_probe_name(4), "brew");
    assert_eq!(
        detect_system_installer(&vec![false, true, true, false, true]),
        Some(vec!["sudo".to_string(), "dnf".into(), "install".into(), "-y".into()])
    );
    assert_eq!(
        detect_system_installer(&vec![false, false, false, false, true]),
        Some(vec!["brew".to_string(), "install".into()])
    );
    assert_eq!(detect_system_installer(&vec![false; 5]), None);
    assert_eq!(detect_system_installer(&Vec::new()), None);
    assert_eq!(
        yt_dlp_install_argv(false, true, true),
        Some(vec!["pip".to_string(), "install".into(), "--user".into(), "yt-dlp".into()])
    );
    assert_eq!(
        yt_dlp_install_argv(false, false, true),
        Some(vec!["pip3".to_string(), "install".into(), "--user".into(), "yt-dlp".into()])
    );
    assert_eq!(
        yt_dlp_install_argv(true, true, true),
        Some(vec!["pipx".to_string(), "install".into(), "yt-dlp".into()])
    );
    assert_eq!(yt_dlp_install_argv(false, false, false), None);
}

#[test]
fn ipc_requests_are_numbered_and_matched() {
    assert_eq!(
        get_property_command(Property::TimePos, 1),
        r#"{"command":["get_property","time-pos"],"request_id":1}"#
    );
    assert_eq!(
        get_property_command(Property::Duration, 42),
        r#"{"command":["get_property","duration"],"request_id":42}"#
    );
    let mut pending = PendingRequests::new();
    let a = pending.issue(Property::TimePos);
    let b = pending.issue(Property::Duration);
    assert_eq!((a, b), (1, 2));
    assert_eq!(pending.next_request_id(), 3);
    assert_eq!(pending.resolve(b), Some(Property::Duration));
    assert_eq!(pending.resolve(b), None);
    assert_eq!(pending.resolve(7), None);
    assert_eq!(pending.resolve(a), Some(Property::TimePos));
}

#[test]
fn player_arguments() {
    assert_eq!(
        mpv_args(true, "/tmp/s.sock", Some("12.5"), "https://youtu.be/x"),
        vec![
            "--no-video".to_string(),
            "--input-ipc-server=/tmp/s.sock".into(),
            "--start=+12.5".into(),
            "https://youtu.be/x".into(),
        ]
    );
    assert_eq!(
        mpv_args(false, "/s", None, "u"),
        vec!["--input-ipc-server=/s".to_string(), "u".into()]
    );
}

#[test]
fn completion_injection() {
    let script = "_rstube() {\n    case \"${cmd}\" in\n        rstube__subcmd__playlists__subcmd__remove)\n            opts=\"-h <NAME>\"\n            COMPREPLY=( $(compgen -W \"${opts}\" -- \"${cur}\") )\n            return 0\n            ;;\n        rstube__subcmd__videos__subcmd__list)\n            COMPREPLY=( $(compgen -W \"${opts}\" -- \"${cur}\") )\n            ;;\n    esac\n}\n";
    let out = inject_bash_playlist_completions(script);
    assert!(out.starts_with(BASH_HELPER));
    let body = &out[BASH_HELPER.len()..];
    assert!(body.contains(PLAYLIST_COMPLETION));
    assert!(!body.contains(VIDEO_COMPLETION));
    assert_eq!(body.matches("COMPREPLY=( $(compgen -W \"${opts}\" -- \"${cur}\") )").count(), 2);
    let untouched = "no sections here\n";
    assert_eq!(inject_bash_playlist_completions(untouched), format!("{BASH_HELPER}{untouched}"));
}

#[test]
fn completion_around_the_videos_remove_label() {
    let needle = "COMPREPLY=( $(compgen -W \"${opts}\" -- \"${cur}\") )";
    let a = format!("_rstube() {{\n    {needle}\n    case \"${{cmd}}\" in\n        ");
    let t = "rstube__subcmd__videos__subcmd__remove)";
    let b = format!("\n            {needle}\n            return 0\n            ;;\n    esac\n}}\n");
    let out = inject_bash_playlist_completions(&format!("{a}{t}{b}"));
    let expected = format!("{BASH_HELPER}{a}{t}{}", b.replacen(needle, VIDEO_COMPLETION, 1));
    assert_eq!(out, expected);
    assert!(!out[BASH_HELPER.len()..].contains("_rstube_playlist_names"));
}
