use rstube::config::{
    chosen_offset, load, seeded_position, AddPlaylistError, AddVideoError, Config, ConfiguredVideo,
    NamedPlaylist, NotConfigured,
};

fn names(cfg: &Config) -> Vec<String> {
    cfg.playlists.iter().map(|p| p.name.clone()).collect()
}

#[test]
fn load_migrates_legacy_playlist_url() {
    let parsed = Config {
        playlists: Vec::new(),
        videos: Vec::new(),
        playlist_url: Some("https://www.youtube.com/playlist?list=PL1".to_string()),
    };
    let cfg = load(Some(parsed));
    assert_eq!(cfg.playlists.len(), 1);
    assert_eq!(cfg.playlists[0].name, "default");
    assert_eq!(cfg.playlists[0].url, "https://www.youtube.com/playlist?list=PL1");
    assert!(cfg.playlist_url.is_none());
}

#[test]
fn load_keeps_configured_playlists_over_legacy() {
    let parsed = Config {
        playlists: vec![NamedPlaylist { name: "chess".into(), url: "u1".into() }],
        videos: Vec::new(),
        playlist_url: Some("legacy".to_string()),
    };
    let cfg = load(Some(parsed));
    assert_eq!(names(&cfg), vec!["chess".to_string()]);
    assert!(cfg.playlist_url.is_none());
    let empty = load(None);
    assert!(empty.playlists.is_empty() && empty.videos.is_empty() && empty.playlist_url.is_none());
}

#[test]
fn playlists_add_find_remove() {
    let mut cfg = load(None);
    assert_eq!(cfg.add_playlist("chess".into(), "u1".into()), Ok(()));
    assert_eq!(cfg.add_playlist("go".into(), "u2".into()), Ok(()));
    assert_eq!(cfg.add_playlist("chess".into(), "u3".into()), Err(AddPlaylistError::DuplicateName));
    assert_eq!(
        cfg.add_playlist("other".into(), "u2".into()),
        Err(AddPlaylistError::DuplicateUrl("go".to_string()))
    );
    assert_eq!(names(&cfg), vec!["chess".to_string(), "go".to_string()]);
    assert_eq!(cfg.find_playlist("go"), Some(1));
    assert_eq!(cfg.find_playlist("nope"), None);
    assert_eq!(cfg.remove_playlist("chess"), Ok(()));
    assert_eq!(names(&cfg), vec!["go".to_string()]);
    assert_eq!(cfg.remove_playlist("chess"), Err(NotConfigured::NotConfigured));
}

#[test]
fn removing_a_name_removes_every_playlist_with_it() {
    let mut cfg = Config {
        playlists: vec![
            NamedPlaylist { name: "a".into(), url: "1".into() },
            NamedPlaylist { name: "b".into(), url: "2".into() },
            NamedPlaylist { name: "a".into(), url: "3".into() },
        ],
        videos: Vec::new(),
        playlist_url: None,
    };
    assert_eq!(cfg.remove_playlist("a"), Ok(()));
    assert_eq!(names(&cfg), vec!["b".to_string()]);
}

#[test]
fn videos_add_and_remove() {
    let mut cfg = load(None);
    assert_eq!(cfg.add_video("dQw4w9WgXcQ".into(), Some(178)), Ok(()));
    assert_eq!(cfg.add_video("kxopViU98Xo".into(), Some(0)), Ok(()));
    assert_eq!(cfg.add_video("dQw4w9WgXcQ".into(), None), Err(AddVideoError::AlreadyConfigured));
    assert_eq!(cfg.videos[0].start_offset_secs, Some(178));
    assert_eq!(cfg.videos[1].start_offset_secs, None);
    assert_eq!(cfg.find_video("kxopViU98Xo"), Some(1));
    let removed: ConfiguredVideo = cfg.remove_video("dQw4w9WgXcQ").unwrap();
    assert_eq!(removed.video_id, "dQw4w9WgXcQ");
    assert_eq!(removed.start_offset_secs, Some(178));
    assert_eq!(cfg.videos.len(), 1);
    assert!(cfg.remove_video("dQw4w9WgXcQ").is_err());
}

#[test]
fn offsets_when_adding_a_video() {
    assert_eq!(chosen_offset(Some(30), Some(178)), Some(30));
    assert_eq!(chosen_offset(Some(0), Some(178)), Some(0));
    assert_eq!(chosen_offset(None, Some(178)), Some(178));
    assert_eq!(chosen_offset(None, None), None);
    assert_eq!(seeded_position(Some(178), false), Some(178));
    assert_eq!(seeded_position(Some(178), true), None);
    assert_eq!(seeded_position(Some(0), false), None);
    assert_eq!(seeded_position(None, false), None);
}
