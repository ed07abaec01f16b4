use rstube::video::{
    normalize_playlist, parse_video_spec, try_parse_video_spec, url_key, video_id_from_url,
    watch_url, PlaylistRefError, VideoSpecError,
};
use rstube::timespec::TimeSpecError;

#[test]
fn every_reference_shape_gives_the_id() {
    let want = Ok(("dQw4w9WgXcQ".to_string(), None));
    assert_eq!(parse_video_spec("https://www.youtube.com/watch?v=dQw4w9WgXcQ"), want);
    assert_eq!(parse_video_spec("https://youtu.be/dQw4w9WgXcQ"), want);
    assert_eq!(parse_video_spec("http://youtu.be/dQw4w9WgXcQ"), want);
    assert_eq!(parse_video_spec("dQw4w9WgXcQ"), want);
    assert_eq!(parse_video_spec("  dQw4w9WgXcQ\n"), want);
}

#[test]
fn start_offsets_from_t_parameter() {
    assert_eq!(
        parse_video_spec("https://www.youtube.com/watch?v=dQw4w9WgXcQ&t=10s"),
        Ok(("dQw4w9WgXcQ".to_string(), Some(10)))
    );
    assert_eq!(
        parse_video_spec("https://youtu.be/gl2GaCDt8BE?t=178"),
        Ok(("gl2GaCDt8BE".to_string(), Some(178)))
    );
    assert_eq!(
        parse_video_spec("https://www.youtube.com/watch?v=dQw4w9WgXcQ&list=PL1&t=2m58s#frag"),
        Ok(("dQw4w9WgXcQ".to_string(), Some(178)))
    );
    assert_eq!(
        parse_video_spec("https://youtu.be/gl2GaCDt8BE?si=abc&t=1:02:03"),
        Ok(("gl2GaCDt8BE".to_string(), Some(3723)))
    );
}

#[test]
fn refused_video_references() {
    assert_eq!(parse_video_spec("   "), Err(VideoSpecError::Empty));
    assert_eq!(
        parse_video_spec("https://example.com/x"),
        Err(VideoSpecError::NotYouTubeUrl("https://example.com/x".to_string()))
    );
    assert_eq!(parse_video_spec("abc"), Err(VideoSpecError::InvalidId("abc".to_string())));
    assert_eq!(
        parse_video_spec("https://www.youtube.com/watch?v=short"),
        Err(VideoSpecError::InvalidId("short".to_string()))
    );
    assert_eq!(
        parse_video_spec("dQw4w9WgXc!"),
        Err(VideoSpecError::InvalidId("dQw4w9WgXc!".to_string()))
    );
    assert_eq!(
        parse_video_spec("https://youtu.be/dQw4w9WgXcQ?t=abc"),
        Err(VideoSpecError::BadTime(TimeSpecError::InvalidChar('a'), "abc".to_string()))
    );
    assert_eq!(try_parse_video_spec("https://youtu.be/dQw4w9WgXcQ?t=5124095576030432h"), None);
}

#[test]
fn video_ids_and_keys_of_urls() {
    assert_eq!(
        video_id_from_url("https://www.youtube.com/watch?v=dQw4w9WgXcQ&t=4"),
        Some("dQw4w9WgXcQ".to_string())
    );
    assert_eq!(video_id_from_url("https://youtu.be/abc/def"), Some("abc".to_string()));
    assert_eq!(video_id_from_url("https://example.com/"), None);
    assert_eq!(url_key("https://example.com/"), "https://example.com/");
    assert_eq!(url_key("https://youtu.be/dQw4w9WgXcQ?t=1"), "dQw4w9WgXcQ");
    assert_eq!(watch_url("dQw4w9WgXcQ"), "https://www.youtube.com/watch?v=dQw4w9WgXcQ");
    assert_eq!(url_key(&watch_url("dQw4w9WgXcQ")), "dQw4w9WgXcQ");
}

#[test]
fn urls_with_an_empty_id_name_no_video() {
    assert_eq!(video_id_from_url("https://www.youtube.com/watch?v="), None);
    assert_eq!(video_id_from_url("https://www.youtube.com/watch?v=&t=4"), None);
    assert_eq!(video_id_from_url("https://youtu.be/"), None);
    assert_eq!(video_id_from_url("http://youtu.be/?t=3"), None);
    assert_eq!(url_key("https://www.youtube.com/watch?v="), "https://www.youtube.com/watch?v=");
    assert_eq!(url_key("https://youtu.be/#x"), "https://youtu.be/#x");
}

#[test]
fn playlist_references() {
    assert_eq!(
        normalize_playlist("PLABCDEF"),
        Ok("https://www.youtube.com/playlist?list=PLABCDEF".to_string())
    );
    assert_eq!(
        normalize_playlist(" https://www.youtube.com/playlist?list=PLABCDEF "),
        Ok("https://www.youtube.com/playlist?list=PLABCDEF".to_string())
    );
    let canonical = normalize_playlist("PLXYZ").unwrap();
    assert_eq!(normalize_playlist(&canonical), Ok(canonical.clone()));
    assert_eq!(normalize_playlist(""), Err(PlaylistRefError::Empty));
    assert_eq!(
        normalize_playlist("https://www.youtube.com/watch?v=x"),
        Err(PlaylistRefError::MissingListParam("https://www.youtube.com/watch?v=x".to_string()))
    );
    assert_eq!(normalize_playlist("PL AB"), Err(PlaylistRefError::InvalidId("PL AB".to_string())));
    assert_eq!(normalize_playlist("a/b"), Err(PlaylistRefError::InvalidId("a/b".to_string())));
}
