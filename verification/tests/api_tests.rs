use mstatui::api::{
    auth_header, first_listen, playing_now_path, recent_listens_path, request_url, stats_or_empty,
    top_artists_path, top_recordings_path, top_releases_path, total_listens_path, Listen,
    TrackMetadata,
};

fn listen(at: i64) -> Listen {
    Listen {
        listened_at: at,
        track_metadata: TrackMetadata {
            artist_name: "a".into(),
            track_name: "t".into(),
            release_name: None,
            additional_info: None,
            mbid_mapping: None,
        },
    }
}

#[test]
fn paths() {
    assert_eq!(recent_listens_path("bob", 50), "/user/bob/listens?count=50");
    assert_eq!(playing_now_path("bob"), "/user/bob/playing-now");
    assert_eq!(top_artists_path("bob", "week", 25), "/stats/user/bob/artists?range=week&count=25");
    assert_eq!(top_recordings_path("bob", "all_time", 7), "/stats/user/bob/recordings?range=all_time&count=7");
    assert_eq!(top_releases_path("bob", "year", 0), "/stats/user/bob/releases?range=year&count=0");
    assert_eq!(total_listens_path("bob"), "/user/bob/listen-count");
}

#[test]
fn urls_and_headers() {
    assert_eq!(request_url("/user/x/playing-now"), "https://api.listenbrainz.org/1/user/x/playing-now");
    assert_eq!(auth_header("abc"), "Token abc");
}

#[test]
fn playing_now_is_first_listen() {
    assert!(first_listen(Vec::new()).is_none());
    let l = first_listen(vec![listen(5), listen(7)]).unwrap();
    assert_eq!(l.listened_at, 5);
}

#[test]
fn failed_stats_are_empty() {
    let r: Result<Vec<u32>, String> = Err("500".into());
    assert!(stats_or_empty(r).is_empty());
    let r: Result<Vec<u32>, String> = Ok(vec![1, 2]);
    assert_eq!(stats_or_empty(r), vec![1, 2]);
}
