use mstatui::api::{AdditionalInfo, Listen, MbidMapping, TopArtist, TopRecording, TopRelease, TrackMetadata};
use mstatui::app::{
    action_for, auto_refresh_due, handle_key, recording_url_from_listen, Action, App, Effect, Key,
    RefreshOutcome, Tab,
};
use mstatui::config::{Config, KeyMap, Palette, Range};

fn config() -> Config {
    Config {
        username: "alice".to_string(),
        token: None,
        range: Range::Month,
        refresh_interval: 0,
        keys: KeyMap::default(),
        colors: Palette::default(),
    }
}

fn listen(mapped: Option<&str>, client: Option<&str>) -> Listen {
    Listen {
        listened_at: 1_700_000_000,
        track_metadata: TrackMetadata {
            artist_name: "Artist".into(),
            track_name: "Track".into(),
            release_name: None,
            additional_info: Some(AdditionalInfo { recording_mbid: client.map(String::from) }),
            mbid_mapping: Some(MbidMapping { recording_mbid: mapped.map(String::from) }),
        },
    }
}

fn artist(n: u64, mbid: Option<&str>) -> TopArtist {
    TopArtist { artist_name: "A".into(), listen_count: n, artist_mbid: mbid.map(String::from) }
}

fn ok_outcome() -> RefreshOutcome {
    RefreshOutcome {
        playing_now: Ok(None),
        recent: Ok(vec![listen(None, None), listen(None, None)]),
        artists: Ok(vec![artist(3, Some("a1")), artist(2, None), artist(1, None)]),
        tracks: Ok(Vec::new()),
        releases: Ok(Vec::new()),
        total: Ok(42),
        finished_at: 100,
    }
}

#[test]
fn tab_order_and_labels() {
    assert_eq!(Tab::Recent.next(), Tab::Artists);
    assert_eq!(Tab::Artists.next(), Tab::Tracks);
    assert_eq!(Tab::Tracks.next(), Tab::Releases);
    assert_eq!(Tab::Releases.next(), Tab::Recent);
    assert_eq!(Tab::Recent.prev(), Tab::Releases);
    assert_eq!(Tab::Tracks.prev(), Tab::Artists);
    assert_eq!(Tab::Recent.label(), "Recent");
    assert_eq!(Tab::Artists.label(), "Top Artists");
    assert_eq!(Tab::Tracks.label(), "Top Tracks");
    assert_eq!(Tab::Releases.label(), "Top Releases");
    assert_eq!(Tab::Releases.position(), 3);
    assert_eq!(Tab::all(), [Tab::Recent, Tab::Artists, Tab::Tracks, Tab::Releases]);
}

#[test]
fn tab_moves_undo_each_other() {
    for t in Tab::all() {
        assert_eq!(t.next().prev(), t);
        assert_eq!(t.prev().next(), t);
        assert_eq!(t.next().next().next().next(), t);
    }
}

#[test]
fn new_app_state() {
    let a = App::new(config(), 7);
    assert_eq!(a.tab, Tab::Recent);
    assert_eq!(a.range, Range::Month);
    assert_eq!(a.selected, 0);
    assert_eq!(a.status, "loading…");
    assert_eq!(a.last_refresh, 7);
    assert!(a.now_playing.is_none() && a.total.is_none() && !a.should_quit);
    assert_eq!(a.list_len(), 0);
}

#[test]
fn navigation_stays_in_list() {
    let mut a = App::new(config(), 7);
    a.move_down();
    assert_eq!(a.selected, 0);
    a.finish_refresh(ok_outcome());
    assert_eq!(a.list_len(), 2);
    a.move_down();
    assert_eq!(a.selected, 1);
    a.move_down();
    assert_eq!(a.selected, 1);
    a.move_up();
    a.move_up();
    assert_eq!(a.selected, 0);
    a.jump_bottom();
    assert_eq!(a.selected, 1);
    a.jump_top();
    assert_eq!(a.selected, 0);
    a.jump_bottom();
    a.next_tab();
    assert_eq!((a.tab, a.selected), (Tab::Artists, 0));
    a.jump_bottom();
    assert_eq!(a.selected, 2);
    a.prev_tab();
    assert_eq!((a.tab, a.selected), (Tab::Recent, 0));
    a.tab = Tab::Tracks;
    a.jump_bottom();
    assert_eq!(a.selected, 0);
}

#[test]
fn highlight_is_clamped() {
    let mut a = App::new(config(), 7);
    assert_eq!(a.highlighted(), None);
    a.finish_refresh(ok_outcome());
    assert_eq!(a.highlighted(), Some(0));
    a.selected = 7;
    assert_eq!(a.highlighted(), Some(1));
    a.selected = 1;
    assert_eq!(a.highlighted(), Some(1));
}

#[test]
fn refresh_plan_and_status() {
    let mut a = App::new(config(), 7);
    let p = a.begin_refresh();
    assert_eq!(a.status, "refreshing (month)…");
    assert_eq!(p.playing_now, "/user/alice/playing-now");
    assert_eq!(p.recent, "/user/alice/listens?count=50");
    assert_eq!(p.artists, "/stats/user/alice/artists?range=month&count=25");
    assert_eq!(p.tracks, "/stats/user/alice/recordings?range=month&count=25");
    assert_eq!(p.releases, "/stats/user/alice/releases?range=month&count=25");
    assert_eq!(p.total, "/user/alice/listen-count");
    a.finish_refresh(ok_outcome());
    assert_eq!(a.status, "ok (month)");
    assert_eq!(a.last_refresh, 100);
    assert_eq!(a.tab, Tab::Recent);
    assert_eq!(a.range, Range::Month);
    assert_eq!(a.total, Some(42));
    assert_eq!(a.artists.len(), 3);
}

#[test]
fn refresh_failures_keep_old_data() {
    let mut a = App::new(config(), 7);
    a.finish_refresh(ok_outcome());
    let o = RefreshOutcome {
        playing_now: Err("down".into()),
        recent: Err("timeout".into()),
        artists: Ok(Vec::new()),
        tracks: Ok(Vec::new()),
        releases: Ok(Vec::new()),
        total: Err("nope".into()),
        finished_at: 200,
    };
    a.finish_refresh(o);
    assert_eq!(a.status, "listens: timeout");
    assert_eq!(a.last_refresh, 200);
    assert_eq!(a.recent.len(), 2);
    assert_eq!(a.artists.len(), 0);
    assert_eq!(a.total, Some(42));
    let o = RefreshOutcome {
        playing_now: Err("down".into()),
        recent: Ok(Vec::new()),
        artists: Ok(Vec::new()),
        tracks: Ok(Vec::new()),
        releases: Ok(Vec::new()),
        total: Ok(1),
        finished_at: 300,
    };
    a.finish_refresh(o);
    assert_eq!(a.status, "playing-now: down");
}

#[test]
fn cycle_range_refreshes_next_range() {
    let mut a = App::new(config(), 7);
    let p = a.cycle_range();
    assert_eq!(a.range, Range::Year);
    assert_eq!(a.status, "refreshing (year)…");
    assert_eq!(p.artists, "/stats/user/alice/artists?range=year&count=25");
    a.cycle_range();
    a.cycle_range();
    a.cycle_range();
    assert_eq!(a.range, Range::Month);
}

#[test]
fn recording_url_prefers_mapping() {
    assert_eq!(
        recording_url_from_listen(&listen(Some("m1"), Some("c1"))).as_deref(),
        Some("https://musicbrainz.org/recording/m1")
    );
    assert_eq!(
        recording_url_from_listen(&listen(None, Some("c1"))).as_deref(),
        Some("https://musicbrainz.org/recording/c1")
    );
    assert_eq!(recording_url_from_listen(&listen(None, None)), None);
}

#[test]
fn selected_url_per_tab() {
    let mut a = App::new(config(), 7);
    a.finish_refresh(ok_outcome());
    assert_eq!(a.selected_url(), None);
    a.tab = Tab::Artists;
    assert_eq!(a.selected_url().as_deref(), Some("https://musicbrainz.org/artist/a1"));
    a.selected = 1;
    assert_eq!(a.selected_url(), None);
    a.tracks = vec![TopRecording {
        track_name: "T".into(),
        artist_name: "A".into(),
        listen_count: 1,
        recording_mbid: Some("r9".into()),
    }];
    a.releases = vec![TopRelease {
        release_name: "R".into(),
        artist_name: "A".into(),
        listen_count: 1,
        release_mbid: Some("x7".into()),
    }];
    a.tab = Tab::Tracks;
    a.selected = 0;
    assert_eq!(a.selected_url().as_deref(), Some("https://musicbrainz.org/recording/r9"));
    a.tab = Tab::Releases;
    assert_eq!(a.selected_url().as_deref(), Some("https://musicbrainz.org/release/x7"));
    a.selected = 5;
    assert_eq!(a.selected_url(), None);
}

#[test]
fn default_keybindings_from_readme() {
    let k = KeyMap::default();
    assert_eq!(action_for(&k, Key::Char('q'), false), Action::Quit);
    assert_eq!(action_for(&k, Key::Esc, false), Action::Quit);
    assert_eq!(action_for(&k, Key::Char('h'), false), Action::PrevTab);
    assert_eq!(action_for(&k, Key::Char('l'), false), Action::NextTab);
    assert_eq!(action_for(&k, Key::Char('j'), false), Action::Down);
    assert_eq!(action_for(&k, Key::Char('k'), false), Action::Up);
    assert_eq!(action_for(&k, Key::Char('g'), false), Action::Top);
    assert_eq!(action_for(&k, Key::Char('G'), false), Action::Bottom);
    assert_eq!(action_for(&k, Key::Char('t'), false), Action::CycleRange);
    assert_eq!(action_for(&k, Key::Char('r'), false), Action::Refresh);
    assert_eq!(action_for(&k, Key::Enter, false), Action::Open);
    assert_eq!(action_for(&k, Key::Char('c'), true), Action::Quit);
    assert_eq!(action_for(&k, Key::Char('c'), false), Action::Nothing);
    assert_eq!(action_for(&k, Key::Left, false), Action::PrevTab);
    assert_eq!(action_for(&k, Key::Right, false), Action::NextTab);
    assert_eq!(action_for(&k, Key::Home, false), Action::Top);
    assert_eq!(action_for(&k, Key::End, false), Action::Bottom);
    assert_eq!(action_for(&k, Key::Other, false), Action::Nothing);
}

#[test]
fn first_matching_binding_wins() {
    let mut k = KeyMap::default();
    k.down = 'q';
    assert_eq!(action_for(&k, Key::Char('q'), false), Action::Quit);
    k.quit = 'x';
    k.next_tab = 'c';
    assert_eq!(action_for(&k, Key::Char('c'), true), Action::NextTab);
}

#[test]
fn handle_key_effects() {
    let mut a = App::new(config(), 7);
    a.finish_refresh(ok_outcome());
    assert!(matches!(handle_key(&mut a, Key::Char('j'), false), Effect::Nothing));
    assert_eq!(a.selected, 1);
    match handle_key(&mut a, Key::Char('r'), false) {
        Effect::Fetch(p) => assert_eq!(p.total, "/user/alice/listen-count"),
        _ => panic!("expected a fetch"),
    }
    assert_eq!(a.status, "refreshing (month)…");
    match handle_key(&mut a, Key::Char('t'), false) {
        Effect::Fetch(p) => assert_eq!(p.releases, "/stats/user/alice/releases?range=year&count=25"),
        _ => panic!("expected a fetch"),
    }
    handle_key(&mut a, Key::Right, false);
    match handle_key(&mut a, Key::Enter, false) {
        Effect::Open(u) => assert_eq!(u, "https://musicbrainz.org/artist/a1"),
        _ => panic!("expected a page"),
    }
    assert!(!a.should_quit);
    handle_key(&mut a, Key::Esc, false);
    assert!(a.should_quit);
}

#[test]
fn auto_refresh_timing() {
    assert!(!auto_refresh_due(0, 1000));
    assert!(!auto_refresh_due(60, 59));
    assert!(auto_refresh_due(60, 60));
    assert!(auto_refresh_due(60, 61));
}
