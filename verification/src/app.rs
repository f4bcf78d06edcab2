//! The state of the interface and how keys and fetched data change it.
use vstd::prelude::*;

use crate::api::{
    listen_count_path, listens_path, playing_now_path, playing_now_path_of, recent_listens_path,
    stats_path, top_artists_path, top_recordings_path, top_releases_path, total_listens_path,
    Listen, TopArtist, TopRecording, TopRelease,
};
use crate::config::{opt_view, range_after, range_name, Config, KeyMap, Range};
use crate::text::concat;

verus! {

/// The lists the interface can show.
#[derive(Debug, Clone, Copy, PartialEq, Eq, Structural)]
pub enum Tab {
    Recent,
    Artists,
    Tracks,
    Releases,
}

/// Position of a tab in the tab bar.
pub open spec fn tab_index(t: Tab) -> nat {
    match t {
        Tab::Recent => 0,
        Tab::Artists => 1,
        Tab::Tracks => 2,
        Tab::Releases => 3,
    }
}

/// The tab at position `i` of the tab bar (`i < 4`).
pub open spec fn tab_at(i: nat) -> Tab {
    if i == 0 {
        Tab::Recent
    } else if i == 1 {
        Tab::Artists
    } else if i == 2 {
        Tab::Tracks
    } else {
        Tab::Releases
    }
}

/// The tab to the right of `t`, wrapping around at the end.
pub open spec fn tab_after(t: Tab) -> Tab {
    tab_at((tab_index(t) + 1) % 4)
}

/// The tab to the left of `t`, wrapping around at the start.
pub open spec fn tab_before(t: Tab) -> Tab {
    tab_at((tab_index(t) + 3) % 4)
}

/// The title of a tab.
pub open spec fn tab_label(t: Tab) -> Seq<char> {
    match t {
        Tab::Recent => "Recent"@,
        Tab::Artists => "Top Artists"@,
        Tab::Tracks => "Top Tracks"@,
        Tab::Releases => "Top Releases"@,
    }
}

impl Tab {
    /// The tabs in the order of the tab bar.
    pub fn all() -> (tabs: [Tab; 4])
        ensures
            tabs@ == seq![Tab::Recent, Tab::Artists, Tab::Tracks, Tab::Releases],
    {
        let tabs = [Tab::Recent, Tab::Artists, Tab::Tracks, Tab::Releases];
        assert(tabs@ =~= seq![Tab::Recent, Tab::Artists, Tab::Tracks, Tab::Releases]);
        tabs
    }

    /// Position of this tab in the tab bar.
    pub fn position(self) -> (i: usize)
        ensures
            i == tab_index(self),
    {
        let tabs = Tab::all();
        let mut i: usize = 0;
        while i < 4
            invariant
                i <= 4,
                tabs@ == seq![Tab::Recent, Tab::Artists, Tab::Tracks, Tab::Releases],
                forall|j: int| 0 <= j < i ==> tabs@[j] != self,
            decreases 4 - i,
        {
            if tabs[i] == self {
                return i;
            }
            i = i + 1;
        }
        assert(tabs@[tab_index(self) as int] == self);
        0
    }

    /// The title shown for this tab.
    pub fn label(self) -> (s: &'static str)
        ensures
            s@ == tab_label(self),
    {
        match self {
            Tab::Recent => "Recent",
            Tab::Artists => "Top Artists",
            Tab::Tracks => "Top Tracks",
            Tab::Releases => "Top Releases",
        }
    }

    /// The tab to the right, the last one wrapping to the first.
    pub fn next(self) -> (t: Self)
        ensures
            t == tab_after(self),
    {
        let i = self.position();
        Tab::all()[(i + 1) % 4]
    }

    /// The tab to the left, the first one wrapping to the last.
    pub fn prev(self) -> (t: Self)
        ensures
            t == tab_before(self),
    {
        let i = self.position();
        Tab::all()[(i + 4 - 1) % 4]
    }
}

/// Moving right then left, or left then right, comes back to the same tab,
/// and four moves in one direction go all the way round.
pub proof fn tab_moves_undo(t: Tab)
    ensures
        tab_before(tab_after(t)) == t,
        tab_after(tab_before(t)) == t,
        tab_after(tab_after(tab_after(tab_after(t)))) == t,
        tab_after(t) != t,
{
}

/// The state of the interface.
pub struct App {
    pub cfg: Config,
    pub tab: Tab,
    pub range: Range,
    /// Index of the highlighted row of the current list.
    pub selected: usize,
    pub now_playing: Option<Listen>,
    pub recent: Vec<Listen>,
    pub artists: Vec<TopArtist>,
    pub tracks: Vec<TopRecording>,
    pub releases: Vec<TopRelease>,
    pub total: Option<u64>,
    /// When the last refresh finished, in seconds since the epoch (the
    /// start-up time until then).
    pub last_refresh: i64,
    /// The status line: progress, the last error, or `ok`.
    pub status: String,
    pub should_quit: bool,
}

/// The paths of the requests of one refresh.
pub struct RefreshPlan {
    pub playing_now: String,
    pub recent: String,
    pub artists: String,
    pub tracks: String,
    pub releases: String,
    pub total: String,
}

/// The number of recent listens fetched.
pub open spec fn recent_count() -> u32 {
    50
}

/// The number of entries fetched of each statistic.
pub open spec fn top_count() -> u32 {
    25
}

/// `p` holds the requests of a refresh for `user` over `range`.
pub open spec fn plan_for(p: RefreshPlan, user: Seq<char>, range: Range) -> bool {
    &&& p.playing_now@ == playing_now_path_of(user)
    &&& p.recent@ == listens_path(user, recent_count())
    &&& p.artists@ == stats_path("artists"@, user, range_name(range), top_count())
    &&& p.tracks@ == stats_path("recordings"@, user, range_name(range), top_count())
    &&& p.releases@ == stats_path("releases"@, user, range_name(range), top_count())
    &&& p.total@ == listen_count_path(user)
}

/// What the requests of a refresh returned; an error carries its message.
pub struct RefreshOutcome {
    pub playing_now: Result<Option<Listen>, String>,
    pub recent: Result<Vec<Listen>, String>,
    pub artists: Result<Vec<TopArtist>, String>,
    pub tracks: Result<Vec<TopRecording>, String>,
    pub releases: Result<Vec<TopRelease>, String>,
    pub total: Result<u64, String>,
    /// The clock reading, in seconds since the epoch, taken once the
    /// requests returned.
    pub finished_at: i64,
}

/// The status line while a refresh over `range` runs.
pub open spec fn refreshing_text(range: Range) -> Seq<char> {
    "refreshing ("@ + range_name(range) + ")…"@
}

/// `label: message` for a failed request, nothing for a successful one.
pub open spec fn failure<T>(label: Seq<char>, r: Result<T, String>) -> Option<Seq<char>> {
    match r {
        Ok(_) => None,
        Err(e) => Some(label + ": "@ + e@),
    }
}

/// The status line after a refresh over `range`: the failure of the last
/// failed request among playing-now, listens, artists, tracks and releases
/// (in that order), else `ok (range)`. A failed total is not reported.
pub open spec fn refresh_status(o: RefreshOutcome, range: Range) -> Seq<char> {
    if failure("releases"@, o.releases) is Some {
        failure("releases"@, o.releases)->0
    } else if failure("tracks"@, o.tracks) is Some {
        failure("tracks"@, o.tracks)->0
    } else if failure("artists"@, o.artists) is Some {
        failure("artists"@, o.artists)->0
    } else if failure("listens"@, o.recent) is Some {
        failure("listens"@, o.recent)->0
    } else if failure("playing-now"@, o.playing_now) is Some {
        failure("playing-now"@, o.playing_now)->0
    } else {
        "ok ("@ + range_name(range) + ")"@
    }
}

/// `old` when the request failed, its result otherwise.
pub open spec fn kept<T>(old: T, r: Result<T, String>) -> T {
    match r {
        Ok(x) => x,
        Err(_) => old,
    }
}

/// The data of `a` after a refresh that returned `o`, with status line `status`.
pub open spec fn refreshed(a: App, o: RefreshOutcome, status: String) -> App {
    App {
        now_playing: kept(a.now_playing, o.playing_now),
        recent: kept(a.recent, o.recent),
        artists: kept(a.artists, o.artists),
        tracks: kept(a.tracks, o.tracks),
        releases: kept(a.releases, o.releases),
        total: match o.total {
            Ok(n) => Some(n),
            Err(_) => a.total,
        },
        last_refresh: o.finished_at,
        status,
        ..a
    }
}

/// The MusicBrainz recording of a listen: the one ListenBrainz matched, else
/// the one its client gave.
pub open spec fn listen_mbid(l: Listen) -> Option<Seq<char>> {
    let matched = match l.track_metadata.mbid_mapping {
        Some(m) => opt_view(m.recording_mbid),
        None => None,
    };
    if matched is Some {
        matched
    } else {
        match l.track_metadata.additional_info {
            Some(a) => opt_view(a.recording_mbid),
            None => None,
        }
    }
}

/// The MusicBrainz page of `kind` (`recording`, `artist`, `release`) `mbid`.
pub open spec fn musicbrainz_url(kind: Seq<char>, mbid: Seq<char>) -> Seq<char> {
    "https://musicbrainz.org/"@ + kind + "/"@ + mbid
}

/// The MusicBrainz page of the recording of a listen, if it is known.
pub open spec fn recording_url(l: Listen) -> Option<Seq<char>> {
    match listen_mbid(l) {
        Some(m) => Some(musicbrainz_url("recording"@, m)),
        None => None,
    }
}

/// The page of an optional identifier.
pub open spec fn page_of(kind: Seq<char>, mbid: Option<String>) -> Option<Seq<char>> {
    match mbid {
        Some(m) => Some(musicbrainz_url(kind, m@)),
        None => None,
    }
}

fn page(kind: &str, mbid: &Option<String>) -> (u: Option<String>)
    ensures
        opt_view(u) == page_of(kind@, *mbid),
{
    match mbid {
        Some(m) => {
            let mut u = concat("https://musicbrainz.org/", kind);
            u.append("/");
            u.append(m.as_str());
            Some(u)
        },
        None => None,
    }
}

/// The MusicBrainz page of the recording of a listen: the identifier that
/// ListenBrainz matched, else the one the client sent.
pub fn recording_url_from_listen(l: &Listen) -> (u: Option<String>)
    ensures
        opt_view(u) == recording_url(*l),
        ({
            let md = l.track_metadata;
            let matched = md.mbid_mapping is Some && md.mbid_mapping->0.recording_mbid is Some;
            let sent = md.additional_info is Some && md.additional_info->0.recording_mbid is Some;
            &&& matched ==> opt_view(u) == Some(
                "https://musicbrainz.org/recording/"@ + md.mbid_mapping->0.recording_mbid->0@,
            )
            &&& !matched && sent ==> opt_view(u) == Some(
                "https://musicbrainz.org/recording/"@ + md.additional_info->0.recording_mbid->0@,
            )
            &&& !matched && !sent ==> u is None
        }),
{
    proof {
        recording_page_sources(*l);
    }
    let from_mapping = match &l.track_metadata.mbid_mapping {
        Some(m) => &m.recording_mbid,
        None => &None,
    };
    if from_mapping.is_some() {
        return page("recording", from_mapping);
    }
    match &l.track_metadata.additional_info {
        Some(a) => page("recording", &a.recording_mbid),
        None => None,
    }
}

/// The smaller of two numbers.
pub open spec fn min_nat(a: nat, b: nat) -> nat {
    if a <= b {
        a
    } else {
        b
    }
}

/// `a` with the highlight one row further down (staying on the last row).
pub open spec fn moved_down(a: App) -> App {
    let n = a.list_count();
    if n == 0 {
        a
    } else {
        App { selected: min_nat((a.selected + 1) as nat, (n - 1) as nat) as usize, ..a }
    }
}

/// `a` with the highlight one row further up (staying on the first row).
pub open spec fn moved_up(a: App) -> App {
    App { selected: if a.selected > 0 { (a.selected - 1) as usize } else { 0 }, ..a }
}

/// `a` with the highlight on the first row.
pub open spec fn at_top(a: App) -> App {
    App { selected: 0, ..a }
}

/// `a` with the highlight on the last row (the first when the list is empty).
pub open spec fn at_bottom(a: App) -> App {
    App {
        selected: if a.list_count() > 0 { (a.list_count() - 1) as usize } else { 0 },
        ..a
    }
}

/// `a` showing the next tab from its first row.
pub open spec fn tabbed_next(a: App) -> App {
    App { tab: tab_after(a.tab), selected: 0, ..a }
}

/// `a` showing the previous tab from its first row.
pub open spec fn tabbed_prev(a: App) -> App {
    App { tab: tab_before(a.tab), selected: 0, ..a }
}

/// The page that the highlighted row links to, if it has one.
pub open spec fn selected_page(a: App) -> Option<Seq<char>> {
    let i = a.selected as int;
    match a.tab {
        Tab::Recent => if i < a.recent@.len() {
            recording_url(a.recent@[i])
        } else {
            None
        },
        Tab::Tracks => if i < a.tracks@.len() {
            page_of("recording"@, a.tracks@[i].recording_mbid)
        } else {
            None
        },
        Tab::Artists => if i < a.artists@.len() {
            page_of("artist"@, a.artists@[i].artist_mbid)
        } else {
            None
        },
        Tab::Releases => if i < a.releases@.len() {
            page_of("release"@, a.releases@[i].release_mbid)
        } else {
            None
        },
    }
}

/// Whether the highlight is on a row of the current list (on the first
/// position when the list is empty).
pub open spec fn selection_in_bounds(a: App) -> bool {
    if a.list_count() == 0 {
        a.selected == 0
    } else {
        a.selected < a.list_count()
    }
}

impl App {
    /// Number of rows of the current list.
    pub open spec fn list_count(self) -> nat {
        match self.tab {
            Tab::Recent => self.recent@.len(),
            Tab::Artists => self.artists@.len(),
            Tab::Tracks => self.tracks@.len(),
            Tab::Releases => self.releases@.len(),
        }
    }

    /// The state at start-up: the recent tab, nothing fetched yet, status `loading…`.
    pub fn new(cfg: Config, now: i64) -> (a: Self)
        ensures
            a.cfg == cfg,
            a.tab == Tab::Recent,
            a.range == cfg.range,
            a.selected == 0,
            a.now_playing is None,
            a.recent@.len() == 0,
            a.artists@.len() == 0,
            a.tracks@.len() == 0,
            a.releases@.len() == 0,
            a.total is None,
            a.last_refresh == now,
            a.status@ == "loading…"@,
            !a.should_quit,
    {
        let range = cfg.range;
        App {
            cfg,
            tab: Tab::Recent,
            range,
            selected: 0,
            now_playing: None,
            recent: Vec::new(),
            artists: Vec::new(),
            tracks: Vec::new(),
            releases: Vec::new(),
            total: None,
            last_refresh: now,
            status: String::from_str("loading…"),
            should_quit: false,
        }
    }

    /// Number of rows of the current list.
    pub fn list_len(&self) -> (n: usize)
        ensures
            n == self.list_count(),
    {
        match self.tab {
            Tab::Recent => self.recent.len(),
            Tab::Artists => self.artists.len(),
            Tab::Tracks => self.tracks.len(),
            Tab::Releases => self.releases.len(),
        }
    }

    /// The row to draw highlighted: the selection, clamped to the last row;
    /// none for an empty list.
    pub fn highlighted(&self) -> (r: Option<usize>)
        ensures
            self.list_count() == 0 ==> r is None,
            self.list_count() > 0 ==> r == Some(
                min_nat(self.selected as nat, (self.list_count() - 1) as nat) as usize,
            ),
            self.selected < self.list_count() ==> r == Some(self.selected),
            0 < self.list_count() <= self.selected ==> r == Some((self.list_count() - 1) as usize),
    {
        let n = self.list_len();
        if n == 0 {
            None
        } else if self.selected < n - 1 {
            Some(self.selected)
        } else {
            Some(n - 1)
        }
    }

    /// Moves the highlight one row down, stopping at the last row.
    pub fn move_down(&mut self)
        requires
            old(self).list_count() > 0 ==> old(self).selected < usize::MAX,
        ensures
            *final(self) == moved_down(*old(self)),
            old(self).selected + 1 < old(self).list_count() ==> final(self).selected
                == old(self).selected + 1,
            old(self).list_count() > 0 && old(self).selected + 1 >= old(self).list_count()
                ==> final(self).selected == old(self).list_count() - 1,
    {
        let n = self.list_len();
        if n == 0 {
            return;
        }
        let next = self.selected + 1;
        self.selected = if next < n - 1 { next } else { n - 1 };
    }

    /// Moves the highlight one row up, stopping at the first row.
    pub fn move_up(&mut self)
        ensures
            *final(self) == moved_up(*old(self)),
            old(self).selected > 0 ==> final(self).selected == old(self).selected - 1,
            old(self).selected == 0 ==> final(self).selected == 0,
    {
        self.selected = self.selected.saturating_sub(1);
    }

    /// Moves the highlight to the first row.
    pub fn jump_top(&mut self)
        ensures
            *final(self) == at_top(*old(self)),
    {
        self.selected = 0;
    }

    /// Moves the highlight to the last row.
    pub fn jump_bottom(&mut self)
        ensures
            *final(self) == at_bottom(*old(self)),
    {
        let n = self.list_len();
        self.selected = n.saturating_sub(1);
    }

    /// Shows the next tab, highlighting its first row.
    pub fn next_tab(&mut self)
        ensures
            *final(self) == tabbed_next(*old(self)),
    {
        self.tab = self.tab.next();
        self.selected = 0;
    }

    /// Shows the previous tab, highlighting its first row.
    pub fn prev_tab(&mut self)
        ensures
            *final(self) == tabbed_prev(*old(self)),
    {
        self.tab = self.tab.prev();
        self.selected = 0;
    }

    /// Starts a refresh: the status line says so, and the requests to make
    /// come back.
    pub fn begin_refresh(&mut self) -> (p: RefreshPlan)
        ensures
            *final(self) == (App { status: final(self).status, ..*old(self) }),
            final(self).status@ == refreshing_text(old(self).range),
            plan_for(p, old(self).cfg.username@, old(self).range),
    {
        let range = self.range.as_str();
        let mut status = concat("refreshing (", range);
        status.append(")…");
        self.status = status;
        let user = self.cfg.username.as_str();
        RefreshPlan {
            playing_now: playing_now_path(user),
            recent: recent_listens_path(user, 50),
            artists: top_artists_path(user, range, 25),
            tracks: top_recordings_path(user, range, 25),
            releases: top_releases_path(user, range, 25),
            total: total_listens_path(user),
        }
    }

    /// Takes in what a refresh fetched: each list that was fetched replaces
    /// the old one, a failed request keeps it, the refresh time becomes the
    /// reading taken after the requests, and the status line reports the
    /// last failure or `ok`.
    pub fn finish_refresh(&mut self, o: RefreshOutcome)
        ensures
            *final(self) == refreshed(*old(self), o, final(self).status),
            final(self).status@ == refresh_status(o, old(self).range),
            o.playing_now is Ok ==> final(self).now_playing == o.playing_now->Ok_0,
            o.recent is Ok ==> final(self).recent == o.recent->Ok_0,
            o.artists is Ok ==> final(self).artists == o.artists->Ok_0,
            o.tracks is Ok ==> final(self).tracks == o.tracks->Ok_0,
            o.releases is Ok ==> final(self).releases == o.releases->Ok_0,
            o.total is Ok ==> final(self).total == Some(o.total->Ok_0),
    {
        let ghost o0 = o;
        let range = self.range.as_str();
        let mut status: Option<String> = None;
        match o.playing_now {
            Ok(np) => self.now_playing = np,
            Err(e) => status = Some(failure_line("playing-now", e.as_str())),
        }
        match o.recent {
            Ok(v) => self.recent = v,
            Err(e) => status = Some(failure_line("listens", e.as_str())),
        }
        match o.artists {
            Ok(v) => self.artists = v,
            Err(e) => status = Some(failure_line("artists", e.as_str())),
        }
        match o.tracks {
            Ok(v) => self.tracks = v,
            Err(e) => status = Some(failure_line("tracks", e.as_str())),
        }
        match o.releases {
            Ok(v) => self.releases = v,
            Err(e) => status = Some(failure_line("releases", e.as_str())),
        }
        match o.total {
            Ok(n) => self.total = Some(n),
            Err(_) => {},
        }
        self.last_refresh = o.finished_at;
        self.status = match status {
            Some(s) => s,
            None => {
                let mut s = concat("ok (", range);
                s.append(")");
                s
            },
        };
    }

    /// Switches to the next range and starts a refresh for it.
    pub fn cycle_range(&mut self) -> (p: RefreshPlan)
        ensures
            *final(self) == (App {
                range: range_after(old(self).range),
                status: final(self).status,
                ..*old(self)
            }),
            final(self).status@ == refreshing_text(range_after(old(self).range)),
            plan_for(p, old(self).cfg.username@, range_after(old(self).range)),
    {
        self.range = self.range.cycle();
        self.begin_refresh()
    }

    /// The MusicBrainz page of the highlighted row, if it has one.
    pub fn selected_url(&self) -> (u: Option<String>)
        ensures
            opt_view(u) == selected_page(*self),
    {
        let i = self.selected;
        match self.tab {
            Tab::Recent => if i < self.recent.len() {
                recording_url_from_listen(&self.recent[i])
            } else {
                None
            },
            Tab::Tracks => if i < self.tracks.len() {
                page("recording", &self.tracks[i].recording_mbid)
            } else {
                None
            },
            Tab::Artists => if i < self.artists.len() {
                page("artist", &self.artists[i].artist_mbid)
            } else {
                None
            },
            Tab::Releases => if i < self.releases.len() {
                page("release", &self.releases[i].release_mbid)
            } else {
                None
            },
        }
    }
}

fn failure_line(label: &str, message: &str) -> (s: String)
    ensures
        s@ == label@ + ": "@ + message@,
{
    let mut s = concat(label, ": ");
    s.append(message);
    s
}


// -------------------------------------------------------------------- keys

/// A key press as the interface sees it.
#[derive(Debug, Clone, Copy, PartialEq, Eq, Structural)]
pub enum Key {
    Char(char),
    Enter,
    Esc,
    Down,
    Up,
    Left,
    Right,
    Home,
    End,
    Other,
}

/// What a key press asks for.
#[derive(Debug, Clone, Copy, PartialEq, Eq, Structural)]
pub enum Action {
    Quit,
    NextTab,
    PrevTab,
    Down,
    Up,
    Top,
    Bottom,
    Refresh,
    CycleRange,
    Open,
    Nothing,
}

/// The action of a key press under bindings `k` (`ctrl` tells whether
/// Control was held). A character is checked against the bindings in the
/// order quit, next tab, previous tab, down, up, top, bottom, refresh, range;
/// the first that matches wins, and Control-C quits when no binding matched.
pub open spec fn key_action(k: KeyMap, key: Key, ctrl: bool) -> Action {
    match key {
        Key::Char(c) => if c == k.quit {
            Action::Quit
        } else if c == k.next_tab {
            Action::NextTab
        } else if c == k.prev_tab {
            Action::PrevTab
        } else if c == k.down {
            Action::Down
        } else if c == k.up {
            Action::Up
        } else if c == k.top {
            Action::Top
        } else if c == k.bottom {
            Action::Bottom
        } else if c == k.refresh {
            Action::Refresh
        } else if c == k.toggle_range {
            Action::CycleRange
        } else if c == 'c' && ctrl {
            Action::Quit
        } else {
            Action::Nothing
        },
        Key::Enter => Action::Open,
        Key::Esc => Action::Quit,
        Key::Down => Action::Down,
        Key::Up => Action::Up,
        Key::Left => Action::PrevTab,
        Key::Right => Action::NextTab,
        Key::Home => Action::Top,
        Key::End => Action::Bottom,
        Key::Other => Action::Nothing,
    }
}

/// The action of a key press under the bindings `keys`.
pub fn action_for(keys: &KeyMap, key: Key, ctrl: bool) -> (a: Action)
    ensures
        a == key_action(*keys, key, ctrl),
{
    match key {
        Key::Char(c) => {
            if c == keys.quit {
                Action::Quit
            } else if c == keys.next_tab {
                Action::NextTab
            } else if c == keys.prev_tab {
                Action::PrevTab
            } else if c == keys.down {
                Action::Down
            } else if c == keys.up {
                Action::Up
            } else if c == keys.top {
                Action::Top
            } else if c == keys.bottom {
                Action::Bottom
            } else if c == keys.refresh {
                Action::Refresh
            } else if c == keys.toggle_range {
                Action::CycleRange
            } else if c == 'c' && ctrl {
                Action::Quit
            } else {
                Action::Nothing
            }
        },
        Key::Enter => Action::Open,
        Key::Esc => Action::Quit,
        Key::Down => Action::Down,
        Key::Up => Action::Up,
        Key::Left => Action::PrevTab,
        Key::Right => Action::NextTab,
        Key::Home => Action::Top,
        Key::End => Action::Bottom,
        Key::Other => Action::Nothing,
    }
}

/// Outside work that an action leaves to the caller.
pub enum Effect {
    /// Nothing to do.
    Nothing,
    /// Make these requests and hand what they return to `finish_refresh`.
    Fetch(RefreshPlan),
    /// Open this page in the browser.
    Open(String),
}

/// Performing action `act` on state `a` gives state `b` and outside work `e`.
pub open spec fn performed(a: App, act: Action, b: App, e: Effect) -> bool {
    match act {
        Action::Quit => b == (App { should_quit: true, ..a }) && e is Nothing,
        Action::NextTab => b == tabbed_next(a) && e is Nothing,
        Action::PrevTab => b == tabbed_prev(a) && e is Nothing,
        Action::Down => b == moved_down(a) && e is Nothing,
        Action::Up => b == moved_up(a) && e is Nothing,
        Action::Top => b == at_top(a) && e is Nothing,
        Action::Bottom => b == at_bottom(a) && e is Nothing,
        Action::Refresh => {
            &&& b == (App { status: b.status, ..a })
            &&& b.status@ == refreshing_text(a.range)
            &&& e matches Effect::Fetch(p) && plan_for(p, a.cfg.username@, a.range)
        },
        Action::CycleRange => {
            &&& b == (App { range: range_after(a.range), status: b.status, ..a })
            &&& b.status@ == refreshing_text(range_after(a.range))
            &&& e matches Effect::Fetch(p) && plan_for(p, a.cfg.username@, range_after(a.range))
        },
        Action::Open => b == a && match selected_page(a) {
            Some(u) => e matches Effect::Open(x) && x@ == u,
            None => e is Nothing,
        },
        Action::Nothing => b == a && e is Nothing,
    }
}

impl App {
    /// Carries out an action and returns the outside work it needs.
    pub fn perform(&mut self, act: Action) -> (e: Effect)
        requires
            act == Action::Down && old(self).list_count() > 0 ==> old(self).selected < usize::MAX,
        ensures
            performed(*old(self), act, *final(self), e),
            act == Action::PrevTab ==> (tab_index(final(self).tab) + 1) % 4 == tab_index(
                old(self).tab,
            ),
            act == Action::NextTab ==> tab_index(final(self).tab) == (tab_index(old(self).tab) + 1)
                % 4,
    {
        match act {
            Action::Quit => {
                self.should_quit = true;
                Effect::Nothing
            },
            Action::NextTab => {
                self.next_tab();
                Effect::Nothing
            },
            Action::PrevTab => {
                self.prev_tab();
                Effect::Nothing
            },
            Action::Down => {
                self.move_down();
                Effect::Nothing
            },
            Action::Up => {
                self.move_up();
                Effect::Nothing
            },
            Action::Top => {
                self.jump_top();
                Effect::Nothing
            },
            Action::Bottom => {
                self.jump_bottom();
                Effect::Nothing
            },
            Action::Refresh => Effect::Fetch(self.begin_refresh()),
            Action::CycleRange => Effect::Fetch(self.cycle_range()),
            Action::Open => match self.selected_url() {
                Some(u) => Effect::Open(u),
                None => Effect::Nothing,
            },
            Action::Nothing => Effect::Nothing,
        }
    }
}

/// Handles a key press (`ctrl` tells whether Control was held) with the
/// bindings of the configuration, and returns the outside work it needs.
pub fn handle_key(app: &mut App, key: Key, ctrl: bool) -> (e: Effect)
    requires
        key_action(old(app).cfg.keys, key, ctrl) == Action::Down && old(app).list_count() > 0
            ==> old(app).selected < usize::MAX,
    ensures
        performed(*old(app), key_action(old(app).cfg.keys, key, ctrl), *final(app), e),
{
    let act = action_for(&app.cfg.keys, key, ctrl);
    app.perform(act)
}

/// Whether an automatic refresh is due: only with a positive interval, once
/// `elapsed_secs` whole seconds since the last one reach it.
pub fn auto_refresh_due(interval_secs: u64, elapsed_secs: u64) -> (due: bool)
    ensures
        due == (interval_secs > 0 && elapsed_secs >= interval_secs),
{
    interval_secs > 0 && elapsed_secs >= interval_secs
}

// -------------------------------------------------------------------- laws

/// Every navigation keeps the highlight on a row of the current list (or on
/// the first position of an empty one): moving down, up, to the top, to the
/// bottom, and switching tabs.
pub proof fn navigation_keeps_selection_in_bounds(a: App)
    requires
        selection_in_bounds(a),
    ensures
        selection_in_bounds(moved_down(a)),
        selection_in_bounds(moved_up(a)),
        selection_in_bounds(at_top(a)),
        selection_in_bounds(at_bottom(a)),
        selection_in_bounds(tabbed_next(a)),
        selection_in_bounds(tabbed_prev(a)),
{
}

/// Switching to the next tab and back returns to the same tab, on its first row.
pub proof fn tab_switch_undo(a: App)
    ensures
        tabbed_prev(tabbed_next(a)) == at_top(a),
        tabbed_next(tabbed_prev(a)) == at_top(a),
{
    tab_moves_undo(a.tab);
}

/// The last row and the first row are fixed points of moving down and up
/// (for a list whose length fits in `usize`, as every vector's does).
pub proof fn ends_are_stable(a: App)
    requires
        a.list_count() <= usize::MAX,
    ensures
        moved_down(at_bottom(a)) == at_bottom(a),
        moved_up(at_top(a)) == at_top(a),
{
    let b = at_bottom(a);
    assert(b.list_count() == a.list_count());
    if a.list_count() > 0 {
        assert(b.selected == a.list_count() - 1);
    }
}

/// A refresh in which every request succeeded reports `ok (range)`.
pub proof fn clean_refresh_reports_ok(o: RefreshOutcome, range: Range)
    requires
        o.playing_now is Ok,
        o.recent is Ok,
        o.artists is Ok,
        o.tracks is Ok,
        o.releases is Ok,
    ensures
        refresh_status(o, range) == "ok ("@ + range_name(range) + ")"@,
{
}

/// A refresh changes neither the tab, the highlight, the range, the
/// settings nor whether the application is quitting.
pub proof fn refresh_keeps_view(a: App, o: RefreshOutcome, status: String)
    ensures
        refreshed(a, o, status).tab == a.tab,
        refreshed(a, o, status).selected == a.selected,
        refreshed(a, o, status).range == a.range,
        refreshed(a, o, status).cfg == a.cfg,
        refreshed(a, o, status).should_quit == a.should_quit,
{
}

/// Escape quits whatever the bindings; Control-C quits unless `c` is bound
/// to an action other than quitting.
pub proof fn quit_keys(k: KeyMap, ctrl: bool)
    ensures
        key_action(k, Key::Esc, ctrl) == Action::Quit,
        'c' != k.next_tab && 'c' != k.prev_tab && 'c' != k.down && 'c' != k.up && 'c' != k.top
            && 'c' != k.bottom && 'c' != k.refresh && 'c' != k.toggle_range ==> key_action(
            k,
            Key::Char('c'),
            true,
        ) == Action::Quit,
{
}

/// Every request of a refresh that succeeded replaces its data with what it
/// fetched, and every one that failed leaves the old data; the refresh time
/// becomes the reading taken after the requests.
pub proof fn refresh_takes_fetched_data(a: App, o: RefreshOutcome, status: String)
    ensures
        o.playing_now is Ok ==> refreshed(a, o, status).now_playing == o.playing_now->Ok_0,
        o.playing_now is Err ==> refreshed(a, o, status).now_playing == a.now_playing,
        o.recent is Ok ==> refreshed(a, o, status).recent == o.recent->Ok_0,
        o.recent is Err ==> refreshed(a, o, status).recent == a.recent,
        o.artists is Ok ==> refreshed(a, o, status).artists == o.artists->Ok_0,
        o.artists is Err ==> refreshed(a, o, status).artists == a.artists,
        o.tracks is Ok ==> refreshed(a, o, status).tracks == o.tracks->Ok_0,
        o.tracks is Err ==> refreshed(a, o, status).tracks == a.tracks,
        o.releases is Ok ==> refreshed(a, o, status).releases == o.releases->Ok_0,
        o.releases is Err ==> refreshed(a, o, status).releases == a.releases,
        o.total is Ok ==> refreshed(a, o, status).total == Some(o.total->Ok_0),
        o.total is Err ==> refreshed(a, o, status).total == a.total,
        refreshed(a, o, status).last_refresh == o.finished_at,
        refreshed(a, o, status).status == status,
{
}

/// Moving down goes one row down, and stays on the last row; moving up goes
/// one row up, and stays on the first. Only the highlight changes, and an
/// empty list is left as it is.
pub proof fn moves_step_one_row(a: App)
    requires
        a.list_count() <= usize::MAX,
    ensures
        moved_down(a) == (App { selected: moved_down(a).selected, ..a }),
        moved_up(a) == (App { selected: moved_up(a).selected, ..a }),
        a.list_count() == 0 ==> moved_down(a).selected == a.selected,
        a.selected + 1 < a.list_count() ==> moved_down(a).selected == a.selected + 1,
        a.list_count() > 0 && a.selected + 1 >= a.list_count() ==> moved_down(a).selected
            == a.list_count() - 1,
        a.selected > 0 ==> moved_up(a).selected == a.selected - 1,
        a.selected == 0 ==> moved_up(a).selected == 0,
{
}

/// The page of a recording that ListenBrainz matched; where it matched none,
/// the page of the recording that the listen's client gave; where neither
/// is known, no page.
pub proof fn recording_page_sources(l: Listen)
    ensures
        ({
            let md = l.track_metadata;
            let matched = md.mbid_mapping is Some && md.mbid_mapping->0.recording_mbid is Some;
            let sent = md.additional_info is Some && md.additional_info->0.recording_mbid is Some;
            &&& matched ==> recording_url(l) == Some(
                "https://musicbrainz.org/recording/"@ + md.mbid_mapping->0.recording_mbid->0@,
            )
            &&& !matched && sent ==> recording_url(l) == Some(
                "https://musicbrainz.org/recording/"@ + md.additional_info->0.recording_mbid->0@,
            )
            &&& !matched && !sent ==> recording_url(l) is None
        }),
{
    reveal_strlit("https://musicbrainz.org/");
    reveal_strlit("recording");
    reveal_strlit("/");
    reveal_strlit("https://musicbrainz.org/recording/");
    match listen_mbid(l) {
        Some(x) => {
            assert(musicbrainz_url("recording"@, x) =~= "https://musicbrainz.org/recording/"@ + x);
        },
        None => {},
    }
}

/// The previous-tab action shows the tab to the left of the current one and
/// the next-tab action the one to its right (wrapping around), each from its
/// first row, with nothing else changed and no outside work.
pub proof fn tab_actions_move_sideways(a: App, act: Action, b: App, e: Effect)
    requires
        performed(a, act, b, e),
        act == Action::PrevTab || act == Action::NextTab,
    ensures
        b == (App { tab: b.tab, selected: 0, ..a }),
        e is Nothing,
        act == Action::PrevTab ==> (tab_index(b.tab) + 1) % 4 == tab_index(a.tab),
        act == Action::NextTab ==> tab_index(b.tab) == (tab_index(a.tab) + 1) % 4,
{
}

/// Left always asks for the previous tab and Right for the next; a
/// character asks for the previous tab when it is bound to that and not to
/// quitting or to the next tab, which come first.
pub proof fn tab_keys(k: KeyMap, c: char, ctrl: bool)
    ensures
        key_action(k, Key::Left, ctrl) == Action::PrevTab,
        key_action(k, Key::Right, ctrl) == Action::NextTab,
        c == k.prev_tab && c != k.quit && c != k.next_tab ==> key_action(k, Key::Char(c), ctrl)
            == Action::PrevTab,
        c == k.next_tab && c != k.quit ==> key_action(k, Key::Char(c), ctrl) == Action::NextTab,
{
}

/// The status line after a refresh names the last failed request among
/// playing-now, listens, artists, tracks and releases, with its message;
/// with none failed it reads `ok (range)`, whether or not the total failed.
pub proof fn refresh_status_names_last_failure(o: RefreshOutcome, range: Range)
    ensures
        o.releases is Err ==> refresh_status(o, range) == "releases: "@ + o.releases->Err_0@,
        o.releases is Ok && o.tracks is Err ==> refresh_status(o, range) == "tracks: "@
            + o.tracks->Err_0@,
        o.releases is Ok && o.tracks is Ok && o.artists is Err ==> refresh_status(o, range)
            == "artists: "@ + o.artists->Err_0@,
        o.releases is Ok && o.tracks is Ok && o.artists is Ok && o.recent is Err ==> refresh_status(
            o,
            range,
        ) == "listens: "@ + o.recent->Err_0@,
        o.releases is Ok && o.tracks is Ok && o.artists is Ok && o.recent is Ok && o.playing_now is Err
            ==> refresh_status(o, range) == "playing-now: "@ + o.playing_now->Err_0@,
{
    reveal_strlit(": ");
    reveal_strlit("releases");
    reveal_strlit("tracks");
    reveal_strlit("artists");
    reveal_strlit("listens");
    reveal_strlit("playing-now");
    reveal_strlit("releases: ");
    reveal_strlit("tracks: ");
    reveal_strlit("artists: ");
    reveal_strlit("listens: ");
    reveal_strlit("playing-now: ");
    assert("releases"@ + ": "@ =~= "releases: "@);
    assert("tracks"@ + ": "@ =~= "tracks: "@);
    assert("artists"@ + ": "@ =~= "artists: "@);
    assert("listens"@ + ": "@ =~= "listens: "@);
    assert("playing-now"@ + ": "@ =~= "playing-now: "@);
}

/// Jumping to the top highlights the first row and jumping to the bottom
/// the last row (the first of an empty list); only the highlight changes.
pub proof fn jumps_reach_the_ends(a: App)
    requires
        a.list_count() <= usize::MAX,
    ensures
        at_top(a) == (App { selected: 0, ..a }),
        at_bottom(a) == (App { selected: at_bottom(a).selected, ..a }),
        a.list_count() > 0 ==> at_bottom(a).selected == a.list_count() - 1,
        a.list_count() == 0 ==> at_bottom(a).selected == 0,
{
}

/// The highlighted row of each tab links to its MusicBrainz page: a listen
/// to its recording, a top track to its recording, a top artist to the
/// artist and a top release to the release; a row without an identifier,
/// or a highlight past the end of the list, links nowhere.
pub proof fn selected_rows_link_to_their_pages(a: App)
    ensures
        a.tab == Tab::Recent && a.selected < a.recent@.len() ==> selected_page(a) == recording_url(
            a.recent@[a.selected as int],
        ),
        a.tab == Tab::Tracks && a.selected < a.tracks@.len() && a.tracks@[a.selected as int].recording_mbid is Some
            ==> selected_page(a) == Some(
            "https://musicbrainz.org/recording/"@ + a.tracks@[a.selected as int].recording_mbid->0@,
        ),
        a.tab == Tab::Artists && a.selected < a.artists@.len() && a.artists@[a.selected as int].artist_mbid is Some
            ==> selected_page(a) == Some(
            "https://musicbrainz.org/artist/"@ + a.artists@[a.selected as int].artist_mbid->0@,
        ),
        a.tab == Tab::Releases && a.selected < a.releases@.len() && a.releases@[a.selected as int].release_mbid is Some
            ==> selected_page(a) == Some(
            "https://musicbrainz.org/release/"@ + a.releases@[a.selected as int].release_mbid->0@,
        ),
        a.tab == Tab::Tracks && a.selected < a.tracks@.len() && a.tracks@[a.selected as int].recording_mbid is None
            ==> selected_page(a) is None,
        a.tab == Tab::Artists && a.selected < a.artists@.len() && a.artists@[a.selected as int].artist_mbid is None
            ==> selected_page(a) is None,
        a.tab == Tab::Releases && a.selected < a.releases@.len() && a.releases@[a.selected as int].release_mbid is None
            ==> selected_page(a) is None,
        a.selected >= a.list_count() ==> selected_page(a) is None,
{
    reveal_strlit("https://musicbrainz.org/");
    reveal_strlit("recording");
    reveal_strlit("artist");
    reveal_strlit("release");
    reveal_strlit("/");
    reveal_strlit("https://musicbrainz.org/recording/");
    reveal_strlit("https://musicbrainz.org/artist/");
    reveal_strlit("https://musicbrainz.org/release/");
    let i = a.selected as int;
    if a.tab == Tab::Tracks && i < a.tracks@.len() && a.tracks@[i].recording_mbid is Some {
        let m = a.tracks@[i].recording_mbid->0@;
        assert(musicbrainz_url("recording"@, m) =~= "https://musicbrainz.org/recording/"@ + m);
    }
    if a.tab == Tab::Artists && i < a.artists@.len() && a.artists@[i].artist_mbid is Some {
        let m = a.artists@[i].artist_mbid->0@;
        assert(musicbrainz_url("artist"@, m) =~= "https://musicbrainz.org/artist/"@ + m);
    }
    if a.tab == Tab::Releases && i < a.releases@.len() && a.releases@[i].release_mbid is Some {
        let m = a.releases@[i].release_mbid->0@;
        assert(musicbrainz_url("release"@, m) =~= "https://musicbrainz.org/release/"@ + m);
    }
}

} // verus!
