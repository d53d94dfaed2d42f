//! What is being watched, and the state that the tray shows.

use vstd::prelude::*;
use vstd::string::*;

use crate::clock::{Moment, Timestamp};
use crate::number;
use crate::number::{decimal_text, two_digit_text};
use crate::text;

verus! {

/// Media type of playback session.
#[derive(Clone, Copy, PartialEq, Eq, Structural, Debug)]
pub enum MediaType {
    /// An episode of a TV show.
    Episode,
    /// A movie.
    Movie,
    /// An episode of an anime.
    Anime,
    /// An anime movie.
    AnimeMovie,
}

/// Identifiers for a show/movie/anime.
#[derive(Debug)]
pub struct MediaIds {
    /// Number at Simkl.
    pub simkl: Option<u64>,
    /// Name in Simkl's links.
    pub slug: Option<String>,
    /// Number at TMDB.
    pub tmdb: Option<u64>,
    /// Identifier at IMDb.
    pub imdb: Option<String>,
    /// Identifier at MyAnimeList.
    pub mal: Option<String>,
}

/// [`MediaIds`] with its texts as character sequences.
pub ghost struct IdsView {
    /// Number at Simkl.
    pub simkl: Option<u64>,
    /// Name in Simkl's links.
    pub slug: Option<Seq<char>>,
    /// Number at TMDB.
    pub tmdb: Option<u64>,
    /// Identifier at IMDb.
    pub imdb: Option<Seq<char>>,
    /// Identifier at MyAnimeList.
    pub mal: Option<Seq<char>>,
}

impl View for MediaIds {
    type V = IdsView;

    open spec fn view(&self) -> IdsView {
        IdsView {
            simkl: self.simkl,
            slug: text::optional_text(self.slug),
            tmdb: self.tmdb,
            imdb: text::optional_text(self.imdb),
            mal: text::optional_text(self.mal),
        }
    }
}

impl Default for MediaIds {
    fn default() -> (ids: MediaIds)
        ensures
            ids@ == (IdsView { simkl: None, slug: None, tmdb: None, imdb: None, mal: None }),
    {
        MediaIds { simkl: None, slug: None, tmdb: None, imdb: None, mal: None }
    }
}

impl Clone for MediaIds {
    fn clone(&self) -> (copy: MediaIds)
        ensures
            copy@ == self@,
    {
        MediaIds {
            simkl: self.simkl,
            slug: self.slug.clone(),
            tmdb: self.tmdb,
            imdb: self.imdb.clone(),
            mal: self.mal.clone(),
        }
    }
}

/// A single playback session returned by /sync/playback, or a live "NOW WATCHING"
/// session scraped from the Simkl dashboard.
#[derive(Debug)]
pub struct PlaybackSession {
    /// Number of the session; 0 for a live one.
    pub id: u64,
    /// Percentage watched: the bits of a double-precision number, carried along unread.
    pub progress: u64,
    /// When playback paused.
    pub paused_at: Timestamp,
    /// What kind of thing is watched.
    pub media_type: MediaType,
    /// Title of the show, movie or anime.
    pub title: String,
    /// Year of release.
    pub year: Option<u32>,
    /// Identifiers of the show, movie or anime.
    pub ids: MediaIds,
    /// Season number.
    pub season: Option<u32>,
    /// Episode number.
    pub episode: Option<u32>,
    /// Title of the episode.
    pub episode_title: Option<String>,
    /// For anime: "tv", "movie", etc.
    pub anime_type: Option<String>,
    /// Unix timestamp (seconds) when playback actually started.
    /// `Some(ts)` means this is a live "NOW WATCHING" session.
    /// `None` means it is a paused/stopped session from /sync/playback.
    pub live_start: Option<i64>,
    /// Total runtime in minutes (set for live sessions).
    pub runtime_mins: Option<u64>,
}

/// [`PlaybackSession`] with its texts as character sequences.
pub ghost struct SessionView {
    /// Number of the session.
    pub id: u64,
    /// Percentage watched, as bits.
    pub progress: u64,
    /// When playback paused.
    pub paused_at: Moment,
    /// What kind of thing is watched.
    pub media_type: MediaType,
    /// Title of the show, movie or anime.
    pub title: Seq<char>,
    /// Year of release.
    pub year: Option<u32>,
    /// Identifiers of the show, movie or anime.
    pub ids: IdsView,
    /// Season number.
    pub season: Option<u32>,
    /// Episode number.
    pub episode: Option<u32>,
    /// Title of the episode.
    pub episode_title: Option<Seq<char>>,
    /// For anime: "tv", "movie", etc.
    pub anime_type: Option<Seq<char>>,
    /// When playback started, for a live session.
    pub live_start: Option<i64>,
    /// Total runtime in minutes.
    pub runtime_mins: Option<u64>,
}

impl View for PlaybackSession {
    type V = SessionView;

    open spec fn view(&self) -> SessionView {
        SessionView {
            id: self.id,
            progress: self.progress,
            paused_at: self.paused_at@,
            media_type: self.media_type,
            title: self.title@,
            year: self.year,
            ids: self.ids@,
            season: self.season,
            episode: self.episode,
            episode_title: text::optional_text(self.episode_title),
            anime_type: text::optional_text(self.anime_type),
            live_start: self.live_start,
            runtime_mins: self.runtime_mins,
        }
    }
}

impl Clone for PlaybackSession {
    fn clone(&self) -> (copy: PlaybackSession)
        ensures
            copy@ == self@,
    {
        PlaybackSession {
            id: self.id,
            progress: self.progress,
            paused_at: self.paused_at,
            media_type: self.media_type,
            title: self.title.clone(),
            year: self.year,
            ids: self.ids.clone(),
            season: self.season,
            episode: self.episode,
            episode_title: self.episode_title.clone(),
            anime_type: self.anime_type.clone(),
            live_start: self.live_start,
            runtime_mins: self.runtime_mins,
        }
    }
}

/// The path segment of Simkl's pages for a media type.
pub open spec fn page_segment(media_type: MediaType) -> Seq<char> {
    match media_type {
        MediaType::Episode => "tv"@,
        MediaType::Movie => "movies"@,
        MediaType::Anime | MediaType::AnimeMovie => "anime"@,
    }
}

/// The path segment of Simkl's pages for a media type.
pub fn segment_for(media_type: MediaType) -> (segment: &'static str)
    ensures
        segment@ == page_segment(media_type),
{
    match media_type {
        MediaType::Episode => "tv",
        MediaType::Movie => "movies",
        MediaType::Anime | MediaType::AnimeMovie => "anime",
    }
}

impl SessionView {
    /// Whether the session goes by seasons and episodes.
    pub open spec fn episodic(self) -> bool {
        self.media_type == MediaType::Episode || self.media_type == MediaType::Anime
    }

    /// Label for the tray: the title, marked if the session is live, with the episode
    /// code or the year where known.
    pub open spec fn label(self) -> Seq<char> {
        let mark = if self.live_start is Some {
            "▶ "@
        } else {
            ""@
        };
        if self.episodic() {
            match (self.season, self.episode) {
                (Some(s), Some(e)) => mark + self.title + " S"@ + number::two_digits(s as nat) + "E"@
                    + number::two_digits(e as nat),
                _ => mark + self.title,
            }
        } else {
            match self.year {
                Some(y) => mark + self.title + " ("@ + number::decimal(y as nat) + ")"@,
                None => mark + self.title,
            }
        }
    }

    /// Simkl page of the episode where season and episode are known, else of the title.
    pub open spec fn simkl_page(self) -> Option<Seq<char>> {
        match (self.ids.slug, self.ids.simkl) {
            (Some(slug), Some(id)) => {
                let root = "https://simkl.com/"@ + page_segment(self.media_type) + "/"@
                    + number::decimal(id as nat) + "/"@ + slug + "/"@;
                if self.episodic() {
                    match (self.season, self.episode) {
                        (Some(s), Some(e)) => Some(
                            root + "season-"@ + number::decimal(s as nat) + "/episode-"@
                                + number::decimal(e as nat) + "/"@,
                        ),
                        _ => Some(root),
                    }
                } else {
                    Some(root)
                }
            },
            _ => None,
        }
    }

    /// IMDb page.
    pub open spec fn imdb_page(self) -> Option<Seq<char>> {
        match self.ids.imdb {
            Some(imdb) => Some("https://www.imdb.com/title/"@ + imdb + "/"@),
            None => None,
        }
    }

    /// MyAnimeList page.
    pub open spec fn mal_page(self) -> Option<Seq<char>> {
        match self.ids.mal {
            Some(mal) => Some("https://myanimelist.net/anime/"@ + mal),
            None => None,
        }
    }

    /// Estimated runtime in seconds.
    pub open spec fn runtime_secs(self) -> nat {
        match self.media_type {
            MediaType::Episode => 45 * 60,
            MediaType::Anime => 25 * 60,
            MediaType::Movie | MediaType::AnimeMovie => 110 * 60,
        }
    }
}

impl PlaybackSession {
    /// Returns true if this is a live "NOW WATCHING" session.
    pub fn is_live(&self) -> (live: bool)
        ensures
            live == (self@.live_start is Some),
    {
        self.live_start.is_some()
    }

    /// Human-readable label for tray tooltip.
    pub fn display_label(&self) -> (label: String)
        ensures
            label@ == self@.label(),
    {
        let mut label = if self.is_live() {
            "▶ ".to_owned()
        } else {
            "".to_owned()
        };
        label.append(self.title.as_str());
        match self.media_type {
            MediaType::Episode | MediaType::Anime => {
                if let (Some(s), Some(e)) = (self.season, self.episode) {
                    label.append(" S");
                    label.append(two_digit_text(s).as_str());
                    label.append("E");
                    label.append(two_digit_text(e).as_str());
                }
            },
            MediaType::Movie | MediaType::AnimeMovie => {
                if let Some(y) = self.year {
                    label.append(" (");
                    label.append(decimal_text(y as u64).as_str());
                    label.append(")");
                }
            },
        }
        label
    }

    /// Simkl page URL.
    ///
    /// For episodes/anime with known season+episode, links directly to that
    /// episode page (`/tv/{id}/{slug}/season-{s}/episode-{e}/`).
    /// Falls back to the show root page otherwise.
    pub fn simkl_url(&self) -> (url: Option<String>)
        ensures
            text::optional_text(url) == self@.simkl_page(),
    {
        match (&self.ids.slug, self.ids.simkl) {
            (Some(slug), Some(id)) => {
                let mut url = "https://simkl.com/".to_owned();
                url.append(segment_for(self.media_type));
                url.append("/");
                url.append(decimal_text(id).as_str());
                url.append("/");
                url.append(slug.as_str());
                url.append("/");
                match self.media_type {
                    MediaType::Episode | MediaType::Anime => {
                        if let (Some(s), Some(e)) = (self.season, self.episode) {
                            url.append("season-");
                            url.append(decimal_text(s as u64).as_str());
                            url.append("/episode-");
                            url.append(decimal_text(e as u64).as_str());
                            url.append("/");
                        }
                    },
                    MediaType::Movie | MediaType::AnimeMovie => {},
                }
                Some(url)
            },
            _ => None,
        }
    }

    /// IMDb URL.
    pub fn imdb_url(&self) -> (url: Option<String>)
        ensures
            text::optional_text(url) == self@.imdb_page(),
    {
        match &self.ids.imdb {
            Some(imdb) => {
                let mut url = "https://www.imdb.com/title/".to_owned();
                url.append(imdb.as_str());
                url.append("/");
                Some(url)
            },
            None => None,
        }
    }

    /// MyAnimeList URL (anime only).
    pub fn mal_url(&self) -> (url: Option<String>)
        ensures
            text::optional_text(url) == self@.mal_page(),
    {
        match &self.ids.mal {
            Some(mal) => {
                let mut url = "https://myanimelist.net/anime/".to_owned();
                url.append(mal.as_str());
                Some(url)
            },
            None => None,
        }
    }

    /// Estimated runtime in seconds (for timestamp calculation).
    pub fn estimated_runtime_secs(&self) -> (secs: i64)
        ensures
            secs == self@.runtime_secs(),
    {
        match self.media_type {
            MediaType::Episode => 45 * 60,
            MediaType::Anime => 25 * 60,
            MediaType::Movie | MediaType::AnimeMovie => 110 * 60,
        }
    }
}

/// Application state that the polling loop and the tray share.
#[derive(Debug)]
pub struct AppState {
    /// What is shown as being watched.
    pub current_session: Option<PlaybackSession>,
    /// Whether the user has paused polling.
    pub is_paused: bool,
    /// Whether Discord is connected.
    pub discord_connected: bool,
}

/// [`AppState`] with the view of its session.
pub ghost struct AppView {
    /// What is shown as being watched.
    pub session: Option<SessionView>,
    /// Whether the user has paused polling.
    pub is_paused: bool,
    /// Whether Discord is connected.
    pub discord_connected: bool,
}

/// The view of a session that may be absent.
pub open spec fn optional_session(session: Option<PlaybackSession>) -> Option<SessionView> {
    match session {
        Some(s) => Some(s@),
        None => None,
    }
}

impl View for AppState {
    type V = AppView;

    open spec fn view(&self) -> AppView {
        AppView {
            session: optional_session(self.current_session),
            is_paused: self.is_paused,
            discord_connected: self.discord_connected,
        }
    }
}

impl Default for AppState {
    fn default() -> (state: AppState)
        ensures
            state@ == (AppView { session: None, is_paused: false, discord_connected: false }),
    {
        AppState { current_session: None, is_paused: false, discord_connected: false }
    }
}

impl AppView {
    /// Text shown as the tray tooltip.
    pub open spec fn status(self) -> Seq<char> {
        if self.is_paused {
            "dissimkl — Paused"@
        } else {
            match self.session {
                Some(session) => "dissimkl — "@ + session.label(),
                None => "dissimkl — Nothing playing"@,
            }
        }
    }
}

impl AppState {
    /// The state at startup: nothing watched, not paused, not connected.
    pub fn new() -> (state: AppState)
        ensures
            state@ == (AppView { session: None, is_paused: false, discord_connected: false }),
    {
        AppState::default()
    }

    /// Notes what is watched, and whether Discord is connected.
    pub fn watch(&mut self, session: PlaybackSession, discord_connected: bool)
        ensures
            final(self)@ == (AppView {
                session: Some(session@),
                discord_connected,
                ..old(self)@
            }),
    {
        self.current_session = Some(session);
        self.discord_connected = discord_connected;
    }

    /// Notes that nothing is watched.
    pub fn idle(&mut self)
        ensures
            final(self)@ == (AppView { session: None, ..old(self)@ }),
    {
        self.current_session = None;
    }

    /// Pauses polling, or resumes it.
    pub fn toggle_pause(&mut self)
        ensures
            final(self)@ == (AppView { is_paused: !old(self)@.is_paused, ..old(self)@ }),
    {
        self.is_paused = !self.is_paused;
    }

    /// Text shown as the tray tooltip.
    pub fn status_text(&self) -> (status: String)
        ensures
            status@ == self@.status(),
    {
        if self.is_paused {
            return "dissimkl — Paused".to_owned();
        }
        match &self.current_session {
            Some(session) => {
                let mut status = "dissimkl — ".to_owned();
                status.append(session.display_label().as_str());
                status
            },
            None => "dissimkl — Nothing playing".to_owned(),
        }
    }
}

// ---------------------------------------------------------------------------
// Laws
// ---------------------------------------------------------------------------
/// The label of a session is its title, behind a mark if it is live. Episodes, of shows and of
/// anime, have their code behind it where season and number are known, and movies, anime
/// movies too, have their year.
pub proof fn law_label_tells_what_is_watched(session: PlaybackSession, label: String)
    requires
        call_ensures(PlaybackSession::display_label, (&session,), label),
    ensures
        ({
            let start = if session.live_start is Some {
                "▶ "@ + session.title@
            } else {
                session.title@
            };
            let episode = session.media_type == MediaType::Episode || session.media_type
                == MediaType::Anime;
            let numbered = session.season is Some && session.episode is Some;
            &&& episode && numbered ==> label@ == start + " S"@ + number::two_digits(
                session.season->0 as nat,
            ) + "E"@ + number::two_digits(session.episode->0 as nat)
            &&& episode && !numbered ==> label@ == start
            &&& !episode && session.year is Some ==> label@ == start + " ("@ + number::decimal(
                session.year->0 as nat,
            ) + ")"@
            &&& !episode && session.year is None ==> label@ == start
        }),
{
    reveal_strlit("");
    assert(""@ + session.title@ == session.title@);
}

/// A session whose name and number at Simkl are known links to its page there, under `tv`,
/// `movies` or `anime`: to that of the episode where season and number of one are known, and
/// else to that of the title. Any other session links to none.
pub proof fn law_link_to_simkl(session: PlaybackSession, url: Option<String>)
    requires
        call_ensures(PlaybackSession::simkl_url, (&session,), url),
    ensures
        url is Some <==> session.ids.slug is Some && session.ids.simkl is Some,
        url is Some ==> ({
            let page = number::decimal(session.ids.simkl->0 as nat) + "/"@ + session.ids.slug->0@
                + "/"@;
            let numbered = session.season is Some && session.episode is Some;
            let to_episode = "season-"@ + number::decimal(session.season->0 as nat) + "/episode-"@
                + number::decimal(session.episode->0 as nat) + "/"@;
            &&& session.media_type == MediaType::Episode && numbered ==> url->0@
                == "https://simkl.com/tv/"@ + page + to_episode
            &&& session.media_type == MediaType::Episode && !numbered ==> url->0@
                == "https://simkl.com/tv/"@ + page
            &&& session.media_type == MediaType::Anime && numbered ==> url->0@
                == "https://simkl.com/anime/"@ + page + to_episode
            &&& session.media_type == MediaType::Anime && !numbered ==> url->0@
                == "https://simkl.com/anime/"@ + page
            &&& session.media_type == MediaType::Movie ==> url->0@ == "https://simkl.com/movies/"@
                + page
            &&& session.media_type == MediaType::AnimeMovie ==> url->0@
                == "https://simkl.com/anime/"@ + page
        }),
{
    lemma_page_starts();
    if url is Some {
        let segment = page_segment(session.media_type);
        let host = "https://simkl.com/"@;
        let slash = "/"@;
        let id = number::decimal(session.ids.simkl->0 as nat);
        let slug = session.ids.slug->0@;
        let page = id + slash + slug + slash;
        let root = host + segment + slash + id + slash + slug + slash;
        assert(root == host + segment + slash + page);
        if session.season is Some && session.episode is Some {
            let season = number::decimal(session.season->0 as nat);
            let episode = number::decimal(session.episode->0 as nat);
            assert(root + "season-"@ + season + "/episode-"@ + episode + slash == root + (
            "season-"@ + season + "/episode-"@ + episode + slash));
        }
    }
}

/// How the addresses of pages at Simkl begin.
proof fn lemma_page_starts()
    ensures
        "https://simkl.com/tv/"@ == "https://simkl.com/"@ + "tv"@ + "/"@,
        "https://simkl.com/anime/"@ == "https://simkl.com/"@ + "anime"@ + "/"@,
        "https://simkl.com/movies/"@ == "https://simkl.com/"@ + "movies"@ + "/"@,
{
    reveal_strlit("https://simkl.com/");
    reveal_strlit("/");
    assert("https://simkl.com/tv/"@ == "https://simkl.com/"@ + "tv"@ + "/"@) by {
        reveal_strlit("https://simkl.com/tv/");
        reveal_strlit("tv");
    }
    assert("https://simkl.com/anime/"@ == "https://simkl.com/"@ + "anime"@ + "/"@) by {
        reveal_strlit("https://simkl.com/anime/");
        reveal_strlit("anime");
    }
    assert("https://simkl.com/movies/"@ == "https://simkl.com/"@ + "movies"@ + "/"@) by {
        reveal_strlit("https://simkl.com/movies/");
        reveal_strlit("movies");
    }
}

/// A session links to IMDb and to MyAnimeList if, and only if, its identifier there is known,
/// and then to the page with that identifier.
pub proof fn law_links_elsewhere(
    session: PlaybackSession,
    imdb: Option<String>,
    mal: Option<String>,
)
    requires
        call_ensures(PlaybackSession::imdb_url, (&session,), imdb),
        call_ensures(PlaybackSession::mal_url, (&session,), mal),
    ensures
        imdb is Some <==> session.ids.imdb is Some,
        imdb is Some ==> imdb->0@ == "https://www.imdb.com/title/"@ + session.ids.imdb->0@ + "/"@,
        mal is Some <==> session.ids.mal is Some,
        mal is Some ==> mal->0@ == "https://myanimelist.net/anime/"@ + session.ids.mal->0@,
{
}

/// An episode of a show is taken to last 45 minutes, one of an anime 25, and a movie of
/// either kind 110. A session is live if, and only if, its start is known.
pub proof fn law_runtimes_and_liveness(session: PlaybackSession, secs: i64, live: bool)
    requires
        call_ensures(PlaybackSession::estimated_runtime_secs, (&session,), secs),
        call_ensures(PlaybackSession::is_live, (&session,), live),
    ensures
        session.media_type == MediaType::Episode ==> secs == 2_700,
        session.media_type == MediaType::Anime ==> secs == 1_500,
        session.media_type == MediaType::Movie ==> secs == 6_600,
        session.media_type == MediaType::AnimeMovie ==> secs == 6_600,
        live <==> session.live_start is Some,
{
}

/// Simkl's pages and the titles asked about go by `tv`, `movies` and `anime`; anime movies go
/// by the last.
pub proof fn law_path_goes_by_the_kind(media_type: MediaType, segment: &'static str)
    requires
        call_ensures(segment_for, (media_type,), segment),
    ensures
        media_type == MediaType::Episode ==> segment@ == "tv"@,
        media_type == MediaType::Movie ==> segment@ == "movies"@,
        media_type == MediaType::Anime ==> segment@ == "anime"@,
        media_type == MediaType::AnimeMovie ==> segment@ == "anime"@,
{
}

/// The tooltip tells that polling is paused, whatever is watched; else what is watched, or
/// that nothing is.
pub proof fn law_tooltip_tells_the_status(
    state: AppState,
    status: String,
    session: PlaybackSession,
    label: String,
)
    requires
        call_ensures(AppState::status_text, (&state,), status),
        call_ensures(PlaybackSession::display_label, (&session,), label),
    ensures
        state.is_paused ==> status@ == "dissimkl — Paused"@,
        !state.is_paused && state.current_session == Some(session) ==> status@ == "dissimkl — "@
            + label@,
        !state.is_paused && state.current_session is None ==> status@
            == "dissimkl — Nothing playing"@,
{
}

/// At startup nothing is watched, polling is not paused, and Discord is not connected.
pub proof fn law_state_at_startup(state: AppState)
    requires
        call_ensures(AppState::new, (), state),
    ensures
        state@.session is None,
        !state@.is_paused,
        !state@.discord_connected,
{
}

/// Noting what is watched changes that and the connection; noting that nothing is watched
/// changes only that; pausing changes only whether polling is paused.
pub proof fn law_changes_of_the_state(
    watching: &mut AppState,
    idle: &mut AppState,
    toggled: &mut AppState,
    session: PlaybackSession,
    connected: bool,
)
    requires
        call_ensures(AppState::watch, (watching, session, connected), ()),
        call_ensures(AppState::idle, (idle,), ()),
        call_ensures(AppState::toggle_pause, (toggled,), ()),
    ensures
        final(watching)@.session == Some(session@),
        final(watching)@.discord_connected == connected,
        final(watching)@.is_paused == old(watching)@.is_paused,
        final(idle)@.session is None,
        final(idle)@.discord_connected == old(idle)@.discord_connected,
        final(idle)@.is_paused == old(idle)@.is_paused,
        final(toggled)@.is_paused == !old(toggled)@.is_paused,
        final(toggled)@.session == old(toggled)@.session,
        final(toggled)@.discord_connected == old(toggled)@.discord_connected,
{
}

} // verus!
