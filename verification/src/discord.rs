//! What Discord shows, and when it has to be told.

use vstd::prelude::*;
use vstd::string::*;

use crate::number;
use crate::number::{decimal_text, two_digit_text};
use crate::simkl;
use crate::state::{MediaType, PlaybackSession, SessionView};
use crate::text;
use crate::text::same_text;

verus! {

// ---------------------------------------------------------------------------
// Activity string construction
// ---------------------------------------------------------------------------
/// The name of a media type.
pub open spec fn category(media_type: MediaType) -> Seq<char> {
    match media_type {
        MediaType::Episode => "TV Show"@,
        MediaType::Movie => "Movie"@,
        MediaType::Anime => "Anime"@,
        MediaType::AnimeMovie => "Anime Movie"@,
    }
}

/// The `details` line: media category label + title (+ year if known).
pub open spec fn details_line(session: SessionView) -> Seq<char> {
    let title = category(session.media_type) + " • "@ + session.title;
    match session.year {
        Some(y) => title + " ("@ + number::decimal(y as nat) + ")"@,
        None => title,
    }
}

/// Returns the `details` line: media category label + title (+ year if known).
///
/// Discord shows this as the bold first line under the app name.
/// e.g. "TV Show • Star Trek: The Next Generation (1987)"
pub fn build_details(session: &PlaybackSession) -> (details: String)
    ensures
        details@ == details_line(session@),
{
    let mut details = match session.media_type {
        MediaType::Episode => "TV Show".to_owned(),
        MediaType::Movie => "Movie".to_owned(),
        MediaType::Anime => "Anime".to_owned(),
        MediaType::AnimeMovie => "Anime Movie".to_owned(),
    };
    details.append(" • ");
    details.append(session.title.as_str());
    if let Some(y) = session.year {
        details.append(" (");
        details.append(decimal_text(y as u64).as_str());
        details.append(")");
    }
    details
}

/// The `state` line of an episode: its code, and its title if that is known.
pub open spec fn episode_line(
    season: Option<u32>,
    episode: Option<u32>,
    title: Option<Seq<char>>,
) -> Seq<char> {
    match (season, episode) {
        (Some(s), Some(e)) => {
            let code = "S"@ + number::two_digits(s as nat) + "E"@ + number::two_digits(e as nat);
            match title {
                Some(t) => if t.len() > 0 {
                    code + " • "@ + t
                } else {
                    code
                },
                None => code,
            }
        },
        _ => "Episode"@,
    }
}

/// Returns the `state` line of an episode: its code, and its title if that is known.
pub fn build_episode_state(
    season: Option<u32>,
    episode: Option<u32>,
    ep_title: Option<&str>,
) -> (line: String)
    ensures
        line@ == episode_line(season, episode, text::optional_str(ep_title)),
{
    match (season, episode) {
        (Some(s), Some(e)) => {
            let mut line = "S".to_owned();
            line.append(two_digit_text(s).as_str());
            line.append("E");
            line.append(two_digit_text(e).as_str());
            if let Some(t) = ep_title {
                if !t.is_empty() {
                    line.append(" • ");
                    line.append(t);
                }
            }
            line
        },
        _ => "Episode".to_owned(),
    }
}

/// How far a paused session has come.
#[derive(Debug)]
pub struct Watched {
    /// The seconds watched.
    pub secs: i64,
    /// The percentage watched, rounded, in decimal.
    pub percent: String,
}

/// The `state` line: episode code + title (or progress for movies).
pub open spec fn state_line(session: SessionView, percent: Seq<char>) -> Seq<char> {
    if session.episodic() {
        episode_line(session.season, session.episode, session.episode_title)
    } else if session.live_start is Some {
        "Watching now"@
    } else {
        percent + "% watched"@
    }
}

/// Returns the `state` line: episode code + title (or progress for movies).
///
/// Discord shows this as the smaller second line.
/// e.g. "S01E16 • Too Short a Season"
pub fn build_state(session: &PlaybackSession, percent: &str) -> (line: String)
    ensures
        line@ == state_line(session@, percent@),
{
    match session.media_type {
        MediaType::Episode | MediaType::Anime => build_episode_state(
            session.season,
            session.episode,
            text::borrow_text(&session.episode_title),
        ),
        MediaType::Movie | MediaType::AnimeMovie => {
            if session.is_live() {
                "Watching now".to_owned()
            } else {
                let mut line = percent.to_owned();
                line.append("% watched");
                line
            }
        },
    }
}

// ---------------------------------------------------------------------------
// Timestamps
// ---------------------------------------------------------------------------
/// When the session started. A live one tells; for a paused one the time watched is
/// subtracted from the moment of the pause.
pub open spec fn start_time(session: SessionView, watched_secs: int) -> int {
    match session.live_start {
        Some(start) => start as int,
        None => session.paused_at.secs - watched_secs,
    }
}

/// When a live session with a known runtime ends.
pub open spec fn end_time(session: SessionView) -> Option<int> {
    match (session.live_start, session.runtime_mins) {
        (Some(start), Some(runtime)) => Some(start + runtime * 60),
        _ => None,
    }
}

/// Whether a number fits in an `i64`.
pub open spec fn fits_i64(n: int) -> bool {
    i64::MIN <= n <= i64::MAX
}

/// Whether the times of a session can be told in 64 bits.
pub open spec fn times_fit(session: SessionView, watched_secs: int) -> bool {
    &&& fits_i64(start_time(session, watched_secs))
    &&& end_time(session) matches Some(end) ==> fits_i64(end)
}

/// The time `runtime_mins` minutes after `start`.
fn time_after(start: i64, runtime_mins: u64) -> (end: i128)
    ensures
        end == start + runtime_mins * 60,
{
    start as i128 + runtime_mins as i128 * 60
}

/// Whether the times of a session can be told in 64 bits.
pub fn timestamps_fit(session: &PlaybackSession, watched_secs: i64) -> (fit: bool)
    ensures
        fit == times_fit(session@, watched_secs as int),
{
    let least: i128 = i64::MIN as i128;
    let most: i128 = i64::MAX as i128;
    match session.live_start {
        Some(start) => match session.runtime_mins {
            Some(runtime) => {
                let end: i128 = time_after(start, runtime);
                least <= end && end <= most
            },
            None => true,
        },
        None => {
            let start: i128 = session.paused_at.secs() as i128 - watched_secs as i128;
            least <= start && start <= most
        },
    }
}

// ---------------------------------------------------------------------------
// Presence
// ---------------------------------------------------------------------------
/// All that Discord renders.
#[derive(Debug)]
pub struct Presence {
    /// First line.
    pub details: String,
    /// Second line.
    pub state: String,
    /// Poster.
    pub large_image: String,
    /// Text on the poster.
    pub large_text: String,
    /// Badge on the poster.
    pub small_image: String,
    /// Text on the badge.
    pub small_text: String,
    /// When playback started.
    pub start: i64,
    /// When playback ends.
    pub end: Option<i64>,
    /// Labels and addresses of the buttons.
    pub buttons: Vec<(String, String)>,
}

/// [`Presence`] with its texts as character sequences.
pub ghost struct PresenceView {
    /// First line.
    pub details: Seq<char>,
    /// Second line.
    pub state: Seq<char>,
    /// Poster.
    pub large_image: Seq<char>,
    /// Text on the poster.
    pub large_text: Seq<char>,
    /// Badge on the poster.
    pub small_image: Seq<char>,
    /// Text on the badge.
    pub small_text: Seq<char>,
    /// When playback started.
    pub start: int,
    /// When playback ends.
    pub end: Option<int>,
    /// Labels and addresses of the buttons.
    pub buttons: Seq<(Seq<char>, Seq<char>)>,
}

impl View for Presence {
    type V = PresenceView;

    open spec fn view(&self) -> PresenceView {
        PresenceView {
            details: self.details@,
            state: self.state@,
            large_image: self.large_image@,
            large_text: self.large_text@,
            small_image: self.small_image@,
            small_text: self.small_text@,
            start: self.start as int,
            end: (match self.end {
                Some(end) => Some(end as int),
                None => None,
            }),
            buttons: simkl::pair_texts(self.buttons@),
        }
    }
}

/// A button with this label, if there is an address.
pub open spec fn button(label: Seq<char>, url: Option<Seq<char>>) -> Seq<(Seq<char>, Seq<char>)> {
    match url {
        Some(u) => seq![(label, u)],
        None => Seq::empty(),
    }
}

/// The buttons of a session: its page at Simkl, and that at MyAnimeList for anime or else
/// that at IMDb.
pub open spec fn buttons_of(session: SessionView) -> Seq<(Seq<char>, Seq<char>)> {
    let first = button("View on Simkl"@, session.simkl_page());
    let anime = session.media_type == MediaType::Anime || session.media_type
        == MediaType::AnimeMovie;
    if anime && session.mal_page() is Some {
        first + button("View on MyAnimeList"@, session.mal_page())
    } else {
        first + button("View on IMDb"@, session.imdb_page())
    }
}

/// What Discord is to show for a session.
pub open spec fn presence_of(
    session: SessionView,
    poster_url: Option<Seq<char>>,
    watched_secs: int,
    percent: Seq<char>,
) -> PresenceView {
    PresenceView {
        details: details_line(session),
        state: state_line(session, percent),
        large_image: (match poster_url {
            Some(url) => url,
            None => "simkl"@,
        }),
        large_text: session.title,
        small_image: "simkl"@,
        small_text: "Simkl"@,
        start: start_time(session, watched_secs),
        end: end_time(session),
        buttons: buttons_of(session),
    }
}

/// The buttons of a session.
fn build_buttons(session: &PlaybackSession) -> (buttons: Vec<(String, String)>)
    ensures
        simkl::pair_texts(buttons@) == buttons_of(session@),
{
    let mut buttons: Vec<(String, String)> = Vec::new();
    assert(simkl::pair_texts(buttons@) == Seq::<(Seq<char>, Seq<char>)>::empty());
    if let Some(url) = session.simkl_url() {
        buttons.push(("View on Simkl".to_owned(), url));
    }
    let ghost first = simkl::pair_texts(buttons@);
    assert(first == button("View on Simkl"@, session@.simkl_page()));
    let anime = match session.media_type {
        MediaType::Anime | MediaType::AnimeMovie => true,
        MediaType::Episode | MediaType::Movie => false,
    };
    let mal = session.mal_url();
    let imdb = session.imdb_url();
    if anime && mal.is_some() {
        if let Some(url) = mal {
            buttons.push(("View on MyAnimeList".to_owned(), url));
            assert(simkl::pair_texts(buttons@) == first.push(("View on MyAnimeList"@, url@)));
        }
    } else if let Some(url) = imdb {
        buttons.push(("View on IMDb".to_owned(), url));
        assert(simkl::pair_texts(buttons@) == first.push(("View on IMDb"@, url@)));
    }
    assert(simkl::pair_texts(buttons@) == buttons_of(session@));
    buttons
}

/// What Discord is to show for a session.
pub fn build_presence(
    session: &PlaybackSession,
    poster_url: Option<&str>,
    watched: &Watched,
) -> (presence: Presence)
    requires
        times_fit(session@, watched.secs as int),
    ensures
        presence@ == presence_of(
            session@,
            text::optional_str(poster_url),
            watched.secs as int,
            watched.percent@,
        ),
{
    let (start, end): (i64, Option<i64>) = match session.live_start {
        Some(live_start) => {
            let end: Option<i64> = match session.runtime_mins {
                Some(runtime) => Some(time_after(live_start, runtime) as i64),
                None => None,
            };
            (live_start, end)
        },
        None => (session.paused_at.secs() - watched.secs, None),
    };
    let large_image = match poster_url {
        Some(url) => url.to_owned(),
        None => "simkl".to_owned(),
    };
    Presence {
        details: build_details(session),
        state: build_state(session, watched.percent.as_str()),
        large_image,
        large_text: session.title.clone(),
        small_image: "simkl".to_owned(),
        small_text: "Simkl".to_owned(),
        start,
        end,
        buttons: build_buttons(session),
    }
}

/// Whether two lists of buttons are the same.
fn same_buttons(a: &Vec<(String, String)>, b: &Vec<(String, String)>) -> (same: bool)
    ensures
        same == (simkl::pair_texts(a@) == simkl::pair_texts(b@)),
{
    if a.len() != b.len() {
        assert(simkl::pair_texts(a@).len() != simkl::pair_texts(b@).len());
        return false;
    }
    let mut i: usize = 0;
    while i < a.len()
        invariant
            i <= a@.len(),
            a@.len() == b@.len(),
            forall|k: int|
                0 <= k < i ==> simkl::pair_texts(a@)[k] == #[trigger] simkl::pair_texts(b@)[k],
        decreases a@.len() - i,
    {
        if !same_text(a[i].0.as_str(), b[i].0.as_str()) || !same_text(
            a[i].1.as_str(),
            b[i].1.as_str(),
        ) {
            assert(simkl::pair_texts(a@)[i as int] != simkl::pair_texts(b@)[i as int]);
            return false;
        }
        i = i + 1;
    }
    assert(simkl::pair_texts(a@) == simkl::pair_texts(b@));
    true
}

impl Presence {
    /// Whether Discord would render the same.
    pub fn same(&self, other: &Presence) -> (same: bool)
        ensures
            same == (self@ == other@),
    {
        let same_end = match (self.end, other.end) {
            (Some(a), Some(b)) => a == b,
            (None, None) => true,
            _ => false,
        };
        same_end && self.start == other.start && same_text(
            self.details.as_str(),
            other.details.as_str(),
        ) && same_text(self.state.as_str(), other.state.as_str()) && same_text(
            self.large_image.as_str(),
            other.large_image.as_str(),
        ) && same_text(self.large_text.as_str(), other.large_text.as_str()) && same_text(
            self.small_image.as_str(),
            other.small_image.as_str(),
        ) && same_text(self.small_text.as_str(), other.small_text.as_str()) && same_buttons(
            &self.buttons,
            &other.buttons,
        )
    }
}

// ---------------------------------------------------------------------------
// The connection to Discord
// ---------------------------------------------------------------------------
/// Manages a single Discord IPC connection and Rich Presence state.
#[derive(Debug)]
pub struct DiscordState {
    /// The Discord application ID currently connected (if any).
    current_app_id: Option<String>,
    /// The presence Discord last accepted, or `None` when the presence is cleared.
    /// Discord keeps a presence until it is changed, so re-sending an identical one every
    /// poll buys nothing and only feeds its rate limiter.
    last_activity: Option<Presence>,
}

/// [`DiscordState`] with its texts as character sequences.
pub ghost struct DiscordView {
    /// The Discord application ID currently connected (if any).
    pub app_id: Option<Seq<char>>,
    /// The presence Discord last accepted.
    pub last_activity: Option<PresenceView>,
}

impl View for DiscordState {
    type V = DiscordView;

    closed spec fn view(&self) -> DiscordView {
        DiscordView {
            app_id: text::optional_text(self.current_app_id),
            last_activity: (match self.last_activity {
                Some(presence) => Some(presence@),
                None => None,
            }),
        }
    }
}

impl DiscordView {
    /// Whether a presence is up only while there is a connection.
    pub open spec fn wf(self) -> bool {
        self.last_activity is Some ==> self.app_id is Some
    }

    /// Neither connected nor showing anything.
    pub open spec fn disconnected() -> DiscordView {
        DiscordView { app_id: None, last_activity: None }
    }

    /// Whether exactly this presence is up already.
    pub open spec fn shows(self, app_id: Seq<char>, presence: PresenceView) -> bool {
        self.app_id == Some(app_id) && self.last_activity == Some(presence)
    }

    /// Connected, with this presence up.
    pub open spec fn showing(app_id: Seq<char>, presence: PresenceView) -> DiscordView {
        DiscordView { app_id: Some(app_id), last_activity: Some(presence) }
    }
}

/// What went wrong with Discord.
#[derive(Debug)]
pub enum DiscordError {
    /// No connection came about.
    Connect(String),
    /// The presence was not accepted.
    SetActivity(String),
    /// The presence was not cleared.
    ClearActivity(String),
}

impl DiscordError {
    /// What to tell about it.
    pub open spec fn text(self) -> Seq<char> {
        match self {
            DiscordError::Connect(e) => "Connecting to Discord before set_watching: ensure_connected: Failed to connect to Discord IPC: "@
                + e@,
            DiscordError::SetActivity(e) => "set_activity failed: "@ + e@,
            DiscordError::ClearActivity(e) => "clear_activity failed: "@ + e@,
        }
    }

    /// What to tell about it.
    pub fn message(&self) -> (message: String)
        ensures
            message@ == self.text(),
    {
        let (start, reason) = match self {
            DiscordError::Connect(e) => (
                "Connecting to Discord before set_watching: ensure_connected: Failed to connect to Discord IPC: ",
                e,
            ),
            DiscordError::SetActivity(e) => ("set_activity failed: ", e),
            DiscordError::ClearActivity(e) => ("clear_activity failed: ", e),
        };
        let mut message = start.to_owned();
        message.append(reason.as_str());
        message
    }
}

/// Whether a connection for `app_id` was tried from `state`: one for it is kept, one for
/// another application is closed, and a new one is opened, with this outcome.
pub open spec fn connection_tried<C: FnOnce(&str) -> Result<(), String>, X: FnOnce()>(
    state: DiscordView,
    app_id: Seq<char>,
    connect: C,
    close_other: X,
    outcome: Result<(), String>,
) -> bool {
    if state.app_id == Some(app_id) {
        outcome is Ok
    } else {
        &&& state.app_id is Some ==> call_ensures(close_other, (), ())
        &&& exists|id: &str| id@ == app_id && #[trigger] call_ensures(connect, (id,), outcome)
    }
}

/// Whether `connect` and `close_other` may be called as far as a connection for `app_id`
/// needs it: not at all if it is there, else `connect` for that application, after
/// `close_other` if another one is connected. They need not allow any other call.
pub open spec fn may_connect<C: FnOnce(&str) -> Result<(), String>, X: FnOnce()>(
    state: DiscordView,
    app_id: Seq<char>,
    connect: C,
    close_other: X,
) -> bool {
    state.app_id != Some(app_id) ==> {
        &&& state.app_id is Some ==> call_requires(close_other, ())
        &&& (state.app_id is Some ==> call_ensures(close_other, (), ())) ==> forall|id: &str|
            id@ == app_id ==> #[trigger] call_requires(connect, (id,))
    }
}

/// Whether Discord was sent this presence, with this reply.
pub open spec fn presence_sent<P: FnOnce(&Presence) -> Result<(), String>>(
    send: P,
    presence: PresenceView,
    reply: Result<(), String>,
) -> bool {
    exists|p: Presence| p@ == presence && #[trigger] call_ensures(send, (&p,), reply)
}

/// Whether `send` may be called with the presence, and `close_refused` once the presence was
/// refused. They need not allow any other call.
pub open spec fn may_send<P: FnOnce(&Presence) -> Result<(), String>, Y: FnOnce()>(
    presence: PresenceView,
    send: P,
    close_refused: Y,
) -> bool {
    &&& forall|p: Presence| p@ == presence ==> #[trigger] call_requires(send, (&p,))
    &&& forall|reply: Result<(), String>| #[trigger]
        presence_sent(send, presence, reply) && reply is Err ==> call_requires(close_refused, ())
}

impl DiscordState {
    /// Not connected, nothing shown.
    pub fn new() -> (state: DiscordState)
        ensures
            state@ == DiscordView::disconnected(),
            state@.wf(),
    {
        DiscordState { current_app_id: None, last_activity: None }
    }

    /// Returns true if there is an active connection.
    pub fn is_connected(&self) -> (connected: bool)
        ensures
            connected == (self@.app_id is Some),
    {
        self.current_app_id.is_some()
    }

    /// Whether the connection is one for `app_id`.
    fn is_connected_as(&self, app_id: &str) -> (same: bool)
        ensures
            same == (self@.app_id == Some(app_id@)),
    {
        match &self.current_app_id {
            Some(id) => same_text(id.as_str(), app_id),
            None => false,
        }
    }

    /// Connect (or reconnect) to Discord using the given app_id.
    /// If already connected with the same id, this is a no-op.
    fn ensure_connected<C: FnOnce(&str) -> Result<(), String>, X: FnOnce()>(
        &mut self,
        app_id: &str,
        connect: C,
        close_other: X,
    ) -> (outcome: Result<(), String>)
        requires
            may_connect(old(self)@, app_id@, connect, close_other),
        ensures
            connection_tried(old(self)@, app_id@, connect, close_other, outcome),
            final(self)@ == (if old(self)@.app_id == Some(app_id@) {
                old(self)@
            } else if outcome is Ok {
                DiscordView {
                    app_id: Some(app_id@),
                    last_activity: if old(self)@.app_id is Some {
                        None
                    } else {
                        old(self)@.last_activity
                    },
                }
            } else if old(self)@.app_id is Some {
                DiscordView::disconnected()
            } else {
                old(self)@
            }),
    {
        if self.is_connected_as(app_id) {
            return Ok(());
        }
        if self.is_connected() {
            close_other();
            self.forget();
        }
        let outcome = connect(app_id);
        if outcome.is_ok() {
            self.current_app_id = Some(app_id.to_owned());
        }
        outcome
    }

    /// Notes that the connection is gone, and with it the presence.
    fn forget(&mut self)
        ensures
            final(self)@ == DiscordView::disconnected(),
    {
        self.current_app_id = None;
        self.last_activity = None;
    }

    /// Disconnect from Discord, suppressing errors. Discord drops the presence with the
    /// connection, so the next `set_watching` sends even if the content is unchanged.
    pub fn disconnect<X: FnOnce()>(&mut self, close: X)
        requires
            old(self)@.app_id is Some ==> call_requires(close, ()),
        ensures
            old(self)@.app_id is Some ==> call_ensures(close, (), ()),
            final(self)@ == (if old(self)@.app_id is Some {
                DiscordView::disconnected()
            } else {
                old(self)@
            }),
    {
        if self.is_connected() {
            close();
            self.forget();
        }
    }

    /// Set the Rich Presence for an active playback session.
    ///
    /// * `session`    — current playback session
    /// * `poster_url` — resolved poster URL (or `None` to use the app's default art)
    /// * `app_id`     — Discord application ID to use
    /// * `watched`    — how far a paused session has come
    ///
    /// `connect` opens the connection and `send` sends a presence through it. `close_other`
    /// closes a connection for another application, before a new one is opened, and
    /// `close_refused` the one through which Discord refused the presence. Each is called
    /// at most once, and none if the presence already matches.
    ///
    /// Returns `true` if a new payload was actually sent to Discord, `false` if
    /// the presence already matched and the update was skipped.
    pub fn set_watching<
        C: FnOnce(&str) -> Result<(), String>,
        X: FnOnce(),
        P: FnOnce(&Presence) -> Result<(), String>,
        Y: FnOnce(),
    >(
        &mut self,
        session: &PlaybackSession,
        poster_url: Option<&str>,
        app_id: &str,
        watched: &Watched,
        connect: C,
        close_other: X,
        send: P,
        close_refused: Y,
    ) -> (result: Result<bool, DiscordError>)
        requires
            times_fit(session@, watched.secs as int),
            ({
                let presence = presence_of(
                    session@,
                    text::optional_str(poster_url),
                    watched.secs as int,
                    watched.percent@,
                );
                !old(self)@.shows(app_id@, presence) ==> {
                    &&& may_connect(old(self)@, app_id@, connect, close_other)
                    &&& forall|opened: Result<(), String>| #[trigger]
                        connection_tried(old(self)@, app_id@, connect, close_other, opened)
                            && opened is Ok ==> may_send(presence, send, close_refused)
                }
            }),
        ensures
            ({
                let presence = presence_of(
                    session@,
                    text::optional_str(poster_url),
                    watched.secs as int,
                    watched.percent@,
                );
                if old(self)@.shows(app_id@, presence) {
                    result matches Ok(false) && final(self)@ == old(self)@
                } else {
                    exists|opened: Result<(), String>|
                        {
                            &&& #[trigger] connection_tried(
                                old(self)@,
                                app_id@,
                                connect,
                                close_other,
                                opened,
                            )
                            &&& match opened {
                                Err(reason) => {
                                    &&& result matches Err(DiscordError::Connect(e))
                                    &&& e == reason
                                    &&& final(self)@ == (if old(self)@.app_id is Some {
                                        DiscordView::disconnected()
                                    } else {
                                        old(self)@
                                    })
                                },
                                Ok(_) => exists|reply: Result<(), String>|
                                    {
                                        &&& #[trigger] presence_sent(send, presence, reply)
                                        &&& match reply {
                                            Ok(_) => {
                                                &&& result matches Ok(true)
                                                &&& final(self)@ == DiscordView::showing(
                                                    app_id@,
                                                    presence,
                                                )
                                            },
                                            Err(reason) => {
                                                &&& result matches Err(DiscordError::SetActivity(e))
                                                &&& e == reason
                                                &&& call_ensures(close_refused, (), ())
                                                &&& final(self)@ == DiscordView::disconnected()
                                            },
                                        }
                                    },
                            }
                        }
                }
            }),
            old(self)@.wf() ==> final(self)@.wf(),
    {
        let presence = build_presence(session, poster_url, watched);
        // Everything Discord will render is now known — skip the round-trip if we already
        // have exactly this presence up.
        if self.is_connected_as(app_id) {
            if let Some(last) = &self.last_activity {
                if last.same(&presence) {
                    return Ok(false);
                }
            }
        }
        let ghost before = self@;
        let opened = self.ensure_connected(app_id, connect, close_other);
        assert(connection_tried(before, app_id@, connect, close_other, opened));
        if let Err(reason) = opened {
            return Err(DiscordError::Connect(reason));
        }
        let reply = send(&presence);
        assert(presence_sent(send, presence@, reply));
        match reply {
            Ok(_) => {
                self.last_activity = Some(presence);
                Ok(true)
            },
            Err(reason) => {
                // Drop the connection so we reconnect next time.
                close_refused();
                self.forget();
                Err(DiscordError::SetActivity(reason))
            },
        }
    }

    /// Clear the Rich Presence (nothing is playing).
    ///
    /// `clear_activity` is called only if a presence is up, and `close` only if it fails.
    ///
    /// Returns `true` if a clear was actually sent, `false` if the presence was
    /// already empty.
    pub fn clear<C: FnOnce() -> Result<(), String>, X: FnOnce()>(
        &mut self,
        clear_activity: C,
        close: X,
    ) -> (result: Result<bool, DiscordError>)
        requires
            old(self)@.last_activity is Some && old(self)@.app_id is Some ==> {
                &&& call_requires(clear_activity, ())
                &&& forall|reply: Result<(), String>| #[trigger]
                    call_ensures(clear_activity, (), reply) && reply is Err ==> call_requires(
                        close,
                        (),
                    )
            },
        ensures
            if old(self)@.last_activity is None {
                result matches Ok(false) && final(self)@ == old(self)@
            } else if old(self)@.app_id is None {
                result matches Ok(false) && final(self)@ == DiscordView::disconnected()
            } else {
                exists|reply: Result<(), String>|
                    {
                        &&& #[trigger] call_ensures(clear_activity, (), reply)
                        &&& match reply {
                            Ok(_) => {
                                &&& result matches Ok(true)
                                &&& final(self)@ == (DiscordView {
                                    last_activity: None,
                                    ..old(self)@
                                })
                            },
                            Err(reason) => {
                                &&& result matches Err(DiscordError::ClearActivity(e))
                                &&& e == reason
                                &&& call_ensures(close, (), ())
                                &&& final(self)@ == DiscordView::disconnected()
                            },
                        }
                    }
            },
            old(self)@.wf() ==> final(self)@.wf(),
    {
        // Already cleared (or never set) — don't touch the connection.
        if self.last_activity.is_none() {
            return Ok(false);
        }
        if !self.is_connected() {
            // Not connected — nothing to clear.
            self.last_activity = None;
            return Ok(false);
        }
        match clear_activity() {
            Ok(_) => {
                self.last_activity = None;
                Ok(true)
            },
            Err(reason) => {
                close();
                self.forget();
                Err(DiscordError::ClearActivity(reason))
            },
        }
    }
}

// ---------------------------------------------------------------------------
// Determine which Discord app_id key to use for a session.
// ---------------------------------------------------------------------------
/// The config key ("shows" | "movies" | "anime") for a media type.
pub open spec fn app_id_key(media_type: MediaType) -> Seq<char> {
    match media_type {
        MediaType::Episode => "shows"@,
        MediaType::Movie => "movies"@,
        MediaType::Anime | MediaType::AnimeMovie => "anime"@,
    }
}

/// Returns the config key ("shows" | "movies" | "anime") for a session.
pub fn app_id_key_for(session: &PlaybackSession) -> (key: &'static str)
    ensures
        key@ == app_id_key(session@.media_type),
{
    match session.media_type {
        MediaType::Episode => "shows",
        MediaType::Movie => "movies",
        MediaType::Anime | MediaType::AnimeMovie => "anime",
    }
}

// ---------------------------------------------------------------------------
// Laws
// ---------------------------------------------------------------------------
/// A presence that Discord accepted is up, as `set_watching` tells it when asked again.
pub proof fn law_accepted_presence_is_up(app_id: Seq<char>, presence: PresenceView)
    ensures
        DiscordView::showing(app_id, presence).shows(app_id, presence),
{
}

/// After a disconnect no presence is up.
pub proof fn law_nothing_is_up_after_disconnect(app_id: Seq<char>, presence: PresenceView)
    ensures
        !DiscordView::disconnected().shows(app_id, presence),
{
}

/// After a clear no presence is up.
pub proof fn law_nothing_is_up_after_clear(
    state: DiscordView,
    app_id: Seq<char>,
    presence: PresenceView,
)
    ensures
        !(DiscordView { last_activity: None, ..state }).shows(app_id, presence),
{
}

/// A presence never has more than the two buttons that Discord allows.
pub proof fn law_at_most_two_buttons(session: SessionView)
    ensures
        buttons_of(session).len() <= 2,
{
}

/// A live session gives the same presence at every poll, though its progress and the moment
/// of looking move on.
pub proof fn law_live_presence_stays(
    session: SessionView,
    later: SessionView,
    poster_url: Option<Seq<char>>,
    watched_secs: int,
    later_watched_secs: int,
    percent: Seq<char>,
    later_percent: Seq<char>,
)
    requires
        session.live_start is Some,
        later == (SessionView {
            progress: later.progress,
            paused_at: later.paused_at,
            ..session
        }),
    ensures
        presence_of(session, poster_url, watched_secs, percent) == presence_of(
            later,
            poster_url,
            later_watched_secs,
            later_percent,
        ),
{
}

/// The second line of a TV episode or an anime episode begins with `S`, the season in two
/// digits, `E` and the episode in two digits, and ends with the title of the episode where
/// that is not empty. It is so for live and for paused sessions, and the percentage watched
/// has no part in it.
pub proof fn law_episodes_are_shown_by_their_code(
    session: PlaybackSession,
    season: u32,
    episode: u32,
    percent: &str,
    line: String,
)
    requires
        call_ensures(build_state, (&session, percent), line),
        session.media_type == MediaType::Episode || session.media_type == MediaType::Anime,
        session.season == Some(season),
        session.episode == Some(episode),
    ensures
        ({
            let code = "S"@ + number::two_digits(season as nat) + "E"@ + number::two_digits(
                episode as nat,
            );
            &&& code.is_prefix_of(line@)
            &&& session.episode_title is Some && session.episode_title->0@.len() > 0 ==> line@
                == code + " • "@ + session.episode_title->0@
            &&& session.episode_title is None || session.episode_title->0@.len() == 0 ==> line@
                == code
        }),
{
    let code = "S"@ + number::two_digits(season as nat) + "E"@ + number::two_digits(episode as nat);
    if session.episode_title is Some && session.episode_title->0@.len() > 0 {
        assert((code + " • "@ + session.episode_title->0@).take(code.len() as int) == code);
    }
}

/// An episode whose season or number is not known is shown as `Episode`, live or paused.
pub proof fn law_episode_without_a_number(session: PlaybackSession, percent: &str, line: String)
    requires
        call_ensures(build_state, (&session, percent), line),
        session.media_type == MediaType::Episode || session.media_type == MediaType::Anime,
        session.season is None || session.episode is None,
    ensures
        line@ == "Episode"@,
{
}

/// A movie that is being watched is shown as such, and one that is paused by how much of it
/// was watched. It is so for anime movies too, and season and episode have no part in it.
pub proof fn law_movies_are_shown_by_their_progress(
    session: PlaybackSession,
    percent: &str,
    line: String,
)
    requires
        call_ensures(build_state, (&session, percent), line),
        session.media_type == MediaType::Movie || session.media_type == MediaType::AnimeMovie,
    ensures
        session.live_start is Some ==> line@ == "Watching now"@,
        session.live_start is None ==> line@ == percent@ + "% watched"@,
{
}

/// The code of an episode stands in its line in every case where season and number are known,
/// and nothing follows it but a title that is not empty.
pub proof fn law_episode_line(
    season: Option<u32>,
    episode: Option<u32>,
    title: Option<&str>,
    line: String,
)
    requires
        call_ensures(build_episode_state, (season, episode, title), line),
    ensures
        season is None || episode is None ==> line@ == "Episode"@,
        season is Some && episode is Some ==> ({
            let code = "S"@ + number::two_digits(season->0 as nat) + "E"@ + number::two_digits(
                episode->0 as nat,
            );
            &&& title is Some && title->0@.len() > 0 ==> line@ == code + " • "@ + title->0@
            &&& title is None || title->0@.len() == 0 ==> line@ == code
        }),
{
}

/// The first line names the kind of thing and its title, and the year where it is known.
pub proof fn law_first_line_names_kind_and_title(session: PlaybackSession, details: String)
    requires
        call_ensures(build_details, (&session,), details),
    ensures
        ({
            let end = if session.year is Some {
                " ("@ + number::decimal(session.year->0 as nat) + ")"@
            } else {
                ""@
            };
            let rest = " • "@ + session.title@ + end;
            &&& session.media_type == MediaType::Episode ==> details@ == "TV Show"@ + rest
            &&& session.media_type == MediaType::Movie ==> details@ == "Movie"@ + rest
            &&& session.media_type == MediaType::Anime ==> details@ == "Anime"@ + rest
            &&& session.media_type == MediaType::AnimeMovie ==> details@ == "Anime Movie"@ + rest
        }),
{
    reveal_strlit("");
    let kind = category(session.media_type);
    let dot = " • "@;
    let title = session.title@;
    if session.year is Some {
        let open = " ("@;
        let year = number::decimal(session.year->0 as nat);
        let close = ")"@;
        assert(kind + dot + title + open + year + close == kind + (dot + title + (open + year
            + close)));
    } else {
        assert(kind + dot + title == kind + (dot + title + ""@));
    }
}

/// A live session has started when Simkl says, and ends its runtime later if that is known. A
/// paused one counts as started so long before the pause as was watched of it, and has no end.
pub proof fn law_times_of_a_presence(
    session: PlaybackSession,
    poster_url: Option<&str>,
    watched: Watched,
    presence: Presence,
)
    requires
        call_ensures(build_presence, (&session, poster_url, &watched), presence),
    ensures
        session.live_start is Some ==> presence.start == session.live_start->0,
        session.live_start is Some && session.runtime_mins is Some ==> presence.end is Some
            && presence.end->0 - presence.start == session.runtime_mins->0 * 60,
        session.live_start is Some && session.runtime_mins is None ==> presence.end is None,
        session.live_start is None ==> presence.start + watched.secs == session.paused_at@.secs
            && presence.end is None,
{
    let view = presence@;
    assert(view.start == presence.start);
    if presence.end is Some {
        assert(view.end == Some(presence.end->0 as int));
    } else {
        assert(view.end is None);
    }
}

/// A presence shows the lines of the session, its poster or else the art named `simkl`, the
/// title on the poster, and Simkl's badge.
pub proof fn law_texts_of_a_presence(
    session: PlaybackSession,
    poster_url: Option<&str>,
    watched: Watched,
    presence: Presence,
    details: String,
    percent: &str,
    state: String,
)
    requires
        call_ensures(build_presence, (&session, poster_url, &watched), presence),
        call_ensures(build_details, (&session,), details),
        percent@ == watched.percent@,
        call_ensures(build_state, (&session, percent), state),
    ensures
        presence.details@ == details@,
        presence.state@ == state@,
        poster_url is Some ==> presence.large_image@ == poster_url->0@,
        poster_url is None ==> presence.large_image@ == "simkl"@,
        presence.large_text@ == session.title@,
        presence.small_image@ == "simkl"@,
        presence.small_text@ == "Simkl"@,
{
    let view = presence@;
    assert(view.details == presence.details@);
    assert(view.state == presence.state@);
    assert(view.large_image == presence.large_image@);
    assert(view.large_text == presence.large_text@);
    assert(view.small_image == presence.small_image@);
    assert(view.small_text == presence.small_text@);
}

/// The first button leads to the session's page at Simkl. The second leads to MyAnimeList for
/// anime that have a page there, and else to IMDb. A button stands there exactly where there
/// is a page for it to lead to.
pub proof fn law_buttons_lead_to_the_pages(
    session: PlaybackSession,
    poster_url: Option<&str>,
    watched: Watched,
    presence: Presence,
    simkl: Option<String>,
    mal: Option<String>,
    imdb: Option<String>,
)
    requires
        call_ensures(build_presence, (&session, poster_url, &watched), presence),
        call_ensures(PlaybackSession::simkl_url, (&session,), simkl),
        call_ensures(PlaybackSession::mal_url, (&session,), mal),
        call_ensures(PlaybackSession::imdb_url, (&session,), imdb),
    ensures
        ({
            let anime = session.media_type == MediaType::Anime || session.media_type
                == MediaType::AnimeMovie;
            let to_mal = anime && mal is Some;
            let to_imdb = !to_mal && imdb is Some;
            let first = if simkl is Some {
                1int
            } else {
                0int
            };
            let buttons = presence.buttons@;
            &&& buttons.len() == first + (if to_mal || to_imdb {
                1int
            } else {
                0int
            })
            &&& simkl is Some ==> buttons[0].0@ == "View on Simkl"@ && buttons[0].1@ == simkl->0@
            &&& to_mal ==> buttons[first].0@ == "View on MyAnimeList"@ && buttons[first].1@
                == mal->0@
            &&& to_imdb ==> buttons[first].0@ == "View on IMDb"@ && buttons[first].1@ == imdb->0@
        }),
{
    let texts = simkl::pair_texts(presence.buttons@);
    assert(presence@.buttons == texts);
    assert(texts.len() == presence.buttons@.len());
    if texts.len() > 0 {
        assert(texts[0] == (presence.buttons@[0].0@, presence.buttons@[0].1@));
    }
    if texts.len() > 1 {
        assert(texts[1] == (presence.buttons@[1].0@, presence.buttons@[1].1@));
    }
}

/// TV shows, movies and anime each go by their own Discord application; anime movies go by
/// that for anime.
pub proof fn law_application_goes_by_the_kind(session: PlaybackSession, key: &'static str)
    requires
        call_ensures(app_id_key_for, (&session,), key),
    ensures
        session.media_type == MediaType::Episode ==> key@ == "shows"@,
        session.media_type == MediaType::Movie ==> key@ == "movies"@,
        session.media_type == MediaType::Anime ==> key@ == "anime"@,
        session.media_type == MediaType::AnimeMovie ==> key@ == "anime"@,
{
}

/// Two presences count as the same if, and only if, all that Discord renders of them is.
pub proof fn law_same_presence_renders_the_same(one: Presence, other: Presence, same: bool)
    requires
        call_ensures(Presence::same, (&one, &other), same),
    ensures
        same <==> {
            &&& one.details@ == other.details@
            &&& one.state@ == other.state@
            &&& one.large_image@ == other.large_image@
            &&& one.large_text@ == other.large_text@
            &&& one.small_image@ == other.small_image@
            &&& one.small_text@ == other.small_text@
            &&& one.start == other.start
            &&& one.end == other.end
            &&& simkl::pair_texts(one.buttons@) == simkl::pair_texts(other.buttons@)
        },
{
    let a = one@;
    let b = other@;
    assert(a.details == one.details@ && b.details == other.details@);
    assert(a.state == one.state@ && b.state == other.state@);
    assert(a.large_image == one.large_image@ && b.large_image == other.large_image@);
    assert(a.large_text == one.large_text@ && b.large_text == other.large_text@);
    assert(a.small_image == one.small_image@ && b.small_image == other.small_image@);
    assert(a.small_text == one.small_text@ && b.small_text == other.small_text@);
    assert(a.start == one.start && b.start == other.start);
    assert(a.buttons == simkl::pair_texts(one.buttons@));
    assert(b.buttons == simkl::pair_texts(other.buttons@));
    assert(one.end is Some ==> a.end == Some(one.end->0 as int));
    assert(other.end is Some ==> b.end == Some(other.end->0 as int));
}

/// At most one presence is up, for one application: an update is skipped only for that very
/// presence and application. Nothing is up without a connection.
pub proof fn law_update_is_skipped_only_for_what_is_up(
    state: DiscordView,
    app_id: Seq<char>,
    presence: PresenceView,
    other_id: Seq<char>,
    other: PresenceView,
)
    requires
        state.shows(app_id, presence),
    ensures
        state.app_id == Some(app_id),
        state.last_activity == Some(presence),
        state.shows(other_id, other) ==> other_id == app_id && other == presence,
{
}

/// Where another application or none is connected, a connection for this one is opened, after
/// the other one was closed; where this one is connected, that connection serves.
pub proof fn law_connection_is_for_the_application<
    C: FnOnce(&str) -> Result<(), String>,
    X: FnOnce(),
>(
    state: DiscordView,
    app_id: Seq<char>,
    connect: C,
    close_other: X,
    outcome: Result<(), String>,
)
    requires
        connection_tried(state, app_id, connect, close_other, outcome),
    ensures
        state.app_id == Some(app_id) ==> outcome is Ok,
        state.app_id != Some(app_id) ==> exists|id: &str|
            id@ == app_id && #[trigger] call_ensures(connect, (id,), outcome),
        state.app_id is Some && state.app_id != Some(app_id) ==> call_ensures(close_other, (), ()),
{
}

/// What was sent is the presence itself, and the reply is Discord's.
pub proof fn law_sent_presence_is_the_presence<P: FnOnce(&Presence) -> Result<(), String>>(
    send: P,
    presence: PresenceView,
    reply: Result<(), String>,
)
    requires
        presence_sent(send, presence, reply),
    ensures
        exists|p: Presence|
            {
                &&& #[trigger] call_ensures(send, (&p,), reply)
                &&& p.details@ == presence.details
                &&& p.state@ == presence.state
                &&& p.large_image@ == presence.large_image
                &&& p.start == presence.start
                &&& simkl::pair_texts(p.buttons@) == presence.buttons
            },
{
    let p = choose|p: Presence| p@ == presence && #[trigger] call_ensures(send, (&p,), reply);
    assert(call_ensures(send, (&p,), reply));
    assert(p@.details == p.details@);
    assert(p@.buttons == simkl::pair_texts(p.buttons@));
}

/// A new state is not connected. After a presence was accepted the state is connected to its
/// application with that presence up, and after a loss of the connection neither is left.
pub proof fn law_states_of_the_connection(
    fresh: DiscordState,
    connected: bool,
    app_id: Seq<char>,
    presence: PresenceView,
)
    requires
        call_ensures(DiscordState::new, (), fresh),
        call_ensures(DiscordState::is_connected, (&fresh,), connected),
    ensures
        !connected,
        fresh@.app_id is None,
        fresh@.last_activity is None,
        DiscordView::disconnected().app_id is None,
        DiscordView::disconnected().last_activity is None,
        DiscordView::showing(app_id, presence).app_id == Some(app_id),
        DiscordView::showing(app_id, presence).last_activity == Some(presence),
{
}

/// What is told about a failure begins with what was tried and ends with the reason.
pub proof fn law_discord_failure_is_told(error: DiscordError, message: String)
    requires
        call_ensures(DiscordError::message, (&error,), message),
    ensures
        error matches DiscordError::Connect(reason) ==> message@
            == "Connecting to Discord before set_watching: ensure_connected: Failed to connect to Discord IPC: "@
            + reason@,
        error matches DiscordError::SetActivity(reason) ==> message@ == "set_activity failed: "@
            + reason@,
        error matches DiscordError::ClearActivity(reason) ==> message@
            == "clear_activity failed: "@ + reason@,
{
}

/// Times fit if, and only if, the start does, and the end where there is one.
pub proof fn law_times_that_fit(session: PlaybackSession, watched_secs: i64, fit: bool)
    requires
        call_ensures(timestamps_fit, (&session, watched_secs), fit),
    ensures
        session.live_start is None ==> (fit <==> i64::MIN <= session.paused_at@.secs - watched_secs
            <= i64::MAX),
        session.live_start is Some && session.runtime_mins is None ==> fit,
        session.live_start is Some && session.runtime_mins is Some ==> (fit <==> session.live_start->0
            + session.runtime_mins->0 * 60 <= i64::MAX),
{
}

/// An update is skipped if, and only if, the very presence is up for the application; then
/// nothing changes. An accepted one was sent, and is up from then on. One for which there is no
/// connection, and one that Discord refused, leaves no presence up and no connection; a refused
/// one had its connection closed. Each error tells Discord's reason.
pub proof fn law_setting_a_presence<
    C: FnOnce(&str) -> Result<(), String>,
    X: FnOnce(),
    P: FnOnce(&Presence) -> Result<(), String>,
    Y: FnOnce(),
>(
    state: &mut DiscordState,
    session: PlaybackSession,
    poster_url: Option<&str>,
    app_id: &str,
    watched: Watched,
    connect: C,
    close_other: X,
    send: P,
    close_refused: Y,
    presence: Presence,
    result: Result<bool, DiscordError>,
)
    requires
        call_ensures(
            DiscordState::set_watching::<C, X, P, Y>,
            (
                state,
                &session,
                poster_url,
                app_id,
                &watched,
                connect,
                close_other,
                send,
                close_refused,
            ),
            result,
        ),
        call_ensures(build_presence, (&session, poster_url, &watched), presence),
    ensures
        result == Ok::<bool, DiscordError>(false) <==> old(state)@.app_id == Some(app_id@) && old(
            state
        )@.last_activity == Some(presence@),
        result == Ok::<bool, DiscordError>(false) ==> final(state)@ == old(state)@,
        result == Ok::<bool, DiscordError>(true) ==> {
            &&& presence_sent(send, presence@, Ok(()))
            &&& final(state)@.app_id == Some(app_id@)
            &&& final(state)@.last_activity == Some(presence@)
            &&& old(state)@.app_id != Some(app_id@) ==> exists|id: &str|
                id@ == app_id@ && #[trigger] call_ensures(connect, (id,), Ok::<(), String>(()))
        },
        result matches Err(DiscordError::Connect(reason)) ==> {
            &&& old(state)@.app_id != Some(app_id@)
            &&& exists|id: &str|
                id@ == app_id@ && #[trigger] call_ensures(connect, (id,), Err::<(), String>(reason))
            &&& final(state)@.app_id is None
            &&& old(state)@.app_id is Some ==> final(state)@.last_activity is None
        },
        result matches Err(DiscordError::SetActivity(reason)) ==> {
            &&& presence_sent(send, presence@, Err(reason))
            &&& call_ensures(close_refused, (), ())
            &&& final(state)@.app_id is None
            &&& final(state)@.last_activity is None
        },
        old(state)@.app_id is Some && old(state)@.app_id != Some(app_id@) ==> call_ensures(
            close_other,
            (),
            (),
        ),
        !(result matches Err(DiscordError::ClearActivity(_))),
{
    let before = old(state)@;
    if !before.shows(app_id@, presence@) {
        let opened = choose|opened: Result<(), String>|
            {
                &&& #[trigger] connection_tried(before, app_id@, connect, close_other, opened)
                &&& match opened {
                    Err(reason) => {
                        &&& result matches Err(DiscordError::Connect(e))
                        &&& e == reason
                        &&& final(state)@ == (if before.app_id is Some {
                            DiscordView::disconnected()
                        } else {
                            before
                        })
                    },
                    Ok(_) => exists|reply: Result<(), String>|
                        {
                            &&& #[trigger] presence_sent(send, presence@, reply)
                            &&& match reply {
                                Ok(_) => {
                                    &&& result matches Ok(true)
                                    &&& final(state)@ == DiscordView::showing(app_id@, presence@)
                                },
                                Err(reason) => {
                                    &&& result matches Err(DiscordError::SetActivity(e))
                                    &&& e == reason
                                    &&& call_ensures(close_refused, (), ())
                                    &&& final(state)@ == DiscordView::disconnected()
                                },
                            }
                        },
                }
            };
        if let Ok(unit) = opened {
            assert(unit == ());
            let reply = choose|reply: Result<(), String>|
                {
                    &&& #[trigger] presence_sent(send, presence@, reply)
                    &&& match reply {
                        Ok(_) => {
                            &&& result matches Ok(true)
                            &&& final(state)@ == DiscordView::showing(app_id@, presence@)
                        },
                        Err(reason) => {
                            &&& result matches Err(DiscordError::SetActivity(e))
                            &&& e == reason
                            &&& call_ensures(close_refused, (), ())
                            &&& final(state)@ == DiscordView::disconnected()
                        },
                    }
                };
            if let Ok(unit) = reply {
                assert(unit == ());
            }
        }
    }
}

/// Clearing where no presence is up does nothing. Where one is up, Discord is told, and then
/// none is up and the connection stays; where Discord refuses, the connection is closed and the
/// error tells why. A presence without a connection is only forgotten.
pub proof fn law_clearing_the_presence<C: FnOnce() -> Result<(), String>, X: FnOnce()>(
    state: &mut DiscordState,
    clear_activity: C,
    close: X,
    result: Result<bool, DiscordError>,
)
    requires
        call_ensures(DiscordState::clear::<C, X>, (state, clear_activity, close), result),
    ensures
        final(state)@.last_activity is None,
        old(state)@.last_activity is None ==> result == Ok::<bool, DiscordError>(false) && final(
            state
        )@ == old(state)@,
        old(state)@.last_activity is Some && old(state)@.app_id is None ==> result == Ok::<
            bool,
            DiscordError,
        >(false),
        result == Ok::<bool, DiscordError>(true) ==> call_ensures(
            clear_activity,
            (),
            Ok::<(), String>(()),
        ) && final(state)@.app_id == old(state)@.app_id && old(state)@.app_id is Some,
        result is Err ==> {
            &&& result matches Err(DiscordError::ClearActivity(reason)) && call_ensures(
                clear_activity,
                (),
                Err::<(), String>(reason),
            )
            &&& call_ensures(close, (), ())
            &&& final(state)@.app_id is None
        },
        old(state)@.last_activity is Some && old(state)@.app_id is Some ==> result != Ok::<
            bool,
            DiscordError,
        >(false),
{
    let before = old(state)@;
    if before.last_activity is Some && before.app_id is Some {
        let reply = choose|reply: Result<(), String>|
            {
                &&& #[trigger] call_ensures(clear_activity, (), reply)
                &&& match reply {
                    Ok(_) => {
                        &&& result matches Ok(true)
                        &&& final(state)@ == (DiscordView { last_activity: None, ..before })
                    },
                    Err(reason) => {
                        &&& result matches Err(DiscordError::ClearActivity(e))
                        &&& e == reason
                        &&& call_ensures(close, (), ())
                        &&& final(state)@ == DiscordView::disconnected()
                    },
                }
            };
        if let Ok(unit) = reply {
            assert(unit == ());
        }
    }
}

/// Disconnecting closes a connection that is there, and with it goes the presence; without one
/// nothing happens.
pub proof fn law_disconnecting<X: FnOnce()>(state: &mut DiscordState, close: X)
    requires
        call_ensures(DiscordState::disconnect::<X>, (state, close), ()),
    ensures
        final(state)@.app_id is None,
        old(state)@.app_id is Some ==> call_ensures(close, (), ()) && final(
            state
        )@.last_activity is None,
        old(state)@.app_id is None ==> final(state)@ == old(state)@,
{
}

/// A state is connected if, and only if, it has an application.
pub proof fn law_connected_to_an_application(state: DiscordState, connected: bool)
    requires
        call_ensures(DiscordState::is_connected, (&state,), connected),
    ensures
        connected <==> state@.app_id is Some,
{
}

} // verus!
