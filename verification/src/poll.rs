//! The poll cycle: what to ask Simkl for, and what to show.

use vstd::prelude::*;
use vstd::string::*;

use crate::clock;
use crate::clock::{Moment, Timestamp};
use crate::config::{Config, ConfigView};
use crate::discord;
use crate::playback;
use crate::playback::ActivitiesResponse;
use crate::retry::{Duration, NANOS_PER_SEC};
use crate::simkl;
use crate::simkl::{ApiError, SimklClient};
use crate::state;
use crate::state::{MediaType, PlaybackSession, SessionView};
use crate::text;

verus! {

/// How often to force-refresh `/sync/playback` even if activities haven't changed.
/// Catches completions (≥80% → session silently removed) and manual deletions,
/// neither of which advances `activities.playback`.
pub const FORCE_REFRESH_SECS: u64 = 120;

/// Local state tracked across poll cycles — not shared with the tray.
#[derive(Debug)]
pub struct PollState {
    /// Last-seen `playback` timestamps from `/sync/activities` (one per category).
    /// These advance only on `/scrobble/pause` or `/scrobble/stop` (<80%).
    /// `/scrobble/start` does NOT advance them; active "NOW WATCHING" sessions
    /// are internal to Simkl and have no public GET endpoint.
    last_tv_playback: Option<Timestamp>,
    last_anime_playback: Option<Timestamp>,
    last_movie_playback: Option<Timestamp>,
    /// How long the program had run when we last fetched `/sync/playback`.
    last_playback_fetch: Option<Duration>,
    /// Cached sessions from the last `/sync/playback` fetch.
    cached_sessions: Vec<PlaybackSession>,
}

/// [`PollState`] with its parts in the open.
pub ghost struct PollView {
    /// When playback of a TV show was last seen to pause.
    pub tv: Option<Timestamp>,
    /// When playback of an anime was last seen to pause.
    pub anime: Option<Timestamp>,
    /// When playback of a movie was last seen to pause.
    pub movie: Option<Timestamp>,
    /// How long the program had run at the last fetch, in nanoseconds.
    pub fetched_at: Option<nat>,
    /// The sessions fetched last.
    pub sessions: Seq<SessionView>,
}

impl View for PollState {
    type V = PollView;

    closed spec fn view(&self) -> PollView {
        PollView {
            tv: self.last_tv_playback,
            anime: self.last_anime_playback,
            movie: self.last_movie_playback,
            fetched_at: (match self.last_playback_fetch {
                Some(at) => Some(at@),
                None => None,
            }),
            sessions: playback::session_views(self.cached_sessions@),
        }
    }
}

// ---------------------------------------------------------------------------
// Whether to fetch
// ---------------------------------------------------------------------------
impl PollView {
    /// Whether something was paused or stopped since the last fetch.
    pub open spec fn changed(self, activities: ActivitiesResponse) -> bool {
        ||| playback::category_playback(activities.tv_shows) != self.tv
        ||| playback::category_playback(activities.anime) != self.anime
        ||| playback::category_playback(activities.movies) != self.movie
    }

    /// Whether the last fetch lies two minutes back, or there was none.
    pub open spec fn stale(self, uptime: nat) -> bool {
        match self.fetched_at {
            Some(at) => uptime >= at + FORCE_REFRESH_SECS * NANOS_PER_SEC,
            None => true,
        }
    }

    /// Whether the sessions have to be fetched.
    pub open spec fn needs_playback(self, activities: ActivitiesResponse, uptime: nat) -> bool {
        self.changed(activities) || self.stale(uptime)
    }

    /// The state after a fetch.
    pub open spec fn fetched(
        self,
        activities: ActivitiesResponse,
        sessions: Seq<SessionView>,
        uptime: nat,
    ) -> PollView {
        PollView {
            tv: playback::category_playback(activities.tv_shows),
            anime: playback::category_playback(activities.anime),
            movie: playback::category_playback(activities.movies),
            fetched_at: Some(uptime),
            sessions,
        }
    }
}

/// Whether two moments that may be absent are the same.
fn same_time(a: Option<Timestamp>, b: Option<Timestamp>) -> (same: bool)
    ensures
        same == (a == b),
{
    match (a, b) {
        (Some(x), Some(y)) => x.same(&y),
        (None, None) => true,
        _ => false,
    }
}

// ---------------------------------------------------------------------------
// What to show
// ---------------------------------------------------------------------------
/// The place of the newest session within the window: the one paused last, and the first
/// of those paused at the same moment.
pub open spec fn newest(sessions: Seq<SessionView>, window_hours: nat, now: Moment) -> Option<int>
    decreases sessions.len(),
{
    if sessions.len() == 0 {
        None
    } else {
        let last = sessions.last();
        let before = newest(sessions.drop_last(), window_hours, now);
        match before {
            Some(i) => if simkl::in_window(last, window_hours, now) && last.paused_at.after(
                sessions[i].paused_at,
            ) {
                Some(sessions.len() - 1)
            } else {
                before
            },
            None => if simkl::in_window(last, window_hours, now) {
                Some(sessions.len() - 1)
            } else {
                None
            },
        }
    }
}

/// The newest session within the window.
pub open spec fn newest_session(
    sessions: Seq<SessionView>,
    window_hours: nat,
    now: Moment,
) -> Option<SessionView> {
    match newest(sessions, window_hours, now) {
        Some(i) => Some(sessions[i]),
        None => None,
    }
}

/// What a poll cycle comes to.
#[derive(Debug)]
pub enum Display {
    /// A session is to be shown.
    Show {
        /// The session.
        session: PlaybackSession,
        /// The title whose poster is to be shown.
        poster_of: Option<u64>,
        /// The Discord application to show it with. Without one, Rich Presence is skipped.
        app_id: Option<String>,
    },
    /// There is nothing to show: the presence is to be cleared.
    Nothing,
}

/// [`Display`] with its texts as character sequences.
pub ghost enum DisplayView {
    /// A session is to be shown.
    Show {
        /// The session.
        session: SessionView,
        /// The title whose poster is to be shown.
        poster_of: Option<u64>,
        /// The Discord application to show it with.
        app_id: Option<Seq<char>>,
    },
    /// There is nothing to show.
    Nothing,
}

impl View for Display {
    type V = DisplayView;

    open spec fn view(&self) -> DisplayView {
        match *self {
            Display::Show { session, poster_of, app_id } => DisplayView::Show {
                session: session@,
                poster_of,
                app_id: text::optional_text(app_id),
            },
            Display::Nothing => DisplayView::Nothing,
        }
    }
}

/// What is to be shown for a session that may be absent.
pub open spec fn display_of(session: Option<SessionView>, config: ConfigView) -> DisplayView {
    match session {
        Some(s) => DisplayView::Show {
            session: s,
            poster_of: s.ids.simkl,
            app_id: config.app_id(discord::app_id_key(s.media_type)),
        },
        None => DisplayView::Nothing,
    }
}

/// What is to be shown for a session that may be absent.
pub fn display(session: Option<PlaybackSession>, config: &Config) -> (display: Display)
    ensures
        display@ == display_of(state::optional_session(session), config@),
{
    match session {
        Some(session) => {
            let app_id = match config.discord_app_id(discord::app_id_key_for(&session)) {
                Some(id) => Some(id.to_owned()),
                None => None,
            };
            let poster_of = session.ids.simkl;
            Display::Show { session, poster_of, app_id }
        },
        None => Display::Nothing,
    }
}

impl PollState {
    /// Nothing seen yet.
    pub fn new() -> (state: PollState)
        ensures
            state@ == (PollView {
                tv: None,
                anime: None,
                movie: None,
                fetched_at: None,
                sessions: Seq::empty(),
            }),
    {
        let state = PollState {
            last_tv_playback: None,
            last_anime_playback: None,
            last_movie_playback: None,
            last_playback_fetch: None,
            cached_sessions: Vec::new(),
        };
        assert(state@.sessions == Seq::<SessionView>::empty());
        state
    }

    /// Whether the sessions have to be fetched when the program has run for `uptime`.
    pub fn needs_playback(&self, activities: &ActivitiesResponse, uptime: Duration) -> (needs: bool)
        ensures
            needs == self@.needs_playback(*activities, uptime@),
    {
        let changed = !same_time(activities.tv_playback(), self.last_tv_playback) || !same_time(
            activities.anime_playback(),
            self.last_anime_playback,
        ) || !same_time(activities.movie_playback(), self.last_movie_playback);
        let stale = match self.last_playback_fetch {
            Some(at) => {
                let refresh: u128 = Duration::from_secs(FORCE_REFRESH_SECS).as_nanos();
                let then: u128 = at.as_nanos();
                let now: u128 = uptime.as_nanos();
                now >= then && now - then >= refresh
            },
            // always fetch on first run
            None => true,
        };
        changed || stale
    }

    /// Keeps what a fetch gave.
    pub fn record(
        &mut self,
        activities: &ActivitiesResponse,
        sessions: Vec<PlaybackSession>,
        uptime: Duration,
    )
        ensures
            final(self)@ == old(self)@.fetched(
                *activities,
                playback::session_views(sessions@),
                uptime@,
            ),
    {
        self.last_tv_playback = activities.tv_playback();
        self.last_anime_playback = activities.anime_playback();
        self.last_movie_playback = activities.movie_playback();
        self.last_playback_fetch = Some(uptime);
        self.cached_sessions = sessions;
    }

    /// The newest session within the window at `now`.
    pub fn newest_session(&self, window_hours: u64, now: &Timestamp) -> (session: Option<
        PlaybackSession,
    >)
        ensures
            state::optional_session(session) == newest_session(
                self@.sessions,
                window_hours as nat,
                now@,
            ),
    {
        let ghost views = self@.sessions;
        let mut best: Option<usize> = None;
        let mut i: usize = 0;
        while i < self.cached_sessions.len()
            invariant
                i <= self.cached_sessions@.len(),
                views == playback::session_views(self.cached_sessions@),
                match best {
                    Some(b) => b < i && newest(views.take(i as int), window_hours as nat, now@)
                        == Some(b as int),
                    None => newest(views.take(i as int), window_hours as nat, now@) is None,
                },
            decreases self.cached_sessions@.len() - i,
        {
            let session = &self.cached_sessions[i];
            assert(views.take(i + 1).drop_last() == views.take(i as int));
            assert(views.take(i + 1).last() == session@);
            if SimklClient::should_show_session_at(session, window_hours, now) {
                let newer = match best {
                    Some(b) => {
                        assert(views.take(i + 1)[b as int] == self.cached_sessions@[b as int]@);
                        session.paused_at.is_after(&self.cached_sessions[b].paused_at)
                    },
                    None => true,
                };
                if newer {
                    best = Some(i);
                }
            }
            i = i + 1;
        }
        assert(views.take(i as int) == views);
        match best {
            Some(b) => Some(self.cached_sessions[b].clone()),
            None => None,
        }
    }
}

// ---------------------------------------------------------------------------
// The cycle
// ---------------------------------------------------------------------------
/// Whether `result` is what is to be shown from these sessions at a moment that the clock
/// told.
pub open spec fn shown_from(
    sessions: Seq<SessionView>,
    window_hours: nat,
    config: ConfigView,
    result: Result<Display, ApiError>,
) -> bool {
    exists|now: Moment|
        {
            &&& #[trigger] clock::read_from_clock(now)
            &&& now.valid()
            &&& result matches Ok(display)
            &&& display@ == display_of(newest_session(sessions, window_hours, now), config)
        }
}

/// Whether a fetch of the sessions had this outcome, and `result` is what is to be shown.
pub open spec fn playback_shown<
    B: FnOnce() -> Result<Vec<PlaybackSession>, ApiError>,
    U: Fn() -> Duration,
>(
    before: PollView,
    after: PollView,
    activities: ActivitiesResponse,
    config: ConfigView,
    get_playback: B,
    uptime: &U,
    result: Result<Display, ApiError>,
) -> bool {
    exists|fetched: Result<Vec<PlaybackSession>, ApiError>|
        {
            &&& #[trigger] call_ensures(get_playback, (), fetched)
            &&& match fetched {
                Err(failure) => result matches Err(f) && f == failure && after == before,
                Ok(sessions) => exists|at: Duration|
                    {
                        &&& #[trigger] call_ensures(*uptime, (), at)
                        &&& after == before.fetched(
                            activities,
                            playback::session_views(sessions@),
                            at@,
                        )
                        &&& shown_from(
                            after.sessions,
                            config.session_window_hours,
                            config,
                            result,
                        )
                    },
            }
        }
}

/// What is to be shown now from the sessions fetched last.
fn show_newest(poll_state: &PollState, config: &Config) -> (result: Result<Display, ApiError>)
    ensures
        shown_from(poll_state@.sessions, config@.session_window_hours, config@, result),
{
    let now = clock::current();
    assert(clock::read_from_clock(now@));
    let session = poll_state.newest_session(config.session_window_hours, &now);
    Ok(display(session, config))
}

/// One iteration of the poll cycle.
///
/// A live session is shown at once. Else `get_activities` tells whether anything happened;
/// if so, or if the last fetch is two minutes old, `get_playback` fetches the sessions. Then
/// the newest session within the window is shown. `uptime` tells how long the program has
/// run. Neither is asked with a live session, and `get_playback` only when needed.
pub fn run_poll_cycle<
    A: FnOnce() -> Result<ActivitiesResponse, ApiError>,
    B: FnOnce() -> Result<Vec<PlaybackSession>, ApiError>,
    U: Fn() -> Duration,
>(
    poll_state: &mut PollState,
    config: &Config,
    live: Option<PlaybackSession>,
    get_activities: A,
    get_playback: B,
    uptime: &U,
) -> (result: Result<Display, ApiError>)
    requires
        live is None ==> {
            &&& call_requires(get_activities, ())
            &&& forall|activities: ActivitiesResponse| #[trigger]
                call_ensures(get_activities, (), Ok(activities)) ==> {
                    &&& call_requires(*uptime, ())
                    &&& forall|at: Duration| #[trigger]
                        call_ensures(*uptime, (), at) && old(poll_state)@.needs_playback(
                            activities,
                            at@,
                        ) ==> call_requires(get_playback, ())
                }
        },
    ensures
        match live {
            Some(session) => {
                &&& result matches Ok(display)
                &&& display@ == display_of(Some(session@), config@)
                &&& final(poll_state)@ == old(poll_state)@
            },
            None => exists|answer: Result<ActivitiesResponse, ApiError>|
                {
                    &&& #[trigger] call_ensures(get_activities, (), answer)
                    &&& match answer {
                        Err(failure) => {
                            &&& result matches Err(f)
                            &&& f == failure
                            &&& final(poll_state)@ == old(poll_state)@
                        },
                        Ok(activities) => exists|at: Duration|
                            {
                                &&& #[trigger] call_ensures(*uptime, (), at)
                                &&& if old(poll_state)@.needs_playback(activities, at@) {
                                    playback_shown(
                                        old(poll_state)@,
                                        final(poll_state)@,
                                        activities,
                                        config@,
                                        get_playback,
                                        uptime,
                                        result,
                                    )
                                } else {
                                    &&& final(poll_state)@ == old(poll_state)@
                                    &&& shown_from(
                                        old(poll_state)@.sessions,
                                        config@.session_window_hours,
                                        config@,
                                        result,
                                    )
                                }
                            },
                    }
                },
        },
{
    if live.is_some() {
        return Ok(display(live, config));
    }
    let answer = get_activities();
    assert(call_ensures(get_activities, (), answer));
    let activities = match answer {
        Ok(activities) => activities,
        Err(failure) => {
            return Err(failure);
        },
    };
    let at = uptime();
    assert(call_ensures(*uptime, (), at));
    if !poll_state.needs_playback(&activities, at) {
        return show_newest(poll_state, config);
    }
    let fetched = get_playback();
    assert(call_ensures(get_playback, (), fetched));
    match fetched {
        Ok(sessions) => {
            let now = uptime();
            assert(call_ensures(*uptime, (), now));
            poll_state.record(&activities, sessions, now);
            show_newest(poll_state, config)
        },
        Err(failure) => Err(failure),
    }
}

/// What the polling loop does next.
#[derive(Clone, Copy, PartialEq, Eq, Structural, Debug)]
pub enum LoopStep {
    /// Clear the presence, disconnect, and leave the loop.
    Quit,
    /// Clear the presence and wait: the user has paused polling.
    Idle,
    /// Run a poll cycle.
    Poll,
}

/// What the polling loop does next.
pub fn loop_step(quit_requested: bool, is_paused: bool) -> (step: LoopStep)
    ensures
        step == (if quit_requested {
            LoopStep::Quit
        } else if is_paused {
            LoopStep::Idle
        } else {
            LoopStep::Poll
        }),
{
    if quit_requested {
        LoopStep::Quit
    } else if is_paused {
        LoopStep::Idle
    } else {
        LoopStep::Poll
    }
}

// ---------------------------------------------------------------------------
// Laws
// ---------------------------------------------------------------------------
/// The session that is shown is within the window, no other within the window was paused
/// later, and one is shown whenever any is within the window.
pub proof fn law_newest_session_in_window_is_shown(
    sessions: Seq<SessionView>,
    window_hours: nat,
    now: Moment,
)
    ensures
        match newest(sessions, window_hours, now) {
            Some(i) => {
                &&& 0 <= i < sessions.len()
                &&& simkl::in_window(sessions[i], window_hours, now)
                &&& forall|j: int|
                    0 <= j < sessions.len() && simkl::in_window(
                        #[trigger] sessions[j],
                        window_hours,
                        now,
                    ) ==> !sessions[j].paused_at.after(sessions[i].paused_at)
            },
            None => forall|j: int|
                0 <= j < sessions.len() ==> !simkl::in_window(
                    #[trigger] sessions[j],
                    window_hours,
                    now,
                ),
        },
    decreases sessions.len(),
{
    if sessions.len() > 0 {
        let front = sessions.drop_last();
        law_newest_session_in_window_is_shown(front, window_hours, now);
        assert forall|j: int| 0 <= j < sessions.len() - 1 implies #[trigger] sessions[j]
            == front[j] by {}
    }
}

/// With sessions that come newest first, the one shown is the first within the window.
pub proof fn law_first_in_window_is_shown_of_sorted_sessions(
    sessions: Seq<SessionView>,
    window_hours: nat,
    now: Moment,
    first: int,
)
    requires
        forall|i: int, j: int|
            0 <= i < j < sessions.len() ==> !(#[trigger] sessions[j]).paused_at.after(
                (#[trigger] sessions[i]).paused_at,
            ),
        0 <= first < sessions.len(),
        simkl::in_window(sessions[first], window_hours, now),
        forall|i: int|
            0 <= i < first ==> !simkl::in_window(#[trigger] sessions[i], window_hours, now),
    ensures
        newest(sessions, window_hours, now) == Some(first),
    decreases sessions.len(),
{
    let front = sessions.drop_last();
    assert forall|j: int| 0 <= j < front.len() implies #[trigger] front[j] == sessions[j] by {}
    if first < sessions.len() - 1 {
        law_first_in_window_is_shown_of_sorted_sessions(front, window_hours, now, first);
        assert(!sessions[sessions.len() - 1].paused_at.after(sessions[first].paused_at));
    } else {
        law_newest_session_in_window_is_shown(front, window_hours, now);
    }
}

/// On startup the sessions are fetched.
pub proof fn law_first_cycle_fetches(state: PollView, activities: ActivitiesResponse, uptime: nat)
    requires
        state.fetched_at is None,
    ensures
        state.needs_playback(activities, uptime),
{
}

/// After a fetch, and until two minutes have passed, the same activities cause no other;
/// a changed timestamp in any category does.
pub proof fn law_fetched_only_when_needed(
    state: PollView,
    activities: ActivitiesResponse,
    sessions: Seq<SessionView>,
    fetched_at: nat,
    seen: ActivitiesResponse,
    uptime: nat,
)
    requires
        uptime < fetched_at + FORCE_REFRESH_SECS * NANOS_PER_SEC,
    ensures
        state.fetched(activities, sessions, fetched_at).needs_playback(seen, uptime) <==> ({
            ||| playback::category_playback(seen.tv_shows) != playback::category_playback(
                activities.tv_shows,
            )
            ||| playback::category_playback(seen.anime) != playback::category_playback(
                activities.anime,
            )
            ||| playback::category_playback(seen.movies) != playback::category_playback(
                activities.movies,
            )
        }),
{
}

/// Two minutes after a fetch the sessions are fetched again, whatever the activities.
pub proof fn law_refreshed_after_two_minutes(
    state: PollView,
    activities: ActivitiesResponse,
    sessions: Seq<SessionView>,
    fetched_at: nat,
    seen: ActivitiesResponse,
    uptime: nat,
)
    requires
        uptime >= fetched_at + FORCE_REFRESH_SECS * NANOS_PER_SEC,
    ensures
        state.fetched(activities, sessions, fetched_at).needs_playback(seen, uptime),
{
}

/// A media type without a Discord application is never shown on Discord.
pub proof fn law_no_application_no_presence(session: SessionView, config: ConfigView)
    requires
        config.app_id(discord::app_id_key(session.media_type)) is None,
    ensures
        display_of(Some(session), config) is Show,
        display_of(Some(session), config)->app_id is None,
{
}

/// Whether the session is within the window at `now`, by the time that has passed since its
/// pause: fewer hours than the window has, and no second less than none. A live one always is.
/// Leap seconds are left to [`simkl::in_window`].
pub open spec fn recent(session: SessionView, window_hours: nat, now: Moment) -> bool {
    if session.live_start is Some {
        true
    } else if now.nanos < 1_000_000_000 && session.paused_at.nanos < 1_000_000_000 {
        let passed = (now.secs * 1_000_000_000 + now.nanos) - (session.paused_at.secs
            * 1_000_000_000 + session.paused_at.nanos);
        window_hours > 0 && -1_000_000_000 < passed < window_hours * 3_600_000_000_000
    } else {
        simkl::in_window(session, window_hours, now)
    }
}

/// The two ways to tell whether a session is recent agree.
pub proof fn law_recent_is_in_window(session: SessionView, window_hours: nat, now: Moment)
    ensures
        recent(session, window_hours, now) == simkl::in_window(session, window_hours, now),
{
    if session.live_start is None && now.nanos < 1_000_000_000 && session.paused_at.nanos
        < 1_000_000_000 {
        simkl::law_window_lasts_its_hours(session, window_hours, now);
    }
}

/// Whether `shown` is the session to show at `now`: a recent one after whose pause no other
/// recent one was paused, if there is a recent one, and else none.
pub open spec fn rightly_shown(
    sessions: Seq<SessionView>,
    window_hours: nat,
    now: Moment,
    shown: Option<SessionView>,
) -> bool {
    match shown {
        Some(s) => {
            &&& exists|i: int| 0 <= i < sessions.len() && #[trigger] sessions[i] == s
            &&& recent(s, window_hours, now)
            &&& forall|j: int|
                0 <= j < sessions.len() && recent(#[trigger] sessions[j], window_hours, now)
                    ==> sessions[j].paused_at.secs < s.paused_at.secs || (sessions[j].paused_at.secs
                    == s.paused_at.secs && sessions[j].paused_at.nanos <= s.paused_at.nanos)
        },
        None => forall|j: int|
            0 <= j < sessions.len() ==> !recent(#[trigger] sessions[j], window_hours, now),
    }
}

/// The newest recent session is the one to show.
pub proof fn law_newest_recent_session(
    sessions: Seq<SessionView>,
    window_hours: nat,
    now: Moment,
)
    ensures
        rightly_shown(sessions, window_hours, now, newest_session(sessions, window_hours, now)),
{
    law_newest_session_in_window_is_shown(sessions, window_hours, now);
    assert forall|j: int| 0 <= j < sessions.len() implies recent(
        #[trigger] sessions[j],
        window_hours,
        now,
    ) == simkl::in_window(sessions[j], window_hours, now) by {
        law_recent_is_in_window(sessions[j], window_hours, now);
    }
}

/// Asked at a given moment, the sessions fetched last give the newest recent one.
pub proof fn law_newest_session_is_the_newest_recent(
    state: PollState,
    window_hours: u64,
    now: Timestamp,
    session: Option<PlaybackSession>,
)
    requires
        call_ensures(PollState::newest_session, (&state, window_hours, &now), session),
    ensures
        session is Some ==> rightly_shown(
            state@.sessions,
            window_hours as nat,
            now@,
            Some(session->0@),
        ),
        session is None ==> rightly_shown(state@.sessions, window_hours as nat, now@, None),
{
    law_newest_recent_session(state@.sessions, window_hours as nat, now@);
}

/// A session is shown with its own poster and with the application for its kind: that for
/// shows, for movies, or for anime, which serves anime movies too.
pub proof fn law_session_is_shown_with_its_application(
    session: Option<PlaybackSession>,
    config: Config,
    display: Display,
)
    requires
        call_ensures(self::display, (session, &config), display),
    ensures
        session is None ==> display == Display::Nothing,
        session matches Some(s) ==> {
            &&& display matches Display::Show { session: shown, poster_of, app_id }
            &&& shown@ == s@
            &&& poster_of == s.ids.simkl
            &&& s.media_type == MediaType::Episode ==> text::optional_text(app_id)
                == text::optional_text(config.discord_app_id_shows)
            &&& s.media_type == MediaType::Movie ==> text::optional_text(app_id)
                == text::optional_text(config.discord_app_id_movies)
            &&& s.media_type == MediaType::Anime || s.media_type == MediaType::AnimeMovie
                ==> text::optional_text(app_id) == text::optional_text(config.discord_app_id_anime)
        },
{
    lemma_kinds_differ();
}

/// Whether the display shows the session with its own poster and the application for its kind.
pub open spec fn shown_as(session: SessionView, config: ConfigView, display: Display) -> bool {
    &&& display matches Display::Show { session: s, poster_of, app_id }
    &&& s@ == session
    &&& poster_of == session.ids.simkl
    &&& session.media_type == MediaType::Episode ==> text::optional_text(app_id) == config.shows
    &&& session.media_type == MediaType::Movie ==> text::optional_text(app_id) == config.movies
    &&& session.media_type == MediaType::Anime ==> text::optional_text(app_id) == config.anime
    &&& session.media_type == MediaType::AnimeMovie ==> text::optional_text(app_id) == config.anime
}

/// The kinds that applications go by differ.
proof fn lemma_kinds_differ()
    ensures
        "shows"@ != "movies"@,
        "shows"@ != "anime"@,
        "movies"@ != "anime"@,
{
    reveal_strlit("shows");
    reveal_strlit("movies");
    reveal_strlit("anime");
    assert("shows"@[0] == 's' && "movies"@[0] == 'm' && "anime"@[0] == 'a');
}

/// A live session is shown at once, and nothing is remembered of it.
pub proof fn law_live_session_is_shown_at_once<
    A: FnOnce() -> Result<ActivitiesResponse, ApiError>,
    B: FnOnce() -> Result<Vec<PlaybackSession>, ApiError>,
    U: Fn() -> Duration,
>(
    state: &mut PollState,
    config: Config,
    live: PlaybackSession,
    get_activities: A,
    get_playback: B,
    uptime: U,
    result: Result<Display, ApiError>,
)
    requires
        call_ensures(
            run_poll_cycle::<A, B, U>,
            (state, &config, Some(live), get_activities, get_playback, &uptime),
            result,
        ),
    ensures
        result is Ok,
        shown_as(live@, config@, result->Ok_0),
        final(state)@ == old(state)@,
{
    lemma_kinds_differ();
}

/// Without a live session, a cycle that succeeds shows, of the sessions known after it, the
/// newest one that is recent at a moment told by the clock in that cycle; if none is recent,
/// the presence is cleared.
pub proof fn law_cycle_shows_the_newest_recent_session<
    A: FnOnce() -> Result<ActivitiesResponse, ApiError>,
    B: FnOnce() -> Result<Vec<PlaybackSession>, ApiError>,
    U: Fn() -> Duration,
>(
    state: &mut PollState,
    config: Config,
    get_activities: A,
    get_playback: B,
    uptime: U,
    result: Result<Display, ApiError>,
)
    requires
        call_ensures(
            run_poll_cycle::<A, B, U>,
            (state, &config, None, get_activities, get_playback, &uptime),
            result,
        ),
        result is Ok,
    ensures
        exists|now: Moment|
            {
                &&& #[trigger] clock::read_from_clock(now)
                &&& now.valid()
                &&& match result->Ok_0 {
                    Display::Show { session, .. } => {
                        &&& rightly_shown(
                            final(state)@.sessions,
                            config.session_window_hours as nat,
                            now,
                            Some(session@),
                        )
                        &&& shown_as(session@, config@, result->Ok_0)
                    },
                    Display::Nothing => rightly_shown(
                        final(state)@.sessions,
                        config.session_window_hours as nat,
                        now,
                        None,
                    ),
                }
            },
{
    lemma_kinds_differ();
    let sessions = final(state)@.sessions;
    let hours = config.session_window_hours as nat;
    assert(shown_from(sessions, hours, config@, result));
    let now = choose|now: Moment|
        {
            &&& #[trigger] clock::read_from_clock(now)
            &&& now.valid()
            &&& result matches Ok(display)
            &&& display@ == display_of(newest_session(sessions, hours, now), config@)
        };
    law_newest_recent_session(sessions, hours, now);
    assert(clock::read_from_clock(now));
}

/// Where Simkl does not tell the activities, the cycle fails with that failure, and all that
/// was known stays.
pub proof fn law_failed_activities_end_the_cycle<
    A: FnOnce() -> Result<ActivitiesResponse, ApiError>,
    B: FnOnce() -> Result<Vec<PlaybackSession>, ApiError>,
    U: Fn() -> Duration,
>(
    state: &mut PollState,
    config: Config,
    get_activities: A,
    get_playback: B,
    uptime: U,
    result: Result<Display, ApiError>,
)
    requires
        call_ensures(
            run_poll_cycle::<A, B, U>,
            (state, &config, None, get_activities, get_playback, &uptime),
            result,
        ),
        forall|answer: Result<ActivitiesResponse, ApiError>| #[trigger]
            call_ensures(get_activities, (), answer) ==> answer is Err,
    ensures
        result is Err,
        call_ensures(get_activities, (), Err(result->Err_0)),
        final(state)@ == old(state)@,
{
}

/// Whether the three categories tell other times than those seen last.
pub open spec fn times_moved(state: PollView, activities: ActivitiesResponse) -> bool {
    ||| (if activities.tv_shows is Some {
        activities.tv_shows->0.playback
    } else {
        None
    }) != state.tv
    ||| (if activities.anime is Some {
        activities.anime->0.playback
    } else {
        None
    }) != state.anime
    ||| (if activities.movies is Some {
        activities.movies->0.playback
    } else {
        None
    }) != state.movie
}

/// The sessions have to be fetched if the time of any category moved, if none were fetched
/// before, or if that lies two minutes back; and else not.
pub proof fn law_when_sessions_are_fetched(
    state: PollState,
    activities: ActivitiesResponse,
    uptime: Duration,
    needs: bool,
)
    requires
        call_ensures(PollState::needs_playback, (&state, &activities, uptime), needs),
    ensures
        needs <==> {
            ||| times_moved(state@, activities)
            ||| state@.fetched_at is None
            ||| uptime@ - state@.fetched_at->0 >= 120_000_000_000
        },
{
}

/// The sessions are fetched, and the new ones and the times of the categories kept, whenever a
/// time moved, none were fetched before, or two minutes have passed since. A fetch that fails
/// fails the cycle and leaves all as it was.
pub proof fn law_needed_sessions_are_fetched<
    A: FnOnce() -> Result<ActivitiesResponse, ApiError>,
    B: FnOnce() -> Result<Vec<PlaybackSession>, ApiError>,
    U: Fn() -> Duration,
>(
    state: &mut PollState,
    config: Config,
    get_activities: A,
    get_playback: B,
    uptime: U,
    activities: ActivitiesResponse,
    result: Result<Display, ApiError>,
)
    requires
        call_ensures(
            run_poll_cycle::<A, B, U>,
            (state, &config, None, get_activities, get_playback, &uptime),
            result,
        ),
        forall|answer: Result<ActivitiesResponse, ApiError>| #[trigger]
            call_ensures(get_activities, (), answer) ==> answer
                == Ok::<ActivitiesResponse, ApiError>(activities),
        times_moved(old(state)@, activities) || old(state)@.fetched_at is None || forall|
            at: Duration,
        | #[trigger]
            call_ensures(uptime, (), at) ==> at@ - old(state)@.fetched_at->0 >= 120_000_000_000,
    ensures
        result is Err ==> call_ensures(get_playback, (), Err(result->Err_0)) && final(state)@
            == old(state)@,
        result is Ok ==> {
            &&& exists|sessions: Vec<PlaybackSession>|
                {
                    &&& #[trigger] call_ensures(get_playback, (), Ok(sessions))
                    &&& final(state)@.sessions == playback::session_views(sessions@)
                }
            &&& !times_moved(final(state)@, activities)
            &&& exists|at: Duration| #[trigger]
                call_ensures(uptime, (), at) && final(state)@.fetched_at == Some(at@)
        },
{
    let before = old(state)@;
    let after = final(state)@;
    assert(playback_shown(before, after, activities, config@, get_playback, &uptime, result));
    let fetched = choose|fetched: Result<Vec<PlaybackSession>, ApiError>|
        {
            &&& #[trigger] call_ensures(get_playback, (), fetched)
            &&& match fetched {
                Err(failure) => result matches Err(f) && f == failure && after == before,
                Ok(sessions) => exists|at: Duration|
                    {
                        &&& #[trigger] call_ensures(uptime, (), at)
                        &&& after == before.fetched(
                            activities,
                            playback::session_views(sessions@),
                            at@,
                        )
                        &&& shown_from(
                            after.sessions,
                            config@.session_window_hours,
                            config@,
                            result,
                        )
                    },
            }
        };
    if let Ok(sessions) = fetched {
        assert(call_ensures(get_playback, (), Ok(sessions)));
        let at = choose|at: Duration|
            {
                &&& #[trigger] call_ensures(uptime, (), at)
                &&& after == before.fetched(activities, playback::session_views(sessions@), at@)
                &&& shown_from(after.sessions, config@.session_window_hours, config@, result)
            };
        assert(call_ensures(uptime, (), at));
    } else {
        assert(fetched == Err::<Vec<PlaybackSession>, ApiError>(result->Err_0));
    }
}

/// While no time has moved and less than two minutes have passed since the last fetch, nothing
/// is fetched: what was known stays, and the cycle succeeds.
pub proof fn law_known_sessions_serve_for_two_minutes<
    A: FnOnce() -> Result<ActivitiesResponse, ApiError>,
    B: FnOnce() -> Result<Vec<PlaybackSession>, ApiError>,
    U: Fn() -> Duration,
>(
    state: &mut PollState,
    config: Config,
    get_activities: A,
    get_playback: B,
    uptime: U,
    activities: ActivitiesResponse,
    result: Result<Display, ApiError>,
)
    requires
        call_ensures(
            run_poll_cycle::<A, B, U>,
            (state, &config, None, get_activities, get_playback, &uptime),
            result,
        ),
        forall|answer: Result<ActivitiesResponse, ApiError>| #[trigger]
            call_ensures(get_activities, (), answer) ==> answer
                == Ok::<ActivitiesResponse, ApiError>(activities),
        !times_moved(old(state)@, activities),
        old(state)@.fetched_at is Some,
        forall|at: Duration| #[trigger]
            call_ensures(uptime, (), at) ==> at@ - old(state)@.fetched_at->0 < 120_000_000_000,
    ensures
        result is Ok,
        final(state)@ == old(state)@,
{
}

/// After a fetch is recorded, the times of the categories count as seen, the sessions are the
/// new ones, and the fetch counts from then.
pub proof fn law_fetch_is_recorded(
    state: &mut PollState,
    activities: ActivitiesResponse,
    sessions: Vec<PlaybackSession>,
    uptime: Duration,
)
    requires
        call_ensures(PollState::record, (state, &activities, sessions, uptime), ()),
    ensures
        !times_moved(final(state)@, activities),
        final(state)@.fetched_at == Some(uptime@),
        final(state)@.sessions == playback::session_views(sessions@),
{
}

/// At first no time was seen, nothing was fetched, and no session is known.
pub proof fn law_nothing_is_known_at_first(state: PollState)
    requires
        call_ensures(PollState::new, (), state),
    ensures
        state@.tv is None,
        state@.anime is None,
        state@.movie is None,
        state@.fetched_at is None,
        state@.sessions.len() == 0,
{
}

/// A request to quit ends the loop, paused or not; a paused loop does not poll, and one that is
/// neither does.
pub proof fn law_loop_goes_by_the_users_wishes(
    quit_requested: bool,
    is_paused: bool,
    step: LoopStep,
)
    requires
        call_ensures(loop_step, (quit_requested, is_paused), step),
    ensures
        step == LoopStep::Quit <==> quit_requested,
        step == LoopStep::Idle <==> !quit_requested && is_paused,
        step == LoopStep::Poll <==> !quit_requested && !is_paused,
{
}

} // verus!
