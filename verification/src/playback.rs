//! What Simkl answers about playback, and the sessions in it.

use vstd::prelude::*;
use vstd::std_specs::convert::FromSpecImpl;
use vstd::string::*;

use crate::clock::Timestamp;
use crate::number;
use crate::number::read_u64;
use crate::state::{IdsView, MediaIds, MediaType, PlaybackSession, SessionView};
use crate::text;
use crate::text::same_text;

verus! {

// ---------------------------------------------------------------------------
// Flexible numbers
// ---------------------------------------------------------------------------
/// A number as Simkl gives it: in some answers as a number, in others as a text.
#[derive(Debug)]
pub enum FlexibleNumber {
    /// As a number.
    Num(u64),
    /// As a text.
    Str(String),
}

/// The number that is meant: none if it is absent or an empty text, and an error (`None`
/// outside) if the text does not write a `u64`.
pub open spec fn flexible_value(value: Option<FlexibleNumber>) -> Option<Option<nat>> {
    match value {
        None => Some(None),
        Some(FlexibleNumber::Num(n)) => Some(Some(n as nat)),
        Some(FlexibleNumber::Str(s)) => if s@.len() == 0 {
            Some(None)
        } else {
            match number::unsigned_value(s@, u64::MAX as nat) {
                Some(n) => Some(Some(n)),
                None => None,
            }
        },
    }
}

/// A text stands where a number is expected, and does not write one.
#[derive(Debug)]
pub struct NotANumber {
    /// The text.
    pub text: String,
}

/// The number that is meant, where there is one.
pub fn deserialize(value: Option<FlexibleNumber>) -> (number: Result<Option<u64>, NotANumber>)
    ensures
        match flexible_value(value) {
            Some(Some(n)) => number matches Ok(Some(got)) && got == n,
            Some(None) => number matches Ok(None),
            None => value matches Some(FlexibleNumber::Str(s)) && number matches Err(e) && e.text
                == s,
        },
{
    match value {
        None => Ok(None),
        Some(FlexibleNumber::Num(n)) => Ok(Some(n)),
        Some(FlexibleNumber::Str(s)) => {
            if s.as_str().is_empty() {
                Ok(None)
            } else {
                match read_u64(s.as_str()) {
                    Some(n) => Ok(Some(n)),
                    None => Err(NotANumber { text: s }),
                }
            }
        },
    }
}

// ---------------------------------------------------------------------------
// /sync/activities
// ---------------------------------------------------------------------------
/// The activities in one category.
#[derive(Clone, Copy, Debug)]
pub struct ActivitiesCategory {
    /// When playback was last paused or stopped.
    pub playback: Option<Timestamp>,
}

/// Timestamps returned by GET /sync/activities.
/// We only care about the `playback` field per category — it advances whenever
/// a `/scrobble/pause` or `/scrobble/stop` (<80%) event occurs.
///
/// Note: `/scrobble/start` does NOT advance these timestamps.  An active
/// start-session ("NOW WATCHING" in the Simkl web UI) is internal state that
/// has no public GET endpoint in the Simkl API.
#[derive(Debug)]
pub struct ActivitiesResponse {
    /// TV shows.
    pub tv_shows: Option<ActivitiesCategory>,
    /// Anime.
    pub anime: Option<ActivitiesCategory>,
    /// Movies.
    pub movies: Option<ActivitiesCategory>,
}

/// When playback in a category was last paused or stopped.
pub open spec fn category_playback(category: Option<ActivitiesCategory>) -> Option<Timestamp> {
    match category {
        Some(c) => c.playback,
        None => None,
    }
}

impl ActivitiesResponse {
    /// When playback of a TV show was last paused or stopped.
    pub fn tv_playback(&self) -> (playback: Option<Timestamp>)
        ensures
            playback == category_playback(self.tv_shows),
    {
        match self.tv_shows {
            Some(c) => c.playback,
            None => None,
        }
    }

    /// When playback of an anime was last paused or stopped.
    pub fn anime_playback(&self) -> (playback: Option<Timestamp>)
        ensures
            playback == category_playback(self.anime),
    {
        match self.anime {
            Some(c) => c.playback,
            None => None,
        }
    }

    /// When playback of a movie was last paused or stopped.
    pub fn movie_playback(&self) -> (playback: Option<Timestamp>)
        ensures
            playback == category_playback(self.movies),
    {
        match self.movies {
            Some(c) => c.playback,
            None => None,
        }
    }
}

// ---------------------------------------------------------------------------
// /sync/playback
// ---------------------------------------------------------------------------
/// Identifiers as Simkl gives them.
#[derive(Debug)]
pub struct RawIds {
    /// Number at Simkl.
    pub simkl: Option<u64>,
    /// Name in Simkl's links.
    pub slug: Option<String>,
    /// Number at TMDB.
    pub tmdb: Option<u64>,
    /// Identifier at IMDb.
    pub imdb: Option<String>,
    /// Identifier at MyAnimeList.
    pub mal: Option<String>,
}

impl From<RawIds> for MediaIds {
    fn from(raw: RawIds) -> (ids: MediaIds) {
        MediaIds {
            simkl: raw.simkl,
            slug: raw.slug,
            tmdb: raw.tmdb,
            imdb: raw.imdb,
            mal: raw.mal,
        }
    }
}

impl FromSpecImpl<RawIds> for MediaIds {
    open spec fn obeys_from_spec() -> bool {
        true
    }

    open spec fn from_spec(raw: RawIds) -> MediaIds {
        MediaIds {
            simkl: raw.simkl,
            slug: raw.slug,
            tmdb: raw.tmdb,
            imdb: raw.imdb,
            mal: raw.mal,
        }
    }
}

/// A TV show as Simkl gives it.
#[derive(Debug)]
pub struct RawShow {
    /// Title.
    pub title: String,
    /// Year of release.
    pub year: Option<u32>,
    /// Identifiers.
    pub ids: RawIds,
}

/// A movie as Simkl gives it.
#[derive(Debug)]
pub struct RawMovie {
    /// Title.
    pub title: String,
    /// Year of release.
    pub year: Option<u32>,
    /// Identifiers.
    pub ids: RawIds,
}

/// An anime as Simkl gives it.
#[derive(Debug)]
pub struct RawAnime {
    /// Title.
    pub title: String,
    /// Year of release.
    pub year: Option<u32>,
    /// "tv", "movie", etc.
    pub anime_type: Option<String>,
    /// Identifiers.
    pub ids: RawIds,
}

/// Episode info inside a /sync/playback entry.
///
/// The API docs example showed the key as `"episode"`, but real responses use
/// `"number"`.  We accept both so we are robust against either form.
#[derive(Debug)]
pub struct RawEpisode {
    /// Season number.
    pub season: Option<u32>,
    /// Actual field name in live responses.
    pub number: Option<u32>,
    /// Documented field name — present in some response examples; kept as
    /// a fallback in case some endpoints still use it.
    pub episode_fallback: Option<u32>,
    /// Title of the episode.
    pub title: Option<String>,
}

impl RawEpisode {
    /// Whichever episode-number field is populated, preferring `number`.
    pub open spec fn chosen_number(self) -> Option<u32> {
        match self.number {
            Some(n) => Some(n),
            None => self.episode_fallback,
        }
    }

    /// Returns whichever episode-number field is populated, preferring `number`.
    pub fn episode_number(&self) -> (number: Option<u32>)
        ensures
            number == self.chosen_number(),
    {
        match self.number {
            Some(n) => Some(n),
            None => self.episode_fallback,
        }
    }
}

/// An entry of /sync/playback.
#[derive(Debug)]
pub struct RawPlaybackEntry {
    /// Number of the session.
    pub id: u64,
    /// Percentage watched: the bits of a double-precision number, carried along unread.
    pub progress: u64,
    /// When playback paused.
    pub paused_at: Timestamp,
    /// "episode" or "movie".
    pub entry_type: String,
    /// The TV show, for an episode of one.
    pub show: Option<RawShow>,
    /// The movie.
    pub movie: Option<RawMovie>,
    /// The anime, for an episode of one.
    pub anime: Option<RawAnime>,
    /// The episode.
    pub episode: Option<RawEpisode>,
}

impl RawPlaybackEntry {
    /// The session that has the id, the progress and the pause of this entry.
    pub open spec fn session_of(
        self,
        media_type: MediaType,
        title: String,
        year: Option<u32>,
        ids: RawIds,
        anime_type: Option<String>,
        episode: Option<RawEpisode>,
    ) -> SessionView {
        SessionView {
            id: self.id,
            progress: self.progress,
            paused_at: self.paused_at@,
            media_type,
            title: title@,
            year,
            ids: IdsView {
                simkl: ids.simkl,
                slug: text::optional_text(ids.slug),
                tmdb: ids.tmdb,
                imdb: text::optional_text(ids.imdb),
                mal: text::optional_text(ids.mal),
            },
            season: (match episode {
                Some(e) => e.season,
                None => None,
            }),
            episode: (match episode {
                Some(e) => e.chosen_number(),
                None => None,
            }),
            episode_title: (match episode {
                Some(e) => text::optional_text(e.title),
                None => None,
            }),
            anime_type: text::optional_text(anime_type),
            live_start: None,
            runtime_mins: None,
        }
    }

    /// The session in this entry: an episode of a show, or else of an anime, or a movie.
    /// An entry of another type holds none, nor does one that lacks what it is of.
    pub open spec fn session(self) -> Option<SessionView> {
        if self.entry_type@ == "episode"@ {
            match (self.show, self.anime) {
                (Some(show), _) => Some(
                    self.session_of(
                        MediaType::Episode,
                        show.title,
                        show.year,
                        show.ids,
                        None,
                        self.episode,
                    ),
                ),
                (None, Some(anime)) => {
                    let media_type = if text::optional_text(anime.anime_type) == Some("movie"@) {
                        MediaType::AnimeMovie
                    } else {
                        MediaType::Anime
                    };
                    Some(
                        self.session_of(
                            media_type,
                            anime.title,
                            anime.year,
                            anime.ids,
                            anime.anime_type,
                            self.episode,
                        ),
                    )
                },
                (None, None) => None,
            }
        } else if self.entry_type@ == "movie"@ {
            match self.movie {
                Some(movie) => Some(
                    self.session_of(
                        MediaType::Movie,
                        movie.title,
                        movie.year,
                        movie.ids,
                        None,
                        None,
                    ),
                ),
                None => None,
            }
        } else {
            None
        }
    }

    /// Convert to the canonical `PlaybackSession`.
    pub fn into_session(self) -> (session: Option<PlaybackSession>)
        ensures
            crate::state::optional_session(session) == self.session(),
    {
        if same_text(self.entry_type.as_str(), "episode") {
            let (season, episode, episode_title) = match &self.episode {
                Some(e) => (e.season, e.episode_number(), e.title.clone()),
                None => (None, None, None),
            };
            // Could be a TV show or anime episode.
            if let Some(show) = self.show {
                Some(
                    PlaybackSession {
                        id: self.id,
                        progress: self.progress,
                        paused_at: self.paused_at,
                        media_type: MediaType::Episode,
                        title: show.title,
                        year: show.year,
                        ids: MediaIds::from(show.ids),
                        season,
                        episode,
                        episode_title,
                        anime_type: None,
                        live_start: None,
                        runtime_mins: None,
                    },
                )
            } else if let Some(anime) = self.anime {
                let is_movie = match &anime.anime_type {
                    Some(t) => same_text(t.as_str(), "movie"),
                    None => false,
                };
                Some(
                    PlaybackSession {
                        id: self.id,
                        progress: self.progress,
                        paused_at: self.paused_at,
                        media_type: if is_movie {
                            MediaType::AnimeMovie
                        } else {
                            MediaType::Anime
                        },
                        title: anime.title,
                        year: anime.year,
                        ids: MediaIds::from(anime.ids),
                        season,
                        episode,
                        episode_title,
                        anime_type: anime.anime_type,
                        live_start: None,
                        runtime_mins: None,
                    },
                )
            } else {
                None
            }
        } else if same_text(self.entry_type.as_str(), "movie") {
            match self.movie {
                Some(movie) => Some(
                    PlaybackSession {
                        id: self.id,
                        progress: self.progress,
                        paused_at: self.paused_at,
                        media_type: MediaType::Movie,
                        title: movie.title,
                        year: movie.year,
                        ids: MediaIds::from(movie.ids),
                        season: None,
                        episode: None,
                        episode_title: None,
                        anime_type: None,
                        live_start: None,
                        runtime_mins: None,
                    },
                ),
                None => None,
            }
        } else {
            None
        }
    }
}

/// The views of sessions.
pub open spec fn session_views(sessions: Seq<PlaybackSession>) -> Seq<SessionView> {
    sessions.map_values(|session: PlaybackSession| session@)
}

/// The sessions in the entries, in their order.
pub open spec fn sessions_in(entries: Seq<RawPlaybackEntry>) -> Seq<SessionView>
    decreases entries.len(),
{
    if entries.len() == 0 {
        Seq::empty()
    } else {
        let before = sessions_in(entries.drop_last());
        match entries.last().session() {
            Some(session) => before.push(session),
            None => before,
        }
    }
}

/// The sessions in an answer of /sync/playback. Simkl answers `null` (no entries at all,
/// here `None`) when there are no sessions.
pub fn playback_sessions(entries: Option<Vec<RawPlaybackEntry>>) -> (sessions: Vec<
    PlaybackSession,
>)
    ensures
        session_views(sessions@) == (match entries {
            Some(e) => sessions_in(e@),
            None => Seq::empty(),
        }),
{
    let mut sessions: Vec<PlaybackSession> = Vec::new();
    if let Some(entries) = entries {
        let ghost all = entries@;
        for entry in it: entries
            invariant
                it.seq() == all,
                session_views(sessions@) == sessions_in(all.take(it.index() as int)),
        {
            assert(all.take(it.index() + 1).drop_last() == all.take(it.index() as int));
            let ghost before = sessions@;
            if let Some(session) = entry.into_session() {
                sessions.push(session);
                assert(session_views(sessions@) == session_views(before).push(session@));
            }
        }
        assert(all.take(all.len() as int) == all);
    }
    sessions
}

/// A number means the same whether it comes as a number or as a text.
pub proof fn law_both_forms_mean_the_same(n: u64, written: String)
    requires
        written@ == number::decimal(n as nat),
    ensures
        flexible_value(Some(FlexibleNumber::Str(written))) == flexible_value(
            Some(FlexibleNumber::Num(n)),
        ),
{
    number::lemma_decimal(n as nat);
    number::law_decimal_reads_back(n as nat, u64::MAX as nat);
}

/// No entry gives more than one session, and none gives a live one.
pub proof fn law_playback_sessions_are_not_live(entries: Seq<RawPlaybackEntry>)
    ensures
        sessions_in(entries).len() <= entries.len(),
        forall|i: int|
            0 <= i < sessions_in(entries).len() ==> (#[trigger] sessions_in(
                entries,
            )[i]).live_start is None,
    decreases entries.len(),
{
    if entries.len() > 0 {
        law_playback_sessions_are_not_live(entries.drop_last());
    }
}

/// The number of an episode is the one under the name that live answers use. The documented
/// name counts only where that one is missing. It is so for shows and for anime, and season
/// and title of the episode are taken over as they are.
pub proof fn law_live_episode_number_comes_first(
    entry: RawPlaybackEntry,
    episode: RawEpisode,
    session: Option<PlaybackSession>,
)
    requires
        call_ensures(RawPlaybackEntry::into_session, (entry,), session),
        entry.entry_type@ == "episode"@,
        entry.show is Some || entry.anime is Some,
        entry.episode == Some(episode),
    ensures
        session is Some,
        episode.number is Some ==> session->0.episode == episode.number,
        episode.number is None ==> session->0.episode == episode.episode_fallback,
        session->0.season == episode.season,
        session->0.episode_title is Some <==> episode.title is Some,
        episode.title is Some ==> session->0.episode_title->0@ == episode.title->0@,
{
}

/// The number of an episode, wherever it is asked for, is the one under the name that live
/// answers use, and that under the documented name only where the former is missing.
pub proof fn law_live_number_is_preferred(episode: RawEpisode, number: Option<u32>)
    requires
        call_ensures(RawEpisode::episode_number, (&episode,), number),
    ensures
        episode.number is Some ==> number == episode.number,
        episode.number is None ==> number == episode.episode_fallback,
{
}

/// Without episode info a session has neither season nor episode.
pub proof fn law_no_episode_info_no_episode(
    entry: RawPlaybackEntry,
    session: Option<PlaybackSession>,
)
    requires
        call_ensures(RawPlaybackEntry::into_session, (entry,), session),
        entry.episode is None,
        session is Some,
    ensures
        session->0.season is None,
        session->0.episode is None,
        session->0.episode_title is None,
{
}

/// Whatever an entry is of, the session has the number, the progress and the pause of the
/// entry, and is not a live one.
pub proof fn law_session_keeps_the_pause(
    entry: RawPlaybackEntry,
    session: Option<PlaybackSession>,
)
    requires
        call_ensures(RawPlaybackEntry::into_session, (entry,), session),
        session is Some,
    ensures
        session->0.id == entry.id,
        session->0.progress == entry.progress,
        session->0.paused_at@ == entry.paused_at@,
        session->0.live_start is None,
        session->0.runtime_mins is None,
{
}

/// An episode of a show is a session of that show, with all that tells the show apart, even
/// where the entry names an anime or a movie too.
pub proof fn law_show_makes_a_show_session(
    entry: RawPlaybackEntry,
    show: RawShow,
    session: Option<PlaybackSession>,
)
    requires
        call_ensures(RawPlaybackEntry::into_session, (entry,), session),
        entry.entry_type@ == "episode"@,
        entry.show == Some(show),
    ensures
        session is Some,
        session->0.media_type == MediaType::Episode,
        session->0.title@ == show.title@,
        session->0.year == show.year,
        session->0.anime_type is None,
        same_ids(session->0@.ids, show.ids),
{
}

/// An episode of an anime is a session of that anime. It counts as an anime movie if, and only
/// if, Simkl calls the anime a movie.
pub proof fn law_anime_makes_an_anime_session(
    entry: RawPlaybackEntry,
    anime: RawAnime,
    session: Option<PlaybackSession>,
)
    requires
        call_ensures(RawPlaybackEntry::into_session, (entry,), session),
        entry.entry_type@ == "episode"@,
        entry.show is None,
        entry.anime == Some(anime),
    ensures
        session is Some,
        anime.anime_type is Some && anime.anime_type->0@ == "movie"@ ==> session->0.media_type
            == MediaType::AnimeMovie,
        anime.anime_type is None || anime.anime_type->0@ != "movie"@ ==> session->0.media_type
            == MediaType::Anime,
        session->0.title@ == anime.title@,
        session->0.year == anime.year,
        session->0.anime_type is Some <==> anime.anime_type is Some,
        anime.anime_type is Some ==> session->0.anime_type->0@ == anime.anime_type->0@,
        same_ids(session->0@.ids, anime.ids),
{
}

/// A movie is a session of that movie, without season or episode, whatever else the entry
/// holds.
pub proof fn law_movie_makes_a_movie_session(
    entry: RawPlaybackEntry,
    movie: RawMovie,
    session: Option<PlaybackSession>,
)
    requires
        call_ensures(RawPlaybackEntry::into_session, (entry,), session),
        entry.entry_type@ == "movie"@,
        entry.movie == Some(movie),
    ensures
        session is Some,
        session->0.media_type == MediaType::Movie,
        session->0.title@ == movie.title@,
        session->0.year == movie.year,
        session->0.season is None,
        session->0.episode is None,
        session->0.episode_title is None,
        session->0.anime_type is None,
        same_ids(session->0@.ids, movie.ids),
{
    reveal_strlit("episode");
    reveal_strlit("movie");
    assert("episode"@[0] != "movie"@[0]);
}

/// An entry gives no session if, and only if, it is neither of an episode whose show or anime
/// it names, nor of a movie that it names.
pub proof fn law_entry_of_nothing_is_left_out(
    entry: RawPlaybackEntry,
    session: Option<PlaybackSession>,
)
    requires
        call_ensures(RawPlaybackEntry::into_session, (entry,), session),
    ensures
        session is Some <==> ({
            ||| entry.entry_type@ == "episode"@ && (entry.show is Some || entry.anime is Some)
            ||| entry.entry_type@ == "movie"@ && entry.movie is Some
        }),
{
    reveal_strlit("episode");
    reveal_strlit("movie");
    assert("episode"@[0] != "movie"@[0]);
}

/// Whether all identifiers are taken over, each in its place.
pub open spec fn same_ids(ids: IdsView, raw: RawIds) -> bool {
    &&& ids.simkl == raw.simkl
    &&& ids.tmdb == raw.tmdb
    &&& ids.slug is Some <==> raw.slug is Some
    &&& raw.slug is Some ==> ids.slug->0 == raw.slug->0@
    &&& ids.imdb is Some <==> raw.imdb is Some
    &&& raw.imdb is Some ==> ids.imdb->0 == raw.imdb->0@
    &&& ids.mal is Some <==> raw.mal is Some
    &&& raw.mal is Some ==> ids.mal->0 == raw.mal->0@
}

/// The sessions of an answer are those of its parts, one after the other: none is lost, added
/// or moved. An answer with no entries has none.
pub proof fn law_sessions_come_in_order(
    front: Seq<RawPlaybackEntry>,
    back: Seq<RawPlaybackEntry>,
)
    ensures
        sessions_in(front + back) == sessions_in(front) + sessions_in(back),
    decreases back.len(),
{
    let whole = front + back;
    if back.len() == 0 {
        assert(whole == front);
    } else {
        law_sessions_come_in_order(front, back.drop_last());
        assert(whole.drop_last() == front + back.drop_last());
        assert(whole.last() == back.last());
    }
}

/// An answer with one entry has the session of that entry, if it has one, and no other. An
/// answer without entries, and one that is `null`, has no sessions.
pub proof fn law_each_entry_gives_its_session(
    entry: RawPlaybackEntry,
    entries: Option<Vec<RawPlaybackEntry>>,
    session: Option<PlaybackSession>,
    sessions: Vec<PlaybackSession>,
)
    requires
        call_ensures(RawPlaybackEntry::into_session, (entry,), session),
        call_ensures(playback_sessions, (entries,), sessions),
    ensures
        entries is None ==> sessions@.len() == 0,
        entries is Some && entries->0@.len() == 0 ==> sessions@.len() == 0,
        entries is Some && entries->0@ == seq![entry] && session is Some ==> sessions@.len() == 1
            && sessions@[0]@ == session->0@,
        entries is Some && entries->0@ == seq![entry] && session is None ==> sessions@.len() == 0,
        entries is Some ==> session_views(sessions@) == sessions_in(entries->0@),
{
    let got = session_views(sessions@);
    assert(got.len() == sessions@.len());
    if sessions@.len() > 0 {
        assert(got[0] == sessions@[0]@);
    }
    let one = seq![entry];
    assert(one.drop_last() == Seq::<RawPlaybackEntry>::empty());
    assert(one.last() == entry);
    assert(sessions_in(one.drop_last()) == Seq::<SessionView>::empty());
    if session is Some {
        assert(sessions_in(one) == seq![session->0@]);
    } else {
        assert(sessions_in(one) == Seq::<SessionView>::empty());
    }
}

/// Each category tells its own time, and none that is missing tells one.
pub proof fn law_categories_are_told_apart(
    activities: ActivitiesResponse,
    tv: Option<Timestamp>,
    anime: Option<Timestamp>,
    movie: Option<Timestamp>,
)
    requires
        call_ensures(ActivitiesResponse::tv_playback, (&activities,), tv),
        call_ensures(ActivitiesResponse::anime_playback, (&activities,), anime),
        call_ensures(ActivitiesResponse::movie_playback, (&activities,), movie),
    ensures
        activities.tv_shows is Some ==> tv == activities.tv_shows->0.playback,
        activities.tv_shows is None ==> tv is None,
        activities.anime is Some ==> anime == activities.anime->0.playback,
        activities.anime is None ==> anime is None,
        activities.movies is Some ==> movie == activities.movies->0.playback,
        activities.movies is None ==> movie is None,
{
}

/// A number given as a number is that number. An absent one, and an empty text, is none. A
/// text that writes a number is that number, and any other text is an error that tells it.
pub proof fn law_flexible_number_is_read(
    value: Option<FlexibleNumber>,
    number: Result<Option<u64>, NotANumber>,
)
    requires
        call_ensures(deserialize, (value,), number),
    ensures
        value is None ==> number == Ok::<Option<u64>, NotANumber>(None),
        value matches Some(FlexibleNumber::Num(n)) ==> number == Ok::<Option<u64>, NotANumber>(
            Some(n),
        ),
        value matches Some(FlexibleNumber::Str(s)) ==> {
            &&& s@.len() == 0 ==> number == Ok::<Option<u64>, NotANumber>(None)
            &&& forall|n: u64|
                s@ == #[trigger] number::decimal(n as nat) ==> number == Ok::<
                    Option<u64>,
                    NotANumber,
                >(Some(n))
            &&& s@.len() > 0 && number::unsigned_value(s@, 18_446_744_073_709_551_615) is None
                ==> number is Err
            &&& s@.len() > 0 && !number::is_digit(s@.last()) ==> number is Err
            &&& number is Err ==> number->Err_0.text@ == s@
        },
{
    if let Some(FlexibleNumber::Str(s)) = value {
        assert forall|n: u64| s@ == #[trigger] number::decimal(n as nat) implies number == Ok::<
            Option<u64>,
            NotANumber,
        >(Some(n)) by {
            number::lemma_decimal(n as nat);
            number::law_decimal_reads_back(n as nat, u64::MAX as nat);
        }
        if s@.len() > 0 && !number::is_digit(s@.last()) {
            let rest = s@.skip(1);
            if rest.len() > 0 {
                assert(rest[rest.len() - 1] == s@.last());
            }
            assert(s@[s@.len() - 1] == s@.last());
        }
    }
}

} // verus!
