//! Sessions: labels, links, what playback entries come to.

use dissimkl::clock::Timestamp;
use dissimkl::playback::{
    deserialize, playback_sessions, ActivitiesCategory, ActivitiesResponse, FlexibleNumber,
    RawAnime, RawEpisode, RawIds, RawMovie, RawPlaybackEntry, RawShow,
};
use dissimkl::state::{AppState, MediaIds, MediaType, PlaybackSession};

fn at(secs: i64) -> Timestamp {
    Timestamp::from_parts(secs, 0).unwrap()
}

fn session(media_type: MediaType) -> PlaybackSession {
    PlaybackSession {
        id: 7,
        progress: 42.5f64.to_bits(),
        paused_at: at(1_700_000_000),
        media_type,
        title: "Star Trek: The Next Generation".to_string(),
        year: Some(1987),
        ids: MediaIds {
            simkl: Some(1029),
            slug: Some("star-trek-the-next-generation".to_string()),
            tmdb: Some(655),
            imdb: Some("tt0092455".to_string()),
            mal: Some("16498".to_string()),
        },
        season: Some(1),
        episode: Some(16),
        episode_title: Some("Too Short a Season".to_string()),
        anime_type: None,
        live_start: None,
        runtime_mins: None,
    }
}

#[test]
fn labels_of_episodes_and_movies() {
    let mut s = session(MediaType::Episode);
    assert_eq!(s.display_label(), "Star Trek: The Next Generation S01E16");
    s.episode = Some(123);
    assert_eq!(s.display_label(), "Star Trek: The Next Generation S01E123");
    s.season = None;
    assert_eq!(s.display_label(), "Star Trek: The Next Generation");
    let mut m = session(MediaType::Movie);
    assert_eq!(m.display_label(), "Star Trek: The Next Generation (1987)");
    m.year = None;
    assert_eq!(m.display_label(), "Star Trek: The Next Generation");
    let mut a = session(MediaType::AnimeMovie);
    assert_eq!(a.display_label(), "Star Trek: The Next Generation (1987)");
    a.live_start = Some(1);
    assert!(a.is_live());
    assert_eq!(a.display_label(), "▶ Star Trek: The Next Generation (1987)");
}

#[test]
fn links_of_a_session() {
    let mut s = session(MediaType::Episode);
    assert_eq!(
        s.simkl_url().unwrap(),
        "https://simkl.com/tv/1029/star-trek-the-next-generation/season-1/episode-16/"
    );
    assert_eq!(s.imdb_url().unwrap(), "https://www.imdb.com/title/tt0092455/");
    assert_eq!(s.mal_url().unwrap(), "https://myanimelist.net/anime/16498");
    s.season = None;
    assert_eq!(
        s.simkl_url().unwrap(),
        "https://simkl.com/tv/1029/star-trek-the-next-generation/"
    );
    s.ids.slug = None;
    assert_eq!(s.simkl_url(), None);
    s.ids = MediaIds::default();
    assert_eq!(s.imdb_url(), None);
    assert_eq!(s.mal_url(), None);
    let m = session(MediaType::Movie);
    assert_eq!(
        m.simkl_url().unwrap(),
        "https://simkl.com/movies/1029/star-trek-the-next-generation/"
    );
    let a = session(MediaType::AnimeMovie);
    assert_eq!(
        a.simkl_url().unwrap(),
        "https://simkl.com/anime/1029/star-trek-the-next-generation/"
    );
}

#[test]
fn link_of_a_session_reads_back() {
    for media_type in [MediaType::Episode, MediaType::Anime] {
        let s = session(media_type);
        let url = s.simkl_url().unwrap();
        let path = url.strip_prefix("https://simkl.com").unwrap();
        let (kind, id, slug, season, episode) =
            dissimkl::dashboard::parse_media_href(path).unwrap();
        assert_eq!(kind, if media_type == MediaType::Anime { "anime" } else { "tv" });
        assert_eq!(id, 1029);
        assert_eq!(slug, "star-trek-the-next-generation");
        assert_eq!(season, Some(1));
        assert_eq!(episode, Some(16));
    }
}

#[test]
fn estimated_runtimes() {
    assert_eq!(session(MediaType::Episode).estimated_runtime_secs(), 2700);
    assert_eq!(session(MediaType::Anime).estimated_runtime_secs(), 1500);
    assert_eq!(session(MediaType::Movie).estimated_runtime_secs(), 6600);
    assert_eq!(session(MediaType::AnimeMovie).estimated_runtime_secs(), 6600);
}

#[test]
fn status_of_the_app() {
    let mut state = AppState::new();
    assert_eq!(state.status_text(), "dissimkl — Nothing playing");
    state.watch(session(MediaType::Movie), true);
    assert!(state.discord_connected);
    assert_eq!(state.status_text(), "dissimkl — Star Trek: The Next Generation (1987)");
    state.toggle_pause();
    assert_eq!(state.status_text(), "dissimkl — Paused");
    state.toggle_pause();
    assert_eq!(state.status_text(), "dissimkl — Star Trek: The Next Generation (1987)");
    state.idle();
    assert!(state.discord_connected);
    assert_eq!(state.status_text(), "dissimkl — Nothing playing");
}

fn ids() -> RawIds {
    RawIds {
        simkl: Some(5),
        slug: Some("slug".to_string()),
        tmdb: Some(6),
        imdb: Some("tt7".to_string()),
        mal: Some("8".to_string()),
    }
}

fn entry(entry_type: &str) -> RawPlaybackEntry {
    RawPlaybackEntry {
        id: 99,
        progress: 12.5f64.to_bits(),
        paused_at: at(1_600_000_000),
        entry_type: entry_type.to_string(),
        show: None,
        movie: None,
        anime: None,
        episode: Some(RawEpisode {
            season: Some(2),
            number: None,
            episode_fallback: Some(3),
            title: Some("Pilot".to_string()),
        }),
    }
}

fn show() -> RawShow {
    RawShow { title: "Show".to_string(), year: Some(2001), ids: ids() }
}

fn anime(anime_type: Option<&str>) -> RawAnime {
    RawAnime {
        title: "Anime".to_string(),
        year: None,
        anime_type: anime_type.map(str::to_string),
        ids: ids(),
    }
}

#[test]
fn episode_of_a_show() {
    let mut e = entry("episode");
    e.show = Some(show());
    e.anime = Some(anime(None));
    let s = e.into_session().unwrap();
    assert_eq!(s.media_type, MediaType::Episode);
    assert_eq!(s.id, 99);
    assert_eq!(s.progress, 12.5f64.to_bits());
    assert_eq!(s.paused_at, at(1_600_000_000));
    assert_eq!(s.title, "Show");
    assert_eq!(s.year, Some(2001));
    assert_eq!(s.ids.simkl, Some(5));
    assert_eq!(s.ids.slug.as_deref(), Some("slug"));
    assert_eq!(s.ids.tmdb, Some(6));
    assert_eq!(s.ids.imdb.as_deref(), Some("tt7"));
    assert_eq!(s.ids.mal.as_deref(), Some("8"));
    assert_eq!(s.season, Some(2));
    assert_eq!(s.episode, Some(3));
    assert_eq!(s.episode_title.as_deref(), Some("Pilot"));
    assert_eq!(s.anime_type, None);
    assert!(!s.is_live());
    assert_eq!(s.runtime_mins, None);
}

#[test]
fn episode_of_an_anime() {
    let mut e = entry("episode");
    e.anime = Some(anime(Some("tv")));
    let s = e.into_session().unwrap();
    assert_eq!(s.media_type, MediaType::Anime);
    assert_eq!(s.anime_type.as_deref(), Some("tv"));
    let mut e = entry("episode");
    e.anime = Some(anime(Some("movie")));
    e.episode = None;
    let s = e.into_session().unwrap();
    assert_eq!(s.media_type, MediaType::AnimeMovie);
    assert_eq!((s.season, s.episode, s.episode_title), (None, None, None));
}

#[test]
fn movie_entry_has_no_episode() {
    let mut e = entry("movie");
    e.movie = Some(RawMovie { title: "Movie".to_string(), year: Some(1999), ids: ids() });
    let s = e.into_session().unwrap();
    assert_eq!(s.media_type, MediaType::Movie);
    assert_eq!((s.season, s.episode, s.episode_title), (None, None, None));
}

#[test]
fn entries_without_a_session() {
    assert!(entry("episode").into_session().is_none());
    assert!(entry("movie").into_session().is_none());
    let mut other = entry("trailer");
    other.show = Some(show());
    assert!(other.into_session().is_none());
}

#[test]
fn number_is_preferred_to_the_documented_field() {
    let e = RawEpisode { season: None, number: Some(4), episode_fallback: Some(5), title: None };
    assert_eq!(e.episode_number(), Some(4));
}

#[test]
fn sessions_keep_their_order() {
    let mut first = entry("episode");
    first.show = Some(show());
    let mut third = entry("episode");
    third.anime = Some(anime(None));
    let sessions = playback_sessions(Some(vec![first, entry("episode"), third]));
    let titles: Vec<&str> = sessions.iter().map(|s| s.title.as_str()).collect();
    assert_eq!(titles, vec!["Show", "Anime"]);
    assert!(sessions.iter().all(|s| !s.is_live()));
    assert!(playback_sessions(None).is_empty());
}

#[test]
fn flexible_numbers() {
    assert_eq!(deserialize(None).unwrap(), None);
    assert_eq!(deserialize(Some(FlexibleNumber::Num(12))).unwrap(), Some(12));
    assert_eq!(deserialize(Some(FlexibleNumber::Str("12".to_string()))).unwrap(), Some(12));
    assert_eq!(deserialize(Some(FlexibleNumber::Str(String::new()))).unwrap(), None);
    assert_eq!(
        deserialize(Some(FlexibleNumber::Str("18446744073709551615".to_string()))).unwrap(),
        Some(u64::MAX)
    );
    for wrong in ["x", "-1", " 1", "18446744073709551616"] {
        let error = deserialize(Some(FlexibleNumber::Str(wrong.to_string()))).unwrap_err();
        assert_eq!(error.text, wrong);
    }
}

#[test]
fn playback_times_by_category() {
    let activities = ActivitiesResponse {
        tv_shows: Some(ActivitiesCategory { playback: Some(at(1)) }),
        anime: Some(ActivitiesCategory { playback: None }),
        movies: None,
    };
    assert_eq!(activities.tv_playback(), Some(at(1)));
    assert_eq!(activities.anime_playback(), None);
    assert_eq!(activities.movie_playback(), None);
    let swapped = ActivitiesResponse {
        tv_shows: None,
        anime: Some(ActivitiesCategory { playback: Some(at(2)) }),
        movies: Some(ActivitiesCategory { playback: Some(at(3)) }),
    };
    assert_eq!(swapped.tv_playback(), None);
    assert_eq!(swapped.anime_playback(), Some(at(2)));
    assert_eq!(swapped.movie_playback(), Some(at(3)));
}

#[test]
fn moments() {
    assert!(Timestamp::from_parts(0, 2_000_000_000).is_none());
    assert!(Timestamp::from_parts(0, 1_000_000_000).is_none());
    assert!(Timestamp::from_parts(59, 1_500_000_000).is_some());
    assert!(Timestamp::from_parts(i64::MAX, 0).is_none());
    assert!(Timestamp::from_parts(i64::MIN, 0).is_none());
    let first = Timestamp::from_parts(-8_334_601_228_800, 0).unwrap();
    let last = Timestamp::from_parts(8_210_266_876_799, 999_999_999).unwrap();
    assert_eq!(last.seconds_since(&first), 16_544_868_105_599);
    assert_eq!(first.seconds_since(&last), -16_544_868_105_599);
    let early = Timestamp::from_parts(10, 900_000_000).unwrap();
    let late = Timestamp::from_parts(12, 100_000_000).unwrap();
    assert_eq!(late.seconds_since(&early), 1);
    assert_eq!(early.seconds_since(&late), -1);
    assert!(late.is_after(&early));
    assert!(!early.is_after(&late));
    assert!(!early.is_after(&early));
    assert!(early.same(&early) && !early.same(&late));
    assert_eq!((late.secs(), late.nanos()), (12, 100_000_000));
    // A leap second counts for what lies behind it on the same day.
    let leap = Timestamp::from_parts(59, 1_000_000_000).unwrap();
    assert_eq!(at(61).seconds_since(&leap), 2);
}
