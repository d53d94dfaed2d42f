//! The Simkl client.

use dissimkl::clock::Timestamp;
use dissimkl::config::Config;
use dissimkl::playback::{ActivitiesCategory, ActivitiesResponse, RawPlaybackEntry, RawMovie, RawIds};
use dissimkl::retry::{Duration, ErrorKind};
use dissimkl::simkl::{
    pick_number, read_playback, read_settings, ApiError, Request, SimklClient, UserIdError,
};
use dissimkl::state::{MediaIds, MediaType, PlaybackSession};

fn client() -> SimklClient {
    SimklClient::new("client".to_string(), "token".to_string())
}

fn no_sleep(_: u32, _: Duration) -> u32 {
    panic!("nothing to wait for");
}

fn header<'a>(request: &'a Request, name: &str) -> Option<&'a str> {
    request.headers.iter().find(|(n, _)| n == name).map(|(_, v)| v.as_str())
}

#[test]
fn api_requests_carry_the_credentials() {
    let mut c = client();
    assert_eq!(c.base_url, "https://api.simkl.com");
    c.base_url = "http://localhost".to_string();
    let r = c.get_request("/sync/activities");
    assert_eq!(r.url, "http://localhost/sync/activities");
    assert!(r.query.is_empty());
    assert_eq!(r.headers.len(), 3);
    assert_eq!(header(&r, "Authorization"), Some("Bearer token"));
    assert_eq!(header(&r, "simkl-api-key"), Some("client"));
    assert_eq!(header(&r, "Content-Type"), Some("application/json"));
}

#[test]
fn client_serves_its_own_credentials() {
    let mut config = Config::default();
    config.simkl_client_id = "client".to_string();
    assert!(!client().serves(&config));
    config.simkl_access_token = Some("token".to_string());
    assert!(client().serves(&config));
    config.poll_interval_secs += 1;
    assert!(client().serves(&config));
    config.simkl_access_token = Some("other".to_string());
    assert!(!client().serves(&config));
    config.simkl_access_token = Some("token".to_string());
    config.simkl_client_id = "client2".to_string();
    assert!(!client().serves(&config));
}

#[test]
fn activities_are_asked_for_with_retries() {
    let ((calls, slept), result) = client().get_activities(
        (0u32, 0u128),
        |(calls, slept), r: &Request| {
            assert_eq!(r.url, "https://api.simkl.com/sync/activities");
            let answer = if calls < 2 {
                Err((ErrorKind::Retryable, "busy".to_string()))
            } else {
                Ok(ActivitiesResponse {
                    tv_shows: Some(ActivitiesCategory { playback: Timestamp::from_parts(5, 0) }),
                    anime: None,
                    movies: None,
                })
            };
            ((calls + 1, slept), answer)
        },
        |(calls, slept), d: Duration| (calls, slept + d.as_nanos()),
    );
    assert_eq!(result.unwrap().tv_playback(), Timestamp::from_parts(5, 0));
    assert_eq!(calls, 3);
    assert_eq!(slept, 1_500_000_000);
}

#[test]
fn activities_that_fail() {
    let fail = |calls: u32, _: &Request| (calls + 1, Err((ErrorKind::Fatal, "401".to_string())));
    let (calls, result) = client().get_activities(0, fail, no_sleep);
    assert_eq!(calls, 1);
    let error = result.unwrap_err();
    assert!(matches!(error, ApiError::Activities(_)));
    assert_eq!(error.message(), "get_activities failed: Failed after 1 attempt(s): 401");
}

fn movie(id: u64) -> RawPlaybackEntry {
    RawPlaybackEntry {
        id,
        progress: 0,
        paused_at: Timestamp::from_parts(0, 0).unwrap(),
        entry_type: "movie".to_string(),
        show: None,
        movie: Some(RawMovie {
            title: "Movie".to_string(),
            year: None,
            ids: RawIds { simkl: None, slug: None, tmdb: None, imdb: None, mal: None },
        }),
        anime: None,
        episode: None,
    }
}

#[test]
fn playback_is_fetched_and_read() {
    let (calls, result) = client().get_playback(
        0,
        |calls, r: &Request| {
            assert_eq!(r.url, "https://api.simkl.com/sync/playback");
            (calls + 1, Ok(b"[{}]".to_vec()))
        },
        |body: &Vec<u8>| {
            assert_eq!(body, b"[{}]");
            Ok(vec![movie(1), movie(2)])
        },
        no_sleep,
    );
    assert_eq!(calls, 1);
    let sessions = result.unwrap();
    assert_eq!(sessions.iter().map(|s| s.id).collect::<Vec<_>>(), vec![1, 2]);
}

#[test]
fn null_playback_means_no_sessions() {
    for body in ["null", " \n null\t\r\n"] {
        let (_, sessions) = client().get_playback(
            0,
            |calls, _: &Request| (calls, Ok(body.as_bytes().to_vec())),
            |_: &Vec<u8>| panic!("nothing to parse"),
            no_sleep,
        );
        assert!(sessions.unwrap().is_empty());
    }
}

#[test]
fn unreadable_playback_is_fatal() {
    let (calls, result) = client().get_playback(
        0,
        |calls, _: &Request| (calls + 1, Ok(b"nul".to_vec())),
        |_: &Vec<u8>| panic!("nothing to parse"),
        no_sleep,
    );
    assert_eq!(calls, 1);
    let error = result.unwrap_err();
    let start = "get_playback failed: Failed after 1 attempt(s): Failed to read playback body: \
                 Failed to read JSON: ";
    assert!(error.message().starts_with(start));
    assert!(error.message().len() > start.len());
    assert!(matches!(error, ApiError::Playback(_)));
    let (kind, message) =
        read_playback(&b"{}".to_vec(), &|_: &Vec<u8>| Err("a map".to_string())).unwrap_err();
    assert_eq!(kind, ErrorKind::Fatal);
    assert_eq!(message, "Failed to deserialise playback entries: a map");
}

const POSTER: &str = "https://wsrv.nl/?url=https://simkl.in/posters/ab/abc_m.webp";

#[test]
fn poster_is_fetched_once() {
    let mut c = client();
    let (calls, url) = c.get_poster_url(
        42,
        &MediaType::AnimeMovie,
        0,
        |calls, r: &Request| {
            assert_eq!(r.url, "https://api.simkl.com/anime/42");
            assert_eq!(r.query, vec![("extended".to_string(), "full".to_string())]);
            assert_eq!(r.headers, vec![("simkl-api-key".to_string(), "client".to_string())]);
            (calls + 1, Ok(Some("abc".to_string())))
        },
        no_sleep,
    );
    assert_eq!(calls, 1);
    assert_eq!(url.as_deref(), Some(POSTER));
    let (calls, again) = c.get_poster_url(
        42,
        &MediaType::AnimeMovie,
        7,
        |_, _: &Request| panic!("the poster is kept"),
        no_sleep,
    );
    assert_eq!(calls, 7);
    assert_eq!(again.as_deref(), Some(POSTER));
}

/// The poster of a movie that nothing is found about.
fn kept(c: &mut SimklClient, id: u64) -> Option<String> {
    let miss = |calls: u32, _: &Request| (calls, Err((ErrorKind::Fatal, "404".to_string())));
    c.get_poster_url(id, &MediaType::Movie, 0, miss, no_sleep).1
}

#[test]
fn titles_without_a_poster() {
    let mut c = client();
    for hash in [None, Some("a".to_string())] {
        let (calls, url) = c.get_poster_url(
            1,
            &MediaType::Movie,
            0,
            |calls, _: &Request| (calls + 1, Ok(hash.clone())),
            no_sleep,
        );
        assert_eq!(url, None);
        assert_eq!(calls, 1);
    }
    assert_eq!(kept(&mut c, 1), None);
}

#[test]
fn posters_used_longest_ago_are_dropped() {
    let mut c = client();
    for id in 0..128 {
        assert_eq!(c.keep_poster(id, Some("abc".to_string())).as_deref(), Some(POSTER));
    }
    // 0 is looked up, so 1 is the one used longest ago.
    assert!(kept(&mut c, 0).is_some());
    assert!(c.keep_poster(500, Some("xyz".to_string())).is_some());
    assert!(kept(&mut c, 0).is_some());
    assert!(kept(&mut c, 1).is_none());
    assert!(kept(&mut c, 2).is_some());
    // A poster that is kept already is replaced, and drops none.
    let new = c.keep_poster(3, Some("new".to_string())).unwrap();
    assert_eq!(kept(&mut c, 3), Some(new));
    for id in 4..128 {
        assert!(kept(&mut c, id).is_some());
    }
    assert_eq!(c.keep_poster(9, None), None);
    assert_eq!(c.keep_poster(9, Some("z".to_string())), None);
    assert!(kept(&mut c, 9).is_some());
}

#[test]
fn poster_stays_until_128_others_were_kept() {
    let mut c = client();
    assert!(c.keep_poster(1000, Some("abc".to_string())).is_some());
    for id in 0..127 {
        c.keep_poster(id, Some("xyz".to_string()));
    }
    let before = kept(&mut c, 1000);
    assert_eq!(before.as_deref(), Some(POSTER));
    for id in 0..128 {
        c.keep_poster(id, Some("xyz".to_string()));
    }
    assert_eq!(kept(&mut c, 1000), None);
}

fn paused(secs: i64) -> PlaybackSession {
    PlaybackSession {
        id: 1,
        progress: 0,
        paused_at: Timestamp::from_parts(secs, 0).unwrap(),
        media_type: MediaType::Movie,
        title: "t".to_string(),
        year: None,
        ids: MediaIds::default(),
        season: None,
        episode: None,
        episode_title: None,
        anime_type: None,
        live_start: None,
        runtime_mins: None,
    }
}

#[test]
fn window_of_sessions() {
    let now = Timestamp::from_parts(1_000_000, 0).unwrap();
    let shown = |secs, hours| SimklClient::should_show_session_at(&paused(secs), hours, &now);
    assert!(shown(1_000_000, 4));
    assert!(shown(1_000_000 - 4 * 3600 + 1, 4));
    assert!(!shown(1_000_000 - 4 * 3600, 4));
    assert!(shown(1_000_000 - 4 * 3600, 5));
    assert!(!shown(1_000_001, 4));
    assert!(!shown(1_000_000, 0));
    assert!(shown(0, i64::MAX as u64));
    assert!(shown(0, u64::MAX));
    let mut live = paused(5_000_000);
    live.live_start = Some(1);
    assert!(SimklClient::should_show_session_at(&live, 0, &now));
    // Less than a second in the future still counts as now.
    let mut soon = paused(0);
    soon.paused_at = Timestamp::from_parts(1_000_000, 500_000_000).unwrap();
    assert!(SimklClient::should_show_session_at(&soon, 4, &now));
}

#[test]
fn window_goes_by_the_clock() {
    assert!(!SimklClient::should_show_session(&paused(0), 4));
    assert!(SimklClient::should_show_session(&paused(0), 100_000_000));
    assert!(!SimklClient::should_show_session(&paused(8_000_000_000_000), 4));
}

#[test]
fn shapes_of_user_settings() {
    let read = |body: &str| read_settings(&body.as_bytes().to_vec());
    assert_eq!(read(r#"{"user":{"ids":{"simkl":12345},"id":1}}"#), Ok(Some(12345)));
    assert_eq!(read(r#"{"account":{"id":7},"user":{"simkl":8}}"#), Ok(Some(7)));
    assert_eq!(read(r#"{"user":{"simkl":8,"id":9}}"#), Ok(Some(8)));
    assert_eq!(read(r#"{"user":{"id":9}}"#), Ok(Some(9)));
    assert_eq!(read(r#"{"user":{"id":"9"},"account":{"id":-1}}"#), Ok(None));
    assert_eq!(read("[]"), Ok(None));
    let (kind, message) = read("{").unwrap_err();
    assert_eq!(kind, ErrorKind::Fatal);
    let start = "Failed to parse user settings: Failed to read JSON: ";
    assert!(message.starts_with(start));
    assert!(message.len() > start.len());
    assert_eq!(pick_number(&vec![None, Some(3), Some(4)]), Some(3));
    assert_eq!(pick_number(&vec![]), None);
}

#[test]
fn user_id_is_fetched_once() {
    let mut c = client();
    let fail = |calls: u32, _: &Request| (calls + 1, Err((ErrorKind::Fatal, "401".to_string())));
    assert_eq!(c.ensure_user_id(0, &fail, no_sleep), (1, None));
    match c.fetch_user_id(0, &fail, no_sleep) {
        (1, Err(UserIdError::Failed(e))) => assert_eq!(e.last_error, "401"),
        other => panic!("{other:?}"),
    }
    let empty = |calls: u32, _: &Request| (calls, Ok(b"{}".to_vec()));
    let missing = c.fetch_user_id(0, &empty, no_sleep).1.unwrap_err();
    assert!(matches!(missing, UserIdError::Missing));
    assert_eq!(
        missing.message(),
        "Cannot find user ID in /users/settings response. Full response logged at TRACE level. \
         Run with RUST_LOG=dissimkl=trace to inspect it."
    );
    let fetch = |calls: u32, r: &Request| {
        assert_eq!(r.url, "https://api.simkl.com/users/settings");
        (calls + 1, Ok(br#"{"account":{"id":77}}"#.to_vec()))
    };
    assert_eq!(c.ensure_user_id(0, &fetch, no_sleep), (1, Some(77)));
    assert_eq!(c.ensure_user_id(1, &fetch, no_sleep), (1, Some(77)));
}

const PAGE: &str = r#"<div id=simklScrobbleBar data-started=5 data-runtime=90>
    <img src="//simkl.in/posters/ab/abc_c.webp">
    <a href="/movies/42/inception/">Inception</a></div>"#;

#[test]
fn now_watching_keeps_the_poster() {
    let mut c = client();
    let settings = |mut seen: Vec<String>, r: &Request| {
        seen.push(r.url.clone());
        (seen, Ok(br#"{"user":{"id":9}}"#.to_vec()))
    };
    let page = |mut seen: Vec<String>, r: &Request| {
        assert_eq!(header(r, "Authorization"), Some("Bearer token"));
        assert_eq!(header(r, "Cookie"), Some("simkl_access_token=token"));
        assert_eq!(header(r, "Accept"), Some("text/html,application/xhtml+xml"));
        seen.push(r.url.clone());
        (seen, Some(PAGE.to_string()))
    };
    let (seen, live) = c.get_now_watching(Vec::new(), &settings, page, |seen, _: Duration| seen);
    let live = live.unwrap();
    assert_eq!(live.session.title, "Inception");
    assert_eq!(live.session.live_start, Some(5));
    assert_eq!(
        seen,
        vec!["https://api.simkl.com/users/settings", "https://simkl.com/9/dashboard/"]
    );
    let (_, url) = c.get_poster_url(
        42,
        &MediaType::Movie,
        0,
        |_, _: &Request| panic!("the poster is kept"),
        no_sleep,
    );
    assert_eq!(url.as_deref(), Some(POSTER));
}

#[test]
fn nothing_watched() {
    let mut c = client();
    let fail = |calls: u32, _: &Request| (calls + 1, Err((ErrorKind::Fatal, "401".to_string())));
    let settings = |calls: u32, _: &Request| (calls + 1, Ok(br#"{"user":{"id":9}}"#.to_vec()));
    let no_page = |calls: u32, _: &Request| (calls + 1, None);
    let unasked = |_: u32, _: &Request| -> (u32, Option<String>) { panic!("no user") };
    let empty = |calls: u32, _: &Request| (calls + 1, Some("<p>idle</p>".to_string()));
    assert!(matches!(c.get_now_watching(0, &fail, unasked, no_sleep), (1, None)));
    assert!(matches!(c.get_now_watching(0, &settings, no_page, no_sleep), (2, None)));
    // The number is known by now.
    assert!(matches!(c.get_now_watching(0, &fail, empty, no_sleep), (1, None)));
}

#[test]
fn poster_address_that_cannot_be_made() {
    let page = PAGE.replace("abc_c", "a€_c");
    let now = Timestamp::from_parts(100, 0).unwrap();
    let mut c = client();
    assert!(c.read_dashboard(&page, &now).is_some());
    assert!(c.read_dashboard("<p></p>", &now).is_none());
    assert_eq!(kept(&mut c, 42), None);
    // A poster that is kept is not replaced by that on the page.
    let new = c.keep_poster(42, Some("xyz".to_string()));
    let live = c.read_dashboard(PAGE, &now).unwrap();
    assert_eq!(live.elapsed_secs, 95);
    assert_eq!(kept(&mut c, 42), new);
}
