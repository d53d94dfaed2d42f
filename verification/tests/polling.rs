//! Poll cycles, PIN authorization, the tray, the icon and the version.

use dissimkl::clock::Timestamp;
use dissimkl::config::Config;
use dissimkl::icon::{generate_icon_rgba, rgba_to_argb, ICON_SIZE};
use dissimkl::pin::{
    pin_url, poll_url, PinAuth, PinError, PinPollResponse, PinStep, PollReply,
};
use dissimkl::playback::{ActivitiesCategory, ActivitiesResponse};
use dissimkl::poll::{loop_step, run_poll_cycle, Display, LoopStep, PollState};
use dissimkl::retry::{Duration, RetryError};
use dissimkl::simkl::ApiError;
use dissimkl::state::{MediaIds, MediaType, PlaybackSession};
use dissimkl::tray::{menu_action, pause_label, MenuAction};
use dissimkl::version::{dev_base, dev_version, release_version, reported_version, short_sha};

fn at(secs: i64) -> Timestamp {
    Timestamp::from_parts(secs, 0).unwrap()
}

fn session(id: u64, paused: i64) -> PlaybackSession {
    PlaybackSession {
        id,
        progress: 0,
        paused_at: at(paused),
        media_type: MediaType::Movie,
        title: "t".to_string(),
        year: None,
        ids: MediaIds { simkl: Some(id * 10), ..Default::default() },
        season: None,
        episode: None,
        episode_title: None,
        anime_type: None,
        live_start: None,
        runtime_mins: None,
    }
}

fn activities(tv: Option<i64>, anime: Option<i64>, movies: Option<i64>) -> ActivitiesResponse {
    let category = |t: Option<i64>| t.map(|t| ActivitiesCategory { playback: Some(at(t)) });
    ActivitiesResponse { tv_shows: category(tv), anime: category(anime), movies: category(movies) }
}

#[test]
fn playback_is_fetched_when_needed() {
    let mut state = PollState::new();
    let seen = activities(Some(1), None, Some(3));
    assert!(state.needs_playback(&seen, Duration::from_secs(0)));
    state.record(&seen, vec![], Duration::from_secs(100));
    assert!(!state.needs_playback(&seen, Duration::from_secs(100)));
    assert!(!state.needs_playback(&seen, Duration::from_millis(219_999)));
    assert!(state.needs_playback(&seen, Duration::from_secs(220)));
    assert!(!state.needs_playback(&seen, Duration::from_secs(50)));
    let now = Duration::from_secs(101);
    assert!(state.needs_playback(&activities(Some(2), None, Some(3)), now));
    assert!(state.needs_playback(&activities(None, None, Some(3)), now));
    assert!(state.needs_playback(&activities(Some(1), Some(2), Some(3)), now));
    assert!(state.needs_playback(&activities(Some(1), None, Some(4)), now));
}

#[test]
fn newest_session_within_the_window() {
    let mut state = PollState::new();
    let now = at(100_000);
    let none = activities(None, None, None);
    let start = Duration::from_secs(0);
    assert!(state.newest_session(4, &now).is_none());
    let newest = |state: &PollState, hours| state.newest_session(hours, &now).map(|s| s.id);
    state.record(&none, vec![session(1, 90_000), session(2, 95_000), session(3, 80_000)], start);
    assert_eq!(newest(&state, 4), Some(2));
    assert_eq!(newest(&state, 1), None);
    state.record(&none, vec![session(1, 100_001), session(2, 95_000), session(3, 95_000)], start);
    assert_eq!(newest(&state, 4), Some(2));
    // Newest first, as Simkl lists them: the first within the window.
    state.record(&none, vec![session(1, 200_000), session(2, 99_000), session(3, 98_000)], start);
    assert_eq!(newest(&state, 4), Some(2));
}

fn config() -> Config {
    let mut c = Config::default();
    c.discord_app_id_movies = Some("app".to_string());
    c.session_window_hours = 100_000_000;
    c
}

fn failure(text: &str) -> RetryError {
    RetryError { attempts: 1, last_error: text.to_string() }
}

#[test]
fn live_session_is_shown_at_once() {
    let mut state = PollState::new();
    let mut live = session(5, 0);
    live.live_start = Some(1);
    let shown = run_poll_cycle(
        &mut state,
        &config(),
        Some(live),
        || panic!("no need to ask"),
        || panic!("no need to ask"),
        &|| panic!("no need to ask"),
    );
    match shown.unwrap() {
        Display::Show { session, poster_of, app_id } => {
            assert_eq!(session.id, 5);
            assert_eq!(poster_of, Some(50));
            assert_eq!(app_id.as_deref(), Some("app"));
        }
        Display::Nothing => panic!("something is watched"),
    }
}

#[test]
fn cycle_fetches_shows_and_caches() {
    let mut state = PollState::new();
    let uptime = || Duration::from_secs(7);
    let shown = run_poll_cycle(
        &mut state,
        &config(),
        None,
        || Ok(activities(Some(1), None, None)),
        || Ok(vec![session(1, 1_000_000), session(2, 2_000_000)]),
        &uptime,
    );
    assert!(matches!(shown, Ok(Display::Show { session, .. }) if session.id == 2));
    let again = run_poll_cycle(
        &mut state,
        &Config::default(),
        None,
        || Ok(activities(Some(1), None, None)),
        || panic!("nothing happened"),
        &uptime,
    );
    // With a window of 4 hours they are too old.
    assert!(matches!(again, Ok(Display::Nothing)));
    let mut no_app = config();
    no_app.discord_app_id_movies = None;
    let skipped = run_poll_cycle(
        &mut state,
        &no_app,
        None,
        || Ok(activities(Some(1), None, None)),
        || panic!("nothing happened"),
        &uptime,
    );
    assert!(matches!(skipped, Ok(Display::Show { app_id: None, .. })));
}

#[test]
fn cycle_hands_failures_on() {
    let mut state = PollState::new();
    let uptime = || Duration::from_secs(7);
    let lost = run_poll_cycle(
        &mut state,
        &config(),
        None,
        || Err(ApiError::Activities(failure("activities"))),
        || panic!("not asked"),
        &uptime,
    );
    assert!(matches!(lost, Err(ApiError::Activities(e)) if e.last_error == "activities"));
    let lost = run_poll_cycle(
        &mut state,
        &config(),
        None,
        || Ok(activities(None, None, None)),
        || Err(ApiError::Playback(failure("playback"))),
        &uptime,
    );
    assert!(matches!(lost, Err(ApiError::Playback(e)) if e.last_error == "playback"));
    // Nothing was fetched yet.
    assert!(state.needs_playback(&activities(None, None, None), Duration::from_secs(0)));
}

#[test]
fn steps_of_the_loop() {
    assert_eq!(loop_step(true, true), LoopStep::Quit);
    assert_eq!(loop_step(true, false), LoopStep::Quit);
    assert_eq!(loop_step(false, true), LoopStep::Idle);
    assert_eq!(loop_step(false, false), LoopStep::Poll);
}

fn answer(result: &str, message: Option<&str>, token: Option<&str>) -> PollReply {
    PollReply::Answer(PinPollResponse {
        result: result.to_string(),
        message: message.map(str::to_string),
        access_token: token.map(str::to_string),
    })
}

#[test]
fn pin_addresses() {
    assert_eq!(
        pin_url("id"),
        "https://api.simkl.com/oauth/pin?client_id=id&redirect=urn:ietf:wg:oauth:2.0:oob"
    );
    assert_eq!(poll_url("CODE", "id"), "https://api.simkl.com/oauth/pin/CODE?client_id=id");
}

#[test]
fn pin_polling() {
    let mut auth = PinAuth::new(2, 900);
    assert_eq!(auth.interval_secs(), 5);
    assert_eq!(PinAuth::new(9, 900).interval_secs(), 9);
    assert!(matches!(auth.answered(PollReply::NoReply), PinStep::Wait));
    assert!(matches!(auth.answered(PollReply::Unreadable), PinStep::Wait));
    let pending = answer("KO", Some("Authorization pending"), None);
    assert!(matches!(auth.answered(pending), PinStep::Wait));
    assert!(matches!(auth.answered(answer("KO", None, None)), PinStep::Wait));
    assert!(matches!(auth.answered(answer("??", Some("Slow down"), None)), PinStep::Wait));
    assert_eq!(auth.interval_secs(), 5);
    assert!(matches!(auth.answered(answer("KO", Some("Slow down!"), None)), PinStep::Wait));
    assert_eq!(auth.interval_secs(), 10);
    match auth.answered(answer("OK", None, Some("tok"))) {
        PinStep::Authorized(token) => assert_eq!(token, "tok"),
        other => panic!("{other:?}"),
    }
    match auth.answered(answer("OK", None, None)) {
        PinStep::Failed(e) => {
            assert_eq!(e, PinError::NoToken);
            assert_eq!(e.message(), "Server returned OK but no access_token");
        }
        other => panic!("{other:?}"),
    }
}

#[test]
fn pin_expires() {
    let auth = PinAuth::new(5, 900);
    assert_eq!(auth.check_deadline(Duration::from_secs(900)), Ok(()));
    let e = auth.check_deadline(Duration::from_millis(900_001)).unwrap_err();
    assert_eq!(e, PinError::Expired);
    assert_eq!(e.message(), "PIN expired. Please restart the application and try again.");
    let mut auth = auth;
    let late = auth.poll(Duration::from_secs(901), || panic!("not asked"));
    assert!(matches!(late, PinStep::Failed(PinError::Expired)));
    let slow = || answer("KO", Some("Slow down"), None);
    assert!(matches!(auth.poll(Duration::from_secs(900), slow), PinStep::Wait));
    assert_eq!(auth.interval_secs(), 10);
}

#[test]
fn tray_menu() {
    assert_eq!(pause_label(false), "Pause");
    assert_eq!(pause_label(true), "Resume");
    assert_eq!(menu_action("pause"), Some(MenuAction::TogglePause));
    assert_eq!(menu_action("quit"), Some(MenuAction::Quit));
    assert_eq!(menu_action("Quit"), None);
}

/// The icon drawn with floating-point numbers.
fn drawn_icon() -> Vec<u8> {
    let size = ICON_SIZE as usize;
    let center = size as f32 / 2.0;
    let radius = center - 1.5;
    let mut pixels = vec![0u8; size * size * 4];
    for y in 0..size {
        for x in 0..size {
            let dx = x as f32 - center + 0.5;
            let dy = y as f32 - center + 0.5;
            let dist = (dx * dx + dy * dy).sqrt();
            if dist <= radius {
                let alpha = if dist > radius - 1.0 { ((radius - dist) * 255.0) as u8 } else { 255 };
                let at = (y * size + x) * 4;
                pixels[at..at + 4].copy_from_slice(&[28, 200, 210, alpha]);
            }
        }
    }
    pixels
}

#[test]
fn icon_is_a_smooth_circle() {
    let icon = generate_icon_rgba();
    assert_eq!(icon.len(), 4096);
    assert_eq!(icon, drawn_icon());
    assert_eq!(icon[0..4], [0, 0, 0, 0]);
    let middle = (16 * 32 + 16) * 4;
    assert_eq!(icon[middle..middle + 4], [28, 200, 210, 255]);
    for y in 0..32 {
        for x in 0..32 {
            let pixel = |x: usize, y: usize| icon[(y * 32 + x) * 4..(y * 32 + x) * 4 + 4].to_vec();
            assert_eq!(pixel(x, y), pixel(31 - x, y));
            assert_eq!(pixel(x, y), pixel(x, 31 - y));
        }
    }
}

#[test]
fn alpha_moves_to_the_front() {
    assert_eq!(rgba_to_argb(&vec![1, 2, 3, 4, 5, 6, 7, 8, 9]), vec![4, 1, 2, 3, 8, 5, 6, 7]);
    assert!(rgba_to_argb(&vec![]).is_empty());
    assert_eq!(rgba_to_argb(&generate_icon_rgba()).len(), 4096);
}

#[test]
fn versions() {
    assert_eq!(release_version("v1.2.3").as_deref(), Some("1.2.3"));
    assert_eq!(release_version(" 1.2.3\n").as_deref(), Some("1.2.3"));
    assert_eq!(release_version("vv1").as_deref(), Some("v1"));
    assert_eq!(release_version("v"), None);
    assert_eq!(release_version("  "), None);
    assert_eq!(dev_base("0.0.0-dev"), "0.0.0-dev");
    assert_eq!(dev_base("1.0.0"), "1.0.0-dev");
    assert_eq!(dev_version("0.0.0-dev", Some("2cd0b57"), false), "0.0.0-dev+g2cd0b57");
    assert_eq!(dev_version("0.0.0-dev", Some("2cd0b57"), true), "0.0.0-dev+g2cd0b57.dirty");
    assert_eq!(dev_version("1.0.0", None, true), "1.0.0-dev");
    assert_eq!(short_sha(" 2cd0b57ffff\n").as_deref(), Some("2cd0b57"));
    assert_eq!(short_sha("2cd0b5"), None);
    assert_eq!(short_sha("2cd0b5€"), None);
    assert_eq!(reported_version(Some("v2"), "1", None, false), "2");
    assert_eq!(reported_version(Some(""), "1", Some("abcdefg"), false), "1-dev+gabcdefg");
    assert_eq!(reported_version(None, "1", None, false), "1-dev");
}
