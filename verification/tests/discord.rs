//! What Discord shows.

use std::cell::{Cell, RefCell};

use dissimkl::clock::Timestamp;
use dissimkl::discord::{
    app_id_key_for, build_details, build_episode_state, build_presence, build_state,
    timestamps_fit, DiscordError, DiscordState, Presence, Watched,
};
use dissimkl::state::{MediaIds, MediaType, PlaybackSession};

fn session(media_type: MediaType) -> PlaybackSession {
    PlaybackSession {
        id: 7,
        progress: 0,
        paused_at: Timestamp::from_parts(10_000, 0).unwrap(),
        media_type,
        title: "Title".to_string(),
        year: Some(1987),
        ids: MediaIds {
            simkl: Some(1029),
            slug: Some("slug".to_string()),
            tmdb: None,
            imdb: Some("tt1".to_string()),
            mal: Some("2".to_string()),
        },
        season: Some(1),
        episode: Some(16),
        episode_title: Some("Too Short a Season".to_string()),
        anime_type: None,
        live_start: None,
        runtime_mins: None,
    }
}

fn watched() -> Watched {
    Watched { secs: 600, percent: "43".to_string() }
}

#[test]
fn details_name_category_title_and_year() {
    let mut s = session(MediaType::Episode);
    assert_eq!(build_details(&s), "TV Show • Title (1987)");
    s.year = None;
    assert_eq!(build_details(&s), "TV Show • Title");
    assert_eq!(build_details(&session(MediaType::Movie)), "Movie • Title (1987)");
    assert_eq!(build_details(&session(MediaType::Anime)), "Anime • Title (1987)");
    assert_eq!(build_details(&session(MediaType::AnimeMovie)), "Anime Movie • Title (1987)");
}

#[test]
fn state_names_episode_or_progress() {
    assert_eq!(build_state(&session(MediaType::Episode), "43"), "S01E16 • Too Short a Season");
    let mut m = session(MediaType::Movie);
    assert_eq!(build_state(&m, "43"), "43% watched");
    m.live_start = Some(1);
    assert_eq!(build_state(&m, "43"), "Watching now");
    assert_eq!(build_episode_state(Some(1), Some(2), None), "S01E02");
    assert_eq!(build_episode_state(Some(1), Some(2), Some("")), "S01E02");
    assert_eq!(build_episode_state(Some(100), Some(2), Some("x")), "S100E02 • x");
    assert_eq!(build_episode_state(None, Some(2), Some("x")), "Episode");
    assert_eq!(build_episode_state(Some(1), None, Some("x")), "Episode");
}

#[test]
fn presence_of_a_paused_episode() {
    let p = build_presence(&session(MediaType::Episode), None, &watched());
    assert_eq!(p.details, "TV Show • Title (1987)");
    assert_eq!(p.state, "S01E16 • Too Short a Season");
    assert_eq!(p.large_image, "simkl");
    assert_eq!(p.large_text, "Title");
    assert_eq!((p.small_image.as_str(), p.small_text.as_str()), ("simkl", "Simkl"));
    assert_eq!((p.start, p.end), (9_400, None));
    assert_eq!(
        p.buttons,
        vec![
            (
                "View on Simkl".to_string(),
                "https://simkl.com/tv/1029/slug/season-1/episode-16/".to_string()
            ),
            ("View on IMDb".to_string(), "https://www.imdb.com/title/tt1/".to_string()),
        ]
    );
}

#[test]
fn presence_of_a_live_session() {
    let mut s = session(MediaType::Movie);
    s.live_start = Some(5_000);
    s.runtime_mins = Some(90);
    let p = build_presence(&s, Some("https://poster"), &watched());
    assert_eq!(p.state, "Watching now");
    assert_eq!(p.large_image, "https://poster");
    assert_eq!((p.start, p.end), (5_000, Some(10_400)));
    // Progress and the moment of looking do not matter.
    let mut later = s.clone();
    later.progress = 77;
    later.paused_at = Timestamp::from_parts(20_000, 0).unwrap();
    let other = Watched { secs: 1, percent: "99".to_string() };
    assert!(p.same(&build_presence(&later, Some("https://poster"), &other)));
    s.runtime_mins = None;
    let endless = build_presence(&s, Some("https://poster"), &watched());
    assert_eq!(endless.end, None);
    assert!(!p.same(&endless));
}

#[test]
fn anime_links_to_myanimelist() {
    let mut s = session(MediaType::AnimeMovie);
    let labels = |s: &PlaybackSession| -> Vec<String> {
        build_presence(s, None, &watched()).buttons.into_iter().map(|(label, _)| label).collect()
    };
    assert_eq!(labels(&s), vec!["View on Simkl", "View on MyAnimeList"]);
    s.ids.mal = None;
    assert_eq!(labels(&s), vec!["View on Simkl", "View on IMDb"]);
    s.ids.slug = None;
    assert_eq!(labels(&s), vec!["View on IMDb"]);
    s.ids = MediaIds::default();
    assert!(labels(&s).is_empty());
}

#[test]
fn times_beyond_64_bits() {
    let mut s = session(MediaType::Episode);
    assert!(timestamps_fit(&s, i64::MAX));
    assert!(!timestamps_fit(&s, i64::MIN));
    s.live_start = Some(0);
    s.runtime_mins = Some(i64::MAX as u64 / 60);
    assert!(timestamps_fit(&s, i64::MIN));
    s.runtime_mins = Some(i64::MAX as u64 / 60 + 1);
    assert!(!timestamps_fit(&s, 0));
    s.live_start = Some(-60);
    assert!(timestamps_fit(&s, 0));
    s.runtime_mins = Some(u64::MAX);
    assert!(!timestamps_fit(&s, 0));
    s.live_start = Some(i64::MAX);
    s.runtime_mins = Some(1);
    assert!(!timestamps_fit(&s, 0));
}

#[test]
fn key_of_the_application() {
    assert_eq!(app_id_key_for(&session(MediaType::Episode)), "shows");
    assert_eq!(app_id_key_for(&session(MediaType::Movie)), "movies");
    assert_eq!(app_id_key_for(&session(MediaType::Anime)), "anime");
    assert_eq!(app_id_key_for(&session(MediaType::AnimeMovie)), "anime");
}

#[derive(Default)]
struct Wire {
    log: RefCell<Vec<String>>,
    broken: Cell<bool>,
}

impl Wire {
    fn say(&self, what: &str) -> Result<(), String> {
        self.log.borrow_mut().push(what.to_string());
        if self.broken.get() {
            Err("broken".to_string())
        } else {
            Ok(())
        }
    }

    fn take(&self) -> Vec<String> {
        self.log.borrow_mut().drain(..).collect()
    }

    fn watch(&self, d: &mut DiscordState, s: &PlaybackSession, id: &str) -> Result<bool, DiscordError> {
        d.set_watching(
            s,
            None,
            id,
            &watched(),
            |id: &str| self.say(&format!("connect {id}")),
            || self.log.borrow_mut().push("close other".to_string()),
            |p: &Presence| self.say(&format!("send {}", p.details)),
            || self.log.borrow_mut().push("close refused".to_string()),
        )
    }

    fn clear(&self, d: &mut DiscordState) -> Result<bool, DiscordError> {
        d.clear(|| self.say("clear"), || self.log.borrow_mut().push("close".to_string()))
    }
}

#[test]
fn presence_is_sent_once() {
    let wire = Wire::default();
    let mut d = DiscordState::new();
    assert!(!d.is_connected());
    let s = session(MediaType::Movie);
    assert!(wire.watch(&mut d, &s, "1").unwrap());
    assert!(d.is_connected());
    assert_eq!(wire.take(), vec!["connect 1", "send Movie • Title (1987)"]);
    assert!(!wire.watch(&mut d, &s, "1").unwrap());
    assert!(wire.take().is_empty());
    let mut other = s.clone();
    other.title = "Other".to_string();
    assert!(wire.watch(&mut d, &other, "1").unwrap());
    assert_eq!(wire.take(), vec!["send Movie • Other (1987)"]);
}

#[test]
fn other_application_reconnects() {
    let wire = Wire::default();
    let mut d = DiscordState::new();
    let s = session(MediaType::Movie);
    assert!(wire.watch(&mut d, &s, "1").unwrap());
    wire.take();
    assert!(wire.watch(&mut d, &s, "2").unwrap());
    assert_eq!(wire.take(), vec!["close other", "connect 2", "send Movie • Title (1987)"]);
    wire.broken.set(true);
    let e = wire.watch(&mut d, &s, "3").unwrap_err();
    assert_eq!(
        e.message(),
        "Connecting to Discord before set_watching: ensure_connected: \
         Failed to connect to Discord IPC: broken"
    );
    assert_eq!(wire.take(), vec!["close other", "connect 3"]);
    assert!(!d.is_connected());
}

#[test]
fn failed_send_disconnects() {
    let wire = Wire::default();
    let mut d = DiscordState::new();
    let s = session(MediaType::Movie);
    assert!(wire.watch(&mut d, &s, "1").unwrap());
    wire.take();
    wire.broken.set(true);
    let mut other = s.clone();
    other.title = "Other".to_string();
    let e = wire.watch(&mut d, &other, "1").unwrap_err();
    assert_eq!(e.message(), "set_activity failed: broken");
    assert_eq!(wire.take(), vec!["send Movie • Other (1987)", "close refused"]);
    assert!(!d.is_connected());
    wire.broken.set(false);
    assert!(wire.watch(&mut d, &s, "1").unwrap());
    assert_eq!(wire.take(), vec!["connect 1", "send Movie • Title (1987)"]);
}

#[test]
fn clear_is_sent_once() {
    let wire = Wire::default();
    let mut d = DiscordState::new();
    assert!(!wire.clear(&mut d).unwrap());
    let s = session(MediaType::Movie);
    assert!(wire.watch(&mut d, &s, "1").unwrap());
    wire.take();
    assert!(wire.clear(&mut d).unwrap());
    assert!(!wire.clear(&mut d).unwrap());
    assert_eq!(wire.take(), vec!["clear"]);
    assert!(d.is_connected());
    assert!(wire.watch(&mut d, &s, "1").unwrap());
    assert_eq!(wire.take(), vec!["send Movie • Title (1987)"]);
    wire.broken.set(true);
    let e = wire.clear(&mut d).unwrap_err();
    assert_eq!(e.message(), "clear_activity failed: broken");
    assert_eq!(wire.take(), vec!["clear", "close"]);
    assert!(!d.is_connected());
}

#[test]
fn disconnect_forgets_the_presence() {
    let wire = Wire::default();
    let mut d = DiscordState::new();
    let closed = Cell::new(0);
    let close = || closed.set(closed.get() + 1);
    d.disconnect(&close);
    assert_eq!(closed.get(), 0);
    let s = session(MediaType::Movie);
    assert!(wire.watch(&mut d, &s, "1").unwrap());
    d.disconnect(&close);
    assert_eq!(closed.get(), 1);
    assert!(!d.is_connected());
    assert!(wire.watch(&mut d, &s, "1").unwrap());
}
