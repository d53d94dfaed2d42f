//! Reading the dashboard page.

use dissimkl::clock::Timestamp;
use dissimkl::dashboard::{
    clean_episode_title, extract_live_poster_url, parse_media_href, parse_now_watching,
    parse_now_watching_at, poster_url, simkl_poster_to_wsrv,
};
use dissimkl::state::MediaType;

const PAGE: &str = r#"<!DOCTYPE html>
<html><body>
<a href="/tv/1/elsewhere/">elsewhere</a>
<div id="simklScrobbleBar" data-started="1700000000" data-runtime="45" data-progress-at-start="12.5">
  <img data-src="//simkl.in/posters/25/25673dccc82356e_c.webp">
  <img src="https://simkl.in/posters/99/99aaa_c.webp">
  <a href="/profile/">me</a>
  <a href="/tv/1029/star-trek-the-next-generation/season-1/episode-16/"> Star <b>Trek</b> </a>
  <a href="/movies/12345/inception/">Inception</a>
  <span class="SimklScrobbleTitle"> </span>
  <span class="my-scrobble-title-x">Star Trek: TNG</span>
  <span class="SimklScrobbleEpInfo">S01E16   Season 1, Episode 16:  Too Short a Season</span>
</div></body></html>"#;

fn at(secs: i64) -> Timestamp {
    Timestamp::from_parts(secs, 0).unwrap()
}

#[test]
fn live_session_is_read() {
    let now = at(1_700_000_060);
    let live = parse_now_watching_at(PAGE, &now).unwrap();
    assert_eq!(live.elapsed_secs, 60);
    assert_eq!(live.progress_at_start.as_deref(), Some("12.5"));
    let s = live.session;
    assert_eq!(s.id, 0);
    assert_eq!(s.media_type, MediaType::Episode);
    assert_eq!(s.title, "Star Trek: TNG");
    assert_eq!(s.year, None);
    assert_eq!(s.ids.simkl, Some(1029));
    assert_eq!(s.ids.slug.as_deref(), Some("star-trek-the-next-generation"));
    assert_eq!((s.ids.tmdb, s.ids.imdb, s.ids.mal), (None, None, None));
    assert_eq!((s.season, s.episode), (Some(1), Some(16)));
    assert_eq!(s.episode_title.as_deref(), Some("Too Short a Season"));
    assert_eq!(s.live_start, Some(1_700_000_000));
    assert_eq!(s.runtime_mins, Some(45));
    assert_eq!(s.paused_at, now);
}

#[test]
fn live_session_is_read_now() {
    let live = parse_now_watching(PAGE).unwrap();
    assert_eq!(live.session.ids.simkl, Some(1029));
    assert!(live.elapsed_secs > 0);
    assert!(live.session.paused_at.secs() > 1_700_000_000);
}

#[test]
fn start_in_the_future_counts_as_now() {
    let live = parse_now_watching_at(PAGE, &at(1_600_000_000)).unwrap();
    assert_eq!(live.elapsed_secs, 0);
}

#[test]
fn link_text_is_the_title_of_last_resort() {
    let page = r#"<div id=simklScrobbleBar data-started=5 data-runtime=90>
        <a href="/movies/12345/inception/"> <i>Incep</i><i>tion</i> </a></div>"#;
    let live = parse_now_watching_at(page, &at(65)).unwrap();
    assert_eq!(live.session.title, "Incep tion");
    assert_eq!(live.session.media_type, MediaType::Movie);
    assert_eq!(live.session.episode_title, None);
    assert_eq!(live.progress_at_start, None);
    let anime = page.replace("/movies/", "/anime/");
    let live = parse_now_watching_at(&anime, &at(65)).unwrap();
    assert_eq!(live.session.media_type, MediaType::Anime);
}

#[test]
fn pages_without_a_live_session() {
    let now = at(0);
    for page in [
        "",
        "<p>nothing</p>",
        "<div id=simklScrobbleBar></div>",
        "<div id=simklScrobbleBar data-started=5 data-runtime=90></div>",
        "<div id=simklScrobbleBar data-started=5><a href=/tv/1/a/>a</a></div>",
        "<div id=simklScrobbleBar data-runtime=5><a href=/tv/1/a/>a</a></div>",
        "<div id=simklScrobbleBar data-started=x data-runtime=9><a href=/tv/1/a/>a</a></div>",
        "<div id=simklScrobbleBar data-started=5 data-runtime=-9><a href=/tv/1/a/>a</a></div>",
        "<div id=simklScrobbleBar data-started=5 data-runtime=9><a href=/tv/x/a/>a</a></div>",
    ] {
        assert!(parse_now_watching_at(page, &now).is_none(), "{page}");
    }
}

#[test]
fn media_links() {
    assert_eq!(
        parse_media_href("/tv/1029/star-trek-the-next-generation/season-1/episode-16/"),
        Some(("tv".into(), 1029, "star-trek-the-next-generation".into(), Some(1), Some(16)))
    );
    assert_eq!(
        parse_media_href("/movies/12345/inception/"),
        Some(("movies".into(), 12345, "inception".into(), None, None))
    );
    assert_eq!(
        parse_media_href("/anime/6789/attack-on-titan/season-1/episode-5/"),
        Some(("anime".into(), 6789, "attack-on-titan".into(), Some(1), Some(5)))
    );
    assert_eq!(
        parse_media_href("tv/1/a/season-1/season-2/season-x"),
        Some(("tv".into(), 1, "a".into(), None, None))
    );
    for wrong in [
        "", "/", "/tv/1/", "/tv//a/", "/tv/1//x/", "/books/1/a/", "/tv/one/a/", "/TV/1/a/",
        "https://simkl.com/tv/1/a/",
    ] {
        assert_eq!(parse_media_href(wrong), None, "{wrong}");
    }
}

#[test]
fn episode_titles() {
    assert_eq!(
        clean_episode_title("S01E16   Season 1, Episode 16:  Too Short a Season"),
        "Too Short a Season"
    );
    assert_eq!(clean_episode_title("Too Short a Season"), "Too Short a Season");
    assert_eq!(clean_episode_title(" a: b: c "), "c");
    assert_eq!(clean_episode_title(" a: "), "a:");
    assert_eq!(clean_episode_title(" : "), ":");
    assert_eq!(clean_episode_title("Part 2: "), "Part 2:");
    for raw in ["", " ", "a", " a:b ", "a: ", ":", "a::b: c", "Part 2: "] {
        let title = clean_episode_title(raw);
        assert_eq!(clean_episode_title(&title), title);
        assert_eq!(title.trim(), title);
        assert!(raw.contains(&title));
        assert_eq!(title.is_empty(), raw.trim().is_empty());
        if title.contains(':') {
            assert_eq!(title, raw.trim());
        }
    }
}

const POSTER: &str =
    "https://wsrv.nl/?url=https://simkl.in/posters/25/25673dccc82356e_m.webp";

#[test]
fn poster_addresses() {
    for protocol in ["", "http:", "https:"] {
        let src = format!("{protocol}//simkl.in/posters/25/25673dccc82356e_c.webp");
        assert_eq!(simkl_poster_to_wsrv(&src).as_deref(), Some(POSTER));
    }
    assert_eq!(poster_url("25673dccc82356e").as_deref(), Some(POSTER));
    assert_eq!(poster_url("2"), None);
    assert_eq!(poster_url(""), None);
    for wrong in [
        "",
        "//example.org/posters/25/25673_c.webp",
        "//simkl.in/posters/25673_c.webp",
        "//simkl.in/posters/2/2_c.webp",
        "//simkl.in/posters/2/_c.webp",
        "//simkl.in/posters/x/\u{20AC}_c.webp",
        "//simkl.in/posters/x/a\u{20AC}_c.webp",
    ] {
        assert_eq!(simkl_poster_to_wsrv(wrong), None, "{wrong}");
    }
    assert_eq!(poster_url("a€"), None);
    assert_eq!(
        poster_url("é1").as_deref(),
        Some("https://wsrv.nl/?url=https://simkl.in/posters/é/é1_m.webp")
    );
}

#[test]
fn live_poster_is_the_first_image() {
    assert_eq!(extract_live_poster_url(PAGE).as_deref(), Some(POSTER));
    let page = r#"<img src="//simkl.in/posters/11/11_c.webp"><div id=simklScrobbleBar></div>"#;
    assert_eq!(extract_live_poster_url(page), None);
    assert_eq!(extract_live_poster_url("<p>no bar</p>"), None);
    let odd = r#"<div id=simklScrobbleBar><img src="//simkl.in/posters/x/a€_c.webp"></div>"#;
    assert_eq!(extract_live_poster_url(odd), None);
}
