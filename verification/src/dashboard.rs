//! The scrobble bar of the Simkl dashboard, which shows what is being watched now.

use vstd::prelude::*;
use vstd::string::*;

use crate::clock;
use crate::clock::{Moment, Timestamp};
use crate::number;
use crate::number::{read_i64, read_u32, read_u64};
use crate::page;
use crate::page::{ElementView, PageElement, PageRegion, RegionView};
use crate::state;
use crate::state::{IdsView, MediaIds, MediaType, PlaybackSession, SessionView};
use crate::text;
use crate::text::Edge;

verus! {

// ---------------------------------------------------------------------------
// Media links
// ---------------------------------------------------------------------------
/// What a link to a media page tells.
pub ghost struct MediaLink {
    /// The kind of page: "tv", "movies" or "anime".
    pub kind: Seq<char>,
    /// Number at Simkl.
    pub id: nat,
    /// Name in the link.
    pub slug: Seq<char>,
    /// Season number.
    pub season: Option<nat>,
    /// Episode number.
    pub episode: Option<nat>,
}

/// Whether `kind` is a kind of media page.
pub open spec fn is_media_kind(kind: Seq<char>) -> bool {
    kind == "tv"@ || kind == "movies"@ || kind == "anime"@
}

/// The number behind `mark` in the last of `parts` that begins with `mark`.
/// `None` if no part does, or if what follows there is no number.
pub open spec fn marked_number(parts: Seq<Seq<char>>, mark: Seq<char>) -> Option<nat>
    decreases parts.len(),
{
    if parts.len() == 0 {
        None
    } else {
        match text::after_prefix(parts.last(), mark) {
            Some(digits) => number::unsigned_value(digits, u32::MAX as nat),
            None => marked_number(parts.drop_last(), mark),
        }
    }
}

/// What the link `href` tells, if it leads to a media page.
pub open spec fn media_link(href: Seq<char>) -> Option<MediaLink> {
    let parts = text::pieces(text::stripped(href, Edge::Slash), '/');
    if parts.len() < 3 || !is_media_kind(parts[0]) || parts[2].len() == 0 {
        None
    } else {
        match number::unsigned_value(parts[1], u64::MAX as nat) {
            Some(id) => Some(
                MediaLink {
                    kind: parts[0],
                    id,
                    slug: parts[2],
                    season: marked_number(parts.skip(3), "season-"@),
                    episode: marked_number(parts.skip(3), "episode-"@),
                },
            ),
            None => None,
        }
    }
}

/// A number that may be absent, as a natural number.
pub open spec fn optional_nat(n: Option<u32>) -> Option<nat> {
    match n {
        Some(v) => Some(v as nat),
        None => None,
    }
}

/// Parse an href like `/tv/1029/star-trek-the-next-generation/season-1/episode-16/`
/// into `(kind, simkl_id, slug, season, episode)`.
/// Returns `None` if the href does not match a known media URL pattern.
pub fn parse_media_href(href: &str) -> (link: Option<
    (String, u64, String, Option<u32>, Option<u32>),
>)
    ensures
        match link {
            Some((kind, id, slug, season, episode)) => media_link(href@) == Some(
                MediaLink {
                    kind: kind@,
                    id: id as nat,
                    slug: slug@,
                    season: optional_nat(season),
                    episode: optional_nat(episode),
                },
            ),
            None => media_link(href@) is None,
        },
{
    let parts = text::split(text::strip(href, Edge::Slash), '/');
    let ghost all = text::texts(parts@);
    if parts.len() < 3 {
        return None;
    }
    let kind = parts[0].as_str();
    assert(all[0] == kind@);
    if !(text::same_text(kind, "tv") || text::same_text(kind, "movies") || text::same_text(
        kind,
        "anime",
    )) {
        return None;
    }
    assert(all[1] == parts@[1]@);
    assert(all[2] == parts@[2]@);
    let id: u64 = match read_u64(parts[1].as_str()) {
        Some(id) => id,
        None => {
            return None;
        },
    };
    if parts[2].as_str().is_empty() {
        return None;
    }
    let mut season: Option<u32> = None;
    let mut episode: Option<u32> = None;
    let mut i: usize = 3;
    let ghost rest = all.skip(3);
    assert(rest.take(0) == Seq::<Seq<char>>::empty());
    while i < parts.len()
        invariant
            3 <= i <= parts.len(),
            all == text::texts(parts@),
            rest == all.skip(3),
            optional_nat(season) == marked_number(rest.take(i - 3), "season-"@),
            optional_nat(episode) == marked_number(rest.take(i - 3), "episode-"@),
        decreases parts.len() - i,
    {
        let part = parts[i].as_str();
        let ghost next = rest.take(i - 2);
        assert(next.drop_last() == rest.take(i - 3));
        assert(next.last() == part@);
        match text::strip_prefix(part, "season-") {
            Some(digits) => {
                season = read_u32(digits);
                proof {
                    reveal_strlit("season-");
                    reveal_strlit("episode-");
                    assert(part@[0] == "season-"@[0]);
                    if "episode-"@.is_prefix_of(part@) {
                        assert(part@[0] == "episode-"@[0]);
                    }
                }
            },
            None => {
                if let Some(digits) = text::strip_prefix(part, "episode-") {
                    episode = read_u32(digits);
                }
            },
        }
        i = i + 1;
    }
    assert(rest.take(i - 3) == rest);
    Some((parts[0].clone(), id, parts[2].clone(), season, episode))
}

// ---------------------------------------------------------------------------
// Episode titles
// ---------------------------------------------------------------------------
/// The bare title: what follows the last colon, or all of `raw` if nothing does.
pub open spec fn bare_title(raw: Seq<char>) -> Seq<char> {
    match text::after_last(raw, ':') {
        Some(tail) => {
            if text::trimmed(tail).len() > 0 {
                text::trimmed(tail)
            } else {
                text::trimmed(raw)
            }
        },
        None => text::trimmed(raw),
    }
}

/// Strip the leading episode code + label that Simkl embeds in its episode
/// title elements, keeping only the bare title after the last colon.
///
/// e.g. `"S01E16   Season 1, Episode 16:  Too Short a Season"` → `"Too Short a Season"`
/// e.g. `"Too Short a Season"` → `"Too Short a Season"` (unchanged)
pub fn clean_episode_title(raw: &str) -> (title: String)
    ensures
        title@ == bare_title(raw@),
{
    if let Some(tail) = text::past_last(raw, ':') {
        let after = text::trim(tail);
        if !after.is_empty() {
            return after.to_owned();
        }
    }
    text::trim(raw).to_owned()
}

// ---------------------------------------------------------------------------
// Posters
// ---------------------------------------------------------------------------
/// The proxied poster with this hash. A hash under two bytes has none, nor has one with a
/// character across the end of its first two bytes.
pub open spec fn proxied_poster(hash: Seq<char>) -> Option<Seq<char>> {
    match text::front(hash, 2) {
        Some(directory) => Some(
            "https://wsrv.nl/?url=https://simkl.in/posters/"@ + directory + "/"@ + hash
                + "_m.webp"@,
        ),
        None => None,
    }
}

/// The wsrv.nl-proxied medium-size WebP URL of the poster with this hash.
pub fn poster_url(hash: &str) -> (url: Option<String>)
    ensures
        text::optional_text(url) == proxied_poster(hash@),
{
    match text::front_of(hash, 2) {
        Some(directory) => {
            let mut url = "https://wsrv.nl/?url=https://simkl.in/posters/".to_owned();
            url.append(directory);
            url.append("/");
            url.append(hash);
            url.append("_m.webp");
            Some(url)
        },
        None => None,
    }
}

/// The poster hash in an image address: the file name up to the first `_`, behind
/// `simkl.in/posters/` and a directory, with or without a protocol in front.
pub open spec fn poster_hash(src: Seq<char>) -> Option<Seq<char>> {
    let clean = text::without_prefixes(
        text::without_prefixes(text::without_prefixes(src, "https:"@), "http:"@),
        "//"@,
    );
    match text::after_prefix(clean, "simkl.in/posters/"@) {
        Some(path) => match text::after_first(path, '/') {
            Some(file) => Some(text::before_first(file, '_')),
            None => None,
        },
        None => None,
    }
}

/// The proxied poster for an image address.
pub open spec fn proxied_source(src: Seq<char>) -> Option<Seq<char>> {
    match poster_hash(src) {
        Some(hash) => proxied_poster(hash),
        None => None,
    }
}

/// The poster hash in an image address.
fn read_poster_hash<'a>(src: &'a str) -> (hash: Option<&'a str>)
    ensures
        match hash {
            Some(h) => poster_hash(src@) == Some(h@),
            None => poster_hash(src@) is None,
        },
{
    let clean = text::strip_prefixes(
        text::strip_prefixes(text::strip_prefixes(src, "https:"), "http:"),
        "//",
    );
    match text::strip_prefix(clean, "simkl.in/posters/") {
        Some(path) => match text::past_first(path, '/') {
            Some(file) => Some(text::up_to_first(file, '_')),
            None => None,
        },
        None => None,
    }
}

/// Convert a `//simkl.in/posters/…` or `https://simkl.in/posters/…` URL into
/// a wsrv.nl-proxied medium-size WebP URL.
/// Returns `None` if the URL doesn't match the expected pattern.
pub fn simkl_poster_to_wsrv(src: &str) -> (url: Option<String>)
    ensures
        text::optional_text(url) == proxied_source(src@),
{
    match read_poster_hash(src) {
        Some(hash) => poster_url(hash),
        None => None,
    }
}

// ---------------------------------------------------------------------------
// The scrobble bar
// ---------------------------------------------------------------------------
/// The text of an element: its pieces with a blank between them, trimmed.
pub open spec fn element_text(element: ElementView) -> Seq<char> {
    text::trimmed(text::joined(element.text, " "@))
}

/// The text of the first element of the first group where that text is not empty.
pub open spec fn first_text(groups: Seq<Seq<ElementView>>) -> Option<Seq<char>>
    decreases groups.len(),
{
    if groups.len() == 0 {
        None
    } else if groups[0].len() > 0 && element_text(groups[0][0]).len() > 0 {
        Some(element_text(groups[0][0]))
    } else {
        first_text(groups.skip(1))
    }
}

/// The first of the elements whose attribute number `at` is a media link, and its text.
pub open spec fn first_link(links: Seq<ElementView>, at: int) -> Option<(MediaLink, Seq<char>)>
    decreases links.len(),
{
    if links.len() == 0 {
        None
    } else {
        let href = match links[0].attributes[at] {
            Some(value) => value,
            None => ""@,
        };
        match media_link(href) {
            Some(link) => Some((link, element_text(links[0]))),
            None => first_link(links.skip(1), at),
        }
    }
}

/// The selector of the scrobble bar.
pub open spec fn bar_selector() -> Seq<char> {
    "#simklScrobbleBar"@
}

/// The selectors searched inside the bar: links, then titles, then episode titles.
pub open spec fn bar_selectors() -> Seq<Seq<char>> {
    seq![
        "a[href]"@,
        ".SimklScrobbleTitle"@,
        ".simkl-scrobble-title"@,
        "[class*='ScrobbleTitle']"@,
        "[class*='scrobble-title']"@,
        ".SimklScrobbleEpTitle"@,
        ".SimklScrobbleEpInfo"@,
        ".simkl-scrobble-ep-title"@,
        "[class*='EpTitle']"@,
        "[class*='ep-title']"@,
    ]
}

/// The attributes read of the bar and its links.
pub open spec fn bar_attributes() -> Seq<Seq<char>> {
    seq!["data-started"@, "data-runtime"@, "data-progress-at-start"@, "href"@]
}

/// What stands in the scrobble bar of the page `html`.
pub open spec fn bar_of(html: Seq<char>) -> Option<RegionView> {
    page::page_region(html, bar_selector(), bar_selectors(), bar_attributes())
}

/// The media type behind a kind of media page.
pub open spec fn type_of_kind(kind: Seq<char>) -> MediaType {
    if kind == "tv"@ {
        MediaType::Episode
    } else if kind == "movies"@ {
        MediaType::Movie
    } else {
        MediaType::Anime
    }
}

/// A live session and what its progress is computed from.
#[derive(Debug)]
pub struct NowWatching {
    /// The session; its progress is left at 0.
    pub session: PlaybackSession,
    /// The percentage at which playback started, as written in the bar.
    pub progress_at_start: Option<String>,
    /// The seconds since playback started.
    pub elapsed_secs: i64,
}

/// [`NowWatching`] with its texts as character sequences.
pub ghost struct LiveView {
    /// The session.
    pub session: SessionView,
    /// The percentage at which playback started, as written in the bar.
    pub progress_at_start: Option<Seq<char>>,
    /// The seconds since playback started.
    pub elapsed_secs: int,
}

impl View for NowWatching {
    type V = LiveView;

    open spec fn view(&self) -> LiveView {
        LiveView {
            session: self.session@,
            progress_at_start: text::optional_text(self.progress_at_start),
            elapsed_secs: self.elapsed_secs as int,
        }
    }
}

/// The view of a live session that may be absent.
pub open spec fn optional_live(live: Option<NowWatching>) -> Option<LiveView> {
    match live {
        Some(l) => Some(l@),
        None => None,
    }
}

/// The seconds from `started` to `now`: none if `started` is later, `i64::MAX` at most.
pub open spec fn elapsed(now: int, started: int) -> int {
    if now <= started {
        0
    } else if now - started > i64::MAX {
        i64::MAX as int
    } else {
        now - started
    }
}

/// The session behind a link in the bar.
pub open spec fn live_session(
    bar: RegionView,
    link: MediaLink,
    link_text: Seq<char>,
    started: int,
    runtime: nat,
    now: Moment,
) -> SessionView {
    SessionView {
        id: 0,
        progress: 0,
        paused_at: now,
        media_type: type_of_kind(link.kind),
        title: match first_text(bar.matches.subrange(1, 5)) {
            Some(title) => title,
            None => link_text,
        },
        year: None,
        ids: IdsView {
            simkl: Some(link.id as u64),
            slug: Some(link.slug),
            tmdb: None,
            imdb: None,
            mal: None,
        },
        season: match link.season {
            Some(s) => Some(s as u32),
            None => None,
        },
        episode: match link.episode {
            Some(e) => Some(e as u32),
            None => None,
        },
        episode_title: match first_text(bar.matches.subrange(5, 10)) {
            Some(raw) => Some(bare_title(raw)),
            None => None,
        },
        anime_type: None,
        live_start: Some(started as i64),
        runtime_mins: Some(runtime as u64),
    }
}

/// The number in an attribute, if it holds one that fits in an `i64`.
pub open spec fn signed_attribute(value: Option<Seq<char>>) -> Option<int> {
    match value {
        Some(v) => number::signed_value(v),
        None => None,
    }
}

/// The number in an attribute, if it holds one that fits in a `u64`.
pub open spec fn unsigned_attribute(value: Option<Seq<char>>) -> Option<nat> {
    match value {
        Some(v) => number::unsigned_value(v, u64::MAX as nat),
        None => None,
    }
}

/// The live session that the bar shows at `now`. The bar must tell when playback started
/// and how long it takes, and hold a link to a media page.
pub open spec fn live_in(bar: RegionView, now: Moment) -> Option<LiveView> {
    let started = signed_attribute(bar.attributes[0]);
    let runtime = unsigned_attribute(bar.attributes[1]);
    match (started, runtime, first_link(bar.matches[0], 3)) {
        (Some(s), Some(r), Some((link, link_text))) => Some(
            LiveView {
                session: live_session(bar, link, link_text, s, r, now),
                progress_at_start: bar.attributes[2],
                elapsed_secs: elapsed(now.secs, s),
            },
        ),
        _ => None,
    }
}

/// The live session that the dashboard page `html` shows at `now`.
pub open spec fn live_on_page(html: Seq<char>, now: Moment) -> Option<LiveView> {
    match bar_of(html) {
        Some(bar) => live_in(bar, now),
        None => None,
    }
}

/// The text of an element: its pieces with a blank between them, trimmed.
fn text_of(element: &PageElement) -> (whole: String)
    ensures
        whole@ == element_text(element@),
{
    let whole = text::join(&element.text, " ");
    text::trim(whole.as_str()).to_owned()
}

/// Try the groups from `from` up to `to` in order; return the trimmed text of the first
/// element of a group, if it is not empty.
pub fn find_text(groups: &Vec<Vec<PageElement>>, from: usize, to: usize) -> (found: Option<String>)
    requires
        from <= to <= groups@.len(),
    ensures
        text::optional_text(found) == first_text(
            page::group_views(groups@).subrange(from as int, to as int),
        ),
{
    let ghost all = page::group_views(groups@);
    let mut i: usize = from;
    while i < to
        invariant
            from <= i <= to <= groups@.len(),
            all == page::group_views(groups@),
            first_text(all.subrange(from as int, to as int)) == first_text(
                all.subrange(i as int, to as int),
            ),
        decreases to - i,
    {
        let ghost rest = all.subrange(i as int, to as int);
        assert(rest[0] == page::element_views(groups@[i as int]@));
        assert(rest.skip(1) == all.subrange(i + 1, to as int));
        let group = &groups[i];
        if group.len() > 0 {
            assert(rest[0][0] == group@[0]@);
            let whole = text_of(&group[0]);
            if !whole.as_str().is_empty() {
                return Some(whole);
            }
        }
        i = i + 1;
    }
    None
}

/// The first of the elements whose attribute number `at` is a media link, and its text.
fn find_link(links: &Vec<PageElement>, at: usize) -> (found: Option<
    ((String, u64, String, Option<u32>, Option<u32>), String),
>)
    requires
        forall|i: int| 0 <= i < links@.len() ==> (#[trigger] links@[i])@.attributes.len() > at,
    ensures
        match found {
            Some(((kind, id, slug, season, episode), whole)) => first_link(
                page::element_views(links@),
                at as int,
            ) == Some(
                (
                    MediaLink {
                        kind: kind@,
                        id: id as nat,
                        slug: slug@,
                        season: optional_nat(season),
                        episode: optional_nat(episode),
                    },
                    whole@,
                ),
            ),
            None => first_link(page::element_views(links@), at as int) is None,
        },
{
    let ghost all = page::element_views(links@);
    let mut i: usize = 0;
    assert(all.skip(0) == all);
    while i < links.len()
        invariant
            i <= links.len(),
            all == page::element_views(links@),
            forall|k: int| 0 <= k < links@.len() ==> (#[trigger] links@[k])@.attributes.len() > at,
            first_link(all, at as int) == first_link(all.skip(i as int), at as int),
        decreases links.len() - i,
    {
        let ghost rest = all.skip(i as int);
        assert(rest[0] == links@[i as int]@);
        assert(rest.skip(1) == all.skip(i + 1));
        let link = &links[i];
        assert(link@.attributes.len() > at);
        assert(link@.attributes[at as int] == text::optional_text(link.attributes@[at as int]));
        let href = match &link.attributes[at] {
            Some(value) => value.as_str(),
            None => "",
        };
        if let Some(parts) = parse_media_href(href) {
            return Some((parts, text_of(link)));
        }
        i = i + 1;
    }
    None
}

/// The media type behind a kind of media page.
fn media_type_of(kind: &str) -> (media_type: MediaType)
    ensures
        media_type == type_of_kind(kind@),
{
    if text::same_text(kind, "tv") {
        MediaType::Episode
    } else if text::same_text(kind, "movies") {
        MediaType::Movie
    } else {
        MediaType::Anime
    }
}

/// The seconds from `started` to `now`.
fn elapsed_since(now: i64, started: i64) -> (secs: i64)
    ensures
        secs == elapsed(now as int, started as int),
{
    if now <= started {
        return 0;
    }
    let secs: i128 = now as i128 - started as i128;
    if secs > 0x7fff_ffff_ffff_ffff {
        i64::MAX
    } else {
        secs as i64
    }
}

/// The live session that the bar shows at `now`.
pub fn read_bar(bar: &PageRegion, now: &Timestamp) -> (live: Option<NowWatching>)
    requires
        bar@.answers(bar_selectors().len(), bar_attributes().len()),
    ensures
        optional_live(live) == live_in(bar@, now@),
{
    assert(bar@.attributes[0] == text::optional_text(bar.attributes@[0]));
    assert(bar@.attributes[1] == text::optional_text(bar.attributes@[1]));
    assert(bar@.attributes[2] == text::optional_text(bar.attributes@[2]));
    assert(bar@.matches[0] == page::element_views(bar.matches@[0]@));
    let started: i64 = match &bar.attributes[0] {
        Some(value) => match read_i64(value.as_str()) {
            Some(n) => n,
            None => {
                return None;
            },
        },
        None => {
            return None;
        },
    };
    let runtime: u64 = match &bar.attributes[1] {
        Some(value) => match read_u64(value.as_str()) {
            Some(n) => n,
            None => {
                return None;
            },
        },
        None => {
            return None;
        },
    };
    let links = &bar.matches[0];
    assert forall|i: int| 0 <= i < links@.len() implies (#[trigger] links@[i])@.attributes.len()
        > 3 by {
        assert(bar@.matches[0][i] == links@[i]@);
    }
    let (link, link_text) = match find_link(links, 3) {
        Some(found) => found,
        None => {
            return None;
        },
    };
    let (kind, id, slug, season, episode) = link;
    let title = match find_text(&bar.matches, 1, 5) {
        Some(title) => title,
        None => link_text,
    };
    let episode_title = match find_text(&bar.matches, 5, 10) {
        Some(raw) => Some(clean_episode_title(raw.as_str())),
        None => None,
    };
    let media_type = media_type_of(kind.as_str());
    let mut ids = MediaIds::default();
    ids.simkl = Some(id);
    ids.slug = Some(slug);
    Some(
        NowWatching {
            session: PlaybackSession {
                id: 0,
                progress: 0,
                paused_at: *now,
                media_type,
                title,
                year: None,
                ids,
                season,
                episode,
                episode_title,
                anime_type: None,
                live_start: Some(started),
                runtime_mins: Some(runtime),
            },
            progress_at_start: bar.attributes[2].clone(),
            elapsed_secs: elapsed_since(now.secs(), started),
        },
    )
}

/// Parse the Simkl dashboard HTML and return the session active at `now`, if present.
pub fn parse_now_watching_at(html: &str, now: &Timestamp) -> (live: Option<NowWatching>)
    ensures
        optional_live(live) == live_on_page(html@, now@),
        bar_of(html@) matches Some(bar) ==> bar.answers(
            bar_selectors().len(),
            bar_attributes().len(),
        ),
{
    let inners: Vec<&str> = vec![
        "a[href]",
        ".SimklScrobbleTitle",
        ".simkl-scrobble-title",
        "[class*='ScrobbleTitle']",
        "[class*='scrobble-title']",
        ".SimklScrobbleEpTitle",
        ".SimklScrobbleEpInfo",
        ".simkl-scrobble-ep-title",
        "[class*='EpTitle']",
        "[class*='ep-title']",
    ];
    let names: Vec<&str> = vec!["data-started", "data-runtime", "data-progress-at-start", "href"];
    assert(page::borrowed_texts(inners@) == bar_selectors());
    assert(page::borrowed_texts(names@) == bar_attributes());
    match page::search_page(html, "#simklScrobbleBar", &inners, &names) {
        Some(bar) => read_bar(&bar, now),
        None => None,
    }
}

/// Parse the Simkl dashboard HTML and return the active session, if present.
pub fn parse_now_watching(html: &str) -> (live: Option<NowWatching>)
    ensures
        exists|now: Moment|
            {
                &&& #[trigger] clock::read_from_clock(now)
                &&& now.valid()
                &&& optional_live(live) == live_on_page(html@, now)
            },
{
    let now = clock::current();
    assert(clock::read_from_clock(now@));
    parse_now_watching_at(html, &now)
}

// ---------------------------------------------------------------------------
// The poster in the scrobble bar
// ---------------------------------------------------------------------------
/// The images in the scrobble bar of the page `html`.
pub open spec fn images_of(html: Seq<char>) -> Option<RegionView> {
    page::page_region(html, bar_selector(), seq!["img"@], seq!["src"@, "data-src"@])
}

/// The address of the first image: its first attribute, or else its second.
pub open spec fn first_image(images: RegionView) -> Option<Seq<char>> {
    if images.matches[0].len() == 0 {
        None
    } else {
        match images.matches[0][0].attributes[0] {
            Some(src) => Some(src),
            None => images.matches[0][0].attributes[1],
        }
    }
}

/// The address of the first image in the scrobble bar of the page `html`.
pub open spec fn live_image(html: Seq<char>) -> Option<Seq<char>> {
    match images_of(html) {
        Some(images) => first_image(images),
        None => None,
    }
}

/// The proxied poster of the live session on the page `html`.
pub open spec fn live_poster(html: Seq<char>) -> Option<Seq<char>> {
    match live_image(html) {
        Some(src) => proxied_source(src),
        None => None,
    }
}

/// The address of the first image of a region.
pub fn read_image(images: &PageRegion) -> (src: Option<String>)
    requires
        images@.answers(1, 2),
    ensures
        text::optional_text(src) == first_image(images@),
{
    let found = &images.matches[0];
    assert(images@.matches[0] == page::element_views(found@));
    if found.len() == 0 {
        return None;
    }
    assert(images@.matches[0][0] == found@[0]@);
    assert(found@[0]@.attributes.len() == 2);
    assert(found@[0]@.attributes[0] == text::optional_text(found@[0].attributes@[0]));
    assert(found@[0]@.attributes[1] == text::optional_text(found@[0].attributes@[1]));
    match &found[0].attributes[0] {
        Some(src) => Some(src.clone()),
        None => found[0].attributes[1].clone(),
    }
}

/// The address of the first image in the scrobble bar of the page `html`.
fn live_image_source(html: &str) -> (src: Option<String>)
    ensures
        text::optional_text(src) == live_image(html@),
{
    let inners: Vec<&str> = vec!["img"];
    let names: Vec<&str> = vec!["src", "data-src"];
    assert(page::borrowed_texts(inners@) == seq!["img"@]);
    assert(page::borrowed_texts(names@) == seq!["src"@, "data-src"@]);
    match page::search_page(html, "#simklScrobbleBar", &inners, &names) {
        Some(images) => read_image(&images),
        None => None,
    }
}

/// Extract and convert the wsrv.nl poster URL from the dashboard HTML.
/// Returns `None` if the scrobble bar or poster img is absent.
pub fn extract_live_poster_url(html: &str) -> (url: Option<String>)
    ensures
        text::optional_text(url) == live_poster(html@),
{
    match live_image_source(html) {
        Some(src) => simkl_poster_to_wsrv(src.as_str()),
        None => None,
    }
}

// ---------------------------------------------------------------------------
// Laws
// ---------------------------------------------------------------------------
/// What a dashboard page shows is a live session with a number at Simkl.
pub proof fn law_session_on_page_is_live(html: Seq<char>, now: Moment)
    requires
        live_on_page(html, now) is Some,
    ensures
        live_on_page(html, now)->0.session.live_start is Some,
        live_on_page(html, now)->0.session.ids.simkl is Some,
{
}

/// A title behind a label and a colon is what is kept.
pub proof fn law_title_follows_the_last_colon(label: Seq<char>, title: Seq<char>)
    requires
        !title.contains(':'),
        text::trimmed(title).len() > 0,
    ensures
        bare_title(label + ":"@ + title) == text::trimmed(title),
{
    reveal_strlit(":");
    let raw = label + ":"@ + title;
    let at = label.len() as int + 1;
    assert forall|k: int| at <= k < raw.len() implies raw[k] != ':' by {
        assert(raw[k] == title[k - at]);
        assert(title.contains(title[k - at]));
    }
    text::lemma_after_last(raw, ':', at);
    assert(raw.take(at).last() == ':');
    assert(raw.skip(at) == title);
    assert(Seq::<char>::empty() + title == title);
}

/// A title without a colon is kept as it is, but for white space around it.
pub proof fn law_plain_title_is_kept(title: Seq<char>)
    requires
        !title.contains(':'),
    ensures
        bare_title(title) == text::trimmed(title),
{
    assert forall|k: int| 0 <= k < title.len() implies title[k] != ':' by {
        assert(title.contains(title[k]));
    }
    text::lemma_after_last(title, ':', 0);
    assert(title.take(0).len() == 0);
}

/// Whether `raw` has a colon and nothing but white space behind the last one.
pub open spec fn ends_in_colon(raw: Seq<char>) -> bool {
    text::after_last(raw, ':') matches Some(tail) && text::trimmed(tail).len() == 0
}

/// Cleaning a cleaned title changes nothing. A cleaned title is part of the raw one, has no
/// white space at its ends, and is empty only if the raw one is blank. A colon stays in it
/// only where nothing but white space follows the last one, and then all of the raw title
/// stays but for white space around it.
pub proof fn law_cleaned_title_stays(raw: Seq<char>)
    ensures
        bare_title(bare_title(raw)) == bare_title(raw),
        text::trimmed(bare_title(raw)) == bare_title(raw),
        text::is_part_of(bare_title(raw), raw),
        bare_title(raw).len() == 0 <==> text::trimmed(raw).len() == 0,
        bare_title(raw).contains(':') <==> ends_in_colon(raw),
        ends_in_colon(raw) ==> bare_title(raw) == text::trimmed(raw),
{
    let title = bare_title(raw);
    text::lemma_stripped(raw, Edge::Space);
    text::lemma_after_last_parts(raw, ':');
    match text::after_last(raw, ':') {
        Some(tail) => {
            let start = raw.len() - tail.len();
            text::lemma_stripped(tail, Edge::Space);
            assert(tail == raw.subrange(start, raw.len() as int));
            if ends_in_colon(raw) {
                assert forall|k: int| start - 1 < k < raw.len() implies text::is_edge(
                    #[trigger] raw[k],
                    Edge::Space,
                ) by {
                    assert(raw[k] == tail[k - start]);
                    if !text::is_edge(tail[k - start], Edge::Space) {
                        text::lemma_stripped_keeps(tail, Edge::Space, k - start);
                    }
                }
                text::lemma_stripped_last(raw, Edge::Space, start - 1);
                assert(title.last() == ':');
                assert(title[title.len() - 1] == ':');
                assert(text::after_last(title, ':') == Some(Seq::<char>::empty()));
            } else {
                assert(text::is_part_of(tail, raw));
                text::lemma_part_of_part(title, tail, raw);
                lemma_part_has_no_colon(title, tail);
                law_plain_title_is_kept(title);
                lemma_not_blank(tail);
                let at = choose|at: int|
                    0 <= at < tail.len() && !text::is_edge(#[trigger] tail[at], Edge::Space);
                assert(raw[start + at] == tail[at]);
                text::lemma_stripped_keeps(raw, Edge::Space, start + at);
            }
        },
        None => {
            lemma_part_has_no_colon(title, raw);
            law_plain_title_is_kept(title);
        },
    }
}

/// A part of a text without a colon has none.
proof fn lemma_part_has_no_colon(part: Seq<char>, s: Seq<char>)
    requires
        text::is_part_of(part, s),
        !s.contains(':'),
    ensures
        !part.contains(':'),
{
    let (from, to) = choose|from: int, to: int|
        0 <= from <= to <= s.len() && part == #[trigger] s.subrange(from, to);
    assert forall|i: int| 0 <= i < part.len() implies part[i] != ':' by {
        assert(part[i] == s[from + i]);
        assert(s.contains(s[from + i]));
    }
}

/// A text that is not blank has a character that is no white space.
proof fn lemma_not_blank(s: Seq<char>)
    requires
        text::trimmed(s).len() > 0,
    ensures
        exists|at: int| 0 <= at < s.len() && !text::is_edge(#[trigger] s[at], Edge::Space),
    decreases s.len(),
{
    if text::is_edge(s.first(), Edge::Space) {
        let rest = s.drop_first();
        lemma_not_blank(rest);
        let at = choose|at: int|
            0 <= at < rest.len() && !text::is_edge(#[trigger] rest[at], Edge::Space);
        assert(rest[at] == s[at + 1]);
    } else {
        assert(s[0] == s.first());
    }
}

/// Poster addresses at Simkl are understood with `https:`, with `http:` and without a
/// protocol, and lead to the same poster as the hash in them.
pub proof fn law_poster_address_is_understood(
    protocol: Seq<char>,
    directory: Seq<char>,
    hash: Seq<char>,
    rest: Seq<char>,
)
    requires
        protocol == ""@ || protocol == "https:"@ || protocol == "http:"@,
        !directory.contains('/'),
        !hash.contains('_'),
    ensures
        ({
            let src = protocol + "//simkl.in/posters/"@ + directory + "/"@ + hash + "_"@ + rest;
            proxied_source(src) == proxied_poster(hash)
        }),
{
    let slash = seq!['/'];
    let file = hash + seq!['_'] + rest;
    let path = directory + slash + file;
    let start = "simkl.in/posters/"@;
    let body = start + path;
    let base = "//"@ + body;
    let src = protocol + "//simkl.in/posters/"@ + directory + "/"@ + hash + "_"@ + rest;
    reveal_strlit("");
    reveal_strlit("/");
    reveal_strlit("//");
    reveal_strlit("_");
    reveal_strlit("https:");
    reveal_strlit("http:");
    reveal_strlit("simkl.in/posters/");
    assert("//simkl.in/posters/"@ == "//"@ + start) by {
        reveal_strlit("//simkl.in/posters/");
    }
    assert(src == protocol + base);
    assert(base[0] == '/');
    assert(body[0] == 's');
    assert(base.subrange(0, 6)[0] != "https:"@[0]);
    assert(base.subrange(0, 5)[0] != "http:"@[0]);
    assert(text::without_prefixes(base, "https:"@) == base);
    assert(text::without_prefixes(base, "http:"@) == base);
    assert(base.skip(2) == body);
    assert("//"@.is_prefix_of(base));
    assert(text::without_prefixes(body, "//"@) == body);
    assert(text::without_prefixes(base, "//"@) == body);
    if protocol == "https:"@ {
        assert("https:"@.is_prefix_of(src));
        assert(src.skip(6) == base);
    } else if protocol == "http:"@ {
        assert(src.subrange(0, 6)[4] != "https:"@[4]);
        assert(!"https:"@.is_prefix_of(src));
        assert("http:"@.is_prefix_of(src));
        assert(src.skip(5) == base);
    } else {
        assert(src == base);
    }
    assert(start.is_prefix_of(body));
    assert(body.skip(start.len() as int) == path);
    text::lemma_before_first(directory, '/', file);
    text::lemma_before_first(hash, '_', rest);
}

/// The Simkl page that a session links to tells its kind, number and name, and for an
/// episode its season and number.
pub proof fn law_page_link_reads_back(session: SessionView, slug: Seq<char>, path: Seq<char>)
    requires
        session.simkl_page() == Some("https://simkl.com"@ + path),
        session.ids.slug == Some(slug),
        slug.len() > 0,
        !slug.contains('/'),
    ensures
        media_link(path) == Some(
            MediaLink {
                kind: crate::state::page_segment(session.media_type),
                id: session.ids.simkl->0 as nat,
                slug,
                season: if session.episodic() && session.episode is Some {
                    optional_nat(session.season)
                } else {
                    None
                },
                episode: if session.episodic() && session.season is Some {
                    optional_nat(session.episode)
                } else {
                    None
                },
            },
        ),
{
    let host = "https://simkl.com"@;
    let slash = seq!['/'];
    let kind = crate::state::page_segment(session.media_type);
    let id = number::decimal(session.ids.simkl->0 as nat);
    assert("/"@ == slash) by {
        reveal_strlit("/");
    }
    assert("https://simkl.com/"@ == host + slash) by {
        reveal_strlit("https://simkl.com/");
        reveal_strlit("https://simkl.com");
    }
    lemma_kind(session.media_type);
    lemma_decimal_has_no_slash(session.ids.simkl->0 as nat);
    number::law_decimal_reads_back(session.ids.simkl->0 as nat, u64::MAX as nat);
    let core = kind + slash + id + slash + slug;
    let parts = seq![kind, id, slug];
    lemma_core_pieces(kind, id, slug);
    lemma_core_address(host, kind, id, slug);
    if session.episodic() && session.season is Some && session.episode is Some {
        let s = session.season->0 as nat;
        let e = session.episode->0 as nat;
        let season = "season-"@ + number::decimal(s);
        let episode = "episode-"@ + number::decimal(e);
        let longer = core + slash + season + slash + episode;
        lemma_episode_address(host, core, number::decimal(s), number::decimal(e));
        lemma_same_end(host, path, slash + longer + slash);
        lemma_marked(s, e);
        text::lemma_one_more_piece(core, '/', season);
        text::lemma_one_more_piece(core + slash + season, '/', episode);
        let all = parts.push(season).push(episode);
        assert(text::pieces(longer, '/') == all);
        assert(longer.first() == kind.first());
        assert(longer.last() == episode.last());
        lemma_slashes_stripped(longer);
        assert(all.skip(3) == seq![season, episode]);
    } else {
        lemma_same_end(host, path, slash + core + slash);
        assert(core.last() == slug.last());
        lemma_slashes_stripped(core);
        assert(parts.skip(3) == Seq::<Seq<char>>::empty());
    }
}

/// The pieces of a path to a title.
proof fn lemma_core_pieces(kind: Seq<char>, id: Seq<char>, slug: Seq<char>)
    requires
        !kind.contains('/'),
        !id.contains('/'),
        !slug.contains('/'),
    ensures
        text::pieces(kind + seq!['/'] + id + seq!['/'] + slug, '/') == seq![kind, id, slug],
        kind.len() > 0 ==> kind.first() != '/',
        slug.len() > 0 ==> slug.last() != '/',
{
    text::lemma_single_piece(kind, '/');
    text::lemma_one_more_piece(kind, '/', id);
    text::lemma_one_more_piece(kind + seq!['/'] + id, '/', slug);
    assert(seq![kind].push(id).push(slug) == seq![kind, id, slug]);
    if kind.len() > 0 {
        assert(kind.contains(kind.first()));
    }
    if slug.len() > 0 {
        assert(slug.contains(slug.last()));
    }
}

/// The address of a title, seen as a path between slashes.
proof fn lemma_core_address(host: Seq<char>, kind: Seq<char>, id: Seq<char>, slug: Seq<char>)
    ensures
        ({
            let slash = seq!['/'];
            let core = kind + slash + id + slash + slug;
            host + slash + kind + slash + id + slash + slug + slash == host + (slash + core + slash)
        }),
{
}

/// The address of an episode, seen as a path between slashes.
proof fn lemma_episode_address(
    host: Seq<char>,
    core: Seq<char>,
    season: Seq<char>,
    episode: Seq<char>,
)
    ensures
        ({
            let slash = seq!['/'];
            let longer = core + slash + ("season-"@ + season) + slash + ("episode-"@ + episode);
            host + (slash + core + slash) + "season-"@ + season + "/episode-"@ + episode + slash
                == host + (slash + longer + slash)
        }),
{
    let slash = seq!['/'];
    assert("/episode-"@ == slash + "episode-"@) by {
        reveal_strlit("/episode-");
        reveal_strlit("episode-");
    }
    let longer = core + slash + ("season-"@ + season) + slash + ("episode-"@ + episode);
    assert(host + (slash + core + slash) + "season-"@ + season + (slash + "episode-"@) + episode
        + slash == host + (slash + longer + slash));
}

/// Two texts that are the same behind the same start are the same.
proof fn lemma_same_end(start: Seq<char>, one: Seq<char>, other: Seq<char>)
    requires
        start + one == start + other,
    ensures
        one == other,
{
    assert((start + one).skip(start.len() as int) == one);
    assert((start + other).skip(start.len() as int) == other);
}

/// The slashes around a path are taken off.
proof fn lemma_slashes_stripped(core: Seq<char>)
    requires
        core.len() > 0,
        core.first() != '/',
        core.last() != '/',
    ensures
        text::stripped(seq!['/'] + core + seq!['/'], Edge::Slash) == core,
{
    let whole = seq!['/'] + core + seq!['/'];
    let rest = core + seq!['/'];
    assert(whole.drop_first() == rest);
    assert(rest.first() == core.first());
    assert(rest.drop_last() == core);
    assert(text::stripped(rest, Edge::Slash) == text::stripped(core, Edge::Slash));
}

/// The path segment of a media type is a kind of media page, and holds no slash.
proof fn lemma_kind(media_type: MediaType)
    ensures
        is_media_kind(crate::state::page_segment(media_type)),
        !crate::state::page_segment(media_type).contains('/'),
        crate::state::page_segment(media_type).len() > 0,
{
    reveal_strlit("tv");
    reveal_strlit("movies");
    reveal_strlit("anime");
}

/// A number written in decimal holds no slash.
proof fn lemma_decimal_has_no_slash(n: nat)
    ensures
        !number::decimal(n).contains('/'),
        number::decimal(n).len() > 0,
        number::decimal(n).last() != '/',
{
    number::lemma_decimal(n);
    let s = number::decimal(n);
    assert forall|i: int| 0 <= i < s.len() implies s[i] != '/' by {
        assert(number::is_digit(s[i]));
    }
}

/// Season and episode in a path are told apart and read back.
proof fn lemma_marked(season: nat, episode: nat)
    requires
        season <= u32::MAX,
        episode <= u32::MAX,
    ensures
        ({
            let s = "season-"@ + number::decimal(season);
            let e = "episode-"@ + number::decimal(episode);
            &&& !s.contains('/')
            &&& !e.contains('/')
            &&& e.last() != '/'
            &&& marked_number(seq![s, e], "season-"@) == Some(season)
            &&& marked_number(seq![s, e], "episode-"@) == Some(episode)
        }),
{
    let s = "season-"@ + number::decimal(season);
    let e = "episode-"@ + number::decimal(episode);
    reveal_strlit("season-");
    reveal_strlit("episode-");
    lemma_decimal_has_no_slash(season);
    lemma_decimal_has_no_slash(episode);
    number::law_decimal_reads_back(season, u32::MAX as nat);
    number::law_decimal_reads_back(episode, u32::MAX as nat);
    assert forall|i: int| 0 <= i < s.len() implies s[i] != '/' by {
        if i >= 7 {
            assert(s[i] == number::decimal(season)[i - 7]);
            assert(number::decimal(season).contains(s[i]));
        }
    }
    assert forall|i: int| 0 <= i < e.len() implies e[i] != '/' by {
        if i >= 8 {
            assert(e[i] == number::decimal(episode)[i - 8]);
            assert(number::decimal(episode).contains(e[i]));
        }
    }
    assert(s.skip(7) == number::decimal(season));
    assert(e.skip(8) == number::decimal(episode));
    assert("season-"@.is_prefix_of(s));
    assert("episode-"@.is_prefix_of(e));
    assert(e[0] != "season-"@[0]);
    assert(!"season-"@.is_prefix_of(e));
    let both = seq![s, e];
    assert(both.last() == e);
    assert(both.drop_last() == seq![s]);
    assert(seq![s].last() == s);
    assert(marked_number(seq![s], "season-"@) == Some(season));
}

// ---------------------------------------------------------------------------
// What the scrobble bar tells
// ---------------------------------------------------------------------------
/// The bar is the first element that `#simklScrobbleBar` finds. In it links are searched for,
/// then the title with four selectors, and then the title of the episode with five; of the bar
/// and the links four attributes are read.
pub proof fn law_bar_is_searched_for_link_and_titles(html: &str)
    ensures
        bar_of(html@) == page::page_region(
            html@,
            "#simklScrobbleBar"@,
            seq![
                "a[href]"@,
                ".SimklScrobbleTitle"@,
                ".simkl-scrobble-title"@,
                "[class*='ScrobbleTitle']"@,
                "[class*='scrobble-title']"@,
                ".SimklScrobbleEpTitle"@,
                ".SimklScrobbleEpInfo"@,
                ".simkl-scrobble-ep-title"@,
                "[class*='EpTitle']"@,
                "[class*='ep-title']"@,
            ],
            seq!["data-started"@, "data-runtime"@, "data-progress-at-start"@, "href"@],
        ),
{
}

/// Whether the first of the elements has a text, white space aside.
pub open spec fn has_text(elements: Seq<ElementView>) -> bool {
    elements.len() > 0 && text::trimmed(text::joined(elements[0].text, " "@)).len() > 0
}

/// The text of the first of the elements, without white space around it.
pub open spec fn text_in(elements: Seq<ElementView>) -> Seq<char> {
    text::trimmed(text::joined(elements[0].text, " "@))
}

/// The address that a link leads to; none is an empty one.
pub open spec fn href_of(link: ElementView) -> Seq<char> {
    match link.attributes[3] {
        Some(address) => address,
        None => ""@,
    }
}

/// Whether link number `k` is the first that leads to a media page.
pub open spec fn first_media_link(links: Seq<ElementView>, k: int) -> bool {
    &&& 0 <= k < links.len()
    &&& media_link(href_of(links[k])) is Some
    &&& forall|j: int| 0 <= j < k ==> media_link(href_of(#[trigger] links[j])) is None
}

/// The title of a live session is the text of the first element that `.SimklScrobbleTitle`
/// finds in the bar; where that has no text, of the first that `.simkl-scrobble-title` finds;
/// then `[class*='ScrobbleTitle']`, then `[class*='scrobble-title']`; and where none of these
/// has a text, it is that of the first link to a media page. Elements for the title of the
/// episode have no part in it unless one of these four finds them.
pub proof fn law_title_stands_in_the_title_elements(
    html: &str,
    now: Timestamp,
    live: Option<NowWatching>,
)
    requires
        call_ensures(parse_now_watching_at, (html, &now), live),
        live is Some,
    ensures
        ({
            let bar = page::page_region(
                html@,
                "#simklScrobbleBar"@,
                seq![
                    "a[href]"@,
                    ".SimklScrobbleTitle"@,
                    ".simkl-scrobble-title"@,
                    "[class*='ScrobbleTitle']"@,
                    "[class*='scrobble-title']"@,
                    ".SimklScrobbleEpTitle"@,
                    ".SimklScrobbleEpInfo"@,
                    ".simkl-scrobble-ep-title"@,
                    "[class*='EpTitle']"@,
                    "[class*='ep-title']"@,
                ],
                seq!["data-started"@, "data-runtime"@, "data-progress-at-start"@, "href"@],
            );
            let title = live->0.session.title@;
            let found = bar->0.matches;
            &&& bar is Some
            &&& has_text(found[1]) ==> title == text_in(found[1])
            &&& !has_text(found[1]) && has_text(found[2]) ==> title == text_in(found[2])
            &&& !has_text(found[1]) && !has_text(found[2]) && has_text(found[3]) ==> title
                == text_in(found[3])
            &&& !has_text(found[1]) && !has_text(found[2]) && !has_text(found[3]) && has_text(
                found[4],
            ) ==> title == text_in(found[4])
            &&& !has_text(found[1]) && !has_text(found[2]) && !has_text(found[3]) && !has_text(
                found[4],
            ) ==> forall|k: int| #[trigger]
                first_media_link(found[0], k) ==> title == text_in(seq![found[0][k]])
        }),
{
    let bar = bar_of(html@)->0;
    let titles = bar.matches.subrange(1, 5);
    lemma_first_of_four(titles);
    assert(titles[0] == bar.matches[1] && titles[1] == bar.matches[2]);
    assert(titles[2] == bar.matches[3] && titles[3] == bar.matches[4]);
    assert forall|k: int| #[trigger] first_media_link(bar.matches[0], k) implies first_link(
        bar.matches[0],
        3,
    ) == Some(
        (media_link(href_of(bar.matches[0][k]))->0, text_in(seq![bar.matches[0][k]])),
    ) by {
        lemma_first_link_at(bar.matches[0], k);
    }
}

/// The title of the episode is likewise that of the first element with a text that one of the
/// five selectors for it finds, tried in their order, cleaned of code and label. Without one
/// there is none.
pub proof fn law_episode_title_stands_in_its_elements(
    html: &str,
    now: Timestamp,
    live: Option<NowWatching>,
)
    requires
        call_ensures(parse_now_watching_at, (html, &now), live),
        live is Some,
    ensures
        ({
            let bar = page::page_region(
                html@,
                "#simklScrobbleBar"@,
                seq![
                    "a[href]"@,
                    ".SimklScrobbleTitle"@,
                    ".simkl-scrobble-title"@,
                    "[class*='ScrobbleTitle']"@,
                    "[class*='scrobble-title']"@,
                    ".SimklScrobbleEpTitle"@,
                    ".SimklScrobbleEpInfo"@,
                    ".simkl-scrobble-ep-title"@,
                    "[class*='EpTitle']"@,
                    "[class*='ep-title']"@,
                ],
                seq!["data-started"@, "data-runtime"@, "data-progress-at-start"@, "href"@],
            );
            let title = text::optional_text(live->0.session.episode_title);
            let found = bar->0.matches;
            &&& bar is Some
            &&& has_text(found[5]) ==> title == Some(bare_title(text_in(found[5])))
            &&& !has_text(found[5]) && has_text(found[6]) ==> title == Some(
                bare_title(text_in(found[6])),
            )
            &&& !has_text(found[5]) && !has_text(found[6]) && has_text(found[7]) ==> title == Some(
                bare_title(text_in(found[7])),
            )
            &&& !has_text(found[5]) && !has_text(found[6]) && !has_text(found[7]) && has_text(
                found[8],
            ) ==> title == Some(bare_title(text_in(found[8])))
            &&& !has_text(found[5]) && !has_text(found[6]) && !has_text(found[7]) && !has_text(
                found[8],
            ) && has_text(found[9]) ==> title == Some(bare_title(text_in(found[9])))
            &&& !has_text(found[5]) && !has_text(found[6]) && !has_text(found[7]) && !has_text(
                found[8],
            ) && !has_text(found[9]) ==> title is None
        }),
{
    let bar = bar_of(html@)->0;
    let titles = bar.matches.subrange(5, 10);
    lemma_first_of_five(titles);
    assert(titles[0] == bar.matches[5] && titles[1] == bar.matches[6]);
    assert(titles[2] == bar.matches[7] && titles[3] == bar.matches[8]);
    assert(titles[4] == bar.matches[9]);
}

/// A live session tells what the first link to a media page in the bar leads to: its kind, its
/// number and name at Simkl, and season and episode where the link has them.
pub proof fn law_live_session_is_what_the_link_leads_to(
    html: &str,
    now: Timestamp,
    live: Option<NowWatching>,
    k: int,
)
    requires
        call_ensures(parse_now_watching_at, (html, &now), live),
        live is Some,
    ensures
        bar_of(html@) is Some,
        ({
            let links = bar_of(html@)->0.matches[0];
            let link = media_link(href_of(links[k]))->0;
            let session = live->0.session;
            first_media_link(links, k) ==> {
                &&& link.kind == "tv"@ ==> session.media_type == MediaType::Episode
                &&& link.kind == "movies"@ ==> session.media_type == MediaType::Movie
                &&& link.kind == "anime"@ ==> session.media_type == MediaType::Anime
                &&& session.ids.simkl is Some && session.ids.simkl->0 == link.id
                &&& text::optional_text(session.ids.slug) == Some(link.slug)
                &&& session.ids.tmdb is None
                &&& session.ids.imdb is None
                &&& session.ids.mal is None
                &&& optional_nat(session.season) == link.season
                &&& optional_nat(session.episode) == link.episode
            }
        }),
{
    let links = bar_of(html@)->0.matches[0];
    reveal_strlit("tv");
    reveal_strlit("movies");
    reveal_strlit("anime");
    assert("tv"@[0] != "movies"@[0] && "tv"@[0] != "anime"@[0] && "movies"@[0] != "anime"@[0]);
    if first_media_link(links, k) {
        lemma_first_link_at(links, k);
        lemma_link_fits(href_of(links[k]));
        assert(live->0.session@.ids == live->0.session.ids@);
    }
}

/// A live session tells the start and the runtime that the bar has in `data-started` and
/// `data-runtime`, and hands on what it has in `data-progress-at-start`. It counts as paused
/// at the moment of looking, and the seconds passed are those since the start, never less than
/// none.
pub proof fn law_live_session_runs_as_the_bar_says(
    html: &str,
    now: Timestamp,
    live: Option<NowWatching>,
)
    requires
        call_ensures(parse_now_watching_at, (html, &now), live),
        live is Some,
    ensures
        bar_of(html@) is Some,
        ({
            let told = bar_of(html@)->0.attributes;
            let session = live->0.session;
            &&& told[0] is Some && session.live_start is Some && number::signed_value(told[0]->0)
                == Some(session.live_start->0 as int)
            &&& told[1] is Some && session.runtime_mins is Some && number::unsigned_value(
                told[1]->0,
                u64::MAX as nat,
            ) == Some(session.runtime_mins->0 as nat)
            &&& text::optional_text(live->0.progress_at_start) == told[2]
            &&& session.id == 0
            &&& session.progress == 0
            &&& session.paused_at@ == now@
            &&& session.year is None
            &&& session.anime_type is None
            &&& session.live_start->0 >= now@.secs ==> live->0.elapsed_secs == 0
            &&& session.live_start->0 < now@.secs && now@.secs - session.live_start->0 <= i64::MAX
                ==> live->0.elapsed_secs == now@.secs - session.live_start->0
            &&& now@.secs - session.live_start->0 > i64::MAX ==> live->0.elapsed_secs == i64::MAX
        }),
{
    let view = live->0@;
    let bar = bar_of(html@)->0;
    assert(view.session == live->0.session@);
    assert(live_in(bar, now@) == Some(view));
    let s = signed_attribute(bar.attributes[0])->0;
    let r = unsigned_attribute(bar.attributes[1])->0;
    lemma_numbers_fit(bar.attributes[0]->0, bar.attributes[1]->0);
    assert(view.session.live_start == Some(s as i64));
    assert(view.session.runtime_mins == Some(r as u64));
}

/// A page shows a live session if, and only if, it has a bar that tells a start and a runtime,
/// both numbers, and holds a link to a media page.
pub proof fn law_when_a_page_shows_a_live_session(
    html: &str,
    now: Timestamp,
    live: Option<NowWatching>,
)
    requires
        call_ensures(parse_now_watching_at, (html, &now), live),
    ensures
        live is Some <==> {
            &&& bar_of(html@) is Some
            &&& bar_of(html@)->0.attributes[0] is Some
            &&& number::signed_value(bar_of(html@)->0.attributes[0]->0) is Some
            &&& bar_of(html@)->0.attributes[1] is Some
            &&& number::unsigned_value(
                bar_of(html@)->0.attributes[1]->0,
                u64::MAX as nat,
            ) is Some
            &&& exists|k: int| first_media_link(bar_of(html@)->0.matches[0], k)
        },
{
    if bar_of(html@) is Some {
        let links = bar_of(html@)->0.matches[0];
        lemma_first_link_found(links);
        if exists|k: int| first_media_link(links, k) {
            let k = choose|k: int| first_media_link(links, k);
            lemma_first_link_at(links, k);
        }
    }
}

/// Without a moment given, a page is read at one that the clock told.
pub proof fn law_page_is_read_at_the_current_moment(html: &str, live: Option<NowWatching>)
    requires
        call_ensures(parse_now_watching, (html,), live),
    ensures
        exists|now: Moment|
            {
                &&& #[trigger] clock::read_from_clock(now)
                &&& now.valid()
                &&& optional_live(live) == live_on_page(html@, now)
            },
{
}

/// The first link to a media page is the one that is found, with its text.
proof fn lemma_first_link_at(links: Seq<ElementView>, k: int)
    requires
        first_media_link(links, k),
    ensures
        first_link(links, 3) == Some((media_link(href_of(links[k]))->0, text_in(seq![links[k]]))),
    decreases links.len(),
{
    assert(links[0] == links.first());
    if k > 0 {
        assert(media_link(href_of(links[0])) is None);
        let rest = links.skip(1);
        assert(rest[k - 1] == links[k]);
        assert forall|j: int| 0 <= j < k - 1 implies media_link(href_of(#[trigger] rest[j]))
            is None by {
            assert(rest[j] == links[j + 1]);
        }
        lemma_first_link_at(rest, k - 1);
    }
    assert(text_in(seq![links[k]]) == element_text(links[k]));
}

/// Where a link to a media page is found, there is a first one.
proof fn lemma_first_link_found(links: Seq<ElementView>)
    ensures
        first_link(links, 3) is Some ==> exists|k: int| first_media_link(links, k),
    decreases links.len(),
{
    if links.len() > 0 && first_link(links, 3) is Some {
        if media_link(href_of(links[0])) is Some {
            assert(first_media_link(links, 0));
        } else {
            let rest = links.skip(1);
            lemma_first_link_found(rest);
            let k = choose|k: int| first_media_link(rest, k);
            assert(links[k + 1] == rest[k]);
            assert forall|j: int| 0 <= j < k + 1 implies media_link(href_of(#[trigger] links[j]))
                is None by {
                if j > 0 {
                    assert(links[j] == rest[j - 1]);
                }
            }
            assert(first_media_link(links, k + 1));
        }
    }
}

/// Which of four groups gives the text.
proof fn lemma_first_of_four(groups: Seq<Seq<ElementView>>)
    requires
        groups.len() == 4,
    ensures
        first_text(groups) == (if has_text(groups[0]) {
            Some(text_in(groups[0]))
        } else if has_text(groups[1]) {
            Some(text_in(groups[1]))
        } else if has_text(groups[2]) {
            Some(text_in(groups[2]))
        } else if has_text(groups[3]) {
            Some(text_in(groups[3]))
        } else {
            None
        }),
{
    let one = groups.skip(1);
    let two = one.skip(1);
    let three = two.skip(1);
    let four = three.skip(1);
    assert(one[0] == groups[1] && two[0] == groups[2] && three[0] == groups[3]);
    assert(first_text(four) is None);
    assert(first_text(three) == (if has_text(groups[3]) {
        Some(text_in(groups[3]))
    } else {
        None
    }));
    assert(first_text(two) == (if has_text(groups[2]) {
        Some(text_in(groups[2]))
    } else {
        first_text(three)
    }));
    assert(first_text(one) == (if has_text(groups[1]) {
        Some(text_in(groups[1]))
    } else {
        first_text(two)
    }));
}

/// Which of five groups gives the text.
proof fn lemma_first_of_five(groups: Seq<Seq<ElementView>>)
    requires
        groups.len() == 5,
    ensures
        first_text(groups) == (if has_text(groups[0]) {
            Some(text_in(groups[0]))
        } else if has_text(groups[1]) {
            Some(text_in(groups[1]))
        } else if has_text(groups[2]) {
            Some(text_in(groups[2]))
        } else if has_text(groups[3]) {
            Some(text_in(groups[3]))
        } else if has_text(groups[4]) {
            Some(text_in(groups[4]))
        } else {
            None
        }),
{
    let rest = groups.skip(1);
    lemma_first_of_four(rest);
    assert(rest[0] == groups[1] && rest[1] == groups[2] && rest[2] == groups[3] && rest[3]
        == groups[4]);
}

/// The numbers in a link fit where they are kept.
proof fn lemma_link_fits(href: Seq<char>)
    requires
        media_link(href) is Some,
    ensures
        media_link(href)->0.id <= u64::MAX,
        media_link(href)->0.season is Some ==> media_link(href)->0.season->0 <= u32::MAX,
        media_link(href)->0.episode is Some ==> media_link(href)->0.episode->0 <= u32::MAX,
{
    let parts = text::pieces(text::stripped(href, Edge::Slash), '/');
    lemma_marked_fits(parts.skip(3), "season-"@);
    lemma_marked_fits(parts.skip(3), "episode-"@);
}

/// A marked number fits in a `u32`.
proof fn lemma_marked_fits(parts: Seq<Seq<char>>, mark: Seq<char>)
    ensures
        marked_number(parts, mark) is Some ==> marked_number(parts, mark)->0 <= u32::MAX,
    decreases parts.len(),
{
    if parts.len() > 0 {
        lemma_marked_fits(parts.drop_last(), mark);
    }
}

/// The numbers in the attributes fit where they are kept.
proof fn lemma_numbers_fit(started: Seq<char>, runtime: Seq<char>)
    ensures
        number::signed_value(started) is Some ==> i64::MIN <= number::signed_value(started)->0
            <= i64::MAX,
        number::unsigned_value(runtime, u64::MAX as nat) is Some ==> number::unsigned_value(
            runtime,
            u64::MAX as nat,
        )->0 <= u64::MAX,
{
}

// ---------------------------------------------------------------------------
// Links, titles and posters
// ---------------------------------------------------------------------------
/// A link leads to a media page if, and only if, its path has a kind that is `tv`, `movies` or
/// `anime`, a number that fits in 64 bits, and a name that is not empty. It tells these three.
pub proof fn law_media_links(
    href: &str,
    link: Option<(String, u64, String, Option<u32>, Option<u32>)>,
)
    requires
        call_ensures(parse_media_href, (href,), link),
    ensures
        ({
            let path = text::pieces(text::stripped(href@, Edge::Slash), '/');
            let (kind, id, slug, season, episode) = link->0;
            &&& link is Some <==> {
                &&& path.len() >= 3
                &&& path[0] == "tv"@ || path[0] == "movies"@ || path[0] == "anime"@
                &&& number::unsigned_value(path[1], 18_446_744_073_709_551_615) is Some
                &&& path[2].len() > 0
            }
            &&& link is Some ==> {
                &&& kind@ == path[0]
                &&& number::unsigned_value(path[1], 18_446_744_073_709_551_615) == Some(
                    id as nat,
                )
                &&& slug@ == path[2]
            }
        }),
{
}

/// The season of a link is the number behind the last `season-` that begins a part of its path
/// behind the name, and the episode that behind the last `episode-`. Where there is no such
/// part, or no number behind it, there is none.
pub proof fn law_season_and_episode_of_links(
    href: &str,
    link: Option<(String, u64, String, Option<u32>, Option<u32>)>,
    at: int,
)
    requires
        call_ensures(parse_media_href, (href,), link),
        link is Some,
    ensures
        ({
            let path = text::pieces(text::stripped(href@, Edge::Slash), '/');
            let (kind, id, slug, season, episode) = link->0;
            &&& 3 <= at < path.len() && "season-"@.is_prefix_of(path[at]) && (forall|j: int|
                at < j < path.len() ==> !"season-"@.is_prefix_of(#[trigger] path[j]))
                ==> optional_nat(season) == number::unsigned_value(
                path[at].skip(7),
                4_294_967_295,
            )
            &&& (forall|j: int|
                3 <= j < path.len() ==> !"season-"@.is_prefix_of(#[trigger] path[j]))
                ==> season is None
            &&& 3 <= at < path.len() && "episode-"@.is_prefix_of(path[at]) && (forall|j: int|
                at < j < path.len() ==> !"episode-"@.is_prefix_of(#[trigger] path[j]))
                ==> optional_nat(episode) == number::unsigned_value(
                path[at].skip(8),
                4_294_967_295,
            )
            &&& (forall|j: int|
                3 <= j < path.len() ==> !"episode-"@.is_prefix_of(#[trigger] path[j]))
                ==> episode is None
        }),
{
    let path = text::pieces(text::stripped(href@, Edge::Slash), '/');
    let rest = path.skip(3);
    reveal_strlit("season-");
    reveal_strlit("episode-");
    assert forall|j: int| 3 <= j < path.len() implies #[trigger] path[j] == rest[j - 3] by {}
    assert forall|j: int| 0 <= j < rest.len() implies #[trigger] rest[j] == path[j + 3] by {}
    lemma_last_marked(rest, "season-"@, at - 3);
    lemma_last_marked(rest, "episode-"@, at - 3);
}

/// The number behind the last mark.
proof fn lemma_last_marked(parts: Seq<Seq<char>>, mark: Seq<char>, at: int)
    ensures
        0 <= at < parts.len() && mark.is_prefix_of(parts[at]) && (forall|j: int|
            at < j < parts.len() ==> !mark.is_prefix_of(#[trigger] parts[j])) ==> marked_number(
            parts,
            mark,
        ) == number::unsigned_value(parts[at].skip(mark.len() as int), u32::MAX as nat),
        (forall|j: int| 0 <= j < parts.len() ==> !mark.is_prefix_of(#[trigger] parts[j]))
            ==> marked_number(parts, mark) is None,
    decreases parts.len(),
{
    if parts.len() > 0 {
        let front = parts.drop_last();
        lemma_last_marked(front, mark, at);
        assert(parts.last() == parts[parts.len() - 1]);
        assert forall|j: int| 0 <= j < front.len() implies #[trigger] front[j] == parts[j] by {}
    }
}

/// Of a title with a label, what follows the last colon is kept if it is not blank; else, and
/// without a colon, all of it. White space around it goes in every case.
pub proof fn law_titles_are_cleaned(raw: &str, title: String, label: Seq<char>, rest: Seq<char>)
    requires
        call_ensures(clean_episode_title, (raw,), title),
    ensures
        !raw@.contains(':') ==> title@ == text::trimmed(raw@),
        raw@ == label + seq![':'] + rest && !rest.contains(':') && text::trimmed(rest).len() > 0
            ==> title@ == text::trimmed(rest),
        raw@ == label + seq![':'] + rest && !rest.contains(':') && text::trimmed(rest).len() == 0
            ==> title@ == text::trimmed(raw@),
{
    if !raw@.contains(':') {
        law_plain_title_is_kept(raw@);
    }
    if raw@ == label + seq![':'] + rest && !rest.contains(':') {
        let at = label.len() as int + 1;
        assert forall|k: int| at <= k < raw@.len() implies raw@[k] != ':' by {
            assert(raw@[k] == rest[k - at]);
            assert(rest.contains(rest[k - at]));
        }
        text::lemma_after_last(raw@, ':', at);
        assert(raw@.take(at).last() == ':');
        assert(raw@.skip(at) == rest);
        assert(Seq::<char>::empty() + rest == rest);
    }
}

/// A poster is fetched through the proxy at wsrv.nl, from Simkl's directory that is named like
/// the first two bytes of its hash, in the medium size. A hash of fewer bytes has none.
pub proof fn law_poster_stands_under_its_hash(hash: &str, url: Option<String>)
    requires
        call_ensures(poster_url, (hash,), url),
    ensures
        hash@.len() >= 2 && hash@[0] as u32 <= 0x7f && hash@[1] as u32 <= 0x7f ==> url is Some
            && url->0@ == "https://wsrv.nl/?url=https://simkl.in/posters/"@ + hash@.take(2) + "/"@
            + hash@ + "_m.webp"@,
        hash@.len() == 0 ==> url is None,
        hash@.len() == 1 && hash@[0] as u32 <= 0x7f ==> url is None,
        url is Some ==> text::front(hash@, 2) is Some && url->0@
            == "https://wsrv.nl/?url=https://simkl.in/posters/"@ + text::front(hash@, 2)->0 + "/"@
            + hash@ + "_m.webp"@,
        url is None ==> text::front(hash@, 2) is None,
{
    if hash@.len() >= 2 && hash@[0] as u32 <= 0x7f && hash@[1] as u32 <= 0x7f {
        assert forall|i: int| 0 <= i < hash@.len() && i < 2 implies (#[trigger] hash@[i]) as u32
            <= 0x7f by {
            if i == 0 {
            } else {
                assert(i == 1);
            }
        }
        text::lemma_front_of_ascii(hash@, 2);
    } else if hash@.len() == 1 && hash@[0] as u32 <= 0x7f {
        text::lemma_front_of_ascii(hash@, 2);
    }
}

/// The address of a poster at Simkl, with `https:`, `http:` or no protocol, gives the poster
/// with the hash in it: the name of the file up to the first `_`, behind one directory. An
/// address that does not name the directory of posters gives none.
pub proof fn law_poster_address_gives_its_hash(
    src: &str,
    url: Option<String>,
    protocol: Seq<char>,
    directory: Seq<char>,
    hash: &str,
    rest: Seq<char>,
    of_hash: Option<String>,
)
    requires
        call_ensures(simkl_poster_to_wsrv, (src,), url),
        call_ensures(poster_url, (hash,), of_hash),
    ensures
        ({
            &&& protocol == ""@ || protocol == "https:"@ || protocol == "http:"@
            &&& !directory.contains('/')
            &&& !hash@.contains('_')
            &&& src@ == protocol + "//simkl.in/posters/"@ + directory + "/"@ + hash@ + "_"@ + rest
        }) ==> text::optional_text(url) == text::optional_text(of_hash),
        (forall|at: int| !text::stands_at(src@, "simkl.in/posters/"@, at)) ==> url is None,
{
    if (protocol == ""@ || protocol == "https:"@ || protocol == "http:"@) && !directory.contains(
        '/',
    ) && !hash@.contains('_') {
        law_poster_address_is_understood(protocol, directory, hash@, rest);
    }
    if forall|at: int| !text::stands_at(src@, "simkl.in/posters/"@, at) {
        let one = text::without_prefixes(src@, "https:"@);
        let two = text::without_prefixes(one, "http:"@);
        let clean = text::without_prefixes(two, "//"@);
        let start = "simkl.in/posters/"@;
        text::lemma_prefixes_leave_the_end(src@, "https:"@);
        text::lemma_prefixes_leave_the_end(one, "http:"@);
        text::lemma_prefixes_leave_the_end(two, "//"@);
        let at = src@.len() - clean.len();
        assert(clean == src@.skip(at));
        if start.is_prefix_of(clean) {
            assert(src@.subrange(at, at + start.len()) == clean.subrange(0, start.len() as int));
            assert(text::stands_at(src@, start, at));
        }
    }
}

/// The poster of a live session is that of the first image in the bar: of its `src`, or where
/// that is missing of its `data-src`. Without a bar, an image or an address there is none.
pub proof fn law_live_poster_is_the_first_image(html: &str, url: Option<String>)
    requires
        call_ensures(extract_live_poster_url, (html,), url),
    ensures
        page::page_region(
            html@,
            "#simklScrobbleBar"@,
            seq!["img"@],
            seq!["src"@, "data-src"@],
        ) is None ==> url is None,
        page::page_region(
            html@,
            "#simklScrobbleBar"@,
            seq!["img"@],
            seq!["src"@, "data-src"@],
        ) matches Some(bar) ==> {
            let image = bar.matches[0][0];
            &&& bar.matches[0].len() == 0 ==> url is None
            &&& bar.matches[0].len() > 0 && image.attributes[0] is Some ==> text::optional_text(
                url,
            ) == proxied_source(image.attributes[0]->0)
            &&& bar.matches[0].len() > 0 && image.attributes[0] is None && image.attributes[1]
                is Some ==> text::optional_text(url) == proxied_source(image.attributes[1]->0)
            &&& bar.matches[0].len() > 0 && image.attributes[0] is None && image.attributes[1]
                is None ==> url is None
        },
{
}

} // verus!
