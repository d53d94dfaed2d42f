//! The client of the Simkl API: what it asks, what it makes of the answers, and what it
//! remembers.

use lru::LruCache;
use vstd::prelude::*;
use vstd::string::*;

use crate::cache;
use crate::cache::{cache_get, cache_put, new_cache, CacheUse};
use crate::clock;
use crate::clock::{Moment, Timestamp};
use crate::config::Config;
use crate::dashboard;
use crate::dashboard::{LiveView, NowWatching};
use crate::json;
use crate::number;
use crate::number::decimal_text;
use crate::playback;
use crate::playback::{ActivitiesResponse, RawPlaybackEntry};
use crate::retry;
use crate::retry::{Duration, ErrorKind, RetryConfig, RetryError, Step};
use crate::state;
use crate::state::{MediaType, PlaybackSession, SessionView};
use crate::text;
use crate::text::same_text;

verus! {

/// Number of poster URLs to cache in memory.
pub const POSTER_CACHE_SIZE: usize = 128;

// ---------------------------------------------------------------------------
// Requests
// ---------------------------------------------------------------------------
/// A GET request.
#[derive(Debug)]
pub struct Request {
    /// The address.
    pub url: String,
    /// Names and values of the query.
    pub query: Vec<(String, String)>,
    /// Names and values of the headers.
    pub headers: Vec<(String, String)>,
}

/// [`Request`] with its texts as character sequences.
pub ghost struct RequestView {
    /// The address.
    pub url: Seq<char>,
    /// Names and values of the query.
    pub query: Seq<(Seq<char>, Seq<char>)>,
    /// Names and values of the headers.
    pub headers: Seq<(Seq<char>, Seq<char>)>,
}

/// Pairs of texts as pairs of character sequences.
pub open spec fn pair_texts(pairs: Seq<(String, String)>) -> Seq<(Seq<char>, Seq<char>)> {
    pairs.map_values(|pair: (String, String)| (pair.0@, pair.1@))
}

impl View for Request {
    type V = RequestView;

    open spec fn view(&self) -> RequestView {
        RequestView {
            url: self.url@,
            query: pair_texts(self.query@),
            headers: pair_texts(self.headers@),
        }
    }
}

/// A pair of texts.
fn pair(name: &str, value: &str) -> (pair: (String, String))
    ensures
        pair.0@ == name@,
        pair.1@ == value@,
{
    (name.to_owned(), value.to_owned())
}

/// Two texts one after the other.
fn concat(first: &str, second: &str) -> (whole: String)
    ensures
        whole@ == first@ + second@,
{
    let mut whole = first.to_owned();
    whole.append(second);
    whole
}

/// Whether `fetch`, called with the request, leads from one state of the world to the other
/// with this reply.
pub open spec fn asked<W, R, F: FnOnce(W, &Request) -> (W, R)>(
    fetch: &F,
    request: RequestView,
    before: W,
    after: W,
    reply: R,
) -> bool {
    exists|r: Request| r@ == request && #[trigger] call_ensures(
        *fetch,
        (before, &r),
        (after, reply),
    )
}

/// An attempt that is one call of `fetch` with the request.
pub open spec fn request_of<
    T,
    W,
    F: Fn(W, &Request) -> (W, Result<T, (ErrorKind, String)>),
>(fetch: &F, request: RequestView) -> Step<W, T> {
    |attempt: u32, before: W, after: W, outcome: Result<T, (ErrorKind, String)>|
        asked(fetch, request, before, after, outcome)
}

/// Whether `fetch` may be called with the request in this state of the world. It need not
/// allow any other request.
pub open spec fn may_ask<W, R, F: FnOnce(W, &Request) -> (W, R)>(
    fetch: &F,
    request: RequestView,
    world: W,
) -> bool {
    forall|r: Request| r@ == request ==> #[trigger] call_requires(*fetch, (world, &r))
}

/// Whether `fetch` and `sleep` may be called as far as a request with retries needs it:
/// `fetch` with the request in this state of the world; once a reply asked for another
/// attempt which the limit allows, `sleep` for the delay due then; and once that has passed,
/// `fetch` with the same request again. They need not allow any other call.
pub open spec fn may_fetch<
    T,
    W,
    F: Fn(W, &Request) -> (W, Result<T, (ErrorKind, String)>),
    S: FnMut(W, Duration) -> W,
>(retry: RetryConfig, fetch: &F, request: RequestView, sleep: S, world: W) -> bool {
    &&& retry.max_retries > 0 ==> may_ask(fetch, request, world)
    &&& forall|k: u32, before: W, after: W, reply: Result<T, (ErrorKind, String)>, d: Duration|
        {
            &&& #[trigger] asked(fetch, request, before, after, reply)
            &&& retry::asks_again(reply)
            &&& k + 1 < retry.max_retries
            &&& d@ == #[trigger] retry.delay(k as nat)
        } ==> #[trigger] call_requires(sleep, (after, d))
    &&& forall|k: u32, before: W, after: W, reply: Result<T, (ErrorKind, String)>, next: W|
        {
            &&& #[trigger] asked(fetch, request, before, after, reply)
            &&& retry::asks_again(reply)
            &&& k + 1 < retry.max_retries
            &&& #[trigger] retry::rested(retry, sleep, k as nat, after, next)
        } ==> may_ask(fetch, request, next)
}

// ---------------------------------------------------------------------------
// The client
// ---------------------------------------------------------------------------
/// What is known for asking Simkl, and what it answered that is kept.
pub struct SimklClient {
    /// Client ID of the Simkl API application.
    pub client_id: String,
    /// Token that stands for the user.
    pub access_token: String,
    /// Where the API lives.
    pub base_url: String,
    poster_cache: LruCache<u64, String>,
    retry_config: RetryConfig,
    /// Numeric Simkl user ID — fetched lazily from /users/settings.
    /// Used to construct the dashboard URL for NOW WATCHING scraping.
    user_id: Option<u64>,
}

/// [`SimklClient`] with its texts as character sequences.
pub ghost struct ClientView {
    /// Client ID of the Simkl API application.
    pub client_id: Seq<char>,
    /// Token that stands for the user.
    pub access_token: Seq<char>,
    /// Where the API lives.
    pub base_url: Seq<char>,
    /// Poster URLs by Simkl number, the one used last first.
    pub posters: Seq<(u64, Seq<char>)>,
    /// How many poster URLs are kept.
    pub poster_limit: nat,
    /// How requests are repeated.
    pub retry: RetryConfig,
    /// The user's number at Simkl, once it is known.
    pub user_id: Option<u64>,
}

impl View for SimklClient {
    type V = ClientView;

    closed spec fn view(&self) -> ClientView {
        ClientView {
            client_id: self.client_id@,
            access_token: self.access_token@,
            base_url: self.base_url@,
            posters: cache::cache_entries(self.poster_cache),
            poster_limit: cache::cache_limit(self.poster_cache),
            retry: self.retry_config,
            user_id: self.user_id,
        }
    }
}

impl ClientView {
    /// Whether the posters are within the limit and none is kept twice.
    pub open spec fn wf(self) -> bool {
        &&& self.poster_limit == POSTER_CACHE_SIZE
        &&& cache::orderly(self.posters, self.poster_limit)
    }

    /// The request for `path` of the API, in the name of the user.
    pub open spec fn api_request(self, path: Seq<char>) -> RequestView {
        RequestView {
            url: self.base_url + path,
            query: Seq::empty(),
            headers: seq![
                ("Authorization"@, "Bearer "@ + self.access_token),
                ("simkl-api-key"@, self.client_id),
                ("Content-Type"@, "application/json"@),
            ],
        }
    }

    /// The request for all that is known of a title.
    pub open spec fn poster_request(self, simkl_id: u64, media_type: MediaType) -> RequestView {
        RequestView {
            url: self.base_url + "/"@ + state::page_segment(media_type) + "/"@ + number::decimal(
                simkl_id as nat,
            ),
            query: seq![("extended"@, "full"@)],
            headers: seq![("simkl-api-key"@, self.client_id)],
        }
    }

    /// The request for the user's dashboard page.
    pub open spec fn dashboard_request(self, user_id: u64) -> RequestView {
        RequestView {
            url: "https://simkl.com/"@ + number::decimal(user_id as nat) + "/dashboard/"@,
            query: Seq::empty(),
            headers: seq![
                ("Authorization"@, "Bearer "@ + self.access_token),
                ("Cookie"@, "simkl_access_token="@ + self.access_token),
                ("Accept"@, "text/html,application/xhtml+xml"@),
            ],
        }
    }

    /// The client after a poster was looked up.
    pub open spec fn poster_touched(self, simkl_id: u64) -> ClientView {
        ClientView { posters: cache::touched(self.posters, simkl_id), ..self }
    }

    /// The client after a poster was kept.
    pub open spec fn poster_stored(self, simkl_id: u64, url: Seq<char>) -> ClientView {
        ClientView {
            posters: cache::stored(self.posters, self.poster_limit, simkl_id, url),
            ..self
        }
    }
}

/// Whether /sync/activities was asked, with retries, led from one state of the world to the
/// other, and came to `result`.
pub open spec fn activities_told<
    W,
    F: Fn(W, &Request) -> (W, Result<ActivitiesResponse, (ErrorKind, String)>),
    S: FnMut(W, Duration) -> W,
>(
    client: ClientView,
    fetch: &F,
    sleep: S,
    before: W,
    after: W,
    result: Result<ActivitiesResponse, ApiError>,
) -> bool {
    exists|answer: Result<ActivitiesResponse, RetryError>|
        {
            &&& #[trigger] retry::executed(
                client.retry,
                request_of(fetch, client.api_request("/sync/activities"@)),
                sleep,
                before,
                after,
                answer,
            )
            &&& match answer {
                Ok(activities) => result matches Ok(a) && a == activities,
                Err(failure) => result matches Err(ApiError::Activities(f)) && f == failure,
            }
        }
}

impl SimklClient {
    /// A client that has asked nothing yet.
    pub fn new(client_id: String, access_token: String) -> (client: SimklClient)
        ensures
            client@.client_id == client_id@,
            client@.access_token == access_token@,
            client@.base_url == "https://api.simkl.com"@,
            client@.posters == Seq::<(u64, Seq<char>)>::empty(),
            client@.user_id is None,
            client@.retry.max_retries == 4,
            client@.retry.base_delay@ == 500 * retry::NANOS_PER_MILLI,
            client@.retry.max_delay@ == 30 * retry::NANOS_PER_SEC,
            client@.wf(),
    {
        SimklClient {
            client_id,
            access_token,
            base_url: "https://api.simkl.com".to_owned(),
            poster_cache: new_cache(POSTER_CACHE_SIZE),
            retry_config: RetryConfig::default(),
            user_id: None,
        }
    }

    /// The request for `path` of the API, in the name of the user.
    pub fn get_request(&self, path: &str) -> (request: Request)
        ensures
            request@ == self@.api_request(path@),
    {
        let mut headers: Vec<(String, String)> = Vec::new();
        headers.push(pair("Authorization", concat("Bearer ", self.access_token.as_str()).as_str()));
        headers.push(pair("simkl-api-key", self.client_id.as_str()));
        headers.push(pair("Content-Type", "application/json"));
        let request = Request {
            url: concat(self.base_url.as_str(), path),
            query: Vec::new(),
            headers,
        };
        assert(request@.headers == self@.api_request(path@).headers);
        assert(request@.query == self@.api_request(path@).query);
        request
    }

    /// Whether this client stands for the user and the application of the configuration.
    pub fn serves(&self, config: &Config) -> (same: bool)
        ensures
            same == (self@.client_id == config@.client_id && config@.access_token == Some(
                self@.access_token,
            )),
    {
        match &config.simkl_access_token {
            Some(token) => same_text(self.access_token.as_str(), token.as_str()) && same_text(
                self.client_id.as_str(),
                config.simkl_client_id.as_str(),
            ),
            None => false,
        }
    }

    /// Fetches with retries, each time with the same request.
    fn fetch_with_retry<
        T,
        W,
        F: Fn(W, &Request) -> (W, Result<T, (ErrorKind, String)>),
        S: FnMut(W, Duration) -> W,
    >(&self, request: &Request, world: W, fetch: F, sleep: S) -> (done: (W, Result<T, RetryError>))
        requires
            may_fetch(self@.retry, &fetch, request@, sleep, world),
        ensures
            retry::executed(
                self@.retry,
                request_of(&fetch, request@),
                sleep,
                world,
                done.0,
                done.1,
            ),
    {
        let attempt_once = |w: W, attempt: u32| -> (reply: (W, Result<T, (ErrorKind, String)>))
            requires
                may_ask(&fetch, request@, w),
            ensures
                asked(&fetch, request@, w, reply.0, reply.1),
            { fetch(w, request) };
        let done = retry::execute_with_retry(&self.retry_config, world, attempt_once, sleep);
        proof {
            retry::lemma_executed(
                self@.retry,
                retry::call_of(attempt_once),
                request_of(&fetch, request@),
                sleep,
                world,
                done.0,
                done.1,
            );
        }
        done
    }

    /// When playback was last paused or stopped: asks /sync/activities.
    ///
    /// `fetch` and `sleep` take the state of the `world` that they work on and hand it back;
    /// what the last call left is handed back with the result.
    pub fn get_activities<
        W,
        F: Fn(W, &Request) -> (W, Result<ActivitiesResponse, (ErrorKind, String)>),
        S: FnMut(W, Duration) -> W,
    >(&self, world: W, fetch: F, sleep: S) -> (done: (W, Result<ActivitiesResponse, ApiError>))
        requires
            may_fetch(
                self@.retry,
                &fetch,
                self@.api_request("/sync/activities"@),
                sleep,
                world,
            ),
        ensures
            activities_told(self@, &fetch, sleep, world, done.0, done.1),
    {
        let request = self.get_request("/sync/activities");
        let (after, answer) = self.fetch_with_retry(&request, world, fetch, sleep);
        let result = match answer {
            Ok(activities) => Ok(activities),
            Err(failure) => Err(ApiError::Activities(failure)),
        };
        assert(activities_told(self@, &fetch, sleep, world, after, result));
        (after, result)
    }
}

/// Why Simkl did not tell what is needed for a poll.
#[derive(Debug)]
pub enum ApiError {
    /// Asking /sync/activities failed.
    Activities(RetryError),
    /// Asking /sync/playback failed.
    Playback(RetryError),
}

impl ApiError {
    /// What to tell about it.
    pub open spec fn text(self) -> Seq<char> {
        match self {
            ApiError::Activities(e) => "get_activities failed: "@ + e.text(),
            ApiError::Playback(e) => "get_playback failed: "@ + e.text(),
        }
    }

    /// What to tell about it.
    pub fn message(&self) -> (message: String)
        ensures
            message@ == self.text(),
    {
        match self {
            ApiError::Activities(e) => concat("get_activities failed: ", e.message().as_str()),
            ApiError::Playback(e) => concat("get_playback failed: ", e.message().as_str()),
        }
    }
}

// ---------------------------------------------------------------------------
// /sync/playback
// ---------------------------------------------------------------------------
/// Whether `outcome` is what a body of /sync/playback comes to: an error that more attempts
/// will not mend if it cannot be read, no entries if it is `null`, and else what `parse`
/// makes of it.
pub open spec fn playback_read<P: Fn(&Vec<u8>) -> Result<Vec<RawPlaybackEntry>, String>>(
    parse: &P,
    body: Vec<u8>,
    outcome: Result<Option<Vec<RawPlaybackEntry>>, (ErrorKind, String)>,
) -> bool {
    match json::json_refusal(body@) {
        Some(reason) => outcome matches Err((ErrorKind::Fatal, message)) && message@
            == "Failed to read playback body: Failed to read JSON: "@ + reason,
        None => if json::is_null(body@) {
            outcome matches Ok(None)
        } else {
            exists|parsed: Result<Vec<RawPlaybackEntry>, String>|
                {
                    &&& #[trigger] call_ensures(*parse, (&body,), parsed)
                    &&& match parsed {
                        Ok(entries) => outcome matches Ok(Some(e)) && e == entries,
                        Err(reason) => outcome matches Err((ErrorKind::Fatal, message)) && message@
                            == "Failed to deserialise playback entries: "@ + reason@,
                    }
                }
        },
    }
}

/// What a body of /sync/playback comes to. Simkl returns `null` (not `[]`) when there are
/// no sessions.
pub fn read_playback<P: Fn(&Vec<u8>) -> Result<Vec<RawPlaybackEntry>, String>>(
    body: &Vec<u8>,
    parse: &P,
) -> (outcome: Result<Option<Vec<RawPlaybackEntry>>, (ErrorKind, String)>)
    requires
        !json::is_null(body@) ==> call_requires(*parse, (body,)),
    ensures
        playback_read(parse, *body, outcome),
{
    match json::read_null(body.as_slice()) {
        Err(reason) => Err(
            (
                ErrorKind::Fatal,
                concat("Failed to read playback body: Failed to read JSON: ", reason.as_str()),
            ),
        ),
        Ok(true) => Ok(None),
        Ok(false) => match parse(body) {
            Ok(entries) => Ok(Some(entries)),
            Err(reason) => Err(
                (
                    ErrorKind::Fatal,
                    concat("Failed to deserialise playback entries: ", reason.as_str()),
                ),
            ),
        },
    }
}

/// Whether `fetch`, called with the request for /sync/playback, leads from one state of the
/// world to the other, and `outcome` is what its reply comes to.
pub open spec fn playback_asked<
    W,
    F: Fn(W, &Request) -> (W, Result<Vec<u8>, (ErrorKind, String)>),
    P: Fn(&Vec<u8>) -> Result<Vec<RawPlaybackEntry>, String>,
>(
    fetch: &F,
    parse: &P,
    request: RequestView,
    before: W,
    after: W,
    outcome: Result<Option<Vec<RawPlaybackEntry>>, (ErrorKind, String)>,
) -> bool {
    exists|reply: Result<Vec<u8>, (ErrorKind, String)>|
        {
            &&& #[trigger] asked(fetch, request, before, after, reply)
            &&& match reply {
                Ok(body) => playback_read(parse, body, outcome),
                Err(failure) => outcome matches Err(f) && f == failure,
            }
        }
}

/// An attempt that is one call of `fetch` with the request for /sync/playback, its reply read.
pub open spec fn playback_request_of<
    W,
    F: Fn(W, &Request) -> (W, Result<Vec<u8>, (ErrorKind, String)>),
    P: Fn(&Vec<u8>) -> Result<Vec<RawPlaybackEntry>, String>,
>(fetch: &F, parse: &P, request: RequestView) -> Step<W, Option<Vec<RawPlaybackEntry>>> {
    |
        attempt: u32,
        before: W,
        after: W,
        outcome: Result<Option<Vec<RawPlaybackEntry>>, (ErrorKind, String)>,
    | playback_asked(fetch, parse, request, before, after, outcome)
}

/// The views of the sessions in what was read.
pub open spec fn sessions_of(entries: Option<Vec<RawPlaybackEntry>>) -> Seq<SessionView> {
    match entries {
        Some(e) => playback::sessions_in(e@),
        None => Seq::empty(),
    }
}

/// Whether /sync/playback was asked, with retries, led from one state of the world to the
/// other, and came to `result`.
pub open spec fn playback_told<
    W,
    F: Fn(W, &Request) -> (W, Result<Vec<u8>, (ErrorKind, String)>),
    P: Fn(&Vec<u8>) -> Result<Vec<RawPlaybackEntry>, String>,
    S: FnMut(W, Duration) -> W,
>(
    client: ClientView,
    fetch: &F,
    parse: &P,
    sleep: S,
    before: W,
    after: W,
    result: Result<Vec<PlaybackSession>, ApiError>,
) -> bool {
    exists|entries: Result<Option<Vec<RawPlaybackEntry>>, RetryError>|
        {
            &&& #[trigger] retry::executed(
                client.retry,
                playback_request_of(fetch, parse, client.api_request("/sync/playback"@)),
                sleep,
                before,
                after,
                entries,
            )
            &&& match entries {
                Ok(e) => result matches Ok(sessions) && playback::session_views(sessions@)
                    == sessions_of(e),
                Err(failure) => result matches Err(ApiError::Playback(f)) && f == failure,
            }
        }
}

impl SimklClient {
    /// The paused and stopped sessions: asks /sync/playback. `parse` reads the entries in
    /// a body that is not `null`, and is called with no other.
    pub fn get_playback<
        W,
        F: Fn(W, &Request) -> (W, Result<Vec<u8>, (ErrorKind, String)>),
        P: Fn(&Vec<u8>) -> Result<Vec<RawPlaybackEntry>, String>,
        S: FnMut(W, Duration) -> W,
    >(&self, world: W, fetch: F, parse: P, sleep: S) -> (done: (
        W,
        Result<Vec<PlaybackSession>, ApiError>,
    ))
        requires
            may_fetch(self@.retry, &fetch, self@.api_request("/sync/playback"@), sleep, world),
            forall|before: W, after: W, body: Vec<u8>|
                {
                    &&& #[trigger] asked(
                        &fetch,
                        self@.api_request("/sync/playback"@),
                        before,
                        after,
                        Ok(body),
                    )
                    &&& !json::is_null(body@)
                } ==> call_requires(parse, (&body,)),
        ensures
            playback_told(self@, &fetch, &parse, sleep, world, done.0, done.1),
    {
        let request = self.get_request("/sync/playback");
        let ghost asking = request@;
        let fetch_and_read = |w: W, r: &Request| -> (reply: (
            W,
            Result<Option<Vec<RawPlaybackEntry>>, (ErrorKind, String)>,
        ))
            requires
                r@ == self@.api_request("/sync/playback"@),
                may_ask(&fetch, r@, w),
            ensures
                playback_asked(&fetch, &parse, r@, w, reply.0, reply.1),
            {
                let ghost before = w;
                let (after, reply) = fetch(w, r);
                assert(asked(&fetch, r@, before, after, reply));
                match reply {
                    Ok(body) => (after, read_playback(&body, &parse)),
                    Err(failure) => (after, Err(failure)),
                }
            };
        assert(may_fetch(self@.retry, &fetch_and_read, asking, sleep, world)) by {
            assert forall|
                before: W,
                after: W,
                outcome: Result<Option<Vec<RawPlaybackEntry>>, (ErrorKind, String)>,
            | #[trigger]
                asked(&fetch_and_read, asking, before, after, outcome) && retry::asks_again(
                    outcome,
                ) implies exists|reply: Result<Vec<u8>, (ErrorKind, String)>| #[trigger]
                asked(&fetch, asking, before, after, reply) && retry::asks_again(reply) by {
                assert(playback_asked(&fetch, &parse, asking, before, after, outcome));
            }
        }
        let (after, entries) = self.fetch_with_retry(&request, world, fetch_and_read, sleep);
        proof {
            retry::lemma_executed(
                self@.retry,
                request_of(&fetch_and_read, asking),
                playback_request_of(&fetch, &parse, asking),
                sleep,
                world,
                after,
                entries,
            );
        }
        let result = match entries {
            Ok(entries) => Ok(playback::playback_sessions(entries)),
            Err(failure) => Err(ApiError::Playback(failure)),
        };
        assert(playback_told(self@, &fetch, &parse, sleep, world, after, result));
        (after, result)
    }
}

// ---------------------------------------------------------------------------
// Posters
// ---------------------------------------------------------------------------
/// The proxied poster in an answer about a title.
pub open spec fn poster_in(answer: Result<Option<String>, RetryError>) -> Option<Seq<char>> {
    match answer {
        Ok(Some(hash)) => dashboard::proxied_poster(hash@),
        _ => None,
    }
}

/// The client after an answer about a title: a poster in it is kept.
pub open spec fn poster_answered(
    client: ClientView,
    simkl_id: u64,
    poster: Option<Seq<char>>,
) -> ClientView {
    match poster {
        Some(url) => client.poster_stored(simkl_id, url),
        None => client,
    }
}

/// Whether a title was asked about, with retries, led from one state of the world to the
/// other, and gave this poster and this client.
pub open spec fn poster_told<
    W,
    F: Fn(W, &Request) -> (W, Result<Option<String>, (ErrorKind, String)>),
    S: FnMut(W, Duration) -> W,
>(
    client: ClientView,
    simkl_id: u64,
    media_type: MediaType,
    fetch: &F,
    sleep: S,
    before: W,
    after: W,
    poster: Option<Seq<char>>,
    client_after: ClientView,
) -> bool {
    exists|answer: Result<Option<String>, RetryError>|
        {
            &&& #[trigger] retry::executed(
                client.retry,
                request_of(fetch, client.poster_request(simkl_id, media_type)),
                sleep,
                before,
                after,
                answer,
            )
            &&& poster == poster_in(answer)
            &&& client_after == poster_answered(client, simkl_id, poster_in(answer))
        }
}

impl SimklClient {
    /// The request for all that is known of a title.
    fn poster_request(&self, simkl_id: u64, media_type: MediaType) -> (request: Request)
        ensures
            request@ == self@.poster_request(simkl_id, media_type),
    {
        let mut url = concat(self.base_url.as_str(), "/");
        url.append(state::segment_for(media_type));
        url.append("/");
        url.append(decimal_text(simkl_id).as_str());
        let mut query: Vec<(String, String)> = Vec::new();
        query.push(pair("extended", "full"));
        let mut headers: Vec<(String, String)> = Vec::new();
        headers.push(pair("simkl-api-key", self.client_id.as_str()));
        let request = Request { url, query, headers };
        assert(request@.headers == self@.poster_request(simkl_id, media_type).headers);
        assert(request@.query == self@.poster_request(simkl_id, media_type).query);
        request
    }

    /// The poster URL for the poster hash of a title, which is kept.
    pub fn keep_poster(&mut self, simkl_id: u64, hash: Option<String>) -> (url: Option<String>)
        ensures
            text::optional_text(url) == poster_in(Ok(hash)),
            final(self)@ == poster_answered(old(self)@, simkl_id, poster_in(Ok(hash))),
            old(self)@.wf() ==> final(self)@.wf(),
    {
        proof {
            if old(self)@.wf() {
                if let Some(url) = poster_in(Ok(hash)) {
                    cache::law_storing_keeps_order(
                        old(self)@.posters,
                        old(self)@.poster_limit,
                        simkl_id,
                        url,
                    );
                }
            }
        }
        match hash {
            Some(hash) => match dashboard::poster_url(hash.as_str()) {
                Some(url) => {
                    let _ = cache_put(&mut self.poster_cache, simkl_id, url.clone());
                    Some(url)
                },
                None => None,
            },
            None => None,
        }
    }

    /// The poster URL of a title: from the cache if available, with no request, else from
    /// the poster hash that `fetch` gives for the title.
    pub fn get_poster_url<
        W,
        F: Fn(W, &Request) -> (W, Result<Option<String>, (ErrorKind, String)>),
        S: FnMut(W, Duration) -> W,
    >(&mut self, simkl_id: u64, media_type: &MediaType, world: W, fetch: F, sleep: S) -> (done: (
        W,
        Option<String>,
    ))
        requires
            cache::lookup(old(self)@.posters, simkl_id) is None ==> may_fetch(
                old(self)@.retry,
                &fetch,
                old(self)@.poster_request(simkl_id, *media_type),
                sleep,
                world,
            ),
        ensures
            match cache::lookup(old(self)@.posters, simkl_id) {
                Some(kept) => {
                    &&& text::optional_text(done.1) == Some(kept)
                    &&& final(self)@ == old(self)@.poster_touched(simkl_id)
                    &&& done.0 == world
                },
                None => poster_told(
                    old(self)@,
                    simkl_id,
                    *media_type,
                    &fetch,
                    sleep,
                    world,
                    done.0,
                    text::optional_text(done.1),
                    final(self)@,
                ),
            },
            old(self)@.wf() ==> final(self)@.wf(),
    {
        proof {
            if old(self)@.wf() {
                cache::law_lookup_keeps_order(
                    old(self)@.posters,
                    old(self)@.poster_limit,
                    simkl_id,
                );
            }
        }
        if let Some(url) = cache_get(&mut self.poster_cache, simkl_id) {
            return (world, Some(url));
        }
        assert(self@ == old(self)@);
        let request = self.poster_request(simkl_id, *media_type);
        let (after, answer) = self.fetch_with_retry(&request, world, fetch, sleep);
        let url = match answer {
            Ok(hash) => self.keep_poster(simkl_id, hash),
            Err(_) => None,
        };
        assert(poster_told(
            old(self)@,
            simkl_id,
            *media_type,
            &fetch,
            sleep,
            world,
            after,
            text::optional_text(url),
            self@,
        ));
        (after, url)
    }
}

// ---------------------------------------------------------------------------
// The session window
// ---------------------------------------------------------------------------
/// Whether a session is to be shown at `now`: live sessions always, others from their pause
/// until it lies `window_hours` whole hours back.
pub open spec fn in_window(session: SessionView, window_hours: nat, now: Moment) -> bool {
    let age = clock::whole_seconds(clock::nanos_between(now, session.paused_at));
    session.live_start is Some || (age >= 0 && age / 3600 < window_hours)
}

impl SimklClient {
    /// Whether a session is within the window at `now`.
    pub fn should_show_session_at(
        session: &PlaybackSession,
        window_hours: u64,
        now: &Timestamp,
    ) -> (show: bool)
        ensures
            show == in_window(session@, window_hours as nat, now@),
    {
        // Live sessions are always within window.
        if session.is_live() {
            return true;
        }
        let age: i64 = now.seconds_since(&session.paused_at);
        age >= 0 && ((age / 3600) as u64) < window_hours
    }

    /// Whether a session is within the configured window.
    pub fn should_show_session(session: &PlaybackSession, window_hours: u64) -> (show: bool)
        ensures
            exists|now: Moment|
                {
                    &&& #[trigger] clock::read_from_clock(now)
                    &&& now.valid()
                    &&& show == in_window(session@, window_hours as nat, now)
                },
    {
        let now = clock::current();
        assert(clock::read_from_clock(now@));
        SimklClient::should_show_session_at(session, window_hours, &now)
    }
}

// ---------------------------------------------------------------------------
// The user's number
// ---------------------------------------------------------------------------
/// Where /users/settings may hold the user's number, in the order of preference.
pub open spec fn user_id_paths() -> Seq<Seq<Seq<char>>> {
    seq![
        seq!["user"@, "ids"@, "simkl"@],
        seq!["account"@, "id"@],
        seq!["user"@, "simkl"@],
        seq!["user"@, "id"@],
    ]
}

/// The first number that was found.
pub open spec fn first_number(numbers: Seq<Option<u64>>) -> Option<u64>
    decreases numbers.len(),
{
    if numbers.len() == 0 {
        None
    } else {
        match numbers.first() {
            Some(n) => Some(n),
            None => first_number(numbers.drop_first()),
        }
    }
}

/// The first number that was found.
pub fn pick_number(numbers: &Vec<Option<u64>>) -> (number: Option<u64>)
    ensures
        number == first_number(numbers@),
{
    let mut i: usize = 0;
    assert(numbers@.skip(0) == numbers@);
    while i < numbers.len()
        invariant
            i <= numbers@.len(),
            first_number(numbers@) == first_number(numbers@.skip(i as int)),
        decreases numbers@.len() - i,
    {
        assert(numbers@.skip(i as int).drop_first() == numbers@.skip(i + 1));
        if numbers[i].is_some() {
            return numbers[i];
        }
        i = i + 1;
    }
    None
}

/// The user's number in a body of /users/settings that is JSON.
pub open spec fn user_id_in(body: Seq<u8>) -> Option<u64> {
    first_number(json::json_numbers(body, user_id_paths()))
}

/// Whether `outcome` is what a body of /users/settings comes to: the user's number where
/// one is found, or an error that more attempts will not mend if it cannot be read.
pub open spec fn settings_read(
    body: Seq<u8>,
    outcome: Result<Option<u64>, (ErrorKind, String)>,
) -> bool {
    match json::json_refusal(body) {
        Some(reason) => outcome matches Err((ErrorKind::Fatal, message)) && message@
            == "Failed to parse user settings: Failed to read JSON: "@ + reason,
        None => outcome matches Ok(id) && id == user_id_in(body),
    }
}

/// What a body of /users/settings comes to.
pub fn read_settings(body: &Vec<u8>) -> (outcome: Result<Option<u64>, (ErrorKind, String)>)
    ensures
        settings_read(body@, outcome),
        outcome is Ok ==> json::json_numbers(body@, user_id_paths()).len() == 4,
{
    let paths: Vec<Vec<&str>> = vec![
        vec!["user", "ids", "simkl"],
        vec!["account", "id"],
        vec!["user", "simkl"],
        vec!["user", "id"],
    ];
    proof {
        let texts = json::path_texts(paths@);
        assert(texts[0] == seq!["user"@, "ids"@, "simkl"@]);
        assert(texts[1] == seq!["account"@, "id"@]);
        assert(texts[2] == seq!["user"@, "simkl"@]);
        assert(texts[3] == seq!["user"@, "id"@]);
        assert(texts == user_id_paths());
    }
    match json::read_numbers(body.as_slice(), &paths) {
        Ok(numbers) => Ok(pick_number(&numbers)),
        Err(reason) => Err(
            (
                ErrorKind::Fatal,
                concat("Failed to parse user settings: Failed to read JSON: ", reason.as_str()),
            ),
        ),
    }
}

/// Whether `fetch`, called with the request for /users/settings, leads from one state of the
/// world to the other, and `outcome` is what its reply comes to.
pub open spec fn settings_asked<
    W,
    F: Fn(W, &Request) -> (W, Result<Vec<u8>, (ErrorKind, String)>),
>(
    fetch: &F,
    request: RequestView,
    before: W,
    after: W,
    outcome: Result<Option<u64>, (ErrorKind, String)>,
) -> bool {
    exists|reply: Result<Vec<u8>, (ErrorKind, String)>|
        {
            &&& #[trigger] asked(fetch, request, before, after, reply)
            &&& match reply {
                Ok(body) => settings_read(body@, outcome),
                Err(failure) => outcome matches Err(f) && f == failure,
            }
        }
}

/// An attempt that is one call of `fetch` with the request for /users/settings, its reply
/// read.
pub open spec fn settings_request_of<
    W,
    F: Fn(W, &Request) -> (W, Result<Vec<u8>, (ErrorKind, String)>),
>(fetch: &F, request: RequestView) -> Step<W, Option<u64>> {
    |attempt: u32, before: W, after: W, outcome: Result<Option<u64>, (ErrorKind, String)>|
        settings_asked(fetch, request, before, after, outcome)
}

/// Why the user's number is not known.
#[derive(Debug)]
pub enum UserIdError {
    /// Simkl did not answer, or not with JSON.
    Failed(RetryError),
    /// The answer does not hold it.
    Missing,
}

impl UserIdError {
    /// What to tell about it.
    pub fn message(&self) -> (message: String)
        ensures
            message@ == (match *self {
                UserIdError::Failed(e) => "fetch_user_id failed: "@ + e.text(),
                UserIdError::Missing => "Cannot find user ID in /users/settings response. Full response logged at TRACE level. Run with RUST_LOG=dissimkl=trace to inspect it."@,
            }),
    {
        match self {
            UserIdError::Failed(e) => concat("fetch_user_id failed: ", e.message().as_str()),
            UserIdError::Missing => {
                "Cannot find user ID in /users/settings response. Full response logged at TRACE level. Run with RUST_LOG=dissimkl=trace to inspect it.".to_owned()
            },
        }
    }
}

/// Whether a request for the user's number was made, with retries, led from one state of the
/// world to the other, and ended in `result`.
pub open spec fn user_id_fetched<
    W,
    F: Fn(W, &Request) -> (W, Result<Vec<u8>, (ErrorKind, String)>),
    S: FnMut(W, Duration) -> W,
>(
    client: ClientView,
    fetch: &F,
    sleep: S,
    before: W,
    after: W,
    result: Result<u64, UserIdError>,
) -> bool {
    exists|answer: Result<Option<u64>, RetryError>|
        {
            &&& #[trigger] retry::executed(
                client.retry,
                settings_request_of(fetch, client.api_request("/users/settings"@)),
                sleep,
                before,
                after,
                answer,
            )
            &&& match answer {
                Ok(Some(id)) => result matches Ok(got) && got == id,
                Ok(None) => result matches Err(UserIdError::Missing),
                Err(failure) => result matches Err(UserIdError::Failed(f)) && f == failure,
            }
        }
}

impl SimklClient {
    /// The user's number: asks /users/settings.
    pub fn fetch_user_id<
        W,
        F: Fn(W, &Request) -> (W, Result<Vec<u8>, (ErrorKind, String)>),
        S: FnMut(W, Duration) -> W,
    >(&self, world: W, fetch: &F, sleep: S) -> (done: (W, Result<u64, UserIdError>))
        requires
            may_fetch(self@.retry, fetch, self@.api_request("/users/settings"@), sleep, world),
        ensures
            user_id_fetched(self@, fetch, sleep, world, done.0, done.1),
    {
        let request = self.get_request("/users/settings");
        let ghost asking = request@;
        let fetch_and_read = |w: W, r: &Request| -> (reply: (
            W,
            Result<Option<u64>, (ErrorKind, String)>,
        ))
            requires
                may_ask(fetch, r@, w),
            ensures
                settings_asked(fetch, r@, w, reply.0, reply.1),
            {
                let ghost before = w;
                let (after, reply) = fetch(w, r);
                assert(asked(fetch, r@, before, after, reply));
                match reply {
                    Ok(body) => (after, read_settings(&body)),
                    Err(failure) => (after, Err(failure)),
                }
            };
        assert(may_fetch(self@.retry, &fetch_and_read, asking, sleep, world)) by {
            assert forall|before: W, after: W, outcome: Result<Option<u64>, (ErrorKind, String)>|
                #[trigger]
                asked(&fetch_and_read, asking, before, after, outcome) && retry::asks_again(
                    outcome,
                ) implies exists|reply: Result<Vec<u8>, (ErrorKind, String)>| #[trigger]
                asked(fetch, asking, before, after, reply) && retry::asks_again(reply) by {
                assert(settings_asked(fetch, asking, before, after, outcome));
            }
        }
        let (after, answer) = self.fetch_with_retry(&request, world, fetch_and_read, sleep);
        proof {
            retry::lemma_executed(
                self@.retry,
                request_of(&fetch_and_read, asking),
                settings_request_of(fetch, asking),
                sleep,
                world,
                after,
                answer,
            );
        }
        match answer {
            Ok(Some(id)) => (after, Ok(id)),
            Ok(None) => (after, Err(UserIdError::Missing)),
            Err(failure) => (after, Err(UserIdError::Failed(failure))),
        }
    }

    /// Fetch (and cache) the numeric Simkl user ID. One that is known is not asked for.
    /// Returns `None` if the fetch fails; the next call then fetches again.
    pub fn ensure_user_id<
        W,
        F: Fn(W, &Request) -> (W, Result<Vec<u8>, (ErrorKind, String)>),
        S: FnMut(W, Duration) -> W,
    >(&mut self, world: W, fetch: &F, sleep: S) -> (done: (W, Option<u64>))
        requires
            old(self)@.user_id is None ==> may_fetch(
                old(self)@.retry,
                fetch,
                old(self)@.api_request("/users/settings"@),
                sleep,
                world,
            ),
        ensures
            user_id_ensured(old(self)@, fetch, sleep, world, done.0, done.1),
            final(self)@ == old(self)@.with_user(done.1),
    {
        if let Some(id) = self.user_id {
            return (world, Some(id));
        }
        let (after, result) = self.fetch_user_id(world, fetch, sleep);
        assert(user_id_fetched(self@, fetch, sleep, world, after, result));
        match result {
            Ok(id) => {
                self.user_id = Some(id);
                (after, Some(id))
            },
            Err(_) => (after, None),
        }
    }
}

/// Whether the user's number was known as `user_id`, with nothing asked, or asked for with
/// that outcome.
pub open spec fn user_id_ensured<
    W,
    F: Fn(W, &Request) -> (W, Result<Vec<u8>, (ErrorKind, String)>),
    S: FnMut(W, Duration) -> W,
>(
    client: ClientView,
    fetch: &F,
    sleep: S,
    before: W,
    after: W,
    user_id: Option<u64>,
) -> bool {
    match client.user_id {
        Some(id) => user_id == Some(id) && after == before,
        None => exists|result: Result<u64, UserIdError>|
            {
                &&& #[trigger] user_id_fetched(client, fetch, sleep, before, after, result)
                &&& user_id == (match result {
                    Ok(id) => Some(id),
                    Err(_) => None,
                })
            },
    }
}

impl ClientView {
    /// The client with the user's number, if it was found.
    pub open spec fn with_user(self, user_id: Option<u64>) -> ClientView {
        match user_id {
            Some(id) => ClientView { user_id: Some(id), ..self },
            None => self,
        }
    }
}

// ---------------------------------------------------------------------------
// NOW WATCHING — scrape the Simkl dashboard for an active start session
//
// The public API only exposes paused/stopped sessions via /sync/playback.
// Active start sessions ("NOW WATCHING") live exclusively in the web UI.
// We detect them by scraping the dashboard page and reading the scrobble
// bar data attributes.
// ---------------------------------------------------------------------------
impl ClientView {
    /// What the dashboard page `html` shows at `now`, and the client after reading it. The
    /// poster on the page is kept, unless one is kept for the title already.
    pub open spec fn dashboard_read(self, html: Seq<char>, now: Moment) -> (
        Option<LiveView>,
        ClientView,
    ) {
        match dashboard::live_on_page(html, now) {
            None => (None, self),
            Some(live) => match live.session.ids.simkl {
                None => (Some(live), self),
                Some(id) => if cache::lookup(self.posters, id) is Some {
                    (Some(live), self.poster_touched(id))
                } else {
                    (Some(live), poster_answered(self, id, dashboard::live_poster(html)))
                },
            },
        }
    }
}

/// Whether the reply to the request for the dashboard page was read, at a moment that the
/// clock told, with this outcome.
pub open spec fn dashboard_seen(
    before: ClientView,
    reply: Option<String>,
    live: Option<LiveView>,
    after: ClientView,
) -> bool {
    match reply {
        Some(html) => exists|now: Moment|
            {
                &&& #[trigger] clock::read_from_clock(now)
                &&& now.valid()
                &&& before.dashboard_read(html@, now) == (live, after)
            },
        None => live is None && after == before,
    }
}

/// Whether the user's number was known or asked for, and the dashboard page then asked for and
/// read, led from one state of the world to the other, and gave this session and this client.
/// Without the number nothing is asked and nothing is given.
pub open spec fn now_watching_told<
    W,
    F: Fn(W, &Request) -> (W, Result<Vec<u8>, (ErrorKind, String)>),
    G: FnOnce(W, &Request) -> (W, Option<String>),
    S: FnMut(W, Duration) -> W,
>(
    client: ClientView,
    fetch: &F,
    fetch_page: &G,
    sleep: S,
    before: W,
    after: W,
    live: Option<LiveView>,
    client_after: ClientView,
) -> bool {
    exists|user_id: Option<u64>, between: W|
        {
            &&& #[trigger] user_id_ensured(client, fetch, sleep, before, between, user_id)
            &&& match user_id {
                None => live is None && client_after == client && after == between,
                Some(id) => exists|reply: Option<String>|
                    {
                        &&& #[trigger] asked(
                            fetch_page,
                            client.dashboard_request(id),
                            between,
                            after,
                            reply,
                        )
                        &&& dashboard_seen(client.with_user(user_id), reply, live, client_after)
                    },
            }
        }
}

impl SimklClient {
    /// The request for the user's dashboard page.
    fn dashboard_request(&self, user_id: u64) -> (request: Request)
        ensures
            request@ == self@.dashboard_request(user_id),
    {
        let mut url = concat("https://simkl.com/", decimal_text(user_id).as_str());
        url.append("/dashboard/");
        let mut headers: Vec<(String, String)> = Vec::new();
        headers.push(pair("Authorization", concat("Bearer ", self.access_token.as_str()).as_str()));
        headers.push(
            pair("Cookie", concat("simkl_access_token=", self.access_token.as_str()).as_str()),
        );
        headers.push(pair("Accept", "text/html,application/xhtml+xml"));
        let request = Request { url, query: Vec::new(), headers };
        assert(request@.headers == self@.dashboard_request(user_id).headers);
        assert(request@.query == self@.dashboard_request(user_id).query);
        request
    }

    /// The session that the dashboard page `html` shows at `now`. The poster on the page is
    /// kept, so that asking for the poster of the session needs no request.
    pub fn read_dashboard(&mut self, html: &str, now: &Timestamp) -> (live: Option<NowWatching>)
        ensures
            (dashboard::optional_live(live), final(self)@) == old(self)@.dashboard_read(
                html@,
                now@,
            ),
            old(self)@.wf() ==> final(self)@.wf(),
    {
        let live = match dashboard::parse_now_watching_at(html, now) {
            Some(live) => live,
            None => {
                return None;
            },
        };
        if let Some(simkl_id) = live.session.ids.simkl {
            proof {
                if self@.wf() {
                    cache::law_lookup_keeps_order(self@.posters, self@.poster_limit, simkl_id);
                    if let Some(url) = dashboard::live_poster(html@) {
                        cache::law_storing_keeps_order(
                            self@.posters,
                            self@.poster_limit,
                            simkl_id,
                            url,
                        );
                    }
                }
            }
            if cache_get(&mut self.poster_cache, simkl_id).is_none() {
                if let Some(url) = dashboard::extract_live_poster_url(html) {
                    let _ = cache_put(&mut self.poster_cache, simkl_id, url);
                }
            }
        }
        Some(live)
    }

    /// Fetch the Simkl dashboard and extract an active "NOW WATCHING" session,
    /// if any.  Returns `None` if:
    ///   • the user ID cannot be determined
    ///   • the dashboard is unreachable
    ///   • the scrobble bar element is absent (nothing playing)
    ///   • the HTML cannot be parsed
    pub fn get_now_watching<
        W,
        F: Fn(W, &Request) -> (W, Result<Vec<u8>, (ErrorKind, String)>),
        G: FnOnce(W, &Request) -> (W, Option<String>),
        S: FnMut(W, Duration) -> W,
    >(&mut self, world: W, fetch: &F, fetch_page: G, sleep: S) -> (done: (W, Option<NowWatching>))
        requires
            old(self)@.user_id is None ==> may_fetch(
                old(self)@.retry,
                fetch,
                old(self)@.api_request("/users/settings"@),
                sleep,
                world,
            ),
            forall|id: u64, reached: W| #[trigger]
                user_id_ensured(old(self)@, fetch, sleep, world, reached, Some(id)) ==> may_ask(
                    &fetch_page,
                    old(self)@.dashboard_request(id),
                    reached,
                ),
        ensures
            now_watching_told(
                old(self)@,
                fetch,
                &fetch_page,
                sleep,
                world,
                done.0,
                dashboard::optional_live(done.1),
                final(self)@,
            ),
            old(self)@.wf() ==> final(self)@.wf(),
    {
        let (between, user_id) = self.ensure_user_id(world, fetch, sleep);
        let ghost reached = between;
        assert(user_id_ensured(old(self)@, fetch, sleep, world, reached, user_id));
        let id: u64 = match user_id {
            Some(id) => id,
            None => {
                return (between, None);
            },
        };
        let ghost client = self@;
        let request = self.dashboard_request(id);
        assert(request@ == old(self)@.dashboard_request(id));
        assert(may_ask(&fetch_page, old(self)@.dashboard_request(id), reached));
        let (after, reply) = fetch_page(between, &request);
        assert(asked(&fetch_page, old(self)@.dashboard_request(id), reached, after, reply));
        let live = match &reply {
            Some(html) => {
                let now = clock::current();
                assert(clock::read_from_clock(now@));
                self.read_dashboard(html.as_str(), &now)
            },
            None => None,
        };
        assert(dashboard_seen(client, reply, dashboard::optional_live(live), self@));
        assert(now_watching_told(
            old(self)@,
            fetch,
            &fetch_page,
            sleep,
            world,
            after,
            dashboard::optional_live(live),
            self@,
        ));
        (after, live)
    }
}

// ---------------------------------------------------------------------------
// Laws
// ---------------------------------------------------------------------------
/// A poster that was kept is in the cache, where asking for it finds it.
pub proof fn law_kept_poster_is_found(client: ClientView, simkl_id: u64, url: Seq<char>)
    ensures
        cache::lookup(client.poster_stored(simkl_id, url).posters, simkl_id) == Some(url),
{
    cache::law_stored_value_is_found(client.posters, client.poster_limit, simkl_id, url);
}

/// A poster that was kept stays until 128 others were found or kept.
pub proof fn law_poster_stays_until_pushed_out(
    client: ClientView,
    simkl_id: u64,
    url: Seq<char>,
    uses: Seq<CacheUse>,
)
    requires
        client.wf(),
        forall|i: int|
            0 <= i < uses.len() && uses[i] is Store ==> (#[trigger] uses[i]).key() != simkl_id,
        cache::others_used(
            client.poster_stored(simkl_id, url).posters,
            client.poster_limit,
            uses,
            simkl_id,
        ).len() < 128,
    ensures
        cache::lookup(
            cache::after_uses(
                client.poster_stored(simkl_id, url).posters,
                client.poster_limit,
                uses,
            ),
            simkl_id,
        ) == Some(url),
{
    let kept = client.poster_stored(simkl_id, url).posters;
    cache::law_storing_keeps_order(client.posters, client.poster_limit, simkl_id, url);
    assert(kept.first() == (simkl_id, url));
    cache::law_value_stays_until_pushed_out(kept, client.poster_limit, uses, simkl_id, url);
}

/// Once a dashboard page has shown a live session, the poster on the page is the one that
/// asking for the poster of that session finds; a poster that was kept before stays.
pub proof fn law_live_poster_is_kept(client: ClientView, html: Seq<char>, now: Moment, id: u64)
    requires
        dashboard::live_on_page(html, now) is Some,
        dashboard::live_on_page(html, now)->0.session.ids.simkl == Some(id),
    ensures
        cache::lookup(client.dashboard_read(html, now).1.posters, id) == (match cache::lookup(
            client.posters,
            id,
        ) {
            Some(kept) => Some(kept),
            None => dashboard::live_poster(html),
        }),
{
    cache::law_lookup_keeps_values(client.posters, id, id);
    if let Some(url) = dashboard::live_poster(html) {
        cache::law_stored_value_is_found(client.posters, client.poster_limit, id, url);
    }
}

/// Outside leap seconds, a paused session is within the window from its pause on until as
/// many hours have passed as the window has, and at no other time. Less than a second before
/// the pause counts as the pause.
pub proof fn law_window_lasts_its_hours(session: SessionView, window_hours: nat, now: Moment)
    requires
        session.live_start is None,
        now.nanos < 1_000_000_000,
        session.paused_at.nanos < 1_000_000_000,
    ensures
        ({
            let passed = (now.secs - session.paused_at.secs) * 1_000_000_000 + now.nanos
                - session.paused_at.nanos;
            in_window(session, window_hours, now) <==> window_hours > 0 && -1_000_000_000 < passed
                < window_hours * 3_600_000_000_000
        }),
{
    let passed = (now.secs - session.paused_at.secs) * 1_000_000_000 + now.nanos
        - session.paused_at.nanos;
    assert(clock::nanos_between(now, session.paused_at) == passed);
}

/// The same of what is told whether to show a session: a paused one is shown while fewer hours
/// have passed since its pause than the window has, and not before the pause; a live one is
/// always shown.
pub proof fn law_session_is_shown_for_the_hours_of_the_window(
    session: PlaybackSession,
    window_hours: u64,
    now: Timestamp,
    show: bool,
)
    requires
        call_ensures(SimklClient::should_show_session_at, (&session, window_hours, &now), show),
        now@.nanos < 1_000_000_000,
        session.paused_at@.nanos < 1_000_000_000,
    ensures
        session.live_start is Some ==> show,
        session.live_start is None ==> ({
            let passed = (now@.secs - session.paused_at@.secs) * 1_000_000_000 + now@.nanos
                - session.paused_at@.nanos;
            show <==> window_hours > 0 && -1_000_000_000 < passed < window_hours
                * 3_600_000_000_000
        }),
{
    if session.live_start is None {
        law_window_lasts_its_hours(session@, window_hours as nat, now@);
    }
}

/// Without a moment given, the window is measured at one that the clock told.
pub proof fn law_window_goes_by_the_clock(
    session: PlaybackSession,
    window_hours: u64,
    show: bool,
)
    requires
        call_ensures(SimklClient::should_show_session, (&session, window_hours), show),
    ensures
        exists|now: Moment|
            {
                &&& #[trigger] clock::read_from_clock(now)
                &&& now.valid()
                &&& show == in_window(session@, window_hours as nat, now)
            },
{
}

/// A session within a window is within every longer one.
pub proof fn law_longer_window_shows_more(
    session: SessionView,
    shorter: nat,
    longer: nat,
    now: Moment,
)
    requires
        shorter <= longer,
        in_window(session, shorter, now),
    ensures
        in_window(session, longer, now),
{
}

/// A live session is within every window.
pub proof fn law_live_session_is_shown(session: SessionView, window_hours: nat, now: Moment)
    requires
        session.live_start is Some,
    ensures
        in_window(session, window_hours, now),
{
}

/// A request to the API goes to the path below the base address, without a query, and carries
/// the user's token, the client ID, and that JSON is spoken; and nothing else.
pub proof fn law_api_requests(client: SimklClient, path: &str, request: Request)
    requires
        call_ensures(SimklClient::get_request, (&client, path), request),
    ensures
        request.url@ == client@.base_url + path@,
        request.query@.len() == 0,
        request.headers@.len() == 3,
        request.headers@[0].0@ == "Authorization"@,
        request.headers@[0].1@ == "Bearer "@ + client@.access_token,
        request.headers@[1].0@ == "simkl-api-key"@,
        request.headers@[1].1@ == client@.client_id,
        request.headers@[2].0@ == "Content-Type"@,
        request.headers@[2].1@ == "application/json"@,
{
    let headers = pair_texts(request.headers@);
    assert(request@.headers == headers);
    assert(request@.query == pair_texts(request.query@));
    assert(headers[0] == (request.headers@[0].0@, request.headers@[0].1@));
    assert(headers[1] == (request.headers@[1].0@, request.headers@[1].1@));
    assert(headers[2] == (request.headers@[2].0@, request.headers@[2].1@));
}

/// What is asked about a title goes to its page at the API, under `tv`, `movies` or `anime`,
/// for the full answer, and carries the client ID alone. The dashboard is asked for under the
/// user's number, with the token as a header and as a cookie, as a page.
pub proof fn law_other_requests(client: ClientView, id: u64, media_type: MediaType)
    ensures
        ({
            let asked = client.poster_request(id, media_type);
            let segment = match media_type {
                MediaType::Episode => "/tv/"@,
                MediaType::Movie => "/movies/"@,
                MediaType::Anime => "/anime/"@,
                MediaType::AnimeMovie => "/anime/"@,
            };
            &&& asked.url == client.base_url + segment + number::decimal(id as nat)
            &&& asked.query == seq![("extended"@, "full"@)]
            &&& asked.headers == seq![("simkl-api-key"@, client.client_id)]
        }),
        ({
            let asked = client.dashboard_request(id);
            &&& asked.url == "https://simkl.com/"@ + number::decimal(id as nat) + "/dashboard/"@
            &&& asked.query.len() == 0
            &&& asked.headers == seq![
                ("Authorization"@, "Bearer "@ + client.access_token),
                ("Cookie"@, "simkl_access_token="@ + client.access_token),
                ("Accept"@, "text/html,application/xhtml+xml"@),
            ]
        }),
{
    reveal_strlit("/");
    assert("/tv/"@ == "/"@ + "tv"@ + "/"@) by {
        reveal_strlit("/tv/");
        reveal_strlit("tv");
    }
    assert("/movies/"@ == "/"@ + "movies"@ + "/"@) by {
        reveal_strlit("/movies/");
        reveal_strlit("movies");
    }
    assert("/anime/"@ == "/"@ + "anime"@ + "/"@) by {
        reveal_strlit("/anime/");
        reveal_strlit("anime");
    }
    let segment = state::page_segment(media_type);
    let number = number::decimal(id as nat);
    assert(client.base_url + "/"@ + segment + "/"@ + number == client.base_url + ("/"@ + segment
        + "/"@) + number);
}

/// A new client asks Simkl's API in the name of the user, knows no poster and no number, keeps
/// up to 128 posters, and makes up to four attempts.
pub proof fn law_new_client(client_id: String, access_token: String, client: SimklClient)
    requires
        call_ensures(SimklClient::new, (client_id, access_token), client),
    ensures
        client@.client_id == client_id@,
        client@.access_token == access_token@,
        client@.base_url == "https://api.simkl.com"@,
        client@.posters.len() == 0,
        client@.poster_limit == 128,
        client@.user_id is None,
        client@.retry.max_retries == 4,
        client@.retry.base_delay@ == 500_000_000,
        client@.retry.max_delay@ == 30_000_000_000,
{
}

/// A client serves a configuration if, and only if, both name the same application and the same
/// user.
pub proof fn law_client_serves_its_user(client: SimklClient, config: Config, same: bool)
    requires
        call_ensures(SimklClient::serves, (&client, &config), same),
    ensures
        same <==> client@.client_id == config.simkl_client_id@ && config.simkl_access_token is Some
            && client@.access_token == config.simkl_access_token->0@,
{
}

/// The activities are asked for at `/sync/activities`, in the name of the user, with retries.
/// An answer is handed on; a run without one is the error.
pub proof fn law_activities_are_asked_for<
    W,
    F: Fn(W, &Request) -> (W, Result<ActivitiesResponse, (ErrorKind, String)>),
    S: FnMut(W, Duration) -> W,
>(
    client: SimklClient,
    world: W,
    fetch: F,
    sleep: S,
    done: (W, Result<ActivitiesResponse, ApiError>),
)
    requires
        call_ensures(SimklClient::get_activities::<W, F, S>, (&client, world, fetch, sleep), done),
    ensures
        exists|answer: Result<ActivitiesResponse, RetryError>|
            {
                &&& #[trigger] retry::executed(
                    client@.retry,
                    request_of(&fetch, client@.api_request("/sync/activities"@)),
                    sleep,
                    world,
                    done.0,
                    answer,
                )
                &&& answer matches Ok(activities) ==> done.1 == Ok::<ActivitiesResponse, ApiError>(
                    activities,
                )
                &&& answer matches Err(failure) ==> done.1 == Err::<ActivitiesResponse, ApiError>(
                    ApiError::Activities(failure),
                )
            },
        (client@.retry.max_retries > 0 && forall|
            before: W,
            after: W,
            reply: Result<ActivitiesResponse, (ErrorKind, String)>,
        | #[trigger]
            asked(&fetch, client@.api_request("/sync/activities"@), before, after, reply)
                ==> reply is Ok) ==> (done.1 matches Ok(activities) && asked(
            &fetch,
            client@.api_request("/sync/activities"@),
            world,
            done.0,
            Ok(activities),
        )),
{
    let step = request_of(&fetch, client@.api_request("/sync/activities"@));
    let answer = choose|answer: Result<ActivitiesResponse, RetryError>|
        {
            &&& #[trigger] retry::executed(client@.retry, step, sleep, world, done.0, answer)
            &&& match answer {
                Ok(activities) => done.1 matches Ok(a) && a == activities,
                Err(failure) => done.1 matches Err(ApiError::Activities(f)) && f == failure,
            }
        };
    assert(retry::executed(client@.retry, step, sleep, world, done.0, answer));
    if client@.retry.max_retries > 0 {
        retry::law_what_a_run_comes_to(client@.retry, step, sleep, world, done.0, answer);
    }
}

/// The sessions are asked for at `/sync/playback`, in the name of the user, with retries. What
/// was read gives the sessions, in its order; a run without an answer is the error.
pub proof fn law_playback_is_asked_for<
    W,
    F: Fn(W, &Request) -> (W, Result<Vec<u8>, (ErrorKind, String)>),
    P: Fn(&Vec<u8>) -> Result<Vec<RawPlaybackEntry>, String>,
    S: FnMut(W, Duration) -> W,
>(
    client: SimklClient,
    world: W,
    fetch: F,
    parse: P,
    sleep: S,
    done: (W, Result<Vec<PlaybackSession>, ApiError>),
)
    requires
        call_ensures(
            SimklClient::get_playback::<W, F, P, S>,
            (&client, world, fetch, parse, sleep),
            done,
        ),
    ensures
        exists|entries: Result<Option<Vec<RawPlaybackEntry>>, RetryError>|
            {
                &&& #[trigger] retry::executed(
                    client@.retry,
                    playback_request_of(&fetch, &parse, client@.api_request("/sync/playback"@)),
                    sleep,
                    world,
                    done.0,
                    entries,
                )
                &&& entries matches Ok(None) ==> (done.1 matches Ok(sessions)
                    && sessions@.len() == 0)
                &&& entries matches Ok(Some(e)) ==> (done.1 matches Ok(sessions)
                    && playback::session_views(sessions@) == playback::sessions_in(e@))
                &&& entries matches Err(failure) ==> done.1 == Err::<
                    Vec<PlaybackSession>,
                    ApiError,
                >(ApiError::Playback(failure))
            },
{
    let step = playback_request_of(&fetch, &parse, client@.api_request("/sync/playback"@));
    let entries = choose|entries: Result<Option<Vec<RawPlaybackEntry>>, RetryError>|
        {
            &&& #[trigger] retry::executed(client@.retry, step, sleep, world, done.0, entries)
            &&& match entries {
                Ok(e) => done.1 matches Ok(sessions) && playback::session_views(sessions@)
                    == sessions_of(e),
                Err(failure) => done.1 matches Err(ApiError::Playback(f)) && f == failure,
            }
        };
    assert(retry::executed(client@.retry, step, sleep, world, done.0, entries));
    if let Ok(sessions) = done.1 {
        assert(playback::session_views(sessions@).len() == sessions@.len());
    }
}

/// A body that is not JSON is an error that will not pass, which tells why. `null` has no
/// entries. Any other body has those that are parsed from it, or the parser's error, which will
/// not pass either.
pub proof fn law_bodies_of_playback<P: Fn(&Vec<u8>) -> Result<Vec<RawPlaybackEntry>, String>>(
    body: Vec<u8>,
    parse: P,
    outcome: Result<Option<Vec<RawPlaybackEntry>>, (ErrorKind, String)>,
)
    requires
        call_ensures(read_playback::<P>, (&body, &parse), outcome),
    ensures
        json::json_refusal(body@) matches Some(reason) ==> (outcome matches Err((kind, message))
            && kind == ErrorKind::Fatal && message@
            == "Failed to read playback body: Failed to read JSON: "@ + reason),
        json::json_refusal(body@) is None && json::is_null(body@) ==> outcome == Ok::<
            Option<Vec<RawPlaybackEntry>>,
            (ErrorKind, String),
        >(None),
        outcome matches Ok(Some(entries)) ==> call_ensures(parse, (&body,), Ok(entries)),
        json::json_refusal(body@) is None && !json::is_null(body@) ==> (outcome matches Ok(
            entries,
        ) ==> entries is Some),
        json::json_refusal(body@) is None && (outcome matches Err(_)) ==> exists|reason: String|
            #[trigger] call_ensures(parse, (&body,), Err(reason)) && outcome->Err_0.0
                == ErrorKind::Fatal && outcome->Err_0.1@
                == "Failed to deserialise playback entries: "@ + reason@,
{
}

/// The user's number is looked for under `user.ids.simkl`, then `account.id`, then
/// `user.simkl`, then `user.id`, and the first number found is taken. A body that is not JSON
/// is an error that will not pass, which tells why.
pub proof fn law_number_of_the_user(
    body: Vec<u8>,
    outcome: Result<Option<u64>, (ErrorKind, String)>,
)
    requires
        call_ensures(read_settings, (&body,), outcome),
    ensures
        json::json_refusal(body@) matches Some(reason) ==> (outcome matches Err((kind, message))
            && kind == ErrorKind::Fatal && message@
            == "Failed to parse user settings: Failed to read JSON: "@ + reason),
        json::json_refusal(body@) is None ==> outcome is Ok && ({
            let found = json::json_numbers(
                body@,
                seq![
                    seq!["user"@, "ids"@, "simkl"@],
                    seq!["account"@, "id"@],
                    seq!["user"@, "simkl"@],
                    seq!["user"@, "id"@],
                ],
            );
            let id = outcome->Ok_0;
            &&& found.len() == 4
            &&& found[0] is Some ==> id == found[0]
            &&& found[0] is None && found[1] is Some ==> id == found[1]
            &&& found[0] is None && found[1] is None && found[2] is Some ==> id == found[2]
            &&& found[0] is None && found[1] is None && found[2] is None ==> id == found[3]
        }),
{
    let found = json::json_numbers(body@, user_id_paths());
    if json::json_refusal(body@) is None {
        let one = found.drop_first();
        let two = one.drop_first();
        let three = two.drop_first();
        let four = three.drop_first();
        assert(found[0] == found.first() && found[1] == one.first());
        assert(found[2] == two.first() && found[3] == three.first());
        assert(first_number(four) is None);
        assert(first_number(three) == found[3]);
        assert(first_number(two) == (if found[2] is Some {
            found[2]
        } else {
            first_number(three)
        }));
        assert(first_number(one) == (if found[1] is Some {
            found[1]
        } else {
            first_number(two)
        }));
    }
}

/// Of several numbers the first that is there is picked.
pub proof fn law_first_number_is_picked(numbers: Vec<Option<u64>>, number: Option<u64>, at: int)
    requires
        call_ensures(pick_number, (&numbers,), number),
    ensures
        0 <= at < numbers@.len() && numbers@[at] is Some && (forall|j: int|
            0 <= j < at ==> (#[trigger] numbers@[j]) is None) ==> number == numbers@[at],
        (forall|j: int| 0 <= j < numbers@.len() ==> (#[trigger] numbers@[j]) is None) ==> number
            is None,
{
    lemma_first_number(numbers@, at);
}

/// The first number of a sequence.
proof fn lemma_first_number(numbers: Seq<Option<u64>>, at: int)
    ensures
        0 <= at < numbers.len() && numbers[at] is Some && (forall|j: int|
            0 <= j < at ==> (#[trigger] numbers[j]) is None) ==> first_number(numbers)
            == numbers[at],
        (forall|j: int| 0 <= j < numbers.len() ==> (#[trigger] numbers[j]) is None)
            ==> first_number(numbers) is None,
    decreases numbers.len(),
{
    if numbers.len() > 0 {
        let rest = numbers.drop_first();
        lemma_first_number(rest, at - 1);
        assert(numbers[0] == numbers.first());
        assert forall|j: int| 0 <= j < rest.len() implies #[trigger] rest[j] == numbers[j + 1] by {}
    }
}

/// The number is asked for at `/users/settings`, in the name of the user, with retries. Where
/// the answer holds none, that is the error; a run without an answer is another.
pub proof fn law_number_is_asked_for<
    W,
    F: Fn(W, &Request) -> (W, Result<Vec<u8>, (ErrorKind, String)>),
    S: FnMut(W, Duration) -> W,
>(client: SimklClient, world: W, fetch: F, sleep: S, done: (W, Result<u64, UserIdError>))
    requires
        call_ensures(SimklClient::fetch_user_id::<W, F, S>, (&client, world, &fetch, sleep), done),
    ensures
        exists|answer: Result<Option<u64>, RetryError>|
            {
                &&& #[trigger] retry::executed(
                    client@.retry,
                    settings_request_of(&fetch, client@.api_request("/users/settings"@)),
                    sleep,
                    world,
                    done.0,
                    answer,
                )
                &&& answer matches Ok(Some(id)) ==> done.1 == Ok::<u64, UserIdError>(id)
                &&& answer matches Ok(None) ==> done.1 == Err::<u64, UserIdError>(
                    UserIdError::Missing,
                )
                &&& answer matches Err(failure) ==> done.1 == Err::<u64, UserIdError>(
                    UserIdError::Failed(failure),
                )
            },
{
}

/// A number that is known is told at once, with nothing asked. One that is not known is asked
/// for; if it is found it is known from then on, and if not, the next time asks again.
pub proof fn law_number_is_asked_for_once<
    W,
    F: Fn(W, &Request) -> (W, Result<Vec<u8>, (ErrorKind, String)>),
    S: FnMut(W, Duration) -> W,
>(client: &mut SimklClient, world: W, fetch: F, sleep: S, done: (W, Option<u64>))
    requires
        call_ensures(SimklClient::ensure_user_id::<W, F, S>, (client, world, &fetch, sleep), done),
    ensures
        old(client)@.user_id is Some ==> done.1 == old(client)@.user_id && done.0 == world,
        final(client)@.user_id == done.1,
        old(client)@.user_id is None ==> exists|result: Result<u64, UserIdError>|
            {
                &&& #[trigger] user_id_fetched(
                    old(client)@,
                    &fetch,
                    sleep,
                    world,
                    done.0,
                    result,
                )
                &&& done.1 is Some <==> result is Ok
                &&& result matches Ok(id) ==> done.1 == Some(id)
            },
        final(client)@.posters == old(client)@.posters,
        final(client)@.access_token == old(client)@.access_token,
        final(client)@.client_id == old(client)@.client_id,
        final(client)@.base_url == old(client)@.base_url,
{
    if old(client)@.user_id is None {
        let result = choose|result: Result<u64, UserIdError>|
            {
                &&& #[trigger] user_id_fetched(old(client)@, &fetch, sleep, world, done.0, result)
                &&& done.1 == (match result {
                    Ok(id) => Some(id),
                    Err(_) => None,
                })
            };
        assert(user_id_fetched(old(client)@, &fetch, sleep, world, done.0, result));
    }
}

/// A poster that is kept is told at once, with nothing asked. One that is not kept is asked
/// for with retries; a poster in the answer is told and kept, and without one, or without an
/// answer, there is none and nothing is kept.
pub proof fn law_posters_are_asked_for_once<
    W,
    F: Fn(W, &Request) -> (W, Result<Option<String>, (ErrorKind, String)>),
    S: FnMut(W, Duration) -> W,
>(
    client: &mut SimklClient,
    id: u64,
    media_type: MediaType,
    world: W,
    fetch: F,
    sleep: S,
    done: (W, Option<String>),
)
    requires
        call_ensures(
            SimklClient::get_poster_url::<W, F, S>,
            (client, id, &media_type, world, fetch, sleep),
            done,
        ),
    ensures
        cache::lookup(old(client)@.posters, id) matches Some(kept) ==> text::optional_text(done.1)
            == Some(kept) && done.0 == world && cache::lookup(final(client)@.posters, id) == Some(
            kept,
        ),
        cache::lookup(old(client)@.posters, id) is None ==> {
            &&& exists|answer: Result<Option<String>, RetryError>|
                {
                    &&& #[trigger] retry::executed(
                        old(client)@.retry,
                        request_of(&fetch, old(client)@.poster_request(id, media_type)),
                        sleep,
                        world,
                        done.0,
                        answer,
                    )
                    &&& answer matches Ok(Some(hash)) ==> text::optional_text(done.1)
                        == dashboard::proxied_poster(hash@)
                    &&& answer matches Ok(None) ==> done.1 is None
                    &&& answer is Err ==> done.1 is None
                }
            &&& done.1 is None ==> final(client)@ == old(client)@
            &&& done.1 matches Some(url) ==> cache::lookup(final(client)@.posters, id) == Some(url@)
        },
        final(client)@.user_id == old(client)@.user_id,
        final(client)@.access_token == old(client)@.access_token,
        final(client)@.client_id == old(client)@.client_id,
        final(client)@.base_url == old(client)@.base_url,
{
    let before = old(client)@;
    cache::law_lookup_keeps_values(before.posters, id, id);
    if cache::lookup(before.posters, id) is None {
        let answer = choose|answer: Result<Option<String>, RetryError>|
            {
                &&& #[trigger] retry::executed(
                    before.retry,
                    request_of(&fetch, before.poster_request(id, media_type)),
                    sleep,
                    world,
                    done.0,
                    answer,
                )
                &&& text::optional_text(done.1) == poster_in(answer)
                &&& final(client)@ == poster_answered(before, id, poster_in(answer))
            };
        assert(retry::executed(
            before.retry,
            request_of(&fetch, before.poster_request(id, media_type)),
            sleep,
            world,
            done.0,
            answer,
        ));
        if let Some(url) = poster_in(answer) {
            cache::law_stored_value_is_found(before.posters, before.poster_limit, id, url);
        }
    }
}

/// Keeping the poster with a hash tells its address, which the client finds from then on; a
/// title without a poster changes nothing.
pub proof fn law_poster_with_a_hash_is_kept(
    client: &mut SimklClient,
    id: u64,
    hash: Option<String>,
    url: Option<String>,
)
    requires
        call_ensures(SimklClient::keep_poster, (client, id, hash), url),
    ensures
        hash is None ==> url is None,
        hash is Some ==> text::optional_text(url) == dashboard::proxied_poster(hash->0@),
        url is None ==> final(client)@ == old(client)@,
        url is Some ==> cache::lookup(final(client)@.posters, id) == Some(url->0@),
{
    if url is Some {
        cache::law_stored_value_is_found(
            old(client)@.posters,
            old(client)@.poster_limit,
            id,
            url->0@,
        );
    }
}

/// What the page shows is told as it stands there, and nothing of the client changes but the
/// posters, and those only where a live session is shown.
pub proof fn law_dashboard_is_read(
    client: &mut SimklClient,
    html: &str,
    now: Timestamp,
    live: Option<NowWatching>,
    parsed: Option<NowWatching>,
)
    requires
        call_ensures(SimklClient::read_dashboard, (client, html, &now), live),
        call_ensures(dashboard::parse_now_watching_at, (html, &now), parsed),
    ensures
        dashboard::optional_live(live) == dashboard::optional_live(parsed),
        live is None ==> final(client)@ == old(client)@,
        final(client)@.user_id == old(client)@.user_id,
        final(client)@.access_token == old(client)@.access_token,
        final(client)@.client_id == old(client)@.client_id,
        final(client)@.base_url == old(client)@.base_url,
{
}

/// Without the user's number nothing is watched and no page is asked for. With it the page is
/// asked for once, under that number, and what it shows at a moment told by the clock is told;
/// without a page nothing is.
pub proof fn law_dashboard_is_asked_for<
    W,
    F: Fn(W, &Request) -> (W, Result<Vec<u8>, (ErrorKind, String)>),
    G: FnOnce(W, &Request) -> (W, Option<String>),
    S: FnMut(W, Duration) -> W,
>(
    client: &mut SimklClient,
    world: W,
    fetch: F,
    fetch_page: G,
    sleep: S,
    done: (W, Option<NowWatching>),
)
    requires
        call_ensures(
            SimklClient::get_now_watching::<W, F, G, S>,
            (client, world, &fetch, fetch_page, sleep),
            done,
        ),
    ensures
        exists|user_id: Option<u64>, between: W|
            {
                &&& #[trigger] user_id_ensured(
                    old(client)@,
                    &fetch,
                    sleep,
                    world,
                    between,
                    user_id,
                )
                &&& user_id is None ==> done.1 is None && done.0 == between && final(client)@
                    == old(client)@
                &&& user_id matches Some(id) ==> exists|reply: Option<String>|
                    {
                        &&& #[trigger] asked(
                            &fetch_page,
                            old(client)@.dashboard_request(id),
                            between,
                            done.0,
                            reply,
                        )
                        &&& reply is None ==> done.1 is None
                        &&& reply matches Some(html) ==> exists|now: Moment|
                            {
                                &&& #[trigger] clock::read_from_clock(now)
                                &&& dashboard::optional_live(done.1) == dashboard::live_on_page(
                                    html@,
                                    now,
                                )
                            }
                    }
                &&& final(client)@.user_id == user_id
            },
{
    let before = old(client)@;
    let after = final(client)@;
    let live = dashboard::optional_live(done.1);
    let (user_id, between) = choose|user_id: Option<u64>, between: W|
        {
            &&& #[trigger] user_id_ensured(before, &fetch, sleep, world, between, user_id)
            &&& match user_id {
                None => live is None && after == before && done.0 == between,
                Some(id) => exists|reply: Option<String>|
                    {
                        &&& #[trigger] asked(
                            &fetch_page,
                            before.dashboard_request(id),
                            between,
                            done.0,
                            reply,
                        )
                        &&& dashboard_seen(before.with_user(user_id), reply, live, after)
                    },
            }
        };
    assert(user_id_ensured(before, &fetch, sleep, world, between, user_id));
    if let Some(id) = user_id {
        let reply = choose|reply: Option<String>|
            {
                &&& #[trigger] asked(
                    &fetch_page,
                    before.dashboard_request(id),
                    between,
                    done.0,
                    reply,
                )
                &&& dashboard_seen(before.with_user(user_id), reply, live, after)
            };
        assert(asked(&fetch_page, before.dashboard_request(id), between, done.0, reply));
        if let Some(html) = reply {
            let now = choose|now: Moment|
                {
                    &&& #[trigger] clock::read_from_clock(now)
                    &&& now.valid()
                    &&& before.with_user(user_id).dashboard_read(html@, now) == (live, after)
                };
            assert(clock::read_from_clock(now));
        }
    }
}

/// What is told about a failure begins with what was asked for and goes on with how the run
/// ended.
pub proof fn law_api_failure_is_told(
    error: ApiError,
    message: String,
    user: UserIdError,
    told: String,
)
    requires
        call_ensures(ApiError::message, (&error,), message),
        call_ensures(UserIdError::message, (&user,), told),
    ensures
        error matches ApiError::Activities(e) ==> message@ == "get_activities failed: "@ + e.text(),
        error matches ApiError::Playback(e) ==> message@ == "get_playback failed: "@ + e.text(),
        user matches UserIdError::Failed(e) ==> told@ == "fetch_user_id failed: "@ + e.text(),
        user is Missing ==> told@
            == "Cannot find user ID in /users/settings response. Full response logged at TRACE level. Run with RUST_LOG=dissimkl=trace to inspect it."@,
{
}

/// An attempt at a request is one call with a request that has that address, that query and
/// these headers, and its outcome is the reply.
pub proof fn law_attempt_is_one_request<
    T,
    W,
    F: Fn(W, &Request) -> (W, Result<T, (ErrorKind, String)>),
>(
    fetch: F,
    request: RequestView,
    attempt: u32,
    before: W,
    after: W,
    outcome: Result<T, (ErrorKind, String)>,
)
    requires
        request_of(&fetch, request)(attempt, before, after, outcome),
    ensures
        exists|r: Request|
            {
                &&& #[trigger] call_ensures(fetch, (before, &r), (after, outcome))
                &&& r.url@ == request.url
                &&& pair_texts(r.query@) == request.query
                &&& pair_texts(r.headers@) == request.headers
            },
{
    let r = choose|r: Request|
        r@ == request && #[trigger] call_ensures(fetch, (before, &r), (after, outcome));
    assert(call_ensures(fetch, (before, &r), (after, outcome)));
    assert(r@.url == r.url@);
    assert(r@.query == pair_texts(r.query@));
    assert(r@.headers == pair_texts(r.headers@));
}

/// An attempt at the sessions is one request, and its outcome is what the body of the reply
/// comes to; a failed request is the outcome itself.
pub proof fn law_attempt_at_the_sessions<
    W,
    F: Fn(W, &Request) -> (W, Result<Vec<u8>, (ErrorKind, String)>),
    P: Fn(&Vec<u8>) -> Result<Vec<RawPlaybackEntry>, String>,
>(
    fetch: F,
    parse: P,
    request: RequestView,
    attempt: u32,
    before: W,
    after: W,
    outcome: Result<Option<Vec<RawPlaybackEntry>>, (ErrorKind, String)>,
)
    requires
        playback_request_of(&fetch, &parse, request)(attempt, before, after, outcome),
    ensures
        exists|reply: Result<Vec<u8>, (ErrorKind, String)>|
            {
                &&& #[trigger] asked(&fetch, request, before, after, reply)
                &&& reply matches Err(failure) ==> outcome == Err::<
                    Option<Vec<RawPlaybackEntry>>,
                    (ErrorKind, String),
                >(failure)
                &&& reply matches Ok(body) ==> {
                    &&& outcome matches Ok(Some(entries)) ==> call_ensures(
                        parse,
                        (&body,),
                        Ok(entries),
                    )
                    &&& outcome matches Ok(None) ==> json::is_null(body@)
                    &&& outcome matches Err((kind, _)) ==> kind == ErrorKind::Fatal
                }
            },
{
    let reply = choose|reply: Result<Vec<u8>, (ErrorKind, String)>|
        {
            &&& #[trigger] asked(&fetch, request, before, after, reply)
            &&& match reply {
                Ok(body) => playback_read(&parse, body, outcome),
                Err(failure) => outcome matches Err(f) && f == failure,
            }
        };
    assert(asked(&fetch, request, before, after, reply));
}

/// An attempt at the user's number is one request, and its outcome is what reading the body of
/// the reply gives; a failed request is the outcome itself.
pub proof fn law_attempt_at_the_number<
    W,
    F: Fn(W, &Request) -> (W, Result<Vec<u8>, (ErrorKind, String)>),
>(
    fetch: F,
    request: RequestView,
    attempt: u32,
    before: W,
    after: W,
    outcome: Result<Option<u64>, (ErrorKind, String)>,
)
    requires
        settings_request_of(&fetch, request)(attempt, before, after, outcome),
    ensures
        exists|reply: Result<Vec<u8>, (ErrorKind, String)>|
            {
                &&& #[trigger] asked(&fetch, request, before, after, reply)
                &&& reply matches Err(failure) ==> outcome == Err::<
                    Option<u64>,
                    (ErrorKind, String),
                >(failure)
                &&& reply matches Ok(body) ==> {
                    &&& outcome matches Ok(id) ==> json::json_refusal(body@) is None && id
                        == first_number(json::json_numbers(body@, user_id_paths()))
                    &&& outcome matches Err((kind, _)) ==> kind == ErrorKind::Fatal
                        && json::json_refusal(body@) is Some
                }
            },
{
    let reply = choose|reply: Result<Vec<u8>, (ErrorKind, String)>|
        {
            &&& #[trigger] asked(&fetch, request, before, after, reply)
            &&& match reply {
                Ok(body) => settings_read(body@, outcome),
                Err(failure) => outcome matches Err(f) && f == failure,
            }
        };
    assert(asked(&fetch, request, before, after, reply));
}

} // verus!
