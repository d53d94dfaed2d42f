//! The Simkl PIN authorization flow: what is asked, and what follows each answer.

use vstd::prelude::*;
use vstd::string::*;

use crate::retry::{Duration, NANOS_PER_SEC};
use crate::text;
use crate::text::same_text;

verus! {

/// The shortest time between two polls, in seconds.
pub const MIN_INTERVAL_SECS: u64 = 5;

/// How much longer to wait once Simkl asks to slow down, in seconds.
pub const SLOW_DOWN_SECS: u64 = 5;

/// Where a PIN is asked for.
pub open spec fn pin_address(client_id: Seq<char>) -> Seq<char> {
    "https://api.simkl.com/oauth/pin?client_id="@ + client_id
        + "&redirect=urn:ietf:wg:oauth:2.0:oob"@
}

/// Where it is asked whether the user has entered the PIN.
pub open spec fn poll_address(user_code: Seq<char>, client_id: Seq<char>) -> Seq<char> {
    "https://api.simkl.com/oauth/pin/"@ + user_code + "?client_id="@ + client_id
}

/// Where a PIN is asked for.
pub fn pin_url(client_id: &str) -> (url: String)
    ensures
        url@ == pin_address(client_id@),
{
    let mut url = "https://api.simkl.com/oauth/pin?client_id=".to_owned();
    url.append(client_id);
    url.append("&redirect=urn:ietf:wg:oauth:2.0:oob");
    url
}

/// Where it is asked whether the user has entered the PIN.
pub fn poll_url(user_code: &str, client_id: &str) -> (url: String)
    ensures
        url@ == poll_address(user_code@, client_id@),
{
    let mut url = "https://api.simkl.com/oauth/pin/".to_owned();
    url.append(user_code);
    url.append("?client_id=");
    url.append(client_id);
    url
}

/// An answer to a poll.
#[derive(Debug)]
pub struct PinPollResponse {
    /// "OK" or "KO".
    pub result: String,
    /// What stands in the way.
    pub message: Option<String>,
    /// The token, once the user has authorized.
    pub access_token: Option<String>,
}

/// What came of a poll.
#[derive(Debug)]
pub enum PollReply {
    /// The request failed.
    NoReply,
    /// The answer could not be read.
    Unreadable,
    /// An answer.
    Answer(PinPollResponse),
}

/// Why there is no token.
#[derive(Clone, Copy, PartialEq, Eq, Structural, Debug)]
pub enum PinError {
    /// The PIN has expired.
    Expired,
    /// Simkl reports success but gives no token.
    NoToken,
}

impl PinError {
    /// What the user is told.
    pub open spec fn text(self) -> Seq<char> {
        match self {
            PinError::Expired => "PIN expired. Please restart the application and try again."@,
            PinError::NoToken => "Server returned OK but no access_token"@,
        }
    }

    /// What the user is told.
    pub fn message(&self) -> (message: String)
        ensures
            message@ == self.text(),
    {
        match self {
            PinError::Expired => {
                "PIN expired. Please restart the application and try again.".to_owned()
            },
            PinError::NoToken => "Server returned OK but no access_token".to_owned(),
        }
    }
}

/// What follows an answer.
#[derive(Debug)]
pub enum PinStep {
    /// Wait and ask again.
    Wait,
    /// The user has authorized: the token.
    Authorized(String),
    /// There will be no token.
    Failed(PinError),
}

/// A PIN that the user has been given.
#[derive(Debug)]
pub struct PinAuth {
    interval_secs: u64,
    expires_in: u64,
}

/// [`PinAuth`] with its parts in the open.
pub ghost struct PinView {
    /// The seconds to wait before each poll.
    pub interval_secs: nat,
    /// The seconds for which the PIN is good.
    pub expires_in: nat,
}

impl View for PinAuth {
    type V = PinView;

    closed spec fn view(&self) -> PinView {
        PinView { interval_secs: self.interval_secs as nat, expires_in: self.expires_in as nat }
    }
}

/// Whether Simkl asks to slow down.
pub open spec fn asks_to_slow_down(answer: PinPollResponse) -> bool {
    answer.result@ == "KO"@ && (text::optional_text(answer.message) matches Some(message)
        && text::contains_text(message, "Slow down"@))
}

impl PinView {
    /// The PIN after what came of a poll: Simkl may ask to slow down.
    pub open spec fn after(self, reply: PollReply) -> PinView {
        match reply {
            PollReply::Answer(answer) => if asks_to_slow_down(answer) {
                PinView { interval_secs: self.interval_secs + SLOW_DOWN_SECS as nat, ..self }
            } else {
                self
            },
            _ => self,
        }
    }
}

/// What follows what came of a poll: a token or its absence if the answer is "OK", and
/// else another poll.
pub open spec fn follows(reply: PollReply, step: PinStep) -> bool {
    match reply {
        PollReply::Answer(answer) => if answer.result@ == "OK"@ {
            match answer.access_token {
                Some(token) => step matches PinStep::Authorized(t) && t == token,
                None => step matches PinStep::Failed(PinError::NoToken),
            }
        } else {
            step is Wait
        },
        _ => step is Wait,
    }
}

impl PinAuth {
    /// A PIN that is good for `expires_in` seconds. Simkl asks for an interval between
    /// polls; five seconds are the least.
    pub fn new(interval: u64, expires_in: u64) -> (auth: PinAuth)
        ensures
            auth@.interval_secs == (if interval >= MIN_INTERVAL_SECS {
                interval
            } else {
                MIN_INTERVAL_SECS
            }),
            auth@.expires_in == expires_in,
    {
        let interval_secs: u64 = if interval >= MIN_INTERVAL_SECS {
            interval
        } else {
            MIN_INTERVAL_SECS
        };
        PinAuth { interval_secs, expires_in }
    }

    /// The seconds to wait before each poll.
    pub fn interval_secs(&self) -> (secs: u64)
        ensures
            secs == self@.interval_secs,
    {
        self.interval_secs
    }

    /// Whether the PIN is still good `elapsed` after it was given.
    pub fn check_deadline(&self, elapsed: Duration) -> (good: Result<(), PinError>)
        ensures
            match good {
                Ok(_) => elapsed@ <= self@.expires_in * NANOS_PER_SEC,
                Err(e) => e == PinError::Expired && elapsed@ > self@.expires_in * NANOS_PER_SEC,
            },
    {
        if elapsed.as_nanos() > Duration::from_secs(self.expires_in).as_nanos() {
            Err(PinError::Expired)
        } else {
            Ok(())
        }
    }

    /// What follows what came of a poll.
    pub fn answered(&mut self, reply: PollReply) -> (step: PinStep)
        requires
            old(self)@.after(reply).interval_secs <= u64::MAX,
        ensures
            follows(reply, step),
            final(self)@ == old(self)@.after(reply),
    {
        let answer = match reply {
            PollReply::Answer(answer) => answer,
            _ => {
                return PinStep::Wait;
            },
        };
        proof {
            reveal_strlit("OK");
            reveal_strlit("KO");
            assert("OK"@[0] != "KO"@[0]);
        }
        if same_text(answer.result.as_str(), "OK") {
            return match answer.access_token {
                Some(token) => PinStep::Authorized(token),
                None => PinStep::Failed(PinError::NoToken),
            };
        }
        if same_text(answer.result.as_str(), "KO") {
            if let Some(message) = &answer.message {
                if text::has_text(message.as_str(), "Slow down") {
                    self.interval_secs = self.interval_secs + SLOW_DOWN_SECS;
                }
            }
        }
        PinStep::Wait
    }

    /// Polls once, `elapsed` after the PIN was given: `ask` is called unless the PIN has
    /// expired.
    pub fn poll<A: FnOnce() -> PollReply>(&mut self, elapsed: Duration, ask: A) -> (step: PinStep)
        requires
            elapsed@ <= old(self)@.expires_in * NANOS_PER_SEC ==> {
                &&& call_requires(ask, ())
                &&& forall|reply: PollReply| #[trigger]
                    call_ensures(ask, (), reply) ==> old(self)@.after(reply).interval_secs
                        <= u64::MAX
            },
        ensures
            if elapsed@ > old(self)@.expires_in * NANOS_PER_SEC {
                step matches PinStep::Failed(PinError::Expired) && final(self)@ == old(self)@
            } else {
                exists|reply: PollReply|
                    {
                        &&& #[trigger] call_ensures(ask, (), reply)
                        &&& follows(reply, step)
                        &&& final(self)@ == old(self)@.after(reply)
                    }
            },
    {
        if let Err(e) = self.check_deadline(elapsed) {
            return PinStep::Failed(e);
        }
        let reply = ask();
        self.answered(reply)
    }
}

/// Polls never come faster than every five seconds, and never faster than before.
pub proof fn law_polls_only_slow_down(auth: PinView, reply: PollReply)
    requires
        auth.interval_secs >= MIN_INTERVAL_SECS,
    ensures
        auth.after(reply).interval_secs >= auth.interval_secs,
        auth.after(reply).interval_secs >= MIN_INTERVAL_SECS,
{
}

/// A PIN is asked for with the client ID, and whether it was entered with the PIN as well.
pub proof fn law_addresses_for_a_pin(
    client_id: &str,
    user_code: &str,
    asked: String,
    polled: String,
)
    requires
        call_ensures(pin_url, (client_id,), asked),
        call_ensures(poll_url, (user_code, client_id), polled),
    ensures
        asked@ == "https://api.simkl.com/oauth/pin?client_id="@ + client_id@
            + "&redirect=urn:ietf:wg:oauth:2.0:oob"@,
        polled@ == "https://api.simkl.com/oauth/pin/"@ + user_code@ + "?client_id="@ + client_id@,
{
}

/// Polls come at the interval that Simkl asks for, and never more often than every five
/// seconds. The PIN is good for the time that Simkl gives it.
pub proof fn law_first_interval(interval: u64, expires_in: u64, auth: PinAuth, secs: u64)
    requires
        call_ensures(PinAuth::new, (interval, expires_in), auth),
        call_ensures(PinAuth::interval_secs, (&auth,), secs),
    ensures
        interval >= 5 ==> secs == interval,
        interval < 5 ==> secs == 5,
        auth@.expires_in == expires_in,
        auth@.interval_secs == secs,
{
}

/// A PIN is good up to the second at which it expires, and not after.
pub proof fn law_pin_expires(auth: PinAuth, elapsed: Duration, good: Result<(), PinError>)
    requires
        call_ensures(PinAuth::check_deadline, (&auth, elapsed), good),
    ensures
        good is Ok <==> elapsed@ <= auth@.expires_in * 1_000_000_000,
        good is Err ==> good->Err_0 == PinError::Expired,
{
}

/// The answer `OK` ends the polls: with the token in it, or with an error if it holds none.
/// Any other answer, and none at all, leads to another poll, five seconds later than before if
/// the answer is `KO` and asks to slow down, and else at the same interval.
pub proof fn law_what_an_answer_leads_to(auth: &mut PinAuth, reply: PollReply, step: PinStep)
    requires
        call_ensures(PinAuth::answered, (auth, reply), step),
    ensures
        final(auth)@.expires_in == old(auth)@.expires_in,
        !(reply is Answer) ==> step == PinStep::Wait && final(auth)@ == old(auth)@,
        reply matches PollReply::Answer(answer) ==> {
            let slow = answer.message is Some && exists|at: int|
                text::stands_at(answer.message->0@, "Slow down"@, at);
            &&& answer.result@ == "OK"@ && answer.access_token is Some ==> step
                == PinStep::Authorized(answer.access_token->0)
            &&& answer.result@ == "OK"@ && answer.access_token is None ==> step == PinStep::Failed(
                PinError::NoToken,
            )
            &&& answer.result@ != "OK"@ ==> step == PinStep::Wait
            &&& answer.result@ == "KO"@ && slow ==> final(auth)@.interval_secs == old(
                auth
            )@.interval_secs + 5
            &&& answer.result@ != "KO"@ || !slow ==> final(auth)@.interval_secs == old(
                auth
            )@.interval_secs
        },
{
}

/// A poll is made only while the PIN is good. Once it has expired, the polls end with that
/// error and nothing changes; before, what follows is what the answer leads to.
pub proof fn law_polls_end_with_the_pin<A: FnOnce() -> PollReply>(
    auth: &mut PinAuth,
    elapsed: Duration,
    ask: A,
    step: PinStep,
)
    requires
        call_ensures(PinAuth::poll::<A>, (auth, elapsed, ask), step),
    ensures
        elapsed@ > old(auth)@.expires_in * 1_000_000_000 ==> step == PinStep::Failed(
            PinError::Expired,
        ) && final(auth)@ == old(auth)@,
        elapsed@ <= old(auth)@.expires_in * 1_000_000_000 ==> exists|reply: PollReply|
            #[trigger] call_ensures(ask, (), reply) && follows(reply, step) && final(auth)@ == old(
                auth
            )@.after(reply),
        step matches PinStep::Authorized(token) ==> exists|reply: PollReply|
            {
                &&& #[trigger] call_ensures(ask, (), reply)
                &&& reply matches PollReply::Answer(answer)
                &&& answer.result@ == "OK"@
                &&& answer.access_token == Some(token)
            },
{
    if elapsed@ <= old(auth)@.expires_in * 1_000_000_000 {
        let reply = choose|reply: PollReply|
            #[trigger] call_ensures(ask, (), reply) && follows(reply, step) && final(auth)@ == old(
                auth
            )@.after(reply);
        assert(call_ensures(ask, (), reply));
    }
}

/// What the user is told when there is no token.
pub proof fn law_pin_failure_is_told(error: PinError, message: String)
    requires
        call_ensures(PinError::message, (&error,), message),
    ensures
        error == PinError::Expired ==> message@
            == "PIN expired. Please restart the application and try again."@,
        error == PinError::NoToken ==> message@ == "Server returned OK but no access_token"@,
{
}

} // verus!
