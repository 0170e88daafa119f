use vstd::prelude::*;

verus! {

/// The decimal digit `d` (for `d < 10`).
pub open spec fn digit_char(d: nat) -> char {
    "0123456789"@[d as int]
}

/// The decimal notation of `n`, without sign or leading zeros.
pub open spec fn decimal(n: nat) -> Seq<char>
    decreases n,
{
    if n < 10 {
        seq![digit_char(n)]
    } else {
        decimal(n / 10) + seq![digit_char(n % 10)]
    }
}

/// Whether an HTTP status code reports success (the 2xx class).
pub open spec fn is_success_status(code: u16) -> bool {
    200 <= code < 300
}

pub open spec fn success_message() -> Seq<char> {
    "Successfully sent card info!"@
}

pub open spec fn build_failed_message(detail: Seq<char>) -> Seq<char> {
    "Error: Failed to build reqwest client: "@ + detail
}

pub open spec fn send_failed_message(detail: Seq<char>) -> Seq<char> {
    "Error: Failed to send request: "@ + detail
}

/// The text shown for a response body: the body itself, or a fixed notice
/// when it could not be read.
pub open spec fn body_text(body: Option<Seq<char>>) -> Seq<char> {
    match body {
        Some(b) => b,
        None => "No response body"@,
    }
}

pub open spec fn rejected_message(status: u16, body: Option<Seq<char>>) -> Seq<char> {
    "Error: Failed to send card info: Status "@ + decimal(status as nat) + " - "@ + body_text(
        body,
    )
}

pub open spec fn opt_view(o: Option<String>) -> Option<Seq<char>> {
    match o {
        Some(s) => Some(s@),
        None => None,
    }
}

/// Appends the decimal notation of `n` to `out`.
pub fn append_decimal(out: &mut String, n: u16)
    ensures
        final(out)@ == old(out)@ + decimal(n as nat),
    decreases n,
{
    let digits = "0123456789";
    proof {
        reveal_strlit("0123456789");
    }
    if n >= 10 {
        append_decimal(out, n / 10);
    }
    let d: usize = (n % 10) as usize;
    let one = digits.substring_char(d, d + 1);
    assert(one@ =~= seq![digit_char(d as nat)]);
    out.append(one);
    assert(out@ =~= old(out)@ + decimal(n as nat));
}

/// The decimal notation of `n`.
pub fn decimal_string(n: u16) -> (r: String)
    ensures
        r@ == decimal(n as nat),
{
    let mut s = String::new();
    append_decimal(&mut s, n);
    assert(s@ =~= decimal(n as nat));
    s
}

pub fn success_status(code: u16) -> (r: bool)
    ensures
        r == is_success_status(code),
{
    200 <= code && code < 300
}

pub fn build_failed(detail: &str) -> (r: String)
    ensures
        r@ == build_failed_message(detail@),
{
    let s = String::from_str("Error: Failed to build reqwest client: ");
    s.concat(detail)
}

pub fn send_failed(detail: &str) -> (r: String)
    ensures
        r@ == send_failed_message(detail@),
{
    let s = String::from_str("Error: Failed to send request: ");
    s.concat(detail)
}

/// The message for a response whose status is not a success.
pub fn rejected(status: u16, body: &Option<String>) -> (r: String)
    ensures
        r@ == rejected_message(status, opt_view(*body)),
{
    let mut s = String::from_str("Error: Failed to send card info: Status ");
    append_decimal(&mut s, status);
    s.append(" - ");
    match body {
        Some(b) => s.append(b.as_str()),
        None => s.append("No response body"),
    }
    s
}

/// Where a submission stands between two pieces of outside work.
#[derive(PartialEq, Eq, Structural, Clone, Copy, Debug)]
pub enum Stage {
    /// The HTTP client is being built.
    Building,
    /// The request is in flight.
    Sending,
    /// The server answered with a failing status; its body is being read.
    ReadingBody { status: u16 },
    /// The result has been handed out; nothing more happens.
    Done,
}

/// What the outside world reports back to a submission.
pub enum Event {
    ClientReady,
    ClientFailed(String),
    Responded(u16),
    TransportFailed(String),
    /// The failing response's body, or `None` when it could not be read.
    BodyRead(Option<String>),
}

/// What a submission asks its runner to do next.
pub enum Action {
    /// Send the record as one POST request.
    SendRequest,
    /// Read the body of the response just received.
    ReadBody,
    /// Post this message into the mailbox, then request one redraw.
    Deliver(String),
    /// Nothing: the event did not belong to the current stage.
    Idle,
}

/// Whether `a` hands out exactly the message `m`.
pub open spec fn delivers(a: Action, m: Seq<char>) -> bool {
    match a {
        Action::Deliver(s) => s@ == m,
        _ => false,
    }
}

/// The decisions of one submission: a single attempt, no retries, and exactly
/// one delivered message.
pub struct Submission {
    stage: Stage,
}

impl Submission {
    pub closed spec fn stage_of(&self) -> Stage {
        self.stage
    }

    pub fn new() -> (r: Submission)
        ensures
            r.stage_of() == Stage::Building,
    {
        Submission { stage: Stage::Building }
    }

    pub fn stage(&self) -> (r: Stage)
        ensures
            r == self.stage_of(),
    {
        self.stage
    }

    pub fn is_done(&self) -> (r: bool)
        ensures
            r == (self.stage_of() == Stage::Done),
    {
        match self.stage {
            Stage::Done => true,
            _ => false,
        }
    }

    /// Takes in what the outside world reported and decides the next action.
    pub fn step(&mut self, event: Event) -> (a: Action)
        ensures
            match (old(self).stage_of(), event) {
                (Stage::Building, Event::ClientReady) => {
                    &&& final(self).stage_of() == Stage::Sending
                    &&& a is SendRequest
                },
                (Stage::Building, Event::ClientFailed(d)) => {
                    &&& final(self).stage_of() == Stage::Done
                    &&& delivers(a, build_failed_message(d@))
                },
                (Stage::Sending, Event::Responded(code)) => if is_success_status(code) {
                    &&& final(self).stage_of() == Stage::Done
                    &&& delivers(a, success_message())
                } else {
                    &&& final(self).stage_of() == (Stage::ReadingBody { status: code })
                    &&& a is ReadBody
                },
                (Stage::Sending, Event::TransportFailed(d)) => {
                    &&& final(self).stage_of() == Stage::Done
                    &&& delivers(a, send_failed_message(d@))
                },
                (Stage::ReadingBody { status }, Event::BodyRead(b)) => {
                    &&& final(self).stage_of() == Stage::Done
                    &&& delivers(a, rejected_message(status, opt_view(b)))
                },
                _ => {
                    &&& final(self).stage_of() == old(self).stage_of()
                    &&& a is Idle
                },
            },
    {
        match (self.stage, event) {
            (Stage::Building, Event::ClientReady) => {
                self.stage = Stage::Sending;
                Action::SendRequest
            },
            (Stage::Building, Event::ClientFailed(d)) => {
                self.stage = Stage::Done;
                Action::Deliver(build_failed(d.as_str()))
            },
            (Stage::Sending, Event::Responded(code)) => {
                if success_status(code) {
                    self.stage = Stage::Done;
                    Action::Deliver(String::from_str("Successfully sent card info!"))
                } else {
                    self.stage = Stage::ReadingBody { status: code };
                    Action::ReadBody
                }
            },
            (Stage::Sending, Event::TransportFailed(d)) => {
                self.stage = Stage::Done;
                Action::Deliver(send_failed(d.as_str()))
            },
            (Stage::ReadingBody { status }, Event::BodyRead(b)) => {
                self.stage = Stage::Done;
                Action::Deliver(rejected(status, &b))
            },
            _ => Action::Idle,
        }
    }
}

} // verus!
