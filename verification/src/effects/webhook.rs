//! The effect that posts events to a URL.

use crate::duration::duration_nanos;
use crate::effects::http::{
    is_client_error, is_client_error_code, is_server_error, is_server_error_code, is_success,
    is_success_code, status_line, status_text, HttpRequest,
};
use crate::effects::{Effect, EffectError, EffectResult};
use crate::event::{Event, EventView};
use crate::json::{compact_text, number_of, Json, JsonView};
use std::time::Duration;
use vstd::prelude::*;

verus! {

/// Posts events to a URL, and again where the server fails.
#[derive(Debug)]
pub struct WebhookEffect {
    /// Where events are posted.
    pub url: String,
    /// How long to wait for a response.
    pub timeout: Duration,
    /// How often to try again.
    pub retries: u32,
    /// Whether the receiver wants Discord messages.
    pub discord_format: bool,
}

/// What is posted for an event.
pub open spec fn webhook_body(event: EventView) -> JsonView {
    JsonView::object().with("source"@, JsonView::Text(event.source)).with(
        "eventType"@,
        JsonView::Text(event.event_type),
    ).with("payload"@, event.payload)
}

/// What came back on one attempt.
#[derive(Debug)]
pub enum Reply {
    /// A response with this status.
    Status(u16),
    /// No response, for this reason.
    Error(String),
}

/// Where a series of attempts stands.
#[derive(Debug)]
pub struct Attempts {
    /// How many attempts came back without settling the matter.
    pub made: u32,
    /// What went wrong last, where something did.
    pub last_error: Option<EffectError>,
}

/// What to do after an attempt.
#[derive(Debug)]
pub enum NextStep {
    /// Send the request again.
    Retry(Attempts),
    /// The matter is settled by a response with this status.
    Settled(u16),
    /// The attempts are used up.
    GiveUp(EffectError),
}

/// Where a delivery stands.
#[derive(Debug)]
pub enum Progress {
    /// The request is to be sent again.
    Again(Attempts),
    /// The delivery came to this.
    Done(Result<EffectResult, EffectError>),
}

impl Reply {
    /// Whether a reply settles the matter: the request was accepted, or it was at
    /// fault and would be again.
    pub open spec fn settles(self) -> bool {
        self matches Reply::Status(status) && (is_success_code(status) || is_client_error_code(
            status,
        ))
    }

    /// Whether `error` is the error of a series of attempts that this reply ended,
    /// where `line` is its status for a reader and `before` the error that the
    /// series had before it. A server error and a missing response are errors of
    /// their own; any other reply leaves the error as it was.
    pub open spec fn leaves_error(
        self,
        line: Seq<char>,
        before: Option<EffectError>,
        error: Option<EffectError>,
    ) -> bool {
        match self {
            Reply::Status(status) => if is_server_error_code(status) {
                error matches Some(EffectError::Failed(detail)) && detail@ == "Server error: "@ + line
            } else {
                error == before
            },
            Reply::Error(detail) => error == Some(EffectError::Http(detail)),
        }
    }

    /// The status of a reply for a reader.
    pub open spec fn line(self) -> Seq<char> {
        match self {
            Reply::Status(status) => status_line(status),
            Reply::Error(_) => Seq::empty(),
        }
    }
}

/// Whether `step` is what follows a reply: a reply that settles the matter ends
/// it; after any other the request is sent again while retries are left.
pub open spec fn is_next_step(
    retries: u32,
    attempts: Attempts,
    reply: Reply,
    line: Seq<char>,
    step: NextStep,
) -> bool {
    match step {
        NextStep::Settled(status) => reply.settles() && reply == Reply::Status(status),
        NextStep::Retry(next) => !reply.settles() && attempts.made < retries && next.made
            == attempts.made + 1 && reply.leaves_error(line, attempts.last_error, next.last_error),
        NextStep::GiveUp(error) => !reply.settles() && attempts.made >= retries && (
        reply.leaves_error(line, attempts.last_error, Some(error)) || (reply.leaves_error(
            line,
            attempts.last_error,
            None,
        ) && (error matches EffectError::Failed(detail) && detail@ == "Unknown error"@))),
    }
}

impl WebhookEffect {
    /// An effect that posts to a URL, waits thirty seconds and tries again once.
    pub fn new(url: &str) -> (r: Self)
        ensures
            r.url@ == url@,
            duration_nanos(r.timeout) == 30_000_000_000,
            r.retries == 1,
            !r.discord_format,
    {
        WebhookEffect {
            url: url.to_string(),
            timeout: Duration::from_secs(30),
            retries: 1,
            discord_format: false,
        }
    }

    /// Sets how long to wait for a response.
    pub fn with_timeout(self, timeout: Duration) -> (r: Self)
        ensures
            r == (WebhookEffect { timeout, ..self }),
    {
        WebhookEffect { timeout, ..self }
    }

    /// Sets how often to try again.
    pub fn with_retries(self, retries: u32) -> (r: Self)
        ensures
            r == (WebhookEffect { retries, ..self }),
    {
        WebhookEffect { retries, ..self }
    }

    /// Marks the receiver as one that wants Discord messages.
    pub fn with_discord_format(self) -> (r: Self)
        ensures
            r == (WebhookEffect { discord_format: true, ..self }),
    {
        WebhookEffect { discord_format: true, ..self }
    }

    /// What is posted for an event.
    pub fn body(&self, event: &Event) -> (r: Json)
        ensures
            r@ == webhook_body(event@),
    {
        Json::object().with("source", Json::text(event.source.as_str())).with(
            "eventType",
            Json::text(event.event_type.as_str()),
        ).with("payload", event.payload.clone())
    }

    /// The request that posts an event. Every attempt sends the same one.
    pub fn request(&self, event: &Event) -> (r: HttpRequest)
        ensures
            r.url@ == self.url@,
            r.timeout == self.timeout,
            r.body@ == compact_text(webhook_body(event@)),
            r.headers@.len() == 1,
            r.headers@[0].0@ == "Content-Type"@,
            r.headers@[0].1@ == "application/json"@,
    {
        let mut headers: Vec<(String, String)> = Vec::new();
        headers.push(("Content-Type".to_string(), "application/json".to_string()));
        HttpRequest {
            url: self.url.clone(),
            headers,
            body: self.body(event).to_compact(),
            timeout: self.timeout,
        }
    }

    /// Where a series of attempts starts.
    pub fn first_attempt(&self) -> (r: Attempts)
        ensures
            r.made == 0,
            r.last_error is None,
    {
        Attempts { made: 0, last_error: None }
    }

    /// What to do after an attempt, where `line` is the status for a reader.
    pub fn next_step(&self, attempts: Attempts, reply: Reply, line: &str) -> (r: NextStep)
        ensures
            is_next_step(self.retries, attempts, reply, line@, r),
    {
        let Attempts { made, last_error } = attempts;
        let error = match reply {
            Reply::Status(status) => {
                if is_success(status) || is_client_error(status) {
                    return NextStep::Settled(status);
                }
                if is_server_error(status) {
                    Some(EffectError::Failed("Server error: ".to_string().concat(line)))
                } else {
                    last_error
                }
            },
            Reply::Error(detail) => Some(EffectError::Http(detail)),
        };
        if made < self.retries {
            NextStep::Retry(Attempts { made: made + 1, last_error: error })
        } else {
            match error {
                Some(error) => NextStep::GiveUp(error),
                None => NextStep::GiveUp(EffectError::Failed("Unknown error".to_string())),
            }
        }
    }

    /// What to do after an attempt.
    pub fn after_reply(&self, attempts: Attempts, reply: Reply) -> (r: NextStep)
        ensures
            is_next_step(self.retries, attempts, reply, reply.line(), r),
    {
        let line = match &reply {
            Reply::Status(status) => status_text(*status),
            Reply::Error(_) => String::new(),
        };
        self.next_step(attempts, reply, line.as_str())
    }

    /// Whether `r` is what a settled delivery comes to, where `line` is the status for
    /// a reader.
    pub open spec fn is_outcome(
        self,
        status: u16,
        line: Seq<char>,
        r: Result<EffectResult, EffectError>,
    ) -> bool {
        match r {
            Ok(result) => {
                &&& is_success_code(status)
                &&& result.effect_name@ == "webhook"@
                &&& result.message@ == "Webhook delivered to "@ + self.url@ + " ("@ + line + ")"@
                &&& result.metadata matches Some(metadata) && metadata@ == JsonView::object().with(
                    "url"@,
                    JsonView::Text(self.url@),
                ).with("status"@, JsonView::Number(number_of(status as u64)))
            },
            Err(error) => {
                &&& !is_success_code(status)
                &&& error matches EffectError::Failed(detail) && detail@
                    == "Webhook returned status "@ + line
            },
        }
    }

    /// Whether `progress` is where a delivery stands by a step: another attempt is due,
    /// the response that settled it is what it comes to, or the error is.
    pub open spec fn is_progress(self, step: NextStep, progress: Progress) -> bool {
        match step {
            NextStep::Retry(attempts) => progress == Progress::Again(attempts),
            NextStep::Settled(status) => progress matches Progress::Done(r) && self.is_outcome(
                status,
                status_line(status),
                r,
            ),
            NextStep::GiveUp(error) => progress == Progress::Done(Err(error)),
        }
    }

    /// What a settled delivery comes to, where `line` is the status for a reader.
    pub fn outcome(&self, status: u16, line: &str) -> (r: Result<EffectResult, EffectError>)
        ensures
            self.is_outcome(status, line@, r),
    {
        if is_success(status) {
            let metadata = Json::object().with("url", Json::text(self.url.as_str())).with(
                "status",
                Json::integer(status as u64),
            );
            let message = "Webhook delivered to ".to_string().concat(self.url.as_str()).concat(
                " (",
            ).concat(line).concat(")");
            Ok(EffectResult::with_metadata(self.name(), message.as_str(), metadata))
        } else {
            Err(EffectError::Failed("Webhook returned status ".to_string().concat(line)))
        }
    }

    /// What a settled delivery comes to: a status in the two hundreds is a success.
    pub fn complete(&self, status: u16) -> (r: Result<EffectResult, EffectError>)
        ensures
            self.is_outcome(status, status_line(status), r),
    {
        let line = status_text(status);
        self.outcome(status, line.as_str())
    }

    /// Where a delivery stands by a step.
    pub fn conclude(&self, step: NextStep) -> (r: Progress)
        ensures
            self.is_progress(step, r),
    {
        match step {
            NextStep::Retry(attempts) => Progress::Again(attempts),
            NextStep::Settled(status) => Progress::Done(self.complete(status)),
            NextStep::GiveUp(error) => Progress::Done(Err(error)),
        }
    }
}

impl Clone for WebhookEffect {
    /// The clone has the same settings.
    fn clone(&self) -> (r: Self)
        ensures
            r == *self,
    {
        WebhookEffect {
            url: self.url.clone(),
            timeout: self.timeout,
            retries: self.retries,
            discord_format: self.discord_format,
        }
    }
}

impl Effect for WebhookEffect {
    open spec fn effect_name(&self) -> Seq<char> {
        "webhook"@
    }

    fn name(&self) -> (r: &str) {
        "webhook"
    }
}

/// A series of attempts: it starts with none made, and the reply to each attempt
/// but the last leads to another one.
pub open spec fn is_series(retries: u32, series: Seq<Attempts>, replies: Seq<Reply>) -> bool {
    &&& series.len() > 0
    &&& series[0].made == 0
    &&& series[0].last_error is None
    &&& replies.len() == series.len() - 1
    &&& forall|i: int|
        #![trigger series[i], replies[i]]
        0 <= i < replies.len() ==> is_next_step(
            retries,
            series[i],
            replies[i],
            replies[i].line(),
            NextStep::Retry(series[i + 1]),
        )
}

/// A series without its last attempt is a series.
proof fn lemma_shorter_series(retries: u32, series: Seq<Attempts>, replies: Seq<Reply>)
    requires
        is_series(retries, series, replies),
        series.len() > 1,
    ensures
        is_series(retries, series.drop_last(), replies.drop_last()),
{
    let shorter = series.drop_last();
    let earlier = replies.drop_last();
    assert forall|i: int|
        #![trigger shorter[i], earlier[i]]
        0 <= i < earlier.len() implies is_next_step(
        retries,
        shorter[i],
        earlier[i],
        earlier[i].line(),
        NextStep::Retry(shorter[i + 1]),
    ) by {
        assert(shorter[i] == series[i] && shorter[i + 1] == series[i + 1]);
        assert(earlier[i] == replies[i]);
    }
}

/// A request is sent at most once more than there are retries.
pub proof fn lemma_attempts_are_bounded(
    retries: u32,
    series: Seq<Attempts>,
    replies: Seq<Reply>,
)
    requires
        is_series(retries, series, replies),
    ensures
        series.last().made == series.len() - 1,
        series.len() <= retries + 1,
    decreases series.len(),
{
    if series.len() > 1 {
        let n = series.len() as int;
        lemma_shorter_series(retries, series, replies);
        lemma_attempts_are_bounded(retries, series.drop_last(), replies.drop_last());
        assert(is_next_step(
            retries,
            series[n - 2],
            replies[n - 2],
            replies[n - 2].line(),
            NextStep::Retry(series[n - 1]),
        ));
    }
}

/// Whether `error` is the error of a series of replies: the one that the last server
/// error or missing response left, and none where there was neither.
pub open spec fn is_error_of(replies: Seq<Reply>, error: Option<EffectError>) -> bool
    decreases replies.len(),
{
    if replies.len() == 0 {
        error is None
    } else {
        match replies.last() {
            Reply::Status(status) => if is_server_error_code(status) {
                error matches Some(EffectError::Failed(detail)) && detail@ == "Server error: "@
                    + status_line(status)
            } else {
                is_error_of(replies.drop_last(), error)
            },
            Reply::Error(detail) => error == Some(EffectError::Http(detail)),
        }
    }
}

/// The error that a series of attempts carries is the error of its replies.
proof fn lemma_series_carries_error(retries: u32, series: Seq<Attempts>, replies: Seq<Reply>)
    requires
        is_series(retries, series, replies),
    ensures
        is_error_of(replies, series.last().last_error),
    decreases series.len(),
{
    if series.len() > 1 {
        let n = series.len() as int;
        lemma_shorter_series(retries, series, replies);
        lemma_series_carries_error(retries, series.drop_last(), replies.drop_last());
        assert(is_next_step(
            retries,
            series[n - 2],
            replies[n - 2],
            replies[n - 2].line(),
            NextStep::Retry(series[n - 1]),
        ));
    }
}

/// What a delivery comes to is what its series of attempts came to. The result is a
/// success exactly where the last reply has a status in the two hundreds. A request
/// at fault gives an error that tells the status. Otherwise the error of the series
/// is returned as it is: the one that the last server error or missing response left
/// or, where there was neither, an unknown one.
pub proof fn lemma_delivery_returns_what_the_series_came_to(
    effect: WebhookEffect,
    series: Seq<Attempts>,
    replies: Seq<Reply>,
    reply: Reply,
    step: NextStep,
    result: Result<EffectResult, EffectError>,
)
    requires
        is_series(effect.retries, series, replies),
        is_next_step(effect.retries, series.last(), reply, reply.line(), step),
        effect.is_progress(step, Progress::Done(result)),
    ensures
        result is Ok <==> (reply matches Reply::Status(status) && is_success_code(status)),
        reply.settles() ==> (reply matches Reply::Status(status) && effect.is_outcome(
            status,
            status_line(status),
            result,
        )),
        !reply.settles() ==> (result matches Err(error) && step == NextStep::GiveUp(error) && (
        is_error_of(replies.push(reply), Some(error)) || (is_error_of(replies.push(reply), None)
            && (error matches EffectError::Failed(detail) && detail@ == "Unknown error"@)))),
{
    lemma_series_carries_error(effect.retries, series, replies);
    assert(replies.push(reply).drop_last() =~= replies);
}

/// A request that was at fault is not sent again; one at which the server failed
/// is, while retries are left, and ends in that failure when they are used up.
pub proof fn lemma_retry_goes_by_status(
    retries: u32,
    attempts: Attempts,
    status: u16,
    line: Seq<char>,
    step: NextStep,
)
    requires
        is_next_step(retries, attempts, Reply::Status(status), line, step),
    ensures
        is_client_error_code(status) || is_success_code(status) ==> step == NextStep::Settled(
            status,
        ),
        is_server_error_code(status) && attempts.made < retries ==> step is Retry,
        is_server_error_code(status) && attempts.made >= retries ==> (step matches NextStep::GiveUp(
            EffectError::Failed(detail),
        ) && detail@ == "Server error: "@ + line),
{
}

} // verus!
