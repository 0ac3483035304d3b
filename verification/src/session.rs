//! The decisions of routing one chat request through the free pool.
//!
//! A `RouteSession` walks a shuffled order of endpoints, one attempt at a
//! time, and answers each upstream outcome with the next step: retry after a
//! delay, or give up with an error. A `RelayProgress` decides, chunk by chunk,
//! how an upstream event stream is relayed to the client and whether a failed
//! stream may still be retried elsewhere. The caller performs the HTTP work.
use vstd::prelude::*;

use crate::router::{
    failover_status, retry_delay_ms, route_retry_delay, should_failover_status, truncate,
    truncated, FreeModelEndpoint, RouteError, MAX_ROUTE_ATTEMPTS,
};
use crate::text::{chars_of, decimal, push_decimal, push_str, string_of};

verus! {

/// What to do after an attempt failed.
#[derive(Debug)]
pub enum RouteStep {
    /// Wait this many milliseconds, then start the next attempt.
    Retry { delay_ms: u64 },
    /// Stop: the request fails with this error.
    Fail(RouteError),
}

/// `"<provider> <model> -> <detail>"`.
pub open spec fn failure_line(e: FreeModelEndpoint, detail: Seq<char>) -> Seq<char> {
    e.provider@ + " "@ + e.model@ + " -> "@ + detail
}

pub open spec fn http_detail(status: u16, body: Seq<char>) -> Seq<char> {
    "HTTP "@ + decimal(status as nat) + ": "@ + truncated(body, 256)
}

pub open spec fn network_detail(error: Seq<char>) -> Seq<char> {
    "network error: "@ + error
}

pub open spec fn stream_detail(reason: Seq<char>) -> Seq<char> {
    "stream retry: "@ + reason
}

/// The error reported once every attempt is used up.
pub open spec fn exhausted_message(last_error: Seq<char>) -> Seq<char> {
    "All model providers failed after "@ + decimal(MAX_ROUTE_ATTEMPTS as nat) + " attempts. Last error: "@
        + last_error
}

/// The step after a failure whose error line is `last_error`, at attempt `attempt`:
/// give up at the last attempt or when the failure is final, else retry.
pub open spec fn step_after(attempt: u32, is_final: bool, last_error: Seq<char>, route_counter: u64, step: RouteStep) -> bool {
    if attempt >= MAX_ROUTE_ATTEMPTS || is_final {
        step matches RouteStep::Fail(RouteError::AllProvidersFailed(m)) && m@ == exhausted_message(last_error)
    } else {
        step matches RouteStep::Retry { delay_ms } && delay_ms == retry_delay_ms(attempt, route_counter)
    }
}

/// The state of routing one request: the current order of endpoints, the
/// position in it, the number of attempts started and the last provider error.
pub struct RouteSession {
    pub endpoints: Vec<FreeModelEndpoint>,
    pub endpoint_index: usize,
    pub attempt: u32,
    pub last_error: String,
}

impl RouteSession {
    pub open spec fn wf(self) -> bool {
        &&& self.endpoint_index <= self.endpoints.len()
        &&& self.attempt <= MAX_ROUTE_ATTEMPTS
    }

    /// A session over a first order of endpoints; an empty order means that
    /// the pool is unavailable.
    pub fn new(endpoints: Vec<FreeModelEndpoint>) -> (r: Result<RouteSession, RouteError>)
        ensures
            endpoints@.len() == 0 ==> r matches Err(RouteError::PoolUnavailable),
            endpoints@.len() > 0 ==> (r matches Ok(s) && s.wf() && s.endpoints@ == endpoints@
                && s.endpoint_index == 0 && s.attempt == 0 && s.last_error@.len() == 0),
    {
        if endpoints.len() == 0 {
            return Err(RouteError::PoolUnavailable);
        }
        Ok(RouteSession { endpoints, endpoint_index: 0, attempt: 0, last_error: String::new() })
    }

    /// Whether the current order is used up, so that the next attempt needs a
    /// fresh order of endpoints.
    pub fn needs_refill(&self) -> (b: bool)
        ensures
            b == (self.endpoint_index >= self.endpoints.len()),
    {
        self.endpoint_index >= self.endpoints.len()
    }

    /// Starts the next attempt and returns the endpoint it goes to. When the
    /// current order is used up, `refill` becomes the new order (and is
    /// ignored otherwise); an empty refill means that the pool is unavailable.
    pub fn next_endpoint(&mut self, refill: Vec<FreeModelEndpoint>) -> (r: Result<FreeModelEndpoint, RouteError>)
        requires
            old(self).wf(),
            old(self).attempt < MAX_ROUTE_ATTEMPTS,
        ensures
            final(self).wf(),
            final(self).attempt == old(self).attempt + 1,
            final(self).last_error == old(self).last_error,
            old(self).endpoint_index < old(self).endpoints.len() ==> {
                &&& final(self).endpoints@ == old(self).endpoints@
                &&& final(self).endpoint_index == old(self).endpoint_index + 1
                &&& r == Ok::<FreeModelEndpoint, RouteError>(old(self).endpoints@[old(self).endpoint_index as int])
            },
            old(self).endpoint_index >= old(self).endpoints.len() ==> {
                &&& final(self).endpoints@ == refill@
                &&& refill@.len() == 0 ==> (r matches Err(RouteError::PoolUnavailable))
                &&& refill@.len() > 0 ==> final(self).endpoint_index == 1 && r == Ok::<
                    FreeModelEndpoint,
                    RouteError,
                >(refill@[0])
            },
    {
        self.attempt = self.attempt + 1;
        if self.endpoint_index >= self.endpoints.len() {
            self.endpoints = refill;
            self.endpoint_index = 0;
            if self.endpoints.len() == 0 {
                return Err(RouteError::PoolUnavailable);
            }
        }
        let e = self.endpoints[self.endpoint_index];
        self.endpoint_index = self.endpoint_index + 1;
        Ok(e)
    }

    /// Whether the current attempt is the last one the budget allows.
    pub fn is_last_attempt(&self) -> (b: bool)
        ensures
            b == (self.attempt >= MAX_ROUTE_ATTEMPTS),
    {
        self.attempt >= MAX_ROUTE_ATTEMPTS
    }

    /// Whether a buffered (non-stream) request hands this upstream status to
    /// the client: a success, the last attempt, or a status that does not fail over.
    pub fn delivers_status(&self, status: u16) -> (b: bool)
        ensures
            b == (status < 400 || self.attempt >= MAX_ROUTE_ATTEMPTS || !failover_status(status)),
    {
        status < 400 || self.attempt >= MAX_ROUTE_ATTEMPTS || !should_failover_status(status)
    }

    /// Whether a streamed request relays this upstream status to the client.
    /// Only a success is relayed; every status from 400 up is an error that
    /// goes to `on_error_status`, whatever the attempt.
    pub fn relays_status(&self, status: u16) -> (b: bool)
        ensures
            b == (status < 400),
    {
        status < 400
    }

    fn finish_step(&self, is_final: bool, route_counter: u64) -> (step: RouteStep)
        requires
            self.wf(),
        ensures
            step_after(self.attempt, is_final, self.last_error@, route_counter, step),
    {
        if self.attempt >= MAX_ROUTE_ATTEMPTS || is_final {
            let mut m = chars_of("All model providers failed after ");
            push_decimal(&mut m, MAX_ROUTE_ATTEMPTS as u128);
            push_str(&mut m, " attempts. Last error: ");
            push_str(&mut m, self.last_error.as_str());
            RouteStep::Fail(RouteError::AllProvidersFailed(string_of(&m)))
        } else {
            RouteStep::Retry { delay_ms: route_retry_delay(self.attempt, route_counter) }
        }
    }

    fn record_failure(&mut self, endpoint: &FreeModelEndpoint, detail: Vec<char>)
        ensures
            final(self).last_error@ == failure_line(*endpoint, detail@),
            final(self).endpoints == old(self).endpoints,
            final(self).endpoint_index == old(self).endpoint_index,
            final(self).attempt == old(self).attempt,
    {
        let mut line = chars_of(endpoint.provider);
        push_str(&mut line, " ");
        push_str(&mut line, endpoint.model);
        push_str(&mut line, " -> ");
        let ghost before = line@;
        let mut i: usize = 0;
        while i < detail.len()
            invariant
                i <= detail.len(),
                line@ == before + detail@.take(i as int),
            decreases detail.len() - i,
        {
            line.push(detail[i]);
            assert(detail@.take(i + 1) == detail@.take(i as int).push(detail@[i as int]));
            i = i + 1;
        }
        assert(detail@.take(detail.len() as int) == detail@);
        self.last_error = string_of(&line);
    }

    /// The upstream answered with an error status (`body` is its text). The
    /// failure becomes the last error; the request fails at the last attempt
    /// or when the status does not fail over, and is retried otherwise.
    pub fn on_error_status(&mut self, endpoint: &FreeModelEndpoint, status: u16, body: &str, route_counter: u64) -> (step: RouteStep)
        requires
            old(self).wf(),
        ensures
            final(self).wf(),
            final(self).endpoints == old(self).endpoints,
            final(self).endpoint_index == old(self).endpoint_index,
            final(self).attempt == old(self).attempt,
            final(self).last_error@ == failure_line(*endpoint, http_detail(status, body@)),
            step_after(old(self).attempt, !failover_status(status), final(self).last_error@, route_counter, step),
    {
        let mut detail = chars_of("HTTP ");
        push_decimal(&mut detail, status as u128);
        push_str(&mut detail, ": ");
        let preview = truncate(body, 256);
        push_str(&mut detail, preview.as_str());
        self.record_failure(endpoint, detail);
        let is_final = !should_failover_status(status);
        self.finish_step(is_final, route_counter)
    }

    /// The request to the endpoint failed before any answer (`error` describes it).
    pub fn on_network_error(&mut self, endpoint: &FreeModelEndpoint, error: &str, route_counter: u64) -> (step: RouteStep)
        requires
            old(self).wf(),
        ensures
            final(self).wf(),
            final(self).endpoints == old(self).endpoints,
            final(self).endpoint_index == old(self).endpoint_index,
            final(self).attempt == old(self).attempt,
            final(self).last_error@ == failure_line(*endpoint, network_detail(error@)),
            step_after(old(self).attempt, false, final(self).last_error@, route_counter, step),
    {
        let mut detail = chars_of("network error: ");
        push_str(&mut detail, error);
        self.record_failure(endpoint, detail);
        self.finish_step(false, route_counter)
    }

    /// The event stream of the endpoint ended before any output reached the
    /// client (`reason` says how), so another endpoint may still serve it.
    pub fn on_stream_retry(&mut self, endpoint: &FreeModelEndpoint, reason: &str, route_counter: u64) -> (step: RouteStep)
        requires
            old(self).wf(),
        ensures
            final(self).wf(),
            final(self).endpoints == old(self).endpoints,
            final(self).endpoint_index == old(self).endpoint_index,
            final(self).attempt == old(self).attempt,
            final(self).last_error@ == failure_line(*endpoint, stream_detail(reason@)),
            step_after(old(self).attempt, false, final(self).last_error@, route_counter, step),
    {
        let mut detail = chars_of("stream retry: ");
        push_str(&mut detail, reason);
        self.record_failure(endpoint, detail);
        self.finish_step(false, route_counter)
    }
}

/// A retried attempt always leaves room for one more attempt, and the last
/// attempt never retries: a session starts at most `MAX_ROUTE_ATTEMPTS` attempts.
pub proof fn lemma_retry_leaves_budget(attempt: u32, is_final: bool, last_error: Seq<char>, route_counter: u64, step: RouteStep)
    requires
        step_after(attempt, is_final, last_error, route_counter, step),
    ensures
        step is Retry ==> attempt < MAX_ROUTE_ATTEMPTS,
        attempt >= MAX_ROUTE_ATTEMPTS ==> step is Fail,
{
}

/// Before the last attempt, an upstream error status is retried on the next
/// endpoint exactly when it is one of 400, 401, 403, 404, 408, 409, 422, 423,
/// 429, 500, 502, 503, 504, 520 and 529; any other error status ends the
/// request at once. A buffered request hands those statuses to the client
/// only at the last attempt.
pub proof fn lemma_failover_statuses_are_retried(
    attempt: u32,
    status: u16,
    last_error: Seq<char>,
    route_counter: u64,
    step: RouteStep,
)
    requires
        attempt < MAX_ROUTE_ATTEMPTS,
        400 <= status,
        step_after(attempt, !failover_status(status), last_error, route_counter, step),
    ensures
        step is Retry <==> (status == 400 || status == 401 || status == 403 || status == 404
            || status == 408 || status == 409 || status == 422 || status == 423 || status == 429
            || status == 500 || status == 502 || status == 503 || status == 504 || status == 520
            || status == 529),
        step is Retry <==> !(status < 400 || attempt >= MAX_ROUTE_ATTEMPTS || !failover_status(status)),
{
}

/// How an upstream event stream ended, for the routing loop.
#[derive(Debug, Clone, PartialEq, Eq)]
pub enum StreamRouteControl {
    /// Output reached the client; the request is done.
    Completed,
    /// Nothing reached the client; another endpoint may serve the request.
    RetryBeforeOutput(String),
}

/// What to do with one chunk of converted upstream output.
#[derive(Debug, Clone, Copy, PartialEq, Eq, Structural)]
pub enum ChunkAction {
    /// The chunk is empty: write nothing.
    Skip,
    /// First output: write the response headers, then the chunk.
    StartOutput,
    /// Write the chunk.
    Forward,
}

/// Whether any output has reached the client yet.
pub struct RelayProgress {
    pub output_started: bool,
}

impl RelayProgress {
    pub fn new() -> (r: RelayProgress)
        ensures
            !r.output_started,
    {
        RelayProgress { output_started: false }
    }

    /// One chunk of output is ready (`is_empty` tells whether it holds any byte).
    pub fn on_chunk(&mut self, is_empty: bool) -> (a: ChunkAction)
        ensures
            is_empty ==> a == ChunkAction::Skip && final(self).output_started == old(
                self,
            ).output_started,
            !is_empty && !old(self).output_started ==> a == ChunkAction::StartOutput,
            !is_empty && old(self).output_started ==> a == ChunkAction::Forward,
            !is_empty ==> final(self).output_started,
    {
        if is_empty {
            ChunkAction::Skip
        } else if !self.output_started {
            self.output_started = true;
            ChunkAction::StartOutput
        } else {
            ChunkAction::Forward
        }
    }

    /// The upstream stream failed with `error`: before any output the request
    /// may be retried, after output it is complete.
    pub fn on_stream_error(&self, error: &str) -> (c: StreamRouteControl)
        ensures
            self.output_started ==> c == StreamRouteControl::Completed,
            !self.output_started ==> (c matches StreamRouteControl::RetryBeforeOutput(m) && m@
                == "Stream error: "@ + error@),
    {
        if !self.output_started {
            let mut m = chars_of("Stream error: ");
            push_str(&mut m, error);
            StreamRouteControl::RetryBeforeOutput(string_of(&m))
        } else {
            StreamRouteControl::Completed
        }
    }

    /// The upstream stream ended.
    pub fn on_stream_end(&self) -> (c: StreamRouteControl)
        ensures
            self.output_started ==> c == StreamRouteControl::Completed,
            !self.output_started ==> (c matches StreamRouteControl::RetryBeforeOutput(m) && m@
                == "empty upstream stream"@),
    {
        if !self.output_started {
            StreamRouteControl::RetryBeforeOutput(string_of(&chars_of("empty upstream stream")))
        } else {
            StreamRouteControl::Completed
        }
    }
}

/// The head of a streamed HTTP response written to the client.
pub open spec fn stream_headers(status: Seq<char>, content_type: Seq<char>) -> Seq<char> {
    "HTTP/1.1 "@ + status + "\r\nContent-Type: "@ + content_type
        + "\r\nCache-Control: no-cache\r\nAccess-Control-Allow-Origin: *\r\nAccess-Control-Allow-Methods: GET, POST, OPTIONS\r\nAccess-Control-Allow-Headers: Content-Type, Authorization\r\nConnection: close\r\n\r\n"@
}

pub fn http_stream_headers(status: &str, content_type: &str) -> (h: String)
    ensures
        h@ == stream_headers(status@, content_type@),
{
    let mut h = chars_of("HTTP/1.1 ");
    push_str(&mut h, status);
    push_str(&mut h, "\r\nContent-Type: ");
    push_str(&mut h, content_type);
    push_str(
        &mut h,
        "\r\nCache-Control: no-cache\r\nAccess-Control-Allow-Origin: *\r\nAccess-Control-Allow-Methods: GET, POST, OPTIONS\r\nAccess-Control-Allow-Headers: Content-Type, Authorization\r\nConnection: close\r\n\r\n",
    );
    string_of(&h)
}

} // verus!
