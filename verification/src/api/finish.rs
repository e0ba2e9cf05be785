//! How a streamed reply ends, and what is sent to a provider.
use vstd::prelude::*;
use vstd::string::*;
use crate::api::headers::Pairs;
use crate::json::{Json, Value};
use crate::text::cat2;
use crate::types::{
    emit, events, pairs, stop_reason_name, AssistantMessage, AssistantMessageEvent, Event, Reply,
    StopReason,
};

verus! {

/// A request to a provider: where it goes, its headers and its JSON body.
#[derive(Debug, PartialEq, Eq)]
pub struct ProviderRequest {
    pub url: String,
    pub headers: Vec<(String, String)>,
    pub body: Value,
}

/// What a request holds.
pub struct Request {
    pub url: Seq<char>,
    pub headers: Pairs,
    pub body: Json,
}

impl View for ProviderRequest {
    type V = Request;

    open spec fn view(&self) -> Request {
        Request { url: self.url@, headers: pairs(self.headers@), body: self.body@ }
    }
}

/// A request, or why there is none.
pub open spec fn res_request(r: Result<ProviderRequest, String>) -> Result<Request, Seq<char>> {
    match r {
        Ok(request) => Ok(request@),
        Err(e) => Err(e@),
    }
}

/// The outcome of a step that may fail with a message.
pub open spec fn outcome(r: Result<(), String>) -> Option<Seq<char>> {
    match r {
        Ok(_) => None,
        Err(e) => Some(e@),
    }
}

/// A reply that ends with an error.
pub open spec fn failed(m: Reply, error: Seq<char>) -> Reply {
    Reply { stop_reason: StopReason::Error, error_message: Some(error), ..m }
}

/// What is sent last: the reply, or the error with which it ends.
pub open spec fn last_event(m: Reply, error: Option<Seq<char>>) -> Event {
    match error {
        None => Event::Done { reason: stop_reason_name(m.stop_reason), message: m },
        Some(error) => Event::Error { reason: "error"@, error: failed(m, error) },
    }
}

/// Sends the last event of a reply.
pub fn conclude(
    output: &mut AssistantMessage,
    sent: &mut Vec<AssistantMessageEvent>,
    result: Result<(), String>,
)
    ensures
        events(final(sent)@) == events(old(sent)@).push(last_event(old(output)@, outcome(result))),
        final(output)@ == match outcome(result) {
            None => old(output)@,
            Some(error) => failed(old(output)@, error),
        },
{
    match result {
        Ok(_) => {
            emit(
                sent,
                AssistantMessageEvent::Done {
                    reason: output.stop_reason.as_str().to_owned(),
                    message: output.clone(),
                },
            );
        },
        Err(error) => {
            output.stop_reason = StopReason::Error;
            output.error_message = Some(error);
            emit(
                sent,
                AssistantMessageEvent::Error {
                    reason: "error".to_owned(),
                    error: output.clone(),
                },
            );
        },
    }
}

/// The error of a reply whose stream is over: that it has no stop reason, or
/// the error that stopped it.
pub open spec fn stop_error(m: Reply, no_reason: Seq<char>) -> Option<Seq<char>> {
    match m.stop_reason {
        StopReason::Pending => Some(no_reason),
        StopReason::Aborted | StopReason::Error => Some(
            match m.error_message {
                Some(message) => message,
                None => "An unknown error occurred"@,
            },
        ),
        _ => None,
    }
}

pub fn check_stopped(output: &AssistantMessage, no_reason: &str) -> (r: Result<(), String>)
    ensures
        outcome(r) == stop_error(output@, no_reason@),
{
    match output.stop_reason {
        StopReason::Pending => Err(no_reason.to_owned()),
        StopReason::Aborted | StopReason::Error => Err(
            match &output.error_message {
                Some(message) => message.clone(),
                None => "An unknown error occurred".to_owned(),
            },
        ),
        _ => Ok(()),
    }
}

/// The error of a reply whose stream is over, by the provider's own reason.
pub open spec fn raw_stop_error(m: Reply, no_reason: Seq<char>) -> Option<Seq<char>> {
    match m.stop_reason {
        StopReason::Pending => Some(no_reason),
        StopReason::Aborted | StopReason::Error => Some(
            match m.raw_stop_reason {
                Some(reason) => "Provider stopped with: "@ + reason,
                None => "An unknown error occurred"@,
            },
        ),
        _ => None,
    }
}

pub fn check_stopped_raw(output: &AssistantMessage, no_reason: &str) -> (r: Result<(), String>)
    ensures
        outcome(r) == raw_stop_error(output@, no_reason@),
{
    match output.stop_reason {
        StopReason::Pending => Err(no_reason.to_owned()),
        StopReason::Aborted | StopReason::Error => Err(
            match &output.raw_stop_reason {
                Some(reason) => cat2("Provider stopped with: ", reason.as_str()),
                None => "An unknown error occurred".to_owned(),
            },
        ),
        _ => Ok(()),
    }
}

/// A reply ends with `Done` exactly if its stream stopped for a reason that is
/// no error.
pub proof fn law_done_means_stopped(m: Reply, no_reason: Seq<char>)
    ensures
        last_event(m, stop_error(m, no_reason)) is Done <==> (m.stop_reason == StopReason::Stop
            || m.stop_reason == StopReason::Length || m.stop_reason == StopReason::ToolUse),
        last_event(m, raw_stop_error(m, no_reason)) is Done <==> (m.stop_reason == StopReason::Stop
            || m.stop_reason == StopReason::Length || m.stop_reason == StopReason::ToolUse),
        last_event(m, stop_error(m, no_reason)) is Done || last_event(
            m,
            stop_error(m, no_reason),
        ) is Error,
{
}

} // verus!
