//! The dispatch runtime: it owns the handler and the handshake, and turns
//! each line that arrives into the lines to send.

use vstd::prelude::*;
use crate::actor::Actor;
use crate::codec::{decode, decode_spec, encode, encode_each, encode_spec};
use crate::error::{DecodeError, Error, Field};
use crate::json::{
    object_get, object_insert, object_new, value_as_array, value_as_str, value_from_string,
    value_from_u64, value_view, Json,
};
use crate::message::{successor, Request, Response, ResponseView};
use crate::protocol::{
    acknowledged, completed, consults_handler, discarded, dispatched, error_reply,
    all_strings, init_arguments_spec, is_init, phase_of, refused, settled_init, settled_receive, speaker,
    texts_of, transition, Answer, OutcomeView, Phase, Transition, Verdict,
};

verus! {

/// Some responses, each as what it holds.
pub open spec fn response_views(responses: Seq<Response>) -> Seq<ResponseView> {
    responses.map_values(|response: Response| response@)
}

/// What a dispatch hands back: the responses to send, in order, the verdict,
/// and whether the node has to stop.
#[derive(Debug)]
pub struct Outcome {
    pub responses: Vec<Response>,
    pub verdict: Verdict,
    pub halt: bool,
}

impl View for Outcome {
    type V = OutcomeView;

    open spec fn view(&self) -> OutcomeView {
        OutcomeView {
            responses: response_views(self.responses@),
            verdict: self.verdict,
            halt: self.halt,
        }
    }
}

/// What the runtime hands back for one line: the lines to send, in order,
/// the verdict, and whether the node has to stop.
#[derive(Debug)]
pub struct Step {
    pub lines: Vec<String>,
    pub verdict: Verdict,
    pub halt: bool,
}

/// What a `Step` holds.
pub struct StepView {
    pub lines: Seq<Seq<char>>,
    pub verdict: Verdict,
    pub halt: bool,
}

impl View for Step {
    type V = StepView;

    open spec fn view(&self) -> StepView {
        StepView { lines: self.lines.deep_view(), verdict: self.verdict, halt: self.halt }
    }
}

/// What the handler answered to `init`, as the dispatch rules take it.
pub open spec fn init_answer(result: Result<(), Error>) -> Answer {
    match result {
        Ok(_) => Ok(Seq::empty()),
        Err(error) => Err(error),
    }
}

/// What the handler answered to `receive`, as the dispatch rules take it.
pub open spec fn receive_answer(result: Result<Vec<Response>, Error>) -> Answer {
    match result {
        Ok(responses) => Ok(response_views(responses@)),
        Err(error) => Err(error),
    }
}

/// The arguments of a handshake, or the reason why there are none, with each
/// text as what it holds.
pub open spec fn arguments_view(arguments: Result<(String, Vec<String>), DecodeError>) -> Result<
    (Seq<char>, Seq<Seq<char>>),
    DecodeError,
> {
    match arguments {
        Ok(pair) => Ok((pair.0@, pair.1.deep_view())),
        Err(e) => Err(e),
    }
}

/// Whether a request is an initialization message.
pub fn is_init_request(request: &Request) -> (init: bool)
    ensures
        init == is_init(request@),
{
    let init = "init".to_owned();
    request.message_type == init
}

/// The texts of the items of an array, in order, where every item is a
/// string.
fn texts_among(items: &Vec<serde_json::Value>) -> (texts: Option<Vec<String>>)
    ensures
        match texts {
            Some(list) => all_strings(items@.map_values(|item: serde_json::Value| value_view(item)))
                && list.deep_view() == texts_of(
                items@.map_values(|item: serde_json::Value| value_view(item)),
            ),
            None => !all_strings(items@.map_values(|item: serde_json::Value| value_view(item))),
        },
{
    let ghost all = items@.map_values(|item: serde_json::Value| value_view(item));
    let mut texts: Vec<String> = Vec::new();
    let mut i: usize = 0;
    while i < items.len()
        invariant
            i <= items.len(),
            all == items@.map_values(|item: serde_json::Value| value_view(item)),
            texts.len() == i,
            forall|j: int| 0 <= j < i ==> #[trigger] all[j] == Json::String(texts[j]@),
        decreases items.len() - i,
    {
        assert(all[i as int] == value_view(items[i as int]));
        match value_as_str(&items[i]) {
            Some(text) => {
                texts.push(text.to_owned());
            },
            None => {
                assert(!(all[i as int] is String));
                return None;
            },
        }
        i += 1;
    }
    assert(texts.deep_view() =~= texts_of(all));
    Some(texts)
}

/// Reads the arguments of the handshake out of an initialization message.
pub fn init_arguments(request: &Request) -> (arguments: Result<(String, Vec<String>), DecodeError>)
    ensures
        arguments_view(arguments) == init_arguments_spec(request@.body),
{
    let node_id = match object_get(&request.body, Field::NodeId.name()) {
        None => { return Err(DecodeError::Missing(Field::NodeId)); },
        Some(value) => match value_as_str(value) {
            Some(text) => text.to_owned(),
            None => { return Err(DecodeError::Mistyped(Field::NodeId)); },
        },
    };
    let node_ids = match object_get(&request.body, Field::NodeIds.name()) {
        None => { return Err(DecodeError::Missing(Field::NodeIds)); },
        Some(value) => match value_as_array(value) {
            Some(items) => match texts_among(items) {
                Some(texts) => texts,
                None => { return Err(DecodeError::Mistyped(Field::NodeIds)); },
            },
            None => { return Err(DecodeError::Mistyped(Field::NodeIds)); },
        },
    };
    Ok((node_id, node_ids))
}

/// Builds the reply that reports an error to the sender of a request.
pub fn error_response(request: &Request, error: &Error) -> (reply: Response)
    ensures
        reply@ == error_reply(request@, *error),
{
    let mut body = object_new();
    object_insert(&mut body, "code".to_owned(), value_from_u64(error.get_wire_code()));
    object_insert(&mut body, "text".to_owned(), value_from_string(error.get_text()));
    Response {
        destination: request.source.clone(),
        message_type: "error".to_owned(),
        message_id: None,
        in_reply_to: request.message_id,
        body,
    }
}

/// The outcome for what could not be decoded.
pub fn discard(e: DecodeError) -> (outcome: Outcome)
    ensures
        outcome@ == discarded(e),
{
    let outcome = Outcome { responses: Vec::new(), verdict: Verdict::Malformed(e), halt: false };
    assert(outcome@.responses =~= discarded(e).responses);
    outcome
}

/// The outcome for a request that failed: the error goes to its sender
/// where the request carries an identifier.
pub fn refuse(request: &Request, error: Error, halt: bool) -> (outcome: Outcome)
    ensures
        outcome@ == refused(request@, error, halt),
{
    let mut responses: Vec<Response> = Vec::new();
    if request.message_id.is_some() {
        responses.push(error_response(request, &error));
    }
    let outcome = Outcome { responses, verdict: Verdict::Refused(error), halt };
    assert(outcome@.responses =~= refused(request@, error, halt).responses);
    outcome
}

/// The outcome for an acknowledged handshake.
pub fn acknowledge(request: &Request) -> (outcome: Outcome)
    ensures
        outcome@ == acknowledged(request@),
{
    let mut responses: Vec<Response> = Vec::new();
    responses.push(Response::new_from_request(request, object_new()));
    let outcome = Outcome { responses, verdict: Verdict::Served, halt: false };
    assert(outcome@.responses =~= acknowledged(request@).responses);
    outcome
}

/// The outcome of a first handshake, given what the handler answered to
/// `init`.
pub fn settle_init(request: &Request, result: Result<(), Error>) -> (outcome: Outcome)
    ensures
        outcome@ == settled_init(request@, init_answer(result)),
{
    match result {
        Ok(_) => acknowledge(request),
        Err(error) => refuse(request, error, true),
    }
}

/// The outcome of a request, given what the handler answered to `receive`.
pub fn settle_receive(request: &Request, result: Result<Vec<Response>, Error>) -> (outcome: Outcome)
    ensures
        outcome@ == settled_receive(request@, receive_answer(result)),
{
    match result {
        Ok(responses) => {
            let ghost given = response_views(responses@);
            let mut responses = responses;
            let mut i: usize = 0;
            while i < responses.len()
                invariant
                    i <= responses.len(),
                    responses.len() == given.len(),
                    forall|j: int| 0 <= j < i ==> (#[trigger] responses[j])@ == completed(given[j]),
                    forall|j: int| i <= j < responses.len() ==> (#[trigger] responses[j])@ == given[j],
                decreases responses.len() - i,
            {
                if responses[i].message_id.is_none() && responses[i].in_reply_to.is_some() {
                    let next = successor(responses[i].in_reply_to);
                    responses[i].message_id = next;
                }
                i += 1;
            }
            let outcome = Outcome { responses, verdict: Verdict::Served, halt: false };
            assert(outcome@.responses =~= given.map_values(
                |response: ResponseView| completed(response),
            ));
            outcome
        },
        Err(error) => {
            let halt = error.is_crash();
            refuse(request, error, halt)
        },
    }
}

/// Encodes some responses, sent by the node `node_id`, each as one line.
pub fn emit(node_id: &str, responses: &Vec<Response>) -> (lines: Vec<String>)
    ensures
        lines.deep_view() == encode_each(node_id@, response_views(responses@)),
{
    let mut lines: Vec<String> = Vec::new();
    let mut i: usize = 0;
    while i < responses.len()
        invariant
            i <= responses.len(),
            lines.len() == i,
            forall|j: int| 0 <= j < i ==> (#[trigger] lines[j])@ == encode_spec(node_id@, responses[j]@),
        decreases responses.len() - i,
    {
        lines.push(encode(node_id, &responses[i]));
        i += 1;
    }
    assert(lines.deep_view() =~= encode_each(node_id@, response_views(responses@)));
    lines
}

/// What a line does to a node, as mathematics: a line that does not decode
/// is dropped and changes nothing; a request is dispatched, and the
/// responses are encoded under the identifier by which the node speaks.
pub open spec fn handled(
    before: Option<Seq<char>>,
    line: Seq<u8>,
    step: StepView,
    after: Option<Seq<char>>,
) -> bool {
    match decode_spec(line) {
        Err(e) => after == before && step == (StepView {
            lines: Seq::empty(),
            verdict: Verdict::Malformed(e),
            halt: false,
        }),
        Ok(request) => exists|outcome: OutcomeView| #[trigger]
            dispatched(before, request, outcome, after) && step == (StepView {
                lines: encode_each(speaker(after, request), outcome.responses),
                verdict: outcome.verdict,
                halt: outcome.halt,
            }),
    }
}

/// Whether a line makes the runtime ask the handler.
pub open spec fn line_consults_handler(before: Option<Seq<char>>, line: Seq<u8>) -> bool {
    decode_spec(line) matches Ok(request) && consults_handler(before, request)
}

/// A runtime to run a handler.
pub struct Runtime<A: Actor + ?Sized> {
    node: Box<A>,
    node_id: Option<String>,
}

impl<A: Actor + ?Sized> Runtime<A> {
    /// The node's own identifier: it has one once it is ready, and none
    /// while it awaits its initialization.
    pub closed spec fn own_id(&self) -> Option<Seq<char>> {
        match self.node_id {
            Some(id) => Some(id@),
            None => None,
        }
    }

    /// The handler that the runtime runs.
    pub closed spec fn handler(&self) -> Box<A> {
        self.node
    }

    /// Creates a runtime that awaits its initialization.
    pub fn new(node: Box<A>) -> (runtime: Runtime<A>)
        ensures
            runtime.own_id() is None,
            runtime.handler() == node,
    {
        Runtime { node, node_id: None }
    }

    /// The state of the node.
    pub fn phase(&self) -> (phase: Phase)
        ensures
            phase == phase_of(self.own_id()),
    {
        if self.node_id.is_some() {
            Phase::Ready
        } else {
            Phase::AwaitingInit
        }
    }

    /// Whether the node has been initialized.
    pub fn is_ready(&self) -> (ready: bool)
        ensures
            ready == (self.own_id() is Some),
    {
        self.node_id.is_some()
    }

    /// The node's own identifier, once it has been initialized.
    pub fn node_id(&self) -> (id: Option<String>)
        ensures
            match id {
                Some(text) => self.own_id() == Some(text@),
                None => self.own_id() is None,
            },
    {
        match &self.node_id {
            Some(text) => Some(text.clone()),
            None => None,
        }
    }

    /// Handles a first initialization message: reads the arguments, asks the
    /// handler to initialize and, if it does, makes the node ready under the
    /// identifier it was given.
    fn handle_init(&mut self, request: &Request) -> (outcome: Outcome)
        requires
            old(self).own_id() is None,
            is_init(request@),
        ensures
            dispatched(old(self).own_id(), request@, outcome@, final(self).own_id()),
            !consults_handler(old(self).own_id(), request@) ==> final(self).handler() == old(
                self,
            ).handler(),
    {
        match init_arguments(request) {
            Err(e) => {
                let outcome = discard(e);
                assert(transition(self.own_id(), request@, Ok(Seq::empty())) == (Transition {
                    outcome: outcome@,
                    own_id: self.own_id(),
                }));
                outcome
            },
            Ok(arguments) => {
                let (node_id, node_ids) = arguments;
                let result = self.node.init(node_id.as_str(), node_ids);
                let ghost answer = init_answer(result);
                if result.is_ok() {
                    self.node_id = Some(node_id);
                }
                let outcome = settle_init(request, result);
                assert(transition(old(self).own_id(), request@, answer) == (Transition {
                    outcome: outcome@,
                    own_id: self.own_id(),
                }));
                outcome
            },
        }
    }

    /// Dispatches one request: the handshake, a repeated handshake, a
    /// request for the handler, or one that comes too early.
    pub fn dispatch(&mut self, request: &Request) -> (outcome: Outcome)
        ensures
            dispatched(old(self).own_id(), request@, outcome@, final(self).own_id()),
            !consults_handler(old(self).own_id(), request@) ==> final(self).handler() == old(
                self,
            ).handler(),
    {
        if is_init_request(request) {
            if self.node_id.is_some() {
                let outcome = acknowledge(request);
                assert(transition(self.own_id(), request@, Ok(Seq::empty())) == (Transition {
                    outcome: outcome@,
                    own_id: self.own_id(),
                }));
                outcome
            } else {
                self.handle_init(request)
            }
        } else if self.node_id.is_some() {
            let result = self.node.receive(request);
            let ghost answer = receive_answer(result);
            let outcome = settle_receive(request, result);
            assert(transition(self.own_id(), request@, answer) == (Transition {
                outcome: outcome@,
                own_id: self.own_id(),
            }));
            outcome
        } else {
            let outcome = refuse(request, Error::TemporarilyUnavailable, false);
            assert(transition(self.own_id(), request@, Ok(Seq::empty())) == (Transition {
                outcome: outcome@,
                own_id: self.own_id(),
            }));
            outcome
        }
    }

    /// Handles the bytes of one line: decodes them, dispatches the request
    /// and encodes the responses. A line that does not decode changes
    /// nothing and sends nothing.
    pub fn handle_line(&mut self, line: &[u8]) -> (step: Step)
        ensures
            handled(old(self).own_id(), line@, step@, final(self).own_id()),
            !line_consults_handler(old(self).own_id(), line@) ==> final(self).handler() == old(
                self,
            ).handler(),
    {
        match decode(line) {
            Err(e) => {
                let step = Step { lines: Vec::new(), verdict: Verdict::Malformed(e), halt: false };
                assert(step@.lines =~= Seq::<Seq<char>>::empty());
                step
            },
            Ok(request) => {
                let outcome = self.dispatch(&request);
                let lines = match &self.node_id {
                    Some(id) => emit(id.as_str(), &outcome.responses),
                    None => emit(request.destination.as_str(), &outcome.responses),
                };
                let ghost seen = outcome@;
                let step = Step { lines, verdict: outcome.verdict, halt: outcome.halt };
                assert(dispatched(old(self).own_id(), request@, seen, self.own_id()) && step@ == (
                StepView {
                    lines: encode_each(speaker(self.own_id(), request@), seen.responses),
                    verdict: seen.verdict,
                    halt: seen.halt,
                }));
                step
            },
        }
    }
}

} // verus!
