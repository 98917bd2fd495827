//! The dispatch rules as mathematics: what the runtime does with a request,
//! given the state it is in and what the handler answers.

use vstd::prelude::*;
use crate::error::{DecodeError, Error, Field};
use crate::json::{empty_object, Json, JsonNumber};
use crate::message::{next_id, reply_to, text_field, RequestView, ResponseView};

verus! {

/// What became of a line or a request.
#[derive(Debug)]
pub enum Verdict {
    /// The handshake was acknowledged, or the handler took the request.
    Served,
    /// The line, or the initialization message in it, could not be decoded.
    /// It is reported and dropped; nothing is sent.
    Malformed(DecodeError),
    /// The request failed with this error, which goes to the sender where
    /// the request carries an identifier.
    Refused(Error),
}

/// The two states of a node.
#[derive(Debug, Clone, Copy, PartialEq, Eq, Structural)]
pub enum Phase {
    /// The node has not been initialized: it refuses every message but the
    /// handshake.
    AwaitingInit,
    /// The node has been initialized, and stays so.
    Ready,
}

/// The state of a node that has, or has not yet, an identifier of its own.
pub open spec fn phase_of(own_id: Option<Seq<char>>) -> Phase {
    if own_id is Some {
        Phase::Ready
    } else {
        Phase::AwaitingInit
    }
}

/// What a dispatch hands back, as mathematics: the responses to send, in
/// order, the verdict, and whether the node has to stop.
pub struct OutcomeView {
    pub responses: Seq<ResponseView>,
    pub verdict: Verdict,
    pub halt: bool,
}

/// What the handler answers where the runtime asks it: to `init`, `Ok` or an
/// error (of `Ok`, nothing else is looked at); to `receive`, its responses or
/// an error.
pub type Answer = Result<Seq<ResponseView>, Error>;

/// Whether a request is an initialization message.
pub open spec fn is_init(request: RequestView) -> bool {
    request.message_type == "init"@
}

/// Whether every item of an array is a string.
pub open spec fn all_strings(items: Seq<Json>) -> bool {
    forall|i: int| 0 <= i < items.len() ==> #[trigger] items[i] is String
}

/// The texts of the items of an array of strings, in order.
pub open spec fn texts_of(items: Seq<Json>) -> Seq<Seq<char>> {
    Seq::new(items.len(), |i: int| items[i]->String_0)
}

/// The arguments of the handshake in the body of an initialization message:
/// `node_id`, a string, and `node_ids`, an array of strings. An array that
/// holds anything but strings is of the wrong type.
pub open spec fn init_arguments_spec(body: Map<Seq<char>, Json>) -> Result<
    (Seq<char>, Seq<Seq<char>>),
    DecodeError,
> {
    match text_field(body, Field::NodeId) {
        Err(e) => Err(e),
        Ok(node_id) => if !body.contains_key(Field::NodeIds.key()) {
            Err(DecodeError::Missing(Field::NodeIds))
        } else {
            match body[Field::NodeIds.key()] {
                Json::Array(items) => if all_strings(items) {
                    Ok((node_id, texts_of(items)))
                } else {
                    Err(DecodeError::Mistyped(Field::NodeIds))
                },
                _ => Err(DecodeError::Mistyped(Field::NodeIds)),
            }
        },
    }
}

/// The body of an error reply: the code and the text of the error.
pub open spec fn error_body(error: Error) -> Map<Seq<char>, Json> {
    empty_object().insert("code"@, Json::Number(JsonNumber::Unsigned(error.wire_code()))).insert(
        "text"@,
        Json::String(error.text()),
    )
}

/// The reply that reports an error to the sender of a request. It answers
/// the request's identifier and carries none of its own.
pub open spec fn error_reply(request: RequestView, error: Error) -> ResponseView {
    ResponseView {
        destination: request.source,
        message_type: "error"@,
        message_id: None,
        in_reply_to: request.message_id,
        body: error_body(error),
    }
}

/// The responses by which an error is reported: one error reply where the
/// request carries an identifier, and none where it does not.
pub open spec fn error_replies(request: RequestView, error: Error) -> Seq<ResponseView> {
    if request.message_id is Some {
        seq![error_reply(request, error)]
    } else {
        Seq::empty()
    }
}

/// A response of the handler as it is sent: a reply without an identifier
/// of its own gets the one that follows the identifier it answers.
pub open spec fn completed(response: ResponseView) -> ResponseView {
    if response.message_id is None && response.in_reply_to is Some {
        ResponseView { message_id: next_id(response.in_reply_to), ..response }
    } else {
        response
    }
}

/// The outcome for what could not be decoded.
pub open spec fn discarded(e: DecodeError) -> OutcomeView {
    OutcomeView { responses: Seq::empty(), verdict: Verdict::Malformed(e), halt: false }
}

/// The outcome for a request that failed.
pub open spec fn refused(request: RequestView, error: Error, halt: bool) -> OutcomeView {
    OutcomeView { responses: error_replies(request, error), verdict: Verdict::Refused(error), halt }
}

/// The outcome for an acknowledged handshake: one `init_ok` reply with an
/// empty body.
pub open spec fn acknowledged(request: RequestView) -> OutcomeView {
    OutcomeView {
        responses: seq![reply_to(request, empty_object())],
        verdict: Verdict::Served,
        halt: false,
    }
}

/// The outcome of a first handshake, given what the handler answered to
/// `init`. Its failure is fatal.
pub open spec fn settled_init(request: RequestView, answer: Answer) -> OutcomeView {
    match answer {
        Ok(_) => acknowledged(request),
        Err(error) => refused(request, error, true),
    }
}

/// The outcome of a request, given what the handler answered to `receive`.
/// Of its errors only `Crash` is fatal.
pub open spec fn settled_receive(request: RequestView, answer: Answer) -> OutcomeView {
    match answer {
        Ok(responses) => OutcomeView {
            responses: responses.map_values(|response: ResponseView| completed(response)),
            verdict: Verdict::Served,
            halt: false,
        },
        Err(error) => refused(request, error, error is Crash),
    }
}

/// What the runtime does with a request before it asks the handler, if it
/// asks it at all.
pub enum Route {
    /// A first initialization message with these arguments: the handler is
    /// asked to initialize.
    Handshake(Seq<char>, Seq<Seq<char>>),
    /// A first initialization message without its arguments.
    Malformed(DecodeError),
    /// An initialization message to a node that is ready.
    Repeat,
    /// Another message to a node that is ready: the handler receives it.
    Deliver,
    /// Another message to a node that awaits its initialization.
    Unready,
}

/// The route of a request. `own_id` is the node's identifier, which it has
/// once it is ready.
pub open spec fn route(own_id: Option<Seq<char>>, request: RequestView) -> Route {
    if is_init(request) {
        if own_id is Some {
            Route::Repeat
        } else {
            match init_arguments_spec(request.body) {
                Ok(arguments) => Route::Handshake(arguments.0, arguments.1),
                Err(e) => Route::Malformed(e),
            }
        }
    } else if own_id is Some {
        Route::Deliver
    } else {
        Route::Unready
    }
}

/// Whether the handler is asked about a request.
pub open spec fn consults_handler(own_id: Option<Seq<char>>, request: RequestView) -> bool {
    route(own_id, request) is Handshake || route(own_id, request) is Deliver
}

/// The outcome of a dispatch and the state after it.
pub struct Transition {
    pub outcome: OutcomeView,
    pub own_id: Option<Seq<char>>,
}

/// The dispatch of one request: from the state and the request, and from
/// what the handler answers where it is asked, to the outcome and the next
/// state.
pub open spec fn transition(own_id: Option<Seq<char>>, request: RequestView, answer: Answer) -> Transition {
    match route(own_id, request) {
        Route::Handshake(node_id, _) => Transition {
            outcome: settled_init(request, answer),
            own_id: if answer is Ok {
                Some(node_id)
            } else {
                own_id
            },
        },
        Route::Malformed(e) => Transition { outcome: discarded(e), own_id },
        Route::Repeat => Transition { outcome: acknowledged(request), own_id },
        Route::Deliver => Transition { outcome: settled_receive(request, answer), own_id },
        Route::Unready => Transition {
            outcome: refused(request, Error::TemporarilyUnavailable, false),
            own_id,
        },
    }
}

/// Whether a dispatch can take the node from `before` to `after` with this
/// outcome: whether the handler can answer so that it does.
pub open spec fn dispatched(
    before: Option<Seq<char>>,
    request: RequestView,
    outcome: OutcomeView,
    after: Option<Seq<char>>,
) -> bool {
    exists|answer: Answer| #[trigger]
        transition(before, request, answer) == (Transition { outcome, own_id: after })
}

/// The identifier under which the node sends what it answers to a request:
/// its own once it has one, and until then the one that the request was
/// addressed to.
pub open spec fn speaker(own_id: Option<Seq<char>>, request: RequestView) -> Seq<char> {
    match own_id {
        Some(id) => id,
        None => request.destination,
    }
}

/// A roster with an item that is no string is of the wrong type: the
/// initialization message that holds it is dropped, the handler is not
/// asked and the node stays as it is.
pub proof fn lemma_roster_of_strings(request: RequestView, items: Seq<Json>, i: int, answer: Answer)
    requires
        is_init(request),
        text_field(request.body, Field::NodeId) is Ok,
        request.body.contains_key(Field::NodeIds.key()),
        request.body[Field::NodeIds.key()] == Json::Array(items),
        0 <= i < items.len(),
        !(items[i] is String),
    ensures
        init_arguments_spec(request.body) matches Err(e) && e == DecodeError::Mistyped(
            Field::NodeIds,
        ),
        !consults_handler(None, request),
        transition(None, request, answer) == (Transition {
            outcome: discarded(DecodeError::Mistyped(Field::NodeIds)),
            own_id: None,
        }),
{
}

/// A node that awaits its initialization refuses every other message as
/// temporarily unavailable, stays as it is, and does not ask the handler.
pub proof fn lemma_init_gating(request: RequestView, answer: Answer)
    requires
        !is_init(request),
    ensures
        !consults_handler(None, request),
        transition(None, request, answer) == (Transition {
            outcome: refused(request, Error::TemporarilyUnavailable, false),
            own_id: None,
        }),
        transition(None, request, answer).outcome.verdict == Verdict::Refused(
            Error::TemporarilyUnavailable,
        ),
        transition(None, request, answer).outcome.responses == error_replies(
            request,
            Error::TemporarilyUnavailable,
        ),
{
}

/// A node that is ready acknowledges every initialization message in the
/// same way, however often it comes: with one `init_ok` reply, without
/// asking the handler and without a change of state.
pub proof fn lemma_repeated_init(own_id: Seq<char>, request: RequestView, first: Answer, second: Answer)
    requires
        is_init(request),
    ensures
        !consults_handler(Some(own_id), request),
        transition(Some(own_id), request, first) == transition(Some(own_id), request, second),
        transition(Some(own_id), request, first) == (Transition {
            outcome: acknowledged(request),
            own_id: Some(own_id),
        }),
        acknowledged(request).responses.len() == 1,
        acknowledged(request).responses[0].message_type == "init_ok"@,
        acknowledged(request).responses[0].in_reply_to == request.message_id,
{
    reveal_strlit("init");
    reveal_strlit("_ok");
    reveal_strlit("init_ok");
    assert("init"@ + "_ok"@ =~= "init_ok"@);
}

/// The acknowledgement of a repeated handshake is that of the first one.
pub proof fn lemma_init_twice(request: RequestView, first: Answer, second: Answer)
    requires
        is_init(request),
        route(None, request) is Handshake,
        first is Ok,
    ensures
        transition(None, request, first).own_id is Some,
        transition(transition(None, request, first).own_id, request, second).outcome == transition(
            None,
            request,
            first,
        ).outcome,
        transition(transition(None, request, first).own_id, request, second).own_id == transition(
            None,
            request,
            first,
        ).own_id,
{
}

/// A node that is ready stays ready, under the identifier it has. A node
/// becomes ready by nothing but a handshake that the handler accepts.
pub proof fn lemma_ready_is_final(own_id: Option<Seq<char>>, request: RequestView, answer: Answer)
    ensures
        phase_of(own_id) == Phase::Ready ==> transition(own_id, request, answer).own_id == own_id,
        phase_of(own_id) == Phase::AwaitingInit && phase_of(
            transition(own_id, request, answer).own_id,
        ) == Phase::Ready ==> route(own_id, request) is Handshake && answer is Ok
            && transition(own_id, request, answer).outcome == acknowledged(request),
{
}

/// What the runtime sends for a response of the handler answers what the
/// response answers: the runtime neither makes up nor changes an
/// `in_reply_to`, and it keeps an identifier that the handler has set.
pub proof fn lemma_handler_responses_pass(request: RequestView, responses: Seq<ResponseView>, k: int)
    requires
        0 <= k < responses.len(),
    ensures
        settled_receive(request, Ok(responses)).responses.len() == responses.len(),
        settled_receive(request, Ok(responses)).responses[k] == completed(responses[k]),
        completed(responses[k]).in_reply_to == responses[k].in_reply_to,
        completed(responses[k]).destination == responses[k].destination,
        completed(responses[k]).message_type == responses[k].message_type,
        completed(responses[k]).body == responses[k].body,
        responses[k].message_id is Some ==> completed(responses[k]) == responses[k],
        responses[k].in_reply_to is None ==> completed(responses[k]) == responses[k],
        responses[k].message_id is None ==> completed(responses[k]).message_id == next_id(
            responses[k].in_reply_to,
        ),
{
}

/// One request in the life of a node: the state in which it arrived, the
/// request, and what the handler answered where it was asked.
pub struct Exchange {
    pub own_id: Option<Seq<char>>,
    pub request: RequestView,
    pub answer: Answer,
}

/// The responses that the node sent in an exchange, in order.
pub open spec fn emitted(exchange: Exchange) -> Seq<ResponseView> {
    transition(exchange.own_id, exchange.request, exchange.answer).outcome.responses
}

/// Whether the handler kept to the request in an exchange: each reply
/// among its responses answers the request that it was given.
pub open spec fn answers_its_request(exchange: Exchange) -> bool {
    route(exchange.own_id, exchange.request) is Deliver ==> (exchange.answer matches Ok(responses)
        ==> forall|k: int|
        0 <= k < responses.len() && (#[trigger] responses[k]).in_reply_to is Some
            ==> responses[k].in_reply_to == exchange.request.message_id)
}

/// Whether the handler numbered as the runtime does in an exchange: a
/// response that it gave an identifier is a reply, and the identifier is the
/// one that follows the identifier it answers.
pub open spec fn numbers_its_replies(exchange: Exchange) -> bool {
    route(exchange.own_id, exchange.request) is Deliver ==> (exchange.answer matches Ok(responses)
        ==> forall|k: int|
        0 <= k < responses.len() && (#[trigger] responses[k]).message_id is Some
            ==> responses[k].in_reply_to is Some && responses[k].message_id == next_id(
            responses[k].in_reply_to,
        ))
}

/// Whether the handler replied at most once in an exchange.
pub open spec fn replies_once(exchange: Exchange) -> bool {
    route(exchange.own_id, exchange.request) is Deliver ==> (exchange.answer matches Ok(responses)
        ==> forall|k: int, l: int|
        0 <= k < l < responses.len() ==> !((#[trigger] responses[k]).in_reply_to is Some && (
        #[trigger] responses[l]).in_reply_to is Some))
}

/// Whether every reply that was sent answers a request that had arrived by
/// then.
pub open spec fn correlated(history: Seq<Exchange>) -> bool {
    forall|i: int, k: int|
        0 <= i < history.len() && 0 <= k < emitted(history[i]).len() && (#[trigger] emitted(
            history[i],
        )[k]).in_reply_to is Some ==> exists|j: int|
            0 <= j <= i && (#[trigger] history[j]).request.message_id == emitted(
                history[i],
            )[k].in_reply_to
}

/// Whether the identifiers of the requests rise from each request that has
/// one to each later request that has one.
pub open spec fn request_ids_rise(history: Seq<Exchange>) -> bool {
    forall|i: int, j: int|
        0 <= i < j < history.len() ==> ((#[trigger] history[i]).request.message_id matches Some(a)
            ==> ((#[trigger] history[j]).request.message_id matches Some(b) ==> a < b))
}

/// Whether the identifiers of what was sent rise from each message that has
/// one to each message with one that was sent later.
pub open spec fn emitted_ids_rise(history: Seq<Exchange>) -> bool {
    forall|i: int, k: int, j: int, l: int|
        0 <= i <= j < history.len() && 0 <= k < emitted(history[i]).len() && 0 <= l < emitted(
            history[j],
        ).len() && (i < j || k < l) ==> ((#[trigger] emitted(history[i])[k]).message_id matches Some(
            a,
        ) ==> ((#[trigger] emitted(history[j])[l]).message_id matches Some(b) ==> a < b))
}

/// In an exchange in which the handler kept to the request, every reply
/// that the node sent answers the request of the exchange.
pub proof fn lemma_reply_answers_request(exchange: Exchange, k: int)
    requires
        answers_its_request(exchange),
        0 <= k < emitted(exchange).len(),
        emitted(exchange)[k].in_reply_to is Some,
    ensures
        emitted(exchange)[k].in_reply_to == exchange.request.message_id,
{
    match route(exchange.own_id, exchange.request) {
        Route::Deliver => {
            match exchange.answer {
                Ok(responses) => {
                    assert(responses[k].in_reply_to is Some);
                },
                Err(_) => {},
            }
        },
        _ => {},
    }
}

/// Whether the handler answered nothing but requests that had arrived: each
/// reply among its responses in the exchange `i` answers the request of that
/// exchange or of an earlier one.
pub open spec fn answers_known_requests(history: Seq<Exchange>, i: int) -> bool {
    route(history[i].own_id, history[i].request) is Deliver ==> (history[i].answer matches Ok(
        responses,
    ) ==> forall|k: int|
        0 <= k < responses.len() && (#[trigger] responses[k]).in_reply_to is Some ==> exists|j: int|
            0 <= j <= i && (#[trigger] history[j]).request.message_id == responses[k].in_reply_to)
}

/// Over the life of a node whose handler answered nothing but requests that
/// had arrived, every reply that the node sent answers a request that had
/// arrived by then. What the runtime sends of its own answers the request
/// at hand.
pub proof fn lemma_replies_are_correlated(history: Seq<Exchange>)
    requires
        forall|i: int| 0 <= i < history.len() ==> #[trigger] answers_known_requests(history, i),
    ensures
        correlated(history),
{
    assert forall|i: int, k: int|
        0 <= i < history.len() && 0 <= k < emitted(history[i]).len() && (#[trigger] emitted(
            history[i],
        )[k]).in_reply_to is Some implies exists|j: int|
        0 <= j <= i && (#[trigger] history[j]).request.message_id == emitted(
            history[i],
        )[k].in_reply_to by {
        let exchange = history[i];
        assert(answers_known_requests(history, i));
        match route(exchange.own_id, exchange.request) {
            Route::Deliver => {
                match exchange.answer {
                    Ok(responses) => {
                        assert(emitted(exchange)[k] == completed(responses[k]));
                        assert(responses[k].in_reply_to is Some);
                    },
                    Err(_) => {
                        assert(history[i].request.message_id == emitted(exchange)[k].in_reply_to);
                    },
                }
            },
            _ => {
                assert(history[i].request.message_id == emitted(exchange)[k].in_reply_to);
            },
        }
    }
}

/// In an exchange in which the handler kept to the request and numbered as
/// the runtime does, every identifier that the node sent is the one that
/// follows the identifier of the request, and stands on a reply.
pub proof fn lemma_emitted_id_follows_request(exchange: Exchange, k: int)
    requires
        answers_its_request(exchange),
        numbers_its_replies(exchange),
        0 <= k < emitted(exchange).len(),
        emitted(exchange)[k].message_id is Some,
    ensures
        emitted(exchange)[k].in_reply_to is Some,
        emitted(exchange)[k].message_id == next_id(exchange.request.message_id),
{
    match route(exchange.own_id, exchange.request) {
        Route::Deliver => {
            match exchange.answer {
                Ok(responses) => {
                    let given = responses[k];
                    assert(emitted(exchange)[k] == completed(given));
                    if given.message_id is Some {
                        assert(given.in_reply_to is Some);
                    }
                    assert(given.in_reply_to is Some);
                    assert(given.in_reply_to == exchange.request.message_id);
                },
                Err(_) => {},
            }
        },
        _ => {},
    }
}

/// Over the life of a node to which requests come with rising identifiers,
/// and whose handler kept to the requests, numbered as the runtime does and
/// replied at most once to each: the identifiers that the node sent rise.
pub proof fn lemma_reply_ids_rise(history: Seq<Exchange>)
    requires
        request_ids_rise(history),
        forall|i: int|
            0 <= i < history.len() ==> answers_its_request(#[trigger] history[i])
                && numbers_its_replies(history[i]) && replies_once(history[i]),
    ensures
        emitted_ids_rise(history),
{
    assert forall|i: int, k: int, j: int, l: int|
        0 <= i <= j < history.len() && 0 <= k < emitted(history[i]).len() && 0 <= l < emitted(
            history[j],
        ).len() && (i < j || k < l) implies ((#[trigger] emitted(history[i])[k]).message_id matches Some(
        a,
    ) ==> ((#[trigger] emitted(history[j])[l]).message_id matches Some(b) ==> a < b)) by {
        if emitted(history[i])[k].message_id is Some && emitted(history[j])[l].message_id is Some {
            lemma_emitted_id_follows_request(history[i], k);
            lemma_emitted_id_follows_request(history[j], l);
            if i == j {
                let exchange = history[i];
                match route(exchange.own_id, exchange.request) {
                    Route::Deliver => {
                        match exchange.answer {
                            Ok(responses) => {
                                assert(emitted(exchange)[k] == completed(responses[k]));
                                assert(emitted(exchange)[l] == completed(responses[l]));
                                assert(responses[k].in_reply_to is Some);
                                assert(responses[l].in_reply_to is Some);
                            },
                            Err(_) => {},
                        }
                    },
                    _ => {},
                }
            }
        }
    }
}

} // verus!
