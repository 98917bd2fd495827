//! Whole runs: what a node writes and what it asks of its handler over the
//! lines that arrive, one after the other.
//!
//! The runtime handles one line at a time, and what the handler answers is
//! open to it. Here the handler is a function of its own state, so that two
//! runs of the same handler can be compared.

use vstd::prelude::*;
use crate::codec::{decode_spec, encode_each, encode_spec};
use crate::error::Error;
use crate::message::RequestView;
use crate::protocol::{
    acknowledged, dispatched, error_reply, is_init, route, speaker, transition, Answer, Route,
    Transition, Verdict,
};
use crate::runtime::{handled, init_answer, StepView};

verus! {

/// A handler as mathematics: what it answers to `init` and to `receive` in
/// a state of its own, and the state in which that leaves it.
#[verifier::reject_recursive_types(S)]
pub struct HandlerModel<S> {
    pub init: spec_fn(S, Seq<char>, Seq<Seq<char>>) -> (Result<(), Error>, S),
    pub receive: spec_fn(S, RequestView) -> (Answer, S),
}

/// One call that the runtime makes on the handler, with what it hands over.
pub enum Call {
    Init(Seq<char>, Seq<Seq<char>>),
    Receive(RequestView),
}

/// A node between two lines: its identifier, once it has one, the state of
/// its handler, and whether it has stopped.
pub struct Node<S> {
    pub own_id: Option<Seq<char>>,
    pub handler: S,
    pub halted: bool,
}

/// What one line does: the node after it, what the runtime hands back for
/// it, and the calls made on the handler.
pub struct Effect<S> {
    pub node: Node<S>,
    pub step: StepView,
    pub calls: Seq<Call>,
}

/// What a run has done: the node after it, the lines written and the calls
/// made on the handler, each in order.
pub struct Trace<S> {
    pub node: Node<S>,
    pub written: Seq<Seq<char>>,
    pub calls: Seq<Call>,
}

/// What the runtime hands back for a request, given its dispatch.
pub open spec fn step_of(request: RequestView, dispatch: Transition) -> StepView {
    StepView {
        lines: encode_each(speaker(dispatch.own_id, request), dispatch.outcome.responses),
        verdict: dispatch.outcome.verdict,
        halt: dispatch.outcome.halt,
    }
}

/// What one line does to a node that has not stopped.
pub open spec fn line_effect<S>(model: HandlerModel<S>, node: Node<S>, line: Seq<u8>) -> Effect<S> {
    match decode_spec(line) {
        Err(e) => Effect {
            node,
            step: StepView { lines: Seq::empty(), verdict: Verdict::Malformed(e), halt: false },
            calls: Seq::empty(),
        },
        Ok(request) => match route(node.own_id, request) {
            Route::Handshake(node_id, node_ids) => {
                let answered = (model.init)(node.handler, node_id, node_ids);
                let dispatch = transition(node.own_id, request, init_answer(answered.0));
                Effect {
                    node: Node {
                        own_id: dispatch.own_id,
                        handler: answered.1,
                        halted: node.halted || dispatch.outcome.halt,
                    },
                    step: step_of(request, dispatch),
                    calls: seq![Call::Init(node_id, node_ids)],
                }
            },
            Route::Deliver => {
                let answered = (model.receive)(node.handler, request);
                let dispatch = transition(node.own_id, request, answered.0);
                Effect {
                    node: Node {
                        own_id: dispatch.own_id,
                        handler: answered.1,
                        halted: node.halted || dispatch.outcome.halt,
                    },
                    step: step_of(request, dispatch),
                    calls: seq![Call::Receive(request)],
                }
            },
            _ => {
                let dispatch = transition(node.own_id, request, Ok(Seq::empty()));
                Effect {
                    node: Node {
                        own_id: dispatch.own_id,
                        handler: node.handler,
                        halted: node.halted || dispatch.outcome.halt,
                    },
                    step: step_of(request, dispatch),
                    calls: Seq::empty(),
                }
            },
        },
    }
}

/// The run of a node over some lines. A node that has stopped reads no
/// further line.
pub open spec fn run<S>(model: HandlerModel<S>, node: Node<S>, lines: Seq<Seq<u8>>) -> Trace<S>
    decreases lines.len(),
{
    if lines.len() == 0 {
        Trace { node, written: Seq::empty(), calls: Seq::empty() }
    } else {
        let before = run(model, node, lines.drop_last());
        if before.node.halted {
            before
        } else {
            let effect = line_effect(model, before.node, lines.last());
            Trace {
                node: effect.node,
                written: before.written + effect.step.lines,
                calls: before.calls + effect.calls,
            }
        }
    }
}

/// What one line does in a run is what the runtime may do with it: the
/// step and the change of state are among those that `handled` admits.
pub proof fn lemma_line_effect_is_handled<S>(model: HandlerModel<S>, node: Node<S>, line: Seq<u8>)
    ensures
        handled(
            node.own_id,
            line,
            line_effect(model, node, line).step,
            line_effect(model, node, line).node.own_id,
        ),
{
    match decode_spec(line) {
        Err(_) => {},
        Ok(request) => {
            let answer: Answer = match route(node.own_id, request) {
                Route::Handshake(node_id, node_ids) => init_answer(
                    (model.init)(node.handler, node_id, node_ids).0,
                ),
                Route::Deliver => (model.receive)(node.handler, request).0,
                _ => Ok(Seq::empty()),
            };
            let dispatch = transition(node.own_id, request, answer);
            assert(dispatch == (Transition { outcome: dispatch.outcome, own_id: dispatch.own_id }));
            assert(dispatched(node.own_id, request, dispatch.outcome, dispatch.own_id));
            assert(line_effect(model, node, line).step == step_of(request, dispatch));
        },
    }
}

/// A run over lines that come in two parts is the run over the first part,
/// followed by the run over the second from where the first has left the
/// node.
pub proof fn lemma_run_in_two_parts<S>(
    model: HandlerModel<S>,
    node: Node<S>,
    first: Seq<Seq<u8>>,
    second: Seq<Seq<u8>>,
)
    ensures
        run(model, node, first + second).node == run(
            model,
            run(model, node, first).node,
            second,
        ).node,
        run(model, node, first + second).written == run(model, node, first).written + run(
            model,
            run(model, node, first).node,
            second,
        ).written,
        run(model, node, first + second).calls == run(model, node, first).calls + run(
            model,
            run(model, node, first).node,
            second,
        ).calls,
    decreases second.len(),
{
    let middle = run(model, node, first);
    if second.len() == 0 {
        assert(first + second =~= first);
        assert(middle.written + Seq::<Seq<char>>::empty() =~= middle.written);
        assert(middle.calls + Seq::<Call>::empty() =~= middle.calls);
    } else {
        assert((first + second).drop_last() =~= first + second.drop_last());
        assert((first + second).last() == second.last());
        lemma_run_in_two_parts(model, node, first, second.drop_last());
        let rest = run(model, middle.node, second.drop_last());
        let whole = run(model, node, first + second.drop_last());
        if rest.node.halted {
            assert(whole.node.halted);
        } else {
            let effect = line_effect(model, rest.node, second.last());
            assert((middle.written + rest.written) + effect.step.lines =~= middle.written + (
            rest.written + effect.step.lines));
            assert((middle.calls + rest.calls) + effect.calls =~= middle.calls + (rest.calls
                + effect.calls));
        }
    }
}

/// A request with an identifier that arrives before the initialization is
/// answered by exactly one line, the error reply that the node is
/// temporarily unavailable, sent under the identifier that the request was
/// addressed to. One without an identifier is answered by no line.
pub proof fn lemma_refusal_before_init<S>(model: HandlerModel<S>, node: Node<S>, line: Seq<u8>)
    ensures
        node.own_id is None ==> (decode_spec(line) matches Ok(request) ==> (!is_init(request) ==> {
            let effect = line_effect(model, node, line);
            &&& effect.node == node
            &&& effect.calls.len() == 0
            &&& effect.step.verdict == Verdict::Refused(Error::TemporarilyUnavailable)
            &&& !effect.step.halt
            &&& request.message_id is Some ==> effect.step.lines == seq![
                encode_spec(
                    request.destination,
                    error_reply(request, Error::TemporarilyUnavailable),
                ),
            ]
            &&& request.message_id is None ==> effect.step.lines.len() == 0
        })),
{
    if node.own_id is None {
        match decode_spec(line) {
            Ok(request) => {
                if !is_init(request) && request.message_id is Some {
                    assert(line_effect(model, node, line).step.lines =~= seq![
                        encode_spec(
                            request.destination,
                            error_reply(request, Error::TemporarilyUnavailable),
                        ),
                    ]);
                }
            },
            Err(_) => {},
        }
    }
}

/// The run over one line is what that line does, and nothing for a node
/// that has stopped.
pub proof fn lemma_run_over_one_line<S>(model: HandlerModel<S>, node: Node<S>, line: Seq<u8>)
    ensures
        run(model, node, seq![line]).node == (if node.halted {
            node
        } else {
            line_effect(model, node, line).node
        }),
        run(model, node, seq![line]).written == (if node.halted {
            Seq::empty()
        } else {
            line_effect(model, node, line).step.lines
        }),
        run(model, node, seq![line]).calls == (if node.halted {
            Seq::empty()
        } else {
            line_effect(model, node, line).calls
        }),
{
    let one = seq![line];
    assert(one.drop_last() =~= Seq::<Seq<u8>>::empty());
    assert(one.last() == line);
    let start = run(model, node, one.drop_last());
    assert(start.written =~= Seq::<Seq<char>>::empty());
    assert(start.calls =~= Seq::<Call>::empty());
    if !node.halted {
        let effect = line_effect(model, node, line);
        assert(start.written + effect.step.lines =~= effect.step.lines);
        assert(start.calls + effect.calls =~= effect.calls);
    }
}

/// A line that does not decode, wherever it stands among the lines, changes
/// nothing: the run writes the same lines, makes the same calls on the
/// handler and leaves the node as the run without it does.
pub proof fn lemma_malformed_line_is_skipped<S>(
    model: HandlerModel<S>,
    node: Node<S>,
    before: Seq<Seq<u8>>,
    bad: Seq<u8>,
    after: Seq<Seq<u8>>,
)
    ensures
        decode_spec(bad) is Err ==> run(model, node, before + seq![bad] + after) == run(
            model,
            node,
            before + after,
        ),
{
    if decode_spec(bad) is Err {
        let lines = before + seq![bad];
        let reached = run(model, node, before);
        assert(lines.drop_last() =~= before);
        assert(lines.last() == bad);
        assert(run(model, node, lines).node == reached.node);
        assert(run(model, node, lines).written =~= reached.written);
        assert(run(model, node, lines).calls =~= reached.calls);
        lemma_run_in_two_parts(model, node, lines, after);
        lemma_run_in_two_parts(model, node, before, after);
    }
}

/// An initialization message that comes a second time, right after the
/// first, changes nothing that a peer or the handler can see but for its own
/// acknowledgement: the handler is asked no more often, the node is left as
/// after the first, and whatever lines follow are answered by the same
/// lines and the same calls.
pub proof fn lemma_second_init_is_unseen<S>(
    model: HandlerModel<S>,
    node: Node<S>,
    line: Seq<u8>,
    further: Seq<Seq<u8>>,
)
    ensures
        decode_spec(line) matches Ok(request) ==> (is_init(request) ==> {
            let once = run(model, node, seq![line]);
            let twice = run(model, node, seq![line, line]);
            let rest = run(model, once.node, further);
            &&& twice.node == once.node
            &&& twice.calls == once.calls
            &&& twice.written == once.written + run(model, once.node, seq![line]).written
            &&& run(model, once.node, seq![line]).written.len() <= 1
            &&& run(model, once.node, seq![line]).written.len() == 1 ==> once.node.own_id is Some
                && run(model, once.node, seq![line]).written == encode_each(
                once.node.own_id->Some_0,
                acknowledged(request).responses,
            )
            &&& run(model, node, seq![line] + further).node == rest.node
            &&& run(model, node, seq![line, line] + further).node == rest.node
            &&& run(model, node, seq![line] + further).calls == once.calls + rest.calls
            &&& run(model, node, seq![line, line] + further).calls == once.calls + rest.calls
            &&& run(model, node, seq![line] + further).written == once.written + rest.written
            &&& run(model, node, seq![line, line] + further).written == twice.written
                + rest.written
        }),
{
    if decode_spec(line) matches Ok(request) && is_init(request) {
        let one = seq![line];
        let two = seq![line, line];
        assert(two =~= one + one);
        let once = run(model, node, one);
        let again = run(model, once.node, one);
        lemma_run_over_one_line(model, node, line);
        lemma_run_over_one_line(model, once.node, line);
        lemma_run_in_two_parts(model, node, one, one);
        assert(once.calls + again.calls =~= once.calls);
        lemma_run_in_two_parts(model, node, one, further);
        lemma_run_in_two_parts(model, node, two, further);
    }
}

/// Ready is final over a run: a node that is ready stays ready under the
/// identifier it has.
pub proof fn lemma_ready_over_a_run<S>(model: HandlerModel<S>, node: Node<S>, lines: Seq<Seq<u8>>)
    ensures
        node.own_id is Some ==> run(model, node, lines).node.own_id == node.own_id,
    decreases lines.len(),
{
    if lines.len() > 0 {
        lemma_ready_over_a_run(model, node, lines.drop_last());
    }
}

/// Without an initialization that succeeds the handler is never given a
/// request: over a run that starts and ends with a node that awaits its
/// initialization, every call on the handler is an `init`.
pub proof fn lemma_no_request_before_init<S>(
    model: HandlerModel<S>,
    node: Node<S>,
    lines: Seq<Seq<u8>>,
)
    ensures
        node.own_id is None && run(model, node, lines).node.own_id is None ==> forall|k: int|
            0 <= k < run(model, node, lines).calls.len() ==> #[trigger] run(
                model,
                node,
                lines,
            ).calls[k] is Init,
    decreases lines.len(),
{
    if lines.len() > 0 && node.own_id is None && run(model, node, lines).node.own_id is None {
        let before = run(model, node, lines.drop_last());
        lemma_no_request_before_init(model, node, lines.drop_last());
        if before.node.own_id is Some {
            lemma_ready_over_a_run(model, before.node, seq![lines.last()]);
            lemma_run_over_one_line(model, before.node, lines.last());
        }
    }
}

/// Over lines of which none is an initialization message, a node that
/// awaits its initialization asks nothing of the handler, leaves it as it
/// was and stays as it is.
pub proof fn lemma_without_init_nothing_is_asked<S>(
    model: HandlerModel<S>,
    node: Node<S>,
    lines: Seq<Seq<u8>>,
)
    ensures
        node.own_id is None && (forall|i: int|
            0 <= i < lines.len() ==> !(decode_spec(#[trigger] lines[i]) matches Ok(request)
                && is_init(request))) ==> run(model, node, lines).calls.len() == 0 && run(
            model,
            node,
            lines,
        ).node == node,
    decreases lines.len(),
{
    if lines.len() > 0 && node.own_id is None && (forall|i: int|
        0 <= i < lines.len() ==> !(decode_spec(#[trigger] lines[i]) matches Ok(request) && is_init(
            request,
        ))) {
        let front = lines.drop_last();
        assert forall|i: int| 0 <= i < front.len() implies !(decode_spec(
            #[trigger] front[i],
        ) matches Ok(request) && is_init(request)) by {
            assert(front[i] == lines[i]);
        }
        lemma_without_init_nothing_is_asked(model, node, front);
        assert(!(decode_spec(lines[lines.len() - 1]) matches Ok(request) && is_init(request)));
    }
}

} // verus!
