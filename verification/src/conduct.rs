//! What holds of every turn: the states it can be in, and how it conducts
//! itself over a whole stream.

use crate::accumulator::{ingest_delta, ingest_deltas, keys_distinct, lemma_ingest_choices};
use crate::delta::{DeltaModel, FinishReason};
use crate::dispatch::{
    answers, first_failure, first_unknown, is_failure, is_unknown, result_message, ResultModel,
};
use crate::marker::{has_stop_marker, stop_marker};
use crate::relay::{
    answer_of, answer_part, finishing, lemma_disconnect_truncates, lemma_marker_never_in_answer,
    lemma_patient_consumer, occurs_once, relay_script, run_pass, stream_text, until_finish,
};
use crate::request::{Bot, MessageModel, StoredModel};
use crate::splitter::{
    closed_pass, pass_step, PassActionModel, PassModel, PassPhase, ResultingModel, StreamEventModel,
};
use crate::text::lemma_first_index;
use crate::tools::Tool;
use crate::turn::{
    halted, opening_turn, settle, tool_names, turn_step, ActionModel, EventModel, OutcomeModel, TurnErrorModel,
    TurnModel, TurnStage,
};
use vstd::prelude::*;

verus! {

/// What holds of a pass at every moment: its calls have distinct keys, it
/// holds neither answer nor calls before the reasoning has ended, and it
/// holds nothing once it is over.
pub open spec fn pass_well_formed(pass: PassModel) -> bool {
    &&& keys_distinct(pass.calls)
    &&& (pass.phase == PassPhase::Reasoning || pass.phase == PassPhase::ReasoningRelay) ==> pass.answer.len()
        == 0 && pass.calls.len() == 0
    &&& pass.phase == PassPhase::Closed ==> pass == closed_pass()
}

/// What holds of a turn at every moment.
pub open spec fn well_formed(turn: TurnModel) -> bool {
    &&& pass_well_formed(turn.pass)
    &&& turn.follow_up matches Some(request) ==> request.tools is None
    &&& match turn.stage {
        TurnStage::Stream1 => {
            &&& turn.follow_up is Some
            &&& turn.calls.len() == 0
            &&& turn.pass.phase != PassPhase::Closed
        },
        TurnStage::ToolExec => {
            &&& turn.follow_up is Some
            &&& turn.calls.len() > 0
            &&& keys_distinct(turn.calls)
            &&& forall|i: int| 0 <= i < turn.calls.len() ==> turn.names.contains((#[trigger] turn.calls[i]).name)
            &&& turn.pass == closed_pass()
        },
        TurnStage::Stream2 => {
            &&& turn.follow_up is None
            &&& turn.calls.len() == 0
            &&& turn.pass.phase != PassPhase::Closed
        },
        TurnStage::Done | TurnStage::Failed => turn == halted(turn, turn.stage),
    }
}

/// A turn begins well formed.
pub proof fn lemma_opening_well_formed<T: Tool>(bot: Bot<T>, previous: Seq<StoredModel>, new_message: Seq<char>)
    ensures
        well_formed(opening_turn(bot, previous, new_message)),
{
}

/// A pass stays well formed, whatever it is told.
pub proof fn lemma_pass_stays_well_formed(pass: PassModel, event: StreamEventModel)
    requires
        pass_well_formed(pass),
    ensures
        pass_well_formed(pass_step(pass, event).0),
        pass_step(pass, event).1 matches PassActionModel::Complete(ResultingModel::ToolCalls(calls))
            ==> calls.len() > 0 && keys_distinct(calls),
        (pass_step(pass, event).1 is Next || pass_step(pass, event).1 is Relay) ==> pass_step(
            pass,
            event,
        ).0.phase != PassPhase::Closed,
        (pass_step(pass, event).1 is Complete || pass_step(pass, event).1 is Abort) ==> pass_step(
            pass,
            event,
        ).0 == closed_pass(),
{
    match event {
        StreamEventModel::Delta(delta) => {
            lemma_ingest_choices(pass.calls, delta.choices);
        },
        _ => {},
    }
}

/// A turn stays well formed, whatever it is told.
pub proof fn lemma_turn_stays_well_formed(turn: TurnModel, event: EventModel)
    requires
        well_formed(turn),
    ensures
        well_formed(turn_step(turn, event).0),
{
    match turn.stage {
        TurnStage::Stream1 | TurnStage::Stream2 => {
            let told = match event {
                EventModel::Delta(delta) => Some(StreamEventModel::Delta(delta)),
                EventModel::EndOfStream => Some(StreamEventModel::End),
                EventModel::SendOk => Some(StreamEventModel::SendOk),
                EventModel::SendFailed => Some(StreamEventModel::SendFailed),
                _ => None,
            };
            if let Some(told) = told {
                lemma_pass_stays_well_formed(turn.pass, told);
                let (pass, action) = pass_step(turn.pass, told);
                if let PassActionModel::Complete(ResultingModel::ToolCalls(calls)) = action {
                    lemma_first_index(calls, is_unknown(turn.names));
                    if turn.stage == TurnStage::Stream1 && first_unknown(calls, turn.names) >= calls.len() {
                        assert forall|i: int| 0 <= i < calls.len() implies turn.names.contains(
                            (#[trigger] calls[i]).name,
                        ) by {
                            assert(!is_unknown(turn.names)(calls[i]));
                        }
                    }
                }
            }
        },
        _ => {},
    }
}

/// Tool round message ordering: when all the tools have answered, the
/// request of the second pass is the stored request, without tools,
/// followed by exactly one assistant message that carries all the calls and
/// then exactly one tool message for each call, in the order of the calls,
/// each under the id of its call.
pub proof fn lemma_tool_round_ordering(turn: TurnModel, results: Seq<ResultModel>)
    requires
        well_formed(turn),
        turn.stage == TurnStage::ToolExec,
        answers(results, turn.calls),
        forall|i: int| 0 <= i < results.len() ==> (#[trigger] results[i]) is Payload,
    ensures
        turn_step(turn, EventModel::ToolsFinished(results)).0.stage == TurnStage::Stream2,
        turn_step(turn, EventModel::ToolsFinished(results)).1 matches ActionModel::OpenStream(request) && {
            let stored = turn.follow_up->0.messages;
            let count = turn.calls.len();
            &&& request.tools is None
            &&& request.messages.len() == stored.len() + 1 + count
            &&& request.messages.take(stored.len() as int) == stored
            &&& request.messages[stored.len() as int] == (MessageModel::Assistant {
                content: None,
                tool_calls: Some(turn.calls),
            })
            &&& forall|i: int|
                0 <= i < count ==> #[trigger] request.messages[stored.len() + 1 + i] == (MessageModel::Tool {
                    content: results[i]->text,
                    tool_call_id: turn.calls[i].id,
                })
        },
{
    lemma_first_index(results, is_failure());
    let at = first_failure(results);
    if at < results.len() {
        assert(results[at] is Payload);
    }
    let request = turn_step(turn, EventModel::ToolsFinished(results)).1->OpenStream_0;
    let stored = turn.follow_up->0.messages;
    assert(request.messages.take(stored.len() as int) =~= stored);
    assert forall|i: int| 0 <= i < turn.calls.len() implies #[trigger] request.messages[stored.len() + 1 + i]
        == (MessageModel::Tool { content: results[i]->text, tool_call_id: turn.calls[i].id }) by {
        assert(results[i] is Payload);
        assert(results[i].id() == turn.calls[i].id);
        assert(request.messages[stored.len() + 1 + i] == result_message(results[i]));
    }
}

/// Protocol-violation detection: a delta of the answer that reports tool
/// calls as the finish reason while no call has been gathered fails the
/// turn with a protocol violation; the turn does not finish with a text.
pub proof fn lemma_tool_calls_without_calls(turn: TurnModel, delta: DeltaModel)
    requires
        turn.stage == TurnStage::Stream1 || turn.stage == TurnStage::Stream2,
        turn.pass.phase == PassPhase::Answer,
        delta.finish_reason() == Some(FinishReason::ToolCalls),
        ingest_delta(turn.pass.calls, delta).len() == 0,
    ensures
        turn_step(turn, EventModel::Delta(delta)).1 == ActionModel::Fail(TurnErrorModel::ProtocolViolation),
        turn_step(turn, EventModel::Delta(delta)).0 == halted(turn, TurnStage::Failed),
{
}

/// A consumer that is gone ends the turn with the answer as far as it was
/// taken; the turn does not fail.
pub proof fn lemma_send_failure_finishes(turn: TurnModel)
    requires
        turn.stage == TurnStage::Stream1 || turn.stage == TurnStage::Stream2,
        turn.pass.phase == PassPhase::ReasoningRelay || turn.pass.phase == PassPhase::AnswerRelay,
    ensures
        turn_step(turn, EventModel::SendFailed).1 == ActionModel::Finish(
            OutcomeModel { text: turn.pass.answer, tool_assisted: turn.stage == TurnStage::Stream2 },
        ),
        turn_step(turn, EventModel::SendFailed).0 == halted(turn, TurnStage::Done),
{
}

/// How a turn ends a pass when the stream is given as a whole and the
/// consumer takes `budget` tokens and is gone at the next.
pub open spec fn run_stream(turn: TurnModel, deltas: Seq<DeltaModel>, budget: nat) -> (TurnModel, ActionModel)
    decreases deltas.len(),
{
    if deltas.len() == 0 {
        turn_step(turn, EventModel::EndOfStream)
    } else {
        let (waiting, action) = turn_step(turn, EventModel::Delta(deltas[0]));
        match action {
            ActionModel::NextDelta => run_stream(waiting, deltas.drop_first(), budget),
            ActionModel::Send(_) => if budget > 0 {
                run_stream(
                    turn_step(waiting, EventModel::SendOk).0,
                    deltas.drop_first(),
                    (budget - 1) as nat,
                )
            } else {
                turn_step(waiting, EventModel::SendFailed)
            },
            _ => (waiting, action),
        }
    }
}

/// Over a whole stream a turn does what its pass comes to.
pub proof fn lemma_run_stream(turn: TurnModel, deltas: Seq<DeltaModel>, budget: nat)
    requires
        turn.stage == TurnStage::Stream1 || turn.stage == TurnStage::Stream2,
        turn.pass.phase == PassPhase::Reasoning || turn.pass.phase == PassPhase::Answer,
    ensures
        run_pass(turn.pass, deltas, budget) is Complete || run_pass(turn.pass, deltas, budget) is Abort,
        run_stream(turn, deltas, budget).1 == settle(
            turn,
            closed_pass(),
            run_pass(turn.pass, deltas, budget),
        ).1,
    decreases deltas.len(),
{
    if deltas.len() > 0 {
        let rest = deltas.drop_first();
        let (pass, wanted) = pass_step(turn.pass, StreamEventModel::Delta(deltas[0]));
        let (waiting, action) = turn_step(turn, EventModel::Delta(deltas[0]));
        match wanted {
            PassActionModel::Next => {
                lemma_run_stream(waiting, rest, budget);
            },
            PassActionModel::Relay(_) => {
                if budget > 0 {
                    lemma_run_stream(turn_step(waiting, EventModel::SendOk).0, rest, (budget - 1) as nat);
                }
            },
            _ => {},
        }
    }
}

/// Disconnect truncates, not fails: if the consumer of a beginning turn
/// takes `taken` tokens and the next one cannot be sent, the turn finishes,
/// without an error, with exactly the answer that the tokens taken make up.
pub proof fn lemma_turn_disconnect<T: Tool>(
    bot: Bot<T>,
    previous: Seq<StoredModel>,
    new_message: Seq<char>,
    deltas: Seq<DeltaModel>,
    taken: nat,
)
    requires
        taken < relay_script(deltas).len(),
    ensures
        run_stream(opening_turn(bot, previous, new_message), deltas, taken).1 matches ActionModel::Finish(
            outcome,
        ) && outcome.text == answer_of(relay_script(deltas).take(taken as int)) && !outcome.tool_assisted,
{
    let turn = opening_turn(bot, previous, new_message);
    lemma_run_stream(turn, deltas, taken);
    lemma_disconnect_truncates(deltas, taken);
}

/// Phase marker exclusion: over a stream whose text holds the stop marker
/// once, however many tokens the consumer takes, a turn that finishes its
/// first pass with an answer finishes with one that does not hold the
/// marker.
pub proof fn lemma_turn_excludes_marker<T: Tool>(
    bot: Bot<T>,
    previous: Seq<StoredModel>,
    new_message: Seq<char>,
    deltas: Seq<DeltaModel>,
    budget: nat,
)
    requires
        occurs_once(stop_marker(), stream_text(deltas)),
    ensures
        run_stream(opening_turn(bot, previous, new_message), deltas, budget).1 matches ActionModel::Finish(
            outcome,
        ) ==> !has_stop_marker(outcome.text),
{
    let turn = opening_turn(bot, previous, new_message);
    lemma_run_stream(turn, deltas, budget);
    lemma_marker_never_in_answer(deltas, budget);
}

/// Protocol-violation detection over a whole stream: if the consumer takes
/// every token and the answer part of the stream finishes for tool calls
/// without having named any, the turn fails with a protocol violation.
pub proof fn lemma_turn_detects_violation<T: Tool>(
    bot: Bot<T>,
    previous: Seq<StoredModel>,
    new_message: Seq<char>,
    deltas: Seq<DeltaModel>,
    budget: nat,
)
    requires
        budget >= relay_script(deltas).len(),
        finishing(answer_part(deltas)) == Some(FinishReason::ToolCalls),
        ingest_deltas(Seq::empty(), until_finish(answer_part(deltas))).len() == 0,
    ensures
        run_stream(opening_turn(bot, previous, new_message), deltas, budget).1 == ActionModel::Fail(
            TurnErrorModel::ProtocolViolation,
        ),
{
    let turn = opening_turn(bot, previous, new_message);
    lemma_run_stream(turn, deltas, budget);
    lemma_patient_consumer(deltas, budget);
}

/// Dispatch over a whole stream: if the consumer takes every token and the
/// answer part of the stream finishes for tool calls, the turn asks for
/// exactly the calls that the fragments of the answer part make up, in the
/// order of their first fragments; unless one of them names a tool that is
/// not registered, in which case the turn fails with the name of the first
/// such call.
pub proof fn lemma_turn_dispatches<T: Tool>(
    bot: Bot<T>,
    previous: Seq<StoredModel>,
    new_message: Seq<char>,
    deltas: Seq<DeltaModel>,
    budget: nat,
)
    requires
        budget >= relay_script(deltas).len(),
        finishing(answer_part(deltas)) == Some(FinishReason::ToolCalls),
        ingest_deltas(Seq::empty(), until_finish(answer_part(deltas))).len() > 0,
    ensures
        ({
            let calls = ingest_deltas(Seq::empty(), until_finish(answer_part(deltas)));
            let at = first_unknown(calls, tool_names(bot.tools));
            let action = run_stream(opening_turn(bot, previous, new_message), deltas, budget).1;
            if at < calls.len() {
                action == ActionModel::Fail(TurnErrorModel::ToolNotFound { name: calls[at].name })
            } else {
                action matches ActionModel::InvokeTools(wanted) && wanted == calls
            }
        }),
{
    let turn = opening_turn(bot, previous, new_message);
    lemma_run_stream(turn, deltas, budget);
    lemma_patient_consumer(deltas, budget);
}

} // verus!
