//! What a pass relays over a whole stream, and what that implies.
//!
//! The pass itself sees one event at a time. Here a stream is given as a
//! whole, together with a consumer that takes some number of tokens and is
//! then gone, and the pass is run against both.

use crate::accumulator::{ingest_delta, ingest_deltas, CallModel};
use crate::delta::{lemma_no_content_no_text, DeltaModel, FinishReason};
use crate::marker::{has_stop_marker, occurs_at, occurs_in, stop_marker};
use crate::splitter::{
    fresh_pass, pass_step, PassActionModel, PassModel, PassPhase, ResultingModel, StreamEventModel,
    StreamFault, TokenCategory, TokenModel,
};
use vstd::prelude::*;

verus! {

/// The text of a whole stream: the texts of its deltas, joined in order.
pub open spec fn stream_text(deltas: Seq<DeltaModel>) -> Seq<char>
    decreases deltas.len(),
{
    if deltas.len() == 0 {
        Seq::empty()
    } else {
        deltas[0].text() + stream_text(deltas.drop_first())
    }
}

/// The token that carries a delta's text, be it empty; none for a delta in
/// which no choice carries content.
pub open spec fn token_of(category: TokenCategory, delta: DeltaModel) -> Seq<TokenModel> {
    if !delta.has_content() {
        Seq::empty()
    } else {
        seq![TokenModel { token_type: category, tokens: delta.text() }]
    }
}

/// The tokens that the answer part of a stream has for the consumer: the
/// texts of its deltas up to the first one that reports a finish reason.
pub open spec fn answer_script(deltas: Seq<DeltaModel>) -> Seq<TokenModel>
    decreases deltas.len(),
{
    if deltas.len() == 0 {
        Seq::empty()
    } else if deltas[0].finish_reason() is Some {
        Seq::empty()
    } else {
        token_of(TokenCategory::Message, deltas[0]) + answer_script(deltas.drop_first())
    }
}

/// The tokens that a stream has for the consumer: as reasoning, the texts of
/// its deltas before the first one that holds the stop marker; that delta is
/// left out; then the tokens of the answer part.
pub open spec fn relay_script(deltas: Seq<DeltaModel>) -> Seq<TokenModel>
    decreases deltas.len(),
{
    if deltas.len() == 0 {
        Seq::empty()
    } else if deltas[0].ends_thinking() {
        answer_script(deltas.drop_first())
    } else {
        token_of(TokenCategory::ChainOfThought, deltas[0]) + relay_script(deltas.drop_first())
    }
}

/// The answer that some tokens make up: the texts of the answer tokens among
/// them, joined in order.
pub open spec fn answer_of(tokens: Seq<TokenModel>) -> Seq<char>
    decreases tokens.len(),
{
    if tokens.len() == 0 {
        Seq::empty()
    } else if tokens[0].token_type == TokenCategory::Message {
        tokens[0].tokens + answer_of(tokens.drop_first())
    } else {
        answer_of(tokens.drop_first())
    }
}

/// The part of a stream that follows its reasoning segment: the deltas
/// after the first one that holds the stop marker.
pub open spec fn answer_part(deltas: Seq<DeltaModel>) -> Seq<DeltaModel>
    decreases deltas.len(),
{
    if deltas.len() == 0 {
        Seq::empty()
    } else if deltas[0].ends_thinking() {
        deltas.drop_first()
    } else {
        answer_part(deltas.drop_first())
    }
}

/// The finish reason that ends the answer part of a stream: the one of the
/// first delta that reports any.
pub open spec fn finishing(deltas: Seq<DeltaModel>) -> Option<FinishReason>
    decreases deltas.len(),
{
    if deltas.len() == 0 {
        None
    } else if deltas[0].finish_reason() is Some {
        deltas[0].finish_reason()
    } else {
        finishing(deltas.drop_first())
    }
}

/// The deltas of the answer part that a pass reads: all of them up to and
/// including the first one that reports a finish reason.
pub open spec fn until_finish(deltas: Seq<DeltaModel>) -> Seq<DeltaModel>
    decreases deltas.len(),
{
    if deltas.len() == 0 {
        Seq::empty()
    } else if deltas[0].finish_reason() is Some {
        seq![deltas[0]]
    } else {
        seq![deltas[0]] + until_finish(deltas.drop_first())
    }
}

/// How a pass ends over the answer part of a stream when the consumer takes
/// every token: with the calls gathered if the model finishes for tool
/// calls (a protocol violation if there are none), and else with the whole
/// answer.
pub open spec fn settles(action: PassActionModel, answer: Seq<char>, calls: Seq<CallModel>, reason: Option<
    FinishReason,
>) -> bool {
    match action {
        PassActionModel::Complete(ResultingModel::Message(text)) => {
            &&& reason != Some(FinishReason::ToolCalls)
            &&& text == answer
        },
        PassActionModel::Complete(ResultingModel::ToolCalls(gathered)) => {
            &&& reason == Some(FinishReason::ToolCalls)
            &&& gathered == calls
            &&& gathered.len() > 0
        },
        PassActionModel::Abort(fault) => {
            &&& reason == Some(FinishReason::ToolCalls)
            &&& fault == StreamFault::ProtocolViolation
            &&& calls.len() == 0
        },
        _ => false,
    }
}

/// How a pass ends when it is run over a whole stream while the consumer
/// takes `budget` tokens and is gone at the next.
pub open spec fn run_pass(pass: PassModel, deltas: Seq<DeltaModel>, budget: nat) -> PassActionModel
    decreases deltas.len(),
{
    if deltas.len() == 0 {
        pass_step(pass, StreamEventModel::End).1
    } else {
        let (waiting, action) = pass_step(pass, StreamEventModel::Delta(deltas[0]));
        match action {
            PassActionModel::Next => run_pass(waiting, deltas.drop_first(), budget),
            PassActionModel::Relay(_) => if budget > 0 {
                run_pass(
                    pass_step(waiting, StreamEventModel::SendOk).0,
                    deltas.drop_first(),
                    (budget - 1) as nat,
                )
            } else {
                pass_step(waiting, StreamEventModel::SendFailed).1
            },
            ended => ended,
        }
    }
}

/// The text occurs exactly once.
pub open spec fn occurs_once(needle: Seq<char>, hay: Seq<char>) -> bool {
    &&& occurs_in(needle, hay)
    &&& forall|first: int, second: int|
        occurs_at(needle, hay, first) && occurs_at(needle, hay, second) ==> first == second
}

/// The answer of a single token followed by more tokens.
proof fn lemma_answer_of_first(token: TokenModel, rest: Seq<TokenModel>)
    ensures
        answer_of(seq![token] + rest) == if token.token_type == TokenCategory::Message {
            token.tokens + answer_of(rest)
        } else {
            answer_of(rest)
        },
{
    assert((seq![token] + rest).drop_first() =~= rest);
}

/// The first `count` tokens of a script that begins with the token of a
/// delta make up that delta's part of the answer, then the answer of the
/// rest.
proof fn lemma_answer_of_script(category: TokenCategory, delta: DeltaModel, rest: Seq<TokenModel>, count: int)
    requires
        0 <= count <= (token_of(category, delta) + rest).len(),
    ensures
        !delta.has_content() ==> answer_of((token_of(category, delta) + rest).take(count)) == answer_of(
            rest.take(count),
        ),
        delta.has_content() && count > 0 ==> answer_of((token_of(category, delta) + rest).take(count))
            == if category == TokenCategory::Message {
            delta.text() + answer_of(rest.take(count - 1))
        } else {
            answer_of(rest.take(count - 1))
        },
        count == 0 ==> answer_of((token_of(category, delta) + rest).take(count)) == Seq::<char>::empty(),
{
    if !delta.has_content() {
        assert(token_of(category, delta) + rest =~= rest);
    } else if count > 0 {
        let token = TokenModel { token_type: category, tokens: delta.text() };
        assert((token_of(category, delta) + rest).take(count) =~= seq![token] + rest.take(count - 1));
        lemma_answer_of_first(token, rest.take(count - 1));
    }
    if count == 0 {
        assert((token_of(category, delta) + rest).take(count) =~= Seq::<TokenModel>::empty());
    }
}

/// Taking in a stream delta by delta is taking in its first delta and then
/// the others.
proof fn lemma_ingest_deltas_first(calls: Seq<CallModel>, deltas: Seq<DeltaModel>)
    requires
        deltas.len() > 0,
    ensures
        ingest_deltas(calls, deltas) == ingest_deltas(ingest_delta(calls, deltas[0]), deltas.drop_first()),
    decreases deltas.len(),
{
    let first = ingest_delta(calls, deltas[0]);
    if deltas.len() == 1 {
        assert(ingest_deltas(calls, deltas.drop_last()) == calls);
        assert(ingest_deltas(first, deltas.drop_first()) == first);
        assert(deltas.last() == deltas[0]);
    } else {
        let front = deltas.drop_last();
        let back = deltas.drop_first();
        lemma_ingest_deltas_first(calls, front);
        assert(front.drop_first() =~= back.drop_last());
        assert(back.last() == deltas.last());
        assert(front[0] == deltas[0]);
        assert(ingest_deltas(first, back) == ingest_delta(ingest_deltas(first, back.drop_last()), back.last()));
    }
}

/// The deltas that a pass reads of an answer part whose first delta reports
/// no finish reason: that delta, then those it reads of the rest.
proof fn lemma_until_finish_next(calls: Seq<CallModel>, deltas: Seq<DeltaModel>)
    requires
        deltas.len() > 0,
    ensures
        ingest_deltas(calls, until_finish(deltas)) == if deltas[0].finish_reason() is Some {
            ingest_delta(calls, deltas[0])
        } else {
            ingest_deltas(ingest_delta(calls, deltas[0]), until_finish(deltas.drop_first()))
        },
{
    let read = until_finish(deltas);
    lemma_ingest_deltas_first(calls, read);
    if deltas[0].finish_reason() is Some {
        assert(read.drop_first() =~= Seq::<DeltaModel>::empty());
    } else {
        assert(read.drop_first() =~= until_finish(deltas.drop_first()));
    }
}

/// Over the answer part of a stream: a consumer that is gone before all
/// tokens are taken ends the pass with the answer as far as it was taken;
/// a consumer that takes every token lets the pass end with the whole
/// answer, with tool calls, or with a protocol violation.
pub proof fn lemma_answer_run(pass: PassModel, deltas: Seq<DeltaModel>, budget: nat)
    requires
        pass.phase == PassPhase::Answer,
    ensures
        budget < answer_script(deltas).len() ==> (run_pass(pass, deltas, budget) matches PassActionModel::Complete(
            ResultingModel::Disconnected(text),
        ) && text == pass.answer + answer_of(answer_script(deltas).take(budget as int))),
        budget >= answer_script(deltas).len() ==> settles(
            run_pass(pass, deltas, budget),
            pass.answer + answer_of(answer_script(deltas)),
            ingest_deltas(pass.calls, until_finish(deltas)),
            finishing(deltas),
        ),
    decreases deltas.len(),
{
    if deltas.len() == 0 {
        assert(pass.answer + Seq::<char>::empty() =~= pass.answer);
    } else {
        let delta = deltas[0];
        let rest = deltas.drop_first();
        let (waiting, action) = pass_step(pass, StreamEventModel::Delta(delta));
        lemma_until_finish_next(pass.calls, deltas);
        if delta.finish_reason() is Some {
            assert(pass.answer + Seq::<char>::empty() =~= pass.answer);
        } else {
            let script = answer_script(rest);
            assert(answer_script(deltas) == token_of(TokenCategory::Message, delta) + script);
            if !delta.has_content() {
                assert(answer_script(deltas) =~= script);
                lemma_answer_run(waiting, rest, budget);
            } else if budget > 0 {
                let resumed = pass_step(waiting, StreamEventModel::SendOk).0;
                let less = (budget - 1) as nat;
                lemma_answer_run(resumed, rest, less);
                if budget < answer_script(deltas).len() {
                    lemma_answer_of_script(TokenCategory::Message, delta, script, budget as int);
                    assert((pass.answer + delta.text()) + answer_of(script.take(less as int)) =~= pass.answer
                        + (delta.text() + answer_of(script.take(less as int))));
                } else {
                    lemma_answer_of_script(
                        TokenCategory::Message,
                        delta,
                        script,
                        answer_script(deltas).len() as int,
                    );
                    assert(answer_script(deltas).take(answer_script(deltas).len() as int) =~= answer_script(
                        deltas,
                    ));
                    assert(script.take(script.len() as int) =~= script);
                    assert((pass.answer + delta.text()) + answer_of(script) =~= pass.answer + (delta.text()
                        + answer_of(script)));
                }
            } else {
                lemma_answer_of_script(TokenCategory::Message, delta, script, 0);
                assert(pass.answer + Seq::<char>::empty() =~= pass.answer);
            }
        }
    }
}

/// Over a whole stream, from its reasoning segment on: a consumer that is
/// gone before all tokens are taken ends the pass with the answer as far as
/// it was taken; a consumer that takes every token lets the pass end with
/// the whole answer, with tool calls, or with a protocol violation.
pub proof fn lemma_reasoning_run(pass: PassModel, deltas: Seq<DeltaModel>, budget: nat)
    requires
        pass.phase == PassPhase::Reasoning,
    ensures
        budget < relay_script(deltas).len() ==> (run_pass(pass, deltas, budget) matches PassActionModel::Complete(
            ResultingModel::Disconnected(text),
        ) && text == pass.answer + answer_of(relay_script(deltas).take(budget as int))),
        budget >= relay_script(deltas).len() ==> settles(
            run_pass(pass, deltas, budget),
            pass.answer + answer_of(relay_script(deltas)),
            ingest_deltas(pass.calls, until_finish(answer_part(deltas))),
            finishing(answer_part(deltas)),
        ),
    decreases deltas.len(),
{
    if deltas.len() == 0 {
        assert(pass.answer + Seq::<char>::empty() =~= pass.answer);
    } else {
        let delta = deltas[0];
        let rest = deltas.drop_first();
        let (waiting, action) = pass_step(pass, StreamEventModel::Delta(delta));
        if delta.ends_thinking() {
            lemma_answer_run(waiting, rest, budget);
        } else {
            let script = relay_script(rest);
            assert(relay_script(deltas) == token_of(TokenCategory::ChainOfThought, delta) + script);
            if !delta.has_content() {
                assert(relay_script(deltas) =~= script);
                lemma_reasoning_run(waiting, rest, budget);
            } else if budget > 0 {
                let resumed = pass_step(waiting, StreamEventModel::SendOk).0;
                let less = (budget - 1) as nat;
                lemma_reasoning_run(resumed, rest, less);
                if budget < relay_script(deltas).len() {
                    lemma_answer_of_script(TokenCategory::ChainOfThought, delta, script, budget as int);
                } else {
                    lemma_answer_of_script(
                        TokenCategory::ChainOfThought,
                        delta,
                        script,
                        relay_script(deltas).len() as int,
                    );
                    assert(relay_script(deltas).take(relay_script(deltas).len() as int) =~= relay_script(
                        deltas,
                    ));
                    assert(script.take(script.len() as int) =~= script);
                }
            } else {
                lemma_answer_of_script(TokenCategory::ChainOfThought, delta, script, 0);
                assert(pass.answer + Seq::<char>::empty() =~= pass.answer);
            }
        }
    }
}

/// A disconnect truncates and does not fail: if the consumer takes `taken`
/// tokens and the next one cannot be sent, the pass ends, without a fault,
/// with exactly the answer that the tokens taken make up.
pub proof fn lemma_disconnect_truncates(deltas: Seq<DeltaModel>, taken: nat)
    requires
        taken < relay_script(deltas).len(),
    ensures
        run_pass(fresh_pass(), deltas, taken) matches PassActionModel::Complete(
            ResultingModel::Disconnected(text),
        ) && text == answer_of(relay_script(deltas).take(taken as int)),
{
    lemma_reasoning_run(fresh_pass(), deltas, taken);
    assert(Seq::<char>::empty() + answer_of(relay_script(deltas).take(taken as int)) =~= answer_of(
        relay_script(deltas).take(taken as int),
    ));
}

/// With a consumer that takes every token, the pass ends with the answer
/// that all the tokens of the stream make up, with tool calls, or with a
/// protocol violation; never as disconnected.
pub proof fn lemma_patient_consumer(deltas: Seq<DeltaModel>, budget: nat)
    requires
        budget >= relay_script(deltas).len(),
    ensures
        settles(
            run_pass(fresh_pass(), deltas, budget),
            answer_of(relay_script(deltas)),
            ingest_deltas(Seq::empty(), until_finish(answer_part(deltas))),
            finishing(answer_part(deltas)),
        ),
{
    lemma_reasoning_run(fresh_pass(), deltas, budget);
    assert(Seq::<char>::empty() + answer_of(relay_script(deltas)) =~= answer_of(relay_script(deltas)));
}

/// The text occurs at most once.
pub open spec fn occurs_at_most_once(needle: Seq<char>, hay: Seq<char>) -> bool {
    forall|first: int, second: int|
        occurs_at(needle, hay, first) && occurs_at(needle, hay, second) ==> first == second
}

/// A text that occurs in the middle part of a longer text occurs in the
/// longer text, further along by the length of what stands before.
proof fn lemma_occurs_shifted(needle: Seq<char>, before: Seq<char>, middle: Seq<char>, after: Seq<char>, at: int)
    requires
        occurs_at(needle, middle, at),
    ensures
        occurs_at(needle, before + middle + after, before.len() + at),
{
    let whole = before + middle + after;
    assert(whole.subrange(before.len() + at, before.len() + at + needle.len()) =~= middle.subrange(
        at,
        at + needle.len(),
    ));
}

/// The text of a stream is the text of its first deltas followed by the
/// text of the others.
proof fn lemma_stream_text_split(deltas: Seq<DeltaModel>, upto: int)
    requires
        0 <= upto <= deltas.len(),
    ensures
        stream_text(deltas) == stream_text(deltas.take(upto)) + stream_text(deltas.skip(upto)),
    decreases upto,
{
    if upto == 0 {
        assert(deltas.skip(0) =~= deltas);
        assert(deltas.take(0) =~= Seq::<DeltaModel>::empty());
        assert(Seq::<char>::empty() + stream_text(deltas) =~= stream_text(deltas));
    } else {
        let rest = deltas.drop_first();
        lemma_stream_text_split(rest, upto - 1);
        assert(deltas.take(upto).drop_first() =~= rest.take(upto - 1));
        assert(deltas.skip(upto) =~= rest.skip(upto - 1));
        assert(deltas.take(upto)[0] == deltas[0]);
        assert(deltas[0].text() + (stream_text(rest.take(upto - 1)) + stream_text(rest.skip(upto - 1))) =~= (
        deltas[0].text() + stream_text(rest.take(upto - 1))) + stream_text(rest.skip(upto - 1)));
    }
}

/// Whatever part of the answer tokens the consumer takes, the answer they
/// make up is the text of the first so many deltas of the answer part.
proof fn lemma_answer_is_prefix(deltas: Seq<DeltaModel>, count: int) -> (upto: int)
    requires
        0 <= count <= answer_script(deltas).len(),
    ensures
        0 <= upto <= deltas.len(),
        answer_of(answer_script(deltas).take(count)) == stream_text(deltas.take(upto)),
    decreases deltas.len(),
{
    if deltas.len() == 0 || deltas[0].finish_reason() is Some || count == 0 {
        assert(answer_script(deltas).take(count) =~= Seq::<TokenModel>::empty());
        assert(deltas.take(0) =~= Seq::<DeltaModel>::empty());
        0
    } else {
        let delta = deltas[0];
        let rest = deltas.drop_first();
        let script = answer_script(rest);
        lemma_answer_of_script(TokenCategory::Message, delta, script, count);
        let inner = if !delta.has_content() {
            assert(answer_script(deltas) =~= script);
            lemma_answer_is_prefix(rest, count)
        } else {
            lemma_answer_is_prefix(rest, count - 1)
        };
        assert(deltas.take(inner + 1).drop_first() =~= rest.take(inner));
        assert(deltas.take(inner + 1)[0] == delta);
        if !delta.has_content() {
            lemma_no_content_no_text(delta.choices);
            assert(delta.text() + stream_text(rest.take(inner)) =~= stream_text(rest.take(inner)));
        }
        inner + 1
    }
}

/// The stop marker has eight characters, so it occurs in no shorter text.
proof fn lemma_marker_needs_room(hay: Seq<char>, at: int)
    requires
        occurs_at(stop_marker(), hay, at),
    ensures
        0 <= at,
        at + 8 <= hay.len(),
{
    assert(stop_marker().len() == 8);
}

/// The stop marker is never relayed as part of the answer: in a stream
/// whose text holds the marker at most once, whatever part of the tokens the
/// consumer takes, the answer they make up does not hold the marker.
pub proof fn lemma_marker_excluded(deltas: Seq<DeltaModel>, count: int)
    requires
        occurs_at_most_once(stop_marker(), stream_text(deltas)),
        0 <= count <= relay_script(deltas).len(),
    ensures
        !has_stop_marker(answer_of(relay_script(deltas).take(count))),
    decreases deltas.len(),
{
    let marker = stop_marker();
    let answer = answer_of(relay_script(deltas).take(count));
    if deltas.len() == 0 || count == 0 {
        assert(relay_script(deltas).take(count) =~= Seq::<TokenModel>::empty());
        if has_stop_marker(answer) {
            let at = choose|at: int| occurs_at(marker, answer, at);
            lemma_marker_needs_room(answer, at);
        }
    } else {
        let delta = deltas[0];
        let rest = deltas.drop_first();
        let whole = stream_text(deltas);
        if delta.ends_thinking() {
            let upto = lemma_answer_is_prefix(rest, count);
            lemma_stream_text_split(rest, upto);
            let tail = stream_text(rest.skip(upto));
            if has_stop_marker(answer) {
                let inside = choose|at: int| occurs_at(marker, delta.text(), at);
                let later = choose|at: int| occurs_at(marker, answer, at);
                lemma_marker_needs_room(delta.text(), inside);
                lemma_marker_needs_room(answer, later);
                lemma_occurs_shifted(marker, Seq::empty(), delta.text(), stream_text(rest), inside);
                assert(Seq::<char>::empty() + delta.text() + stream_text(rest) =~= whole);
                lemma_occurs_shifted(marker, delta.text(), answer, tail, later);
                assert(delta.text() + answer + tail =~= whole);
                assert(occurs_at(marker, whole, inside));
                assert(occurs_at(marker, whole, delta.text().len() + later));
                assert(false);
            }
        } else {
            let script = relay_script(rest);
            lemma_answer_of_script(TokenCategory::ChainOfThought, delta, script, count);
            assert forall|first: int, second: int|
                occurs_at(marker, stream_text(rest), first) && occurs_at(
                    marker,
                    stream_text(rest),
                    second,
                ) implies first == second by {
                lemma_occurs_shifted(marker, delta.text(), stream_text(rest), Seq::empty(), first);
                lemma_occurs_shifted(marker, delta.text(), stream_text(rest), Seq::empty(), second);
                assert(delta.text() + stream_text(rest) + Seq::<char>::empty() =~= whole);
                assert(occurs_at(marker, whole, delta.text().len() + first));
                assert(occurs_at(marker, whole, delta.text().len() + second));
            }
            if !delta.has_content() {
                assert(relay_script(deltas) =~= script);
                lemma_marker_excluded(rest, count);
            } else {
                lemma_marker_excluded(rest, count - 1);
            }
        }
    }
}

/// The stop marker never reaches the answer: over a stream whose text holds
/// the marker once, however many tokens the consumer takes, the text that
/// the pass ends with does not hold the marker.
pub proof fn lemma_marker_never_in_answer(deltas: Seq<DeltaModel>, budget: nat)
    requires
        occurs_once(stop_marker(), stream_text(deltas)),
    ensures
        match run_pass(fresh_pass(), deltas, budget) {
            PassActionModel::Complete(ResultingModel::Message(text)) => !has_stop_marker(text),
            PassActionModel::Complete(ResultingModel::Disconnected(text)) => !has_stop_marker(text),
            _ => true,
        },
{
    let script = relay_script(deltas);
    if budget < script.len() {
        lemma_disconnect_truncates(deltas, budget);
        lemma_marker_excluded(deltas, budget as int);
    } else {
        lemma_patient_consumer(deltas, budget);
        lemma_marker_excluded(deltas, script.len() as int);
        assert(script.take(script.len() as int) =~= script);
    }
}

/// One token for each delta: where every delta of the answer part carries
/// content, be it empty, and none reports a finish reason, the answer part
/// has exactly one answer token for each delta, in the order of arrival,
/// each with the text of its delta; the answer they make up is the text of
/// the deltas, joined.
pub proof fn lemma_one_token_per_delta(deltas: Seq<DeltaModel>)
    requires
        forall|i: int|
            0 <= i < deltas.len() ==> (#[trigger] deltas[i]).has_content() && deltas[i].finish_reason() is None,
    ensures
        answer_script(deltas).len() == deltas.len(),
        forall|i: int|
            0 <= i < deltas.len() ==> #[trigger] answer_script(deltas)[i] == (TokenModel {
                token_type: TokenCategory::Message,
                tokens: deltas[i].text(),
            }),
        answer_of(answer_script(deltas)) == stream_text(deltas),
    decreases deltas.len(),
{
    if deltas.len() > 0 {
        let rest = deltas.drop_first();
        let token = TokenModel { token_type: TokenCategory::Message, tokens: deltas[0].text() };
        assert forall|i: int| 0 <= i < rest.len() implies (#[trigger] rest[i]).has_content()
            && rest[i].finish_reason() is None by {
            assert(rest[i] == deltas[i + 1]);
        }
        lemma_one_token_per_delta(rest);
        assert(deltas[0].has_content() && deltas[0].finish_reason() is None);
        assert(answer_script(deltas) == seq![token] + answer_script(rest));
        assert forall|i: int| 0 <= i < deltas.len() implies #[trigger] answer_script(deltas)[i] == (TokenModel {
            token_type: TokenCategory::Message,
            tokens: deltas[i].text(),
        }) by {
            if i > 0 {
                assert(answer_script(deltas)[i] == answer_script(rest)[i - 1]);
                assert(rest[i - 1] == deltas[i]);
            }
        }
        lemma_answer_of_first(token, answer_script(rest));
    }
}

} // verus!
