//! Reassembling tool calls from the fragments of a stream.
//!
//! A call is identified by the choice it belongs to and its position among
//! that choice's calls. The first fragment of a call fixes its id and name;
//! every fragment appends to its arguments.

use crate::delta::{ChoiceModel, DeltaModel, FragmentModel, StreamDelta, ToolCallFragment};
use crate::text::{chars_or_empty, lemma_views_take_next, views};
use vstd::prelude::*;

verus! {

/// A tool call as far as the stream has delivered it.
#[derive(Clone, Debug, PartialEq, Eq)]
pub struct AccumulatedToolCall {
    pub choice_index: u32,
    pub call_index: u32,
    pub id: String,
    pub name: String,
    pub arguments: String,
}

/// The mathematical value of an `AccumulatedToolCall`.
pub struct CallModel {
    pub choice_index: u32,
    pub call_index: u32,
    pub id: Seq<char>,
    pub name: Seq<char>,
    pub arguments: Seq<char>,
}

impl View for AccumulatedToolCall {
    type V = CallModel;

    open spec fn view(&self) -> CallModel {
        CallModel {
            choice_index: self.choice_index,
            call_index: self.call_index,
            id: self.id@,
            name: self.name@,
            arguments: self.arguments@,
        }
    }
}

impl AccumulatedToolCall {
    /// A copy of the call.
    pub fn duplicate(&self) -> (copy: AccumulatedToolCall)
        ensures
            copy@ == self@,
    {
        AccumulatedToolCall {
            choice_index: self.choice_index,
            call_index: self.call_index,
            id: self.id.clone(),
            name: self.name.clone(),
            arguments: self.arguments.clone(),
        }
    }
}

/// A copy of a list of calls.
pub fn duplicate_calls(calls: &Vec<AccumulatedToolCall>) -> (copy: Vec<AccumulatedToolCall>)
    ensures
        views(copy@) == views(calls@),
{
    let mut copy: Vec<AccumulatedToolCall> = Vec::new();
    let mut i: usize = 0;
    while i < calls.len()
        invariant
            i <= calls.len(),
            views(copy@) == views(calls@.take(i as int)),
        decreases calls.len() - i,
    {
        proof {
            lemma_views_take_next(calls@, i as int);
        }
        let ghost before = copy@;
        copy.push(calls[i].duplicate());
        assert(views(copy@) =~= views(before).push(calls@[i as int]@));
        i += 1;
    }
    assert(calls@.take(i as int) =~= calls@);
    copy
}

/// The characters of the id given to a call whose first fragment has none.
pub open spec fn placeholder_id() -> Seq<char> {
    seq!['1', '2', '3']
}

/// Whether a call has the given key.
pub open spec fn has_key(call: CallModel, choice: u32, index: u32) -> bool {
    call.choice_index == choice && call.call_index == index
}

/// The position of the first call with the given key, or the number of calls
/// if there is none.
pub open spec fn position(calls: Seq<CallModel>, choice: u32, index: u32) -> int
    decreases calls.len(),
{
    if calls.len() == 0 {
        0
    } else if has_key(calls[0], choice, index) {
        0
    } else {
        1 + position(calls.drop_first(), choice, index)
    }
}

/// Whether some call has the given key.
pub open spec fn holds_key(calls: Seq<CallModel>, choice: u32, index: u32) -> bool {
    position(calls, choice, index) < calls.len()
}

/// No two calls have the same key.
pub open spec fn keys_distinct(calls: Seq<CallModel>) -> bool {
    forall|i: int, j: int|
        0 <= i < j < calls.len() ==> !has_key(#[trigger] calls[i], (#[trigger] calls[j]).choice_index, calls[j].call_index)
}

/// The call that a first fragment opens.
pub open spec fn opened_by(choice: u32, fragment: FragmentModel) -> CallModel {
    CallModel {
        choice_index: choice,
        call_index: fragment.index,
        id: match fragment.id {
            Some(id) => id,
            None => placeholder_id(),
        },
        name: chars_or_empty(fragment.name),
        arguments: chars_or_empty(fragment.arguments),
    }
}

/// A call after a later fragment: only the arguments grow.
pub open spec fn extended_by(call: CallModel, fragment: FragmentModel) -> CallModel {
    CallModel { arguments: call.arguments + chars_or_empty(fragment.arguments), ..call }
}

/// The calls after one fragment of the given choice has been taken in.
pub open spec fn ingest_fragment(calls: Seq<CallModel>, choice: u32, fragment: FragmentModel) -> Seq<
    CallModel,
> {
    let at = position(calls, choice, fragment.index);
    if at < calls.len() {
        calls.update(at, extended_by(calls[at], fragment))
    } else {
        calls.push(opened_by(choice, fragment))
    }
}

/// The calls after some fragments of one choice have been taken in, in order.
pub open spec fn ingest_fragments(calls: Seq<CallModel>, choice: u32, fragments: Seq<FragmentModel>) -> Seq<
    CallModel,
>
    decreases fragments.len(),
{
    if fragments.len() == 0 {
        calls
    } else {
        ingest_fragment(ingest_fragments(calls, choice, fragments.drop_last()), choice, fragments.last())
    }
}

/// The calls after the fragments of one choice have been taken in.
pub open spec fn ingest_choice(calls: Seq<CallModel>, choice: ChoiceModel) -> Seq<CallModel> {
    match choice.tool_calls {
        Some(fragments) => ingest_fragments(calls, choice.index, fragments),
        None => calls,
    }
}

/// The calls after the fragments of some choices have been taken in, in order.
pub open spec fn ingest_choices(calls: Seq<CallModel>, choices: Seq<ChoiceModel>) -> Seq<CallModel>
    decreases choices.len(),
{
    if choices.len() == 0 {
        calls
    } else {
        ingest_choice(ingest_choices(calls, choices.drop_last()), choices.last())
    }
}

/// The calls after all the fragments of a delta have been taken in.
pub open spec fn ingest_delta(calls: Seq<CallModel>, delta: DeltaModel) -> Seq<CallModel> {
    ingest_choices(calls, delta.choices)
}

/// The arguments gathered so far for a key; empty where no call has the key.
pub open spec fn arguments_of(calls: Seq<CallModel>, choice: u32, index: u32) -> Seq<char> {
    let at = position(calls, choice, index);
    if at < calls.len() {
        calls[at].arguments
    } else {
        Seq::empty()
    }
}

/// The argument texts of some fragments, joined in order.
pub open spec fn joined_arguments(fragments: Seq<FragmentModel>) -> Seq<char>
    decreases fragments.len(),
{
    if fragments.len() == 0 {
        Seq::empty()
    } else {
        joined_arguments(fragments.drop_last()) + chars_or_empty(fragments.last().arguments)
    }
}

/// What `position` finds: the first call with the key, or the end.
pub proof fn lemma_position(calls: Seq<CallModel>, choice: u32, index: u32)
    ensures
        0 <= position(calls, choice, index) <= calls.len(),
        forall|j: int|
            0 <= j < position(calls, choice, index) ==> !has_key(#[trigger] calls[j], choice, index),
        position(calls, choice, index) < calls.len() ==> has_key(
            calls[position(calls, choice, index)],
            choice,
            index,
        ),
    decreases calls.len(),
{
    if calls.len() == 0 {
    } else if has_key(calls[0], choice, index) {
    } else {
        let rest = calls.drop_first();
        lemma_position(rest, choice, index);
        assert forall|j: int| 0 <= j < position(calls, choice, index) implies !has_key(
            #[trigger] calls[j],
            choice,
            index,
        ) by {
            if j > 0 {
                assert(calls[j] == rest[j - 1]);
            }
        }
        if position(calls, choice, index) < calls.len() {
            assert(calls[position(calls, choice, index)] == rest[position(rest, choice, index)]);
        }
    }
}

/// A place with no call of the key before it, which holds one or is the end,
/// is the place that `position` finds.
pub proof fn lemma_position_is(calls: Seq<CallModel>, choice: u32, index: u32, at: int)
    requires
        0 <= at <= calls.len(),
        forall|j: int| 0 <= j < at ==> !has_key(#[trigger] calls[j], choice, index),
        at < calls.len() ==> has_key(calls[at], choice, index),
    ensures
        position(calls, choice, index) == at,
{
    lemma_position(calls, choice, index);
    let found = position(calls, choice, index);
    if found < at {
        assert(!has_key(calls[found], choice, index));
    } else if at < found {
        assert(!has_key(calls[at], choice, index));
    }
}

/// Taking in a fragment keeps the keys distinct, keeps every call that was
/// there at its place with its key, id and name, and adds at most one call.
pub proof fn lemma_ingest_fragment(calls: Seq<CallModel>, choice: u32, fragment: FragmentModel)
    requires
        keys_distinct(calls),
    ensures
        keys_distinct(ingest_fragment(calls, choice, fragment)),
        calls.len() <= ingest_fragment(calls, choice, fragment).len() <= calls.len() + 1,
        holds_key(ingest_fragment(calls, choice, fragment), choice, fragment.index),
        forall|i: int|
            0 <= i < calls.len() ==> {
                let after = #[trigger] ingest_fragment(calls, choice, fragment)[i];
                &&& after.choice_index == calls[i].choice_index
                &&& after.call_index == calls[i].call_index
                &&& after.id == calls[i].id
                &&& after.name == calls[i].name
            },
{
    lemma_position(calls, choice, fragment.index);
    let at = position(calls, choice, fragment.index);
    let after = ingest_fragment(calls, choice, fragment);
    if at < calls.len() {
        assert forall|i: int, j: int| 0 <= i < j < after.len() implies !has_key(
            #[trigger] after[i],
            (#[trigger] after[j]).choice_index,
            after[j].call_index,
        ) by {
            assert(!has_key(calls[i], calls[j].choice_index, calls[j].call_index));
        }
        lemma_position_is(after, choice, fragment.index, at);
    } else {
        assert forall|i: int, j: int| 0 <= i < j < after.len() implies !has_key(
            #[trigger] after[i],
            (#[trigger] after[j]).choice_index,
            after[j].call_index,
        ) by {
            if j < calls.len() {
                assert(!has_key(calls[i], calls[j].choice_index, calls[j].call_index));
            } else {
                assert(!has_key(calls[i], choice, fragment.index));
            }
        }
        lemma_position_is(after, choice, fragment.index, at);
    }
}

/// One fragment appends its arguments to the call of its own key and leaves
/// the arguments gathered for every other key as they were.
pub proof fn lemma_ingest_fragment_arguments(
    calls: Seq<CallModel>,
    choice: u32,
    fragment: FragmentModel,
    other_choice: u32,
    other_index: u32,
)
    requires
        keys_distinct(calls),
    ensures
        arguments_of(ingest_fragment(calls, choice, fragment), other_choice, other_index) == if other_choice
            == choice && other_index == fragment.index {
            arguments_of(calls, choice, fragment.index) + chars_or_empty(fragment.arguments)
        } else {
            arguments_of(calls, other_choice, other_index)
        },
        holds_key(ingest_fragment(calls, choice, fragment), other_choice, other_index) == (holds_key(
            calls,
            other_choice,
            other_index,
        ) || (other_choice == choice && other_index == fragment.index)),
{
    lemma_position(calls, choice, fragment.index);
    lemma_position(calls, other_choice, other_index);
    let at = position(calls, choice, fragment.index);
    let other_at = position(calls, other_choice, other_index);
    let after = ingest_fragment(calls, choice, fragment);
    if other_choice == choice && other_index == fragment.index {
        lemma_position_is(after, choice, fragment.index, at);
        if at >= calls.len() {
            assert(Seq::<char>::empty() + chars_or_empty(fragment.arguments) =~= chars_or_empty(
                fragment.arguments,
            ));
        }
    } else {
        if other_at < calls.len() {
            assert forall|j: int| 0 <= j < other_at implies !has_key(
                #[trigger] after[j],
                other_choice,
                other_index,
            ) by {
                assert(!has_key(calls[j], other_choice, other_index));
            }
            lemma_position_is(after, other_choice, other_index, other_at);
        } else {
            assert forall|j: int| 0 <= j < after.len() implies !has_key(
                #[trigger] after[j],
                other_choice,
                other_index,
            ) by {
                if j < calls.len() {
                    assert(!has_key(calls[j], other_choice, other_index));
                }
            }
            lemma_position_is(after, other_choice, other_index, after.len() as int);
        }
    }
}

/// Taking in a run of fragments keeps the keys distinct and never removes a
/// call.
pub proof fn lemma_ingest_fragments(calls: Seq<CallModel>, choice: u32, fragments: Seq<FragmentModel>)
    requires
        keys_distinct(calls),
    ensures
        keys_distinct(ingest_fragments(calls, choice, fragments)),
        calls.len() <= ingest_fragments(calls, choice, fragments).len() <= calls.len() + fragments.len(),
        fragments.len() > 0 ==> ingest_fragments(calls, choice, fragments).len() > 0,
        forall|i: int|
            0 <= i < calls.len() ==> {
                let after = #[trigger] ingest_fragments(calls, choice, fragments)[i];
                &&& after.choice_index == calls[i].choice_index
                &&& after.call_index == calls[i].call_index
                &&& after.id == calls[i].id
                &&& after.name == calls[i].name
            },
    decreases fragments.len(),
{
    if fragments.len() > 0 {
        let before = ingest_fragments(calls, choice, fragments.drop_last());
        lemma_ingest_fragments(calls, choice, fragments.drop_last());
        lemma_ingest_fragment(before, choice, fragments.last());
        let out = ingest_fragments(calls, choice, fragments);
        assert forall|i: int| 0 <= i < calls.len() implies {
            let after = #[trigger] out[i];
            &&& after.choice_index == calls[i].choice_index
            &&& after.call_index == calls[i].call_index
            &&& after.id == calls[i].id
            &&& after.name == calls[i].name
        } by {
            assert(before[i].id == calls[i].id);
            assert(ingest_fragment(before, choice, fragments.last())[i].id == before[i].id);
        }
    }
}

/// Taking in the fragments of some choices keeps the keys distinct and never
/// removes or renames a call.
pub proof fn lemma_ingest_choices(calls: Seq<CallModel>, choices: Seq<ChoiceModel>)
    requires
        keys_distinct(calls),
    ensures
        keys_distinct(ingest_choices(calls, choices)),
        calls.len() <= ingest_choices(calls, choices).len(),
        forall|i: int|
            0 <= i < calls.len() ==> {
                let after = #[trigger] ingest_choices(calls, choices)[i];
                &&& after.choice_index == calls[i].choice_index
                &&& after.call_index == calls[i].call_index
                &&& after.id == calls[i].id
                &&& after.name == calls[i].name
            },
    decreases choices.len(),
{
    if choices.len() > 0 {
        let before = ingest_choices(calls, choices.drop_last());
        lemma_ingest_choices(calls, choices.drop_last());
        let out = ingest_choices(calls, choices);
        match choices.last().tool_calls {
            Some(fragments) => {
                lemma_ingest_fragments(before, choices.last().index, fragments);
                assert forall|i: int| 0 <= i < calls.len() implies {
                    let after = #[trigger] out[i];
                    &&& after.choice_index == calls[i].choice_index
                    &&& after.call_index == calls[i].call_index
                    &&& after.id == calls[i].id
                    &&& after.name == calls[i].name
                } by {
                    assert(before[i].id == calls[i].id);
                    assert(ingest_fragments(before, choices.last().index, fragments)[i].id == before[i].id);
                }
            },
            None => {},
        }
    }
}

/// Accumulation is split-invariant: however a text is cut into the argument
/// fragments of one call, in order, the call ends up with that text as its
/// arguments.
pub proof fn lemma_accumulation_split_invariant(
    calls: Seq<CallModel>,
    choice: u32,
    index: u32,
    fragments: Seq<FragmentModel>,
    whole: Seq<char>,
)
    requires
        keys_distinct(calls),
        !holds_key(calls, choice, index),
        fragments.len() > 0,
        forall|i: int| 0 <= i < fragments.len() ==> (#[trigger] fragments[i]).index == index,
        joined_arguments(fragments) == whole,
    ensures
        holds_key(ingest_fragments(calls, choice, fragments), choice, index),
        arguments_of(ingest_fragments(calls, choice, fragments), choice, index) == whole,
{
    lemma_key_arguments_grow(calls, choice, index, fragments);
    assert(Seq::<char>::empty() + joined_arguments(fragments) =~= joined_arguments(fragments));
}

/// A run of fragments of one call appends their joined arguments to what the
/// call had gathered before.
pub proof fn lemma_key_arguments_grow(
    calls: Seq<CallModel>,
    choice: u32,
    index: u32,
    fragments: Seq<FragmentModel>,
)
    requires
        keys_distinct(calls),
        forall|i: int| 0 <= i < fragments.len() ==> (#[trigger] fragments[i]).index == index,
    ensures
        arguments_of(ingest_fragments(calls, choice, fragments), choice, index) == arguments_of(
            calls,
            choice,
            index,
        ) + joined_arguments(fragments),
        fragments.len() > 0 ==> holds_key(ingest_fragments(calls, choice, fragments), choice, index),
    decreases fragments.len(),
{
    if fragments.len() == 0 {
        assert(arguments_of(calls, choice, index) + Seq::<char>::empty() =~= arguments_of(
            calls,
            choice,
            index,
        ));
    } else {
        let head = fragments.drop_last();
        let before = ingest_fragments(calls, choice, head);
        assert forall|i: int| 0 <= i < head.len() implies (#[trigger] head[i]).index == index by {
            assert(head[i] == fragments[i]);
        }
        lemma_key_arguments_grow(calls, choice, index, head);
        lemma_ingest_fragments(calls, choice, head);
        assert(fragments.last() == fragments[fragments.len() - 1]);
        lemma_ingest_fragment_arguments(before, choice, fragments.last(), choice, index);
        assert((arguments_of(calls, choice, index) + joined_arguments(head)) + chars_or_empty(
            fragments.last().arguments,
        ) =~= arguments_of(calls, choice, index) + (joined_arguments(head) + chars_or_empty(
            fragments.last().arguments,
        )));
    }
}

/// Id and name are sticky: once a call exists, no fragment taken in later,
/// whatever it carries, changes the call's id or name.
pub proof fn lemma_id_and_name_sticky(
    calls: Seq<CallModel>,
    choice: u32,
    index: u32,
    later_choice: u32,
    later: Seq<FragmentModel>,
)
    requires
        keys_distinct(calls),
        holds_key(calls, choice, index),
    ensures
        holds_key(ingest_fragments(calls, later_choice, later), choice, index),
        position(ingest_fragments(calls, later_choice, later), choice, index) == position(
            calls,
            choice,
            index,
        ),
        ingest_fragments(calls, later_choice, later)[position(calls, choice, index)].id
            == calls[position(calls, choice, index)].id,
        ingest_fragments(calls, later_choice, later)[position(calls, choice, index)].name
            == calls[position(calls, choice, index)].name,
{
    lemma_position(calls, choice, index);
    lemma_ingest_fragments(calls, later_choice, later);
    let at = position(calls, choice, index);
    let after = ingest_fragments(calls, later_choice, later);
    assert(after[at].choice_index == calls[at].choice_index);
    assert forall|j: int| 0 <= j < at implies !has_key(#[trigger] after[j], choice, index) by {
        assert(after[j].choice_index == calls[j].choice_index);
        assert(!has_key(calls[j], choice, index));
    }
    lemma_position_is(after, choice, index, at);
}

/// A fragment together with the choice that it arrived under.
pub struct KeyedFragment {
    pub choice: u32,
    pub fragment: FragmentModel,
}

/// The fragments of one choice, each with the choice's index.
pub open spec fn keyed(choice: u32, fragments: Seq<FragmentModel>) -> Seq<KeyedFragment> {
    Seq::new(fragments.len(), |i: int| KeyedFragment { choice, fragment: fragments[i] })
}

/// The fragments that a choice carries, in order.
pub open spec fn choice_fragments(choice: ChoiceModel) -> Seq<KeyedFragment> {
    match choice.tool_calls {
        Some(fragments) => keyed(choice.index, fragments),
        None => Seq::empty(),
    }
}

/// The fragments that some choices carry, in order.
pub open spec fn choices_fragments(choices: Seq<ChoiceModel>) -> Seq<KeyedFragment>
    decreases choices.len(),
{
    if choices.len() == 0 {
        Seq::empty()
    } else {
        choices_fragments(choices.drop_last()) + choice_fragments(choices.last())
    }
}

/// The fragments that a stream carries, in the order of their arrival.
pub open spec fn stream_fragments(deltas: Seq<DeltaModel>) -> Seq<KeyedFragment>
    decreases deltas.len(),
{
    if deltas.len() == 0 {
        Seq::empty()
    } else {
        stream_fragments(deltas.drop_last()) + choices_fragments(deltas.last().choices)
    }
}

/// The calls after some fragments, each under its own choice, have been
/// taken in, in order.
pub open spec fn ingest_keyed(calls: Seq<CallModel>, fragments: Seq<KeyedFragment>) -> Seq<CallModel>
    decreases fragments.len(),
{
    if fragments.len() == 0 {
        calls
    } else {
        ingest_fragment(
            ingest_keyed(calls, fragments.drop_last()),
            fragments.last().choice,
            fragments.last().fragment,
        )
    }
}

/// The calls after the fragments of a whole stream have been taken in,
/// delta by delta.
pub open spec fn ingest_deltas(calls: Seq<CallModel>, deltas: Seq<DeltaModel>) -> Seq<CallModel>
    decreases deltas.len(),
{
    if deltas.len() == 0 {
        calls
    } else {
        ingest_delta(ingest_deltas(calls, deltas.drop_last()), deltas.last())
    }
}

/// What some fragments carry for one key: the argument texts of the
/// fragments of that key, joined in the order of their arrival.
pub open spec fn key_arguments(fragments: Seq<KeyedFragment>, choice: u32, index: u32) -> Seq<char>
    decreases fragments.len(),
{
    if fragments.len() == 0 {
        Seq::empty()
    } else if fragments.last().choice == choice && fragments.last().fragment.index == index {
        key_arguments(fragments.drop_last(), choice, index) + chars_or_empty(
            fragments.last().fragment.arguments,
        )
    } else {
        key_arguments(fragments.drop_last(), choice, index)
    }
}

/// Taking in two runs of fragments one after the other is taking in the
/// joined run.
pub proof fn lemma_ingest_keyed_joined(
    calls: Seq<CallModel>,
    first: Seq<KeyedFragment>,
    second: Seq<KeyedFragment>,
)
    ensures
        ingest_keyed(calls, first + second) == ingest_keyed(ingest_keyed(calls, first), second),
    decreases second.len(),
{
    if second.len() == 0 {
        assert(first + second =~= first);
    } else {
        lemma_ingest_keyed_joined(calls, first, second.drop_last());
        assert((first + second).drop_last() =~= first + second.drop_last());
        assert((first + second).last() == second.last());
    }
}

/// Taking in the fragments of one choice is taking them in under that
/// choice's index.
pub proof fn lemma_ingest_fragments_keyed(calls: Seq<CallModel>, choice: u32, fragments: Seq<FragmentModel>)
    ensures
        ingest_fragments(calls, choice, fragments) == ingest_keyed(calls, keyed(choice, fragments)),
    decreases fragments.len(),
{
    if fragments.len() > 0 {
        lemma_ingest_fragments_keyed(calls, choice, fragments.drop_last());
        assert(keyed(choice, fragments).drop_last() =~= keyed(choice, fragments.drop_last()));
    }
}

/// Taking in the fragments of some choices is taking in the fragments they
/// carry, in order.
pub proof fn lemma_ingest_choices_keyed(calls: Seq<CallModel>, choices: Seq<ChoiceModel>)
    ensures
        ingest_choices(calls, choices) == ingest_keyed(calls, choices_fragments(choices)),
    decreases choices.len(),
{
    if choices.len() > 0 {
        let before = ingest_choices(calls, choices.drop_last());
        lemma_ingest_choices_keyed(calls, choices.drop_last());
        match choices.last().tool_calls {
            Some(fragments) => {
                lemma_ingest_fragments_keyed(before, choices.last().index, fragments);
            },
            None => {},
        }
        lemma_ingest_keyed_joined(
            calls,
            choices_fragments(choices.drop_last()),
            choice_fragments(choices.last()),
        );
    }
}

/// Taking in a stream delta by delta is taking in the fragments it carries,
/// in the order of their arrival.
pub proof fn lemma_ingest_deltas_keyed(calls: Seq<CallModel>, deltas: Seq<DeltaModel>)
    ensures
        ingest_deltas(calls, deltas) == ingest_keyed(calls, stream_fragments(deltas)),
    decreases deltas.len(),
{
    if deltas.len() > 0 {
        let before = ingest_deltas(calls, deltas.drop_last());
        lemma_ingest_deltas_keyed(calls, deltas.drop_last());
        lemma_ingest_choices_keyed(before, deltas.last().choices);
        lemma_ingest_keyed_joined(
            calls,
            stream_fragments(deltas.drop_last()),
            choices_fragments(deltas.last().choices),
        );
    }
}

/// Whatever fragments arrive, of whatever calls and in whatever order, each
/// call gathers exactly the arguments of its own fragments, in the order of
/// their arrival; the keys stay distinct; and a call that was there keeps
/// its place, its id and its name.
pub proof fn lemma_ingest_keyed(calls: Seq<CallModel>, fragments: Seq<KeyedFragment>, choice: u32, index: u32)
    requires
        keys_distinct(calls),
    ensures
        keys_distinct(ingest_keyed(calls, fragments)),
        calls.len() <= ingest_keyed(calls, fragments).len(),
        arguments_of(ingest_keyed(calls, fragments), choice, index) == arguments_of(calls, choice, index)
            + key_arguments(fragments, choice, index),
        holds_key(calls, choice, index) ==> {
            let at = position(calls, choice, index);
            &&& position(ingest_keyed(calls, fragments), choice, index) == at
            &&& ingest_keyed(calls, fragments)[at].id == calls[at].id
            &&& ingest_keyed(calls, fragments)[at].name == calls[at].name
        },
    decreases fragments.len(),
{
    if fragments.len() == 0 {
        assert(arguments_of(calls, choice, index) + Seq::<char>::empty() =~= arguments_of(
            calls,
            choice,
            index,
        ));
    } else {
        let head = fragments.drop_last();
        let last = fragments.last();
        let before = ingest_keyed(calls, head);
        lemma_ingest_keyed(calls, head, choice, index);
        lemma_ingest_fragment(before, last.choice, last.fragment);
        lemma_ingest_fragment_arguments(before, last.choice, last.fragment, choice, index);
        if last.choice == choice && last.fragment.index == index {
            assert((arguments_of(calls, choice, index) + key_arguments(head, choice, index)) + chars_or_empty(
                last.fragment.arguments,
            ) =~= arguments_of(calls, choice, index) + (key_arguments(head, choice, index) + chars_or_empty(
                last.fragment.arguments,
            )));
        }
        if holds_key(calls, choice, index) {
            let at = position(calls, choice, index);
            let after = ingest_fragment(before, last.choice, last.fragment);
            lemma_position(calls, choice, index);
            lemma_position(before, choice, index);
            assert(after[at].choice_index == before[at].choice_index);
            assert forall|j: int| 0 <= j < at implies !has_key(#[trigger] after[j], choice, index) by {
                assert(after[j].choice_index == before[j].choice_index);
                assert(!has_key(before[j], choice, index));
            }
            lemma_position_is(after, choice, index, at);
        }
    }
}

/// Accumulation does not depend on how a stream is cut: two streams that
/// carry the same arguments for a call, however they are cut into fragments
/// and deltas and whatever else arrives in between, leave the call with the
/// same arguments, namely what it had before followed by what they carry.
pub proof fn lemma_streams_split_invariant(
    calls: Seq<CallModel>,
    one: Seq<DeltaModel>,
    other: Seq<DeltaModel>,
    choice: u32,
    index: u32,
)
    requires
        keys_distinct(calls),
        key_arguments(stream_fragments(one), choice, index) == key_arguments(
            stream_fragments(other),
            choice,
            index,
        ),
    ensures
        arguments_of(ingest_deltas(calls, one), choice, index) == arguments_of(
            ingest_deltas(calls, other),
            choice,
            index,
        ),
        arguments_of(ingest_deltas(calls, one), choice, index) == arguments_of(calls, choice, index)
            + key_arguments(stream_fragments(one), choice, index),
{
    lemma_ingest_deltas_keyed(calls, one);
    lemma_ingest_deltas_keyed(calls, other);
    lemma_ingest_keyed(calls, stream_fragments(one), choice, index);
    lemma_ingest_keyed(calls, stream_fragments(other), choice, index);
}

/// Id and name are sticky over a whole stream: a call that exists keeps its
/// place, its id and its name whatever deltas arrive later.
pub proof fn lemma_stream_keeps_id_and_name(
    calls: Seq<CallModel>,
    later: Seq<DeltaModel>,
    choice: u32,
    index: u32,
)
    requires
        keys_distinct(calls),
        holds_key(calls, choice, index),
    ensures
        position(ingest_deltas(calls, later), choice, index) == position(calls, choice, index),
        ingest_deltas(calls, later)[position(calls, choice, index)].id == calls[position(
            calls,
            choice,
            index,
        )].id,
        ingest_deltas(calls, later)[position(calls, choice, index)].name == calls[position(
            calls,
            choice,
            index,
        )].name,
{
    lemma_ingest_deltas_keyed(calls, later);
    lemma_ingest_keyed(calls, stream_fragments(later), choice, index);
}

/// The tool calls gathered from a stream, in the order in which the calls
/// first appeared.
pub struct ToolCallAccumulator {
    calls: Vec<AccumulatedToolCall>,
}

impl View for ToolCallAccumulator {
    type V = Seq<CallModel>;

    closed spec fn view(&self) -> Seq<CallModel> {
        views(self.calls@)
    }
}

impl ToolCallAccumulator {
    #[verifier::type_invariant]
    spec fn distinct(&self) -> bool {
        keys_distinct(views(self.calls@))
    }

    /// An accumulator that holds no call.
    pub fn new() -> (acc: Self)
        ensures
            acc@ == Seq::<CallModel>::empty(),
    {
        let acc = ToolCallAccumulator { calls: Vec::new() };
        assert(views(acc.calls@) =~= Seq::<CallModel>::empty());
        acc
    }

    /// The number of calls held.
    pub fn len(&self) -> (n: usize)
        ensures
            n == self@.len(),
    {
        self.calls.len()
    }

    /// Whether no call is held.
    pub fn is_empty(&self) -> (empty: bool)
        ensures
            empty == (self@.len() == 0),
    {
        self.calls.len() == 0
    }

    /// The calls held, in the order of their first fragments.
    pub fn calls(&self) -> (calls: &Vec<AccumulatedToolCall>)
        ensures
            views(calls@) == self@,
            keys_distinct(self@),
    {
        proof {
            use_type_invariant(self);
        }
        &self.calls
    }

    /// Gives up the calls held, in the order of their first fragments.
    pub fn into_calls(self) -> (calls: Vec<AccumulatedToolCall>)
        ensures
            views(calls@) == self@,
            keys_distinct(self@),
    {
        proof {
            use_type_invariant(&self);
        }
        self.calls
    }

    /// Takes in one fragment of the given choice: opens a call if the key is
    /// new, and appends the fragment's arguments to the call of its key.
    pub fn ingest_fragment(&mut self, choice_index: u32, fragment: &ToolCallFragment)
        ensures
            final(self)@ == ingest_fragment(old(self)@, choice_index, fragment@),
            keys_distinct(final(self)@),
    {
        proof {
            use_type_invariant(&*self);
            lemma_ingest_fragment(self@, choice_index, fragment@);
        }
        let ghost before = self@;
        let mut calls: Vec<AccumulatedToolCall> = Vec::new();
        assert(views(calls@) =~= Seq::<CallModel>::empty());
        std::mem::swap(&mut calls, &mut self.calls);
        let n = calls.len();
        let mut at: usize = 0;
        while at < n
            invariant
                n == calls.len(),
                at <= n,
                views(calls@) == before,
                forall|j: int| 0 <= j < at ==> !has_key(#[trigger] before[j], choice_index, fragment.index),
            ensures
                at <= n,
                at < n ==> has_key(before[at as int], choice_index, fragment.index),
            decreases n - at,
        {
            if calls[at].choice_index == choice_index && calls[at].call_index == fragment.index {
                assert(before[at as int] == calls@[at as int]@);
                break;
            }
            assert(before[at as int] == calls@[at as int]@);
            at += 1;
        }
        proof {
            lemma_position_is(before, choice_index, fragment@.index, at as int);
        }
        if at < n {
            let held = &calls[at];
            assert(held@ == before[at as int]);
            let mut arguments = held.arguments.clone();
            match &fragment.arguments {
                Some(text) => {
                    arguments.append(text.as_str());
                },
                None => {
                    assert(arguments@ + Seq::<char>::empty() =~= arguments@);
                },
            }
            let grown = AccumulatedToolCall {
                choice_index: held.choice_index,
                call_index: held.call_index,
                id: held.id.clone(),
                name: held.name.clone(),
                arguments,
            };
            assert(grown@ == extended_by(before[at as int], fragment@));
            calls.set(at, grown);
            assert(views(calls@) =~= before.update(at as int, extended_by(before[at as int], fragment@)));
        } else {
            let id = match &fragment.id {
                Some(id) => id.clone(),
                None => {
                    proof {
                        reveal_strlit("123");
                        assert("123"@ =~= placeholder_id());
                    }
                    "123".to_owned()
                },
            };
            let name = match &fragment.name {
                Some(name) => name.clone(),
                None => String::new(),
            };
            let arguments = match &fragment.arguments {
                Some(text) => text.clone(),
                None => String::new(),
            };
            let opened = AccumulatedToolCall {
                choice_index,
                call_index: fragment.index,
                id,
                name,
                arguments,
            };
            assert(opened@ == opened_by(choice_index, fragment@));
            calls.push(opened);
            assert(views(calls@) =~= before.push(opened_by(choice_index, fragment@)));
        }
        self.calls = calls;
    }

    /// Takes in some fragments of the given choice, in order.
    pub fn ingest(&mut self, choice_index: u32, fragments: &Vec<ToolCallFragment>)
        ensures
            final(self)@ == ingest_fragments(old(self)@, choice_index, views(fragments@)),
            keys_distinct(final(self)@),
    {
        proof {
            use_type_invariant(&*self);
        }
        let ghost before = self@;
        let mut i: usize = 0;
        while i < fragments.len()
            invariant
                i <= fragments.len(),
                self@ == ingest_fragments(before, choice_index, views(fragments@.take(i as int))),
                keys_distinct(self@),
            decreases fragments.len() - i,
        {
            proof {
                lemma_views_take_next(fragments@, i as int);
            }
            self.ingest_fragment(choice_index, &fragments[i]);
            i += 1;
        }
        assert(fragments@.take(i as int) =~= fragments@);
    }

    /// Takes in every tool-call fragment of a delta: choice by choice, and
    /// within a choice in the order of the fragments.
    pub fn ingest_delta(&mut self, delta: &StreamDelta)
        ensures
            final(self)@ == ingest_delta(old(self)@, delta@),
            keys_distinct(final(self)@),
    {
        proof {
            use_type_invariant(&*self);
        }
        let ghost before = self@;
        let mut i: usize = 0;
        while i < delta.choices.len()
            invariant
                i <= delta.choices.len(),
                self@ == ingest_choices(before, views(delta.choices@.take(i as int))),
                keys_distinct(self@),
            decreases delta.choices.len() - i,
        {
            proof {
                lemma_views_take_next(delta.choices@, i as int);
            }
            match &delta.choices[i].tool_calls {
                Some(fragments) => {
                    self.ingest(delta.choices[i].index, fragments);
                },
                None => {},
            }
            i += 1;
        }
        assert(delta.choices@.take(i as int) =~= delta.choices@);
    }
}

/// The tool calls that the fragments of a single delta make up.
pub fn construct_tool_call(stream_chunk: &StreamDelta) -> (calls: ToolCallAccumulator)
    ensures
        calls@ == ingest_delta(Seq::empty(), stream_chunk@),
        keys_distinct(calls@),
{
    let mut calls = ToolCallAccumulator::new();
    calls.ingest_delta(stream_chunk);
    calls
}

} // verus!
