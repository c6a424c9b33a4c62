//! One unit of a model's token stream, and what is read from it.

use crate::marker::{contains_stop_word, has_stop_marker};
use crate::text::{chars_or_empty, lemma_views_take_next, opt_chars, views};
use vstd::prelude::*;

verus! {

/// Why the model stopped producing tokens.
#[derive(Clone, Copy, Debug, PartialEq, Eq, Structural)]
pub enum FinishReason {
    Stop,
    Length,
    ToolCalls,
    ContentFilter,
    FunctionCall,
}

/// A piece of one tool call, as it arrives in a delta.
#[derive(Clone, Debug, PartialEq, Eq)]
pub struct ToolCallFragment {
    /// Position of the call among the calls of its choice.
    pub index: u32,
    pub id: Option<String>,
    pub name: Option<String>,
    pub arguments: Option<String>,
}

/// What one choice of a delta carries.
#[derive(Clone, Debug, PartialEq, Eq)]
pub struct StreamChoice {
    pub index: u32,
    pub content: Option<String>,
    pub tool_calls: Option<Vec<ToolCallFragment>>,
    pub finish_reason: Option<FinishReason>,
}

/// One unit of the model's stream.
#[derive(Clone, Debug, PartialEq, Eq)]
pub struct StreamDelta {
    pub choices: Vec<StreamChoice>,
}

/// The mathematical value of a `ToolCallFragment`.
pub struct FragmentModel {
    pub index: u32,
    pub id: Option<Seq<char>>,
    pub name: Option<Seq<char>>,
    pub arguments: Option<Seq<char>>,
}

/// The mathematical value of a `StreamChoice`.
pub struct ChoiceModel {
    pub index: u32,
    pub content: Option<Seq<char>>,
    pub tool_calls: Option<Seq<FragmentModel>>,
    pub finish_reason: Option<FinishReason>,
}

/// The mathematical value of a `StreamDelta`.
pub struct DeltaModel {
    pub choices: Seq<ChoiceModel>,
}

impl View for ToolCallFragment {
    type V = FragmentModel;

    open spec fn view(&self) -> FragmentModel {
        FragmentModel {
            index: self.index,
            id: opt_chars(self.id),
            name: opt_chars(self.name),
            arguments: opt_chars(self.arguments),
        }
    }
}

impl View for StreamChoice {
    type V = ChoiceModel;

    open spec fn view(&self) -> ChoiceModel {
        ChoiceModel {
            index: self.index,
            content: opt_chars(self.content),
            tool_calls: match self.tool_calls {
                Some(calls) => Some(views(calls@)),
                None => None,
            },
            finish_reason: self.finish_reason,
        }
    }
}

impl View for StreamDelta {
    type V = DeltaModel;

    open spec fn view(&self) -> DeltaModel {
        DeltaModel { choices: views(self.choices@) }
    }
}

/// The content fragments of some choices, joined in order.
pub open spec fn choices_text(choices: Seq<ChoiceModel>) -> Seq<char>
    decreases choices.len(),
{
    if choices.len() == 0 {
        Seq::empty()
    } else {
        choices_text(choices.drop_last()) + chars_or_empty(choices.last().content)
    }
}

/// The first finish reason that any of some choices reports.
pub open spec fn choices_finish_reason(choices: Seq<ChoiceModel>) -> Option<FinishReason>
    decreases choices.len(),
{
    if choices.len() == 0 {
        None
    } else {
        match choices_finish_reason(choices.drop_last()) {
            Some(reason) => Some(reason),
            None => choices.last().finish_reason,
        }
    }
}

impl DeltaModel {
    /// The text of the delta: the content of all its choices, joined.
    pub open spec fn text(self) -> Seq<char> {
        choices_text(self.choices)
    }

    /// The first finish reason among the choices, if any reports one.
    pub open spec fn finish_reason(self) -> Option<FinishReason> {
        choices_finish_reason(self.choices)
    }

    /// Whether any choice carries tool-call fragments (an empty list counts).
    pub open spec fn has_tool_calls(self) -> bool {
        exists|i: int| 0 <= i < self.choices.len() && (#[trigger] self.choices[i]).tool_calls is Some
    }

    /// Whether any choice carries a content fragment (an empty one counts).
    pub open spec fn has_content(self) -> bool {
        exists|i: int| 0 <= i < self.choices.len() && (#[trigger] self.choices[i]).content is Some
    }

    /// Whether the text of the delta holds the stop marker.
    pub open spec fn ends_thinking(self) -> bool {
        has_stop_marker(self.text())
    }
}

/// Choices without a content fragment have no text.
pub proof fn lemma_no_content_no_text(choices: Seq<ChoiceModel>)
    requires
        forall|i: int| 0 <= i < choices.len() ==> (#[trigger] choices[i]).content is None,
    ensures
        choices_text(choices) == Seq::<char>::empty(),
    decreases choices.len(),
{
    if choices.len() > 0 {
        let head = choices.drop_last();
        assert forall|i: int| 0 <= i < head.len() implies (#[trigger] head[i]).content is None by {
            assert(head[i] == choices[i]);
        }
        lemma_no_content_no_text(head);
        assert(choices.last() == choices[choices.len() - 1]);
        assert(choices_text(choices) =~= Seq::<char>::empty());
    }
}

/// The text that a delta carries: the content fragments of its choices,
/// joined in order.
pub fn get_final_tokens_from_stream(stream: &StreamDelta) -> (tokens: String)
    ensures
        tokens@ == stream@.text(),
{
    let mut tokens = String::new();
    let mut i: usize = 0;
    while i < stream.choices.len()
        invariant
            i <= stream.choices.len(),
            tokens@ == choices_text(views(stream.choices@.take(i as int))),
        decreases stream.choices.len() - i,
    {
        proof {
            lemma_views_take_next(stream.choices@, i as int);
        }
        match &stream.choices[i].content {
            Some(content) => {
                tokens.append(content.as_str());
            },
            None => {
                assert(tokens@ + Seq::<char>::empty() =~= tokens@);
            },
        }
        i += 1;
    }
    assert(stream.choices@.take(i as int) =~= stream.choices@);
    tokens
}

/// The finish reason that a delta reports: the first one among its choices.
pub fn finish_reason(stream: &StreamDelta) -> (reason: Option<FinishReason>)
    ensures
        reason == stream@.finish_reason(),
{
    let mut reason: Option<FinishReason> = None;
    let mut i: usize = 0;
    while i < stream.choices.len()
        invariant
            i <= stream.choices.len(),
            reason == choices_finish_reason(views(stream.choices@.take(i as int))),
        decreases stream.choices.len() - i,
    {
        proof {
            lemma_views_take_next(stream.choices@, i as int);
        }
        if reason.is_none() {
            reason = stream.choices[i].finish_reason;
        }
        i += 1;
    }
    assert(stream.choices@.take(i as int) =~= stream.choices@);
    reason
}

/// Whether any choice of a delta carries tool-call fragments.
pub fn has_tool_calls(stream: &StreamDelta) -> (found: bool)
    ensures
        found == stream@.has_tool_calls(),
{
    let mut i: usize = 0;
    while i < stream.choices.len()
        invariant
            i <= stream.choices.len(),
            forall|j: int| 0 <= j < i ==> (#[trigger] stream@.choices[j]).tool_calls is None,
        decreases stream.choices.len() - i,
    {
        if stream.choices[i].tool_calls.is_some() {
            assert(stream@.choices[i as int].tool_calls is Some);
            return true;
        }
        i += 1;
    }
    false
}

/// Whether any choice of a delta carries a content fragment, be it empty.
pub fn has_content(stream: &StreamDelta) -> (found: bool)
    ensures
        found == stream@.has_content(),
{
    let mut i: usize = 0;
    while i < stream.choices.len()
        invariant
            i <= stream.choices.len(),
            forall|j: int| 0 <= j < i ==> (#[trigger] stream@.choices[j]).content is None,
        decreases stream.choices.len() - i,
    {
        if stream.choices[i].content.is_some() {
            assert(stream@.choices[i as int].content is Some);
            return true;
        }
        i += 1;
    }
    false
}

/// Whether a stream item ends the reasoning segment: a delta whose text holds
/// the stop marker does, a failed item does not.
pub fn get_end_of_thinking<E>(item: &Result<StreamDelta, E>) -> (ends: bool)
    ensures
        ends == match *item {
            Ok(delta) => delta@.ends_thinking(),
            Err(_) => false,
        },
{
    match item {
        Ok(delta) => {
            let tokens = get_final_tokens_from_stream(delta);
            contains_stop_word(tokens.as_str())
        },
        Err(_) => false,
    }
}

} // verus!
