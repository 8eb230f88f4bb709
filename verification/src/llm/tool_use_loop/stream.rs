//! The streamed tool-use round: stream events folded into the answer text and the tool
//! calls, the events passed on to the client, and the decisions of the loop.
use vstd::prelude::*;
use super::ToolCall;
use crate::json::{is_json_text, json_text_valid, quote_json_string, quoted};
use crate::llm::{LlmError, Message};
use crate::text::{concat2, decimal_seq, decimal_string, owned};
use crate::token::tracker::TokenUsage;

verus! {

/// An event of a streamed answer.
#[derive(Debug)]
pub enum StreamEvent {
    /// A piece of answer text.
    TextDelta(String),
    /// A piece of reasoning.
    ThinkingDelta { thinking: String, redacted: Option<String> },
    /// A piece of tool call `index`: its id, name and a piece of its arguments, when given.
    ToolCallDelta { index: usize, id: Option<String>, name: Option<String>, arguments_delta: Option<String> },
    /// Token usage of the answer.
    Usage(TokenUsage),
    /// End of the answer.
    Done,
}

/// A tool call being received: id, name and the arguments text received so far (none
/// before the first piece).
#[derive(Debug)]
pub struct PartialCall {
    pub id: String,
    pub name: String,
    pub arguments: Option<String>,
}

/// A partial call as characters.
pub type PartialView = (Seq<char>, Seq<char>, Option<Seq<char>>);

/// A partial call as characters.
pub open spec fn partial_view(c: PartialCall) -> PartialView {
    (c.id@, c.name@, match c.arguments {
        Some(a) => Some(a@),
        None => None,
    })
}

/// Partial calls as characters.
pub open spec fn partials_view(v: Seq<PartialCall>) -> Seq<PartialView> {
    v.map_values(|c: PartialCall| partial_view(c))
}

/// The calls, extended with empty calls so that `index` exists.
pub open spec fn extend_to(calls: Seq<PartialView>, index: nat) -> Seq<PartialView> {
    if calls.len() > index {
        calls
    } else {
        calls + Seq::new((index + 1 - calls.len()) as nat, |i: int| (Seq::<char>::empty(), Seq::<char>::empty(), None::<Seq<char>>))
    }
}

/// An optional string as characters.
pub open spec fn ostr(o: Option<String>) -> Option<Seq<char>> {
    match o {
        Some(s) => Some(s@),
        None => None,
    }
}

/// A call with a delta applied: a given id or name replaces the current one, a given
/// arguments piece is appended (or starts the arguments).
pub open spec fn apply_delta(c: PartialView, id: Option<Seq<char>>, name: Option<Seq<char>>, args: Option<Seq<char>>) -> PartialView {
    (
        match id {
            Some(x) => x,
            None => c.0,
        },
        match name {
            Some(x) => x,
            None => c.1,
        },
        match args {
            Some(d) => match c.2 {
                Some(a) => Some(a + d),
                None => Some(d),
            },
            None => c.2,
        },
    )
}

/// The final arguments text of a call: `{}` when no piece came, the text when it is a JSON
/// document, else the text as a JSON string.
pub open spec fn final_arguments(a: Option<Seq<char>>) -> Seq<char> {
    match a {
        None => "{}"@,
        Some(s) => if is_json_text(s) { s } else { quoted(s) },
    }
}

/// Folds the events of one streamed answer.
pub struct StreamAccumulator {
    content: String,
    calls: Vec<PartialCall>,
    usage: TokenUsage,
    done: bool,
}

impl StreamAccumulator {
    /// The answer text so far.
    pub closed spec fn text(&self) -> Seq<char> {
        self.content@
    }

    /// The tool calls so far.
    pub closed spec fn calls(&self) -> Seq<PartialView> {
        partials_view(self.calls@)
    }

    /// The last usage reported.
    pub closed spec fn usage(&self) -> TokenUsage {
        self.usage
    }

    /// Whether the end event came.
    pub closed spec fn finished(&self) -> bool {
        self.done
    }

    /// Nothing received.
    pub fn new() -> (a: StreamAccumulator)
        ensures
            a.text().len() == 0,
            a.calls().len() == 0,
            a.usage() == (TokenUsage { prompt_tokens: 0, completion_tokens: 0, total_tokens: 0 }),
            !a.finished(),
    {
        let a = StreamAccumulator {
            content: String::new(),
            calls: Vec::new(),
            usage: TokenUsage { prompt_tokens: 0, completion_tokens: 0, total_tokens: 0 },
            done: false,
        };
        assert(a.calls() =~= Seq::<PartialView>::empty());
        a
    }

    /// Whether the end event came.
    pub fn is_done(&self) -> (b: bool)
        ensures
            b == self.finished(),
    {
        self.done
    }

    /// Folds one event in and returns the event to pass on to the client: text and
    /// reasoning pieces as they came, a tool-call piece as the call's index, id and name so
    /// far (without the arguments piece); usage and the end are not passed on.
    pub fn apply(&mut self, event: StreamEvent) -> (forward: Option<StreamEvent>)
        requires
            event matches StreamEvent::ToolCallDelta { index, .. } ==> index < usize::MAX,
        ensures
            match event {
                StreamEvent::TextDelta(t) => {
                    &&& final(self).text() == old(self).text() + t@
                    &&& final(self).calls() == old(self).calls()
                    &&& final(self).usage() == old(self).usage()
                    &&& final(self).finished() == old(self).finished()
                    &&& forward matches Some(StreamEvent::TextDelta(f)) && f == t
                },
                StreamEvent::ThinkingDelta { thinking, redacted } => {
                    &&& final(self).text() == old(self).text()
                    &&& final(self).calls() == old(self).calls()
                    &&& final(self).usage() == old(self).usage()
                    &&& final(self).finished() == old(self).finished()
                    &&& forward matches Some(StreamEvent::ThinkingDelta { thinking: ft, redacted: fr }) && ft == thinking && fr
                        == redacted
                },
                StreamEvent::ToolCallDelta { index, id, name, arguments_delta } => {
                    let ext = extend_to(old(self).calls(), index as nat);
                    let c = apply_delta(ext[index as int], ostr(id), ostr(name), ostr(arguments_delta));
                    &&& final(self).calls() == ext.update(index as int, c)
                    &&& final(self).text() == old(self).text()
                    &&& final(self).usage() == old(self).usage()
                    &&& final(self).finished() == old(self).finished()
                    &&& forward matches Some(StreamEvent::ToolCallDelta { index: fi, id: Some(fid), name: Some(fname), arguments_delta: None })
                        && fi == index && fid@ == c.0 && fname@ == c.1
                },
                StreamEvent::Usage(u) => {
                    &&& final(self).usage() == u
                    &&& final(self).text() == old(self).text()
                    &&& final(self).calls() == old(self).calls()
                    &&& final(self).finished() == old(self).finished()
                    &&& forward is None
                },
                StreamEvent::Done => {
                    &&& final(self).finished()
                    &&& final(self).text() == old(self).text()
                    &&& final(self).calls() == old(self).calls()
                    &&& final(self).usage() == old(self).usage()
                    &&& forward is None
                },
            },
    {
        match event {
            StreamEvent::TextDelta(t) => {
                self.content.append(t.as_str());
                Some(StreamEvent::TextDelta(t))
            },
            StreamEvent::ThinkingDelta { thinking, redacted } => Some(StreamEvent::ThinkingDelta { thinking, redacted }),
            StreamEvent::ToolCallDelta { index, id, name, arguments_delta } => {
                let ghost ids = ostr(id);
                let ghost names = ostr(name);
                let ghost deltas = ostr(arguments_delta);
                let ghost start = self.calls();
                while self.calls.len() <= index
                    invariant
                        index < usize::MAX,
                        self.calls@.len() <= index + 1 || self.calls() == start,
                        self.content == old(self).content,
                        self.usage == old(self).usage,
                        self.done == old(self).done,
                        start == old(self).calls(),
                        extend_to(start, index as nat) == extend_to(self.calls(), index as nat),
                    decreases index + 1 - self.calls@.len(),
                {
                    let ghost before = self.calls();
                    self.calls.push(PartialCall { id: String::new(), name: String::new(), arguments: None });
                    proof {
                        assert(self.calls() =~= before.push((Seq::<char>::empty(), Seq::<char>::empty(), None::<Seq<char>>)));
                        assert(extend_to(before, index as nat) =~= extend_to(self.calls(), index as nat));
                    }
                }
                assert(extend_to(self.calls(), index as nat) == self.calls());
                let ghost ext = self.calls();
                let mut call = PartialCall { id: String::new(), name: String::new(), arguments: None };
                std::mem::swap(&mut call, &mut self.calls[index]);
                assert(partial_view(call) == ext[index as int]);
                match id {
                    Some(x) => {
                        call.id = x;
                    },
                    None => {},
                }
                match name {
                    Some(x) => {
                        call.name = x;
                    },
                    None => {},
                }
                match arguments_delta {
                    Some(d) => {
                        match call.arguments {
                            Some(a) => {
                                let mut a2 = a;
                                a2.append(d.as_str());
                                call.arguments = Some(a2);
                            },
                            None => {
                                call.arguments = Some(d);
                            },
                        }
                    },
                    None => {},
                }
                let ghost cv = partial_view(call);
                assert(cv == apply_delta(ext[index as int], ids, names, deltas));
                let fid = owned(call.id.as_str());
                let fname = owned(call.name.as_str());
                std::mem::swap(&mut call, &mut self.calls[index]);
                assert(self.calls() =~= ext.update(index as int, cv));
                Some(StreamEvent::ToolCallDelta { index, id: Some(fid), name: Some(fname), arguments_delta: None })
            },
            StreamEvent::Usage(u) => {
                self.usage = u;
                None
            },
            StreamEvent::Done => {
                self.done = true;
                None
            },
        }
    }

    /// The answer text, the tool calls with their final arguments, and the usage.
    pub fn finish(self) -> (r: (String, Vec<ToolCall>, TokenUsage))
        ensures
            r.0@ == self.text(),
            r.1@.len() == self.calls().len(),
            forall|k: int| 0 <= k < self.calls().len() ==> {
                let c = #[trigger] r.1@[k];
                &&& c.id@ == self.calls()[k].0
                &&& c.name@ == self.calls()[k].1
                &&& c.arguments@ == final_arguments(self.calls()[k].2)
            },
            r.2 == self.usage(),
    {
        let mut out: Vec<ToolCall> = Vec::new();
        let mut i: usize = 0;
        while i < self.calls.len()
            invariant
                i <= self.calls.len(),
                out@.len() == i,
                forall|k: int| 0 <= k < i ==> {
                    let c = #[trigger] out@[k];
                    &&& c.id@ == partials_view(self.calls@)[k].0
                    &&& c.name@ == partials_view(self.calls@)[k].1
                    &&& c.arguments@ == final_arguments(partials_view(self.calls@)[k].2)
                },
            decreases self.calls.len() - i,
        {
            let p = &self.calls[i];
            assert(partials_view(self.calls@)[i as int] == partial_view(*p));
            let arguments = match &p.arguments {
                None => owned("{}"),
                Some(a) => {
                    if json_text_valid(a.as_str()) {
                        owned(a.as_str())
                    } else {
                        quote_json_string(a.as_str())
                    }
                },
            };
            out.push(ToolCall { id: owned(p.id.as_str()), name: owned(p.name.as_str()), arguments });
            i = i + 1;
        }
        (self.content, out, self.usage)
    }
}

/// An assistant message with the given text and tool calls.
pub fn assistant_with_tools(content: String, tool_calls: Vec<ToolCall>) -> (m: Message)
    ensures
        m matches Message::Assistant { content: c, tool_calls: t } && c == content && t == tool_calls,
{
    Message::Assistant { content, tool_calls }
}

/// What the loop does after an answer.
#[derive(PartialEq, Eq, Structural, Clone, Copy, Debug)]
pub enum LoopStep {
    /// The answer has no tool call: it is the result.
    Finish,
    /// Run the tools and ask again.
    RunTools,
    /// Run the tools; the iteration budget is then spent.
    RunToolsThenStop,
}

/// Settings of the tool-use loop.
pub struct ToolUseLoop {
    max_iterations: usize,
}

impl ToolUseLoop {
    /// The iteration budget.
    pub closed spec fn budget(&self) -> usize {
        self.max_iterations
    }

    /// A loop with a budget of 15 iterations.
    pub fn new() -> (l: ToolUseLoop)
        ensures
            l.budget() == 15,
    {
        ToolUseLoop { max_iterations: 15 }
    }

    /// Sets the iteration budget.
    pub fn set_max_iterations(&mut self, max: usize)
        ensures
            final(self).budget() == max,
    {
        self.max_iterations = max;
    }

    /// The iteration budget.
    pub fn max_iterations(&self) -> (n: usize)
        ensures
            n == self.budget(),
    {
        self.max_iterations
    }

    /// The step after the answer of iteration `iteration` (from 1): finish without tool
    /// calls; otherwise run them, and stop when this was the last iteration.
    pub fn step(&self, iteration: usize, has_tool_calls: bool) -> (s: LoopStep)
        ensures
            s == (if !has_tool_calls {
                LoopStep::Finish
            } else if iteration >= self.budget() {
                LoopStep::RunToolsThenStop
            } else {
                LoopStep::RunTools
            }),
    {
        if !has_tool_calls {
            LoopStep::Finish
        } else if iteration >= self.max_iterations {
            LoopStep::RunToolsThenStop
        } else {
            LoopStep::RunTools
        }
    }

    /// The error when the budget is spent: provider `tool_use_loop`, naming the budget.
    pub fn budget_exceeded(&self) -> (e: LlmError)
        ensures
            e matches LlmError::Provider { provider, status, code, message } && provider@ == "tool_use_loop"@ && status is None
                && code is None && message@ == "tool-use 循环超过最大轮次限制 ("@ + decimal_seq(self.budget() as nat) + ")"@,
    {
        let mut message = concat2("tool-use 循环超过最大轮次限制 (", decimal_string(self.max_iterations as u64).as_str());
        message.append(")");
        LlmError::Provider { provider: owned("tool_use_loop"), status: None, code: None, message }
    }
}

} // verus!
