//! Tool dispatch: the parallel-safety class of each registered tool and the partition of
//! a round of calls into those that may run together and those that run alone.
use vstd::prelude::*;
use super::{ToolCall, ToolCallResult};
use crate::text::{concat2, owned, str_eq};
use crate::llm::Message;

verus! {

/// How a tool may run beside others.
#[derive(Debug)]
pub enum ParallelSafety {
    /// Alongside any other call.
    Safe,
    /// Never alongside another tool of the same category.
    CategoryExclusive(String),
    /// Alone.
    Exclusive,
}

/// The class of a tool, its category as characters.
pub open spec fn safety_view(s: ParallelSafety) -> Option<Option<Seq<char>>> {
    match s {
        ParallelSafety::Safe => None,
        ParallelSafety::CategoryExclusive(c) => Some(Some(c@)),
        ParallelSafety::Exclusive => Some(None),
    }
}

fn copy_safety(s: &ParallelSafety) -> (r: ParallelSafety)
    ensures
        safety_view(r) == safety_view(*s),
{
    match s {
        ParallelSafety::Safe => ParallelSafety::Safe,
        ParallelSafety::CategoryExclusive(c) => ParallelSafety::CategoryExclusive(owned(c.as_str())),
        ParallelSafety::Exclusive => ParallelSafety::Exclusive,
    }
}

/// The class registered last for `name`; unregistered tools run alone.
pub open spec fn class_of(reg: Seq<(Seq<char>, Option<Option<Seq<char>>>)>, name: Seq<char>) -> Option<Option<Seq<char>>>
    decreases reg.len(),
{
    if reg.len() == 0 {
        Some(None)
    } else if reg.last().0 == name {
        reg.last().1
    } else {
        class_of(reg.drop_last(), name)
    }
}

/// The message of a call to a tool that is not registered.
pub open spec fn unknown_tool_text(name: Seq<char>) -> Seq<char> {
    "未知工具: "@ + name
}

/// The calls of a round that may run together (safe), and the others, each in order.
pub open spec fn partition_spec(reg: Seq<(Seq<char>, Option<Option<Seq<char>>>)>, calls: Seq<ToolCall>) -> (Seq<Seq<char>>, Seq<Seq<char>>)
    decreases calls.len(),
{
    if calls.len() == 0 {
        (Seq::empty(), Seq::empty())
    } else {
        let (s, e) = partition_spec(reg, calls.drop_last());
        if class_of(reg, calls.last().name@) is None {
            (s.push(calls.last().id@), e)
        } else {
            (s, e.push(calls.last().id@))
        }
    }
}

/// The parallel-safety registry of the tools.
pub struct ToolExecutor {
    safety: Vec<(String, ParallelSafety)>,
}

impl ToolExecutor {
    /// The registrations, oldest first.
    pub closed spec fn registry(&self) -> Seq<(Seq<char>, Option<Option<Seq<char>>>)> {
        self.safety@.map_values(|p: (String, ParallelSafety)| (p.0@, safety_view(p.1)))
    }

    /// No tool registered.
    pub fn new() -> (e: ToolExecutor)
        ensures
            e.registry().len() == 0,
    {
        ToolExecutor { safety: Vec::new() }
    }

    /// Registers `name` with its class; a later registration of the same name wins.
    pub fn register(&mut self, name: &str, safety: ParallelSafety)
        ensures
            final(self).registry() == old(self).registry().push((name@, safety_view(safety))),
    {
        let ghost sv = safety_view(safety);
        self.safety.push((owned(name), safety));
        assert(self.registry() =~= old(self).registry().push((name@, sv)));
    }

    /// The class of `name`: the registered one, `Exclusive` when it is not registered.
    pub fn safety_for(&self, name: &str) -> (s: ParallelSafety)
        ensures
            safety_view(s) == class_of(self.registry(), name@),
    {
        let mut i: usize = self.safety.len();
        assert(self.registry().subrange(0, i as int) =~= self.registry());
        while i > 0
            invariant
                i <= self.safety.len(),
                class_of(self.registry(), name@) == class_of(self.registry().subrange(0, i as int), name@),
            decreases i,
        {
            let ghost t = self.registry().subrange(0, i as int);
            assert(t.drop_last() =~= self.registry().subrange(0, i - 1));
            assert(t.last() == (self.safety@[i - 1].0@, safety_view(self.safety@[i - 1].1)));
            if str_eq(self.safety[i - 1].0.as_str(), name) {
                return copy_safety(&self.safety[i - 1].1);
            }
            i = i - 1;
        }
        assert(self.registry().subrange(0, 0) =~= Seq::<(Seq<char>, Option<Option<Seq<char>>>)>::empty());
        ParallelSafety::Exclusive
    }

    /// Splits a round into the ids of the calls that may run together and the ids of the
    /// others, each in order.
    pub fn partition_calls(&self, calls: &Vec<ToolCall>) -> (r: (Vec<String>, Vec<String>))
        ensures
            (r.0@.map_values(|s: String| s@), r.1@.map_values(|s: String| s@)) == partition_spec(self.registry(), calls@),
    {
        let mut safe: Vec<String> = Vec::new();
        let mut exclusive: Vec<String> = Vec::new();
        let mut i: usize = 0;
        while i < calls.len()
            invariant
                i <= calls.len(),
                (safe@.map_values(|s: String| s@), exclusive@.map_values(|s: String| s@)) == partition_spec(
                    self.registry(),
                    calls@.subrange(0, i as int),
                ),
            decreases calls.len() - i,
        {
            proof {
                assert(calls@.subrange(0, i + 1).drop_last() =~= calls@.subrange(0, i as int));
            }
            let class = self.safety_for(calls[i].name.as_str());
            let id = owned(calls[i].id.as_str());
            let ghost before_s = safe@.map_values(|s: String| s@);
            let ghost before_e = exclusive@.map_values(|s: String| s@);
            match class {
                ParallelSafety::Safe => {
                    safe.push(id);
                    assert(safe@.map_values(|s: String| s@) =~= before_s.push(calls@[i as int].id@));
                },
                _ => {
                    exclusive.push(id);
                    assert(exclusive@.map_values(|s: String| s@) =~= before_e.push(calls@[i as int].id@));
                },
            }
            i = i + 1;
        }
        assert(calls@.subrange(0, calls.len() as int) =~= calls@);
        (safe, exclusive)
    }

    /// The result of a call to a tool that is not registered.
    pub fn unknown_tool(name: &str) -> (r: ToolCallResult)
        ensures
            r matches ToolCallResult::Failure(m) && m@ == unknown_tool_text(name@),
    {
        ToolCallResult::Failure(concat2("未知工具: ", name))
    }
}

/// The message that reports a tool result to the model: the output of a success, or
/// `工具执行错误: ` and the error of a failure, marked as an error.
pub fn result_message(call_id: &str, result: ToolCallResult) -> (m: Message)
    ensures
        m matches Message::Tool { tool_call_id, content, is_error } && tool_call_id@ == call_id@ && match result {
            ToolCallResult::Success(s) => content == s && !is_error,
            ToolCallResult::Failure(e) => content@ == "工具执行错误: "@ + e@ && is_error,
        },
{
    match result {
        ToolCallResult::Success(s) => Message::Tool { tool_call_id: owned(call_id), content: s, is_error: false },
        ToolCallResult::Failure(e) => Message::Tool {
            tool_call_id: owned(call_id),
            content: concat2("工具执行错误: ", e.as_str()),
            is_error: true,
        },
    }
}

} // verus!
