//! Repeated tool-call detection over a sliding window of rounds.
use vstd::prelude::*;
use crate::text::{concat2, decimal_seq, decimal_string, join_seq};
use super::{ToolCall, call_sig, round_sig};

verus! {

/// Intervention level for a detected loop.
pub enum LoopIntervention {
    /// Warning injected into the conversation.
    Level2 { message: String },
    /// Forced stop; fall back.
    Level3 { message: String },
}

impl LoopIntervention {
    /// Text injected into the model context.
    pub fn to_injection_message(&self) -> (s: String)
        ensures
            s@ == match self {
                LoopIntervention::Level2 { message } => "[警告] 检测到重复调用模式: "@ + message@,
                LoopIntervention::Level3 { message } => "[强制中断] 检测到死循环: "@ + message@,
            },
    {
        match self {
            LoopIntervention::Level2 { message } => concat2("[警告] 检测到重复调用模式: ", message.as_str()),
            LoopIntervention::Level3 { message } => concat2("[强制中断] 检测到死循环: ", message.as_str()),
        }
    }
}

/// Signature of one round: the (name, arguments) pairs of its calls, in order.
pub type RoundSig = Seq<(Seq<char>, Seq<char>)>;

/// Tool names of a round.
pub open spec fn round_names(r: RoundSig) -> Seq<Seq<char>> {
    r.map_values(|p: (Seq<char>, Seq<char>)| p.0)
}

/// Two rounds call the same set of tool names and the same number of tools.
pub open spec fn same_name_pattern(a: RoundSig, b: RoundSig) -> bool {
    a.len() == b.len() && round_names(a).to_set() == round_names(b).to_set()
}

/// Number of rounds in `h` equal to `last`.
pub open spec fn count_exact(h: Seq<RoundSig>, last: RoundSig) -> nat
    decreases h.len(),
{
    if h.len() == 0 {
        0
    } else {
        count_exact(h.drop_last(), last) + (if h.last() == last { 1nat } else { 0nat })
    }
}

/// Number of rounds in `h` with the same name pattern as `last`.
pub open spec fn count_pattern(h: Seq<RoundSig>, last: RoundSig) -> nat
    decreases h.len(),
{
    if h.len() == 0 {
        0
    } else {
        count_pattern(h.drop_last(), last) + (if same_name_pattern(h.last(), last) {
            1nat
        } else {
            0nat
        })
    }
}

/// The larger of the exact and the name-pattern repeat counts of the last round.
pub open spec fn max_repeat(h: Seq<RoundSig>) -> nat {
    let a = count_exact(h, h.last());
    let b = count_pattern(h, h.last());
    if a >= b { a } else { b }
}

/// Tool names of the round joined with " → ".
pub open spec fn describe_seq(r: RoundSig) -> Seq<char> {
    join_seq(round_names(r), " → "@)
}

/// Detects repeated tool-call rounds in a sliding window.
pub struct LoopDetector {
    window: usize,
    history: Vec<Vec<ToolCall>>,
    escalation_count: u32,
}

impl LoopDetector {
    /// Round signatures in the window, oldest first.
    pub closed spec fn rounds(&self) -> Seq<RoundSig> {
        self.history@.map_values(|r: Vec<ToolCall>| round_sig(r@))
    }

    /// Window size.
    pub closed spec fn window_size(&self) -> nat {
        self.window as nat
    }

    /// How many times a repeat has been reported.
    pub closed spec fn escalations(&self) -> nat {
        self.escalation_count as nat
    }

    pub fn new(window: usize) -> (d: LoopDetector)
        ensures
            d.window_size() == window,
            d.rounds() == Seq::<RoundSig>::empty(),
            d.escalations() == 0,
    {
        let d = LoopDetector { window, history: Vec::new(), escalation_count: 0 };
        assert(d.rounds() =~= Seq::<RoundSig>::empty());
        d
    }

    /// Records one round of calls; the oldest round leaves when the window overflows.
    pub fn record(&mut self, calls: &[ToolCall])
        ensures
            final(self).window_size() == old(self).window_size(),
            final(self).escalations() == old(self).escalations(),
            ({
                let pushed = old(self).rounds().push(round_sig(calls@));
                final(self).rounds() == if pushed.len() > old(self).window_size() {
                    pushed.drop_first()
                } else {
                    pushed
                }
            }),
    {
        let ghost before = self.rounds();
        let mut sig: Vec<ToolCall> = Vec::new();
        let mut i: usize = 0;
        while i < calls.len()
            invariant
                i <= calls.len(),
                sig@.len() == i,
                forall|k: int| 0 <= k < i ==> call_sig(#[trigger] sig@[k]) == call_sig(calls@[k]),
            decreases calls.len() - i,
        {
            let c = ToolCall {
                id: calls[i].id.clone(),
                name: calls[i].name.clone(),
                arguments: calls[i].arguments.clone(),
            };
            sig.push(c);
            i = i + 1;
        }
        assert(round_sig(sig@) =~= round_sig(calls@));
        self.history.push(sig);
        let ghost pushed = before.push(round_sig(calls@));
        assert(self.rounds() =~= pushed);
        if self.history.len() > self.window {
            self.history.remove(0);
            assert(self.rounds() =~= pushed.drop_first());
        }
    }

    /// Checks the window for a repeated round and escalates: the first detection warns,
    /// later ones force a stop.
    pub fn is_looping(&mut self) -> (r: Option<LoopIntervention>)
        requires
            old(self).escalations() < u32::MAX,
        ensures
            final(self).rounds() == old(self).rounds(),
            final(self).window_size() == old(self).window_size(),
            ({
                let h = old(self).rounds();
                if h.len() < 2 || max_repeat(h) < 2 {
                    r is None && final(self).escalations() == old(self).escalations()
                } else {
                    &&& final(self).escalations() == old(self).escalations() + 1
                    &&& if final(self).escalations() >= 2 {
                        r matches Some(LoopIntervention::Level3 { message }) && message@ == "同一工具调用模式重复 "@
                            + decimal_seq(max_repeat(h)) + " 次，建议降级或终止"@
                    } else {
                        r matches Some(LoopIntervention::Level2 { message }) && message@ == "检测到重复工具调用模式: "@
                            + describe_seq(h.last()) + " (重复 "@ + decimal_seq(max_repeat(h)) + " 次)"@
                    }
                }
            }),
    {
        let ghost h = self.rounds();
        if self.history.len() < 2 {
            return None;
        }
        let n = self.history.len();
        let last = &self.history[n - 1];
        let mut exact: usize = 0;
        let mut pattern: usize = 0;
        let mut j: usize = 0;
        while j < n
            invariant
                n == self.history.len(),
                n >= 2,
                h == self.rounds(),
                last == self.history@[n - 1],
                j <= n,
                exact as nat == count_exact(h.subrange(0, j as int), h.last()),
                pattern as nat == count_pattern(h.subrange(0, j as int), h.last()),
                exact <= j,
                pattern <= j,
            decreases n - j,
        {
            let e = &self.history[j];
            let ghost hj = h.subrange(0, j as int + 1);
            assert(hj.drop_last() =~= h.subrange(0, j as int));
            assert(hj.last() == h[j as int]);
            assert(h.last() == round_sig(last@));
            assert(h[j as int] == round_sig(e@));
            if rounds_equal(e, last) {
                exact = exact + 1;
            }
            if same_pattern_exec(e, last) {
                pattern = pattern + 1;
            }
            j = j + 1;
        }
        assert(h.subrange(0, n as int) =~= h);
        let m = if exact >= pattern { exact } else { pattern };
        if m >= 2 {
            self.escalation_count = self.escalation_count + 1;
            let desc = describe_pattern(last);
            let count = decimal_string(m as u64);
            if self.escalation_count >= 2 {
                let mut message = concat2("同一工具调用模式重复 ", count.as_str());
                message.append(" 次，建议降级或终止");
                return Some(LoopIntervention::Level3 { message });
            }
            let mut message = concat2("检测到重复工具调用模式: ", desc.as_str());
            message.append(" (重复 ");
            message.append(count.as_str());
            message.append(" 次)");
            return Some(LoopIntervention::Level2 { message });
        }
        None
    }
}

/// Whether two rounds have equal (name, arguments) signatures.
fn rounds_equal(a: &Vec<ToolCall>, b: &Vec<ToolCall>) -> (r: bool)
    ensures
        r == (round_sig(a@) == round_sig(b@)),
{
    let ghost sa = round_sig(a@);
    let ghost sb = round_sig(b@);
    if a.len() != b.len() {
        assert(sa.len() != sb.len());
        return false;
    }
    let mut i: usize = 0;
    while i < a.len()
        invariant
            a.len() == b.len(),
            i <= a.len(),
            sa == round_sig(a@),
            sb == round_sig(b@),
            forall|k: int| 0 <= k < i ==> sa[k] == sb[k],
        decreases a.len() - i,
    {
        if !(a[i].name == b[i].name && a[i].arguments == b[i].arguments) {
            assert(sa[i as int] != sb[i as int]);
            return false;
        }
        i = i + 1;
    }
    assert(sa =~= sb);
    true
}

/// Whether name `x` is the tool name of some call in `v`.
fn has_name(v: &Vec<ToolCall>, x: &String) -> (r: bool)
    ensures
        r == round_names(round_sig(v@)).contains(x@),
{
    let ghost names = round_names(round_sig(v@));
    let mut i: usize = 0;
    while i < v.len()
        invariant
            i <= v.len(),
            names == round_names(round_sig(v@)),
            forall|k: int| 0 <= k < i ==> names[k] != x@,
        decreases v.len() - i,
    {
        if v[i].name == *x {
            assert(names[i as int] == x@);
            return true;
        }
        i = i + 1;
    }
    false
}

/// Whether every name of `a` is a name of `b`.
fn names_within(a: &Vec<ToolCall>, b: &Vec<ToolCall>) -> (r: bool)
    ensures
        r == round_names(round_sig(a@)).to_set().subset_of(
            round_names(round_sig(b@)).to_set(),
        ),
{
    let ghost na = round_names(round_sig(a@));
    let ghost nb = round_names(round_sig(b@));
    let mut i: usize = 0;
    while i < a.len()
        invariant
            i <= a.len(),
            na == round_names(round_sig(a@)),
            nb == round_names(round_sig(b@)),
            forall|k: int| 0 <= k < i ==> nb.contains(na[k]),
        decreases a.len() - i,
    {
        if !has_name(b, &a[i].name) {
            assert(na[i as int] == a@[i as int].name@);
            assert(na.to_set().contains(na[i as int]));
            assert(!nb.to_set().contains(na[i as int]));
            return false;
        }
        i = i + 1;
    }
    assert forall|x: Seq<char>| na.to_set().contains(x) implies nb.to_set().contains(x) by {
        assert(na.contains(x));
        let k = choose|k: int| 0 <= k < na.len() && na[k] == x;
    }
    true
}

/// Whether two rounds have the same name pattern.
fn same_pattern_exec(a: &Vec<ToolCall>, b: &Vec<ToolCall>) -> (r: bool)
    ensures
        r == same_name_pattern(
            round_sig(a@),
            round_sig(b@),
        ),
{
    let ghost na = round_names(round_sig(a@)).to_set();
    let ghost nb = round_names(round_sig(b@)).to_set();
    if a.len() != b.len() {
        return false;
    }
    let x = names_within(a, b);
    let y = names_within(b, a);
    proof {
        if x && y {
            assert(na =~= nb);
        }
    }
    x && y
}

/// The round's tool names joined with " → ".
fn describe_pattern(calls: &Vec<ToolCall>) -> (s: String)
    ensures
        s@ == describe_seq(round_sig(calls@)),
{
    let ghost names = round_names(round_sig(calls@));
    let mut s = String::new();
    let mut i: usize = 0;
    while i < calls.len()
        invariant
            i <= calls.len(),
            names == round_names(round_sig(calls@)),
            s@ == join_seq(names.subrange(0, i as int), " → "@),
        decreases calls.len() - i,
    {
        let ghost prev = names.subrange(0, i as int);
        if i > 0 {
            s.append(" → ");
        }
        s.append(calls[i].name.as_str());
        i = i + 1;
        proof {
            let cur = names.subrange(0, i as int);
            assert(cur.drop_last() =~= prev);
            assert(cur.last() == calls@[i - 1].name@);
            if i == 1 {
                assert(s@ =~= cur[0]);
            }
        }
    }
    assert(names.subrange(0, calls.len() as int) =~= names);
    s
}

/// Some call of round `r` is to the tool named `x`.
pub open spec fn calls_name(r: RoundSig, x: Seq<char>) -> bool {
    exists|j: int| 0 <= j < r.len() && #[trigger] r[j].0 == x
}

proof fn lemma_names_set(r: RoundSig, x: Seq<char>)
    ensures
        round_names(r).to_set().contains(x) == calls_name(r, x),
{
    let n = round_names(r);
    if n.to_set().contains(x) {
        let j = choose|j: int| 0 <= j < n.len() && n[j] == x;
        assert(r[j].0 == x);
    }
    if calls_name(r, x) {
        let j = choose|j: int| 0 <= j < r.len() && #[trigger] r[j].0 == x;
        assert(n[j] == x);
        assert(n.contains(x));
    }
}

/// Two rounds share a name pattern exactly when they make as many calls and every tool
/// called in either round is called in the other; the relation is symmetric, and a round
/// that calls a tool the last round does not call never adds to its repeat count.
pub proof fn lemma_same_pattern_names(a: RoundSig, b: RoundSig, h: Seq<RoundSig>)
    ensures
        same_name_pattern(a, b) <==> (a.len() == b.len() && forall|x: Seq<char>|
            #[trigger] calls_name(a, x) == calls_name(b, x)),
        same_name_pattern(a, b) == same_name_pattern(b, a),
        (exists|i: int| 0 <= i < a.len() && !calls_name(b, #[trigger] a[i].0)) ==> count_pattern(h.push(a), b)
            == count_pattern(h, b),
{
    let sa = round_names(a).to_set();
    let sb = round_names(b).to_set();
    if a.len() == b.len() && forall|x: Seq<char>| #[trigger] calls_name(a, x) == calls_name(b, x) {
        assert forall|x: Seq<char>| sa.contains(x) == sb.contains(x) by {
            lemma_names_set(a, x);
            lemma_names_set(b, x);
            assert(calls_name(a, x) == calls_name(b, x));
        }
        assert(sa =~= sb);
    }
    if same_name_pattern(a, b) {
        assert forall|x: Seq<char>| #[trigger] calls_name(a, x) == calls_name(b, x) by {
            lemma_names_set(a, x);
            lemma_names_set(b, x);
        }
    }
    if exists|i: int| 0 <= i < a.len() && !calls_name(b, #[trigger] a[i].0) {
        let i = choose|i: int| 0 <= i < a.len() && !calls_name(b, #[trigger] a[i].0);
        assert(calls_name(a, a[i].0));
        lemma_names_set(a, a[i].0);
        lemma_names_set(b, a[i].0);
        assert(!same_name_pattern(a, b));
        assert(h.push(a).drop_last() =~= h);
    }
}

/// A round repeated exactly also repeats its name pattern, so the pattern count of the
/// last round is never below its exact count, and each holds the last round itself.
pub proof fn lemma_exact_repeat_is_pattern_repeat(h: Seq<RoundSig>, last: RoundSig)
    ensures
        count_pattern(h, last) >= count_exact(h, last),
        h.len() > 0 && h.last() == last ==> count_exact(h, last) >= 1 && count_pattern(h, last) >= 1,
        count_exact(h.push(last), last) == count_exact(h, last) + 1,
    decreases h.len(),
{
    assert(h.push(last).drop_last() =~= h);
    lemma_same_pattern_names(last, last, Seq::empty());
    assert forall|x: Seq<char>| #[trigger] calls_name(last, x) == calls_name(last, x) by {}
    if h.len() > 0 {
        lemma_exact_repeat_is_pattern_repeat(h.drop_last(), last);
        if h.last() == last {
            assert(same_name_pattern(h.last(), last));
        }
    }
}

} // verus!
