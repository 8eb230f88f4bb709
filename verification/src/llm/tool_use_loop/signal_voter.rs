//! Negative-signal voting that decides when to escalate.
use vstd::prelude::*;

verus! {

/// Kinds of negative signal.
#[derive(PartialEq, Eq, Structural, Clone, Copy)]
pub enum NegativeSignal {
    RepeatedToolCall,
    ToolExecutionFailed,
    TokenOverBudget,
    ContentAnomaly,
    ResponseTimeout,
    RoundExceeded,
}

/// Strong signals deserve attention on their own.
pub open spec fn strong(s: NegativeSignal) -> bool {
    s == NegativeSignal::RepeatedToolCall || s == NegativeSignal::ToolExecutionFailed
}

impl NegativeSignal {
    pub fn is_strong(&self) -> (b: bool)
        ensures
            b == strong(*self),
    {
        match self {
            NegativeSignal::RepeatedToolCall | NegativeSignal::ToolExecutionFailed => true,
            _ => false,
        }
    }
}

/// Collects distinct negative signals.
pub struct SignalVoter {
    signals: Vec<NegativeSignal>,
}

/// The signals of a voter form a finite set.
pub proof fn lemma_signals_finite(v: &SignalVoter)
    ensures
        v.signals().finite(),
{
    v.signals@.lemma_cardinality_of_set();
}

impl SignalVoter {
    /// The set of signals received so far.
    pub closed spec fn signals(&self) -> Set<NegativeSignal> {
        self.signals@.to_set()
    }

    /// Signals are stored once each.
    pub closed spec fn wf(&self) -> bool {
        self.signals@.no_duplicates()
    }

    pub fn new() -> (v: SignalVoter)
        ensures
            v.wf(),
            v.signals() == Set::<NegativeSignal>::empty(),
            v.signals().finite(),
    {
        let v = SignalVoter { signals: Vec::new() };
        assert(v.signals() =~= Set::<NegativeSignal>::empty());
        v
    }

    /// Adds a signal; a signal already present is not counted twice.
    pub fn add(&mut self, signal: NegativeSignal)
        requires
            old(self).wf(),
        ensures
            final(self).wf(),
            final(self).signals() == old(self).signals().insert(signal),
            final(self).signals().finite(),
            final(self).signals().len() == old(self).signals().len() + (if old(self).signals().contains(signal) {
                0int
            } else {
                1int
            }),
    {
        proof {
            lemma_signals_finite(&*self);
        }
        let mut i: usize = 0;
        while i < self.signals.len()
            invariant
                i <= self.signals.len(),
                self.signals@ == old(self).signals@,
                self.signals@.no_duplicates(),
                forall|k: int| 0 <= k < i ==> self.signals@[k] != signal,
            decreases self.signals.len() - i,
        {
            if self.signals[i] == signal {
                assert(self.signals@.to_set().contains(signal));
                assert(self.signals@.to_set().insert(signal) =~= self.signals@.to_set());
                return;
            }
            i = i + 1;
        }
        let ghost before = self.signals@;
        self.signals.push(signal);
        assert forall|x: NegativeSignal| #[trigger] self.signals@.contains(x) <==> before.to_set().insert(signal).contains(x) by {
            if before.contains(x) {
                let k = choose|k: int| 0 <= k < before.len() && before[k] == x;
                assert(self.signals@[k] == x);
            }
            if self.signals@.contains(x) && x != signal {
                let k = choose|k: int| 0 <= k < self.signals@.len() && self.signals@[k] == x;
                assert(k < before.len());
                assert(before[k] == x);
            }
            if x == signal {
                assert(self.signals@[before.len() as int] == signal);
            }
        }
        assert(self.signals@.to_set() =~= before.to_set().insert(signal));
    }

    /// Number of distinct signals.
    pub fn signal_count(&self) -> (n: usize)
        requires
            self.wf(),
        ensures
            n as nat == self.signals().len(),
    {
        proof {
            self.signals@.unique_seq_to_set();
        }
        self.signals.len()
    }

    /// Escalate once at least three distinct signals arrived, one of them strong.
    pub fn should_escalate(&self) -> (b: bool)
        requires
            self.wf(),
        ensures
            b == (self.signals().len() >= 3 && exists|s: NegativeSignal|
                self.signals().contains(s) && strong(s)),
            b == escalates(self.signals()),
    {
        proof {
            self.signals@.unique_seq_to_set();
        }
        if self.signals.len() < 3 {
            return false;
        }
        let mut i: usize = 0;
        while i < self.signals.len()
            invariant
                i <= self.signals.len(),
                self.signals@.len() >= 3,
                self.signals@.len() == self.signals().len(),
                forall|k: int| 0 <= k < i ==> !strong(self.signals@[k]),
            decreases self.signals.len() - i,
        {
            if self.signals[i].is_strong() {
                assert(self.signals@.contains(self.signals@[i as int]));
                assert(self.signals().contains(self.signals@[i as int]));
                return true;
            }
            i = i + 1;
        }
        assert forall|s: NegativeSignal| self.signals().contains(s) implies !strong(s) by {
            assert(self.signals@.contains(s));
        }
        false
    }
}

/// The escalation condition: at least three distinct signals, one of them strong.
pub open spec fn escalates(signals: Set<NegativeSignal>) -> bool {
    signals.len() >= 3 && exists|s: NegativeSignal| signals.contains(s) && strong(s)
}

/// Escalation is never withdrawn: once the signals escalate, adding any signal keeps them
/// escalating; adding a signal already present changes nothing.
pub proof fn lemma_escalation_stays(signals: Set<NegativeSignal>, extra: NegativeSignal)
    requires
        signals.finite(),
    ensures
        escalates(signals) ==> escalates(signals.insert(extra)),
        signals.contains(extra) ==> signals.insert(extra) == signals,
{
    if signals.contains(extra) {
        assert(signals.insert(extra) =~= signals);
    } else {
        assert(signals.insert(extra).len() == signals.len() + 1);
    }
    if escalates(signals) {
        let s = choose|s: NegativeSignal| signals.contains(s) && strong(s);
        assert(signals.insert(extra).contains(s));
    }
}

/// Exactly two kinds of signal are strong, repeated tool calls and failed tool executions;
/// so signals made only of the other four kinds never escalate, however many of them
/// arrive, and three distinct signals escalate as soon as one of those two is among them.
pub proof fn lemma_strong_kinds(s: NegativeSignal, signals: Set<NegativeSignal>)
    ensures
        strong(s) <==> (s == NegativeSignal::RepeatedToolCall || s == NegativeSignal::ToolExecutionFailed),
        !strong(NegativeSignal::TokenOverBudget),
        !strong(NegativeSignal::ContentAnomaly),
        !strong(NegativeSignal::ResponseTimeout),
        !strong(NegativeSignal::RoundExceeded),
        signals.finite() && signals.len() < 3 ==> !escalates(signals),
        (forall|x: NegativeSignal| #[trigger] signals.contains(x) ==> x == NegativeSignal::TokenOverBudget
            || x == NegativeSignal::ContentAnomaly || x == NegativeSignal::ResponseTimeout
            || x == NegativeSignal::RoundExceeded) ==> !escalates(signals),
        signals.len() >= 3 && (signals.contains(NegativeSignal::RepeatedToolCall) || signals.contains(
            NegativeSignal::ToolExecutionFailed,
        )) ==> escalates(signals),
{
    if signals.contains(NegativeSignal::RepeatedToolCall) {
        assert(strong(NegativeSignal::RepeatedToolCall));
    }
    if signals.contains(NegativeSignal::ToolExecutionFailed) {
        assert(strong(NegativeSignal::ToolExecutionFailed));
    }
}

} // verus!
