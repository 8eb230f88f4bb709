//! The audit log of policy decisions.
use vstd::prelude::*;
use super::roles::{PolicyDecision, Role, ToolName};
use crate::clock::now_millis;

verus! {

/// One logged decision.
pub struct AuditEntry {
    pub id: u64,
    /// Time of the decision, in milliseconds since the Unix epoch.
    pub timestamp: i64,
    pub role: Role,
    pub tool_name: ToolName,
    pub decision: PolicyDecision,
    pub message: String,
}

/// What an entry records, without its time stamp: id, role, tool, decision, message.
pub type EntryView = (u64, Role, ToolName, PolicyDecision, Seq<char>);

/// The recorded part of an entry.
pub open spec fn entry_view(e: AuditEntry) -> EntryView {
    (e.id, e.role, e.tool_name, e.decision, e.message@)
}

/// Log of decisions; ids count up from 1.
pub struct AuditLog {
    entries: Vec<AuditEntry>,
    next_id: u64,
}

impl AuditLog {
    /// The recorded entries, oldest first.
    pub closed spec fn view_entries(&self) -> Seq<EntryView> {
        self.entries@.map_values(|e: AuditEntry| entry_view(e))
    }

    /// The id the next entry gets.
    pub closed spec fn next(&self) -> u64 {
        self.next_id
    }

    /// Entry `k` has id `k + 1`, and the next id follows the last one.
    pub closed spec fn wf(&self) -> bool {
        &&& self.next_id == self.entries@.len() + 1
        &&& forall|k: int| 0 <= k < self.entries@.len() ==> (#[trigger] self.entries@[k]).id == k + 1
    }

    /// An empty log.
    pub fn new() -> (l: AuditLog)
        ensures
            l.wf(),
            l.view_entries() == Seq::<EntryView>::empty(),
            l.next() == 1,
    {
        let l = AuditLog { entries: Vec::new(), next_id: 1 };
        assert(l.view_entries() =~= Seq::<EntryView>::empty());
        l
    }

    /// Appends `entry` with the next id and the current time.
    pub fn record(&mut self, entry: AuditEntry)
        requires
            old(self).wf(),
            old(self).next() < u64::MAX,
        ensures
            final(self).wf(),
            final(self).next() == old(self).next() + 1,
            final(self).view_entries() == old(self).view_entries().push(
                (old(self).next(), entry.role, entry.tool_name, entry.decision, entry.message@),
            ),
    {
        let mut entry = entry;
        entry.id = self.next_id;
        entry.timestamp = now_millis();
        self.next_id = self.next_id + 1;
        self.entries.push(entry);
        assert(self.view_entries() =~= old(self).view_entries().push(
            (old(self).next(), entry.role, entry.tool_name, entry.decision, entry.message@),
        ));
    }

    /// The entries, oldest first.
    pub fn entries(&self) -> (v: &Vec<AuditEntry>)
        ensures
            v@.map_values(|e: AuditEntry| entry_view(e)) == self.view_entries(),
    {
        &self.entries
    }

    /// A new entry for a decision, to be passed to `record`.
    pub fn entry(role: Role, tool_name: ToolName, decision: PolicyDecision, message: String) -> (e: AuditEntry)
        ensures
            e.id == 0,
            e.role == role,
            e.tool_name == tool_name,
            e.decision == decision,
            e.message == message,
    {
        AuditEntry { id: 0, timestamp: now_millis(), role, tool_name, decision, message }
    }
}

impl Default for AuditLog {
    fn default() -> (l: AuditLog)
        ensures
            l.wf(),
            l.view_entries() == Seq::<EntryView>::empty(),
            l.next() == 1,
    {
        AuditLog::new()
    }
}

} // verus!
