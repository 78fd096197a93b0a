//! The broker that routes the nested tool calls and notifications of a
//! code-mode cell to the host of the turn that owns it. Hosts are known by
//! the id the broker gave them; the caller keeps the host objects by that id.

use vstd::prelude::*;

use crate::source::{all_ws, is_blank};
use crate::trim::same_text;

verus! {

/// A key and what the broker holds for it.
pub struct HostEntry<V> {
    pub key: String,
    pub value: V,
}

/// The map that a list of entries with distinct keys stands for.
pub open spec fn entries_map<V>(entries: Seq<HostEntry<V>>) -> Map<Seq<char>, V>
    decreases entries.len(),
{
    if entries.len() == 0 {
        Map::empty()
    } else {
        entries_map(entries.drop_last()).insert(entries.last().key@, entries.last().value)
    }
}

pub open spec fn distinct_keys<V>(entries: Seq<HostEntry<V>>) -> bool {
    forall|i: int, j: int|
        0 <= i < j < entries.len() ==> #[trigger] entries[i].key@ != #[trigger] entries[j].key@
}

pub proof fn lemma_entries_map_dom<V>(entries: Seq<HostEntry<V>>)
    ensures
        forall|k: Seq<char>|
            #[trigger] entries_map(entries).dom().contains(k) <==> exists|i: int|
                0 <= i < entries.len() && entries[i].key@ == k,
    decreases entries.len(),
{
    if entries.len() > 0 {
        let init = entries.drop_last();
        lemma_entries_map_dom(init);
        assert forall|k: Seq<char>|
            #[trigger] entries_map(entries).dom().contains(k) <==> exists|i: int|
                0 <= i < entries.len() && entries[i].key@ == k by {
            if entries_map(entries).dom().contains(k) && k != entries.last().key@ {
                assert(entries_map(init).dom().contains(k));
                let i = choose|i: int| 0 <= i < init.len() && init[i].key@ == k;
                assert(entries[i].key@ == k);
            }
            if exists|i: int| 0 <= i < entries.len() && entries[i].key@ == k {
                let i = choose|i: int| 0 <= i < entries.len() && entries[i].key@ == k;
                if i < entries.len() - 1 {
                    assert(init[i].key@ == k);
                    assert(entries_map(init).dom().contains(k));
                }
            }
        }
    }
}

pub proof fn lemma_entries_map_value<V>(entries: Seq<HostEntry<V>>, i: int)
    requires
        distinct_keys(entries),
        0 <= i < entries.len(),
    ensures
        entries_map(entries).dom().contains(entries[i].key@),
        entries_map(entries)[entries[i].key@] == entries[i].value,
    decreases entries.len(),
{
    let init = entries.drop_last();
    if i < entries.len() - 1 {
        assert(init[i] == entries[i]);
        lemma_entries_map_value(init, i);
        assert(entries[i].key@ != entries.last().key@);
    }
}

pub proof fn lemma_entries_map_update<V>(entries: Seq<HostEntry<V>>, i: int, e: HostEntry<V>)
    requires
        distinct_keys(entries),
        0 <= i < entries.len(),
        e.key@ == entries[i].key@,
    ensures
        distinct_keys(entries.update(i, e)),
        entries_map(entries.update(i, e)) == entries_map(entries).insert(e.key@, e.value),
    decreases entries.len(),
{
    let u = entries.update(i, e);
    assert(distinct_keys(u)) by {
        assert forall|a: int, b: int| 0 <= a < b < u.len() implies #[trigger] u[a].key@
            != #[trigger] u[b].key@ by {
            assert(entries[a].key@ != entries[b].key@);
        }
    }
    if i == entries.len() - 1 {
        assert(u.drop_last() == entries.drop_last());
        lemma_entries_map_dom(entries.drop_last());
        assert(!entries_map(entries.drop_last()).dom().contains(e.key@)) by {
            if entries_map(entries.drop_last()).dom().contains(e.key@) {
                let j = choose|j: int|
                    0 <= j < entries.drop_last().len() && entries.drop_last()[j].key@ == e.key@;
                assert(entries[j].key@ == entries[i].key@);
            }
        }
        assert(entries_map(u) =~= entries_map(entries).insert(e.key@, e.value));
    } else {
        let init = entries.drop_last();
        assert(u.drop_last() == init.update(i, e));
        lemma_entries_map_update(init, i, e);
        assert(u.last() == entries.last());
        assert(entries.last().key@ != e.key@);
        assert(entries_map(u) =~= entries_map(entries).insert(e.key@, e.value));
    }
}

pub proof fn lemma_entries_map_push<V>(entries: Seq<HostEntry<V>>, e: HostEntry<V>)
    requires
        distinct_keys(entries),
        !entries_map(entries).dom().contains(e.key@),
    ensures
        distinct_keys(entries.push(e)),
        entries_map(entries.push(e)) == entries_map(entries).insert(e.key@, e.value),
{
    lemma_entries_map_dom(entries);
    let p = entries.push(e);
    assert(p.drop_last() == entries);
    assert forall|a: int, b: int| 0 <= a < b < p.len() implies #[trigger] p[a].key@
        != #[trigger] p[b].key@ by {
        if b == entries.len() {
            assert(entries[a].key@ != e.key@);
        } else {
            assert(entries[a].key@ != entries[b].key@);
        }
    }
}

pub proof fn lemma_entries_map_remove<V>(entries: Seq<HostEntry<V>>, i: int)
    requires
        distinct_keys(entries),
        0 <= i < entries.len(),
    ensures
        distinct_keys(entries.remove(i)),
        entries_map(entries.remove(i)) == entries_map(entries).remove(entries[i].key@),
    decreases entries.len(),
{
    let r = entries.remove(i);
    let k = entries[i].key@;
    assert(distinct_keys(r)) by {
        assert forall|a: int, b: int| 0 <= a < b < r.len() implies #[trigger] r[a].key@
            != #[trigger] r[b].key@ by {
            if a < i && b < i {
                assert(entries[a].key@ != entries[b].key@);
            } else if a < i {
                assert(entries[a].key@ != entries[b + 1].key@);
            } else {
                assert(entries[a + 1].key@ != entries[b + 1].key@);
            }
        }
    }
    let init = entries.drop_last();
    if i == entries.len() - 1 {
        assert(r == init);
        lemma_entries_map_dom(init);
        assert(!entries_map(init).dom().contains(k)) by {
            if entries_map(init).dom().contains(k) {
                let j = choose|j: int| 0 <= j < init.len() && init[j].key@ == k;
                assert(entries[j].key@ == entries[i].key@);
            }
        }
        assert(entries_map(r) =~= entries_map(entries).remove(k));
    } else {
        assert(r.drop_last() == init.remove(i));
        assert(r.last() == entries.last());
        lemma_entries_map_remove(init, i);
        assert(init[i] == entries[i]);
        assert(entries.last().key@ != k);
        assert(entries_map(r) =~= entries_map(entries).remove(k));
    }
}

/// Finds the entry of a key.
fn find_entry<V>(entries: &Vec<HostEntry<V>>, key: &str) -> (r: Option<usize>)
    ensures
        match r {
            Some(i) => i < entries.len() && entries@[i as int].key@ == key@,
            None => forall|i: int| 0 <= i < entries.len() ==> entries@[i].key@ != key@,
        },
{
    let mut i: usize = 0;
    while i < entries.len()
        invariant
            i <= entries.len(),
            forall|j: int| 0 <= j < i ==> entries@[j].key@ != key@,
        decreases entries.len() - i,
    {
        if same_text(entries[i].key.as_str(), key) {
            return Some(i);
        }
        i = i + 1;
    }
    None
}

/// The worker handle of a turn: while it is held, the turn's host serves the
/// cells bound to the turn. Releasing it withdraws that host, unless a later
/// worker of the same turn replaced it.
pub struct CodeModeDispatchWorker {
    pub turn_id: String,
    pub host_id: u64,
}

/// Which host serves each turn and each cell, and the id of the next host.
pub struct CodeModeDispatchBroker {
    turn_hosts: Vec<HostEntry<u64>>,
    cell_hosts: Vec<HostEntry<Option<u64>>>,
    next_host_id: u64,
}

/// The message when a cell is bound to a turn without a host.
pub open spec fn host_unavailable(turn_id: Seq<char>) -> Seq<char> {
    "code mode dispatch host is unavailable for turn "@ + turn_id
}

/// The turn hosts after a turn worker starts with host id `id`.
pub open spec fn turns_after_start(turns: Map<Seq<char>, u64>, turn_id: Seq<char>, id: u64) -> Map<
    Seq<char>,
    u64,
> {
    turns.insert(turn_id, id)
}

/// The turn hosts after a worker for `turn_id` with host `id` is released.
pub open spec fn turns_after_release(turns: Map<Seq<char>, u64>, turn_id: Seq<char>, id: u64) -> Map<
    Seq<char>,
    u64,
> {
    if turns.dom().contains(turn_id) && turns[turn_id] == id {
        turns.remove(turn_id)
    } else {
        turns
    }
}

/// The host id after `id`; the counter wraps around.
pub open spec fn following_host_id(id: u64) -> u64 {
    if id == u64::MAX {
        0
    } else {
        (id + 1) as u64
    }
}

impl CodeModeDispatchBroker {
    /// The host id of each turn that has one.
    pub closed spec fn turn_hosts(&self) -> Map<Seq<char>, u64> {
        entries_map(self.turn_hosts@)
    }

    /// The host each known cell is bound to, if any yet.
    pub closed spec fn cell_hosts(&self) -> Map<Seq<char>, Option<u64>> {
        entries_map(self.cell_hosts@)
    }

    /// The id that the next turn worker gets.
    pub closed spec fn next_host_id(&self) -> u64 {
        self.next_host_id
    }

    pub closed spec fn wf(&self) -> bool {
        distinct_keys(self.turn_hosts@) && distinct_keys(self.cell_hosts@)
    }

    /// A broker with no hosts; the first host gets id 1.
    pub fn new() -> (r: Self)
        ensures
            r.wf(),
            r.turn_hosts() == Map::<Seq<char>, u64>::empty(),
            r.cell_hosts() == Map::<Seq<char>, Option<u64>>::empty(),
            r.next_host_id() == 1,
    {
        CodeModeDispatchBroker { turn_hosts: Vec::new(), cell_hosts: Vec::new(), next_host_id: 1 }
    }

    /// Starts serving `turn_id` with a fresh host, replacing the turn's
    /// former host if it had one, and returns the worker that holds it.
    pub fn start_turn_worker(&mut self, turn_id: String) -> (w: CodeModeDispatchWorker)
        requires
            old(self).wf(),
        ensures
            final(self).wf(),
            w.turn_id@ == turn_id@,
            w.host_id == old(self).next_host_id(),
            final(self).turn_hosts() == turns_after_start(
                old(self).turn_hosts(),
                turn_id@,
                old(self).next_host_id(),
            ),
            final(self).cell_hosts() == old(self).cell_hosts(),
            final(self).next_host_id() == following_host_id(old(self).next_host_id()),
    {
        let host_id = self.next_host_id;
        self.next_host_id = self.next_host_id.wrapping_add(1);
        let found = find_entry(&self.turn_hosts, turn_id.as_str());
        let ghost before = self.turn_hosts@;
        match found {
            Some(i) => {
                let e = HostEntry { key: turn_id.clone(), value: host_id };
                proof {
                    lemma_entries_map_update(before, i as int, e);
                }
                self.turn_hosts.set(i, e);
            },
            None => {
                let e = HostEntry { key: turn_id.clone(), value: host_id };
                proof {
                    lemma_entries_map_dom(before);
                    lemma_entries_map_push(before, e);
                }
                self.turn_hosts.push(e);
            },
        }
        CodeModeDispatchWorker { turn_id, host_id }
    }

    /// Withdraws the worker's host from its turn, unless the turn is served
    /// by another host by now.
    pub fn release_worker(&mut self, worker: &CodeModeDispatchWorker)
        requires
            old(self).wf(),
        ensures
            final(self).wf(),
            final(self).turn_hosts() == turns_after_release(
                old(self).turn_hosts(),
                worker.turn_id@,
                worker.host_id,
            ),
            final(self).cell_hosts() == old(self).cell_hosts(),
            final(self).next_host_id() == old(self).next_host_id(),
    {
        let ghost before = self.turn_hosts@;
        proof {
            lemma_entries_map_dom(before);
        }
        match find_entry(&self.turn_hosts, worker.turn_id.as_str()) {
            Some(i) => {
                proof {
                    lemma_entries_map_value(before, i as int);
                }
                if self.turn_hosts[i].value == worker.host_id {
                    proof {
                        lemma_entries_map_remove(before, i as int);
                    }
                    self.turn_hosts.remove(i);
                }
            },
            None => {},
        }
    }

    /// The host a cell's calls go to: binds the cell to the host of
    /// `turn_id`, or fails when the turn has none.
    pub fn bind_cell_to_turn(&mut self, cell_id: &String, turn_id: &String) -> (r: Result<(), String>)
        requires
            old(self).wf(),
        ensures
            final(self).wf(),
            final(self).turn_hosts() == old(self).turn_hosts(),
            final(self).next_host_id() == old(self).next_host_id(),
            old(self).turn_hosts().dom().contains(turn_id@) ==> r is Ok && final(self).cell_hosts()
                == old(self).cell_hosts().insert(
                cell_id@,
                Some(old(self).turn_hosts()[turn_id@]),
            ),
            !old(self).turn_hosts().dom().contains(turn_id@) ==> (r matches Err(m) && m@
                == host_unavailable(turn_id@)) && final(self).cell_hosts() == old(self).cell_hosts(),
    {
        proof {
            lemma_entries_map_dom(self.turn_hosts@);
        }
        let host_id = match find_entry(&self.turn_hosts, turn_id.as_str()) {
            Some(i) => {
                proof {
                    lemma_entries_map_value(self.turn_hosts@, i as int);
                }
                self.turn_hosts[i].value
            },
            None => {
                let mut text = String::from_str("code mode dispatch host is unavailable for turn ");
                text.append(turn_id.as_str());
                return Err(text);
            },
        };
        self.set_cell_host(cell_id, Some(host_id));
        Ok(())
    }

    fn set_cell_host(&mut self, cell_id: &String, host: Option<u64>)
        requires
            old(self).wf(),
        ensures
            final(self).wf(),
            final(self).turn_hosts() == old(self).turn_hosts(),
            final(self).next_host_id() == old(self).next_host_id(),
            final(self).cell_hosts() == old(self).cell_hosts().insert(cell_id@, host),
    {
        let ghost before = self.cell_hosts@;
        let e = HostEntry { key: cell_id.clone(), value: host };
        match find_entry(&self.cell_hosts, cell_id.as_str()) {
            Some(i) => {
                proof {
                    lemma_entries_map_update(before, i as int, e);
                }
                self.cell_hosts.set(i, e);
            },
            None => {
                proof {
                    lemma_entries_map_dom(before);
                    lemma_entries_map_push(before, e);
                }
                self.cell_hosts.push(e);
            },
        }
    }

    /// The host a cell's calls wait for: registers the cell, unbound, if the
    /// broker did not know it, and returns its host if it has one.
    pub fn cell_host(&mut self, cell_id: &String) -> (r: Option<u64>)
        requires
            old(self).wf(),
        ensures
            final(self).wf(),
            final(self).turn_hosts() == old(self).turn_hosts(),
            final(self).next_host_id() == old(self).next_host_id(),
            old(self).cell_hosts().dom().contains(cell_id@) ==> final(self).cell_hosts() == old(
                self,
            ).cell_hosts() && r == old(self).cell_hosts()[cell_id@],
            !old(self).cell_hosts().dom().contains(cell_id@) ==> final(self).cell_hosts() == old(
                self,
            ).cell_hosts().insert(cell_id@, None) && r is None,
    {
        proof {
            lemma_entries_map_dom(self.cell_hosts@);
        }
        match find_entry(&self.cell_hosts, cell_id.as_str()) {
            Some(i) => {
                proof {
                    lemma_entries_map_value(self.cell_hosts@, i as int);
                }
                self.cell_hosts[i].value
            },
            None => {
                self.set_cell_host(cell_id, None);
                None
            },
        }
    }

    /// Whether the broker knows the cell: it was bound or waited on, and not
    /// closed since.
    pub fn has_cell(&self, cell_id: &String) -> (r: bool)
        requires
            self.wf(),
        ensures
            r == self.cell_hosts().dom().contains(cell_id@),
    {
        proof {
            lemma_entries_map_dom(self.cell_hosts@);
        }
        find_entry(&self.cell_hosts, cell_id.as_str()).is_some()
    }

    /// Forgets a closed cell.
    pub fn close_cell(&mut self, cell_id: &String)
        requires
            old(self).wf(),
        ensures
            final(self).wf(),
            final(self).turn_hosts() == old(self).turn_hosts(),
            final(self).next_host_id() == old(self).next_host_id(),
            final(self).cell_hosts() == old(self).cell_hosts().remove(cell_id@),
    {
        let ghost before = self.cell_hosts@;
        proof {
            lemma_entries_map_dom(before);
        }
        match find_entry(&self.cell_hosts, cell_id.as_str()) {
            Some(i) => {
                proof {
                    lemma_entries_map_remove(before, i as int);
                }
                self.cell_hosts.remove(i);
            },
            None => {
                assert(old(self).cell_hosts().remove(cell_id@) =~= old(self).cell_hosts());
            },
        }
    }
}

/// A turn worker that was replaced by a later worker of the same turn does
/// not withdraw the later worker's host when it is released.
pub proof fn law_stale_release_keeps_newer_host(
    turns: Map<Seq<char>, u64>,
    turn_id: Seq<char>,
    first: u64,
)
    ensures
        ({
            let second = following_host_id(first);
            let started = turns_after_start(turns_after_start(turns, turn_id, first), turn_id, second);
            &&& turns_after_release(started, turn_id, first) == started
            &&& started.dom().contains(turn_id)
            &&& started[turn_id] == second
        }),
{
}

/// Releasing the worker that still serves its turn leaves the turn without
/// a host, and no other turn changes.
pub proof fn law_release_withdraws_own_host(turns: Map<Seq<char>, u64>, turn_id: Seq<char>, id: u64)
    ensures
        turns_after_release(turns_after_start(turns, turn_id, id), turn_id, id) == turns.remove(
            turn_id,
        ),
{
    assert(turns_after_start(turns, turn_id, id).remove(turn_id) =~= turns.remove(turn_id));
}

/// Consecutive host ids differ, so a worker is never mistaken for the one
/// started right after it.
pub proof fn law_following_host_id_is_new(id: u64)
    ensures
        following_host_id(id) != id,
{
}


/// The error of a nested call whose cell host never came because the call
/// was cancelled.
pub const DISPATCH_CANCELLED_MESSAGE: &'static str = "code mode nested dispatch cancelled";

/// The error of a nested call whose cell's host channel closed.
pub const HOST_CLOSED_MESSAGE: &'static str = "code mode cell dispatch host closed";

/// The error of a nested tool call cancelled while its host ran it.
pub const TOOL_CALL_CANCELLED_MESSAGE: &'static str = "code mode nested tool call cancelled";

/// The error of a notification cancelled while its host delivered it.
pub const NOTIFICATION_CANCELLED_MESSAGE: &'static str = "code mode notification cancelled";

/// What the caller waiting for a cell's host observed.
pub enum HostWaitEvent {
    /// The wait begins; `cancelled` tells whether the call is cancelled already.
    Started { cancelled: bool },
    /// The cell's host as the broker holds it now.
    Looked { host_id: Option<u64> },
    /// The cell's host changed, or its channel closed.
    Changed { closed: bool },
    /// The call was cancelled while waiting.
    Cancelled,
}

/// What the waiting caller does next.
pub enum HostWaitAction {
    /// Read the cell's host from the broker.
    LookUp,
    /// Wait until the host changes or the call is cancelled.
    AwaitChange,
    /// Use this host.
    Ready { host_id: u64 },
    /// Give up with this error.
    Fail { message: String },
}

/// The spec view of a wait action.
pub enum HostWaitStep {
    LookUp,
    AwaitChange,
    Ready { host_id: u64 },
    Fail { message: Seq<char> },
}

impl View for HostWaitAction {
    type V = HostWaitStep;

    open spec fn view(&self) -> HostWaitStep {
        match self {
            HostWaitAction::LookUp => HostWaitStep::LookUp,
            HostWaitAction::AwaitChange => HostWaitStep::AwaitChange,
            HostWaitAction::Ready { host_id } => HostWaitStep::Ready { host_id: *host_id },
            HostWaitAction::Fail { message } => HostWaitStep::Fail { message: message@ },
        }
    }
}

/// The next step of a caller waiting for a cell's host: a cancelled call
/// fails, a bound host is used, an unbound cell is waited on, and a closed
/// channel fails.
pub open spec fn next_host_wait_step(event: HostWaitEvent) -> HostWaitStep {
    match event {
        HostWaitEvent::Started { cancelled } => if cancelled {
            HostWaitStep::Fail { message: DISPATCH_CANCELLED_MESSAGE@ }
        } else {
            HostWaitStep::LookUp
        },
        HostWaitEvent::Looked { host_id } => match host_id {
            Some(h) => HostWaitStep::Ready { host_id: h },
            None => HostWaitStep::AwaitChange,
        },
        HostWaitEvent::Changed { closed } => if closed {
            HostWaitStep::Fail { message: HOST_CLOSED_MESSAGE@ }
        } else {
            HostWaitStep::LookUp
        },
        HostWaitEvent::Cancelled => HostWaitStep::Fail { message: DISPATCH_CANCELLED_MESSAGE@ },
    }
}

/// The next action of a caller waiting for a cell's host.
pub fn host_wait_step(event: HostWaitEvent) -> (r: HostWaitAction)
    ensures
        r@ == next_host_wait_step(event),
{
    match event {
        HostWaitEvent::Started { cancelled } => if cancelled {
            HostWaitAction::Fail { message: DISPATCH_CANCELLED_MESSAGE.to_string() }
        } else {
            HostWaitAction::LookUp
        },
        HostWaitEvent::Looked { host_id } => match host_id {
            Some(h) => HostWaitAction::Ready { host_id: h },
            None => HostWaitAction::AwaitChange,
        },
        HostWaitEvent::Changed { closed } => if closed {
            HostWaitAction::Fail { message: HOST_CLOSED_MESSAGE.to_string() }
        } else {
            HostWaitAction::LookUp
        },
        HostWaitEvent::Cancelled => HostWaitAction::Fail {
            message: DISPATCH_CANCELLED_MESSAGE.to_string(),
        },
    }
}


/// A notification is passed to the turn only when its text is not blank.
pub fn should_notify(text: &str) -> (r: bool)
    ensures
        r == !all_ws(text@),
{
    !is_blank(text)
}

/// The error of a notification that found no running turn.
pub fn notify_failed_message(cell_id: &str) -> (r: String)
    ensures
        r@ == "failed to inject exec notify message for cell "@ + cell_id@ + ": no active turn"@,
{
    let mut text = String::from_str("failed to inject exec notify message for cell ");
    text.append(cell_id);
    text.append(": no active turn");
    text
}

} // verus!
