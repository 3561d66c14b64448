//! What the bot keeps while it runs: choices to be made, running operations and
//! the updates that it has already handled.

use std::collections::HashMap;
use std::collections::VecDeque;
use std::path::PathBuf;

use vstd::prelude::*;
use vstd::std_specs::hash::group_hash_axioms;

verus! {

broadcast use group_hash_axioms;

/// A path of the file system.
#[verifier::external_type_specification]
#[verifier::external_body]
pub struct ExPathBuf(PathBuf);

/// The number of updates that are remembered.
pub const SEEN_LIMIT: usize = 1000;

/// `window` after `key` was marked: a new key is put at the end, and the oldest
/// one leaves where the window is full.
pub open spec fn marked(window: Seq<(i64, i64)>, key: (i64, i64)) -> Seq<(i64, i64)> {
    if window.contains(key) {
        window
    } else if window.len() >= SEEN_LIMIT {
        window.drop_first().push(key)
    } else {
        window.push(key)
    }
}

/// The most recent distinct keys, oldest first.
pub struct SeenWindow {
    order: VecDeque<(i64, i64)>,
}

impl View for SeenWindow {
    type V = Seq<(i64, i64)>;

    closed spec fn view(&self) -> Seq<(i64, i64)> {
        self.order@
    }
}

impl SeenWindow {
    /// The window is within its limit and holds nothing twice.
    pub open spec fn wf(&self) -> bool {
        self@.len() <= SEEN_LIMIT && self@.no_duplicates()
    }

    /// A window without keys.
    pub fn new() -> (r: Self)
        ensures
            r@ == Seq::<(i64, i64)>::empty(),
            r.wf(),
    {
        SeenWindow { order: VecDeque::new() }
    }

    fn contains(&self, key: (i64, i64)) -> (r: bool)
        ensures
            r == self@.contains(key),
    {
        let mut i: usize = 0;
        while i < self.order.len()
            invariant
                i <= self.order@.len(),
                forall|k: int| 0 <= k < i ==> self.order@[k] != key,
            decreases self.order@.len() - i,
        {
            let held = self.order[i];
            if held.0 == key.0 && held.1 == key.1 {
                assert(self@[i as int] == key);
                return true;
            }
            i += 1;
        }
        false
    }

    /// Marks `key`, and tells whether it is new.
    pub fn mark(&mut self, key: (i64, i64)) -> (r: bool)
        requires
            old(self).wf(),
        ensures
            r == !old(self)@.contains(key),
            final(self)@ == marked(old(self)@, key),
            final(self).wf(),
    {
        if self.contains(key) {
            return false;
        }
        if self.order.len() >= SEEN_LIMIT {
            let _ = self.order.pop_front();
        }
        self.order.push_back(key);
        true
    }
}

/// A media whose quality a user has still to choose.
pub struct PendingChoice {
    pub url: String,
    pub title: String,
}

/// A running operation: its number, and a handle by which it can be aborted.
#[derive(Debug, PartialEq)]
pub struct Operation<H> {
    pub id: u64,
    pub handle: H,
}

/// `ops` without those numbered `id`.
pub open spec fn without<H>(ops: Seq<Operation<H>>, id: u64) -> Seq<Operation<H>>
    decreases ops.len(),
{
    if ops.len() == 0 {
        Seq::empty()
    } else if ops.last().id == id {
        without(ops.drop_last(), id)
    } else {
        without(ops.drop_last(), id).push(ops.last())
    }
}

fn keep_others<H>(ops: Vec<Operation<H>>, id: u64) -> (r: Vec<Operation<H>>)
    ensures
        r@ == without(ops@, id),
{
    let ghost all = ops@;
    let mut kept: Vec<Operation<H>> = Vec::new();
    assert(all.take(0) =~= Seq::empty());
    for op in it: ops
        invariant
            it.seq() == all,
            kept@ == without(all.take(it.index() as int), id),
    {
        let ghost longer = all.take(it.index() + 1);
        assert(longer.drop_last() =~= all.take(it.index() as int));
        assert(longer.last() == op);
        if op.id != id {
            kept.push(op);
        }
    }
    assert(all.take(all.len() as int) =~= all);
    kept
}

/// The state of the bot. Peers are known by their numbers; `H` is a handle on a
/// running operation, and `D` the store of settings.
pub struct BotState<H, D> {
    pub pending: HashMap<i64, PendingChoice>,
    pub active_operations: HashMap<i64, Vec<Operation<H>>>,
    pub staging_dir: PathBuf,
    pub db: Option<D>,
    pub seen_messages: SeenWindow,
    pub seen_callbacks: SeenWindow,
}

impl<H, D> BotState<H, D> {
    /// The messages that are remembered, as pairs of peer and message number.
    pub open spec fn messages(&self) -> Seq<(i64, i64)> {
        self.seen_messages@
    }

    /// The button presses that are remembered, as pairs of query number and zero.
    pub open spec fn callbacks(&self) -> Seq<(i64, i64)> {
        self.seen_callbacks@
    }

    /// The running operations of a peer, in the order in which they were started.
    pub open spec fn operations(&self, peer_id: i64) -> Seq<Operation<H>> {
        if self.active_operations@.contains_key(peer_id) {
            self.active_operations@[peer_id]@
        } else {
            Seq::empty()
        }
    }

    /// Both windows are within their limit and hold nothing twice.
    pub open spec fn wf(&self) -> bool {
        self.seen_messages.wf() && self.seen_callbacks.wf()
    }

    /// `self` and `other` differ at most in the choices and operations that they
    /// keep.
    pub open spec fn same_surroundings(&self, other: &Self) -> bool {
        &&& self.staging_dir == other.staging_dir
        &&& self.db == other.db
        &&& self.messages() == other.messages()
        &&& self.callbacks() == other.callbacks()
    }

    /// A fresh state, without a store.
    pub fn new_with_staging(staging_dir: PathBuf) -> (r: Self)
        ensures
            r.wf(),
            r.pending@ == Map::<i64, PendingChoice>::empty(),
            forall|p: i64| (#[trigger] r.operations(p)).len() == 0,
            r.messages() == Seq::<(i64, i64)>::empty(),
            r.callbacks() == Seq::<(i64, i64)>::empty(),
            r.staging_dir == staging_dir,
            r.db is None,
    {
        BotState {
            pending: HashMap::new(),
            active_operations: HashMap::new(),
            staging_dir,
            db: None,
            seen_messages: SeenWindow::new(),
            seen_callbacks: SeenWindow::new(),
        }
    }

    /// A fresh state with a store.
    pub fn new_with_db(staging_dir: PathBuf, db: D) -> (r: Self)
        ensures
            r.wf(),
            r.pending@ == Map::<i64, PendingChoice>::empty(),
            forall|p: i64| (#[trigger] r.operations(p)).len() == 0,
            r.messages() == Seq::<(i64, i64)>::empty(),
            r.callbacks() == Seq::<(i64, i64)>::empty(),
            r.staging_dir == staging_dir,
            r.db == Some(db),
    {
        BotState {
            pending: HashMap::new(),
            active_operations: HashMap::new(),
            staging_dir,
            db: Some(db),
            seen_messages: SeenWindow::new(),
            seen_callbacks: SeenWindow::new(),
        }
    }

    /// Marks a message, and tells whether it is new.
    pub fn mark_message_seen(&mut self, peer_id: i64, msg_id: i32) -> (r: bool)
        requires
            old(self).wf(),
        ensures
            r == !old(self).messages().contains((peer_id, msg_id as i64)),
            final(self).messages() == marked(old(self).messages(), (peer_id, msg_id as i64)),
            final(self).callbacks() == old(self).callbacks(),
            final(self).pending == old(self).pending,
            final(self).active_operations == old(self).active_operations,
            final(self).staging_dir == old(self).staging_dir,
            final(self).db == old(self).db,
            final(self).wf(),
    {
        self.seen_messages.mark((peer_id, msg_id as i64))
    }

    /// Marks a button press, and tells whether it is new. A press without a number
    /// is always new, and is not remembered.
    pub fn mark_callback_seen(&mut self, query_id: i64) -> (r: bool)
        requires
            old(self).wf(),
        ensures
            r == (query_id == 0 || !old(self).callbacks().contains((query_id, 0))),
            final(self).callbacks() == (if query_id == 0 {
                old(self).callbacks()
            } else {
                marked(old(self).callbacks(), (query_id, 0))
            }),
            final(self).messages() == old(self).messages(),
            final(self).pending == old(self).pending,
            final(self).active_operations == old(self).active_operations,
            final(self).staging_dir == old(self).staging_dir,
            final(self).db == old(self).db,
            final(self).wf(),
    {
        if query_id == 0 {
            return true;
        }
        self.seen_callbacks.mark((query_id, 0))
    }

    /// Forgets the pending choice and the running operations of a peer. Tells
    /// whether there was any, and hands out the operations, to be aborted.
    pub fn cancel(&mut self, peer_id: &i64) -> (r: (bool, Vec<Operation<H>>))
        requires
            old(self).wf(),
        ensures
            r.0 == (old(self).pending@.contains_key(*peer_id) || old(self).operations(
                *peer_id,
            ).len() > 0),
            r.1@ == old(self).operations(*peer_id),
            final(self).pending@ == old(self).pending@.remove(*peer_id),
            final(self).operations(*peer_id).len() == 0,
            forall|p: i64|
                p != *peer_id ==> #[trigger] final(self).operations(p) == old(self).operations(p),
            final(self).same_surroundings(old(self)),
            final(self).wf(),
    {
        let mut cancelled: bool = false;
        if self.pending.remove(peer_id).is_some() {
            cancelled = true;
        }
        let running = match self.active_operations.remove(peer_id) {
            Some(running) => running,
            None => Vec::new(),
        };
        if running.len() > 0 {
            cancelled = true;
        }
        (cancelled, running)
    }

    /// Keeps a choice for a peer to make, in place of an earlier one.
    pub fn offer(&mut self, peer_id: i64, choice: PendingChoice)
        requires
            old(self).wf(),
        ensures
            final(self).pending@ == old(self).pending@.insert(peer_id, choice),
            final(self).active_operations == old(self).active_operations,
            final(self).same_surroundings(old(self)),
            final(self).wf(),
    {
        self.pending.insert(peer_id, choice);
    }

    /// Takes the choice that a peer has to make.
    pub fn take_pending(&mut self, peer_id: &i64) -> (r: Option<PendingChoice>)
        requires
            old(self).wf(),
        ensures
            match r {
                Some(choice) => old(self).pending@.contains_key(*peer_id)
                    && old(self).pending@[*peer_id] == choice,
                None => !old(self).pending@.contains_key(*peer_id),
            },
            final(self).pending@ == old(self).pending@.remove(*peer_id),
            final(self).active_operations == old(self).active_operations,
            final(self).same_surroundings(old(self)),
            final(self).wf(),
    {
        self.pending.remove(peer_id)
    }

    /// Keeps an operation that was started for a peer, beside those that are
    /// running.
    pub fn operation_started(&mut self, peer_id: i64, id: u64, handle: H)
        requires
            old(self).wf(),
        ensures
            final(self).operations(peer_id) == old(self).operations(peer_id).push(
                Operation { id, handle },
            ),
            forall|p: i64|
                p != peer_id ==> #[trigger] final(self).operations(p) == old(self).operations(p),
            final(self).pending == old(self).pending,
            final(self).same_surroundings(old(self)),
            final(self).wf(),
    {
        let mut running = match self.active_operations.remove(&peer_id) {
            Some(running) => running,
            None => Vec::new(),
        };
        running.push(Operation { id, handle });
        self.active_operations.insert(peer_id, running);
    }

    /// Forgets an operation of a peer that has ended by itself.
    pub fn operation_ended(&mut self, peer_id: &i64, id: u64)
        requires
            old(self).wf(),
        ensures
            final(self).operations(*peer_id) == without(old(self).operations(*peer_id), id),
            forall|p: i64|
                p != *peer_id ==> #[trigger] final(self).operations(p) == old(self).operations(p),
            final(self).pending == old(self).pending,
            final(self).same_surroundings(old(self)),
            final(self).wf(),
    {
        if let Some(running) = self.active_operations.remove(peer_id) {
            let kept = keep_others(running, id);
            if kept.len() > 0 {
                self.active_operations.insert(*peer_id, kept);
            }
        }
    }

    /// Tells whether an incoming message is to be handled: it comes from someone
    /// else or from the bot's own saved messages, and is new.
    pub fn accept_message(
        &mut self,
        me: i64,
        peer_id: i64,
        outgoing: bool,
        msg_id: i32,
    ) -> (r: bool)
        requires
            old(self).wf(),
        ensures
            r == ((!outgoing || peer_id == me) && !old(self).messages().contains(
                (peer_id, msg_id as i64),
            )),
            final(self).messages() == (if !outgoing || peer_id == me {
                marked(old(self).messages(), (peer_id, msg_id as i64))
            } else {
                old(self).messages()
            }),
            final(self).callbacks() == old(self).callbacks(),
            final(self).pending == old(self).pending,
            final(self).active_operations == old(self).active_operations,
            final(self).staging_dir == old(self).staging_dir,
            final(self).db == old(self).db,
            final(self).wf(),
    {
        if !outgoing || peer_id == me {
            self.mark_message_seen(peer_id, msg_id)
        } else {
            false
        }
    }
}

// ---------------------------------------------------------------------------
// Laws
// ---------------------------------------------------------------------------


/// A thousand updates are remembered. A new one is put at the end, and only then, in
/// a full window, the oldest leaves; one that is known changes nothing.
pub proof fn law_window(window: Seq<(i64, i64)>, key: (i64, i64))
    ensures
        SEEN_LIMIT == 1000,
        window.contains(key) ==> marked(window, key) == window,
        !window.contains(key) && window.len() < 1000 ==> marked(window, key) == window + seq![key],
        !window.contains(key) && window.len() >= 1000 ==> marked(window, key) == window.skip(1)
            + seq![key],
{
    if !window.contains(key) && window.len() >= 1000 {
        assert(marked(window, key) =~= window.skip(1) + seq![key]);
    }
    if !window.contains(key) && window.len() < 1000 {
        assert(marked(window, key) =~= window + seq![key]);
    }
}

/// An operation that ends is taken out, and the others keep their order.
pub proof fn law_operation_taken_out<H>(a: Seq<Operation<H>>, op: Operation<H>, id: u64)
    ensures
        without(Seq::<Operation<H>>::empty(), id).len() == 0,
        op.id == id ==> without(a.push(op), id) == without(a, id),
        op.id != id ==> without(a.push(op), id) == without(a, id).push(op),
{
    assert(a.push(op).drop_last() =~= a);
}

impl<H, D> BotState<H, D> {
    /// What a state keeps is what it holds.
    pub proof fn law_state_content(self, peer_id: i64)
        ensures
            self.messages() == self.seen_messages@,
            self.callbacks() == self.seen_callbacks@,
            self.active_operations@.contains_key(peer_id) ==> self.operations(peer_id)
                == self.active_operations@[peer_id]@,
            !self.active_operations@.contains_key(peer_id) ==> self.operations(peer_id).len() == 0,
    {
    }

    /// Two states have the same surroundings where all but their choices and their
    /// operations is the same.
    pub proof fn law_same_surroundings(self, other: Self)
        requires
            self.same_surroundings(&other),
        ensures
            self.staging_dir == other.staging_dir,
            self.db == other.db,
            self.seen_messages@ == other.seen_messages@,
            self.seen_callbacks@ == other.seen_callbacks@,
    {
    }
}

} // verus!
