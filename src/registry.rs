use vstd::prelude::*;

verus! {

#[verifier::external_type_specification]
#[verifier::external_body]
#[verifier::reject_recursive_types(T)]
pub struct ExSyncSender<T>(std::sync::mpsc::SyncSender<T>);

/// Relies on `std::sync::mpsc::SyncSender::try_send`: queues `frame` without
/// blocking; `true` when it was queued, `false` when the buffer is full or the
/// receiving end is gone. Which of the two happens is not known in advance.
#[verifier::external_body]
fn try_send(tx: &std::sync::mpsc::SyncSender<String>, frame: String) -> (r: bool) {
    tx.try_send(frame).is_ok()
}

/// Identity of one live connection; two connections never share one.
#[derive(Clone, Copy, Debug, PartialEq, Eq, Structural)]
pub struct ConnectionHandle {
    pub token: u64,
}

/// What happened to a frame handed to [`ConnectionRegistry::send`].
#[derive(Clone, Copy, Debug, PartialEq, Eq, Structural)]
pub enum SendReport {
    /// No connection is registered under the id.
    NoConnection,
    /// The frame was queued on the connection's outbound channel.
    Sent,
    /// The connection's channel refused the frame (full or closed).
    Failed,
}

/// The registry after `id` is registered with `h`: last writer wins.
pub open spec fn register_spec(
    m: Map<Seq<char>, ConnectionHandle>,
    id: Seq<char>,
    h: ConnectionHandle,
) -> Map<Seq<char>, ConnectionHandle> {
    m.insert(id, h)
}

/// The registry after the connection `h` of `id` leaves: the entry goes only
/// if it is still `h`.
pub open spec fn deregister_spec(
    m: Map<Seq<char>, ConnectionHandle>,
    id: Seq<char>,
    h: ConnectionHandle,
) -> Map<Seq<char>, ConnectionHandle> {
    if m.contains_key(id) && m[id] == h {
        m.remove(id)
    } else {
        m
    }
}

/// The answer a lookup of `id` owes.
pub open spec fn lookup_spec(m: Map<Seq<char>, ConnectionHandle>, id: Seq<char>) -> Option<
    ConnectionHandle,
> {
    if m.contains_key(id) {
        Some(m[id])
    } else {
        None
    }
}

/// Once a newer connection has registered under an id, the deregistration of
/// an older one leaves the newer one in place.
pub proof fn lemma_stale_deregister_keeps_newer(
    m: Map<Seq<char>, ConnectionHandle>,
    id: Seq<char>,
    h1: ConnectionHandle,
    h2: ConnectionHandle,
)
    requires
        h1 != h2,
    ensures
        lookup_spec(
            deregister_spec(register_spec(register_spec(m, id, h1), id, h2), id, h1),
            id,
        ) == Some(h2),
{
}

/// One registry operation, as its arguments.
pub ghost enum RegistryOp {
    Register(Seq<char>, ConnectionHandle),
    Deregister(Seq<char>, ConnectionHandle),
}

pub open spec fn apply_op(m: Map<Seq<char>, ConnectionHandle>, op: RegistryOp) -> Map<
    Seq<char>,
    ConnectionHandle,
> {
    match op {
        RegistryOp::Register(id, h) => register_spec(m, id, h),
        RegistryOp::Deregister(id, h) => deregister_spec(m, id, h),
    }
}

/// The registry after `ops`, applied in order from first to last.
pub open spec fn apply_ops(m: Map<Seq<char>, ConnectionHandle>, ops: Seq<RegistryOp>) -> Map<
    Seq<char>,
    ConnectionHandle,
>
    decreases ops.len(),
{
    if ops.len() == 0 {
        m
    } else {
        apply_op(apply_ops(m, ops.drop_last()), ops.last())
    }
}

/// No resurrection: in any order in which register and deregister calls take
/// the registry's lock, once the connection `h` of `id` has deregistered, a
/// lookup of `id` does not return `h` unless `h` registered under `id` again.
pub proof fn lemma_no_resurrection(
    m: Map<Seq<char>, ConnectionHandle>,
    ops: Seq<RegistryOp>,
    i: int,
    id: Seq<char>,
    h: ConnectionHandle,
)
    requires
        0 <= i < ops.len(),
        ops[i] == RegistryOp::Deregister(id, h),
        forall|j: int| i < j < ops.len() ==> ops[j] != RegistryOp::Register(id, h),
    ensures
        lookup_spec(apply_ops(m, ops), id) != Some(h),
    decreases ops.len(),
{
    if i < ops.len() - 1 {
        let pre = ops.drop_last();
        assert forall|j: int| i < j < pre.len() implies pre[j] != RegistryOp::Register(id, h) by {
            assert(pre[j] == ops[j]);
        }
        lemma_no_resurrection(m, pre, i, id, h);
        assert(ops.last() == ops[ops.len() - 1]);
    }
}

struct Entry {
    id: String,
    handle: ConnectionHandle,
    outbox: std::sync::mpsc::SyncSender<String>,
}

spec fn keys_of(v: Seq<Entry>) -> Seq<(Seq<char>, ConnectionHandle)> {
    v.map_values(|e: Entry| (e.id@, e.handle))
}

/// The live connections: at most one handle per device id.
pub struct ConnectionRegistry {
    entries: Vec<Entry>,
    next_token: u64,
    model: Ghost<Map<Seq<char>, ConnectionHandle>>,
}

impl View for ConnectionRegistry {
    type V = Map<Seq<char>, ConnectionHandle>;

    closed spec fn view(&self) -> Map<Seq<char>, ConnectionHandle> {
        self.model@
    }
}

impl ConnectionRegistry {
    pub closed spec fn wf(&self) -> bool {
        let s = keys_of(self.entries@);
        let m = self.model@;
        &&& forall|i: int| 0 <= i < s.len() ==> m.contains_key(#[trigger] s[i].0) && m[s[i].0] == s[i].1
        &&& forall|k: Seq<char>| #[trigger] m.contains_key(k) ==> exists|i: int| 0 <= i < s.len() && s[i].0 == k
        &&& forall|i: int, j: int| 0 <= i < s.len() && 0 <= j < s.len() && i != j ==> s[i].0 != s[j].0
    }

    /// The smallest token that [`ConnectionRegistry::issue_handle`] has not
    /// handed out yet.
    pub closed spec fn next_token_spec(&self) -> u64 {
        self.next_token
    }

    /// An empty registry.
    pub fn new() -> (r: ConnectionRegistry)
        ensures
            r.wf(),
            r@ == Map::<Seq<char>, ConnectionHandle>::empty(),
            r.next_token_spec() == 0,
    {
        ConnectionRegistry { entries: Vec::new(), next_token: 0, model: Ghost(Map::empty()) }
    }

    /// A handle that no earlier call has returned; `None` once the tokens are
    /// used up.
    pub fn issue_handle(&mut self) -> (r: Option<ConnectionHandle>)
        requires
            old(self).wf(),
        ensures
            final(self).wf(),
            final(self)@ == old(self)@,
            old(self).next_token_spec() < u64::MAX ==> r == Some(
                ConnectionHandle { token: old(self).next_token_spec() },
            ) && final(self).next_token_spec() == old(self).next_token_spec() + 1,
            old(self).next_token_spec() == u64::MAX ==> r is None && final(self).next_token_spec()
                == old(self).next_token_spec(),
    {
        if self.next_token == u64::MAX {
            None
        } else {
            let h = ConnectionHandle { token: self.next_token };
            let ghost before = *self;
            self.next_token = self.next_token + 1;
            assert(keys_of(self.entries@) == keys_of(before.entries@));
            Some(h)
        }
    }

    proof fn lemma_entry(&self, i: int)
        requires
            self.wf(),
            0 <= i < self.entries@.len(),
        ensures
            self@.contains_key(self.entries@[i].id@),
            self@[self.entries@[i].id@] == self.entries@[i].handle,
            keys_of(self.entries@)[i] == (self.entries@[i].id@, self.entries@[i].handle),
    {
        assert(keys_of(self.entries@)[i] == (self.entries@[i].id@, self.entries@[i].handle));
        assert(self.model@.contains_key(keys_of(self.entries@)[i].0));
    }

    /// The position of the entry for `id`, if there is one.
    fn find(&self, id: &String) -> (r: Option<usize>)
        requires
            self.wf(),
        ensures
            match r {
                Some(i) => i < self.entries@.len() && self.entries@[i as int].id@ == id@,
                None => !self@.contains_key(id@),
            },
    {
        let mut i: usize = 0;
        while i < self.entries.len()
            invariant
                self.wf(),
                i <= self.entries@.len(),
                forall|j: int| 0 <= j < i ==> (#[trigger] self.entries@[j]).id@ != id@,
            decreases self.entries.len() - i,
        {
            if self.entries[i].id == *id {
                return Some(i);
            }
            i += 1;
        }
        proof {
            if self.model@.contains_key(id@) {
                let k = choose|k: int|
                    0 <= k < keys_of(self.entries@).len() && keys_of(self.entries@)[k].0 == id@;
                assert(self.entries@[k].id@ == id@);
            }
        }
        None
    }

    /// Makes `handle`, whose frames go to `outbox`, the connection of `id`,
    /// replacing any earlier one.
    pub fn register(
        &mut self,
        id: String,
        handle: ConnectionHandle,
        outbox: std::sync::mpsc::SyncSender<String>,
    )
        requires
            old(self).wf(),
        ensures
            final(self).wf(),
            final(self)@ == register_spec(old(self)@, id@, handle),
            final(self).next_token_spec() == old(self).next_token_spec(),
    {
        let ghost old_keys = keys_of(self.entries@);
        let ghost old_map = self.model@;
        let ghost m = (id@, handle);
        let entry = Entry { id, handle, outbox };
        match self.find(&entry.id) {
            Some(i) => {
                proof {
                    self.lemma_entry(i as int);
                }
                self.entries[i] = entry;
                self.model = Ghost(old_map.insert(m.0, m.1));
                let ghost s = keys_of(self.entries@);
                assert(s =~= old_keys.update(i as int, m));
                assert(old_keys[i as int].0 == m.0);
                assert forall|k: Seq<char>| #[trigger] self.model@.contains_key(k) implies exists|
                    j: int,
                | 0 <= j < s.len() && s[j].0 == k by {
                    if k != m.0 {
                        assert(old_map.contains_key(k));
                        let j = choose|j: int| 0 <= j < old_keys.len() && old_keys[j].0 == k;
                        assert(s[j].0 == k);
                    } else {
                        assert(s[i as int].0 == k);
                    }
                }
            },
            None => {
                let ghost n = self.entries@.len();
                self.entries.push(entry);
                self.model = Ghost(old_map.insert(m.0, m.1));
                let ghost s = keys_of(self.entries@);
                assert(s =~= old_keys.push(m));
                assert(s[n as int].0 == m.0);
                assert forall|j: int| 0 <= j < n implies #[trigger] s[j].0 != m.0 by {
                    assert(old_map.contains_key(old_keys[j].0));
                }
                assert forall|k: Seq<char>| #[trigger] self.model@.contains_key(k) implies exists|
                    j: int,
                | 0 <= j < s.len() && s[j].0 == k by {
                    if k != m.0 {
                        assert(old_map.contains_key(k));
                        let j = choose|j: int| 0 <= j < old_keys.len() && old_keys[j].0 == k;
                        assert(s[j].0 == k);
                    } else {
                        assert(s[n as int].0 == k);
                    }
                }
            },
        }
    }

    /// Removes the entry of `id` if, and only if, it is still `handle`.
    pub fn deregister(&mut self, id: &String, handle: ConnectionHandle)
        requires
            old(self).wf(),
        ensures
            final(self).wf(),
            final(self)@ == deregister_spec(old(self)@, id@, handle),
            final(self).next_token_spec() == old(self).next_token_spec(),
    {
        let ghost old_keys = keys_of(self.entries@);
        let ghost old_map = self.model@;
        match self.find(id) {
            Some(i) => {
                proof {
                    self.lemma_entry(i as int);
                }
                if self.entries[i].handle == handle {
                    self.entries.remove(i);
                    self.model = Ghost(old_map.remove(id@));
                    let ghost s = keys_of(self.entries@);
                    assert(s =~= old_keys.remove(i as int));
                    assert forall|j: int| 0 <= j < s.len() implies self.model@.contains_key(
                        #[trigger] s[j].0,
                    ) && self.model@[s[j].0] == s[j].1 by {
                        let oj = if j < i {
                            j
                        } else {
                            j + 1
                        };
                        assert(s[j] == old_keys[oj]);
                        assert(old_keys[oj].0 != old_keys[i as int].0);
                    }
                    assert forall|k: Seq<char>| #[trigger] self.model@.contains_key(k) implies exists|
                        j: int,
                    | 0 <= j < s.len() && s[j].0 == k by {
                        assert(old_map.contains_key(k));
                        let oj = choose|j: int| 0 <= j < old_keys.len() && old_keys[j].0 == k;
                        assert(oj != i);
                        if oj < i {
                            assert(s[oj].0 == k);
                        } else {
                            assert(s[oj - 1].0 == k);
                        }
                    }
                } else {
                    assert(self.model@[id@] != handle);
                }
            },
            None => {},
        }
    }

    /// The handle registered for `id`, if any.
    pub fn lookup(&self, id: &String) -> (r: Option<ConnectionHandle>)
        requires
            self.wf(),
        ensures
            r == lookup_spec(self@, id@),
    {
        match self.find(id) {
            Some(i) => {
                proof {
                    self.lemma_entry(i as int);
                }
                Some(self.entries[i].handle)
            },
            None => None,
        }
    }

    /// Hands `frame` to the connection registered for `id`, without waiting
    /// for the peer.
    pub fn send(&self, id: &String, frame: String) -> (r: SendReport)
        requires
            self.wf(),
        ensures
            (r == SendReport::NoConnection) == !self@.contains_key(id@),
    {
        match self.find(id) {
            Some(i) => {
                proof {
                    self.lemma_entry(i as int);
                }
                if try_send(&self.entries[i].outbox, frame) {
                    SendReport::Sent
                } else {
                    SendReport::Failed
                }
            },
            None => SendReport::NoConnection,
        }
    }
}

} // verus!
