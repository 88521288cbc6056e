//! Admission control: a bounded set of permits with a first-come queue.

use vstd::prelude::*;

verus! {

/// Answer to a connection that asks for a permit.
#[derive(Clone, Copy, Debug, PartialEq, Eq, Structural)]
pub enum Admission {
    /// A slot was free: the connection holds a permit now.
    Admitted,
    /// Every slot is taken: the connection waits in line.
    Queued,
    /// The connection already holds a permit or already waits.
    AlreadyKnown,
}

/// Answer to a connection that gives up its place.
#[derive(Clone, Copy, Debug, PartialEq, Eq, Structural)]
pub enum Departure {
    /// The permit is back and nobody was waiting for it.
    Freed,
    /// The permit went straight to this connection, the one that had
    /// waited longest.
    Handed(u64),
    /// The connection was waiting and has left the line.
    Withdrawn,
    /// The connection held no permit and was not waiting.
    NotHeld,
}

/// What can happen at a gate.
#[derive(Clone, Copy, Debug, PartialEq, Eq, Structural)]
pub enum GateEvent {
    Arrive(u64),
    Leave(u64),
}

/// Mathematical state of a gate.
pub struct GateModel {
    /// Number of permits.
    pub capacity: nat,
    /// The connections that hold a permit.
    pub active: Seq<u64>,
    /// The connections that wait for one, longest wait first.
    pub waiting: Seq<u64>,
}

impl GateModel {
    /// No more permits are out than there are, no connection is counted
    /// twice, and nobody waits while a slot is free.
    pub open spec fn wf(self) -> bool {
        &&& self.capacity >= 1
        &&& self.active.len() <= self.capacity
        &&& self.active.no_duplicates()
        &&& self.waiting.no_duplicates()
        &&& self.active.disjoint(self.waiting)
        &&& self.waiting.len() > 0 ==> self.active.len() == self.capacity
    }

    /// A gate with every slot free.
    pub open spec fn start(capacity: nat) -> GateModel {
        GateModel { capacity, active: Seq::empty(), waiting: Seq::empty() }
    }

    /// Whether the connection holds a permit or waits for one.
    pub open spec fn knows(self, id: u64) -> bool {
        self.active.contains(id) || self.waiting.contains(id)
    }

    /// The answer to connection `id` asking for a permit.
    pub open spec fn admission(self, id: u64) -> Admission {
        if self.knows(id) {
            Admission::AlreadyKnown
        } else if self.active.len() < self.capacity {
            Admission::Admitted
        } else {
            Admission::Queued
        }
    }

    /// This gate after connection `id` asked for a permit.
    pub open spec fn arrive(self, id: u64) -> GateModel {
        match self.admission(id) {
            Admission::AlreadyKnown => self,
            Admission::Admitted => GateModel { active: self.active.push(id), ..self },
            Admission::Queued => GateModel { waiting: self.waiting.push(id), ..self },
        }
    }

    /// The answer to connection `id` giving up its place.
    pub open spec fn departure(self, id: u64) -> Departure {
        if self.active.contains(id) {
            if self.waiting.len() > 0 {
                Departure::Handed(self.waiting[0])
            } else {
                Departure::Freed
            }
        } else if self.waiting.contains(id) {
            Departure::Withdrawn
        } else {
            Departure::NotHeld
        }
    }

    /// This gate after connection `id` gave up its place.
    pub open spec fn leave(self, id: u64) -> GateModel {
        match self.departure(id) {
            Departure::Handed(next) => GateModel {
                active: self.active.remove(self.active.index_of(id)).push(next),
                waiting: self.waiting.drop_first(),
                ..self
            },
            Departure::Freed => GateModel {
                active: self.active.remove(self.active.index_of(id)),
                ..self
            },
            Departure::Withdrawn => GateModel {
                waiting: self.waiting.remove(self.waiting.index_of(id)),
                ..self
            },
            Departure::NotHeld => self,
        }
    }

    /// This gate after one event.
    pub open spec fn apply(self, event: GateEvent) -> GateModel {
        match event {
            GateEvent::Arrive(id) => self.arrive(id),
            GateEvent::Leave(id) => self.leave(id),
        }
    }

    /// This gate after `events` in order.
    pub open spec fn run(self, events: Seq<GateEvent>) -> GateModel
        decreases events.len(),
    {
        if events.len() == 0 {
            self
        } else {
            self.apply(events[0]).run(events.drop_first())
        }
    }
}

/// In a sequence without repetition an element sits at one index only.
proof fn lemma_index_of_distinct(s: Seq<u64>, i: int)
    requires
        s.no_duplicates(),
        0 <= i < s.len(),
    ensures
        s.index_of(s[i]) == i,
{
    let j = s.index_of(s[i]);
    assert(0 <= j < s.len() && s[j] == s[i]);
}

/// Taking one element out of a sequence without repetition takes out that
/// value and no other, and leaves no repetition behind.
proof fn lemma_remove_distinct(s: Seq<u64>, i: int)
    requires
        s.no_duplicates(),
        0 <= i < s.len(),
    ensures
        s.remove(i).len() == s.len() - 1,
        s.remove(i).no_duplicates(),
        !s.remove(i).contains(s[i]),
        forall|x: u64| x != s[i] ==> (s.remove(i).contains(x) <==> s.contains(x)),
        forall|x: u64| s.remove(i).contains(x) ==> s.contains(x),
{
    let r = s.remove(i);
    s.remove_ensures(i);
    assert forall|a: int, b: int| 0 <= a < r.len() && 0 <= b < r.len() && a != b implies r[a]
        != r[b] by {
        let sa = if a < i { a } else { a + 1 };
        let sb = if b < i { b } else { b + 1 };
        assert(r[a] == s[sa] && r[b] == s[sb]);
    }
    if r.contains(s[i]) {
        let a = choose|a: int| 0 <= a < r.len() && r[a] == s[i];
        let sa = if a < i { a } else { a + 1 };
        assert(r[a] == s[sa]);
    }
    assert forall|x: u64| r.contains(x) implies s.contains(x) by {
        let a = choose|a: int| 0 <= a < r.len() && r[a] == x;
        let sa = if a < i { a } else { a + 1 };
        assert(r[a] == s[sa]);
    }
    assert forall|x: u64| x != s[i] && s.contains(x) implies r.contains(x) by {
        let sa = choose|sa: int| 0 <= sa < s.len() && s[sa] == x;
        let a = if sa < i { sa } else { sa - 1 };
        assert(r[a] == s[sa]);
    }
}

/// Adding a value that a sequence without repetition lacks leaves it
/// without repetition.
proof fn lemma_push_distinct(s: Seq<u64>, x: u64)
    requires
        s.no_duplicates(),
        !s.contains(x),
    ensures
        s.push(x).no_duplicates(),
        forall|y: u64| s.push(x).contains(y) <==> (y == x || s.contains(y)),
{
    let p = s.push(x);
    assert forall|a: int, b: int| 0 <= a < p.len() && 0 <= b < p.len() && a != b implies p[a]
        != p[b] by {
        if a < s.len() {
            assert(s.contains(s[a]));
        }
        if b < s.len() {
            assert(s.contains(s[b]));
        }
    }
    assert forall|y: u64| p.contains(y) implies (y == x || s.contains(y)) by {
        let a = choose|a: int| 0 <= a < p.len() && p[a] == y;
        if a < s.len() {
            assert(s[a] == y);
        }
    }
    assert(p[s.len() as int] == x);
    assert forall|y: u64| s.contains(y) implies p.contains(y) by {
        let a = choose|a: int| 0 <= a < s.len() && s[a] == y;
        assert(p[a] == y);
    }
}

/// Asking for a permit keeps a gate well formed: it never hands out more
/// permits than it has.
pub proof fn lemma_arrive_keeps_wf(m: GateModel, id: u64)
    requires
        m.wf(),
    ensures
        m.arrive(id).wf(),
        m.arrive(id).capacity == m.capacity,
        m.arrive(id).active.len() <= m.capacity,
{
    match m.admission(id) {
        Admission::AlreadyKnown => {},
        Admission::Admitted => {
            lemma_push_distinct(m.active, id);
            assert(m.waiting.len() == 0);
        },
        Admission::Queued => {
            lemma_push_distinct(m.waiting, id);
            let w = m.waiting.push(id);
            assert forall|i: int, j: int| 0 <= i < m.active.len() && 0 <= j < w.len() implies m.active[i]
                != w[j] by {
                if j == m.waiting.len() {
                    assert(m.active.contains(m.active[i]));
                }
            }
        },
    }
}

/// Giving up a place keeps a gate well formed.
pub proof fn lemma_leave_keeps_wf(m: GateModel, id: u64)
    requires
        m.wf(),
    ensures
        m.leave(id).wf(),
        m.leave(id).capacity == m.capacity,
        m.leave(id).active.len() <= m.capacity,
{
    let after = m.leave(id);
    match m.departure(id) {
        Departure::Handed(next) => {
            let i = m.active.index_of(id);
            let rest = m.active.remove(i);
            lemma_remove_distinct(m.active, i);
            assert(next == m.waiting[0]);
            assert(!m.active.contains(next)) by {
                if m.active.contains(next) {
                    let a = choose|a: int| 0 <= a < m.active.len() && m.active[a] == next;
                    assert(m.active[a] != m.waiting[0]);
                }
            }
            lemma_push_distinct(rest, next);
            lemma_remove_distinct(m.waiting, 0);
            assert(m.waiting.remove(0) =~= m.waiting.drop_first());
            let a2 = after.active;
            let w2 = after.waiting;
            assert forall|a: int, b: int| 0 <= a < a2.len() && 0 <= b < w2.len() implies a2[a]
                != w2[b] by {
                assert(w2[b] == m.waiting[b + 1]);
                assert(w2.contains(w2[b]));
                assert(a2.contains(a2[a]));
                if a2[a] == next {
                } else {
                    assert(rest.contains(a2[a]));
                    assert(m.active.contains(a2[a]));
                    let k = choose|k: int| 0 <= k < m.active.len() && m.active[k] == a2[a];
                    assert(m.active[k] != m.waiting[b + 1]);
                }
            }
        },
        Departure::Freed => {
            let i = m.active.index_of(id);
            lemma_remove_distinct(m.active, i);
        },
        Departure::Withdrawn => {
            let i = m.waiting.index_of(id);
            lemma_remove_distinct(m.waiting, i);
            let w2 = after.waiting;
            assert forall|a: int, b: int| 0 <= a < m.active.len() && 0 <= b < w2.len() implies m.active[a]
                != w2[b] by {
                assert(w2.contains(w2[b]));
                assert(m.waiting.contains(w2[b]));
                let k = choose|k: int| 0 <= k < m.waiting.len() && m.waiting[k] == w2[b];
                assert(m.active[a] != m.waiting[k]);
            }
        },
        Departure::NotHeld => {},
    }
}

/// Whatever connections come and go, in whatever order, a gate with `M`
/// permits never has more than `M` of them out, never counts a connection
/// twice, and never lets one wait while a slot is free.
pub proof fn lemma_never_over_capacity(m: GateModel, events: Seq<GateEvent>)
    requires
        m.wf(),
    ensures
        m.run(events).wf(),
        m.run(events).capacity == m.capacity,
        m.run(events).active.len() <= m.capacity,
    decreases events.len(),
{
    if events.len() > 0 {
        match events[0] {
            GateEvent::Arrive(id) => lemma_arrive_keeps_wf(m, id),
            GateEvent::Leave(id) => lemma_leave_keeps_wf(m, id),
        }
        lemma_never_over_capacity(m.apply(events[0]), events.drop_first());
    }
}

/// A new connection that finds every permit taken is queued and gets
/// nothing; further arrivals leave it where it is; it is admitted only when
/// a holder leaves, and then the one that waited longest goes first.
pub proof fn lemma_full_gate_blocks(m: GateModel, id: u64, later: u64, holder: u64)
    requires
        m.wf(),
        m.active.len() == m.capacity,
        !m.knows(id),
        m.active.contains(holder),
    ensures
        m.admission(id) == Admission::Queued,
        m.arrive(id).active == m.active,
        m.arrive(id).waiting == m.waiting.push(id),
        !m.arrive(id).active.contains(id),
        m.arrive(id).arrive(later).active == m.active,
        !m.arrive(id).arrive(later).active.contains(id),
        m.arrive(id).departure(holder) == Departure::Handed(m.waiting.push(id)[0]),
        m.waiting.len() == 0 ==> m.arrive(id).leave(holder).active.contains(id),
        m.arrive(id).leave(holder).active.len() == m.capacity,
{
    let q = m.arrive(id);
    lemma_arrive_keeps_wf(m, id);
    let i = q.active.index_of(holder);
    lemma_remove_distinct(q.active, i);
    let next = q.waiting[0];
    let grown = q.active.remove(i).push(next);
    assert(grown[grown.len() - 1] == next);
}

/// Position of `id` in `items`, if it is there.
fn position(items: &Vec<u64>, id: u64) -> (found: Option<usize>)
    ensures
        match found {
            Some(i) => i < items@.len() && items@[i as int] == id,
            None => !items@.contains(id),
        },
{
    let mut i: usize = 0;
    while i < items.len()
        invariant
            i <= items@.len(),
            forall|j: int| 0 <= j < i ==> items@[j] != id,
        decreases items@.len() - i,
    {
        if items[i] == id {
            return Some(i);
        }
        i = i + 1;
    }
    None
}

/// Bounds the number of connections served at once. Connections are told
/// apart by an identifier that the caller picks. Every gate that `new`
/// makes is well formed, and `arrive` and `leave` keep it so.
#[derive(Debug)]
pub struct Gate {
    capacity: usize,
    active: Vec<u64>,
    waiting: Vec<u64>,
}

impl View for Gate {
    type V = GateModel;

    closed spec fn view(&self) -> GateModel {
        GateModel { capacity: self.capacity as nat, active: self.active@, waiting: self.waiting@ }
    }
}

impl Gate {
    /// A gate with `max_connections` permits, all free. A gate needs at
    /// least one permit.
    pub fn new(max_connections: usize) -> (g: Option<Gate>)
        ensures
            max_connections == 0 <==> g.is_none(),
            g.is_some() ==> g.unwrap()@ == GateModel::start(max_connections as nat) && g.unwrap()@.wf(),
    {
        if max_connections == 0 {
            None
        } else {
            Some(Gate { capacity: max_connections, active: Vec::new(), waiting: Vec::new() })
        }
    }

    /// Number of permits.
    pub fn capacity(&self) -> (n: usize)
        ensures
            n == self@.capacity,
    {
        self.capacity
    }

    /// Number of permits that are out; never more than the capacity.
    pub fn active_count(&self) -> (n: usize)
        ensures
            n == self@.active.len(),
            self@.wf() ==> n <= self@.capacity,
    {
        self.active.len()
    }

    /// Number of connections that wait for a permit.
    pub fn waiting_count(&self) -> (n: usize)
        ensures
            n == self@.waiting.len(),
    {
        self.waiting.len()
    }

    /// Whether connection `id` holds a permit.
    pub fn is_active(&self, id: u64) -> (b: bool)
        ensures
            b == self@.active.contains(id),
    {
        position(&self.active, id).is_some()
    }

    /// Whether connection `id` waits for a permit.
    pub fn is_waiting(&self, id: u64) -> (b: bool)
        ensures
            b == self@.waiting.contains(id),
    {
        position(&self.waiting, id).is_some()
    }

    /// Connection `id` asks for a permit. It gets one if a slot is free and
    /// joins the end of the line otherwise.
    pub fn arrive(&mut self, id: u64) -> (answer: Admission)
        requires
            old(self)@.wf(),
        ensures
            answer == old(self)@.admission(id),
            final(self)@ == old(self)@.arrive(id),
            final(self)@.wf(),
            final(self)@.active.len() <= final(self)@.capacity,
    {
        proof {
            lemma_arrive_keeps_wf(self@, id);
        }
        if self.is_active(id) || self.is_waiting(id) {
            Admission::AlreadyKnown
        } else if self.active.len() < self.capacity {
            self.active.push(id);
            Admission::Admitted
        } else {
            self.waiting.push(id);
            Admission::Queued
        }
    }

    /// Connection `id` gives up its place. If it held a permit, the permit
    /// goes to the connection that has waited longest, if there is one. A
    /// connection that holds nothing changes nothing, so a permit cannot be
    /// given back twice.
    pub fn leave(&mut self, id: u64) -> (answer: Departure)
        requires
            old(self)@.wf(),
        ensures
            answer == old(self)@.departure(id),
            final(self)@ == old(self)@.leave(id),
            final(self)@.wf(),
            final(self)@.active.len() <= final(self)@.capacity,
    {
        proof {
            lemma_leave_keeps_wf(self@, id);
        }
        match position(&self.active, id) {
            Some(i) => {
                proof {
                    lemma_index_of_distinct(self.active@, i as int);
                }
                self.active.remove(i);
                if self.waiting.len() > 0 {
                    let next: u64 = self.waiting.remove(0);
                    proof {
                        assert(old(self)@.waiting.remove(0) =~= old(self)@.waiting.drop_first());
                    }
                    self.active.push(next);
                    Departure::Handed(next)
                } else {
                    Departure::Freed
                }
            },
            None => match position(&self.waiting, id) {
                Some(j) => {
                    proof {
                        lemma_index_of_distinct(self.waiting@, j as int);
                    }
                    self.waiting.remove(j);
                    Departure::Withdrawn
                },
                None => Departure::NotHeld,
            },
        }
    }
}

} // verus!
