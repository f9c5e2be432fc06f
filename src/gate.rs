//! The session token: who may drain the outbound queue right now.
use vstd::prelude::*;

verus! {

/// The abstract state of the session token: the request that holds it, if any, and the
/// requests waiting for it in order of arrival.
pub struct GateView {
    pub holder: Option<u64>,
    pub waiters: Seq<u64>,
}

/// Something a request does to the token.
pub enum GateEvent {
    /// The request asks for the token.
    Acquire(u64),
    /// The request gives the token up, or stops waiting for it.
    Release(u64),
}

/// A token state that can arise: no request waits twice, the holder does not
/// also wait, and nobody waits on a free token.
pub open spec fn gate_wf(g: GateView) -> bool {
    &&& g.waiters.no_duplicates()
    &&& g.holder is None ==> g.waiters.len() == 0
    &&& g.holder matches Some(h) ==> !g.waiters.contains(h)
}

/// Whether the request `id` holds the token or waits for it.
pub open spec fn is_present(g: GateView, id: u64) -> bool {
    g.holder == Some(id) || g.waiters.contains(id)
}

/// A request asking for the token: granted if it is free, else the request
/// joins the back of the line; a request already present changes nothing.
pub open spec fn acquire_spec(g: GateView, id: u64) -> GateView {
    if is_present(g, id) {
        g
    } else if g.holder is None {
        GateView { holder: Some(id), waiters: g.waiters }
    } else {
        GateView { holder: g.holder, waiters: g.waiters.push(id) }
    }
}

/// A request giving the token up: a holder passes it to the first waiter, a
/// waiter leaves the line, anyone else changes nothing.
pub open spec fn release_spec(g: GateView, id: u64) -> GateView {
    if g.holder == Some(id) {
        if g.waiters.len() > 0 {
            GateView { holder: Some(g.waiters[0]), waiters: g.waiters.drop_first() }
        } else {
            GateView { holder: None, waiters: g.waiters }
        }
    } else if g.waiters.contains(id) {
        GateView { holder: g.holder, waiters: g.waiters.remove(g.waiters.index_of(id)) }
    } else {
        g
    }
}

/// The token after one event.
pub open spec fn gate_step(g: GateView, e: GateEvent) -> GateView {
    match e {
        GateEvent::Acquire(id) => acquire_spec(g, id),
        GateEvent::Release(id) => release_spec(g, id),
    }
}

/// `a` waits somewhere ahead of `b`.
pub open spec fn waits_ahead(s: Seq<u64>, a: u64, b: u64) -> bool {
    exists|i: int, j: int| 0 <= i < j < s.len() && s[i] == a && s[j] == b
}

/// The outcome of asking for the token.
pub enum Admission {
    /// The token was free and now belongs to the request.
    Granted,
    /// The token is held: the request waits behind those that came before it.
    Queued,
    /// The request already holds or waits for the token; nothing changed.
    AlreadyPresent,
}

/// The outcome of giving the token up.
pub enum Handoff {
    /// The holder left and the first waiter now holds the token.
    HandedTo(u64),
    /// The holder left and nobody was waiting: the token is free.
    Free,
    /// A waiting request stopped waiting.
    Withdrawn,
    /// The request neither held nor waited for the token.
    Unknown,
}

/// A mutual-exclusion token granted in order of arrival.
pub struct SessionGate {
    holder: Option<u64>,
    waiters: Vec<u64>,
}

impl View for SessionGate {
    type V = GateView;

    closed spec fn view(&self) -> GateView {
        GateView { holder: self.holder, waiters: self.waiters@ }
    }
}

impl SessionGate {
    pub open spec fn wf(&self) -> bool {
        gate_wf(self@)
    }

    pub fn new() -> (r: Self)
        ensures
            r.wf(),
            r@.holder is None,
            r@.waiters.len() == 0,
    {
        SessionGate { holder: None, waiters: Vec::new() }
    }

    /// The request that holds the token.
    pub fn holder(&self) -> (r: Option<u64>)
        ensures
            r == self@.holder,
    {
        self.holder
    }

    /// How many requests wait for the token.
    pub fn waiting(&self) -> (r: usize)
        ensures
            r == self@.waiters.len(),
    {
        self.waiters.len()
    }

    /// Where `id` stands among the waiters, counting from the front.
    pub fn position(&self, id: u64) -> (r: Option<usize>)
        ensures
            r matches Some(i) ==> i < self@.waiters.len() && self@.waiters[i as int] == id,
            r is None ==> !self@.waiters.contains(id),
    {
        let mut i: usize = 0;
        while i < self.waiters.len()
            invariant
                i <= self.waiters@.len(),
                forall|k: int| 0 <= k < i ==> self.waiters@[k] != id,
            decreases self.waiters@.len() - i,
        {
            if self.waiters[i] == id {
                return Some(i);
            }
            i = i + 1;
        }
        None
    }

    /// Asks for the token on behalf of request `id`: it is granted at once if
    /// the token is free, else the request joins the back of the line.
    pub fn acquire(&mut self, id: u64) -> (r: Admission)
        requires
            old(self).wf(),
        ensures
            final(self).wf(),
            final(self)@ == acquire_spec(old(self)@, id),
            is_present(old(self)@, id) ==> r is AlreadyPresent,
            !is_present(old(self)@, id) && old(self)@.holder is None ==> r is Granted,
            !is_present(old(self)@, id) && old(self)@.holder is Some ==> r is Queued,
    {
        if self.holder == Some(id) {
            return Admission::AlreadyPresent;
        }
        match self.position(id) {
            Some(_) => Admission::AlreadyPresent,
            None => {
                if self.holder.is_none() {
                    self.holder = Some(id);
                    Admission::Granted
                } else {
                    self.waiters.push(id);
                    assert(self@.waiters.no_duplicates());
                    Admission::Queued
                }
            },
        }
    }

    /// Gives the token up on behalf of request `id`. A holder hands it to the
    /// first waiter; a waiter leaves the line. Every exit path of a request
    /// calls this, so a request that ends never strands the token.
    pub fn release(&mut self, id: u64) -> (r: Handoff)
        requires
            old(self).wf(),
        ensures
            final(self).wf(),
            final(self)@ == release_spec(old(self)@, id),
            old(self)@.holder == Some(id) && old(self)@.waiters.len() > 0 ==> r == Handoff::HandedTo(
                old(self)@.waiters[0],
            ),
            old(self)@.holder == Some(id) && old(self)@.waiters.len() == 0 ==> r is Free,
            old(self)@.holder != Some(id) && old(self)@.waiters.contains(id) ==> r is Withdrawn,
            !is_present(old(self)@, id) ==> r is Unknown,
    {
        if self.holder == Some(id) {
            if self.waiters.len() > 0 {
                let next = self.waiters.remove(0);
                self.holder = Some(next);
                proof {
                    assert(old(self)@.waiters.contains(next));
                }
                Handoff::HandedTo(next)
            } else {
                self.holder = None;
                Handoff::Free
            }
        } else {
            match self.position(id) {
                Some(i) => {
                    proof {
                        lemma_index_of_unique(self@.waiters, i as int);
                    }
                    self.waiters.remove(i);
                    Handoff::Withdrawn
                },
                None => Handoff::Unknown,
            }
        }
    }
}

/// In a sequence without duplicates, `index_of` finds the one index that
/// holds the value.
pub proof fn lemma_index_of_unique(s: Seq<u64>, i: int)
    requires
        s.no_duplicates(),
        0 <= i < s.len(),
    ensures
        s.contains(s[i]),
        s.index_of(s[i]) == i,
{
    assert(s.contains(s[i]));
    let j = s.index_of(s[i]);
    assert(0 <= j < s.len() && s[j] == s[i]);
}

/// Exclusivity: every reachable state has at most one holder and keeps the
/// token's shape, and the token only leaves its holder when that holder
/// releases it, passing to the first waiter. Holders thus follow one another
/// without overlap.
pub proof fn lemma_gate_exclusive(g: GateView, e: GateEvent)
    requires
        gate_wf(g),
    ensures
        gate_wf(gate_step(g, e)),
        g.holder matches Some(h) ==> (gate_step(g, e).holder != Some(h) ==> e == GateEvent::Release(
            h,
        )),
        g.holder is Some && gate_step(g, e).holder is Some && gate_step(g, e).holder != g.holder
            ==> gate_step(g, e).holder == Some(g.waiters[0]),
{
    match e {
        GateEvent::Acquire(id) => {
            let n = acquire_spec(g, id);
            if !is_present(g, id) && g.holder is Some {
                assert forall|x: int, y: int|
                    0 <= x < n.waiters.len() && 0 <= y < n.waiters.len() && x != y implies n.waiters[x]
                    != n.waiters[y] by {
                    if x < g.waiters.len() && y < g.waiters.len() {
                    } else if x < g.waiters.len() {
                        assert(g.waiters.contains(n.waiters[x]));
                    } else {
                        assert(g.waiters.contains(n.waiters[y]));
                    }
                }
                let h = g.holder.unwrap();
                assert(!n.waiters.contains(h)) by {
                    if n.waiters.contains(h) {
                        let k = choose|k: int| 0 <= k < n.waiters.len() && n.waiters[k] == h;
                        if k < g.waiters.len() {
                            assert(g.waiters.contains(h));
                        }
                    }
                }
            }
        },
        GateEvent::Release(id) => {
            let n = release_spec(g, id);
            if g.holder == Some(id) {
                if g.waiters.len() > 0 {
                    assert forall|x: int, y: int|
                        0 <= x < n.waiters.len() && 0 <= y < n.waiters.len() && x != y implies n.waiters[x]
                        != n.waiters[y] by {
                        assert(n.waiters[x] == g.waiters[x + 1]);
                        assert(n.waiters[y] == g.waiters[y + 1]);
                    }
                    assert(!n.waiters.contains(g.waiters[0])) by {
                        if n.waiters.contains(g.waiters[0]) {
                            let k = choose|k: int| 0 <= k < n.waiters.len() && n.waiters[k] == g.waiters[0];
                            assert(g.waiters[k + 1] == g.waiters[0]);
                        }
                    }
                }
            } else if g.waiters.contains(id) {
                let k = g.waiters.index_of(id);
                lemma_remove_keeps_shape(g, k);
            }
        },
    }
}

/// Taking one waiter out of the line keeps the token's shape.
proof fn lemma_remove_keeps_shape(g: GateView, k: int)
    requires
        gate_wf(g),
        0 <= k < g.waiters.len(),
    ensures
        gate_wf(GateView { holder: g.holder, waiters: g.waiters.remove(k) }),
{
    let w = g.waiters.remove(k);
    assert forall|x: int, y: int| 0 <= x < w.len() && 0 <= y < w.len() && x != y implies w[x] != w[y] by {
        let x0 = if x < k { x } else { x + 1 };
        let y0 = if y < k { y } else { y + 1 };
        assert(w[x] == g.waiters[x0]);
        assert(w[y] == g.waiters[y0]);
    }
    if let Some(h) = g.holder {
        assert(!w.contains(h)) by {
            if w.contains(h) {
                let x = choose|x: int| 0 <= x < w.len() && w[x] == h;
                let x0 = if x < k { x } else { x + 1 };
                assert(g.waiters[x0] == h);
            }
        }
    }
}

/// Fairness: while two requests wait, the one that came first stays ahead,
/// and the later one cannot be granted the token; the earlier one is served
/// first, unless one of the two gives up waiting.
pub proof fn lemma_gate_fifo(g: GateView, e: GateEvent, a: u64, b: u64)
    requires
        gate_wf(g),
        waits_ahead(g.waiters, a, b),
        e != GateEvent::Release(a),
        e != GateEvent::Release(b),
    ensures
        gate_step(g, e).holder != Some(b),
        gate_step(g, e).holder == Some(a) || waits_ahead(gate_step(g, e).waiters, a, b),
{
    let (i, j) = choose|i: int, j: int|
        0 <= i < j < g.waiters.len() && g.waiters[i] == a && g.waiters[j] == b;
    let n = gate_step(g, e);
    match e {
        GateEvent::Acquire(id) => {
            if !is_present(g, id) {
                assert(n.waiters[i] == a && n.waiters[j] == b);
            }
        },
        GateEvent::Release(id) => {
            if g.holder == Some(id) {
                if i > 0 {
                    assert(n.waiters[i - 1] == a && n.waiters[j - 1] == b);
                }
            } else if g.waiters.contains(id) {
                let k = g.waiters.index_of(id);
                assert(k != i && k != j);
                let i1 = if i < k { i } else { i - 1 };
                let j1 = if j < k { j } else { j - 1 };
                assert(n.waiters[i1] == a && n.waiters[j1] == b);
            }
        },
    }
}

/// A holder that goes away, for whatever reason, passes the token on at once:
/// the first waiter holds it after that one step, and the token is free if
/// nobody waited.
pub proof fn lemma_release_hands_over(g: GateView, h: u64)
    requires
        gate_wf(g),
        g.holder == Some(h),
    ensures
        g.waiters.len() > 0 ==> gate_step(g, GateEvent::Release(h)).holder == Some(g.waiters[0]),
        g.waiters.len() == 0 ==> gate_step(g, GateEvent::Release(h)).holder is None,
        !is_present(gate_step(g, GateEvent::Release(h)), h),
{
    let n = gate_step(g, GateEvent::Release(h));
    if g.waiters.len() > 0 {
        assert(!n.waiters.contains(h)) by {
            if n.waiters.contains(h) {
                let k = choose|k: int| 0 <= k < n.waiters.len() && n.waiters[k] == h;
                assert(g.waiters[k + 1] == h);
            }
        }
    }
}

} // verus!
