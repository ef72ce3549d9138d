//! The client registry and the tick scheduler's decisions.
//!
//! The registry maps a connection's index to its entry (in a server: the
//! connection's inbox and a handle to its socket). Only the scheduler removes
//! entries, after the connection has reported that it closed.

use vstd::prelude::*;
use vstd::string::StringExecFns;

verus! {

/// Text of the chat component that announces a join, before the name.
pub const JOIN_TEXT_PREFIX: &'static str = "{\"text\": \"+";

/// Text of the chat component that announces a join, after the name.
pub const JOIN_TEXT_SUFFIX: &'static str = " joined.\"}";

/// The chat component, as JSON text, that announces `name` joining.
pub fn join_announcement(name: &str) -> (r: String)
    ensures
        r@ == JOIN_TEXT_PREFIX@ + name@ + JOIN_TEXT_SUFFIX@,
{
    let mut text = String::from_str(JOIN_TEXT_PREFIX);
    text.append(name);
    text.append(JOIN_TEXT_SUFFIX);
    text
}

/// A lifecycle signal from a connection to the scheduler.
pub enum Message {
    PlayerJoined(String),
    ConnectionClosed,
}

/// Milliseconds between two ticks.
pub const TICK_INTERVAL_MS: u64 = 1000;

/// Milliseconds that must pass before the next keep-alive broadcast.
pub const KEEP_ALIVE_INTERVAL_MS: u64 = 2500;

/// Held as a sequence rather than a hash map: each cycle polls the entries
/// in one fixed order and hands the scheduler a message per entry in that
/// order, which a map's unspecified walk order could not give.
pub struct Registry<E> {
    entries: Vec<(usize, E)>,
}

pub open spec fn ids_of<E>(s: Seq<(usize, E)>) -> Seq<usize> {
    s.map_values(|p: (usize, E)| p.0)
}

/// `s` without the ids that `marked` holds, order kept.
pub open spec fn without(s: Seq<usize>, marked: Seq<usize>) -> Seq<usize>
    decreases s.len(),
{
    if s.len() == 0 {
        seq![]
    } else {
        let r = without(s.drop_last(), marked);
        if marked.contains(s.last()) {
            r
        } else {
            r.push(s.last())
        }
    }
}

impl<E> Registry<E> {
    /// The registered connections with their entries, in insertion order.
    pub closed spec fn items(&self) -> Seq<(usize, E)> {
        self.entries@
    }

    /// The indices of the registered connections, in insertion order.
    pub open spec fn ids(&self) -> Seq<usize> {
        ids_of(self.items())
    }

    /// At most one entry per connection.
    pub open spec fn wf(&self) -> bool {
        self.ids().no_duplicates()
    }

    pub fn new() -> (r: Self)
        ensures
            r.wf(),
            r.ids() == Seq::<usize>::empty(),
    {
        let r = Registry { entries: Vec::new() };
        assert(r.ids() =~= Seq::<usize>::empty());
        r
    }

    pub fn len(&self) -> (r: usize)
        ensures
            r == self.ids().len(),
    {
        self.entries.len()
    }

    pub fn id_at(&self, i: usize) -> (r: usize)
        requires
            i < self.ids().len(),
        ensures
            r == self.ids()[i as int],
    {
        self.entries[i].0
    }

    pub fn entry_at(&self, i: usize) -> (r: &E)
        requires
            i < self.ids().len(),
        ensures
            *r == self.items()[i as int].1,
    {
        &self.entries[i].1
    }

    /// Whether `id` is registered.
    pub fn contains(&self, id: usize) -> (r: bool)
        ensures
            r == self.ids().contains(id),
    {
        let mut i: usize = 0;
        while i < self.entries.len()
            invariant
                i <= self.ids().len(),
                self.ids().len() == self.entries@.len(),
                forall|j: int| 0 <= j < i ==> self.ids()[j] != id,
            decreases self.entries.len() - i,
        {
            if self.entries[i].0 == id {
                assert(self.ids()[i as int] == id);
                return true;
            }
            i = i + 1;
        }
        false
    }

    /// Registers `id`; refused, and nothing changes, when it is already there.
    pub fn insert(&mut self, id: usize, e: E) -> (r: bool)
        requires
            old(self).wf(),
        ensures
            final(self).wf(),
            r == !old(self).ids().contains(id),
            r ==> final(self).items() == old(self).items().push((id, e)),
            !r ==> final(self).items() == old(self).items(),
    {
        if self.contains(id) {
            return false;
        }
        self.entries.push((id, e));
        assert(final(self).ids() =~= old(self).ids().push(id));
        true
    }

    /// Removes every entry whose id `marked` holds.
    pub fn remove_all(&mut self, marked: &Vec<usize>)
        requires
            old(self).wf(),
        ensures
            final(self).wf(),
            final(self).ids() == without(old(self).ids(), marked@),
    {
        let mut rest: Vec<(usize, E)> = Vec::new();
        std::mem::swap(&mut rest, &mut self.entries);
        let ghost orig = rest@;
        let ghost k: int = 0;
        assert(ids_of(self.entries@) =~= without(ids_of(orig).take(0), marked@));
        while rest.len() > 0
            invariant
                0 <= k <= orig.len(),
                rest@ == orig.skip(k),
                ids_of(self.entries@) == without(ids_of(orig).take(k), marked@),
                ids_of(orig).no_duplicates(),
            decreases rest.len(),
        {
            let (id, e) = rest.remove(0);
            assert(ids_of(orig).take(k + 1).drop_last() =~= ids_of(orig).take(k));
            assert(orig[k].0 == id);
            let mut found = false;
            let mut j: usize = 0;
            while j < marked.len()
                invariant
                    j <= marked@.len(),
                    found == exists|t: int| 0 <= t < j && #[trigger] marked@[t] == id,
                decreases marked.len() - j,
            {
                if marked[j] == id {
                    found = true;
                }
                j = j + 1;
            }
            if !found {
                self.entries.push((id, e));
                assert(ids_of(self.entries@) =~= without(ids_of(orig).take(k), marked@).push(id));
            }
            proof {
                k = k + 1;
                assert(rest@ =~= orig.skip(k));
            }
        }
        assert(ids_of(orig).take(k) =~= ids_of(orig));
        proof {
            lemma_without_sub(ids_of(orig), marked@);
        }
    }
}

proof fn lemma_push_contains(r: Seq<usize>, y: usize)
    ensures
        forall|x: usize| #[trigger] r.push(y).contains(x) <==> r.contains(x) || x == y,
        r.no_duplicates() && !r.contains(y) ==> r.push(y).no_duplicates(),
{
    assert forall|x: usize| #[trigger] r.push(y).contains(x) <==> r.contains(x) || x == y by {
        if r.push(y).contains(x) {
            let i = choose|i: int| 0 <= i < r.len() + 1 && r.push(y)[i] == x;
            if i < r.len() {
                assert(r[i] == x);
            }
        }
        if r.contains(x) {
            let i = choose|i: int| 0 <= i < r.len() && r[i] == x;
            assert(r.push(y)[i] == x);
        }
        if x == y {
            assert(r.push(y)[r.len() as int] == x);
        }
    }
    if r.no_duplicates() && !r.contains(y) {
        let q = r.push(y);
        assert forall|a: int, b: int| 0 <= a < q.len() && 0 <= b < q.len() && a != b implies q[a]
            != q[b] by {
            if a < r.len() && b < r.len() {
                assert(q[a] == r[a] && q[b] == r[b]);
            } else if a < r.len() {
                assert(r.contains(q[a]));
            } else if b < r.len() {
                assert(r.contains(q[b]));
            }
        }
    }
}

/// Removing ids keeps what remains distinct and drawn from the original.
pub proof fn lemma_without_sub(s: Seq<usize>, marked: Seq<usize>)
    requires
        s.no_duplicates(),
    ensures
        without(s, marked).no_duplicates(),
        forall|x: usize| #[trigger] without(s, marked).contains(x) <==> s.contains(x)
            && !marked.contains(x),
    decreases s.len(),
{
    if s.len() > 0 {
        let t = s.drop_last();
        let y = s.last();
        assert(s =~= t.push(y));
        lemma_push_contains(t, y);
        assert(!t.contains(y)) by {
            if t.contains(y) {
                let i = choose|i: int| 0 <= i < t.len() && t[i] == y;
                assert(s[i] == s[s.len() - 1]);
            }
        }
        assert(t.no_duplicates()) by {
            assert forall|a: int, b: int| 0 <= a < t.len() && 0 <= b < t.len() && a != b implies t[a]
                != t[b] by {
                assert(s[a] == t[a] && s[b] == t[b]);
            }
        }
        lemma_without_sub(t, marked);
        let r = without(t, marked);
        lemma_push_contains(r, y);
    }
}

/// The ids whose connection reported that it closed, in registry order.
pub open spec fn closed_ids(ids: Seq<usize>, polled: Seq<Option<Message>>) -> Seq<usize>
    decreases ids.len(),
{
    if ids.len() == 0 || polled.len() == 0 {
        seq![]
    } else {
        let r = closed_ids(ids.drop_last(), polled.drop_last());
        if polled.last() matches Some(Message::ConnectionClosed) {
            r.push(ids.last())
        } else {
            r
        }
    }
}

/// The names of the players who joined, in registry order.
pub open spec fn joined_names(polled: Seq<Option<Message>>) -> Seq<Seq<char>>
    decreases polled.len(),
{
    if polled.len() == 0 {
        seq![]
    } else {
        let r = joined_names(polled.drop_last());
        match polled.last() {
            Some(Message::PlayerJoined(name)) => r.push(name@),
            _ => r,
        }
    }
}

/// Some connection reported that it closed.
pub open spec fn any_closed(polled: Seq<Option<Message>>) -> bool {
    exists|i: int| 0 <= i < polled.len() && #[trigger] polled[i] matches Some(Message::ConnectionClosed)
}

/// What the scheduler does in one cycle: announce each joined player to
/// every registered connection, send keep-alives to all when `keep_alive`,
/// then remove `remove`.
pub struct TickPlan {
    pub joined: Vec<String>,
    pub keep_alive: bool,
    pub remove: Vec<usize>,
}

/// Decides a cycle from the message polled from each entry's inbox
/// (`polled[i]` for `ids[i]`): a closed connection is marked for removal and
/// suppresses the keep-alive for this cycle.
pub fn plan_tick(ids: &Vec<usize>, polled: &Vec<Option<Message>>, keep_alive_due: bool) -> (r:
    TickPlan)
    requires
        ids@.len() == polled@.len(),
    ensures
        r.remove@ == closed_ids(ids@, polled@),
        r.joined@.map_values(|s: String| s@) == joined_names(polled@),
        r.keep_alive == (keep_alive_due && !any_closed(polled@)),
{
    let mut remove: Vec<usize> = Vec::new();
    let mut joined: Vec<String> = Vec::new();
    let mut closed = false;
    let mut i: usize = 0;
    while i < polled.len()
        invariant
            i <= polled@.len(),
            ids@.len() == polled@.len(),
            remove@ == closed_ids(ids@.take(i as int), polled@.take(i as int)),
            joined@.map_values(|s: String| s@) == joined_names(polled@.take(i as int)),
            closed == exists|t: int|
                0 <= t < i && #[trigger] polled@[t] matches Some(Message::ConnectionClosed),
        decreases polled.len() - i,
    {
        assert(ids@.take(i + 1).drop_last() =~= ids@.take(i as int));
        assert(polled@.take(i + 1).drop_last() =~= polled@.take(i as int));
        match &polled[i] {
            Some(Message::ConnectionClosed) => {
                remove.push(ids[i]);
                closed = true;
            },
            Some(Message::PlayerJoined(name)) => {
                joined.push(name.clone());
                assert(joined@.map_values(|s: String| s@) =~= joined_names(polled@.take(i as int)).push(name@));
            },
            None => {},
        }
        i = i + 1;
    }
    assert(ids@.take(i as int) =~= ids@);
    assert(polled@.take(i as int) =~= polled@);
    TickPlan { joined, keep_alive: keep_alive_due && !closed, remove }
}

/// Time passed from `then` to `now`, zero if the clock went back.
pub open spec fn elapsed(then: u64, now: u64) -> int {
    if now >= then {
        now - then
    } else {
        0
    }
}

/// Keep-alives go out at `now` when more than the keep-alive interval has
/// passed since `last` and no connection closed in this cycle.
pub open spec fn keep_alive_sent(last: u64, now: u64, polled: Seq<Option<Message>>) -> bool {
    elapsed(last, now) > KEEP_ALIVE_INTERVAL_MS && !any_closed(polled)
}

/// The time of the last keep-alive after a cycle at `now` over `n` entries.
pub open spec fn next_keep_alive(last: u64, now: u64, polled: Seq<Option<Message>>, n: nat) -> u64 {
    if keep_alive_sent(last, now, polled) && n > 0 {
        now
    } else {
        last
    }
}

/// Keep-alives are spaced: of two successive cycles at `t1` and then `t2`,
/// both cannot send unless more than the interval lies between them; a
/// cycle in which a connection closed sends none.
pub proof fn keep_alive_cadence(
    last: u64,
    t1: u64,
    p1: Seq<Option<Message>>,
    n1: nat,
    t2: u64,
    p2: Seq<Option<Message>>,
)
    requires
        n1 > 0,
    ensures
        any_closed(p1) ==> !keep_alive_sent(last, t1, p1),
        keep_alive_sent(last, t1, p1) && keep_alive_sent(next_keep_alive(last, t1, p1, n1), t2, p2)
            ==> t2 - t1 > KEEP_ALIVE_INTERVAL_MS,
        keep_alive_sent(last, t1, p1) ==> t1 - last > KEEP_ALIVE_INTERVAL_MS,
{
}

/// Every id marked in a cycle is registered, and marked once.
pub proof fn closed_ids_registered(ids: Seq<usize>, polled: Seq<Option<Message>>)
    requires
        ids.no_duplicates(),
        ids.len() == polled.len(),
    ensures
        closed_ids(ids, polled).no_duplicates(),
        forall|x: usize| #[trigger] closed_ids(ids, polled).contains(x) ==> ids.contains(x),
    decreases ids.len(),
{
    if ids.len() > 0 {
        let t = ids.drop_last();
        let y = ids.last();
        assert(ids =~= t.push(y));
        lemma_push_contains(t, y);
        assert(t.no_duplicates()) by {
            assert forall|a: int, b: int| 0 <= a < t.len() && 0 <= b < t.len() && a != b implies t[a]
                != t[b] by {
                assert(ids[a] == t[a] && ids[b] == t[b]);
            }
        }
        assert(!t.contains(y)) by {
            if t.contains(y) {
                let i = choose|i: int| 0 <= i < t.len() && t[i] == y;
                assert(ids[i] == ids[ids.len() - 1]);
            }
        }
        closed_ids_registered(t, polled.drop_last());
        lemma_push_contains(closed_ids(t, polled.drop_last()), y);
    }
}

proof fn lemma_all_closed(ids: Seq<usize>, polled: Seq<Option<Message>>)
    requires
        ids.len() == polled.len(),
        forall|i: int| 0 <= i < polled.len() ==> #[trigger] polled[i] matches Some(
            Message::ConnectionClosed,
        ),
    ensures
        closed_ids(ids, polled) == ids,
    decreases ids.len(),
{
    if ids.len() > 0 {
        let pd = polled.drop_last();
        assert forall|i: int| 0 <= i < pd.len() implies #[trigger] pd[i] matches Some(
            Message::ConnectionClosed,
        ) by {
            assert(pd[i] == polled[i]);
        }
        lemma_all_closed(ids.drop_last(), pd);
        assert(polled.last() == polled[polled.len() - 1]);
        assert(ids.drop_last().push(ids.last()) =~= ids);
    }
}

/// When every registered connection reports that it closed, one cycle
/// marks each of them exactly once, and removing what it marked leaves the
/// registry empty.
pub proof fn closed_connections_drain(ids: Seq<usize>, polled: Seq<Option<Message>>)
    requires
        ids.no_duplicates(),
        ids.len() == polled.len(),
        forall|i: int| 0 <= i < polled.len() ==> #[trigger] polled[i] matches Some(
            Message::ConnectionClosed,
        ),
    ensures
        closed_ids(ids, polled) == ids,
        without(ids, closed_ids(ids, polled)) == Seq::<usize>::empty(),
{
    lemma_all_closed(ids, polled);
    lemma_without_sub(ids, ids);
    let w = without(ids, ids);
    if w.len() > 0 {
        assert(w.contains(w[0]));
    }
    assert(w =~= Seq::<usize>::empty());
}

/// The scheduler's clock state.
pub struct Scheduler {
    pub last_tick: u64,
    pub last_keep_alive: u64,
}

impl Scheduler {
    pub fn new(now: u64) -> (r: Scheduler)
        ensures
            r.last_tick == now,
            r.last_keep_alive == now,
    {
        Scheduler { last_tick: now, last_keep_alive: now }
    }

    /// Whether a cycle is due at `now`.
    pub fn tick_due(&self, now: u64) -> (r: bool)
        ensures
            r == (elapsed(self.last_tick, now) > TICK_INTERVAL_MS),
    {
        now >= self.last_tick && now - self.last_tick > TICK_INTERVAL_MS
    }

    /// Runs a cycle at `now` over the registry's ids and the polled
    /// messages: keep-alives go out only when more than the keep-alive
    /// interval has passed since the last ones and no connection closed, and
    /// the time of the last keep-alive moves only when some were sent.
    pub fn tick(&mut self, now: u64, ids: &Vec<usize>, polled: &Vec<Option<Message>>) -> (r:
        TickPlan)
        requires
            ids@.len() == polled@.len(),
        ensures
            r.remove@ == closed_ids(ids@, polled@),
            r.joined@.map_values(|s: String| s@) == joined_names(polled@),
            r.keep_alive == keep_alive_sent(old(self).last_keep_alive, now, polled@),
            final(self).last_tick == now,
            final(self).last_keep_alive == next_keep_alive(
                old(self).last_keep_alive,
                now,
                polled@,
                ids@.len(),
            ),
    {
        let due = now >= self.last_keep_alive && now - self.last_keep_alive > KEEP_ALIVE_INTERVAL_MS;
        let plan = plan_tick(ids, polled, due);
        self.last_tick = now;
        if plan.keep_alive && ids.len() > 0 {
            self.last_keep_alive = now;
        }
        plan
    }
}

} // verus!
