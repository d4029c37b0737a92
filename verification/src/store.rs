//! The deadline store: pending wake requests, kept in the order in which they
//! fall due.
//!
//! Only the driver touches the store. Requests with the same deadline stay in
//! the order in which they arrived.

use std::mem::swap;
use vstd::prelude::*;

verus! {

/// One pending wake request.
#[derive(Debug)]
pub struct Registration<W> {
    /// The instant from which the request may fire.
    pub deadline: u64,
    /// What tells this request from every other one.
    pub id: u64,
    /// What to invoke when the request fires.
    pub signal: W,
}

/// No entry falls due before one that stands in front of it.
pub open spec fn sorted<W>(s: Seq<Registration<W>>) -> bool {
    forall|i: int, j: int| 0 <= i < j < s.len() ==> s[i].deadline <= s[j].deadline
}

/// No two entries share an identity.
pub open spec fn distinct_ids<W>(s: Seq<Registration<W>>) -> bool {
    forall|i: int, j: int|
        0 <= i < s.len() && 0 <= j < s.len() && i != j ==> s[i].id != s[j].id
}

/// Some entry carries the identity `id`.
pub open spec fn holds_id<W>(s: Seq<Registration<W>>, id: u64) -> bool {
    exists|i: int| 0 <= i < s.len() && s[i].id == id
}

/// Where the entry with identity `id` stands, if there is one.
pub open spec fn position<W>(s: Seq<Registration<W>>, id: u64) -> int {
    choose|i: int| 0 <= i < s.len() && s[i].id == id
}

/// The number of leading entries whose deadline is `now` or earlier.
pub open spec fn due_count<W>(s: Seq<Registration<W>>, now: u64) -> nat
    decreases s.len(),
{
    if s.len() == 0 || s[0].deadline > now {
        0
    } else {
        1 + due_count(s.skip(1), now)
    }
}

/// The entries that fire at `now`: the leading ones that are due, earliest
/// first.
pub open spec fn due<W>(s: Seq<Registration<W>>, now: u64) -> Seq<Registration<W>> {
    s.take(due_count(s, now) as int)
}

/// The entries that stay when those due at `now` have fired.
pub open spec fn not_due<W>(s: Seq<Registration<W>>, now: u64) -> Seq<Registration<W>> {
    s.skip(due_count(s, now) as int)
}

/// The entries of `s` that do not carry the identity `id`, in their order.
pub open spec fn without<W>(s: Seq<Registration<W>>, id: u64) -> Seq<Registration<W>> {
    s.filter(|r: Registration<W>| r.id != id)
}

/// `s` with `reg` put behind every entry that falls due no later than `reg`
/// does, after any earlier entry of the same identity has left.
pub open spec fn inserted<W>(s: Seq<Registration<W>>, reg: Registration<W>) -> Seq<
    Registration<W>,
> {
    let rest = without(s, reg.id);
    rest.insert(due_count(rest, reg.deadline) as int, reg)
}

/// One request to change the store.
#[derive(Debug)]
pub enum Intent<W> {
    /// Start waiting: wake `signal` once `deadline` has come.
    Insert { id: u64, deadline: u64, signal: W },
    /// Keep waiting, but wake `signal` instead of the one given before.
    Rewake { id: u64, signal: W },
    /// Keep waiting, but until `deadline`.
    Reset { id: u64, deadline: u64 },
    /// Stop waiting.
    Cancel { id: u64 },
}

/// The deadline that an intent brings into the store, if it brings one.
pub open spec fn deadline_of<W>(intent: Intent<W>) -> Option<u64> {
    match intent {
        Intent::Insert { deadline, .. } => Some(deadline),
        Intent::Reset { deadline, .. } => Some(deadline),
        Intent::Rewake { .. } => None,
        Intent::Cancel { .. } => None,
    }
}

/// The identity that an intent speaks of.
pub open spec fn id_of<W>(intent: Intent<W>) -> u64 {
    match intent {
        Intent::Insert { id, .. } => id,
        Intent::Reset { id, .. } => id,
        Intent::Rewake { id, .. } => id,
        Intent::Cancel { id } => id,
    }
}

/// The store's contents after one intent has been carried out. An intent that
/// speaks of a request that is not pending changes nothing, unless it inserts.
pub open spec fn applied<W>(s: Seq<Registration<W>>, intent: Intent<W>) -> Seq<Registration<W>> {
    match intent {
        Intent::Insert { id, deadline, signal } => inserted(s, Registration { deadline, id, signal }),
        Intent::Rewake { id, signal } => if holds_id(s, id) {
            let at = position(s, id);
            s.update(at, Registration { deadline: s[at].deadline, id, signal })
        } else {
            s
        },
        Intent::Reset { id, deadline } => if holds_id(s, id) {
            inserted(s, Registration { deadline, id, signal: s[position(s, id)].signal })
        } else {
            s
        },
        Intent::Cancel { id } => without(s, id),
    }
}

/// The store's contents after the intents have been carried out, first to
/// last.
pub open spec fn applied_all<W>(s: Seq<Registration<W>>, intents: Seq<Intent<W>>) -> Seq<
    Registration<W>,
>
    decreases intents.len(),
{
    if intents.len() == 0 {
        s
    } else {
        applied(applied_all(s, intents.drop_last()), intents.last())
    }
}

/// A sequence whose entries all meet `pred` is its own filter.
pub proof fn lemma_filter_keeps_all<A>(s: Seq<A>, pred: spec_fn(A) -> bool)
    requires
        forall|i: int| 0 <= i < s.len() ==> pred(#[trigger] s[i]),
    ensures
        s.filter(pred) == s,
    decreases s.len(),
{
    reveal(Seq::filter);
    if s.len() > 0 {
        lemma_filter_keeps_all(s.drop_last(), pred);
        assert(s.drop_last().push(s.last()) =~= s);
    }
}

/// Removing an identity that is not there changes nothing.
pub proof fn lemma_without_absent<W>(s: Seq<Registration<W>>, id: u64)
    requires
        !holds_id(s, id),
    ensures
        without(s, id) == s,
{
    lemma_filter_keeps_all(s, |r: Registration<W>| r.id != id);
}

/// Removing an identity takes out the one entry that carries it.
pub proof fn lemma_without_present<W>(s: Seq<Registration<W>>, id: u64, i: int)
    requires
        distinct_ids(s),
        0 <= i < s.len(),
        s[i].id == id,
    ensures
        without(s, id) == s.remove(i),
{
    let pred = |r: Registration<W>| r.id != id;
    let head = s.take(i);
    let one = seq![s[i]];
    let tail = s.skip(i + 1);
    assert(s =~= (head + one) + tail);
    Seq::filter_distributes_over_add(head + one, tail, pred);
    Seq::filter_distributes_over_add(head, one, pred);
    lemma_filter_keeps_all(head, pred);
    lemma_filter_keeps_all(tail, pred);
    assert(one.filter(pred) =~= Seq::<Registration<W>>::empty()) by {
        reveal(Seq::filter);
        assert(one.drop_last() =~= Seq::<Registration<W>>::empty());
        assert(one.drop_last().filter(pred) =~= Seq::<Registration<W>>::empty());
    }
    assert(s.remove(i) =~= head + tail);
    assert((head + Seq::<Registration<W>>::empty()) + tail =~= head + tail);
}

/// What is left after removing an identity no longer holds it, and is still
/// in order.
pub proof fn lemma_without_keeps_order<W>(s: Seq<Registration<W>>, id: u64)
    requires
        sorted(s),
        distinct_ids(s),
    ensures
        sorted(without(s, id)),
        distinct_ids(without(s, id)),
        !holds_id(without(s, id), id),
        forall|other: u64| other != id ==> (holds_id(without(s, id), other) <==> holds_id(s, other)),
{
    let t = without(s, id);
    if holds_id(s, id) {
        let i = position(s, id);
        lemma_without_present(s, id, i);
        assert forall|other: u64| other != id implies (holds_id(t, other) <==> holds_id(
            s,
            other,
        )) by {
            if holds_id(s, other) {
                let j = position(s, other);
                if j < i {
                    assert(t[j].id == other);
                } else {
                    assert(t[j - 1].id == other);
                }
            }
            if holds_id(t, other) {
                let j = position(t, other);
                if j < i {
                    assert(s[j].id == other);
                } else {
                    assert(s[j + 1].id == other);
                }
            }
        }
        if holds_id(t, id) {
            let j = position(t, id);
            if j < i {
                assert(s[j].id == id);
            } else {
                assert(s[j + 1].id == id);
            }
        }
    } else {
        lemma_without_absent(s, id);
    }
}

/// The leading `k` entries are due and the next one is not: `k` is the count.
pub proof fn lemma_due_count_is<W>(s: Seq<Registration<W>>, now: u64, k: int)
    requires
        0 <= k <= s.len(),
        forall|i: int| 0 <= i < k ==> s[i].deadline <= now,
        k == s.len() || s[k].deadline > now,
    ensures
        due_count(s, now) == k,
    decreases k,
{
    if k > 0 {
        lemma_due_count_is(s.skip(1), now, k - 1);
    }
}

/// In an ordered sequence the count splits the due entries from the rest.
pub proof fn lemma_due_count_splits<W>(s: Seq<Registration<W>>, now: u64)
    requires
        sorted(s),
    ensures
        due_count(s, now) <= s.len(),
        forall|i: int| 0 <= i < due_count(s, now) ==> s[i].deadline <= now,
        forall|i: int| due_count(s, now) <= i < s.len() ==> s[i].deadline > now,
    decreases s.len(),
{
    if s.len() > 0 && s[0].deadline <= now {
        let t = s.skip(1);
        assert forall|i: int, j: int| 0 <= i < j < t.len() implies t[i].deadline
            <= t[j].deadline by {
            assert(t[i] == s[i + 1] && t[j] == s[j + 1]);
        }
        lemma_due_count_splits(t, now);
        let k = due_count(s, now);
        assert forall|i: int| 0 <= i < k implies s[i].deadline <= now by {
            if i > 0 {
                assert(s[i] == t[i - 1]);
            }
        }
        assert forall|i: int| k <= i < s.len() implies s[i].deadline > now by {
            assert(s[i] == t[i - 1]);
        }
    }
}

/// Putting an entry in keeps the order and the identities apart, and the
/// entry is then there.
pub proof fn lemma_inserted_keeps_order<W>(s: Seq<Registration<W>>, reg: Registration<W>)
    requires
        sorted(s),
        distinct_ids(s),
    ensures
        sorted(inserted(s, reg)),
        distinct_ids(inserted(s, reg)),
        holds_id(inserted(s, reg), reg.id),
        inserted(s, reg).len() == without(s, reg.id).len() + 1,
        forall|other: u64|
            other != reg.id ==> (holds_id(inserted(s, reg), other) <==> holds_id(s, other)),
{
    let rest = without(s, reg.id);
    let k = due_count(rest, reg.deadline) as int;
    let t = inserted(s, reg);
    lemma_without_keeps_order(s, reg.id);
    lemma_due_count_splits(rest, reg.deadline);
    assert(t[k] == reg);
    assert forall|i: int, j: int| 0 <= i < j < t.len() implies t[i].deadline
        <= t[j].deadline by {
        if i < k && j > k {
            assert(t[i] == rest[i] && t[j] == rest[j - 1]);
        } else if i > k {
            assert(t[i] == rest[i - 1] && t[j] == rest[j - 1]);
        } else if j < k {
            assert(t[i] == rest[i] && t[j] == rest[j]);
        } else if i == k {
            assert(t[j] == rest[j - 1]);
        } else {
            assert(t[i] == rest[i]);
        }
    }
    assert forall|i: int, j: int|
        0 <= i < t.len() && 0 <= j < t.len() && i != j implies t[i].id != t[j].id by {
        let a = if i < k { i } else { i - 1 };
        let b = if j < k { j } else { j - 1 };
        if i != k {
            assert(t[i] == rest[a]);
        }
        if j != k {
            assert(t[j] == rest[b]);
        }
    }
    assert forall|other: u64| other != reg.id implies (holds_id(t, other) <==> holds_id(
        s,
        other,
    )) by {
        if holds_id(rest, other) {
            let j = position(rest, other);
            if j < k {
                assert(t[j].id == other);
            } else {
                assert(t[j + 1].id == other);
            }
        }
        if holds_id(t, other) {
            let j = position(t, other);
            if j < k {
                assert(rest[j].id == other);
            } else {
                assert(rest[j - 1].id == other);
            }
        }
    }
}


/// Carrying out an intent keeps the store in order and the identities
/// apart.
pub proof fn lemma_applied_keeps_order<W>(s: Seq<Registration<W>>, intent: Intent<W>)
    requires
        sorted(s),
        distinct_ids(s),
    ensures
        sorted(applied(s, intent)),
        distinct_ids(applied(s, intent)),
{
    match intent {
        Intent::Insert { id, deadline, signal } => {
            lemma_inserted_keeps_order(s, Registration { deadline, id, signal });
        },
        Intent::Rewake { id, signal } => {},
        Intent::Reset { id, deadline } => {
            if holds_id(s, id) {
                lemma_inserted_keeps_order(
                    s,
                    Registration { deadline, id, signal: s[position(s, id)].signal },
                );
            }
        },
        Intent::Cancel { id } => {
            lemma_without_keeps_order(s, id);
        },
    }
}

/// Whatever intents arrive, and in whatever order, the store stays in
/// deadline order with the identities apart.
pub proof fn lemma_applied_all_keeps_order<W>(s: Seq<Registration<W>>, intents: Seq<Intent<W>>)
    requires
        sorted(s),
        distinct_ids(s),
    ensures
        sorted(applied_all(s, intents)),
        distinct_ids(applied_all(s, intents)),
    decreases intents.len(),
{
    if intents.len() > 0 {
        lemma_applied_all_keeps_order(s, intents.drop_last());
        lemma_applied_keeps_order(applied_all(s, intents.drop_last()), intents.last());
    }
}

/// Firing order. Of two pending requests with different deadlines, the one
/// that falls due first stands in front; so where the later one fires at
/// `now`, the earlier one fires in the same step and before it.
pub proof fn lemma_earlier_deadline_fires_first<W>(
    s: Seq<Registration<W>>,
    now: u64,
    i: int,
    j: int,
)
    requires
        sorted(s),
        0 <= i < s.len(),
        0 <= j < s.len(),
        s[i].deadline < s[j].deadline,
    ensures
        i < j,
        j < due(s, now).len() ==> i < due(s, now).len() && due(s, now)[i] == s[i] && due(
            s,
            now,
        )[j] == s[j],
{
    lemma_due_count_splits(s, now);
}

/// What fires comes out in deadline order, whatever the order in which the
/// requests came in.
pub proof fn lemma_fired_in_deadline_order<W>(
    s: Seq<Registration<W>>,
    intents: Seq<Intent<W>>,
    now: u64,
)
    requires
        sorted(s),
        distinct_ids(s),
    ensures
        sorted(due(applied_all(s, intents), now)),
{
    lemma_applied_all_keeps_order(s, intents);
    lemma_due_count_splits(applied_all(s, intents), now);
}

/// Firing takes exactly the requests whose deadline has come: each pending
/// request is among the fired ones if it is due at `now`, and stays if it is
/// not. Firing again at the same instant, with nothing new in the store,
/// takes nothing.
pub proof fn lemma_firing_is_exact_and_idempotent<W>(s: Seq<Registration<W>>, now: u64)
    requires
        sorted(s),
    ensures
        s == due(s, now) + not_due(s, now),
        forall|r: Registration<W>| due(s, now).contains(r) <==> s.contains(r) && r.deadline <= now,
        forall|r: Registration<W>| not_due(s, now).contains(r) <==> s.contains(r) && r.deadline > now,
        due(not_due(s, now), now) == Seq::<Registration<W>>::empty(),
        not_due(not_due(s, now), now) == not_due(s, now),
{
    lemma_due_count_splits(s, now);
    let k = due_count(s, now) as int;
    let fired = due(s, now);
    let left = not_due(s, now);
    assert(s =~= fired + left);
    assert forall|r: Registration<W>| fired.contains(r) <==> s.contains(r) && r.deadline
        <= now by {
        if fired.contains(r) {
            let i = choose|i: int| 0 <= i < fired.len() && fired[i] == r;
            assert(s[i] == r);
        }
        if s.contains(r) && r.deadline <= now {
            let i = choose|i: int| 0 <= i < s.len() && s[i] == r;
            assert(i < k);
            assert(fired[i] == r);
        }
    }
    assert forall|r: Registration<W>| left.contains(r) <==> s.contains(r) && r.deadline
        > now by {
        if left.contains(r) {
            let i = choose|i: int| 0 <= i < left.len() && left[i] == r;
            assert(s[i + k] == r);
        }
        if s.contains(r) && r.deadline > now {
            let i = choose|i: int| 0 <= i < s.len() && s[i] == r;
            assert(i >= k);
            assert(left[i - k] == r);
        }
    }
    lemma_due_count_is(left, now, 0);
    assert(due(left, now) =~= Seq::<Registration<W>>::empty());
    assert(not_due(left, now) =~= left);
}

/// A request that is not pending stays out of the store under every intent
/// but one that inserts it.
pub proof fn lemma_absent_stays_absent<W>(s: Seq<Registration<W>>, intent: Intent<W>, id: u64)
    requires
        sorted(s),
        distinct_ids(s),
        !holds_id(s, id),
        !(intent is Insert && id_of(intent) == id),
    ensures
        !holds_id(applied(s, intent), id),
{
    let t = applied(s, intent);
    match intent {
        Intent::Insert { id: other, deadline, signal } => {
            lemma_inserted_keeps_order(s, Registration { deadline, id: other, signal });
        },
        Intent::Rewake { id: other, signal } => {
            if holds_id(t, id) {
                let j = position(t, id);
                assert(s[j].id == id);
            }
        },
        Intent::Reset { id: other, deadline } => {
            if holds_id(s, other) {
                lemma_inserted_keeps_order(
                    s,
                    Registration { deadline, id: other, signal: s[position(s, other)].signal },
                );
            }
        },
        Intent::Cancel { id: other } => {
            lemma_without_keeps_order(s, other);
        },
    }
}

/// No wake after cancellation. Once the cancellation of a request has been
/// carried out, the request is not pending, and whatever intents follow, it
/// neither comes back nor fires, as long as none of them inserts a request
/// under its identity (the inbox gives no identity out twice).
pub proof fn lemma_cancelled_never_fires<W>(
    s: Seq<Registration<W>>,
    id: u64,
    later: Seq<Intent<W>>,
    now: u64,
)
    requires
        sorted(s),
        distinct_ids(s),
        forall|k: int| 0 <= k < later.len() ==> !(later[k] is Insert && id_of(later[k]) == id),
    ensures
        !holds_id(applied(s, Intent::Cancel { id }), id),
        !holds_id(applied_all(applied(s, Intent::Cancel { id }), later), id),
        !holds_id(due(applied_all(applied(s, Intent::Cancel { id }), later), now), id),
    decreases later.len(),
{
    let base = applied(s, Intent::Cancel { id });
    lemma_without_keeps_order(s, id);
    if later.len() > 0 {
        let front = later.drop_last();
        lemma_cancelled_never_fires(s, id, front, now);
        lemma_applied_all_keeps_order(base, front);
        lemma_absent_stays_absent(applied_all(base, front), later.last(), id);
    }
    let end = applied_all(base, later);
    lemma_applied_all_keeps_order(base, later);
    lemma_due_count_splits(end, now);
    if holds_id(due(end, now), id) {
        let j = position(due(end, now), id);
        assert(end[j].id == id);
    }
}

/// The pending wake requests of one engine, earliest first.
pub struct DeadlineStore<W> {
    entries: Vec<Registration<W>>,
}

impl<W> View for DeadlineStore<W> {
    type V = Seq<Registration<W>>;

    /// The pending requests in the order in which they will fire.
    closed spec fn view(&self) -> Seq<Registration<W>> {
        self.entries@
    }
}

impl<W> DeadlineStore<W> {
    /// The requests are in deadline order and no identity occurs twice.
    pub open spec fn wf(&self) -> bool {
        sorted(self@) && distinct_ids(self@)
    }

    /// A store with nothing pending.
    pub fn new() -> (store: Self)
        ensures
            store@ == Seq::<Registration<W>>::empty(),
            store.wf(),
    {
        DeadlineStore { entries: Vec::new() }
    }

    /// The number of pending requests.
    pub fn len(&self) -> (n: usize)
        ensures
            n == self@.len(),
    {
        self.entries.len()
    }

    /// Whether nothing is pending.
    pub fn is_empty(&self) -> (empty: bool)
        ensures
            empty == (self@.len() == 0),
    {
        self.entries.len() == 0
    }

    /// Whether a request with identity `id` is pending.
    pub fn contains(&self, id: u64) -> (found: bool)
        ensures
            found == holds_id(self@, id),
    {
        self.find(id).is_some()
    }

    /// Where the request with identity `id` stands.
    fn find(&self, id: u64) -> (at: Option<usize>)
        ensures
            match at {
                Some(i) => i < self@.len() && self@[i as int].id == id,
                None => !holds_id(self@, id),
            },
    {
        let mut i: usize = 0;
        while i < self.entries.len()
            invariant
                i <= self.entries@.len(),
                forall|j: int| 0 <= j < i ==> self.entries@[j].id != id,
            decreases self.entries@.len() - i,
        {
            if self.entries[i].id == id {
                return Some(i);
            }
            i += 1;
        }
        None
    }

    /// The number of leading requests that are due at `now`.
    fn due_index(&self, now: u64) -> (k: usize)
        ensures
            k == due_count(self@, now),
            k <= self@.len(),
    {
        let mut k: usize = 0;
        while k < self.entries.len() && self.entries[k].deadline <= now
            invariant
                k <= self.entries@.len(),
                forall|j: int| 0 <= j < k ==> self.entries@[j].deadline <= now,
            decreases self.entries@.len() - k,
        {
            k += 1;
        }
        proof {
            lemma_due_count_is(self@, now, k as int);
        }
        k
    }

    /// Puts a request in, behind every pending request that falls due no
    /// later than it does. A pending request of the same identity is replaced.
    pub fn insert(&mut self, id: u64, deadline: u64, signal: W)
        requires
            old(self).wf(),
        ensures
            final(self).wf(),
            final(self)@ == inserted(old(self)@, (Registration { deadline, id, signal })),
            holds_id(final(self)@, id),
    {
        let _ = self.cancel(id);
        let k = self.due_index(deadline);
        proof {
            lemma_inserted_keeps_order(old(self)@, Registration { deadline, id, signal });
        }
        self.entries.insert(k, Registration { deadline, id, signal });
    }

    /// Takes the request with identity `id` out, and hands it back if it was
    /// pending.
    pub fn cancel(&mut self, id: u64) -> (removed: Option<Registration<W>>)
        requires
            old(self).wf(),
        ensures
            final(self).wf(),
            final(self)@ == without(old(self)@, id),
            !holds_id(final(self)@, id),
            removed is Some <==> holds_id(old(self)@, id),
            removed is Some ==> removed->0 == old(self)@[position(old(self)@, id)],
    {
        proof {
            lemma_without_keeps_order(self@, id);
        }
        match self.find(id) {
            Some(i) => {
                proof {
                    lemma_without_present(self@, id, i as int);
                    let p = position(self@, id);
                    assert(p == i);
                }
                Some(self.entries.remove(i))
            },
            None => {
                proof {
                    lemma_without_absent(self@, id);
                }
                None
            },
        }
    }

    /// Moves the pending request with identity `id` to a new deadline, behind
    /// every request that falls due no later. Says whether there was one.
    pub fn reset(&mut self, id: u64, deadline: u64) -> (moved: bool)
        requires
            old(self).wf(),
        ensures
            final(self).wf(),
            moved == holds_id(old(self)@, id),
            moved ==> final(self)@ == inserted(
                old(self)@,
                (Registration {
                    deadline,
                    id,
                    signal: old(self)@[position(old(self)@, id)].signal,
                }),
            ),
            !moved ==> final(self)@ == old(self)@,
    {
        match self.cancel(id) {
            Some(reg) => {
                let ghost rest = self@;
                proof {
                    lemma_without_absent(rest, id);
                }
                self.insert(id, deadline, reg.signal);
                true
            },
            None => {
                proof {
                    lemma_without_absent(old(self)@, id);
                }
                false
            },
        }
    }

    /// Gives the pending request with identity `id` another signal to invoke,
    /// where it stands. Says whether there was one.
    pub fn rewake(&mut self, id: u64, signal: W) -> (changed: bool)
        requires
            old(self).wf(),
        ensures
            final(self).wf(),
            changed == holds_id(old(self)@, id),
            changed ==> final(self)@ == old(self)@.update(
                position(old(self)@, id),
                (Registration {
                    deadline: old(self)@[position(old(self)@, id)].deadline,
                    id,
                    signal,
                }),
            ),
            !changed ==> final(self)@ == old(self)@,
    {
        match self.find(id) {
            Some(i) => {
                proof {
                    let p = position(self@, id);
                    assert(p == i);
                }
                let deadline = self.entries[i].deadline;
                self.entries.set(i, Registration { deadline, id, signal });
                true
            },
            None => false,
        }
    }

    /// Takes out every request whose deadline is `now` or earlier, and hands
    /// them back in the order in which they fall due.
    pub fn drain_ready(&mut self, now: u64) -> (fired: Vec<Registration<W>>)
        requires
            old(self).wf(),
        ensures
            final(self).wf(),
            old(self)@ == fired@ + final(self)@,
            forall|i: int| 0 <= i < fired@.len() ==> fired@[i].deadline <= now,
            forall|i: int| 0 <= i < final(self)@.len() ==> final(self)@[i].deadline > now,
            fired@ == due(old(self)@, now),
            final(self)@ == not_due(old(self)@, now),
    {
        let k = self.due_index(now);
        proof {
            lemma_due_count_splits(self@, now);
        }
        let mut rest = self.entries.split_off(k);
        swap(&mut self.entries, &mut rest);
        assert(old(self)@ =~= rest@ + self@);
        rest
    }

    /// Carries out one intent.
    pub fn apply(&mut self, intent: Intent<W>)
        requires
            old(self).wf(),
        ensures
            final(self).wf(),
            final(self)@ == applied(old(self)@, intent),
    {
        match intent {
            Intent::Insert { id, deadline, signal } => {
                self.insert(id, deadline, signal);
            },
            Intent::Rewake { id, signal } => {
                let _ = self.rewake(id, signal);
            },
            Intent::Reset { id, deadline } => {
                let _ = self.reset(id, deadline);
            },
            Intent::Cancel { id } => {
                let _ = self.cancel(id);
            },
        }
    }

    /// Carries out the intents, first to last.
    pub fn apply_all(&mut self, intents: Vec<Intent<W>>)
        requires
            old(self).wf(),
        ensures
            final(self).wf(),
            final(self)@ == applied_all(old(self)@, intents@),
    {
        let ghost all = intents@;
        for intent in it: intents
            invariant
                self.wf(),
                it.seq() == all,
                self@ == applied_all(old(self)@, all.take(it.index() as int)),
        {
            proof {
                let upto = all.take(it.index() + 1);
                assert(upto.drop_last() =~= all.take(it.index() as int));
                assert(upto.last() == intent);
            }
            self.apply(intent);
        }
        proof {
            assert(all.take(all.len() as int) =~= all);
        }
    }

    /// The deadline that comes first, if anything is pending.
    pub fn earliest_deadline(&self) -> (earliest: Option<u64>)
        requires
            self.wf(),
        ensures
            earliest is None <==> self@.len() == 0,
            earliest is Some ==> earliest->0 == self@[0].deadline,
            earliest is Some ==> forall|i: int|
                0 <= i < self@.len() ==> earliest->0 <= self@[i].deadline,
    {
        if self.entries.len() == 0 {
            None
        } else {
            Some(self.entries[0].deadline)
        }
    }
}

} // verus!
