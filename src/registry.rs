use crate::channel::{bounded_channel, try_deliver};
use crate::event::{EventKind, EventView, OutboundEvent};
use tokio::sync::mpsc::{Receiver, Sender};
use vstd::prelude::*;

verus! {

/// How many events may wait in a subscriber's queue.
pub const SUBSCRIBER_CAPACITY: usize = 128;

/// The registry as mathematics. Each subscriber gets an identifier when it
/// registers; `ids` lists the live ones in registration order, and `logs`
/// holds, for every subscriber that ever registered, the events queued to it.
pub struct RegistryModel {
    pub ids: Seq<nat>,
    pub next_id: nat,
    pub logs: Map<nat, Seq<EventView>>,
}

/// Identifiers are unique, live ones have a log, and every log belongs to an
/// identifier that was handed out.
pub open spec fn model_wf(m: RegistryModel) -> bool {
    &&& m.ids.no_duplicates()
    &&& forall|i: int| 0 <= i < m.ids.len() ==> #[trigger] m.logs.contains_key(m.ids[i])
    &&& forall|k: nat| #[trigger] m.logs.contains_key(k) ==> k < m.next_id
}

/// The registry after a new subscriber joins at the end, with an empty log.
pub open spec fn registered(m: RegistryModel) -> RegistryModel {
    RegistryModel {
        ids: m.ids.push(m.next_id),
        next_id: m.next_id + 1,
        logs: m.logs.insert(m.next_id, Seq::<EventView>::empty()),
    }
}

/// The elements of `s` whose flag in `ok` is set, in their order.
pub open spec fn kept<A>(s: Seq<A>, ok: Seq<bool>) -> Seq<A>
    decreases s.len(),
{
    if s.len() == 0 || ok.len() == 0 {
        Seq::<A>::empty()
    } else {
        let rest = kept(s.drop_first(), ok.drop_first());
        if ok[0] {
            seq![s[0]] + rest
        } else {
            rest
        }
    }
}

/// Whether the pass with outcomes `ok` queued its event to subscriber `k`.
pub open spec fn delivered_to(m: RegistryModel, ok: Seq<bool>, k: nat) -> bool {
    exists|i: int| 0 <= i < m.ids.len() && i < ok.len() && m.ids[i] == k && #[trigger] ok[i]
}

/// The registry after one broadcast pass of `e`, where `ok[i]` tells whether
/// the send to the i-th subscriber succeeded: the event is appended to the log
/// of each subscriber it reached, and those it did not reach are removed.
pub open spec fn after_pass(m: RegistryModel, e: EventView, ok: Seq<bool>) -> RegistryModel {
    RegistryModel {
        ids: kept(m.ids, ok),
        next_id: m.next_id,
        logs: Map::new(
            |k: nat| m.logs.contains_key(k),
            |k: nat|
                if delivered_to(m, ok, k) {
                    m.logs[k].push(e)
                } else {
                    m.logs[k]
                },
        ),
    }
}

/// The set of live subscribers, each holding the sending end of its channel.
pub struct Registry {
    subscribers: Vec<Sender<OutboundEvent>>,
    ids: Ghost<Seq<nat>>,
    next_id: Ghost<nat>,
    logs: Ghost<Map<nat, Seq<EventView>>>,
}

impl View for Registry {
    type V = RegistryModel;

    closed spec fn view(&self) -> RegistryModel {
        RegistryModel { ids: self.ids@, next_id: self.next_id@, logs: self.logs@ }
    }
}

pub proof fn lemma_kept_len<A, B>(s: Seq<A>, t: Seq<B>, ok: Seq<bool>)
    requires
        s.len() == t.len(),
    ensures
        kept(s, ok).len() == kept(t, ok).len(),
    decreases s.len(),
{
    if s.len() > 0 && ok.len() > 0 {
        lemma_kept_len(s.drop_first(), t.drop_first(), ok.drop_first());
    }
}

/// Every kept element comes from a position whose flag is set.
pub proof fn lemma_kept_source<A>(s: Seq<A>, ok: Seq<bool>, j: int)
    requires
        0 <= j < kept(s, ok).len(),
    ensures
        exists|i: int| 0 <= i < s.len() && i < ok.len() && ok[i] && #[trigger] s[i] == kept(s, ok)[j],
    decreases s.len(),
{
    let rest = kept(s.drop_first(), ok.drop_first());
    if ok[0] && j == 0 {
        assert(s[0] == kept(s, ok)[j]);
    } else {
        let jj = if ok[0] { j - 1 } else { j };
        assert(kept(s, ok)[j] == rest[jj]);
        lemma_kept_source(s.drop_first(), ok.drop_first(), jj);
        let i = choose|i: int|
            0 <= i < s.drop_first().len() && i < ok.drop_first().len() && ok.drop_first()[i]
                && #[trigger] s.drop_first()[i] == rest[jj];
        assert(s[i + 1] == kept(s, ok)[j]);
    }
}

/// An element at a position whose flag is set is kept.
pub proof fn lemma_kept_contains<A>(s: Seq<A>, ok: Seq<bool>, i: int)
    requires
        0 <= i < s.len(),
        i < ok.len(),
        ok[i],
    ensures
        kept(s, ok).contains(s[i]),
    decreases s.len(),
{
    if i == 0 {
        assert(kept(s, ok)[0] == s[0]);
    } else {
        lemma_kept_contains(s.drop_first(), ok.drop_first(), i - 1);
        let rest = kept(s.drop_first(), ok.drop_first());
        let j = choose|j: int| 0 <= j < rest.len() && rest[j] == s[i];
        if ok[0] {
            assert(kept(s, ok)[j + 1] == s[i]);
        } else {
            assert(kept(s, ok)[j] == s[i]);
        }
    }
}

/// Keeping a subsequence keeps the elements distinct.
pub proof fn lemma_kept_no_duplicates<A>(s: Seq<A>, ok: Seq<bool>)
    requires
        s.no_duplicates(),
    ensures
        kept(s, ok).no_duplicates(),
    decreases s.len(),
{
    if s.len() > 0 && ok.len() > 0 {
        lemma_kept_no_duplicates(s.drop_first(), ok.drop_first());
        let rest = kept(s.drop_first(), ok.drop_first());
        if ok[0] {
            assert forall|j: int| 0 <= j < rest.len() implies rest[j] != s[0] by {
                lemma_kept_source(s.drop_first(), ok.drop_first(), j);
            }
            let r = kept(s, ok);
            assert forall|a: int, b: int| 0 <= a < r.len() && 0 <= b < r.len() && a != b
                implies r[a] != r[b] by {
                if a > 0 && b > 0 {
                    assert(r[a] == rest[a - 1] && r[b] == rest[b - 1]);
                } else if a == 0 {
                    assert(r[b] == rest[b - 1]);
                } else {
                    assert(r[a] == rest[a - 1]);
                }
            }
        }
    }
}

/// A live subscriber stays live after a pass exactly when the send to it succeeded.
pub proof fn lemma_kept_iff_delivered(m: RegistryModel, ok: Seq<bool>, k: nat)
    requires
        model_wf(m),
    ensures
        kept(m.ids, ok).contains(k) <==> delivered_to(m, ok, k),
{
    if kept(m.ids, ok).contains(k) {
        let j = choose|j: int| 0 <= j < kept(m.ids, ok).len() && kept(m.ids, ok)[j] == k;
        lemma_kept_source(m.ids, ok, j);
    }
    if delivered_to(m, ok, k) {
        let i = choose|i: int| 0 <= i < m.ids.len() && i < ok.len() && m.ids[i] == k && #[trigger] ok[i];
        lemma_kept_contains(m.ids, ok, i);
    }
}

/// A broadcast pass keeps the model well formed.
pub proof fn lemma_after_pass_wf(m: RegistryModel, e: EventView, ok: Seq<bool>)
    requires
        model_wf(m),
    ensures
        model_wf(after_pass(m, e, ok)),
{
    let r = after_pass(m, e, ok);
    lemma_kept_no_duplicates(m.ids, ok);
    assert forall|j: int| 0 <= j < r.ids.len() implies #[trigger] r.logs.contains_key(r.ids[j]) by {
        lemma_kept_source(m.ids, ok, j);
    }
}

/// Registering keeps the model well formed.
pub proof fn lemma_registered_wf(m: RegistryModel)
    requires
        model_wf(m),
    ensures
        model_wf(registered(m)),
{
    let r = registered(m);
    assert forall|i: int| 0 <= i < m.ids.len() implies m.ids[i] != m.next_id by {
        assert(m.logs.contains_key(m.ids[i]));
    }
    assert forall|a: int, b: int| 0 <= a < r.ids.len() && 0 <= b < r.ids.len() && a != b
        implies r.ids[a] != r.ids[b] by {
        if a < m.ids.len() && b < m.ids.len() {
            assert(r.ids[a] == m.ids[a] && r.ids[b] == m.ids[b]);
        } else if a < m.ids.len() {
            assert(r.ids[a] == m.ids[a]);
        } else {
            assert(r.ids[b] == m.ids[b]);
        }
    }
    assert forall|i: int| 0 <= i < r.ids.len() implies #[trigger] r.logs.contains_key(r.ids[i]) by {
        if i < m.ids.len() {
            assert(r.ids[i] == m.ids[i]);
        }
    }
}

/// The registry after the passes of `evs` in order, `oks[t]` being the
/// outcomes of the pass of `evs[t]`.
pub open spec fn passes(m: RegistryModel, evs: Seq<EventView>, oks: Seq<Seq<bool>>) -> RegistryModel
    decreases evs.len(),
{
    if evs.len() == 0 || oks.len() == 0 {
        m
    } else {
        after_pass(passes(m, evs.drop_last(), oks.drop_last()), evs.last(), oks.last())
    }
}

/// Passes keep the model well formed and never forget a log.
pub proof fn lemma_passes_wf(m: RegistryModel, evs: Seq<EventView>, oks: Seq<Seq<bool>>)
    requires
        model_wf(m),
    ensures
        model_wf(passes(m, evs, oks)),
        passes(m, evs, oks).logs.dom() == m.logs.dom(),
    decreases evs.len(),
{
    if evs.len() > 0 && oks.len() > 0 {
        lemma_passes_wf(m, evs.drop_last(), oks.drop_last());
        lemma_after_pass_wf(passes(m, evs.drop_last(), oks.drop_last()), evs.last(), oks.last());
        assert(passes(m, evs, oks).logs.dom() =~= m.logs.dom());
    }
}

/// A subscriber that was live before a run of broadcast passes and is still
/// live after it has been sent exactly the events of the run, in order.
pub proof fn lemma_live_subscriber_receives_all(
    m: RegistryModel,
    k: nat,
    evs: Seq<EventView>,
    oks: Seq<Seq<bool>>,
)
    requires
        model_wf(m),
        m.ids.contains(k),
        oks.len() == evs.len(),
        passes(m, evs, oks).ids.contains(k),
    ensures
        passes(m, evs, oks).logs[k] == m.logs[k] + evs,
    decreases evs.len(),
{
    if evs.len() == 0 {
        assert(m.logs[k] + evs =~= m.logs[k]);
    } else {
        let p = passes(m, evs.drop_last(), oks.drop_last());
        lemma_passes_wf(m, evs.drop_last(), oks.drop_last());
        lemma_kept_iff_delivered(p, oks.last(), k);
        let i = choose|i: int| 0 <= i < p.ids.len() && i < oks.last().len() && p.ids[i] == k && #[trigger] oks.last()[i];
        assert(p.ids.contains(k)) by {
            assert(p.ids[i] == k);
        }
        lemma_live_subscriber_receives_all(m, k, evs.drop_last(), oks.drop_last());
        assert(m.logs[k] + evs =~= (m.logs[k] + evs.drop_last()).push(evs.last()));
    }
}

/// The data events of a sequence of events, heartbeats left out.
pub open spec fn data_events(evs: Seq<EventView>) -> Seq<EventView> {
    evs.filter(|e: EventView| e.kind == EventKind::Broadcast)
}

/// Heartbeat passes mixed into a run of data passes do not change the data a
/// live subscriber receives: it gets the run's data events, in order.
pub proof fn lemma_heartbeats_leave_data_intact(
    m: RegistryModel,
    k: nat,
    evs: Seq<EventView>,
    oks: Seq<Seq<bool>>,
)
    requires
        model_wf(m),
        m.ids.contains(k),
        oks.len() == evs.len(),
        passes(m, evs, oks).ids.contains(k),
    ensures
        data_events(passes(m, evs, oks).logs[k]) == data_events(m.logs[k]) + data_events(evs),
{
    lemma_live_subscriber_receives_all(m, k, evs, oks);
    Seq::filter_distributes_over_add(m.logs[k], evs, |e: EventView| e.kind == EventKind::Broadcast);
}

/// A subscriber the send failed for is gone after the pass, and the pass
/// queued nothing to it.
pub proof fn lemma_failed_subscriber_removed(m: RegistryModel, e: EventView, ok: Seq<bool>, i: int)
    requires
        model_wf(m),
        0 <= i < m.ids.len(),
        ok.len() == m.ids.len(),
        !ok[i],
    ensures
        !after_pass(m, e, ok).ids.contains(m.ids[i]),
        after_pass(m, e, ok).logs[m.ids[i]] == m.logs[m.ids[i]],
{
    let k = m.ids[i];
    if delivered_to(m, ok, k) {
        let j = choose|j: int| 0 <= j < m.ids.len() && j < ok.len() && m.ids[j] == k && #[trigger] ok[j];
        assert(j != i);
    }
    lemma_kept_iff_delivered(m, ok, k);
}

/// A subscriber that is no longer live stays out of the registry through any
/// later passes and is sent none of their events.
pub proof fn lemma_removed_subscriber_receives_nothing(
    m: RegistryModel,
    k: nat,
    evs: Seq<EventView>,
    oks: Seq<Seq<bool>>,
)
    requires
        model_wf(m),
        m.logs.contains_key(k),
        !m.ids.contains(k),
    ensures
        !passes(m, evs, oks).ids.contains(k),
        passes(m, evs, oks).logs[k] == m.logs[k],
    decreases evs.len(),
{
    if evs.len() > 0 && oks.len() > 0 {
        let p = passes(m, evs.drop_last(), oks.drop_last());
        lemma_removed_subscriber_receives_nothing(m, k, evs.drop_last(), oks.drop_last());
        lemma_passes_wf(m, evs.drop_last(), oks.drop_last());
        lemma_kept_iff_delivered(p, oks.last(), k);
        if delivered_to(p, oks.last(), k) {
            let i = choose|i: int| 0 <= i < p.ids.len() && i < oks.last().len() && p.ids[i] == k && #[trigger] oks.last()[i];
            assert(p.ids.contains(k));
        }
    }
}

/// A subscriber that registers once a pass is over is a new one, unknown to
/// the pass, and starts with nothing sent to it.
pub proof fn lemma_register_after_pass(m: RegistryModel, e: EventView, ok: Seq<bool>)
    requires
        model_wf(m),
    ensures
        !m.logs.contains_key(m.next_id),
        !after_pass(m, e, ok).ids.contains(m.next_id),
        registered(after_pass(m, e, ok)).ids.last() == m.next_id,
        registered(after_pass(m, e, ok)).logs[m.next_id] == Seq::<EventView>::empty(),
{
    lemma_after_pass_wf(m, e, ok);
    let p = after_pass(m, e, ok);
    if p.ids.contains(m.next_id) {
        let j = choose|j: int| 0 <= j < p.ids.len() && p.ids[j] == m.next_id;
        assert(p.logs.contains_key(p.ids[j]));
    }
}

impl Registry {
    /// The registry's invariant: one identifier per held channel, and a well
    /// formed model.
    pub closed spec fn wf(&self) -> bool {
        &&& self.subscribers@.len() == self.ids@.len()
        &&& model_wf(self@)
    }

    /// An empty registry.
    pub fn new() -> (r: Registry)
        ensures
            r.wf(),
            r@.ids == Seq::<nat>::empty(),
            r@.next_id == 0,
            r@.logs == Map::<nat, Seq<EventView>>::empty(),
    {
        Registry {
            subscribers: Vec::new(),
            ids: Ghost(Seq::empty()),
            next_id: Ghost(0),
            logs: Ghost(Map::empty()),
        }
    }

    /// How many subscribers are live.
    pub fn len(&self) -> (r: usize)
        requires
            self.wf(),
        ensures
            r == self@.ids.len(),
    {
        self.subscribers.len()
    }

    /// Adds a subscriber at the end; it takes part from the next pass on.
    pub fn register(&mut self, tx: Sender<OutboundEvent>)
        requires
            old(self).wf(),
        ensures
            final(self).wf(),
            final(self)@ == registered(old(self)@),
    {
        proof {
            lemma_registered_wf(self@);
        }
        self.subscribers.push(tx);
        let ghost m = registered(self@);
        self.ids = Ghost(m.ids);
        self.next_id = Ghost(m.next_id);
        self.logs = Ghost(m.logs);
    }

    /// Opens a bounded channel for a new subscriber, registers its sending end,
    /// and hands back the receiving end.
    pub fn subscribe(&mut self) -> (rx: Receiver<OutboundEvent>)
        requires
            old(self).wf(),
        ensures
            final(self).wf(),
            final(self)@ == registered(old(self)@),
    {
        let (tx, rx) = bounded_channel(SUBSCRIBER_CAPACITY);
        self.register(tx);
        rx
    }

    /// One broadcast pass: tries to queue `event` to every subscriber in
    /// registration order, then removes each one the send failed for. The
    /// i-th flag of the result tells whether the i-th subscriber was reached.
    pub fn broadcast(&mut self, event: &OutboundEvent) -> (outcome: Vec<bool>)
        requires
            old(self).wf(),
        ensures
            final(self).wf(),
            outcome@.len() == old(self)@.ids.len(),
            final(self)@ == after_pass(old(self)@, event@, outcome@),
    {
        let ghost m0 = self@;
        let ghost subs0 = self.subscribers@;
        let n = self.subscribers.len();
        let mut outcome: Vec<bool> = Vec::new();
        let mut i: usize = 0;
        while i < n
            invariant
                i <= n,
                n == self.subscribers@.len(),
                self.subscribers@ == subs0,
                self@ == m0,
                outcome@.len() == i,
            decreases n - i,
        {
            let queued = try_deliver(&self.subscribers[i], event.duplicate());
            outcome.push(queued);
            i = i + 1;
        }
        let ghost ok = outcome@;
        let mut j: usize = n;
        while j > 0
            invariant
                j <= n,
                n == subs0.len(),
                ok == outcome@,
                ok.len() == n,
                self@ == m0,
                self.subscribers@ == subs0.subrange(0, j as int) + kept(
                    subs0.subrange(j as int, n as int),
                    ok.subrange(j as int, n as int),
                ),
            decreases j,
        {
            j = j - 1;
            let ghost tail = subs0.subrange(j as int, n as int);
            let ghost okt = ok.subrange(j as int, n as int);
            assert(tail.drop_first() =~= subs0.subrange(j + 1, n as int));
            assert(okt.drop_first() =~= ok.subrange(j + 1, n as int));
            let ghost rest = kept(subs0.subrange(j + 1, n as int), ok.subrange(j + 1, n as int));
            if !outcome[j] {
                self.subscribers.remove(j);
                assert(self.subscribers@ =~= subs0.subrange(0, j as int) + kept(tail, okt));
            } else {
                assert(subs0.subrange(0, j + 1) + rest =~= subs0.subrange(0, j as int) + (seq![
                    tail[0],
                ] + rest));
            }
        }
        assert(subs0.subrange(0, n as int) =~= subs0);
        assert(ok.subrange(0, n as int) =~= ok);
        assert(self.subscribers@ =~= kept(subs0, ok));
        proof {
            lemma_after_pass_wf(m0, event@, ok);
            lemma_kept_len(subs0, m0.ids, ok);
        }
        let ghost m1 = after_pass(m0, event@, ok);
        self.ids = Ghost(m1.ids);
        self.logs = Ghost(m1.logs);
        outcome
    }
    /// One heartbeat pass: a broadcast of the ping event, with the same
    /// removal of subscribers that could not be reached.
    pub fn heartbeat(&mut self) -> (outcome: Vec<bool>)
        requires
            old(self).wf(),
        ensures
            final(self).wf(),
            outcome@.len() == old(self)@.ids.len(),
            final(self)@ == after_pass(
                old(self)@,
                EventView { kind: EventKind::Ping, data: Seq::<char>::empty() },
                outcome@,
            ),
    {
        let ping = OutboundEvent::ping();
        self.broadcast(&ping)
    }
}

} // verus!
