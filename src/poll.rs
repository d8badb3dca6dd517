use crate::item::opt_text;
use vstd::prelude::*;

verus! {

/// A shard of the change log with the cursor its next fetch starts from.
#[derive(Debug)]
pub struct ShardCursor {
    pub shard: String,
    pub cursor: String,
}

impl View for ShardCursor {
    type V = (Seq<char>, Seq<char>);

    open spec fn view(&self) -> (Seq<char>, Seq<char>) {
        (self.shard@, self.cursor@)
    }
}

/// The (shard, cursor) pairs of a list of shard cursors.
pub open spec fn cursors_view(v: Seq<ShardCursor>) -> Seq<(Seq<char>, Seq<char>)> {
    v.map_values(|c: ShardCursor| c@)
}

/// The cursors of the next cycle: `next[i]` is the cursor that the fetch for
/// the i-th shard handed back, if any. A shard with a next cursor moves to it
/// and keeps its place; a shard without one is closed and dropped.
pub open spec fn advanced(
    c: Seq<(Seq<char>, Seq<char>)>,
    next: Seq<Option<Seq<char>>>,
) -> Seq<(Seq<char>, Seq<char>)>
    decreases c.len(),
{
    if c.len() == 0 || next.len() == 0 {
        Seq::empty()
    } else {
        let rest = advanced(c.drop_first(), next.drop_first());
        match next[0] {
            Some(n) => seq![(c[0].0, n)] + rest,
            None => rest,
        }
    }
}

/// The cursors after a run of cycles, `steps[t]` being the next cursors that
/// the fetches of cycle t handed back.
pub open spec fn cycles(
    c: Seq<(Seq<char>, Seq<char>)>,
    steps: Seq<Seq<Option<Seq<char>>>>,
) -> Seq<(Seq<char>, Seq<char>)>
    decreases steps.len(),
{
    if steps.len() == 0 {
        c
    } else {
        cycles(advanced(c, steps[0]), steps.drop_first())
    }
}

/// Whether shard `s` still has a cursor.
pub open spec fn has_shard(c: Seq<(Seq<char>, Seq<char>)>, s: Seq<char>) -> bool {
    exists|i: int| 0 <= i < c.len() && #[trigger] c[i].0 == s
}

/// Whether no shard appears twice.
pub open spec fn shards_distinct(c: Seq<(Seq<char>, Seq<char>)>) -> bool {
    forall|i: int, j: int| 0 <= i < c.len() && 0 <= j < c.len() && i != j ==> c[i].0 != c[j].0
}

/// Every shard that is left after a cycle had a cursor before it and was
/// handed a next cursor.
pub proof fn lemma_advanced_source(c: Seq<(Seq<char>, Seq<char>)>, next: Seq<Option<Seq<char>>>, j: int)
    requires
        0 <= j < advanced(c, next).len(),
    ensures
        exists|i: int|
            0 <= i < c.len() && i < next.len() && next[i] is Some && #[trigger] c[i].0 == advanced(c, next)[j].0,
    decreases c.len(),
{
    let rest = advanced(c.drop_first(), next.drop_first());
    if next[0] is Some && j == 0 {
        assert(c[0].0 == advanced(c, next)[j].0);
    } else {
        let jj = if next[0] is Some { j - 1 } else { j };
        assert(advanced(c, next)[j] == rest[jj]);
        lemma_advanced_source(c.drop_first(), next.drop_first(), jj);
        let i = choose|i: int|
            0 <= i < c.drop_first().len() && i < next.drop_first().len() && next.drop_first()[i] is Some
                && #[trigger] c.drop_first()[i].0 == rest[jj].0;
        assert(c[i + 1].0 == advanced(c, next)[j].0);
    }
}

/// A shard that is gone stays gone through any later cycles.
pub proof fn lemma_absent_shard_stays_absent(
    c: Seq<(Seq<char>, Seq<char>)>,
    steps: Seq<Seq<Option<Seq<char>>>>,
    s: Seq<char>,
)
    requires
        !has_shard(c, s),
    ensures
        !has_shard(cycles(c, steps), s),
    decreases steps.len(),
{
    if steps.len() > 0 {
        let a = advanced(c, steps[0]);
        if has_shard(a, s) {
            let j = choose|j: int| 0 <= j < a.len() && #[trigger] a[j].0 == s;
            lemma_advanced_source(c, steps[0], j);
        }
        lemma_absent_shard_stays_absent(a, steps.drop_first(), s);
    }
}

/// Once the fetch for a shard hands back no next cursor, that shard is never
/// fetched again in any later cycle.
pub proof fn lemma_closed_shard_never_fetched(
    c: Seq<(Seq<char>, Seq<char>)>,
    next: Seq<Option<Seq<char>>>,
    i: int,
    later: Seq<Seq<Option<Seq<char>>>>,
)
    requires
        shards_distinct(c),
        0 <= i < c.len(),
        next.len() == c.len(),
        next[i] is None,
    ensures
        !has_shard(cycles(advanced(c, next), later), c[i].0),
{
    let a = advanced(c, next);
    if has_shard(a, c[i].0) {
        let j = choose|j: int| 0 <= j < a.len() && #[trigger] a[j].0 == c[i].0;
        lemma_advanced_source(c, next, j);
    }
    lemma_absent_shard_stays_absent(a, later, c[i].0);
}

/// The shard cursors that the poll cycle works through, in shard order.
pub struct PollState {
    cursors: Vec<ShardCursor>,
}

impl View for PollState {
    type V = Seq<(Seq<char>, Seq<char>)>;

    closed spec fn view(&self) -> Seq<(Seq<char>, Seq<char>)> {
        cursors_view(self.cursors@)
    }
}

impl PollState {
    /// The state that the first cycle starts from: the initial cursor of each shard.
    pub fn new(initial: Vec<ShardCursor>) -> (r: PollState)
        ensures
            r@ == cursors_view(initial@),
    {
        PollState { cursors: initial }
    }

    /// The shards to fetch in this cycle, each with its cursor.
    pub fn cursors(&self) -> (r: &Vec<ShardCursor>)
        ensures
            cursors_view(r@) == self@,
    {
        &self.cursors
    }

    /// How many shards are still open.
    pub fn shard_count(&self) -> (r: usize)
        ensures
            r == self@.len(),
    {
        self.cursors.len()
    }

    /// Whether every shard has closed, so that no fetch is left to make.
    pub fn is_finished(&self) -> (r: bool)
        ensures
            r == (self@.len() == 0),
    {
        self.cursors.len() == 0
    }

    /// Ends a cycle: `next[i]` is the next cursor that the fetch of the i-th
    /// shard handed back. Shards with one move to it; the others are dropped.
    pub fn advance(&mut self, next: Vec<Option<String>>)
        requires
            next@.len() == old(self)@.len(),
        ensures
            final(self)@ == advanced(old(self)@, next@.map_values(|o: Option<String>| opt_text(o))),
    {
        let ghost target = advanced(self@, next@.map_values(|o: Option<String>| opt_text(o)));
        let mut cur: Vec<ShardCursor> = Vec::new();
        std::mem::swap(&mut cur, &mut self.cursors);
        let mut rest = next;
        let mut out: Vec<ShardCursor> = Vec::new();
        assert(cursors_view(out@) + advanced(
            cursors_view(cur@),
            rest@.map_values(|o: Option<String>| opt_text(o)),
        ) =~= target);
        while cur.len() > 0
            invariant
                rest@.len() == cur@.len(),
                cursors_view(out@) + advanced(
                    cursors_view(cur@),
                    rest@.map_values(|o: Option<String>| opt_text(o)),
                ) == target,
            decreases cur@.len(),
        {
            let ghost cv = cursors_view(cur@);
            let ghost nv = rest@.map_values(|o: Option<String>| opt_text(o));
            let ghost ov = cursors_view(out@);
            let c = cur.remove(0);
            let n = rest.remove(0);
            assert(cursors_view(cur@) =~= cv.drop_first());
            assert(rest@.map_values(|o: Option<String>| opt_text(o)) =~= nv.drop_first());
            match n {
                Some(x) => {
                    out.push(ShardCursor { shard: c.shard, cursor: x });
                    assert(cursors_view(out@) =~= ov.push((cv[0].0, nv[0].unwrap())));
                    assert(ov + advanced(cv, nv) =~= cursors_view(out@) + advanced(cv.drop_first(), nv.drop_first()));
                },
                None => {},
            }
        }
        assert(cursors_view(out@) =~= target);
        self.cursors = out;
    }
}

} // verus!
