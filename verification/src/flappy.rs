//! The pipe course of the flappy sample game: pipes are created up to a
//! fixed number, then the oldest one is moved to the front again.
use vstd::prelude::*;
use std::collections::VecDeque;
use crate::genindex::Entity;

verus! {

/// How many pipes the course holds before it starts reusing them.
pub const MAX_PIPES: usize = 6;

/// Milliseconds that must pass after a spawn before the next one.
pub const SPAWN_INTERVAL_MS: u128 = 1500;

/// The pipe spawner: when it last spawned (nanoseconds since the Unix
/// epoch) and its pipes, the most recently placed first.
pub struct PipeSpawner {
    pub last_time: u128,
    pub generated: VecDeque<Entity>,
}

impl PipeSpawner {
    /// The spawner a new course starts with, created at time `now`.
    pub fn create(now: u128) -> (r: PipeSpawner)
        ensures
            r.last_time == now,
            r.generated@ == Seq::<Entity>::empty(),
    {
        PipeSpawner { last_time: now, generated: VecDeque::new() }
    }

    /// Whether a pipe is due at time `now`: more than 1500 whole
    /// milliseconds have passed since the last spawn (never when `now` lies
    /// before it).
    pub fn spawn_due(&self, now: u128) -> (r: bool)
        ensures
            r == (now >= self.last_time && (now - self.last_time) / 1_000_000 > SPAWN_INTERVAL_MS),
    {
        if now >= self.last_time {
            (now - self.last_time) / 1_000_000 > SPAWN_INTERVAL_MS
        } else {
            false
        }
    }

    /// When the course is full, moves its oldest pipe to the front, records
    /// the spawn at `now` and returns that pipe, which is to be placed anew.
    /// Otherwise changes nothing and returns `None`: a new pipe is to be
    /// created and handed to `add_pipe`.
    pub fn recycle(&mut self, now: u128) -> (r: Option<Entity>)
        ensures
            old(self).generated@.len() < MAX_PIPES ==> r is None && *final(self) == *old(self),
            old(self).generated@.len() >= MAX_PIPES ==> {
                let g = old(self).generated@;
                &&& r == Some(g.last())
                &&& final(self).generated@ == seq![g.last()] + g.drop_last()
                &&& final(self).last_time == now
            },
    {
        if self.generated.len() < MAX_PIPES {
            return None;
        }
        let reused = self.generated.pop_back().unwrap();
        self.generated.push_front(reused);
        self.last_time = now;
        assert(self.generated@ =~= seq![old(self).generated@.last()] + old(
            self,
        ).generated@.drop_last());
        Some(reused)
    }

    /// Places a newly created pipe at the front and records the spawn at
    /// `now`.
    pub fn add_pipe(&mut self, pipe: Entity, now: u128)
        ensures
            final(self).generated@ == seq![pipe] + old(self).generated@,
            final(self).last_time == now,
    {
        self.generated.push_front(pipe);
        self.last_time = now;
    }
}

/// The colliding pairs `(i, j)` of row `i` with `i < j < j_end`, in order of
/// `j`, as entity pairs; `hits[i][j]` tells whether colliders `i` and `j`
/// overlap.
pub open spec fn row_pairs(es: Seq<Entity>, hits: Seq<Seq<bool>>, i: int, j_end: int) -> Seq<(Entity, Entity)>
    decreases j_end - i,
{
    if j_end <= i + 1 {
        Seq::empty()
    } else if hits[i][j_end - 1] {
        row_pairs(es, hits, i, j_end - 1).push((es[i], es[j_end - 1]))
    } else {
        row_pairs(es, hits, i, j_end - 1)
    }
}

/// The colliding pairs `(i, j)` with `i < j` and `i < i_end`, row by row.
pub open spec fn all_pairs(es: Seq<Entity>, hits: Seq<Seq<bool>>, i_end: int) -> Seq<(Entity, Entity)>
    decreases i_end,
{
    if i_end <= 0 {
        Seq::empty()
    } else {
        all_pairs(es, hits, i_end - 1) + row_pairs(es, hits, i_end - 1, es.len() as int)
    }
}

/// The hit flags of every collider.
pub open spec fn hit_matrix(hits: Seq<Vec<bool>>) -> Seq<Seq<bool>> {
    hits.map_values(|h: Vec<bool>| h@)
}

/// The pairs of colliders that overlap, each pair once with the earlier
/// collider first, in order of the first collider, then of the second;
/// `hits[i][j]` tells whether colliders `i` and `j` overlap (only `i < j`
/// is read).
pub fn collision_pairs(entities: &Vec<Entity>, hits: &Vec<Vec<bool>>) -> (r: Vec<(Entity, Entity)>)
    requires
        entities@.len() >= 1,
        hits@.len() == entities@.len(),
        forall|i: int| 0 <= i < hits@.len() ==> (#[trigger] hits@[i])@.len() == entities@.len(),
    ensures
        r@ == all_pairs(entities@, hit_matrix(hits@), entities@.len() - 1),
{
    let ghost hm = hit_matrix(hits@);
    let n = entities.len();
    let mut r: Vec<(Entity, Entity)> = Vec::new();
    let mut i: usize = 0;
    while i < n - 1
        invariant
            n == entities@.len(),
            n >= 1,
            hits@.len() == n,
            hm == hit_matrix(hits@),
            forall|k: int| 0 <= k < n ==> (#[trigger] hits@[k])@.len() == n,
            i <= n - 1,
            r@ == all_pairs(entities@, hm, i as int),
        decreases n - 1 - i,
    {
        let ghost before = r@;
        let mut j: usize = i + 1;
        assert(row_pairs(entities@, hm, i as int, j as int) == Seq::<(Entity, Entity)>::empty());
        while j < n
            invariant
                n == entities@.len(),
                hits@.len() == n,
                hm == hit_matrix(hits@),
                forall|k: int| 0 <= k < n ==> (#[trigger] hits@[k])@.len() == n,
                i < n - 1,
                i + 1 <= j <= n,
                r@ == before + row_pairs(entities@, hm, i as int, j as int),
            decreases n - j,
        {
            assert(hm[i as int] == hits@[i as int]@);
            if hits[i][j] {
                r.push((entities[i], entities[j]));
            }
            assert(r@ =~= before + row_pairs(entities@, hm, i as int, j + 1));
            j += 1;
        }
        i += 1;
    }
    r
}

/// Whether position pair `a` comes before `b`: by the first collider, then
/// by the second.
pub open spec fn lex_before(a: (int, int), b: (int, int)) -> bool {
    a.0 < b.0 || (a.0 == b.0 && a.1 < b.1)
}

/// Whether `pairs` lists exactly the overlapping colliders of `es`, each
/// pair once, as read off the positions `ps`: every entry is
/// `(es[i], es[j])` for positions `i < j` whose hit flag is set, the
/// positions strictly increase by first then second collider, and every
/// overlapping `i < j` is listed.
pub open spec fn lists_colliding_pairs(
    es: Seq<Entity>,
    hits: Seq<Seq<bool>>,
    ps: Seq<(int, int)>,
    pairs: Seq<(Entity, Entity)>,
) -> bool {
    &&& ps.len() == pairs.len()
    &&& forall|k: int|
        0 <= k < ps.len() ==> 0 <= (#[trigger] ps[k]).0 < ps[k].1 < es.len() && hits[ps[k].0][ps[k].1]
            && pairs[k] == (es[ps[k].0], es[ps[k].1])
    &&& forall|k: int, l: int| 0 <= k < l < ps.len() ==> lex_before(#[trigger] ps[k], #[trigger] ps[l])
    &&& forall|i: int, j: int|
        0 <= i < j < es.len() && #[trigger] hits[i][j] ==> exists|k: int|
            0 <= k < ps.len() && #[trigger] ps[k] == (i, j)
}

spec fn row_positions(hits: Seq<Seq<bool>>, i: int, j_end: int) -> Seq<(int, int)>
    decreases j_end - i,
{
    if j_end <= i + 1 {
        Seq::empty()
    } else if hits[i][j_end - 1] {
        row_positions(hits, i, j_end - 1).push((i, j_end - 1))
    } else {
        row_positions(hits, i, j_end - 1)
    }
}

spec fn all_positions(hits: Seq<Seq<bool>>, n: int, i_end: int) -> Seq<(int, int)>
    decreases i_end,
{
    if i_end <= 0 {
        Seq::empty()
    } else {
        all_positions(hits, n, i_end - 1) + row_positions(hits, i_end - 1, n)
    }
}

proof fn lemma_row(es: Seq<Entity>, hits: Seq<Seq<bool>>, i: int, j_end: int)
    requires
        0 <= i,
        j_end <= es.len(),
    ensures
        ({
            let rp = row_pairs(es, hits, i, j_end);
            let ps = row_positions(hits, i, j_end);
            &&& rp.len() == ps.len()
            &&& forall|k: int|
                0 <= k < ps.len() ==> (#[trigger] ps[k]).0 == i && i < ps[k].1 < j_end && hits[i][ps[k].1]
                    && rp[k] == (es[i], es[ps[k].1])
            &&& forall|k: int, l: int| 0 <= k < l < ps.len() ==> (#[trigger] ps[k]).1 < (#[trigger] ps[l]).1
            &&& forall|j: int|
                i < j < j_end && #[trigger] hits[i][j] ==> exists|k: int|
                    0 <= k < ps.len() && #[trigger] ps[k] == (i, j)
        }),
    decreases j_end - i,
{
    if j_end > i + 1 {
        lemma_row(es, hits, i, j_end - 1);
        let ps0 = row_positions(hits, i, j_end - 1);
        let ps = row_positions(hits, i, j_end);
        assert forall|j: int| i < j < j_end && #[trigger] hits[i][j] implies exists|k: int|
            0 <= k < ps.len() && #[trigger] ps[k] == (i, j) by {
            if j == j_end - 1 {
                assert(ps[ps.len() - 1] == (i, j));
            } else {
                let k = choose|k: int| 0 <= k < ps0.len() && #[trigger] ps0[k] == (i, j);
                assert(ps[k] == (i, j));
            }
        }
    }
}

proof fn lemma_all(es: Seq<Entity>, hits: Seq<Seq<bool>>, i_end: int)
    requires
        0 <= i_end <= es.len(),
    ensures
        ({
            let n = es.len() as int;
            let ap = all_pairs(es, hits, i_end);
            let ps = all_positions(hits, n, i_end);
            &&& ap.len() == ps.len()
            &&& forall|k: int|
                0 <= k < ps.len() ==> 0 <= (#[trigger] ps[k]).0 < i_end && ps[k].0 < ps[k].1 < n
                    && hits[ps[k].0][ps[k].1] && ap[k] == (es[ps[k].0], es[ps[k].1])
            &&& forall|k: int, l: int| 0 <= k < l < ps.len() ==> lex_before(#[trigger] ps[k], #[trigger] ps[l])
            &&& forall|i: int, j: int|
                0 <= i < i_end && i < j < n && #[trigger] hits[i][j] ==> exists|k: int|
                    0 <= k < ps.len() && #[trigger] ps[k] == (i, j)
        }),
    decreases i_end,
{
    if i_end > 0 {
        let n = es.len() as int;
        lemma_all(es, hits, i_end - 1);
        lemma_row(es, hits, i_end - 1, n);
        let a0 = all_pairs(es, hits, i_end - 1);
        let p0 = all_positions(hits, n, i_end - 1);
        let rp = row_pairs(es, hits, i_end - 1, n);
        let rq = row_positions(hits, i_end - 1, n);
        let ap = all_pairs(es, hits, i_end);
        let ps = all_positions(hits, n, i_end);
        assert(ap == a0 + rp);
        assert(ps == p0 + rq);
        assert forall|k: int| 0 <= k < ps.len() implies 0 <= (#[trigger] ps[k]).0 < i_end && ps[k].0
            < ps[k].1 < n && hits[ps[k].0][ps[k].1] && ap[k] == (es[ps[k].0], es[ps[k].1]) by {
            if k >= p0.len() {
                assert(ps[k] == rq[k - p0.len()]);
                assert(ap[k] == rp[k - p0.len()]);
            } else {
                assert(ps[k] == p0[k]);
                assert(ap[k] == a0[k]);
            }
        }
        assert forall|k: int, l: int| 0 <= k < l < ps.len() implies lex_before(
            #[trigger] ps[k],
            #[trigger] ps[l],
        ) by {
            if l < p0.len() {
                assert(ps[k] == p0[k] && ps[l] == p0[l]);
            } else if k < p0.len() {
                assert(ps[k] == p0[k]);
                assert(ps[l] == rq[l - p0.len()]);
            } else {
                assert(ps[k] == rq[k - p0.len()]);
                assert(ps[l] == rq[l - p0.len()]);
            }
        }
        assert forall|i: int, j: int| 0 <= i < i_end && i < j < n && #[trigger] hits[i][j] implies exists|
            k: int,
        | 0 <= k < ps.len() && #[trigger] ps[k] == (i, j) by {
            if i == i_end - 1 {
                let k = choose|k: int| 0 <= k < rq.len() && #[trigger] rq[k] == (i, j);
                assert(ps[p0.len() + k] == (i, j));
            } else {
                let k = choose|k: int| 0 <= k < p0.len() && #[trigger] p0[k] == (i, j);
                assert(ps[k] == (i, j));
            }
        }
    }
}

/// The colliding pairs are exactly right: each overlapping pair of
/// colliders `i < j` is reported once, as `(es[i], es[j])`, nothing else is
/// reported, and the pairs come ordered by the first collider, then by the
/// second.
pub proof fn lemma_collision_pairs_exact(es: Seq<Entity>, hits: Seq<Seq<bool>>)
    requires
        es.len() >= 1,
    ensures
        exists|ps: Seq<(int, int)>|
            #[trigger] lists_colliding_pairs(es, hits, ps, all_pairs(es, hits, es.len() - 1)),
{
    let n = es.len() as int;
    lemma_all(es, hits, n - 1);
    let ps = all_positions(hits, n, n - 1);
    assert(lists_colliding_pairs(es, hits, ps, all_pairs(es, hits, n - 1)));
}

/// A spawn step: recycle when the course is full, otherwise add the new pipe.
pub open spec fn spawned(before: Seq<Entity>, new_pipe: Entity) -> Seq<Entity> {
    if before.len() >= MAX_PIPES {
        seq![before.last()] + before.drop_last()
    } else {
        seq![new_pipe] + before
    }
}

/// Spawn steps never grow a course past six pipes, and recycling neither
/// loses nor duplicates a pipe: it only moves the oldest to the front.
pub proof fn lemma_course_bounded(before: Seq<Entity>, new_pipe: Entity)
    requires
        before.len() <= MAX_PIPES,
    ensures
        spawned(before, new_pipe).len() <= MAX_PIPES,
        before.len() == MAX_PIPES ==> spawned(before, new_pipe).to_multiset()
            == before.to_multiset(),
{
    broadcast use vstd::seq_lib::group_to_multiset_ensures;

    if before.len() == MAX_PIPES {
        let last = before.last();
        let rest = before.drop_last();
        assert(before =~= rest.push(last));
        assert(seq![last] + rest =~= rest.insert(0, last));
        vstd::seq_lib::lemma_seq_union_to_multiset_commutative(seq![last], rest);
        assert(rest + seq![last] =~= rest.push(last));
    }
}

} // verus!
