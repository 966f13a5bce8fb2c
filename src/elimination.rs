use vstd::prelude::*;
use crate::geometry::Point;
use crate::registry::Players;
use crate::spawn::ARENA_HALF_EXTENT;

verus! {

/// An agent whose up axis has a smaller component along world up than this
/// (in thousandths) has toppled over.
pub const UPRIGHT_THRESHOLD: i32 = 150;

/// What one tick's rules need to know of a living agent.
pub struct Player {
    pub name: String,
    /// Where it is.
    pub position: Point,
    /// A direction pointing to its right (any positive length).
    pub right: Point,
    /// Component of its up axis along world up, in thousandths.
    pub up_alignment: i32,
}

/// Whether `p` lies inside the arena's cube on every axis.
pub open spec fn in_arena(p: Point) -> bool {
    &&& -ARENA_HALF_EXTENT <= p.x <= ARENA_HALF_EXTENT
    &&& -ARENA_HALF_EXTENT <= p.y <= ARENA_HALF_EXTENT
    &&& -ARENA_HALF_EXTENT <= p.z <= ARENA_HALF_EXTENT
}

/// Whether an agent has toppled over or left the arena.
pub open spec fn doomed(up_alignment: int, position: Point) -> bool {
    up_alignment < UPRIGHT_THRESHOLD || !in_arena(position)
}

/// The names of the agents among `agents` that are doomed.
pub open spec fn doomed_names(agents: Seq<Player>) -> Set<Seq<char>> {
    Set::new(
        |n: Seq<char>|
            exists|i: int|
                0 <= i < agents.len() && doomed(agents[i].up_alignment as int, agents[i].position)
                    && agents[i].name@ == n,
    )
}

/// Whether an agent with this up alignment at this position is eliminated.
pub fn should_die(up_alignment: i32, position: Point) -> (r: bool)
    ensures
        r == doomed(up_alignment as int, position),
{
    up_alignment < UPRIGHT_THRESHOLD || position.x < -ARENA_HALF_EXTENT || position.x > ARENA_HALF_EXTENT
        || position.y < -ARENA_HALF_EXTENT || position.y > ARENA_HALF_EXTENT || position.z
        < -ARENA_HALF_EXTENT || position.z > ARENA_HALF_EXTENT
}

impl Players {
    /// Removes every doomed agent among `agents` that is still alive and
    /// returns their indices in increasing order; an agent that is doomed but
    /// no longer alive is not reported again.
    pub fn eliminate(&mut self, agents: &Vec<Player>) -> (r: Vec<usize>)
        requires
            old(self).wf(),
        ensures
            final(self).wf(),
            final(self)@ == old(self)@.difference(doomed_names(agents@)),
            old(self)@.intersect(doomed_names(agents@)).is_empty() ==> final(self)@ == old(self)@ && r@.len()
                == 0,
            forall|k: int|
                0 <= k < r@.len() ==> #[trigger] r@[k] < agents@.len() && doomed(
                    agents@[r@[k] as int].up_alignment as int,
                    agents@[r@[k] as int].position,
                ) && old(self)@.contains(agents@[r@[k] as int].name@),
            forall|a: int, b: int|
                0 <= a < b < r@.len() ==> #[trigger] r@[a] < #[trigger] r@[b] && agents@[r@[a] as int].name@
                    != agents@[r@[b] as int].name@,
            forall|n: Seq<char>|
                old(self)@.contains(n) && #[trigger] doomed_names(agents@).contains(n) ==> exists|k: int|
                    0 <= k < r@.len() && agents@[r@[k] as int].name@ == n,
    {
        let mut r: Vec<usize> = Vec::new();
        let mut i: usize = 0;
        while i < agents.len()
            invariant
                i <= agents@.len(),
                self.wf(),
                self@ == old(self)@.difference(doomed_names(agents@.subrange(0, i as int))),
                forall|k: int|
                    0 <= k < r@.len() ==> #[trigger] r@[k] < i && doomed(
                        agents@[r@[k] as int].up_alignment as int,
                        agents@[r@[k] as int].position,
                    ) && old(self)@.contains(agents@[r@[k] as int].name@),
                forall|a: int, b: int|
                    0 <= a < b < r@.len() ==> #[trigger] r@[a] < #[trigger] r@[b] && agents@[r@[a] as int].name@
                        != agents@[r@[b] as int].name@,
                forall|n: Seq<char>|
                    old(self)@.contains(n) && #[trigger] doomed_names(agents@.subrange(0, i as int)).contains(n)
                        ==> exists|k: int| 0 <= k < r@.len() && agents@[r@[k] as int].name@ == n,
            decreases agents@.len() - i,
        {
            let ghost before = self@;
            let ghost r_before = r@;
            let ghost pre = agents@.subrange(0, i as int);
            let ghost next = agents@.subrange(0, i + 1);
            let agent = &agents[i];
            let dies = should_die(agent.up_alignment, agent.position);
            let mut removed = false;
            if dies {
                removed = self.remove(&agent.name);
                if removed {
                    r.push(i);
                }
            }
            proof {
                assert(next[i as int] == agents@[i as int]);
                assert forall|n: Seq<char>|
                    #[trigger] doomed_names(next).contains(n) <==> doomed_names(pre).contains(n) || (dies
                        && n == agent.name@) by {
                    if doomed_names(next).contains(n) {
                        let j = choose|j: int|
                            0 <= j < next.len() && doomed(next[j].up_alignment as int, next[j].position)
                                && next[j].name@ == n;
                        if j < i {
                            assert(pre[j] == next[j]);
                        }
                    }
                    if doomed_names(pre).contains(n) {
                        let j = choose|j: int|
                            0 <= j < pre.len() && doomed(pre[j].up_alignment as int, pre[j].position)
                                && pre[j].name@ == n;
                        assert(next[j] == pre[j]);
                    }
                }
                assert(self@ =~= old(self)@.difference(doomed_names(next)));
                assert forall|a: int, b: int|
                    0 <= a < b < r@.len() implies #[trigger] r@[a] < #[trigger] r@[b] && agents@[r@[a] as int].name@
                        != agents@[r@[b] as int].name@ by {
                    if b == r@.len() - 1 && removed {
                        assert(r@[a] == r_before[a]);
                        let ja = r@[a] as int;
                        let na = agents@[ja].name@;
                        assert(pre[ja] == agents@[ja]);
                        assert(doomed_names(pre).contains(na));
                        assert(!before.contains(na));
                    } else {
                        assert(r@[a] == r_before[a]);
                        assert(r@[b] == r_before[b]);
                    }
                }
                assert forall|n: Seq<char>|
                    old(self)@.contains(n) && #[trigger] doomed_names(next).contains(n) implies exists|k: int|
                        0 <= k < r@.len() && agents@[r@[k] as int].name@ == n by {
                    if doomed_names(pre).contains(n) {
                        let k0 = choose|k: int| 0 <= k < r_before.len() && agents@[r_before[k] as int].name@ == n;
                        assert(r@[k0] == r_before[k0]);
                    } else {
                        assert(dies && n == agent.name@);
                        assert(before.contains(n));
                        assert(removed);
                        assert(r@[r@.len() - 1] == i);
                    }
                }
            }
            i = i + 1;
        }
        assert(agents@.subrange(0, i as int) == agents@);
        proof {
            if old(self)@.intersect(doomed_names(agents@)).is_empty() {
                if r@.len() > 0 {
                    let j = r@[0] as int;
                    let n = agents@[j].name@;
                    assert(doomed_names(agents@).contains(n));
                    assert(old(self)@.intersect(doomed_names(agents@)).contains(n));
                }
                assert(self@ =~= old(self)@);
            }
        }
        r
    }
}

/// Elimination happens once: after the doomed agents are removed, none of
/// them is alive, so a second pass over the same agents removes nothing more.
pub proof fn lemma_elimination_once(alive: Set<Seq<char>>, agents: Seq<Player>)
    ensures
        alive.difference(doomed_names(agents)).difference(doomed_names(agents)) == alive.difference(
            doomed_names(agents),
        ),
        alive.difference(doomed_names(agents)).intersect(doomed_names(agents)).is_empty(),
{
    assert(alive.difference(doomed_names(agents)).difference(doomed_names(agents)) =~= alive.difference(
        doomed_names(agents),
    ));
    assert(alive.difference(doomed_names(agents)).intersect(doomed_names(agents)) =~= Set::empty());
}

} // verus!
