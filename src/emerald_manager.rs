use vstd::prelude::*;

use crate::rng::{draw_of, lcg_iter, lcg_next, lemma_lcg_iter_add, Rng, RngConsts, SEED};
use crate::selection::{is_stable_order, stable_order, stable_order_of, uniform_index, uniform_pick, weighted_index, weighted_pick};
use crate::stage_spec::{Emerald, StageSpec, GRABBED_ID, UNSET_ID};
use crate::vector::Vector;
use crate::Platform;

verus! {

/// The number of draws the desktop game makes before placing pieces in a
/// stage loaded from its set file.
pub const NUM_RNG_CALLS: u32 = 138;

/// Pools can be no larger than this: binary32 holds every size below it.
pub const MAX_POOL: usize = 0x100_0000;

/// One generation of three pieces: a working copy of the stage's pools, the
/// three slots, and the generator.
#[derive(Clone, Debug)]
pub struct EmeraldManager {
    pub slot1_pieces: Vec<Emerald>,
    pub slot2_pieces: Vec<Emerald>,
    pub slot3_pieces: Vec<Emerald>,
    pub enemy_pieces: Vec<Emerald>,
    pub p1: Emerald,
    pub p2: Emerald,
    pub p3: Emerald,
    pub r: Rng,
}

/// An object of a set file, as far as piece placement reads it.
#[derive(Clone, Copy, Debug)]
pub struct SetObject {
    pub object: u16,
    pub rotation_x: u16,
    pub rotation_y: u16,
    pub position: Vector,
}

/// Object kinds whose second rotation word names the enemy piece they carry.
pub open spec fn carries_enemy_piece(o: SetObject) -> bool {
    (o.object == 0x0038 || o.object == 0x003E || o.object == 0x003B) && o.rotation_y != 0x00FF
}

/// The slot pool (1 to 3) that a piece object goes in, or 0.
pub open spec fn set_object_slot(o: SetObject) -> int {
    let major = o.rotation_x / 0x100;
    if o.object != 0x000F {
        0
    } else if major == 1 || major == 3 {
        1
    } else if major == 0 || major == 2 || major == 5 {
        2
    } else if major == 4 || major == 7 || major == 8 {
        3
    } else {
        0
    }
}

/// Pool `pool` (1 to 3 for the slots, 4 for enemy pieces) built from the
/// first `k` objects.
pub open spec fn set_objects_pool(objects: Seq<SetObject>, k: nat, pool: int) -> Seq<Emerald>
    decreases k,
{
    if k == 0 {
        Seq::empty()
    } else {
        let o = objects[k - 1];
        let before = set_objects_pool(objects, (k - 1) as nat, pool);
        if pool == 4 && carries_enemy_piece(o) {
            before.push(Emerald { id: 0x0A00u16 | o.rotation_y, position: o.position })
        } else if 1 <= pool <= 3 && set_object_slot(o) == pool {
            before.push(Emerald { id: o.rotation_x, position: o.position })
        } else {
            before
        }
    }
}

/// A slot that holds a default piece.
pub open spec fn is_unset(e: Emerald) -> bool {
    e.id == UNSET_ID && e.position.x == 0 && e.position.y == 0 && e.position.z == 0
}

impl EmeraldManager {
    /// The pools of `self` and `other` hold the same pieces.
    pub open spec fn same_pools(&self, other: &EmeraldManager) -> bool {
        &&& self.slot1_pieces@ == other.slot1_pieces@
        &&& self.slot2_pieces@ == other.slot2_pieces@
        &&& self.slot3_pieces@ == other.slot3_pieces@
        &&& self.enemy_pieces@ == other.enemy_pieces@
    }

    /// The index drawn for slot 1 from this state: among slot-1 pieces
    /// followed by enemy pieces.
    pub open spec fn p1_pick<R: RngConsts>(&self) -> nat {
        uniform_pick(
            draw_of(lcg_next::<R>(self.r@)) as nat,
            self.slot1_pieces@.len() + self.enemy_pieces@.len(),
        )
    }

    /// The slot-2 candidates: slot-2 pieces followed by enemy pieces.
    pub open spec fn p2_candidates_spec(&self) -> Seq<Emerald> {
        self.slot2_pieces@ + self.enemy_pieces@
    }

    /// What the slot-1 step does, from `old` to `new`.
    pub open spec fn p1_step<R: RngConsts>(old: EmeraldManager, new: EmeraldManager) -> bool {
        &&& new.slot1_pieces@ == old.slot1_pieces@
        &&& new.slot2_pieces@ == old.slot2_pieces@
        &&& new.slot3_pieces@ == old.slot3_pieces@
        &&& new.p2 == old.p2
        &&& new.p3 == old.p3
        &&& if old.p1.id == GRABBED_ID {
            &&& new.p1 == old.p1
            &&& new.enemy_pieces@ == old.enemy_pieces@
            &&& new.r@ == old.r@
        } else {
            let i = old.p1_pick::<R>() as int;
            let n1 = old.slot1_pieces@.len() as int;
            &&& new.r@ == lcg_next::<R>(old.r@)
            &&& if i < n1 {
                new.p1 == old.slot1_pieces@[i] && new.enemy_pieces@ == old.enemy_pieces@
            } else {
                &&& new.p1 == old.enemy_pieces@[i - n1]
                &&& new.enemy_pieces@ == old.enemy_pieces@.update(i - n1, old.enemy_pieces@.last()).drop_last()
            }
        }
    }

    /// What the slot-2 step does, from `old` to `new`, with `keys` the sort
    /// keys of the slot-2 candidates.
    pub open spec fn p2_step<R: RngConsts>(old: EmeraldManager, new: EmeraldManager, keys: Seq<u32>) -> bool {
        &&& old.same_pools(&new)
        &&& new.p1 == old.p1
        &&& new.p3 == old.p3
        &&& if old.p2.id == GRABBED_ID {
            new.p2 == old.p2 && new.r@ == old.r@
        } else {
            let n = old.p2_candidates_spec().len();
            let i = weighted_pick(draw_of(lcg_next::<R>(old.r@)) as nat, n);
            &&& new.r@ == lcg_next::<R>(old.r@)
            &&& is_stable_order(keys, stable_order(keys))
            &&& new.p2 == old.p2_candidates_spec()[stable_order(keys)[i as int] as int]
        }
    }

    /// What the slot-3 step does, from `old` to `new`, with `keys` the sort
    /// keys of the slot-3 pieces.
    pub open spec fn p3_step<R: RngConsts>(old: EmeraldManager, new: EmeraldManager, keys: Seq<u32>) -> bool {
        &&& old.same_pools(&new)
        &&& new.p1 == old.p1
        &&& new.p2 == old.p2
        &&& if old.p3.id == GRABBED_ID {
            new.p3 == old.p3 && new.r@ == old.r@
        } else {
            let n = old.slot3_pieces@.len();
            let i = weighted_pick(draw_of(lcg_next::<R>(old.r@)) as nat, n);
            &&& new.r@ == lcg_next::<R>(old.r@)
            &&& is_stable_order(keys, stable_order(keys))
            &&& new.p3 == old.slot3_pieces@[stable_order(keys)[i as int] as int]
        }
    }

    /// A generation for `spec`'s stage: its pools, unset slots, and the
    /// generator stepped `pre_calls` times from `SEED`.
    pub fn from_spec<P: Platform>(spec: StageSpec) -> (em: EmeraldManager)
        ensures
            em.slot1_pieces@ == spec.slot1_pieces@,
            em.slot2_pieces@ == spec.slot2_pieces@,
            em.slot3_pieces@ == spec.slot3_pieces@,
            em.enemy_pieces@ == spec.enemy_pieces@,
            is_unset(em.p1) && is_unset(em.p2) && is_unset(em.p3),
            em.r@ == lcg_iter::<P::Consts>(SEED, spec.pre_calls as nat),
    {
        let r = Rng::from_seed_after::<P::Consts>(spec.pre_calls);
        EmeraldManager {
            slot1_pieces: spec.slot1_pieces,
            slot2_pieces: spec.slot2_pieces,
            slot3_pieces: spec.slot3_pieces,
            enemy_pieces: spec.enemy_pieces,
            p1: Emerald::default(),
            p2: Emerald::default(),
            p3: Emerald::default(),
            r,
        }
    }

    /// A generation for a stage given by the objects of its set file: piece
    /// objects (kind 0x0F) go to the slot pool of their major id, enemies
    /// that carry a piece give an enemy piece `0x0A00 | rotation_y`, and the
    /// generator is stepped `NUM_RNG_CALLS` times from `SEED`.
    pub fn from_set_objects<P: Platform>(objects: &Vec<SetObject>) -> (em: EmeraldManager)
        ensures
            em.slot1_pieces@ == set_objects_pool(objects@, objects@.len(), 1),
            em.slot2_pieces@ == set_objects_pool(objects@, objects@.len(), 2),
            em.slot3_pieces@ == set_objects_pool(objects@, objects@.len(), 3),
            em.enemy_pieces@ == set_objects_pool(objects@, objects@.len(), 4),
            is_unset(em.p1) && is_unset(em.p2) && is_unset(em.p3),
            em.r@ == lcg_iter::<P::Consts>(SEED, NUM_RNG_CALLS as nat),
    {
        let mut slot1_pieces: Vec<Emerald> = Vec::new();
        let mut slot2_pieces: Vec<Emerald> = Vec::new();
        let mut slot3_pieces: Vec<Emerald> = Vec::new();
        let mut enemy_pieces: Vec<Emerald> = Vec::new();
        for k in 0..objects.len()
            invariant
                slot1_pieces@ == set_objects_pool(objects@, k as nat, 1),
                slot2_pieces@ == set_objects_pool(objects@, k as nat, 2),
                slot3_pieces@ == set_objects_pool(objects@, k as nat, 3),
                enemy_pieces@ == set_objects_pool(objects@, k as nat, 4),
        {
            let o = objects[k];
            if o.object == 0x000F {
                let major = o.rotation_x / 0x100;
                let piece = Emerald { id: o.rotation_x, position: o.position };
                if major == 1 || major == 3 {
                    slot1_pieces.push(piece);
                } else if major == 0 || major == 2 || major == 5 {
                    slot2_pieces.push(piece);
                } else if major == 4 || major == 7 || major == 8 {
                    slot3_pieces.push(piece);
                }
            }
            if (o.object == 0x0038 || o.object == 0x003E || o.object == 0x003B) && o.rotation_y != 0x00FF {
                enemy_pieces.push(Emerald { id: 0x0A00u16 | o.rotation_y, position: o.position });
            }
        }
        EmeraldManager {
            slot1_pieces,
            slot2_pieces,
            slot3_pieces,
            enemy_pieces,
            p1: Emerald::default(),
            p2: Emerald::default(),
            p3: Emerald::default(),
            r: Rng::from_seed_after::<P::Consts>(NUM_RNG_CALLS),
        }
    }

    /// Fills slot 1, unless it was grabbed in an earlier life: one draw picks
    /// uniformly among slot-1 pieces followed by enemy pieces; an enemy piece
    /// picked leaves the enemy pool, the last one taking its place.
    pub fn gen_p1<P: Platform>(&mut self)
        requires
            old(self).p1.id != GRABBED_ID ==> 0 < old(self).slot1_pieces@.len()
                + old(self).enemy_pieces@.len() < MAX_POOL,
        ensures
            Self::p1_step::<P::Consts>(*old(self), *final(self)),
    {
        if self.p1.id != GRABBED_ID {
            let n1 = self.slot1_pieces.len();
            let n = n1 + self.enemy_pieces.len();
            let draw = self.r.gen_val::<P::Consts>();
            let i = uniform_index(draw, n);
            if i < n1 {
                self.p1 = self.slot1_pieces[i];
            } else {
                self.p1 = self.enemy_pieces.swap_remove(i - n1);
            }
        }
    }

    /// The slot-2 candidates, in the order whose sort keys `gen_p2` takes.
    pub fn p2_candidates(&self) -> (c: Vec<Emerald>)
        ensures
            c@ == self.p2_candidates_spec(),
    {
        let mut c: Vec<Emerald> = Vec::new();
        for k in 0..self.slot2_pieces.len()
            invariant
                c@ == self.slot2_pieces@.subrange(0, k as int),
        {
            c.push(self.slot2_pieces[k]);
            assert(c@ =~= self.slot2_pieces@.subrange(0, k + 1));
        }
        for k in 0..self.enemy_pieces.len()
            invariant
                c@ == self.slot2_pieces@ + self.enemy_pieces@.subrange(0, k as int),
        {
            c.push(self.enemy_pieces[k]);
            assert(c@ =~= self.slot2_pieces@ + self.enemy_pieces@.subrange(0, k + 1));
        }
        assert(self.enemy_pieces@.subrange(0, self.enemy_pieces@.len() as int) =~= self.enemy_pieces@);
        c
    }

    /// Fills slot 2, unless it was grabbed in an earlier life. `keys[k]` is
    /// the binary32 bit pattern of candidate `k`'s distance to piece 1 (see
    /// `p2_candidates`); the candidates are sorted stably by it and one draw
    /// picks among them, nearer ones twice as likely.
    pub fn gen_p2<P: Platform>(&mut self, keys: &Vec<u32>)
        requires
            old(self).p2.id != GRABBED_ID ==> {
                &&& keys@.len() == old(self).p2_candidates_spec().len()
                &&& 0 < keys@.len() < MAX_POOL
            },
        ensures
            Self::p2_step::<P::Consts>(*old(self), *final(self), keys@),
    {
        if self.p2.id != GRABBED_ID {
            let n = self.slot2_pieces.len() + self.enemy_pieces.len();
            let order = stable_order_of(keys);
            let draw = self.r.gen_val::<P::Consts>();
            let i = weighted_index(draw, n);
            let k = order[i];
            let n2 = self.slot2_pieces.len();
            proof {
                assert(order@[i as int] < keys@.len());
            }
            if k < n2 {
                self.p2 = self.slot2_pieces[k];
            } else {
                self.p2 = self.enemy_pieces[k - n2];
            }
        }
    }

    /// Fills slot 3, unless it was grabbed in an earlier life. `keys[k]` is
    /// the binary32 bit pattern of how far slot-3 piece `k` lies from the line
    /// through pieces 1 and 2; the pieces are sorted stably by it and one draw
    /// picks among them, nearer ones twice as likely.
    pub fn gen_p3<P: Platform>(&mut self, keys: &Vec<u32>)
        requires
            old(self).p3.id != GRABBED_ID ==> {
                &&& keys@.len() == old(self).slot3_pieces@.len()
                &&& 0 < keys@.len() < MAX_POOL
            },
        ensures
            Self::p3_step::<P::Consts>(*old(self), *final(self), keys@),
    {
        if self.p3.id != GRABBED_ID {
            let n = self.slot3_pieces.len();
            let order = stable_order_of(keys);
            let draw = self.r.gen_val::<P::Consts>();
            let i = weighted_index(draw, n);
            proof {
                assert(order@[i as int] < keys@.len());
            }
            self.p3 = self.slot3_pieces[order[i]];
        }
    }

    /// Steps the generator `frame % 1024` times.
    pub fn gen_pieces_full<P: Platform>(&mut self, frame: u32)
        ensures
            final(self).r@ == lcg_iter::<P::Consts>(old(self).r@, (frame % 1024) as nat),
            old(self).same_pools(&*final(self)),
            final(self).p1 == old(self).p1 && final(self).p2 == old(self).p2 && final(self).p3 == old(self).p3,
    {
        let calls = frame % 1024;
        let mut i: u32 = 0;
        while i < calls
            invariant
                i <= calls,
                self.r@ == lcg_iter::<P::Consts>(old(self).r@, i as nat),
                old(self).same_pools(&*self),
                self.p1 == old(self).p1 && self.p2 == old(self).p2 && self.p3 == old(self).p3,
            decreases calls - i,
        {
            self.r.gen_val::<P::Consts>();
            i = i + 1;
        }
    }
}

/// The position in the enemy pool that the slot-1 step takes its piece from,
/// or -1 where it takes none.
pub open spec fn p1_enemy_index<R: RngConsts>(m: EmeraldManager) -> int {
    let i = m.p1_pick::<R>() as int;
    let n1 = m.slot1_pieces@.len() as int;
    if m.p1.id == GRABBED_ID || i < n1 {
        -1
    } else {
        i - n1
    }
}

/// The number of slots of `m` that are not pre-grabbed.
pub open spec fn slots_to_draw(m: EmeraldManager) -> nat {
    (if m.p1.id == GRABBED_ID { 0nat } else { 1nat }) + (if m.p2.id == GRABBED_ID { 0nat } else { 1nat })
        + (if m.p3.id == GRABBED_ID { 0nat } else { 1nat })
}

/// Over a generation (slot 1, then 2, then 3), each drawn piece comes from
/// its pools: piece 1 from slot 1 or the enemy pieces, piece 2 from slot 2 or
/// the enemy pieces other than the one piece 1 took, piece 3 from slot 3.
pub proof fn lemma_pool_membership<R: RngConsts>(
    m0: EmeraldManager,
    m1: EmeraldManager,
    m2: EmeraldManager,
    m3: EmeraldManager,
    keys2: Seq<u32>,
    keys3: Seq<u32>,
)
    requires
        EmeraldManager::p1_step::<R>(m0, m1),
        EmeraldManager::p2_step::<R>(m1, m2, keys2),
        EmeraldManager::p3_step::<R>(m2, m3, keys3),
        m0.p1.id != GRABBED_ID ==> 0 < m0.slot1_pieces@.len() + m0.enemy_pieces@.len() < MAX_POOL,
        m0.p2.id != GRABBED_ID ==> keys2.len() == m1.p2_candidates_spec().len() && 0 < keys2.len() < MAX_POOL,
        m0.p3.id != GRABBED_ID ==> keys3.len() == m0.slot3_pieces@.len() && 0 < keys3.len() < MAX_POOL,
    ensures
        m0.p1.id != GRABBED_ID ==> m0.slot1_pieces@.contains(m3.p1) || m0.enemy_pieces@.contains(m3.p1),
        m0.p2.id != GRABBED_ID ==> m0.slot2_pieces@.contains(m3.p2) || exists|k: int|
            0 <= k < m0.enemy_pieces@.len() && k != p1_enemy_index::<R>(m0) && m0.enemy_pieces@[k] == m3.p2,
        m0.p3.id != GRABBED_ID ==> m0.slot3_pieces@.contains(m3.p3),
{
    if m0.p1.id != GRABBED_ID {
        let i = m0.p1_pick::<R>() as int;
        let n1 = m0.slot1_pieces@.len() as int;
        crate::selection::lemma_uniform_pick_below(
            draw_of(lcg_next::<R>(m0.r@)) as nat,
            m0.slot1_pieces@.len() + m0.enemy_pieces@.len(),
        );
        if i < n1 {
            assert(m0.slot1_pieces@[i] == m3.p1);
        } else {
            assert(m0.enemy_pieces@[i - n1] == m3.p1);
        }
    }
    if m0.p2.id != GRABBED_ID {
        let n = m1.p2_candidates_spec().len();
        let i = weighted_pick(draw_of(lcg_next::<R>(m1.r@)) as nat, n) as int;
        crate::selection::lemma_weighted_pick_below(draw_of(lcg_next::<R>(m1.r@)) as nat, n);
        let k = stable_order(keys2)[i] as int;
        assert(stable_order(keys2)[i] < keys2.len());
        let n2 = m1.slot2_pieces@.len() as int;
        if k < n2 {
            assert(m0.slot2_pieces@[k] == m3.p2);
        } else {
            let e = k - n2;
            let j = p1_enemy_index::<R>(m0);
            assert(m1.enemy_pieces@[e] == m3.p2);
            if j == -1 {
                assert(m0.enemy_pieces@[e] == m3.p2);
            } else if e == j {
                let last = m0.enemy_pieces@.len() - 1;
                assert(m0.enemy_pieces@[last] == m3.p2);
            } else {
                assert(m0.enemy_pieces@[e] == m3.p2);
            }
        }
    }
    if m0.p3.id != GRABBED_ID {
        let n = m2.slot3_pieces@.len();
        let i = weighted_pick(draw_of(lcg_next::<R>(m2.r@)) as nat, n) as int;
        crate::selection::lemma_weighted_pick_below(draw_of(lcg_next::<R>(m2.r@)) as nat, n);
        assert(stable_order(keys3)[i] < keys3.len());
        assert(m0.slot3_pieces@[stable_order(keys3)[i] as int] == m3.p3);
    }
}

/// A pre-grabbed slot keeps its piece and takes no draw: over a generation
/// the generator steps once for each slot that is not pre-grabbed.
pub proof fn lemma_pregrab_draws<R: RngConsts>(
    m0: EmeraldManager,
    m1: EmeraldManager,
    m2: EmeraldManager,
    m3: EmeraldManager,
    keys2: Seq<u32>,
    keys3: Seq<u32>,
)
    requires
        EmeraldManager::p1_step::<R>(m0, m1),
        EmeraldManager::p2_step::<R>(m1, m2, keys2),
        EmeraldManager::p3_step::<R>(m2, m3, keys3),
    ensures
        m3.r@ == lcg_iter::<R>(m0.r@, slots_to_draw(m0)),
        m0.p1.id == GRABBED_ID ==> m3.p1 == m0.p1,
        m0.p2.id == GRABBED_ID ==> m3.p2 == m0.p2,
        m0.p3.id == GRABBED_ID ==> m3.p3 == m0.p3,
{
    let d1: nat = if m0.p1.id == GRABBED_ID { 0 } else { 1 };
    let d2: nat = if m0.p2.id == GRABBED_ID { 0 } else { 1 };
    let d3: nat = if m0.p3.id == GRABBED_ID { 0 } else { 1 };
    assert(lcg_iter::<R>(m0.r@, 0) == m0.r@);
    assert(lcg_iter::<R>(m0.r@, 1) == lcg_next::<R>(m0.r@));
    assert(m1.r@ == lcg_iter::<R>(m0.r@, d1));
    assert(lcg_iter::<R>(m1.r@, 0) == m1.r@);
    assert(lcg_iter::<R>(m1.r@, 1) == lcg_next::<R>(m1.r@));
    assert(m2.r@ == lcg_iter::<R>(m1.r@, d2));
    assert(lcg_iter::<R>(m2.r@, 0) == m2.r@);
    assert(lcg_iter::<R>(m2.r@, 1) == lcg_next::<R>(m2.r@));
    assert(m3.r@ == lcg_iter::<R>(m2.r@, d3));
    lemma_lcg_iter_add::<R>(m0.r@, d1, d2);
    lemma_lcg_iter_add::<R>(m0.r@, d1 + d2, d3);
}

} // verus!
