use vstd::prelude::*;

use crate::rng::{lcg_iter, reverse_rng, SEED};
use crate::vector::Vector;
use crate::Platform;

verus! {

/// The id that marks a slot as grabbed in an earlier life.
pub const GRABBED_ID: u16 = 0xFE00;
/// The id of an unset piece.
pub const UNSET_ID: u16 = 0xFF00;

/// A piece: its id (major byte: category, minor byte: index) and position.
#[derive(Clone, Copy, Debug)]
pub struct Emerald {
    pub id: u16,
    pub position: Vector,
}

impl Default for Emerald {
    fn default() -> (e: Emerald)
        ensures
            e.id == UNSET_ID,
            e.position.x == 0 && e.position.y == 0 && e.position.z == 0,
    {
        Emerald { id: UNSET_ID, position: Vector::default() }
    }
}

/// A stage's pieces, by pool, and the number of draws the game makes before
/// it places them.
#[derive(Clone, Debug)]
pub struct StageSpec {
    pub slot1_pieces: Vec<Emerald>,
    pub slot2_pieces: Vec<Emerald>,
    pub slot3_pieces: Vec<Emerald>,
    pub enemy_pieces: Vec<Emerald>,
    pub pre_calls: u32,
}

/// The index of the first piece of `s` with id `id`, if any.
pub open spec fn first_with_id(s: Seq<Emerald>, id: u16) -> Option<int> {
    if exists|k: int| 0 <= k < s.len() && s[k].id == id {
        Some(choose|k: int| 0 <= k < s.len() && s[k].id == id && forall|j: int| 0 <= j < k ==> s[j].id != id)
    } else {
        None
    }
}

proof fn lemma_first_with_id(s: Seq<Emerald>, id: u16, k: int)
    requires
        0 <= k < s.len(),
        s[k].id == id,
        forall|j: int| 0 <= j < k ==> s[j].id != id,
    ensures
        first_with_id(s, id) == Some(k),
{
    let c = choose|c: int| 0 <= c < s.len() && s[c].id == id && forall|j: int| 0 <= j < c ==> s[j].id != id;
    assert(0 <= c < s.len() && s[c].id == id && forall|j: int| 0 <= j < c ==> s[j].id != id);
    if c < k {
        assert(s[c].id != id);
    }
    if k < c {
        assert(s[k].id != id);
    }
}

fn find_id(pieces: &Vec<Emerald>, id: u16) -> (r: Option<usize>)
    ensures
        match r {
            Some(k) => k < pieces.len() && pieces@[k as int].id == id && forall|j: int|
                0 <= j < k ==> pieces@[j].id != id,
            None => forall|j: int| 0 <= j < pieces.len() ==> pieces@[j].id != id,
        },
{
    for k in 0..pieces.len()
        invariant
            forall|j: int| 0 <= j < k ==> pieces@[j].id != id,
    {
        if pieces[k].id == id {
            return Some(k);
        }
    }
    None
}

/// The big-endian 16-bit integer at `off`.
pub open spec fn be_u16(d: Seq<u8>, off: int) -> u16 {
    (d[off] * 0x100 + d[off + 1]) as u16
}

/// The big-endian 32-bit integer at `off`.
pub open spec fn be_u32(d: Seq<u8>, off: int) -> u32 {
    (d[off] * 0x100_0000 + d[off + 1] * 0x1_0000 + d[off + 2] * 0x100 + d[off + 3]) as u32
}

fn read_be_u16(d: &[u8], off: usize) -> (r: u16)
    requires
        off + 2 <= d@.len(),
    ensures
        r == be_u16(d@, off as int),
{
    d[off] as u16 * 0x100 + d[off + 1] as u16
}

fn read_be_u32(d: &[u8], off: usize) -> (r: u32)
    requires
        off + 4 <= d@.len(),
    ensures
        r == be_u32(d@, off as int),
{
    d[off] as u32 * 0x100_0000 + d[off + 1] as u32 * 0x1_0000 + d[off + 2] as u32 * 0x100
        + d[off + 3] as u32
}

/// Where the RAM dump holds the four pool sizes, one byte each.
pub const DUMP_COUNTS: usize = 0x00C5D5A6;
/// Where the RAM dump holds the four pool addresses, big-endian words.
pub const DUMP_POOLS: usize = 0x00C5D5FC;
/// Where the RAM dump holds the generator's state.
pub const DUMP_RNG_STATE: usize = 0x003AD6A0;

/// A 16-byte piece record of the RAM dump at `off`: id, two bytes of
/// padding, then x, y and z.
pub open spec fn dump_piece(d: Seq<u8>, off: int) -> Emerald {
    Emerald {
        id: be_u16(d, off),
        position: Vector { x: be_u32(d, off + 4), y: be_u32(d, off + 8), z: be_u32(d, off + 12) },
    }
}

/// The size of pool `i` (slot 1, 2, 3, enemy) in the RAM dump.
pub open spec fn dump_count(d: Seq<u8>, i: int) -> int {
    d[DUMP_COUNTS + i] as int
}

/// The file offset of pool `i` in the RAM dump: its address without the
/// cached-memory bit.
pub open spec fn dump_address(d: Seq<u8>, i: int) -> int {
    (be_u32(d, DUMP_POOLS + 4 * i) ^ 0x8000_0000u32) as int
}

/// Pool `i` of the RAM dump.
pub open spec fn dump_pool(d: Seq<u8>, i: int) -> Seq<Emerald> {
    Seq::new(dump_count(d, i) as nat, |j: int| dump_piece(d, dump_address(d, i) + 16 * j))
}

/// The RAM dump holds every field that is read from it.
pub open spec fn dump_in_range(d: Seq<u8>) -> bool {
    &&& DUMP_COUNTS + 4 <= d.len()
    &&& DUMP_POOLS + 16 <= d.len()
    &&& DUMP_RNG_STATE + 4 <= d.len()
    &&& forall|i: int| 0 <= i < 4 ==> dump_address(d, i) + 16 * dump_count(d, i) <= d.len()
}

/// The object records of a set file: the first is at 0x20, 0x20 bytes each.
pub open spec fn set_object_at(i: int) -> int {
    (i + 1) * 0x20
}

/// Object `i` of a set file is an emerald piece.
pub open spec fn set_object_is_piece(d: Seq<u8>, i: int) -> bool {
    be_u16(d, set_object_at(i)) == 0x000F
}

/// The piece of object `i` of a set file: id from its first rotation
/// word, position 8 bytes into the record.
pub open spec fn set_object_piece(d: Seq<u8>, i: int) -> Emerald {
    let at = set_object_at(i);
    Emerald {
        id: be_u16(d, at + 2),
        position: Vector { x: be_u32(d, at + 8), y: be_u32(d, at + 12), z: be_u32(d, at + 16) },
    }
}

/// The pool that a piece's major id puts it in: 1 to 3 for the slots, 4 for
/// enemy pieces, 0 for none.
pub open spec fn pool_of_major(major: u8) -> int {
    if major == 1 || major == 3 {
        1
    } else if major == 0 || major == 2 || major == 5 {
        2
    } else if major == 4 || major == 7 || major == 8 {
        3
    } else if major == 0x0A {
        4
    } else {
        0
    }
}

/// The set file holds every field that is read of object `i`.
pub open spec fn set_object_in_range(d: Seq<u8>, i: int) -> bool {
    &&& set_object_at(i) + 2 <= d.len()
    &&& set_object_is_piece(d, i) ==> set_object_at(i) + 20 <= d.len()
}

/// The set file holds its object count and every field read of its objects.
pub open spec fn set_bin_in_range(d: Seq<u8>) -> bool {
    &&& 4 <= d.len()
    &&& forall|i: int| 0 <= i < be_u32(d, 0) ==> set_object_in_range(d, i)
}

/// The pieces of pool `pool` among the first `k` objects of a set file, in
/// file order.
pub open spec fn set_bin_pool(d: Seq<u8>, k: nat, pool: int) -> Seq<Emerald>
    decreases k,
{
    if k == 0 {
        Seq::empty()
    } else {
        let i = k - 1;
        let before = set_bin_pool(d, (k - 1) as nat, pool);
        if set_object_is_piece(d, i) && pool_of_major(d[set_object_at(i) + 2]) == pool {
            before.push(set_object_piece(d, i))
        } else {
            before
        }
    }
}

/// The number of draws before piece placement in a stage read from a set file.
pub const SET_BIN_PRE_CALLS: u32 = 136;

fn read_dump_pool(d: &[u8], address: usize, count: usize) -> (r: Vec<Emerald>)
    requires
        address + 16 * count <= d@.len(),
    ensures
        r@ == Seq::new(count as nat, |j: int| dump_piece(d@, address + 16 * j)),
{
    let mut pieces: Vec<Emerald> = Vec::new();
    let len = d.len();
    for j in 0..count
        invariant
            len == d@.len(),
            address + 16 * count <= d@.len(),
            pieces@ == Seq::new(j as nat, |k: int| dump_piece(d@, address + 16 * k)),
    {
        assert(16 * j + 16 <= 16 * count) by (nonlinear_arith)
            requires
                j < count,
        ;
        let at = address + 16 * j;
        let id = read_be_u16(d, at);
        let x = read_be_u32(d, at + 4);
        let y = read_be_u32(d, at + 8);
        let z = read_be_u32(d, at + 12);
        pieces.push(Emerald { id, position: Vector { x, y, z } });
        assert(pieces@ =~= Seq::new((j + 1) as nat, |k: int| dump_piece(d@, address + 16 * k)));
    }
    pieces
}

impl StageSpec {
    /// Every piece of the stage: slot 1, slot 2, slot 3, then enemy pieces.
    pub open spec fn all_pieces(&self) -> Seq<Emerald> {
        self.slot1_pieces@ + self.slot2_pieces@ + self.slot3_pieces@ + self.enemy_pieces@
    }

    /// The first piece with id `id`, searching the pools in the order of
    /// `all_pieces`.
    #[verifier::rlimit(40)]
    pub fn get_emerald_by_id(&self, id: u16) -> (r: Option<Emerald>)
        ensures
            match first_with_id(self.all_pieces(), id) {
                Some(k) => r == Some(self.all_pieces()[k]),
                None => r.is_none(),
            },
    {
        let ghost all = self.all_pieces();
        let n1 = self.slot1_pieces.len();
        let n2 = self.slot2_pieces.len();
        let n3 = self.slot3_pieces.len();
        let ghost n4 = self.enemy_pieces@.len();
        assert(all.len() == n1 + n2 + n3 + n4);
        match find_id(&self.slot1_pieces, id) {
            Some(k) => {
                proof {
                    assert(all[k as int] == self.slot1_pieces@[k as int]);
                    assert forall|j: int| 0 <= j < k implies all[j].id != id by {
                        assert(all[j] == self.slot1_pieces@[j]);
                    }
                    lemma_first_with_id(all, id, k as int);
                }
                return Some(self.slot1_pieces[k]);
            },
            None => {},
        }
        match find_id(&self.slot2_pieces, id) {
            Some(k) => {
                proof {
                    assert(all[n1 + k] == self.slot2_pieces@[k as int]);
                    assert forall|j: int| 0 <= j < n1 + k implies all[j].id != id by {
                        if j >= n1 {
                            assert(all[j] == self.slot2_pieces@[j - n1]);
                        } else {
                            assert(all[j] == self.slot1_pieces@[j]);
                        }
                    }
                    lemma_first_with_id(all, id, n1 + k);
                }
                return Some(self.slot2_pieces[k]);
            },
            None => {},
        }
        match find_id(&self.slot3_pieces, id) {
            Some(k) => {
                proof {
                    assert(all[n1 + n2 + k] == self.slot3_pieces@[k as int]);
                    assert forall|j: int| 0 <= j < n1 + n2 + k implies all[j].id != id by {
                        if j >= n1 + n2 {
                            assert(all[j] == self.slot3_pieces@[j - n1 - n2]);
                        } else if j >= n1 {
                            assert(all[j] == self.slot2_pieces@[j - n1]);
                        } else {
                            assert(all[j] == self.slot1_pieces@[j]);
                        }
                    }
                    lemma_first_with_id(all, id, n1 + n2 + k);
                }
                return Some(self.slot3_pieces[k]);
            },
            None => {},
        }
        match find_id(&self.enemy_pieces, id) {
            Some(k) => {
                proof {
                    assert(all[n1 + n2 + n3 + k] == self.enemy_pieces@[k as int]);
                    assert forall|j: int| 0 <= j < n1 + n2 + n3 + k implies all[j].id != id by {
                        if j >= n1 + n2 + n3 {
                            assert(all[j] == self.enemy_pieces@[j - n1 - n2 - n3]);
                        } else if j >= n1 + n2 {
                            assert(all[j] == self.slot3_pieces@[j - n1 - n2]);
                        } else if j >= n1 {
                            assert(all[j] == self.slot2_pieces@[j - n1]);
                        } else {
                            assert(all[j] == self.slot1_pieces@[j]);
                        }
                    }
                    lemma_first_with_id(all, id, n1 + n2 + n3 + k);
                }
                Some(self.enemy_pieces[k])
            },
            None => {
                proof {
                    assert forall|j: int| 0 <= j < all.len() implies all[j].id != id by {
                        if j >= n1 + n2 + n3 {
                            assert(all[j] == self.enemy_pieces@[j - n1 - n2 - n3]);
                        } else if j >= n1 + n2 {
                            assert(all[j] == self.slot3_pieces@[j - n1 - n2]);
                        } else if j >= n1 {
                            assert(all[j] == self.slot2_pieces@[j - n1]);
                        } else {
                            assert(all[j] == self.slot1_pieces@[j]);
                        }
                    }
                }
                None
            },
        }
    }
}

impl StageSpec {
    /// Reads a stage from a dump of the console's main memory: the four
    /// pools, and as `pre_calls` the number of draws from `SEED` to the
    /// generator state stored there. `None` when the dump is too short for a
    /// field, or no 32-bit count of draws reaches that state.
    pub fn from_ram_dump<P: Platform>(dump: &[u8]) -> (r: Option<StageSpec>)
        ensures
            match r {
                Some(spec) => {
                    &&& dump_in_range(dump@)
                    &&& spec.slot1_pieces@ == dump_pool(dump@, 0)
                    &&& spec.slot2_pieces@ == dump_pool(dump@, 1)
                    &&& spec.slot3_pieces@ == dump_pool(dump@, 2)
                    &&& spec.enemy_pieces@ == dump_pool(dump@, 3)
                    &&& lcg_iter::<P::Consts>(SEED, spec.pre_calls as nat) == be_u32(dump@, DUMP_RNG_STATE as int)
                    &&& forall|j: nat| j < spec.pre_calls ==> #[trigger] lcg_iter::<P::Consts>(SEED, j)
                        != be_u32(dump@, DUMP_RNG_STATE as int)
                },
                None => !dump_in_range(dump@) || forall|j: nat| j <= u32::MAX ==> #[trigger] lcg_iter::<
                    P::Consts,
                >(SEED, j) != be_u32(dump@, DUMP_RNG_STATE as int),
            },
    {
        if dump.len() < DUMP_COUNTS + 4 || dump.len() < DUMP_POOLS + 16 || dump.len() < DUMP_RNG_STATE + 4 {
            return None;
        }
        let mut pools: Vec<Vec<Emerald>> = Vec::new();
        for i in 0..4usize
            invariant
                DUMP_COUNTS + 4 <= dump@.len(),
                DUMP_POOLS + 16 <= dump@.len(),
                pools.len() == i,
                forall|k: int| 0 <= k < i ==> dump_address(dump@, k) + 16 * dump_count(dump@, k) <= dump@.len(),
                forall|k: int| 0 <= k < i ==> #[trigger] pools@[k]@ == dump_pool(dump@, k),
        {
            let count = dump[DUMP_COUNTS + i] as usize;
            let address = (read_be_u32(dump, DUMP_POOLS + 4 * i) ^ 0x8000_0000u32) as usize;
            if address > dump.len() || 16 * count > dump.len() - address {
                proof {
                    assert(address == dump_address(dump@, i as int));
                    assert(!(dump_address(dump@, i as int) + 16 * dump_count(dump@, i as int) <= dump@.len()));
                }
                return None;
            }
            pools.push(read_dump_pool(dump, address, count));
        }
        let state = read_be_u32(dump, DUMP_RNG_STATE);
        let pre_calls = match reverse_rng::<P>(state) {
            Some(k) => k,
            None => return None,
        };
        let enemy_pieces = pools.pop().unwrap();
        let slot3_pieces = pools.pop().unwrap();
        let slot2_pieces = pools.pop().unwrap();
        let slot1_pieces = pools.pop().unwrap();
        Some(StageSpec { slot1_pieces, slot2_pieces, slot3_pieces, enemy_pieces, pre_calls })
    }

    /// Reads a stage from a big-endian set file: a 32-bit object count, then
    /// from offset 0x20 one 0x20-byte record per object. Objects of kind 0x0F
    /// are pieces; their major id picks the pool. `pre_calls` is 136. `None`
    /// when the file is too short for a field that is read.
    pub fn from_set_bin(data: &[u8]) -> (r: Option<StageSpec>)
        ensures
            match r {
                Some(spec) => {
                    &&& set_bin_in_range(data@)
                    &&& spec.slot1_pieces@ == set_bin_pool(data@, be_u32(data@, 0) as nat, 1)
                    &&& spec.slot2_pieces@ == set_bin_pool(data@, be_u32(data@, 0) as nat, 2)
                    &&& spec.slot3_pieces@ == set_bin_pool(data@, be_u32(data@, 0) as nat, 3)
                    &&& spec.enemy_pieces@ == set_bin_pool(data@, be_u32(data@, 0) as nat, 4)
                    &&& spec.pre_calls == SET_BIN_PRE_CALLS
                },
                None => !set_bin_in_range(data@),
            },
    {
        if data.len() < 4 {
            return None;
        }
        let n_objects = read_be_u32(data, 0);
        let mut p1: Vec<Emerald> = Vec::new();
        let mut p2: Vec<Emerald> = Vec::new();
        let mut p3: Vec<Emerald> = Vec::new();
        let mut pe: Vec<Emerald> = Vec::new();
        let mut i: u32 = 0;
        while i < n_objects
            invariant
                4 <= data@.len(),
                n_objects == be_u32(data@, 0),
                i <= n_objects,
                forall|k: int| 0 <= k < i ==> set_object_in_range(data@, k),
                p1@ == set_bin_pool(data@, i as nat, 1),
                p2@ == set_bin_pool(data@, i as nat, 2),
                p3@ == set_bin_pool(data@, i as nat, 3),
                pe@ == set_bin_pool(data@, i as nat, 4),
            decreases n_objects - i,
        {
            let at64 = (i as u64 + 1) * 0x20;
            if at64 > data.len() as u64 || (data.len() as u64) - at64 < 2 {
                proof {
                    assert(!set_object_in_range(data@, i as int));
                }
                return None;
            }
            let at = at64 as usize;
            let object_id = read_be_u16(data, at);
            if object_id == 0x000F {
                if data.len() - at < 20 {
                    proof {
                        assert(!set_object_in_range(data@, i as int));
                    }
                    return None;
                }
                let major = data[at + 2];
                let piece = Emerald {
                    id: read_be_u16(data, at + 2),
                    position: Vector {
                        x: read_be_u32(data, at + 8),
                        y: read_be_u32(data, at + 12),
                        z: read_be_u32(data, at + 16),
                    },
                };
                if major == 0x0A {
                    pe.push(piece);
                } else if major == 4 || major == 7 || major == 8 {
                    p3.push(piece);
                } else if major == 0 || major == 2 || major == 5 {
                    p2.push(piece);
                } else if major == 1 || major == 3 {
                    p1.push(piece);
                }
            }
            i = i + 1;
        }
        Some(
            StageSpec {
                slot1_pieces: p1,
                slot2_pieces: p2,
                slot3_pieces: p3,
                enemy_pieces: pe,
                pre_calls: SET_BIN_PRE_CALLS,
            },
        )
    }
}

} // verus!
