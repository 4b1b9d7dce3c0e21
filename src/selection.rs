use vstd::prelude::*;
use vstd::arithmetic::power2::{pow2, lemma_pow2_unfold, lemma_pow2_pos};
use vstd::arithmetic::div_mod::{lemma_fundamental_div_mod, lemma_div_denominator, lemma_mod_pos_bound};

verus! {

/// How far a non-negative integer must be shifted right to leave 24
/// significant bits.
pub open spec fn sig_shift(m: nat) -> nat
    decreases m,
{
    if m < 0x100_0000 {
        0
    } else {
        1 + sig_shift(m / 2)
    }
}

/// `m` rounded to a multiple of `2^s`, to nearest, ties to the even multiple.
pub open spec fn round_at(m: nat, s: nat) -> nat {
    let u = pow2(s);
    let q = m / u;
    let r = m % u;
    if 2 * r > u || (2 * r == u && q % 2 == 1) {
        (q + 1) * u
    } else {
        q * u
    }
}

/// `m` rounded to 24 significant bits, to nearest, ties to even: what a
/// binary32 holds of a value that is `m` times a power of two.
pub open spec fn round24(m: nat) -> nat {
    round_at(m, sig_shift(m))
}

proof fn lemma_sig_shift_scale(m: nat)
    requires
        m >= 0x100_0000,
    ensures
        pow2(sig_shift(m)) * 0x80_0000 <= m,
    decreases m,
{
    let h = m / 2;
    assert(sig_shift(m) == 1 + sig_shift(h));
    lemma_pow2_unfold(sig_shift(m));
    if h < 0x100_0000 {
        assert(sig_shift(h) == 0);
        assert(pow2(0) == 1) by {
            vstd::arithmetic::power2::lemma2_to64();
        }
    } else {
        lemma_sig_shift_scale(h);
        assert(pow2(sig_shift(m)) == 2 * pow2(sig_shift(h)));
        assert(pow2(sig_shift(m)) * 0x80_0000 == 2 * (pow2(sig_shift(h)) * 0x80_0000))
            by (nonlinear_arith)
            requires
                pow2(sig_shift(m)) == 2 * pow2(sig_shift(h)),
        ;
    }
}

proof fn lemma_round_at_upper(m: nat, s: nat)
    ensures
        2 * round_at(m, s) <= 2 * m + pow2(s),
{
    let u = pow2(s);
    lemma_pow2_pos(s);
    lemma_fundamental_div_mod(m as int, u as int);
    lemma_mod_pos_bound(m as int, u as int);
    let q = m / u;
    let r = m % u;
    assert((q + 1) * u == q * u + u) by (nonlinear_arith);
}

/// Rounding to 24 significant bits moves a value up by at most one part in
/// `2^24`.
pub proof fn lemma_round24_upper(m: nat)
    ensures
        round24(m) * 0x100_0000 <= m * 0x100_0001,
{
    let s = sig_shift(m);
    lemma_round_at_upper(m, s);
    if m < 0x100_0000 {
        assert(pow2(0) == 1) by {
            vstd::arithmetic::power2::lemma2_to64();
        }
        lemma_fundamental_div_mod(m as int, 1);
    } else {
        lemma_sig_shift_scale(m);
        assert(round24(m) * 0x100_0000 <= m * 0x100_0001) by (nonlinear_arith)
            requires
                2 * round24(m) <= 2 * m + pow2(s),
                pow2(s) * 0x80_0000 <= m,
        ;
    }
}

/// Rounds `m` to 24 significant bits, to nearest, ties to even.
pub fn round24_exec(m: u64) -> (r: u64)
    requires
        m < 0x4000_0000_0000_0000,
    ensures
        r == round24(m as nat),
{
    let mut t: u64 = m;
    let mut u: u64 = 1;
    let ghost mut s: nat = 0;
    proof {
        assert(pow2(0) == 1) by {
            vstd::arithmetic::power2::lemma2_to64();
        }
    }
    while t >= 0x100_0000
        invariant
            u as nat == pow2(s),
            u >= 1,
            t == m as nat / u as nat,
            sig_shift(m as nat) == s + sig_shift(t as nat),
            u * t <= m,
            u <= 0x80_0000_0000,
            m < 0x4000_0000_0000_0000,
        decreases t,
    {
        proof {
            lemma_div_denominator(m as int, u as int, 2);
            lemma_pow2_unfold(s + 1);
            assert(u * 0x100_0000 <= u * t) by (nonlinear_arith)
                requires
                    t >= 0x100_0000,
            ;
            lemma_fundamental_div_mod(m as int, 2 * u as int);
            lemma_mod_pos_bound(m as int, 2 * u as int);
        }
        t = t / 2;
        u = u * 2;
        proof {
            s = s + 1;
        }
    }
    proof {
        lemma_fundamental_div_mod(m as int, u as int);
        lemma_mod_pos_bound(m as int, u as int);
        assert((t + 1) * u <= 0x100_0000 * u) by (nonlinear_arith)
            requires
                t < 0x100_0000,
        ;
    }
    let r = m - t * u;
    if 2 * r > u || (2 * r == u && t % 2 == 1) {
        (t + 1) * u
    } else {
        t * u
    }
}

/// The slot-1 index: `floor((draw / 32768) * n)`, every step in binary32.
/// `draw / 32768` and `n` are exact there, and the product is `draw * n`
/// rounded and scaled by `2^-15`.
pub open spec fn uniform_pick(draw: nat, n: nat) -> nat {
    round24(draw * n) / 0x8000
}

/// The slot-2 and slot-3 index: `floor(n - ((draw / 32768) * n) / 2)` in
/// binary32, less one where it reaches `n`. The halved product is the
/// rounded `draw * n` scaled by `2^-16`, so the difference is
/// `65536 * n - round24(draw * n)` rounded and scaled by `2^-16`.
pub open spec fn weighted_pick(draw: nat, n: nat) -> nat {
    let i = round24((0x10000 * n - round24(draw * n)) as nat) / 0x10000;
    if i >= n {
        (i - 1) as nat
    } else {
        i
    }
}

proof fn lemma_product_below(draw: nat, n: nat)
    requires
        draw < 0x8000,
        0 < n,
    ensures
        round24(draw * n) < 0x8000 * n,
{
    lemma_round24_upper(draw * n);
    assert(round24(draw * n) < 0x8000 * n) by (nonlinear_arith)
        requires
            round24(draw * n) * 0x100_0000 <= (draw * n) * 0x100_0001,
            draw < 0x8000,
            0 < n,
    ;
}

/// The slot-1 index is below the number of candidates.
pub proof fn lemma_uniform_pick_below(draw: nat, n: nat)
    requires
        draw < 0x8000,
        0 < n,
    ensures
        uniform_pick(draw, n) < n,
{
    lemma_product_below(draw, n);
}

/// The slot-2 and slot-3 index is below the number of candidates.
pub proof fn lemma_weighted_pick_below(draw: nat, n: nat)
    requires
        draw < 0x8000,
        0 < n < 0x100_0000,
    ensures
        weighted_pick(draw, n) < n,
{
    lemma_product_below(draw, n);
    let a = round24(draw * n);
    let x = (0x10000 * n - a) as nat;
    lemma_round24_upper(x);
    let c = round24(x);
    assert(c < 0x10000 * (n + 1)) by (nonlinear_arith)
        requires
            c * 0x100_0000 <= x * 0x100_0001,
            x <= 0x10000 * n,
            n < 0x100_0000,
    ;
}

/// The index that a 15-bit draw picks, uniformly, among `n` candidates.
pub fn uniform_index(draw: u32, n: usize) -> (i: usize)
    requires
        draw < 0x8000,
        0 < n < 0x100_0000,
    ensures
        i == uniform_pick(draw as nat, n as nat),
        i < n,
{
    proof {
        lemma_product_below(draw as nat, n as nat);
        assert(draw * n < 0x80_0000_0000) by (nonlinear_arith)
            requires
                draw < 0x8000,
                n < 0x100_0000,
        ;
    }
    let a = round24_exec(draw as u64 * n as u64);
    (a / 0x8000) as usize
}

/// The index that a 15-bit draw picks among `n` candidates, weighted twice
/// as heavily toward the end of the list.
pub fn weighted_index(draw: u32, n: usize) -> (i: usize)
    requires
        draw < 0x8000,
        0 < n < 0x100_0000,
    ensures
        i == weighted_pick(draw as nat, n as nat),
        i < n,
{
    proof {
        lemma_product_below(draw as nat, n as nat);
        assert(draw * n < 0x80_0000_0000) by (nonlinear_arith)
            requires
                draw < 0x8000,
                n < 0x100_0000,
        ;
    }
    let a = round24_exec(draw as u64 * n as u64);
    let x = 0x10000 * n as u64 - a;
    let c = round24_exec(x);
    proof {
        lemma_round24_upper(x as nat);
        assert(c < 0x10000 * (n + 1)) by (nonlinear_arith)
            requires
                c * 0x100_0000 <= x * 0x100_0001,
                x <= 0x10000 * n,
                n < 0x100_0000,
        ;
    }
    let i = (c / 0x10000) as usize;
    if i >= n {
        i - 1
    } else {
        i
    }
}

/// Where the binary32 value with bit pattern `bits` stands among all
/// binary32 values: numbers by their value, both zeros together, and every NaN
/// after positive infinity.
pub open spec fn f32_rank(bits: u32) -> int {
    let magnitude = bits % 0x8000_0000;
    if magnitude > 0x7F80_0000 {
        0x7F80_0001
    } else if bits >= 0x8000_0000 {
        -magnitude
    } else {
        magnitude as int
    }
}

/// Candidate `a` comes before candidate `b` when sorting stably by `keys`:
/// by the key, then by the position in the input.
pub open spec fn stably_before(keys: Seq<u32>, a: int, b: int) -> bool {
    f32_rank(keys[a]) < f32_rank(keys[b]) || (f32_rank(keys[a]) == f32_rank(keys[b]) && a < b)
}

/// `order` lists the positions of `keys` in ascending key order, equal keys
/// in their input order.
pub open spec fn is_stable_order(keys: Seq<u32>, order: Seq<usize>) -> bool {
    &&& order.len() == keys.len()
    &&& forall|p: int| 0 <= p < order.len() ==> #[trigger] order[p] < keys.len()
    &&& forall|k: int| 0 <= k < keys.len() ==> #[trigger] order.contains(k as usize)
    &&& forall|p: int, q: int|
        0 <= p < q < order.len() ==> stably_before(keys, #[trigger] order[p] as int, #[trigger] order[q] as int)
}

/// The positions of `keys` in stable ascending key order.
pub open spec fn stable_order(keys: Seq<u32>) -> Seq<usize> {
    choose|order: Seq<usize>| is_stable_order(keys, order)
}

proof fn lemma_stable_order_agree(keys: Seq<u32>, o1: Seq<usize>, o2: Seq<usize>, k: int)
    requires
        is_stable_order(keys, o1),
        is_stable_order(keys, o2),
        0 <= k <= keys.len(),
    ensures
        forall|p: int| 0 <= p < k ==> o1[p] == o2[p],
    decreases k,
{
    if k > 0 {
        lemma_stable_order_agree(keys, o1, o2, k - 1);
        let j = k - 1;
        let a = o1[j];
        let b = o2[j];
        if a != b {
            assert(o1[j] < keys.len() && o2[j] < keys.len());
            assert(o2.contains((a as int) as usize));
            let qa = choose|q: int| 0 <= q < o2.len() && o2[q] == a;
            assert(o1.contains((b as int) as usize));
            let qb = choose|q: int| 0 <= q < o1.len() && o1[q] == b;
            if qa < j {
                assert(o1[qa] == a);
                assert(stably_before(keys, o1[qa] as int, o1[j] as int));
            }
            if qb < j {
                assert(o2[qb] == b);
                assert(stably_before(keys, o2[qb] as int, o2[j] as int));
            }
            assert(stably_before(keys, o2[j] as int, o2[qa] as int));
            assert(stably_before(keys, o1[j] as int, o1[qb] as int));
        }
    }
}

/// A stable order is unique: any two of the same keys are equal.
pub proof fn lemma_stable_order_unique(keys: Seq<u32>, o1: Seq<usize>, o2: Seq<usize>)
    requires
        is_stable_order(keys, o1),
        is_stable_order(keys, o2),
    ensures
        o1 == o2,
{
    lemma_stable_order_agree(keys, o1, o2, keys.len() as int);
    assert(o1 =~= o2);
}

/// Candidates with equal keys keep their input order in the stable order.
pub proof fn lemma_stable_order_keeps_ties(keys: Seq<u32>, order: Seq<usize>, p: int, q: int)
    requires
        is_stable_order(keys, order),
        0 <= p < order.len(),
        0 <= q < order.len(),
        f32_rank(keys[order[p] as int]) == f32_rank(keys[order[q] as int]),
        order[p] < order[q],
    ensures
        p < q,
{
    if q < p {
        assert(stably_before(keys, order[q] as int, order[p] as int));
    }
    if q == p {
        assert(order[p] == order[q]);
    }
}

/// The rank of a binary32 bit pattern, as `f32_rank` states it.
pub fn f32_rank_exec(bits: u32) -> (r: i64)
    ensures
        r == f32_rank(bits),
{
    let magnitude = bits % 0x8000_0000;
    if magnitude > 0x7F80_0000 {
        0x7F80_0001
    } else if bits >= 0x8000_0000 {
        -(magnitude as i64)
    } else {
        magnitude as i64
    }
}

/// Sorts the positions of `keys` stably by their binary32 keys.
pub fn stable_order_of(keys: &Vec<u32>) -> (order: Vec<usize>)
    ensures
        is_stable_order(keys@, order@),
        order@ == stable_order(keys@),
{
    let n = keys.len();
    let mut ranks: Vec<i64> = Vec::new();
    for k in 0..n
        invariant
            n == keys.len(),
            ranks.len() == k,
            forall|j: int| 0 <= j < k ==> ranks[j] == f32_rank(#[trigger] keys@[j]),
    {
        ranks.push(f32_rank_exec(keys[k]));
    }
    let mut order: Vec<usize> = Vec::new();
    for i in 0..n
        invariant
            n == keys.len(),
            ranks.len() == n,
            forall|j: int| 0 <= j < n ==> ranks[j] == f32_rank(#[trigger] keys@[j]),
            order.len() == i,
            forall|p: int| 0 <= p < order.len() ==> #[trigger] order[p] < i,
            forall|k: int| 0 <= k < i ==> #[trigger] order@.contains(k as usize),
            forall|p: int, q: int|
                0 <= p < q < order.len() ==> stably_before(keys@, #[trigger] order[p] as int, #[trigger] order[q] as int),
    {
        let ri = ranks[i];
        let mut pos: usize = 0;
        while pos < order.len() && ranks[order[pos]] <= ri
            invariant
                n == keys.len(),
                ranks.len() == n,
                forall|j: int| 0 <= j < n ==> ranks[j] == f32_rank(#[trigger] keys@[j]),
                order.len() == i,
                i < n,
                pos <= order.len(),
                forall|p: int| 0 <= p < order.len() ==> #[trigger] order[p] < i,
                forall|p: int| 0 <= p < pos ==> ranks[#[trigger] order[p] as int] <= ri,
            decreases order.len() - pos,
        {
            pos = pos + 1;
        }
        let ghost old_order = order@;
        proof {
            assert forall|q: int| pos <= q < old_order.len() implies ranks[#[trigger] old_order[q] as int] > ri by {
                if q > pos {
                    assert(stably_before(keys@, old_order[pos as int] as int, old_order[q] as int));
                }
            }
        }
        order.insert(pos, i);
        proof {
            assert forall|k: int| 0 <= k < i + 1 implies #[trigger] order@.contains(k as usize) by {
                if k == i {
                    assert(order@[pos as int] == i);
                } else {
                    assert(old_order.contains(k as usize));
                    let w = choose|w: int| 0 <= w < old_order.len() && old_order[w] == k as usize;
                    if w < pos {
                        assert(order@[w] == k);
                    } else {
                        assert(order@[w + 1] == k);
                    }
                }
            }
            assert forall|p: int, q: int| 0 <= p < q < order.len() implies stably_before(
                keys@,
                #[trigger] order[p] as int,
                #[trigger] order[q] as int,
            ) by {
                if q < pos {
                    assert(order[p] == old_order[p] && order[q] == old_order[q]);
                } else if q == pos {
                    assert(order[p] == old_order[p]);
                } else if p == pos {
                    assert(order[q] == old_order[q - 1]);
                } else if p < pos {
                    assert(order[p] == old_order[p] && order[q] == old_order[q - 1]);
                } else {
                    assert(order[p] == old_order[p - 1] && order[q] == old_order[q - 1]);
                }
            }
        }
    }
    proof {
        assert forall|p: int| 0 <= p < order.len() implies #[trigger] order@[p] < keys@.len() by {
        }
        assert(is_stable_order(keys@, order@));
        lemma_stable_order_unique(keys@, order@, stable_order(keys@));
    }
    order
}

} // verus!
