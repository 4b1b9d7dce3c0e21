use sa2_piece_gen::rng::{reverse_rng, GcRng, PcRng, Rng, RngIterator, SEED};
use sa2_piece_gen::{Gc, Pc};

#[test]
fn desktop_draws_from_seed() {
    let mut r = Rng::new(SEED);
    assert_eq!(r.get_state(), 0xDEAD0CAB);
    assert_eq!(r.gen_val::<PcRng>(), 0x017D);
    assert_eq!(r.get_state(), 0x817DE4C2);
    assert_eq!(r.gen_val::<PcRng>(), 0x1AB6);
    assert_eq!(r.get_state(), 0x9AB6787D);
    assert_eq!(r.gen_val::<PcRng>(), 0x117B);
}

#[test]
fn console_draws_from_seed() {
    let mut r = Rng::new(SEED);
    assert_eq!(r.gen_val::<GcRng>(), 0x40CC);
    assert_eq!(r.get_state(), 0xC0CCAF08);
    assert_eq!(r.gen_val::<GcRng>(), 0x5CAB);
    assert_eq!(r.gen_val::<GcRng>(), 0x5C2A);
    assert_eq!(r.get_state(), 0xDC2AB0C6);
}

#[test]
fn recurrence_matches_generator() {
    let mut r = Rng::new(SEED);
    let mut s: u32 = SEED;
    for _ in 0..1000 {
        let v = r.gen_val::<PcRng>();
        s = s.wrapping_mul(0x000343FD).wrapping_add(0x00269EC3);
        assert_eq!(r.get_state(), s);
        assert_eq!(v, (s >> 16) & 0x7FFF);
    }
}

#[test]
fn independent_generators_agree() {
    let mut a = Rng::new(SEED);
    let mut b = Rng::new(SEED);
    for _ in 0..500 {
        assert_eq!(a.gen_val::<PcRng>(), b.gen_val::<PcRng>());
        assert_eq!(a.get_state(), b.get_state());
    }
}

#[test]
fn seeded_after_calls() {
    assert_eq!(Rng::from_seed_after::<PcRng>(138).get_state(), 0x8C6C40E5);
    assert_eq!(Rng::from_seed_after::<GcRng>(136).get_state(), 0xD37635A3);
    assert_eq!(Rng::from_seed_after::<PcRng>(0).get_state(), SEED);
}

#[test]
fn reverse_rng_counts_draws() {
    assert_eq!(reverse_rng::<Pc>(SEED), Some(0));
    assert_eq!(reverse_rng::<Pc>(0x9AB6787D), Some(2));
    assert_eq!(reverse_rng::<Pc>(0x8C6C40E5), Some(138));
    assert_eq!(reverse_rng::<Gc>(0xD37635A3), Some(136));
}

#[test]
fn rng_iterator_hands_out_consecutive_states() {
    let mut it: RngIterator<Pc> = RngIterator::new(1);
    assert_eq!(it.next().get_state(), 0x817DE4C2);
    assert_eq!(it.next().get_state(), 0x9AB6787D);
    assert_eq!(it.next().get_state(), 0x117B694C);
}
