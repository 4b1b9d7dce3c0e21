use sa2_piece_gen::stage_spec::{Emerald, StageSpec, DUMP_COUNTS, DUMP_POOLS, DUMP_RNG_STATE, SET_BIN_PRE_CALLS};
use sa2_piece_gen::vector::Vector;
use sa2_piece_gen::{Gc, Pc};

fn piece(id: u16, x: f32) -> Emerald {
    Emerald { id, position: Vector::new(x.to_bits(), 0, 0) }
}

fn stage() -> StageSpec {
    StageSpec {
        slot1_pieces: vec![piece(0x0100, 1.0), piece(0x0101, 2.0)],
        slot2_pieces: vec![piece(0x0001, 3.0), piece(0x0101, 4.0)],
        slot3_pieces: vec![piece(0x0400, 5.0)],
        enemy_pieces: vec![piece(0x0A03, 6.0), piece(0x0A03, 7.0)],
        pre_calls: 0,
    }
}

#[test]
fn get_emerald_by_id_finds_first_in_pool_order() {
    let s = stage();
    assert_eq!(f32::from_bits(s.get_emerald_by_id(0x0101).unwrap().position.x), 2.0);
    assert_eq!(f32::from_bits(s.get_emerald_by_id(0x0001).unwrap().position.x), 3.0);
    assert_eq!(f32::from_bits(s.get_emerald_by_id(0x0400).unwrap().position.x), 5.0);
    assert_eq!(f32::from_bits(s.get_emerald_by_id(0x0A03).unwrap().position.x), 6.0);
    assert!(s.get_emerald_by_id(0x0999).is_none());
}

#[test]
fn default_emerald_is_unset() {
    let e = Emerald::default();
    assert_eq!(e.id, 0xFF00);
    assert_eq!((e.position.x, e.position.y, e.position.z), (0, 0, 0));
}

fn put_u16(d: &mut [u8], at: usize, v: u16) {
    d[at..at + 2].copy_from_slice(&v.to_be_bytes());
}

fn put_u32(d: &mut [u8], at: usize, v: u32) {
    d[at..at + 4].copy_from_slice(&v.to_be_bytes());
}

fn set_object(d: &mut Vec<u8>, kind: u16, id: u16, x: f32, y: f32, z: f32) {
    let at = d.len();
    d.resize(at + 0x20, 0);
    put_u16(d, at, kind);
    put_u16(d, at + 2, id);
    put_u32(d, at + 8, x.to_bits());
    put_u32(d, at + 12, y.to_bits());
    put_u32(d, at + 16, z.to_bits());
}

fn set_bin() -> Vec<u8> {
    let mut d = vec![0u8; 0x20];
    put_u32(&mut d, 0, 7);
    set_object(&mut d, 0x0F, 0x0103, 1.0, 2.0, 3.0);
    set_object(&mut d, 0x0F, 0x0A02, 4.0, 5.0, 6.0);
    set_object(&mut d, 0x12, 0x0100, 0.0, 0.0, 0.0);
    set_object(&mut d, 0x0F, 0x0205, 7.0, 8.0, 9.0);
    set_object(&mut d, 0x0F, 0x0701, 1.5, 2.5, 3.5);
    set_object(&mut d, 0x0F, 0x0901, 0.0, 0.0, 0.0);
    set_object(&mut d, 0x0F, 0x0104, -1.0, -2.0, -3.0);
    d
}

#[test]
fn set_bin_sorts_pieces_into_pools() {
    let s = StageSpec::from_set_bin(&set_bin()).unwrap();
    let ids = |v: &Vec<Emerald>| v.iter().map(|e| e.id).collect::<Vec<u16>>();
    assert_eq!(ids(&s.slot1_pieces), vec![0x0103, 0x0104]);
    assert_eq!(ids(&s.slot2_pieces), vec![0x0205]);
    assert_eq!(ids(&s.slot3_pieces), vec![0x0701]);
    assert_eq!(ids(&s.enemy_pieces), vec![0x0A02]);
    assert_eq!(s.pre_calls, SET_BIN_PRE_CALLS);
    assert_eq!(s.pre_calls, 136);
    let p = s.slot3_pieces[0].position;
    assert_eq!((f32::from_bits(p.x), f32::from_bits(p.y), f32::from_bits(p.z)), (1.5, 2.5, 3.5));
}

#[test]
fn set_bin_too_short_is_refused() {
    let d = set_bin();
    assert!(StageSpec::from_set_bin(&d[..3]).is_none());
    // the last piece record is cut short
    assert!(StageSpec::from_set_bin(&d[..d.len() - 14]).is_none());
    let mut more = d.clone();
    put_u32(&mut more, 0, 8);
    assert!(StageSpec::from_set_bin(&more).is_none());
    let mut empty = vec![0u8; 4];
    put_u32(&mut empty, 0, 0);
    assert_eq!(StageSpec::from_set_bin(&empty).unwrap().slot1_pieces.len(), 0);
}

fn ram_dump(state: u32) -> Vec<u8> {
    let mut d = vec![0u8; DUMP_POOLS + 0x200];
    let base = DUMP_POOLS + 0x20;
    let counts = [2u8, 1, 1, 0];
    for (i, c) in counts.iter().enumerate() {
        d[DUMP_COUNTS + i] = *c;
        let address = (base + 0x40 * i) as u32 | 0x8000_0000;
        put_u32(&mut d, DUMP_POOLS + 4 * i, address);
    }
    let records: [(usize, u16, f32); 4] = [(0, 0x0100, 1.0), (0, 0x0101, 2.0), (1, 0x0003, 3.0), (2, 0x0800, 4.0)];
    let mut per_pool = [0usize; 4];
    for (pool, id, x) in records {
        let at = base + 0x40 * pool + 16 * per_pool[pool];
        per_pool[pool] += 1;
        put_u16(&mut d, at, id);
        put_u32(&mut d, at + 4, x.to_bits());
        put_u32(&mut d, at + 8, (x * 2.0).to_bits());
    }
    put_u32(&mut d, DUMP_RNG_STATE, state);
    d
}

#[test]
fn ram_dump_reads_pools_and_draw_count() {
    // the console generator after 136 draws from the seed
    let s = StageSpec::from_ram_dump::<Gc>(&ram_dump(0xD37635A3)).unwrap();
    let ids = |v: &Vec<Emerald>| v.iter().map(|e| e.id).collect::<Vec<u16>>();
    assert_eq!(ids(&s.slot1_pieces), vec![0x0100, 0x0101]);
    assert_eq!(ids(&s.slot2_pieces), vec![0x0003]);
    assert_eq!(ids(&s.slot3_pieces), vec![0x0800]);
    assert!(s.enemy_pieces.is_empty());
    assert_eq!(f32::from_bits(s.slot1_pieces[1].position.y), 4.0);
    assert_eq!(s.pre_calls, 136);
    let pc = StageSpec::from_ram_dump::<Pc>(&ram_dump(0x8C6C40E5)).unwrap();
    assert_eq!(pc.pre_calls, 138);
}

#[test]
fn ram_dump_out_of_range_is_refused() {
    let d = ram_dump(0xD37635A3);
    assert!(StageSpec::from_ram_dump::<Gc>(&d[..DUMP_POOLS]).is_none());
    let mut bad = d.clone();
    bad[DUMP_COUNTS] = 200;
    assert!(StageSpec::from_ram_dump::<Gc>(&bad).is_none());
}
