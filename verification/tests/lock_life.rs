use lifekit::lock::life::{Board, Change, Rng};

fn board_with(w: usize, h: usize, cells: &[(usize, usize)]) -> Board {
    let mut b = Board::new(w, h);
    for &(x, y) in cells {
        b.alive[y * w + x] = true;
    }
    b
}

fn alive_set(b: &Board) -> Vec<(usize, usize)> {
    let mut v: Vec<_> = (0..b.alive.len())
        .filter(|&i| b.alive[i])
        .map(|i| (i % b.w, i / b.w))
        .collect();
    v.sort();
    v
}

#[test]
fn blinker_oscillates() {
    let mut b = board_with(5, 5, &[(2, 1), (2, 2), (2, 3)]);
    b.step();
    assert_eq!(alive_set(&b), vec![(1, 2), (2, 2), (3, 2)]);
    b.step();
    assert_eq!(alive_set(&b), vec![(2, 1), (2, 2), (2, 3)]);
}

#[test]
fn block_is_still_and_lone_cell_dies() {
    let mut b = board_with(6, 6, &[(1, 1), (1, 2), (2, 1), (2, 2)]);
    b.step();
    assert_eq!(alive_set(&b), vec![(1, 1), (1, 2), (2, 1), (2, 2)]);
    let mut lone = board_with(5, 5, &[(2, 2)]);
    lone.step();
    assert!(alive_set(&lone).is_empty());
}

#[test]
fn torus_wraps_at_corner() {
    let mut b = board_with(9, 9, &[(0, 0), (8, 0), (0, 8)]);
    b.step();
    assert!(alive_set(&b).contains(&(8, 8)));
}

#[test]
fn rebirth_cancels_fade_and_death_starts_it() {
    let mut b = board_with(5, 5, &[(2, 1), (2, 2), (2, 3)]);
    let ch = b.step();
    let i = 5 + 2;
    assert!(!b.alive[i] && ch[i] == Change::Died);
    let ch = b.step();
    assert!(b.alive[i] && ch[i] == Change::Born);
    assert_eq!(ch[2 * 5 + 2], Change::Same);
}

#[test]
fn kill_all_starts_fades() {
    let mut b = board_with(4, 4, &[(0, 0), (1, 1), (2, 2)]);
    let ch = b.kill_all();
    assert_eq!(b.population(), 0);
    assert_eq!(ch.iter().filter(|c| **c == Change::Died).count(), 3);
}

#[test]
fn population_and_reseed() {
    let mut b = board_with(3, 2, &[(0, 0), (2, 1)]);
    assert_eq!(b.population(), 2);
    let keep = vec![true, true, false, false, false, false];
    let ch = b.reseed(&keep);
    assert_eq!(b.alive, keep);
    assert_eq!(
        ch,
        vec![Change::Same, Change::Born, Change::Same, Change::Same, Change::Same, Change::Died]
    );
}

#[test]
fn hash_is_fnv_over_live_indices() {
    let empty = Board::new(4, 4);
    assert_eq!(empty.hash(), 0xcbf29ce484222325);
    let b = board_with(4, 4, &[(1, 0), (3, 2)]);
    let mut h: u64 = 0xcbf29ce484222325;
    for i in [1u64, 11] {
        h = (h ^ i).wrapping_mul(0x100000001b3);
    }
    assert_eq!(b.hash(), h);
    let mut blinker = board_with(5, 5, &[(2, 1), (2, 2), (2, 3)]);
    let h0 = blinker.hash();
    blinker.step();
    assert_ne!(blinker.hash(), h0);
    blinker.step();
    assert_eq!(blinker.hash(), h0);
}

#[test]
fn rng_is_xorshift64_star() {
    let mut r = Rng::from_seed(2);
    let mut s: u64 = 3;
    for _ in 0..5 {
        s ^= s >> 12;
        s ^= s << 25;
        s ^= s >> 27;
        let want = s.wrapping_mul(0x2545F4914F6CDD1D) >> 11;
        assert_eq!(r.next_bits(), want);
    }
    let mut clock = Rng::new();
    assert!(clock.next_bits() < (1u64 << 53));
}
