use lifekit::lock::life::{Change, Rng};
use lifekit::lock::sim::{soup, Liveliness, Sim};

const ALL: u64 = 1 << 53;

fn rules(density_bits: u64, min_live: usize, stale_hold: u64) -> Liveliness {
    Liveliness { density_bits, min_live, stale_hold }
}

/// An empty 5×5 board with a vertical blinker in the middle.
fn blinker_sim(stale_hold: u64) -> (Sim, Rng) {
    let mut rng = Rng::from_seed(7);
    let mut sim = Sim::new(5, 5, rules(0, 0, stale_hold), &mut rng);
    for &(x, y) in &[(2usize, 1usize), (2, 2), (2, 3)] {
        sim.board.alive[y * 5 + x] = true;
    }
    (sim, rng)
}

#[test]
fn soup_density_extremes() {
    let mut rng = Rng::from_seed(42);
    assert_eq!(soup(&mut rng, 6, 0), vec![false; 6]);
    assert_eq!(soup(&mut rng, 6, ALL), vec![true; 6]);
}

#[test]
fn new_sim_is_seeded_at_generation_zero() {
    let mut rng = Rng::from_seed(3);
    let sim = Sim::new(4, 3, rules(ALL, 0, 10), &mut rng);
    assert_eq!(sim.gen, 0);
    assert_eq!(sim.board.population(), 12);
    assert_eq!(sim.stale_since, None);
}

#[test]
fn advance_steps_each_crossed_generation() {
    let (mut sim, mut rng) = blinker_sim(1000);
    let out = sim.advance(2, true, 0, &mut rng);
    assert_eq!(out.len(), 2);
    assert_eq!((out[0].gen, out[1].gen), (1, 2));
    assert_eq!(sim.gen, 2);
    // Back where it started: the vertical blinker.
    assert!(sim.board.alive[1 * 5 + 2] && sim.board.alive[3 * 5 + 2]);
    assert_eq!(out[0].changes.iter().filter(|c| **c == Change::Born).count(), 2);
    assert_eq!(out[0].changes.iter().filter(|c| **c == Change::Died).count(), 2);
}

#[test]
fn advance_behind_the_clock_does_nothing() {
    let (mut sim, mut rng) = blinker_sim(1000);
    sim.advance(2, false, 0, &mut rng);
    let out = sim.advance(2, true, 5, &mut rng);
    assert!(out.is_empty());
    assert_eq!(sim.gen, 2);
}

#[test]
fn repeating_board_is_reseeded_after_the_hold() {
    let (mut sim, mut rng) = blinker_sim(1000);
    sim.advance(2, false, 0, &mut rng);
    // Generation 3 repeats generation 1: the repeat clock starts.
    let out = sim.advance(3, false, 10, &mut rng);
    assert_eq!(out.len(), 1);
    assert_eq!(sim.stale_since, Some(10));
    assert_eq!(sim.board.population(), 3);
    // Still repeating a hold later: stepped, then reseeded (to nothing).
    let out = sim.advance(4, false, 1010, &mut rng);
    assert_eq!(out.len(), 2);
    assert_eq!((out[0].gen, out[1].gen), (4, 4));
    assert_eq!(out[1].changes.iter().filter(|c| **c == Change::Died).count(), 3);
    assert_eq!(sim.board.population(), 0);
    assert_eq!(sim.stale_since, None);
}

#[test]
fn repeat_before_the_hold_keeps_the_board() {
    let (mut sim, mut rng) = blinker_sim(1000);
    sim.advance(3, false, 10, &mut rng);
    let out = sim.advance(4, false, 1009, &mut rng);
    assert_eq!(out.len(), 1);
    assert_eq!(sim.board.population(), 3);
    assert_eq!(sim.stale_since, Some(10));
}

#[test]
fn thin_board_is_reseeded() {
    let mut rng = Rng::from_seed(9);
    let mut sim = Sim::new(4, 4, rules(0, 1, 1000), &mut rng);
    let out = sim.advance(1, false, 0, &mut rng);
    // Stepped (nothing changed), then reseeded because nothing lives.
    assert_eq!(out.len(), 2);
    assert_eq!(out[1].changes, vec![Change::Same; 16]);
}

#[test]
fn long_stall_resyncs_instead_of_racing() {
    let (mut sim, mut rng) = blinker_sim(1000);
    let out = sim.advance(10, false, 0, &mut rng);
    assert!(out.is_empty());
    assert_eq!(sim.gen, 10);
}

#[test]
fn four_behind_resyncs_only_past_the_boundary() {
    let (mut sim, mut rng) = blinker_sim(1000);
    let out = sim.advance(4, false, 0, &mut rng);
    assert_eq!(out.len(), 4);
    let (mut sim, mut rng) = blinker_sim(1000);
    let out = sim.advance(4, true, 0, &mut rng);
    assert!(out.is_empty());
    assert_eq!(sim.gen, 4);
}

#[test]
fn kill_all_reports_each_death() {
    let (mut sim, _) = blinker_sim(1000);
    let ch = sim.kill_all();
    assert_eq!(ch.iter().filter(|c| **c == Change::Died).count(), 3);
    assert_eq!(sim.board.population(), 0);
}

#[test]
fn reseed_clears_the_repeat_clock() {
    let (mut sim, mut rng) = blinker_sim(1000);
    sim.advance(3, false, 10, &mut rng);
    assert_eq!(sim.stale_since, Some(10));
    let ch = sim.reseed(&mut rng);
    assert_eq!(ch.iter().filter(|c| **c == Change::Died).count(), 3);
    assert_eq!(sim.stale_since, None);
}
