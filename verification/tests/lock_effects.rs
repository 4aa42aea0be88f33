use lifekit::lock::effects::{Effect, Effects, Flare, Tint, DIM_MS, FLARE_MS, WRONG_MS};
use lifekit::lock::life::Rng;
use lifekit::lock::sim::{Liveliness, Sim};

fn faces(rng: &mut Rng) -> Vec<Sim> {
    // 0.18 of the 53-bit draws, rounded up.
    let density_bits = 1_621_295_865_853_379;
    let rules = Liveliness { density_bits, min_live: 8, stale_hold: 12_000 };
    (0..3).map(|_| Sim::new(20, 20, rules, rng)).collect()
}

#[test]
fn flares_expire() {
    let mut e = Effects::new();
    e.key_flare(3, 0);
    e.backspace_flare(26, 100);
    assert_eq!(e.flares.len(), 2);
    assert_eq!(e.flares[0], Flare { panel: 3, tint: Tint::Accent, start: 0 });
    assert_eq!(e.flares[1], Flare { panel: 26, tint: Tint::Urgent, start: 100 });
    assert!(!e.expire(FLARE_MS + 200));
    assert!(e.flares.is_empty());
}

#[test]
fn flares_retire_one_by_one() {
    let mut e = Effects::new();
    e.key_flare(1, 0);
    e.key_flare(2, 500);
    e.expire(FLARE_MS);
    assert_eq!(e.flares, vec![Flare { panel: 2, tint: Tint::Accent, start: 500 }]);
    e.expire(500 + FLARE_MS - 1);
    assert_eq!(e.flares.len(), 1);
    e.expire(500 + FLARE_MS);
    assert!(e.flares.is_empty());
}

#[test]
fn wrong_kills_and_reseeds_after_flash() {
    let mut rng = Rng::from_seed(11);
    let mut fs = faces(&mut rng);
    let mut e = Effects::new();
    e.key_flare(5, 900);
    e.wrong(1000);
    for f in fs.iter_mut() {
        f.kill_all();
    }
    assert!(e.flares.is_empty());
    assert_eq!(fs.iter().map(|f| f.board.population()).sum::<usize>(), 0);
    assert!(!e.expire(1000 + WRONG_MS - 1));
    assert_eq!(e.effect, Some(Effect::Wrong { start: 1000 }));
    assert!(e.expire(1000 + WRONG_MS + 10));
    assert_eq!(e.effect, None);
    for f in fs.iter_mut() {
        f.reseed(&mut rng);
    }
    let pop: usize = fs.iter().map(|f| f.board.population()).sum();
    assert!(pop > 0, "faces must reseed after the wrong flash");
}

#[test]
fn dim_runs_its_course() {
    let mut e = Effects::new();
    e.clear_dim(50);
    assert!(!e.expire(50 + DIM_MS - 1));
    assert_eq!(e.effect, Some(Effect::Dim { start: 50 }));
    assert!(!e.expire(50 + DIM_MS));
    assert_eq!(e.effect, None);
}

#[test]
fn flash_reseeds_only_once() {
    let mut e = Effects::new();
    e.wrong(0);
    assert!(e.expire(WRONG_MS));
    assert!(!e.expire(WRONG_MS));
    assert!(!e.expire(10 * WRONG_MS));
}
