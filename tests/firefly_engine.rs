use meta_heuristics::candidate::Candidate;
use meta_heuristics::firefly::{Firefly, FireflyAlg};
use meta_heuristics::ConfigError;

fn flies(positions: &[f64]) -> Vec<Fly> {
    positions.iter().map(|&pos| Fly { pos }).collect()
}

fn eval_func(x: f64) -> f64 {
    1.0 - ((x - 3.0) * x + 2.0) * x * x
}

#[derive(Clone, Copy, Debug, PartialEq)]
struct Fly {
    pos: f64,
}

impl Candidate for Fly {
    type Pos = f64;
    type Eval = f64;
    type Scalar = f64;

    fn objective(p: f64) -> f64 {
        eval_func(p)
    }

    fn better(a: f64, b: f64) -> bool {
        a > b
    }

    fn sum(a: f64, b: f64) -> f64 {
        a + b
    }

    fn difference(a: f64, b: f64) -> f64 {
        a - b
    }

    fn scaling(p: f64, k: f64) -> f64 {
        p * k
    }

    fn lemma_better_irreflexive(_e: f64) {}

    fn exceeds(a: &f64, b: &f64) -> bool {
        a > b
    }

    fn plus(a: f64, b: f64) -> f64 {
        a + b
    }

    fn minus(a: f64, b: f64) -> f64 {
        a - b
    }

    fn scale(p: f64, k: f64) -> f64 {
        p * k
    }
}

impl Firefly for Fly {
    fn pos_of(self) -> f64 {
        self.pos
    }

    fn dist(a: Self, b: Self) -> f64 {
        (a.pos - b.pos).abs()
    }

    fn product(a: f64, b: f64) -> f64 {
        a * b
    }

    fn negation(a: f64) -> f64 {
        -a
    }

    fn exponential(a: f64) -> f64 {
        a.exp()
    }

    fn times(a: f64, b: f64) -> f64 {
        a * b
    }

    fn negate(a: f64) -> f64 {
        -a
    }

    fn exp(a: f64) -> f64 {
        a.exp()
    }

    fn new_random() -> Self {
        Fly { pos: 4.0 * rand::random::<f64>() - 1.5 }
    }

    fn eval(&self) -> f64 {
        eval_func(self.pos)
    }

    fn distance(&self, rhs: &Self) -> f64 {
        (self.pos - rhs.pos).abs()
    }

    fn pos(&self) -> f64 {
        self.pos
    }

    fn pos_mut(&mut self) -> &mut f64 {
        &mut self.pos
    }
}

/// The position that `from` takes when pulled toward `to`.
fn pulled(from: f64, to: f64, beta: f64, absorption: f64) -> f64 {
    let d = (from - to).abs();
    let attractiveness = beta * (-absorption * (d * d)).exp();
    from + (to - from) * attractiveness
}

#[test]
fn firefly_rejects_empty_population() {
    let r: Result<FireflyAlg<Fly>, ConfigError> = FireflyAlg::new(0, 0.5, 0.2);
    assert!(matches!(r, Err(ConfigError::EmptyPopulation)));
}

#[test]
fn firefly_rejects_empty_candidate_list() {
    let r: Result<FireflyAlg<Fly>, ConfigError> = FireflyAlg::from_fireflies(Vec::new(), 0.5, 0.2);
    assert!(matches!(r, Err(ConfigError::EmptyPopulation)));
}

#[test]
fn firefly_from_fireflies_keeps_order() {
    let ff: FireflyAlg<Fly> = FireflyAlg::from_fireflies(flies(&[0.6, -1.0, 2.0]), 0.5, 0.2).unwrap();
    let got: Vec<(f64, f64)> = ff.fireflies().iter().map(|f| (f.0.pos, f.1)).collect();
    assert_eq!(got, vec![(0.6, eval_func(0.6)), (-1.0, eval_func(-1.0)), (2.0, eval_func(2.0))]);
}

#[test]
fn firefly_new_caches_evaluations() {
    let ff: FireflyAlg<Fly> = FireflyAlg::new(16, 0.5, 0.2).unwrap();
    assert_eq!(ff.fireflies().len(), 16);
    for (f, e) in ff.fireflies() {
        assert_eq!(*e, eval_func(f.pos));
    }
}

#[test]
fn firefly_single_candidate_is_unchanged() {
    for &(beta, absorption) in &[(0.5, 0.2), (1.0, 0.0), (3.0, 10.0), (-2.0, -1.0)] {
        let mut ff: FireflyAlg<Fly> = FireflyAlg::new(1, beta, absorption).unwrap();
        let before = ff.fireflies().clone();
        ff.update();
        ff.update();
        assert_eq!(ff.fireflies(), &before);
    }
}

#[test]
fn firefly_last_brighter_wins() {
    // eval_func is increasing on [0.6, 1.5]: candidate 0 is the dimmest, 2 the brightest.
    let (beta, absorption) = (0.5, 0.2);
    let mut ff: FireflyAlg<Fly> = FireflyAlg::from_fireflies(flies(&[0.6, 1.0, 1.5]), beta, absorption).unwrap();
    let e: Vec<f64> = ff.fireflies().iter().map(|f| f.1).collect();
    assert!(e[1] > e[0] && e[2] > e[0] && e[2] > e[1]);
    ff.update();
    let after = ff.fireflies();
    let expected0 = pulled(0.6, 1.5, beta, absorption);
    assert_eq!(after[0].0.pos, expected0);
    assert_eq!(after[0].1, eval_func(expected0));
    let blended = pulled(pulled(0.6, 1.0, beta, absorption), 1.5, beta, absorption);
    assert_ne!(after[0].0.pos, blended);
    let expected1 = pulled(1.0, 1.5, beta, absorption);
    assert_eq!(after[1].0.pos, expected1);
    assert_eq!(after[1].1, eval_func(expected1));
    assert_eq!(after[2].0.pos, 1.5);
    assert_eq!(after[2].1, eval_func(1.5));
}

#[test]
fn firefly_pull_uses_positions_before_the_sweep() {
    // Candidate 2 moves toward 1 in the same sweep; candidate 0 is pulled toward
    // candidate 2's position from before the sweep.
    let (beta, absorption) = (1.0, 1.0);
    let mut ff: FireflyAlg<Fly> = FireflyAlg::from_fireflies(flies(&[0.6, 1.5, 1.0]), beta, absorption).unwrap();
    ff.update();
    let after = ff.fireflies();
    // Both 1 and 2 are brighter than 0; 2 is the last one scanned.
    assert_eq!(after[0].0.pos, pulled(0.6, 1.0, beta, absorption));
    // Nothing is brighter than 1.
    assert_eq!(after[1].0.pos, 1.5);
    assert_eq!(after[2].0.pos, pulled(1.0, 1.5, beta, absorption));
}

#[test]
fn firefly_zero_beta_keeps_positions() {
    let mut ff: FireflyAlg<Fly> = FireflyAlg::from_fireflies(flies(&[0.6, 1.0, 1.5, 1.6]), 0.0, 0.2).unwrap();
    ff.update();
    let pos: Vec<f64> = ff.fireflies().iter().map(|f| f.0.pos).collect();
    assert_eq!(pos, vec![0.6, 1.0, 1.5, 1.6]);
}
