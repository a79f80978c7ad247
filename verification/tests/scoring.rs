use keyboard_layout_generator::best_grid;
use keyboard_layout_generator::evolve;
use keyboard_layout_generator::intuition::and;
use keyboard_layout_generator::intuition::are_symmetric;
use keyboard_layout_generator::intuition::close;
use keyboard_layout_generator::intuition::intuition_score;
use keyboard_layout_generator::intuition::intuitions_present;
use keyboard_layout_generator::intuition::left_of;
use keyboard_layout_generator::intuition::or;
use keyboard_layout_generator::intuition::same_row;
use keyboard_layout_generator::intuition::symmetric;
use keyboard_layout_generator::intuitions;
use keyboard_layout_generator::keys::default_shifted;
use keyboard_layout_generator::score::consecutive_finger_score;
use keyboard_layout_generator::score::distance;
use keyboard_layout_generator::score::layout_consecutive_key_score;
use keyboard_layout_generator::score::layout_individual_key_score;
use keyboard_layout_generator::score::layout_score;
use keyboard_layout_generator::score::max_possible_score;
use keyboard_layout_generator::score::SCALE;
use keyboard_layout_generator::Annealer;
use keyboard_layout_generator::Finger;
use keyboard_layout_generator::FingerConfig;
use keyboard_layout_generator::FingerKind;
use keyboard_layout_generator::Hand;
use keyboard_layout_generator::Intuition;
use keyboard_layout_generator::Key;
use keyboard_layout_generator::KeyCode;
use keyboard_layout_generator::KeymapConfig;
use keyboard_layout_generator::Layout;
use keyboard_layout_generator::PhysicalKey;
use keyboard_layout_generator::PhysicalKeyboard;
use keyboard_layout_generator::Stats;

fn finger(hand: Hand, kind: FingerKind) -> Finger {
    Finger { hand, finger: kind }
}

fn left_index() -> Finger {
    finger(Hand::Left, FingerKind::Index)
}

fn slot(code: KeyCode, f: Finger, score: u32, x: u16, y: u16) -> PhysicalKey {
    PhysicalKey { code, finger: f, score, position: (x, y) }
}

fn key(c: char) -> Key {
    Key::Normal { normal: c, shifted: default_shifted(c) }
}

/// A two-slot keyboard: physically identical slots side by side, one
/// finger, full ease.
fn twin_slot_config() -> KeymapConfig {
    let mut keys = PhysicalKeyboard::new();
    keys.add_key(slot(KeyCode::A, left_index(), 100, 0, 0));
    keys.add_key(slot(KeyCode::B, left_index(), 100, 1, 0));
    KeymapConfig { fingers: vec![FingerConfig { finger: left_index(), score: 100 }], keys }
}

fn grid_2x2_config() -> KeymapConfig {
    let mut keys = PhysicalKeyboard::new();
    keys.add_key(slot(KeyCode::A, left_index(), 100, 0, 0));
    keys.add_key(slot(KeyCode::B, left_index(), 100, 1, 0));
    keys.add_key(slot(KeyCode::C, left_index(), 100, 0, 1));
    keys.add_key(slot(KeyCode::D, left_index(), 100, 1, 1));
    KeymapConfig { fingers: vec![FingerConfig { finger: left_index(), score: 100 }], keys }
}

fn twin_stats() -> Stats {
    let mut stats = Stats::new();
    stats.set_individual_count(KeyCode::A, 10);
    stats.set_individual_count(KeyCode::B, 1);
    stats.set_consecutive_count(KeyCode::A, KeyCode::B, 5);
    stats
}

#[test]
fn transition_cost_is_one_point_at_zero_distance() {
    for f in Finger::all() {
        assert_eq!(consecutive_finger_score(f, f, 0), SCALE);
    }
}

#[test]
fn transition_cost_is_one_point_across_hands() {
    let li = left_index();
    let ri = finger(Hand::Right, FingerKind::Index);
    let lp = finger(Hand::Left, FingerKind::Pinky);
    let rt = finger(Hand::Right, FingerKind::Thumb);
    assert_eq!(consecutive_finger_score(li, ri, 5000), SCALE);
    assert_eq!(consecutive_finger_score(lp, rt, 92_682_000), SCALE);
    assert_eq!(consecutive_finger_score(ri, lp, 1), SCALE);
}

#[test]
fn transition_cost_formula_values() {
    // same finger (index), one cell apart: synergy 0.3, fully
    // distance-bound, distance score 1/2 -> 0.15 of a point
    let li = left_index();
    assert_eq!(consecutive_finger_score(li, li, 1000), 150_000);
    // pinky then ring of one hand, two cells apart: synergy 0.2,
    // importance 0.9, distance score 0.1 + 0.9/3 = 0.4 -> 0.08 of a point
    let lp = finger(Hand::Left, FingerKind::Pinky);
    let lr = finger(Hand::Left, FingerKind::Ring);
    assert_eq!(consecutive_finger_score(lp, lr, 2000), 80_000);
}

#[test]
fn distance_is_scaled_euclidean() {
    let a = slot(KeyCode::A, left_index(), 100, 0, 0);
    let b = slot(KeyCode::B, left_index(), 100, 3, 4);
    assert_eq!(distance(&a, &b), 5000);
    assert_eq!(distance(&a, &a), 0);
    let c = slot(KeyCode::C, left_index(), 100, 1, 1);
    // sqrt(2) in thousandths, rounded down
    assert_eq!(distance(&a, &c), 1414);
}

#[test]
fn raising_a_bigram_count_raises_only_the_bigram_score() {
    let config = grid_2x2_config();
    let layout = Layout::new(vec![key('a'), key('b'), key('c'), key('d')]);
    let mut stats_low = Stats::new();
    stats_low.set_individual_count(KeyCode::A, 4);
    stats_low.set_consecutive_count(KeyCode::A, KeyCode::B, 2);
    let mut stats_high = Stats::new();
    stats_high.set_individual_count(KeyCode::A, 4);
    stats_high.set_consecutive_count(KeyCode::A, KeyCode::B, 3);

    let big_low = layout_consecutive_key_score(&layout, &stats_low, &config);
    let big_high = layout_consecutive_key_score(&layout, &stats_high, &config);
    assert!(big_high > big_low);
    // one more (a, b) pair costs exactly one transition at one cell on the
    // same finger
    assert_eq!(big_high - big_low, 150_000);

    let ind_low = layout_individual_key_score(&layout, &stats_low, &config);
    let ind_high = layout_individual_key_score(&layout, &stats_high, &config);
    assert_eq!(ind_low, ind_high);
}

#[test]
fn identical_slots_give_symmetric_reach_scores() {
    let config = twin_slot_config();
    let stats = twin_stats();
    let forward = Layout::new(vec![key('a'), key('b')]);
    let backward = Layout::new(vec![key('b'), key('a')]);
    let none: Vec<Intuition> = vec![];

    // the reach component cannot tell physically identical slots apart
    let ind_f = layout_individual_key_score(&forward, &stats, &config);
    let ind_b = layout_individual_key_score(&backward, &stats, &config);
    assert_eq!(ind_f, ind_b);
    assert_eq!(ind_f, 11_000_000);

    // with no bigram data the full fitness is symmetric too
    let mut flat = Stats::new();
    flat.set_individual_count(KeyCode::A, 10);
    flat.set_individual_count(KeyCode::B, 1);
    assert_eq!(
        layout_score(&forward, &flat, &config, &none),
        layout_score(&backward, &flat, &config, &none)
    );

    // the recorded (a, b) pair only scores where a's slot directly
    // precedes b's, so the full fitness is order-sensitive
    assert_eq!(layout_score(&forward, &stats, &config, &none), 11_750_000);
    assert_eq!(layout_score(&backward, &stats, &config, &none), 11_000_000);
}

#[test]
fn max_possible_score_sums_every_count() {
    let stats = twin_stats();
    let ins = intuitions();
    assert_eq!(ins.len(), 20);
    // 11 key presses + 5 pair uses + 100 per intuition, in points
    assert_eq!(max_possible_score(&stats, &ins), 2016 * (SCALE as u128));
}

#[test]
fn intuition_predicates_follow_positions() {
    let config = grid_2x2_config();
    let layout = Layout::new(vec![key('a'), key('b'), key('c'), key('d')]);

    let row = same_row(key('a'), key('b'));
    let ordered = left_of(key('a'), key('b'));
    let wrong_order = left_of(key('b'), key('a'));
    let near = close(key('a'), key('b'));
    let far = close(key('a'), key('d'));
    let mirror = symmetric(key('a'), key('b'));
    for (ins, expected) in [
        (&row, true),
        (&ordered, true),
        (&wrong_order, false),
        (&near, true),
        (&far, false),
        (&mirror, true),
    ] {
        assert_eq!(ins.satisfied(&layout, &config), expected);
    }
}

#[test]
fn combined_intuitions_award_a_single_point() {
    let config = grid_2x2_config();
    let layout = Layout::new(vec![key('a'), key('b'), key('c'), key('d')]);
    let both = and(same_row(key('a'), key('b')), left_of(key('a'), key('b')));
    let either = or(close(key('a'), key('d')), symmetric(key('a'), key('b')));
    let neither = and(close(key('a'), key('d')), same_row(key('a'), key('b')));
    let ins = vec![both, either, neither];
    assert!(intuitions_present(&ins, &layout, &config));
    assert_eq!(intuition_score(&layout, &config, &ins), 2);
}

#[test]
fn symmetry_mirrors_over_the_widest_column() {
    let config = grid_2x2_config();
    assert!(are_symmetric(&config, (0, 0), (1, 0)));
    assert!(!are_symmetric(&config, (0, 0), (0, 1)));
    assert!(!are_symmetric(&config, (0, 0), (0, 0)));
    assert!(!are_symmetric(&config, (1, 1), (1, 1)));
}

#[test]
fn annealing_never_forgets_its_best() {
    let mut keys = PhysicalKeyboard::new();
    keys.add_key(slot(KeyCode::A, left_index(), 100, 0, 0));
    keys.add_key(slot(KeyCode::B, left_index(), 50, 1, 0));
    let config = KeymapConfig {
        fingers: vec![FingerConfig { finger: left_index(), score: 100 }],
        keys,
    };
    let mut stats = Stats::new();
    stats.set_individual_count(KeyCode::A, 10);
    stats.set_individual_count(KeyCode::B, 1);
    let none: Vec<Intuition> = vec![];

    let poor = Layout::new(vec![key('b'), key('a')]);
    let initial_score = layout_score(&poor, &stats, &config, &none);
    assert_eq!(initial_score, 6_000_000);

    let mut walk = Annealer::new(poor, &stats, &config, &none);
    assert_eq!(walk.best_score, initial_score);

    // the improving swap is proposed and taken, and becomes the best
    let improved = walk.propose(0, 1, &stats, &config, &none);
    assert_eq!(improved, 10_500_000);
    walk.step(0, 1, false, &stats, &config, &none);
    assert_eq!(walk.best_score, 10_500_000);
    assert_eq!(walk.current_score, 10_500_000);

    // a worsening swap taken anyway moves the walk but not the best
    walk.step(0, 1, true, &stats, &config, &none);
    assert_eq!(walk.current_score, 6_000_000);
    assert_eq!(walk.best_score, 10_500_000);
    assert!(walk.best_score >= initial_score);
    assert_eq!(
        layout_score(&walk.best, &stats, &config, &none),
        walk.best_score
    );

    // swapping back improves on the current layout and is taken, but ties
    // with the best, which therefore stays in place
    walk.step(0, 1, false, &stats, &config, &none);
    assert_eq!(walk.current_score, 10_500_000);
    assert_eq!(walk.best_score, 10_500_000);
}

#[test]
fn one_generation_keeps_permutations_and_leads_with_the_fittest() {
    let mut keys = PhysicalKeyboard::new();
    keys.add_key(slot(KeyCode::A, left_index(), 100, 0, 0));
    keys.add_key(slot(KeyCode::B, left_index(), 75, 1, 0));
    keys.add_key(slot(KeyCode::C, left_index(), 50, 2, 0));
    keys.add_key(slot(KeyCode::D, left_index(), 25, 3, 0));
    let config = KeymapConfig {
        fingers: vec![FingerConfig { finger: left_index(), score: 100 }],
        keys,
    };
    let mut stats = Stats::new();
    stats.set_individual_count(KeyCode::A, 20);
    stats.set_individual_count(KeyCode::B, 10);
    stats.set_consecutive_count(KeyCode::A, KeyCode::B, 3);
    let none: Vec<Intuition> = vec![];
    let seed = vec![key('a'), key('b'), key('c'), key('d')];

    let population: Vec<Layout> = (0..6).map(|_| Layout::gen(&config)).collect();
    let scores: Vec<u128> =
        population.iter().map(|l| layout_score(l, &stats, &config, &none)).collect();

    let (next, gen_stats) = evolve(&population, &stats, &config, &none, 1, 10);
    assert_eq!(next.len(), 6);
    for member in &next {
        assert_eq!(member.keys().len(), 4);
        for k in &seed {
            assert!(member.contains_key(k));
        }
    }
    let next_scores: Vec<u128> =
        next.iter().map(|l| layout_score(l, &stats, &config, &none)).collect();
    for s in &next_scores {
        assert!(next_scores[0] >= *s);
    }
    assert_eq!(gen_stats.max, *scores.iter().max().unwrap());
    assert_eq!(gen_stats.min, *scores.iter().min().unwrap());
    assert_eq!(gen_stats.total, scores.iter().sum::<u128>());
    assert_eq!(gen_stats.diversity_total, 2 * 4 * 6);
    assert!(gen_stats.diversity_matches <= gen_stats.diversity_total);
    // the best member matches itself on every slot
    assert!(gen_stats.diversity_matches >= 8);
}

#[test]
fn a_population_of_one_survives_evolution() {
    let config = twin_slot_config();
    let stats = twin_stats();
    let none: Vec<Intuition> = vec![];
    let population = vec![Layout::new(vec![key('a'), key('b')])];
    let expected = layout_score(&population[0], &stats, &config, &none);
    let (next, gen_stats) = evolve(&population, &stats, &config, &none, 1, 10);
    assert_eq!(next.len(), 1);
    assert_eq!(layout_score(&next[0], &stats, &config, &none), expected);
    assert_eq!(gen_stats.max, expected);
    assert_eq!(gen_stats.min, expected);
    assert_eq!(gen_stats.total, expected);
    // the lone member matches itself on both slots and shift states
    assert_eq!(gen_stats.diversity_matches, 4);
    assert_eq!(gen_stats.diversity_total, 4);
}

#[test]
fn best_grid_places_each_key_at_its_position() {
    let config = grid_2x2_config();
    let layout = Layout::new(vec![key('a'), key('b'), key('c'), key('d')]);
    let grid = best_grid(&config, &layout);
    assert_eq!(grid.len(), 2);
    assert_eq!(grid[0].len(), 2);
    assert_eq!(grid[0][0], Some(key('a')));
    assert_eq!(grid[0][1], Some(key('b')));
    assert_eq!(grid[1][0], Some(key('c')));
    assert_eq!(grid[1][1], Some(key('d')));
}

#[test]
fn best_grid_leaves_unused_cells_empty() {
    let mut keys = PhysicalKeyboard::new();
    keys.add_key(slot(KeyCode::A, left_index(), 100, 0, 0));
    keys.add_key(slot(KeyCode::B, left_index(), 100, 1, 1));
    let config = KeymapConfig {
        fingers: vec![FingerConfig { finger: left_index(), score: 100 }],
        keys,
    };
    let layout = Layout::new(vec![key('a'), key('b')]);
    let grid = best_grid(&config, &layout);
    assert_eq!(grid.len(), 2);
    assert_eq!(grid[0], vec![Some(key('a')), None]);
    assert_eq!(grid[1], vec![None, Some(key('b'))]);
}
