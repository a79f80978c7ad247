use keyboard_layout_generator::keys::char_to_keycode;
use keyboard_layout_generator::keys::default_shifted;
use keyboard_layout_generator::keys::keycode_to_char;
use keyboard_layout_generator::layout::layout_similarity;
use keyboard_layout_generator::Finger;
use keyboard_layout_generator::FingerConfig;
use keyboard_layout_generator::FingerKind;
use keyboard_layout_generator::Hand;
use keyboard_layout_generator::Key;
use keyboard_layout_generator::KeyCode;
use keyboard_layout_generator::KeymapConfig;
use keyboard_layout_generator::Layout;
use keyboard_layout_generator::PhysicalKey;
use keyboard_layout_generator::PhysicalKeyboard;
use keyboard_layout_generator::Stats;

fn left_index() -> Finger {
    Finger { hand: Hand::Left, finger: FingerKind::Index }
}

fn slot(code: KeyCode, finger: Finger, score: u32, x: u16, y: u16) -> PhysicalKey {
    PhysicalKey { code, finger, score, position: (x, y) }
}

fn small_config() -> KeymapConfig {
    let mut keys = PhysicalKeyboard::new();
    keys.add_key(slot(KeyCode::A, left_index(), 100, 0, 0));
    keys.add_key(slot(KeyCode::B, left_index(), 80, 1, 0));
    keys.add_key(slot(KeyCode::C, left_index(), 60, 2, 0));
    keys.add_key(slot(KeyCode::D, left_index(), 40, 3, 0));
    KeymapConfig { fingers: vec![FingerConfig { finger: left_index(), score: 100 }], keys }
}

fn key(c: char) -> Key {
    Key::Normal { normal: c, shifted: default_shifted(c) }
}

fn same_multiset(a: &[Key], b: &[Key]) -> bool {
    if a.len() != b.len() {
        return false;
    }
    for probe in a {
        let in_a = a.iter().filter(|k| *k == probe).count();
        let in_b = b.iter().filter(|k| *k == probe).count();
        if in_a != in_b {
            return false;
        }
    }
    true
}

#[test]
fn finger_all_lists_every_finger_left_first() {
    let all = Finger::all();
    assert_eq!(all.len(), 10);
    assert_eq!(all[0], Finger { hand: Hand::Left, finger: FingerKind::Pinky });
    assert_eq!(all[4], Finger { hand: Hand::Left, finger: FingerKind::Thumb });
    assert_eq!(all[5], Finger { hand: Hand::Right, finger: FingerKind::Pinky });
    assert_eq!(all[9], Finger { hand: Hand::Right, finger: FingerKind::Thumb });
}

#[test]
fn keycode_tables_cover_the_shift_convention() {
    assert_eq!(char_to_keycode('a'), KeyCode::A);
    assert_eq!(char_to_keycode('A'), KeyCode::A);
    assert_eq!(char_to_keycode('!'), KeyCode::Key1);
    assert_eq!(char_to_keycode(' '), KeyCode::Space);
    assert_eq!(keycode_to_char(KeyCode::Semicolon), ';');
    assert_eq!(keycode_to_char(KeyCode::Key0), '0');
    assert_eq!(default_shifted('a'), 'A');
    assert_eq!(default_shifted('1'), '!');
    assert_eq!(default_shifted('/'), '?');
    assert_eq!(default_shifted('`'), '~');
}

#[test]
fn key_keycode_uses_shift_state() {
    let k = Key::from_char_default_shifted('2');
    assert_eq!(k.keycode(false), KeyCode::Key2);
    assert_eq!(k.keycode(true), KeyCode::Key2);
    let semi = Key::from_char_default_shifted(';');
    assert_eq!(semi.keycode(false), KeyCode::Semicolon);
    assert_eq!(semi.keycode(true), KeyCode::Semicolon);
    assert_eq!(Key::LShift.keycode(false), KeyCode::LShift);
    assert_eq!(Key::Delete.keycode(true), KeyCode::Delete);
}

#[test]
fn validate_accepts_a_sound_config() {
    assert!(small_config().validate());
}

#[test]
fn validate_rejects_empty_keyboard() {
    let config = KeymapConfig {
        fingers: vec![FingerConfig { finger: left_index(), score: 100 }],
        keys: PhysicalKeyboard::new(),
    };
    assert!(!config.validate());
}

#[test]
fn validate_rejects_uncovered_finger() {
    let mut config = small_config();
    config.fingers = vec![FingerConfig {
        finger: Finger { hand: Hand::Right, finger: FingerKind::Thumb },
        score: 100,
    }];
    assert!(!config.validate());
}

#[test]
fn validate_rejects_score_over_a_hundred() {
    let mut config = small_config();
    config.keys.0[1].score = 101;
    assert!(!config.validate());
    let mut config2 = small_config();
    config2.fingers[0].score = 200;
    assert!(!config2.validate());
}

#[test]
fn validate_rejects_duplicate_key_codes() {
    let mut config = small_config();
    config.keys.0[2].code = KeyCode::A;
    assert!(!config.validate());
}

#[test]
fn stats_unknown_keys_count_zero() {
    let stats = Stats::new();
    assert_eq!(stats.get_individual_count(KeyCode::Q), 0);
    assert_eq!(stats.get_consecutive_count(KeyCode::Q, KeyCode::W), 0);
}

#[test]
fn stats_set_and_overwrite_counts() {
    let mut stats = Stats::new();
    stats.set_individual_count(KeyCode::A, 7);
    stats.set_individual_count(KeyCode::B, 3);
    assert_eq!(stats.get_individual_count(KeyCode::A), 7);
    assert_eq!(stats.get_individual_count(KeyCode::B), 3);
    stats.set_individual_count(KeyCode::A, 9);
    assert_eq!(stats.get_individual_count(KeyCode::A), 9);
    assert_eq!(stats.get_individual_count(KeyCode::B), 3);
    stats.set_consecutive_count(KeyCode::A, KeyCode::B, 5);
    stats.set_consecutive_count(KeyCode::B, KeyCode::A, 2);
    assert_eq!(stats.get_consecutive_count(KeyCode::A, KeyCode::B), 5);
    assert_eq!(stats.get_consecutive_count(KeyCode::B, KeyCode::A), 2);
    assert_eq!(stats.get_consecutive_count(KeyCode::A, KeyCode::A), 0);
}

#[test]
fn swap_twice_restores_keys_and_slots() {
    let keys = vec![key('a'), key('b'), key('c'), key('d')];
    let mut layout = Layout::new(keys.clone());
    let slot_b_before = layout.get(&key('b'));
    layout.swap(1, 3);
    assert_eq!(layout.keys()[1], key('d'));
    assert_eq!(layout.keys()[3], key('b'));
    layout.swap(1, 3);
    assert_eq!(layout.keys().as_slice(), keys.as_slice());
    assert_eq!(layout.get(&key('b')), slot_b_before);
    for (i, k) in keys.iter().enumerate() {
        assert_eq!(layout.get(k), i);
    }
}

#[test]
fn gen_produces_a_permutation_of_the_seed() {
    let config = small_config();
    let seed = vec![key('a'), key('b'), key('c'), key('d')];
    for _ in 0..20 {
        let layout = Layout::gen(&config);
        assert_eq!(layout.keys().len(), 4);
        assert!(same_multiset(layout.keys(), &seed));
    }
}

#[test]
fn mutate_preserves_the_permutation() {
    let config = small_config();
    let mut layout = Layout::gen(&config);
    let before = layout.keys().clone();
    layout.mutate(1, 2);
    assert!(same_multiset(layout.keys(), &before));
    layout.mutate(1, 1);
    assert!(same_multiset(layout.keys(), &before));
}

#[test]
fn crossover_children_are_repaired_permutations() {
    let config = small_config();
    for _ in 0..20 {
        let parent1 = Layout::gen(&config);
        let parent2 = Layout::gen(&config);
        let (child1, child2) = parent1.crossover(&parent2);
        assert!(same_multiset(child1.keys(), parent1.keys()));
        assert!(same_multiset(child2.keys(), parent1.keys()));
    }
}

#[test]
fn similarity_counts_matching_key_codes() {
    let l1 = Layout::new(vec![key('a'), key('b'), key('c')]);
    let l2 = Layout::new(vec![key('b'), key('a'), key('c')]);
    // identical layouts match on every slot, both shift states
    assert_eq!(layout_similarity(&l1, &l1), 6);
    // the first two slots disagree in both shift states, the third agrees
    assert_eq!(layout_similarity(&l1, &l2), 2);
}

#[test]
fn duplicate_copies_every_slot() {
    let layout = Layout::new(vec![key('a'), key('b'), key('c')]);
    let copy = layout.duplicate();
    assert_eq!(copy.keys().as_slice(), layout.keys().as_slice());
}

#[test]
fn get_reports_the_first_slot_of_a_key() {
    let layout = Layout::new(vec![key('x'), key('y'), key('z')]);
    assert_eq!(layout.get(&key('x')), 0);
    assert_eq!(layout.get(&key('z')), 2);
    assert!(layout.contains_key(&key('y')));
    assert!(!layout.contains_key(&key('q')));
}
