//! The candidate solution of the optimizer: a layout assigns one logical key
//! to every physical slot.  The key sequence is always a permutation of the
//! seed key set of the keyboard configuration; the genetic operators below
//! (random generation, crossover with permutation repair, pairwise-swap
//! mutation) all preserve that invariant, and the contracts say so.

use vstd::prelude::*;
use vstd::seq_lib::lemma_multiset_commutative;
use vstd::set_lib::lemma_len_subset;

use crate::keyboard::KeymapConfig;
use crate::keyboard::PhysicalKey;
use crate::keys::code_char;
use crate::keys::default_shifted;
use crate::keys::keycode_to_char;
use crate::keys::lemma_code_char_roundtrip;
use crate::keys::lemma_code_chars_are_typable;
use crate::keys::shifted_char;
use crate::keys::Key;
use crate::keys::KeyCode;
use crate::rng::random_ratio;
use crate::rng::shuffle_keys;

verus! {

/// The logical key the reference keymap engraves on a slot with key code
/// `code`: function keys map to their own variant, printable keys to their
/// unshifted character paired with its fixed shifted form.
pub open spec fn seed_key(code: KeyCode) -> Key {
    match code {
        KeyCode::Backspace => Key::Backspace,
        KeyCode::Tab => Key::Tab,
        KeyCode::Enter => Key::Enter,
        KeyCode::CapsLock => Key::CapsLock,
        KeyCode::LShift => Key::LShift,
        KeyCode::RShift => Key::RShift,
        KeyCode::LControl => Key::LCtrl,
        KeyCode::RControl => Key::RCtrl,
        KeyCode::LAlt => Key::LAlt,
        KeyCode::RAlt => Key::RAlt,
        KeyCode::LMeta => Key::LMeta,
        KeyCode::RMeta => Key::RMeta,
        KeyCode::Space => Key::Space,
        KeyCode::Escape => Key::Escape,
        KeyCode::Home => Key::Home,
        KeyCode::End => Key::End,
        KeyCode::PageUp => Key::PageUp,
        KeyCode::PageDown => Key::PageDown,
        KeyCode::Left => Key::Left,
        KeyCode::Right => Key::Right,
        KeyCode::Up => Key::Up,
        KeyCode::Down => Key::Down,
        KeyCode::Delete => Key::Delete,
        _ => Key::Normal {
            normal: code_char(code)->Some_0,
            shifted: shifted_char(code_char(code)->Some_0)->Some_0,
        },
    }
}

/// The fixed multiset of logical keys every layout for `config` permutes:
/// one seed key per physical slot, in slot order.
pub open spec fn seed_keys(config: KeymapConfig) -> Seq<Key> {
    config.keys.0@.map_values(|p: PhysicalKey| seed_key(p.code))
}

/// Distinct key codes seed distinct logical keys.
pub proof fn lemma_seed_key_injective(c1: KeyCode, c2: KeyCode)
    requires
        seed_key(c1) == seed_key(c2),
    ensures
        c1 == c2,
{
    if code_char(c1) is Some && code_char(c2) is Some {
        lemma_code_char_roundtrip(c1);
        lemma_code_char_roundtrip(c2);
    }
}

/// `s` with the contents of slots `i` and `j` exchanged.
pub open spec fn swapped(s: Seq<Key>, i: int, j: int) -> Seq<Key> {
    s.update(i, s[j]).update(j, s[i])
}

/// The first slot of `s`, from slot `i` on, that holds key `k`; `s.len()`
/// when no slot from there on does.
pub open spec fn first_slot_from(s: Seq<Key>, i: int, k: Key) -> int
    decreases s.len() - i,
{
    if i < 0 || i >= s.len() {
        s.len() as int
    } else if s[i] == k {
        i
    } else {
        first_slot_from(s, i + 1, k)
    }
}

/// A candidate layout: `keys[i]` is the logical key assigned to physical
/// slot `i`.
#[derive(Debug)]
pub struct Layout {
    pub keys: Vec<Key>,
}

impl View for Layout {
    type V = Seq<Key>;

    open spec fn view(&self) -> Seq<Key> {
        self.keys@
    }
}

impl Layout {
    /// Every key of the layout is well formed.
    pub open spec fn wf(self) -> bool {
        forall|i: int| 0 <= i < self@.len() ==> (#[trigger] self@[i]).wf()
    }

    /// The slot key `k` occupies: the first slot holding `k`.
    pub open spec fn slot_of(self, k: Key) -> int {
        first_slot_from(self@, 0, k)
    }

    /// Wrap a key assignment.
    pub fn new(keys: Vec<Key>) -> (layout: Layout)
        ensures
            layout@ =~= keys@,
    {
        Layout { keys }
    }

    /// The assigned keys, slot by slot.
    pub fn keys(&self) -> (keys: &Vec<Key>)
        ensures
            keys@ =~= self@,
    {
        &self.keys
    }

    /// An independent copy of this layout.
    pub fn duplicate(&self) -> (copy: Layout)
        ensures
            copy@ =~= self@,
    {
        let n = self.keys.len();
        let mut keys: Vec<Key> = Vec::new();
        let mut i: usize = 0;
        while i < n
            invariant
                0 <= i <= n,
                n == self@.len(),
                keys@ =~= self@.subrange(0, i as int),
            decreases n - i,
        {
            keys.push(self.keys[i]);
            i = i + 1;
        }
        Layout { keys }
    }

    /// Exchange the keys of slots `i` and `j`.
    pub fn swap(&mut self, i: usize, j: usize)
        requires
            i < old(self)@.len(),
            j < old(self)@.len(),
        ensures
            final(self)@ == swapped(old(self)@, i as int, j as int),
            final(self)@.to_multiset() == old(self)@.to_multiset(),
            final(self)@.len() == old(self)@.len(),
    {
        let a = self.keys[i];
        let b = self.keys[j];
        self.keys[i] = b;
        self.keys[j] = a;
        proof {
            lemma_swapped_to_multiset(old(self)@, i as int, j as int);
        }
    }

    /// Generate one independent uniformly random layout for `config`: the
    /// seed key multiset, shuffled over the physical slots.
    pub fn gen(config: &KeymapConfig) -> (layout: Layout)
        requires
            config.wf(),
        ensures
            layout@.len() == config.keys.0@.len(),
            layout@.to_multiset() == seed_keys(*config).to_multiset(),
            layout@.no_duplicates(),
            layout.wf(),
    {
        let mut pool = build_seed_pool(config);
        proof {
            assert forall|i: int, j: int| 0 <= i < j < pool@.len() implies pool@[i] != pool@[
                j
            ] by {
                if pool@[i] == pool@[j] {
                    lemma_seed_key_injective(config.keys.0@[i].code, config.keys.0@[j].code);
                }
            }
        }
        let ghost pool0 = pool@;
        shuffle_keys(&mut pool);
        proof {
            lemma_wf_from_multiset(pool0, pool@);
            lemma_no_dup_from_multiset(pool0, pool@);
        }
        Layout { keys: pool }
    }

    /// Uniform crossover over slots: for each slot an unbiased coin decides
    /// which parent's key goes to the first child, the other parent's key
    /// going to the second; then each child is repaired back into a
    /// permutation of the seed key set.
    pub fn crossover(&self, other: &Layout) -> (children: (Layout, Layout))
        requires
            self@.len() == other@.len(),
            self@.no_duplicates(),
            self@.to_multiset() == other@.to_multiset(),
            self.wf(),
        ensures
            children.0@.len() == self@.len(),
            children.1@.len() == self@.len(),
            children.0@.to_multiset() == self@.to_multiset(),
            children.1@.to_multiset() == self@.to_multiset(),
            children.0@.no_duplicates(),
            children.1@.no_duplicates(),
            children.0.wf(),
            children.1.wf(),
    {
        let n = self.keys.len();
        let mut c1: Vec<Key> = Vec::new();
        let mut c2: Vec<Key> = Vec::new();
        let mut i: usize = 0;
        while i < n
            invariant
                0 <= i <= n,
                n == self@.len(),
                n == other@.len(),
                c1@.len() == i,
                c2@.len() == i,
                forall|k: int|
                    0 <= k < i ==> #[trigger] c1@[k] == self@[k] || c1@[k] == other@[k],
                forall|k: int|
                    0 <= k < i ==> #[trigger] c2@[k] == self@[k] || c2@[k] == other@[k],
            decreases n - i,
        {
            if random_ratio(1, 2) {
                c1.push(self.keys[i]);
                c2.push(other.keys[i]);
            } else {
                c1.push(other.keys[i]);
                c2.push(self.keys[i]);
            }
            i = i + 1;
        }
        proof {
            broadcast use vstd::seq_lib::group_to_multiset_ensures;

            assert forall|k: int| 0 <= k < c1@.len() implies self@.contains(
                #[trigger] c1@[k],
            ) by {
                if c1@[k] == other@[k] {
                    assert(other@.contains(other@[k]));
                    assert(other@.to_multiset().count(other@[k]) > 0);
                    assert(self@.to_multiset().count(c1@[k]) > 0);
                } else {
                    assert(self@.contains(self@[k]));
                }
            }
            assert forall|k: int| 0 <= k < c2@.len() implies self@.contains(
                #[trigger] c2@[k],
            ) by {
                if c2@[k] == other@[k] {
                    assert(other@.contains(other@[k]));
                    assert(other@.to_multiset().count(other@[k]) > 0);
                    assert(self@.to_multiset().count(c2@[k]) > 0);
                } else {
                    assert(self@.contains(self@[k]));
                }
            }
        }
        fix_missing_keys(&mut c1, &self.keys);
        fix_missing_keys(&mut c2, &self.keys);
        proof {
            lemma_wf_from_multiset(self@, c1@);
            lemma_wf_from_multiset(self@, c2@);
        }
        (Layout { keys: c1 }, Layout { keys: c2 })
    }

    /// Mutation by exhaustive Bernoulli trials: every unordered pair of
    /// slots is swapped independently with probability `rate_num/rate_den`,
    /// so the rate directly controls the expected number of transpositions.
    pub fn mutate(&mut self, rate_num: u32, rate_den: u32)
        requires
            0 < rate_den,
            rate_num <= rate_den,
        ensures
            final(self)@.len() == old(self)@.len(),
            final(self)@.to_multiset() == old(self)@.to_multiset(),
            old(self)@.no_duplicates() ==> final(self)@.no_duplicates(),
            old(self).wf() ==> final(self).wf(),
    {
        let n = self.keys.len();
        let mut i: usize = 0;
        while i < n
            invariant
                0 <= i <= n,
                n == self@.len(),
                0 < rate_den,
                rate_num <= rate_den,
                self@.to_multiset() == old(self)@.to_multiset(),
            decreases n - i,
        {
            let mut j: usize = i + 1;
            while j < n
                invariant
                    i < j <= n,
                    i < n,
                    n == self@.len(),
                    0 < rate_den,
                    rate_num <= rate_den,
                    self@.to_multiset() == old(self)@.to_multiset(),
                decreases n - j,
            {
                if random_ratio(rate_num, rate_den) {
                    self.swap(i, j);
                }
                j = j + 1;
            }
            i = i + 1;
        }
        proof {
            if old(self)@.no_duplicates() {
                lemma_no_dup_from_multiset(old(self)@, self@);
            }
            if old(self).wf() {
                lemma_wf_from_multiset(old(self)@, self@);
            }
        }
    }

    /// Does this layout assign key `k` to some slot?
    pub fn contains_key(&self, k: &Key) -> (present: bool)
        ensures
            present == self@.contains(*k),
    {
        contains_key(&self.keys, k)
    }

    /// The slot key `k` occupies.
    pub fn get(&self, k: &Key) -> (slot: usize)
        requires
            self@.contains(*k),
        ensures
            slot as int == self.slot_of(*k),
            slot < self@.len(),
            self@[slot as int] == *k,
    {
        let n = self.keys.len();
        let mut i: usize = 0;
        while i < n
            invariant
                0 <= i <= n,
                n == self@.len(),
                self@.contains(*k),
                first_slot_from(self@, 0, *k) == first_slot_from(self@, i as int, *k),
                forall|p: int| 0 <= p < i ==> self@[p] != *k,
            decreases n - i,
        {
            if self.keys[i] == *k {
                return i;
            }
            i = i + 1;
        }
        proof {
            let witness = choose|p: int| 0 <= p < self@.len() && self@[p] == *k;
            assert(false);
        }
        0
    }
}

/// The number of slot-wise key-code agreements between two layouts, slots
/// `i` and beyond: one point where the unshifted key codes match, one more
/// where the shifted key codes match.
pub open spec fn sim_matches_from(s1: Seq<Key>, s2: Seq<Key>, i: int) -> int
    decreases s1.len() - i,
{
    if i < 0 || i >= s1.len() {
        0
    } else {
        (if s1[i].spec_keycode(false) == s2[i].spec_keycode(false) {
            1int
        } else {
            0int
        }) + (if s1[i].spec_keycode(true) == s2[i].spec_keycode(true) {
            1int
        } else {
            0int
        }) + sim_matches_from(s1, s2, i + 1)
    }
}

/// How alike two layouts are: the number of slots where the unshifted key
/// codes agree plus the number where the shifted key codes agree, out of
/// twice the slot count.  Dividing by `2 * len` gives the similarity
/// fraction in `[0, 1]`.
pub fn layout_similarity(l1: &Layout, l2: &Layout) -> (matches: u64)
    requires
        l1@.len() == l2@.len(),
        l1@.len() <= crate::keyboard::MAX_SLOTS,
        l1.wf(),
        l2.wf(),
    ensures
        matches == sim_matches_from(l1@, l2@, 0),
        matches <= 2 * l1@.len(),
{
    let n = l1.keys.len();
    let mut matches: u64 = 0;
    let mut i: usize = 0;
    while i < n
        invariant
            0 <= i <= n,
            n == l1@.len(),
            n == l2@.len(),
            n <= crate::keyboard::MAX_SLOTS,
            l1.wf(),
            l2.wf(),
            matches <= 2 * i,
            sim_matches_from(l1@, l2@, 0) == matches + sim_matches_from(l1@, l2@, i as int),
        decreases n - i,
    {
        let key1 = &l1.keys[i];
        let key2 = &l2.keys[i];
        if key1.keycode(false) == key2.keycode(false) {
            matches = matches + 1;
        }
        if key1.keycode(true) == key2.keycode(true) {
            matches = matches + 1;
        }
        i = i + 1;
    }
    proof {
        assert(sim_matches_from(l1@, l2@, n as int) == 0);
    }
    matches
}

/// Does `v` assign key `k` to some slot?
fn contains_key(v: &Vec<Key>, k: &Key) -> (present: bool)
    ensures
        present == v@.contains(*k),
{
    let n = v.len();
    let mut i: usize = 0;
    while i < n
        invariant
            0 <= i <= n,
            n == v@.len(),
            forall|p: int| 0 <= p < i ==> v@[p] != *k,
        decreases n - i,
    {
        if v[i] == *k {
            return true;
        }
        i = i + 1;
    }
    false
}

/// The later slot of the first duplicated pair of keys, scanning pairs in
/// lexicographic order.
fn find_duplicate_key_index(keys: &Vec<Key>) -> (dup: usize)
    requires
        !keys@.no_duplicates(),
    ensures
        dup < keys@.len(),
        exists|i: int| 0 <= i < dup && keys@[i] == keys@[dup as int],
{
    let n = keys.len();
    let mut i: usize = 0;
    while i < n
        invariant
            0 <= i <= n,
            n == keys@.len(),
            forall|p: int, q: int| 0 <= p < q < n && p < i ==> keys@[p] != keys@[q],
        decreases n - i,
    {
        let mut j: usize = i + 1;
        while j < n
            invariant
                i < j <= n,
                i < n,
                n == keys@.len(),
                forall|q: int| i < q < j ==> keys@[i as int] != keys@[q],
            decreases n - j,
        {
            if keys[i] == keys[j] {
                return j;
            }
            j = j + 1;
        }
        i = i + 1;
    }
    proof {
        assert(keys@.no_duplicates());
        assert(false);
    }
    0
}

/// A sequence that is one key short of a duplicate-free sequence of the same
/// length must hold a duplicate.
pub proof fn lemma_missing_key_forces_duplicate(child: Seq<Key>, parent: Seq<Key>, k: Key)
    requires
        parent.no_duplicates(),
        child.len() == parent.len(),
        forall|i: int| 0 <= i < child.len() ==> parent.contains(#[trigger] child[i]),
        parent.contains(k),
        !child.contains(k),
    ensures
        !child.no_duplicates(),
{
    broadcast use vstd::set::group_set_axioms;
    broadcast use vstd::seq_lib::seq_to_set_is_finite;

    let n = parent.len();
    let small = parent.to_set().remove(k);
    assert(child.to_set().subset_of(small)) by {
        assert forall|x: Key| child.to_set().contains(x) implies small.contains(x) by {
            assert(child.contains(x));
        }
    }
    parent.unique_seq_to_set();
    assert(parent.to_set().contains(k));
    assert(small.len() == n - 1);
    lemma_len_subset(child.to_set(), small);
    if child.no_duplicates() {
        child.unique_seq_to_set();
        assert(false);
    }
}

/// Two duplicate-free sequences over the same key set carry the same key
/// multiset.
pub proof fn lemma_no_dup_same_set_same_multiset(s1: Seq<Key>, s2: Seq<Key>)
    requires
        s1.no_duplicates(),
        s2.no_duplicates(),
        forall|x: Key| s1.contains(x) <==> s2.contains(x),
    ensures
        s1.to_multiset() == s2.to_multiset(),
{
    broadcast use vstd::seq_lib::group_to_multiset_ensures;

    s1.lemma_multiset_has_no_duplicates();
    s2.lemma_multiset_has_no_duplicates();
    assert forall|x: Key| s1.to_multiset().count(x) == s2.to_multiset().count(x) by {
        if s1.contains(x) {
            assert(s1.to_multiset().count(x) == 1);
            assert(s2.contains(x));
            assert(s2.to_multiset().count(x) == 1);
        } else {
            assert(s1.to_multiset().count(x) == 0);
            assert(!s2.contains(x));
            assert(s2.to_multiset().count(x) == 0);
        }
    }
    assert(s1.to_multiset() =~= s2.to_multiset());
}

/// Permutation repair after uniform crossover: every seed key missing from
/// the child overwrites the later slot of some duplicated pair.  Taking the
/// first duplicate found is a policy; any duplicate would restore the
/// permutation.
fn fix_missing_keys(child: &mut Vec<Key>, parent: &Vec<Key>)
    requires
        parent@.no_duplicates(),
        old(child)@.len() == parent@.len(),
        forall|k: int|
            0 <= k < old(child)@.len() ==> parent@.contains(#[trigger] old(child)@[k]),
    ensures
        final(child)@.len() == parent@.len(),
        final(child)@.to_multiset() == parent@.to_multiset(),
        final(child)@.no_duplicates(),
{
    let n = parent.len();
    let mut missing: Vec<Key> = Vec::new();
    let mut i: usize = 0;
    while i < n
        invariant
            0 <= i <= n,
            n == parent@.len(),
            child@ == old(child)@,
            child@.len() == n,
            parent@.no_duplicates(),
            forall|k: int| 0 <= k < child@.len() ==> parent@.contains(#[trigger] child@[k]),
            forall|t: int| 0 <= t < missing@.len() ==> parent@.contains(#[trigger] missing@[t]),
            forall|t: int| 0 <= t < missing@.len() ==> !child@.contains(#[trigger] missing@[t]),
            forall|t: int|
                0 <= t < missing@.len() ==> exists|j: int|
                    0 <= j < i && parent@[j] == #[trigger] missing@[t],
            missing@.no_duplicates(),
            forall|j: int|
                0 <= j < i ==> child@.contains(#[trigger] parent@[j]) || missing@.contains(
                    parent@[j],
                ),
        decreases n - i,
    {
        let ghost missing0 = missing@;
        if !contains_key(child, &parent[i]) {
            let ghost before = missing@;
            proof {
                if before.contains(parent@[i as int]) {
                    let t = choose|t: int|
                        0 <= t < before.len() && before[t] == parent@[i as int];
                    let j = choose|j: int| 0 <= j < i && parent@[j] == before[t];
                    assert(parent@[j] == parent@[i as int]);
                    assert(false);
                }
            }
            missing.push(parent[i]);
            proof {
                assert forall|p: int, q: int|
                    0 <= p < missing@.len() && 0 <= q < missing@.len() && p != q implies missing@[p]
                    != missing@[q] by {
                    if p < before.len() && q < before.len() {
                        assert(missing@[p] == before[p]);
                        assert(missing@[q] == before[q]);
                    } else if q == before.len() {
                        assert(missing@[p] == before[p]);
                        assert(!before.contains(parent@[i as int]));
                        assert(before[p] != parent@[i as int]);
                    } else {
                        assert(missing@[q] == before[q]);
                        assert(!before.contains(parent@[i as int]));
                        assert(before[q] != parent@[i as int]);
                    }
                }
                assert forall|t: int| 0 <= t < missing@.len() implies exists|j: int|
                    0 <= j <= i && parent@[j] == #[trigger] missing@[t] by {
                    if t < before.len() {
                        let j = choose|j: int| 0 <= j < i && parent@[j] == before[t];
                        assert(0 <= j <= i && parent@[j] == missing@[t]);
                    } else {
                        assert(0 <= i <= i && parent@[i as int] == missing@[t]);
                    }
                }
            }
        }
        proof {
            assert forall|t: int| 0 <= t < missing@.len() implies exists|j: int|
                0 <= j < i + 1 && parent@[j] == #[trigger] missing@[t] by {
                let j = choose|j: int| 0 <= j <= i && parent@[j] == missing@[t];
                assert(0 <= j < i + 1 && parent@[j] == missing@[t]);
            }
            assert forall|j: int|
                0 <= j <= i implies child@.contains(#[trigger] parent@[j]) || missing@.contains(
                    parent@[j],
                ) by {
                if j < i {
                    if !child@.contains(parent@[j]) {
                        let t = choose|t: int|
                            0 <= t < missing0.len() && missing0[t] == parent@[j];
                        assert(missing@[t] == parent@[j]);
                        assert(missing@.contains(parent@[j]));
                    }
                } else {
                    if !child@.contains(parent@[j]) {
                        assert(missing@[missing@.len() - 1] == parent@[i as int]);
                        assert(missing@.contains(parent@[j]));
                    }
                }
            }
        }
        i = i + 1;
    }
    let m = missing.len();
    let mut t: usize = 0;
    while t < m
        invariant
            0 <= t <= m,
            m == missing@.len(),
            n == parent@.len(),
            child@.len() == n,
            parent@.no_duplicates(),
            missing@.no_duplicates(),
            forall|k: int| 0 <= k < child@.len() ==> parent@.contains(#[trigger] child@[k]),
            forall|u: int| t <= u < m ==> parent@.contains(#[trigger] missing@[u]),
            forall|u: int| t <= u < m ==> !child@.contains(#[trigger] missing@[u]),
            forall|j: int|
                0 <= j < n ==> child@.contains(#[trigger] parent@[j]) || exists|u: int|
                    t <= u < m && missing@[u] == parent@[j],
        decreases m - t,
    {
        proof {
            lemma_missing_key_forces_duplicate(child@, parent@, missing@[t as int]);
        }
        let dup = find_duplicate_key_index(child);
        let ghost before = child@;
        let patch = missing[t];
        child[dup] = patch;
        proof {
            let w = choose|i: int| 0 <= i < dup && before[i] == before[dup as int];
            assert(child@ == before.update(dup as int, patch));
            assert forall|k: int| 0 <= k < child@.len() implies parent@.contains(
                #[trigger] child@[k],
            ) by {
                if k != dup {
                    assert(child@[k] == before[k]);
                }
            }
            assert forall|u: int| t + 1 <= u < m implies !child@.contains(
                #[trigger] missing@[u],
            ) by {
                if child@.contains(missing@[u]) {
                    let p = choose|p: int|
                        0 <= p < child@.len() && child@[p] == missing@[u];
                    if p == dup {
                        assert(missing@[u] == patch);
                        assert(missing@[u] == missing@[t as int]);
                    } else {
                        assert(before[p] == missing@[u]);
                        assert(before.contains(missing@[u]));
                    }
                }
            }
            assert forall|j: int|
                0 <= j < n implies child@.contains(#[trigger] parent@[j]) || exists|u: int|
                    t + 1 <= u < m && missing@[u] == parent@[j] by {
                if parent@[j] == patch {
                    assert(child@[dup as int] == parent@[j]);
                    assert(child@.contains(parent@[j]));
                } else if before.contains(parent@[j]) {
                    let p = choose|p: int| 0 <= p < before.len() && before[p] == parent@[j];
                    if p == dup {
                        assert(before[w] == parent@[j]);
                        assert(child@[w] == parent@[j]);
                        assert(child@.contains(parent@[j]));
                    } else {
                        assert(child@[p] == parent@[j]);
                        assert(child@.contains(parent@[j]));
                    }
                } else {
                    let u = choose|u: int| t <= u < m && missing@[u] == parent@[j];
                    assert(missing@[u] == parent@[j]);
                    assert(u != t);
                }
            }
        }
        t = t + 1;
    }
    proof {
        assert forall|x: Key| child@.contains(x) <==> parent@.contains(x) by {
            if child@.contains(x) {
                let p = choose|p: int| 0 <= p < child@.len() && child@[p] == x;
                assert(parent@.contains(child@[p]));
            }
            if parent@.contains(x) {
                let j = choose|j: int| 0 <= j < parent@.len() && parent@[j] == x;
                assert(child@.contains(parent@[j]) || exists|u: int|
                    m <= u < m && missing@[u] == parent@[j]);
            }
        }
        lemma_child_covers_parent_multiset(child@, parent@);
    }
}

/// A child of the right length whose keys are exactly the keys of a
/// duplicate-free parent is itself a duplicate-free permutation of it.
proof fn lemma_child_covers_parent_multiset(child: Seq<Key>, parent: Seq<Key>)
    requires
        parent.no_duplicates(),
        child.len() == parent.len(),
        forall|x: Key| child.contains(x) <==> parent.contains(x),
    ensures
        child.no_duplicates(),
        child.to_multiset() == parent.to_multiset(),
{
    broadcast use vstd::set::group_set_axioms;
    broadcast use vstd::seq_lib::seq_to_set_is_finite;

    assert(child.to_set() =~= parent.to_set());
    parent.unique_seq_to_set();
    child.lemma_no_dup_set_cardinality();
    lemma_no_dup_same_set_same_multiset(child, parent);
}

/// Build the seed key pool of `config`, one key per slot in slot order.
fn build_seed_pool(config: &KeymapConfig) -> (pool: Vec<Key>)
    ensures
        pool@ =~= seed_keys(*config),
        forall|i: int| 0 <= i < pool@.len() ==> (#[trigger] pool@[i]).wf(),
{
    let n = config.keys.0.len();
    let mut pool: Vec<Key> = Vec::new();
    let mut i: usize = 0;
    while i < n
        invariant
            0 <= i <= n,
            n == config.keys.0@.len(),
            pool@ =~= seed_keys(*config).subrange(0, i as int),
            forall|k: int| 0 <= k < pool@.len() ==> (#[trigger] pool@[k]).wf(),
        decreases n - i,
    {
        let code = config.keys.0[i].code;
        let key = match code {
            KeyCode::Backspace => Key::Backspace,
            KeyCode::Tab => Key::Tab,
            KeyCode::Enter => Key::Enter,
            KeyCode::CapsLock => Key::CapsLock,
            KeyCode::LShift => Key::LShift,
            KeyCode::RShift => Key::RShift,
            KeyCode::LControl => Key::LCtrl,
            KeyCode::RControl => Key::RCtrl,
            KeyCode::LAlt => Key::LAlt,
            KeyCode::RAlt => Key::RAlt,
            KeyCode::LMeta => Key::LMeta,
            KeyCode::RMeta => Key::RMeta,
            KeyCode::Space => Key::Space,
            KeyCode::Escape => Key::Escape,
            KeyCode::Home => Key::Home,
            KeyCode::End => Key::End,
            KeyCode::PageUp => Key::PageUp,
            KeyCode::PageDown => Key::PageDown,
            KeyCode::Left => Key::Left,
            KeyCode::Right => Key::Right,
            KeyCode::Up => Key::Up,
            KeyCode::Down => Key::Down,
            KeyCode::Delete => Key::Delete,
            _ => {
                proof {
                    lemma_code_chars_are_typable(code);
                }
                let normal = keycode_to_char(code);
                Key::Normal { normal, shifted: default_shifted(normal) }
            },
        };
        pool.push(key);
        i = i + 1;
    }
    pool
}

/// Keys drawn from a multiset of well-formed keys are well formed.
pub proof fn lemma_wf_from_multiset(s1: Seq<Key>, s2: Seq<Key>)
    requires
        forall|i: int| 0 <= i < s1.len() ==> (#[trigger] s1[i]).wf(),
        s2.to_multiset() == s1.to_multiset(),
    ensures
        forall|i: int| 0 <= i < s2.len() ==> (#[trigger] s2[i]).wf(),
{
    broadcast use vstd::seq_lib::group_to_multiset_ensures;

    assert forall|i: int| 0 <= i < s2.len() implies (#[trigger] s2[i]).wf() by {
        assert(s2.contains(s2[i]));
        assert(s2.to_multiset().count(s2[i]) > 0);
        assert(s1.contains(s2[i]));
        let j = choose|j: int| 0 <= j < s1.len() && s1[j] == s2[i];
        assert(s1[j].wf());
    }
}

/// A sequence with the same key multiset as a duplicate-free sequence is
/// itself duplicate-free.
pub proof fn lemma_no_dup_from_multiset(s1: Seq<Key>, s2: Seq<Key>)
    requires
        s1.no_duplicates(),
        s2.to_multiset() == s1.to_multiset(),
    ensures
        s2.no_duplicates(),
{
    s1.lemma_multiset_has_no_duplicates();
    s2.lemma_multiset_has_no_duplicates_conv();
}

/// Exchanging two slots leaves the multiset of assigned keys unchanged.
pub proof fn lemma_swapped_to_multiset(s: Seq<Key>, i: int, j: int)
    requires
        0 <= i < s.len(),
        0 <= j < s.len(),
    ensures
        swapped(s, i, j).to_multiset() == s.to_multiset(),
{
    if i == j {
        assert(swapped(s, i, j) =~= s);
    } else {
        let lo = if i < j {
            i
        } else {
            j
        };
        let hi = if i < j {
            j
        } else {
            i
        };
        let t = swapped(s, i, j);
        let a = s.subrange(0, lo);
        let b = seq![s[lo]];
        let c = s.subrange(lo + 1, hi);
        let d = seq![s[hi]];
        let e = s.subrange(hi + 1, s.len() as int);
        assert(s =~= a + b + c + d + e);
        assert(t =~= a + d + c + b + e);
        lemma_multiset_commutative(a + b + c + d, e);
        lemma_multiset_commutative(a + b + c, d);
        lemma_multiset_commutative(a + b, c);
        lemma_multiset_commutative(a, b);
        lemma_multiset_commutative(a + d + c + b, e);
        lemma_multiset_commutative(a + d + c, b);
        lemma_multiset_commutative(a + d, c);
        lemma_multiset_commutative(a, d);
        assert(s.to_multiset() =~= t.to_multiset());
    }
}

/// Law: swapping slots `i` and `j` and then swapping them again restores
/// both the key sequence and the slot of every key exactly.
pub proof fn lemma_swap_twice_restores(s: Seq<Key>, i: int, j: int)
    requires
        0 <= i < s.len(),
        0 <= j < s.len(),
    ensures
        swapped(swapped(s, i, j), i, j) == s,
        forall|k: Key|
            first_slot_from(swapped(swapped(s, i, j), i, j), 0, k) == first_slot_from(s, 0, k),
{
    assert(swapped(swapped(s, i, j), i, j) =~= s);
}

} // verus!
