//! Hand-written ergonomic constraints: boolean predicates over the physical
//! positions two named keys end up at in a candidate layout, with `And`/`Or`
//! combinators.  Each constraint of the fixed set contributes one point to
//! the intuition score when satisfied, regardless of nesting.

use vstd::prelude::*;

use crate::keyboard::KeymapConfig;
use crate::keyboard::PhysicalKey;
use crate::keys::shifted_char;
use crate::keys::Key;
use crate::layout::first_slot_from;
use crate::layout::Layout;

verus! {

/// The two named keys a positional constraint speaks about.
pub struct IntuitionPair(pub Key, pub Key);

/// One ergonomic constraint over the positions of two named keys, or a
/// boolean combination of two constraints.
pub enum Intuition {
    Close(IntuitionPair),
    Symmetric(IntuitionPair),
    SameRow(IntuitionPair),
    SameColumn(IntuitionPair),
    LeftOf(IntuitionPair),
    RightOf(IntuitionPair),
    Above(IntuitionPair),
    Below(IntuitionPair),
    Or(Box<Intuition>, Box<Intuition>),
    And(Box<Intuition>, Box<Intuition>),
}

/// The largest column used by any slot of the keyboard, scanning slots from
/// `i` on; 0 past the end.
pub open spec fn max_col_from(keys: Seq<PhysicalKey>, i: int) -> int
    decreases keys.len() - i,
{
    if i < 0 || i >= keys.len() {
        0
    } else {
        let rest = max_col_from(keys, i + 1);
        if keys[i].position.0 >= rest {
            keys[i].position.0 as int
        } else {
            rest
        }
    }
}

/// Whether two positions mirror each other over the keyboard's vertical
/// centre line: the same row, and columns summing to the largest column.
pub open spec fn spec_are_symmetric(config: KeymapConfig, pos1: (u16, u16), pos2: (u16, u16)) -> bool {
    pos1.1 == pos2.1 && max_col_from(config.keys.0@, 0) == pos1.0 + pos2.0
}

impl IntuitionPair {
    /// Both named keys appear in the key assignment, which covers the
    /// keyboard.
    pub open spec fn wf(self, keys: Seq<Key>, config: KeymapConfig) -> bool {
        keys.contains(self.0) && keys.contains(self.1) && keys.len() == config.keys.0@.len()
    }

    /// The physical positions the two named keys occupy under the key
    /// assignment `keys`.
    pub open spec fn spec_positions(self, keys: Seq<Key>, config: KeymapConfig) -> (
        (u16, u16),
        (u16, u16),
    ) {
        (
            config.keys.0@[first_slot_from(keys, 0, self.0)].position,
            config.keys.0@[first_slot_from(keys, 0, self.1)].position,
        )
    }

    /// Look both keys' physical slots up in the layout.
    pub fn physical_keys(&self, layout: &Layout, config: &KeymapConfig) -> (keys: (
        PhysicalKey,
        PhysicalKey,
    ))
        requires
            self.wf(layout@, *config),
        ensures
            keys.0.position == self.spec_positions(layout@, *config).0,
            keys.1.position == self.spec_positions(layout@, *config).1,
    {
        let slot0 = layout.get(&self.0);
        let slot1 = layout.get(&self.1);
        (config.keys.0[slot0], config.keys.0[slot1])
    }
}

/// The squared grid distance of two positions.
pub open spec fn squared_cell_distance(p1: (u16, u16), p2: (u16, u16)) -> int {
    (p1.0 - p2.0) * (p1.0 - p2.0) + (p1.1 - p2.1) * (p1.1 - p2.1)
}

impl Intuition {
    /// Every key the constraint names appears in the layout.
    pub open spec fn wf(self, keys: Seq<Key>, config: KeymapConfig) -> bool
        decreases self,
    {
        match self {
            Intuition::Close(pair) => pair.wf(keys, config),
            Intuition::Symmetric(pair) => pair.wf(keys, config),
            Intuition::SameRow(pair) => pair.wf(keys, config),
            Intuition::SameColumn(pair) => pair.wf(keys, config),
            Intuition::LeftOf(pair) => pair.wf(keys, config),
            Intuition::RightOf(pair) => pair.wf(keys, config),
            Intuition::Above(pair) => pair.wf(keys, config),
            Intuition::Below(pair) => pair.wf(keys, config),
            Intuition::Or(a, b) => a.wf(keys, config) && b.wf(keys, config),
            Intuition::And(a, b) => a.wf(keys, config) && b.wf(keys, config),
        }
    }

    /// Whether the constraint holds of the positions its keys occupy in
    /// `layout`.  Keys closer than 1.1 cells count as close; on an integer
    /// grid that is a squared distance of at most 1.
    pub open spec fn spec_satisfied(self, keys: Seq<Key>, config: KeymapConfig) -> bool
        decreases self,
    {
        match self {
            Intuition::Close(pair) => {
                let (p1, p2) = pair.spec_positions(keys, config);
                squared_cell_distance(p1, p2) <= 1
            },
            Intuition::Symmetric(pair) => {
                let (p1, p2) = pair.spec_positions(keys, config);
                spec_are_symmetric(config, p1, p2)
            },
            Intuition::SameRow(pair) => {
                let (p1, p2) = pair.spec_positions(keys, config);
                p1.1 == p2.1
            },
            Intuition::SameColumn(pair) => {
                let (p1, p2) = pair.spec_positions(keys, config);
                p1.0 == p2.0
            },
            Intuition::LeftOf(pair) => {
                let (p1, p2) = pair.spec_positions(keys, config);
                p1.0 < p2.0
            },
            Intuition::RightOf(pair) => {
                let (p1, p2) = pair.spec_positions(keys, config);
                p1.0 > p2.0
            },
            Intuition::Above(pair) => {
                let (p1, p2) = pair.spec_positions(keys, config);
                p1.1 < p2.1
            },
            Intuition::Below(pair) => {
                let (p1, p2) = pair.spec_positions(keys, config);
                p1.1 > p2.1
            },
            Intuition::Or(a, b) => a.spec_satisfied(keys, config) || b.spec_satisfied(
                keys,
                config,
            ),
            Intuition::And(a, b) => a.spec_satisfied(keys, config) && b.spec_satisfied(
                keys,
                config,
            ),
        }
    }

    /// Check that every key this constraint names is assigned by the
    /// layout, and that the layout covers the keyboard.
    pub fn keys_present(&self, layout: &Layout, config: &KeymapConfig) -> (ok: bool)
        ensures
            ok == self.wf(layout@, *config),
        decreases *self,
    {
        match self {
            Intuition::Close(pair) | Intuition::Symmetric(pair) | Intuition::SameRow(pair)
                | Intuition::SameColumn(pair) | Intuition::LeftOf(pair) | Intuition::RightOf(pair)
                | Intuition::Above(pair) | Intuition::Below(pair) => layout.contains_key(&pair.0)
                && layout.contains_key(&pair.1) && layout.keys().len() == config.keys.0.len(),
            Intuition::Or(a, b) => a.keys_present(layout, config) && b.keys_present(layout, config),
            Intuition::And(a, b) => a.keys_present(layout, config) && b.keys_present(
                layout,
                config,
            ),
        }
    }

    /// Decide the constraint for `layout`.
    pub fn satisfied(&self, layout: &Layout, config: &KeymapConfig) -> (sat: bool)
        requires
            self.wf(layout@, *config),
        ensures
            sat == self.spec_satisfied(layout@, *config),
        decreases *self,
    {
        match self {
            Intuition::Close(pair) => {
                let (key1, key2) = pair.physical_keys(layout, config);
                let (x1, y1) = key1.position;
                let (x2, y2) = key2.position;
                let dx: u32 = if x1 >= x2 {
                    (x1 - x2) as u32
                } else {
                    (x2 - x1) as u32
                };
                let dy: u32 = if y1 >= y2 {
                    (y1 - y2) as u32
                } else {
                    (y2 - y1) as u32
                };
                proof {
                    assert(dx as int * dx as int == (x1 - x2) * (x1 - x2) && dx * dx
                        <= 4_294_836_225u32 && dy as int * dy as int == (y1 - y2) * (y1 - y2)
                        && dy * dy <= 4_294_836_225u32) by (nonlinear_arith)
                        requires
                            dx == x1 - x2 || dx == x2 - x1,
                            dy == y1 - y2 || dy == y2 - y1,
                            dx <= 0xFFFFu32,
                            dy <= 0xFFFFu32,
                    ;
                }
                let dd: u64 = (dx as u64) * (dx as u64) + (dy as u64) * (dy as u64);
                dd <= 1
            },
            Intuition::Symmetric(pair) => {
                let (key1, key2) = pair.physical_keys(layout, config);
                are_symmetric(config, key1.position, key2.position)
            },
            Intuition::SameRow(pair) => {
                let (key1, key2) = pair.physical_keys(layout, config);
                key1.position.1 == key2.position.1
            },
            Intuition::SameColumn(pair) => {
                let (key1, key2) = pair.physical_keys(layout, config);
                key1.position.0 == key2.position.0
            },
            Intuition::LeftOf(pair) => {
                let (key1, key2) = pair.physical_keys(layout, config);
                key1.position.0 < key2.position.0
            },
            Intuition::RightOf(pair) => {
                let (key1, key2) = pair.physical_keys(layout, config);
                key1.position.0 > key2.position.0
            },
            Intuition::Above(pair) => {
                let (key1, key2) = pair.physical_keys(layout, config);
                key1.position.1 < key2.position.1
            },
            Intuition::Below(pair) => {
                let (key1, key2) = pair.physical_keys(layout, config);
                key1.position.1 > key2.position.1
            },
            Intuition::Or(a, b) => a.satisfied(layout, config) || b.satisfied(layout, config),
            Intuition::And(a, b) => a.satisfied(layout, config) && b.satisfied(layout, config),
        }
    }
}

/// Check that every key a constraint set names is assigned by the layout
/// and that the layout covers the keyboard - the condition scoring a layout
/// against the set requires.  A `false` is a fatal configuration error.
pub fn intuitions_present(
    intuitions: &Vec<Intuition>,
    layout: &Layout,
    config: &KeymapConfig,
) -> (ok: bool)
    ensures
        ok == intuitions_wf(intuitions@, layout@, *config),
{
    let n = intuitions.len();
    let mut i: usize = 0;
    while i < n
        invariant
            0 <= i <= n,
            n == intuitions@.len(),
            forall|j: int| 0 <= j < i ==> (#[trigger] intuitions@[j]).wf(layout@, *config),
        decreases n - i,
    {
        if !intuitions[i].keys_present(layout, config) {
            return false;
        }
        i = i + 1;
    }
    true
}

/// Find the largest column used by any slot and compare: two positions are
/// symmetric when they share a row and their columns sum to it.
pub fn are_symmetric(config: &KeymapConfig, pos1: (u16, u16), pos2: (u16, u16)) -> (sym: bool)
    ensures
        sym == spec_are_symmetric(*config, pos1, pos2),
{
    if pos1.1 != pos2.1 {
        return false;
    }
    let n = config.keys.0.len();
    let mut max_col: u16 = 0;
    let mut i: usize = 0;
    while i < n
        invariant
            0 <= i <= n,
            n == config.keys.0@.len(),
            max_col_from(config.keys.0@, 0) == if max_col_from(config.keys.0@, i as int)
                >= max_col {
                max_col_from(config.keys.0@, i as int)
            } else {
                max_col as int
            },
        decreases n - i,
    {
        if config.keys.0[i].position.0 > max_col {
            max_col = config.keys.0[i].position.0;
        }
        i = i + 1;
    }
    (pos1.0 as u32) + (pos2.0 as u32) == (max_col as u32)
}

/// How many of the given constraints `layout` satisfies, counting the
/// constraints from index `i` on.
pub open spec fn intuition_count_from(
    intuitions: Seq<Intuition>,
    keys: Seq<Key>,
    config: KeymapConfig,
    i: int,
) -> int
    decreases intuitions.len() - i,
{
    if i < 0 || i >= intuitions.len() {
        0
    } else {
        (if intuitions[i].spec_satisfied(keys, config) {
            1int
        } else {
            0int
        }) + intuition_count_from(intuitions, keys, config, i + 1)
    }
}

/// Every constraint of the set names only keys the layout assigns.
pub open spec fn intuitions_wf(
    intuitions: Seq<Intuition>,
    keys: Seq<Key>,
    config: KeymapConfig,
) -> bool {
    forall|i: int|
        0 <= i < intuitions.len() ==> (#[trigger] intuitions[i]).wf(keys, config)
}

/// How many of the given constraints `layout` satisfies.  Each constraint
/// counts one point, however it is nested.
pub fn intuition_score(
    layout: &Layout,
    config: &KeymapConfig,
    intuitions: &Vec<Intuition>,
) -> (count: u64)
    requires
        intuitions_wf(intuitions@, layout@, *config),
        intuitions@.len() <= 0xFFFF_FFFFusize,
    ensures
        count == intuition_count_from(intuitions@, layout@, *config, 0),
        count <= intuitions@.len(),
{
    let n = intuitions.len();
    let mut count: u64 = 0;
    let mut i: usize = 0;
    while i < n
        invariant
            0 <= i <= n,
            n == intuitions@.len(),
            n <= 0xFFFF_FFFFusize,
            count <= i,
            intuitions_wf(intuitions@, layout@, *config),
            intuition_count_from(intuitions@, layout@, *config, 0) == count
                + intuition_count_from(intuitions@, layout@, *config, i as int),
        decreases n - i,
    {
        if intuitions[i].satisfied(layout, config) {
            count = count + 1;
        }
        i = i + 1;
    }
    count
}

/// A closeness constraint between two keys.
pub fn close(key1: Key, key2: Key) -> (ins: Intuition)
    ensures
        ins == Intuition::Close(IntuitionPair(key1, key2)),
{
    Intuition::Close(IntuitionPair(key1, key2))
}

/// A mirror-symmetry constraint between two keys.
pub fn symmetric(key1: Key, key2: Key) -> (ins: Intuition)
    ensures
        ins == Intuition::Symmetric(IntuitionPair(key1, key2)),
{
    Intuition::Symmetric(IntuitionPair(key1, key2))
}

/// A same-row constraint between two keys.
pub fn same_row(key1: Key, key2: Key) -> (ins: Intuition)
    ensures
        ins == Intuition::SameRow(IntuitionPair(key1, key2)),
{
    Intuition::SameRow(IntuitionPair(key1, key2))
}

/// A same-column constraint between two keys.
pub fn same_column(key1: Key, key2: Key) -> (ins: Intuition)
    ensures
        ins == Intuition::SameColumn(IntuitionPair(key1, key2)),
{
    Intuition::SameColumn(IntuitionPair(key1, key2))
}

/// The first key must sit in a column left of the second.
pub fn left_of(key1: Key, key2: Key) -> (ins: Intuition)
    ensures
        ins == Intuition::LeftOf(IntuitionPair(key1, key2)),
{
    Intuition::LeftOf(IntuitionPair(key1, key2))
}

/// The first key must sit in a column right of the second.
pub fn right_of(key1: Key, key2: Key) -> (ins: Intuition)
    ensures
        ins == Intuition::RightOf(IntuitionPair(key1, key2)),
{
    Intuition::RightOf(IntuitionPair(key1, key2))
}

/// The first key must sit in a row above the second.
pub fn above(key1: Key, key2: Key) -> (ins: Intuition)
    ensures
        ins == Intuition::Above(IntuitionPair(key1, key2)),
{
    Intuition::Above(IntuitionPair(key1, key2))
}

/// The first key must sit in a row below the second.
pub fn below(key1: Key, key2: Key) -> (ins: Intuition)
    ensures
        ins == Intuition::Below(IntuitionPair(key1, key2)),
{
    Intuition::Below(IntuitionPair(key1, key2))
}

/// Either constraint suffices.
pub fn or(a: Intuition, b: Intuition) -> (ins: Intuition)
    ensures
        ins == Intuition::Or(Box::new(a), Box::new(b)),
{
    Intuition::Or(Box::new(a), Box::new(b))
}

/// Both constraints must hold.
pub fn and(a: Intuition, b: Intuition) -> (ins: Intuition)
    ensures
        ins == Intuition::And(Box::new(a), Box::new(b)),
{
    Intuition::And(Box::new(a), Box::new(b))
}

/// The printable key with unshifted character `c` under the fixed shift
/// convention.
pub fn key(c: char) -> (k: Key)
    requires
        shifted_char(c) is Some,
    ensures
        k == (Key::Normal { normal: c, shifted: shifted_char(c)->Some_0 }),
{
    Key::from_char_default_shifted(c)
}

/// The printable key with unshifted character `c` under the fixed shift
/// convention.
pub open spec fn spec_key(c: char) -> Key {
    Key::Normal { normal: c, shifted: shifted_char(c)->Some_0 }
}

/// The fixed intuition set, entry by entry.
pub open spec fn intuitions_spec() -> Seq<Intuition> {
    seq![
        Intuition::And(
            Box::new(Intuition::SameRow(IntuitionPair(Key::Left, Key::Right))),
            Box::new(Intuition::LeftOf(IntuitionPair(Key::Left, Key::Right))),
        ),
        Intuition::And(
            Box::new(Intuition::SameColumn(IntuitionPair(Key::Up, Key::Down))),
            Box::new(Intuition::Above(IntuitionPair(Key::Up, Key::Down))),
        ),
        Intuition::Or(
            Box::new(Intuition::Close(IntuitionPair(Key::Left, Key::Right))),
            Box::new(Intuition::Symmetric(IntuitionPair(Key::Left, Key::Right))),
        ),
        Intuition::Or(
            Box::new(Intuition::Close(IntuitionPair(Key::Up, Key::Down))),
            Box::new(Intuition::Symmetric(IntuitionPair(Key::Up, Key::Down))),
        ),
        Intuition::Or(
            Box::new(Intuition::Close(IntuitionPair(Key::PageUp, Key::PageDown))),
            Box::new(Intuition::Symmetric(IntuitionPair(Key::PageUp, Key::PageDown))),
        ),
        Intuition::Or(
            Box::new(Intuition::Close(IntuitionPair(spec_key('['), spec_key(']')))),
            Box::new(Intuition::Symmetric(IntuitionPair(spec_key('['), spec_key(']')))),
        ),
        Intuition::Symmetric(IntuitionPair(Key::LShift, Key::RShift)),
        Intuition::Symmetric(IntuitionPair(Key::LCtrl, Key::RCtrl)),
        Intuition::Close(IntuitionPair(spec_key('1'), spec_key('2'))),
        Intuition::Close(IntuitionPair(spec_key('2'), spec_key('3'))),
        Intuition::Close(IntuitionPair(spec_key('4'), spec_key('5'))),
        Intuition::Close(IntuitionPair(spec_key('5'), spec_key('6'))),
        Intuition::Close(IntuitionPair(spec_key('7'), spec_key('8'))),
        Intuition::Close(IntuitionPair(spec_key('8'), spec_key('9'))),
        Intuition::Close(IntuitionPair(spec_key('1'), spec_key('4'))),
        Intuition::Close(IntuitionPair(spec_key('2'), spec_key('5'))),
        Intuition::Close(IntuitionPair(spec_key('3'), spec_key('6'))),
        Intuition::Close(IntuitionPair(spec_key('4'), spec_key('7'))),
        Intuition::Close(IntuitionPair(spec_key('5'), spec_key('8'))),
        Intuition::Close(IntuitionPair(spec_key('6'), spec_key('9'))),
    ]
}

/// The fixed, hand-written intuition set: arrows ordered and adjacent,
/// paired keys close or symmetric, shift and control mirrored, and digits
/// clustering with their numeric neighbours.
pub fn intuitions() -> (ins: Vec<Intuition>)
    ensures
        ins@ =~= intuitions_spec(),
        ins@.len() == 20,
{
    let mut ins: Vec<Intuition> = Vec::new();
    ins.push(and(same_row(Key::Left, Key::Right), left_of(Key::Left, Key::Right)));
    ins.push(and(same_column(Key::Up, Key::Down), above(Key::Up, Key::Down)));
    ins.push(or(close(Key::Left, Key::Right), symmetric(Key::Left, Key::Right)));
    ins.push(or(close(Key::Up, Key::Down), symmetric(Key::Up, Key::Down)));
    ins.push(or(close(Key::PageUp, Key::PageDown), symmetric(Key::PageUp, Key::PageDown)));
    ins.push(or(close(key('['), key(']')), symmetric(key('['), key(']'))));
    ins.push(symmetric(Key::LShift, Key::RShift));
    ins.push(symmetric(Key::LCtrl, Key::RCtrl));
    ins.push(close(key('1'), key('2')));
    ins.push(close(key('2'), key('3')));
    ins.push(close(key('4'), key('5')));
    ins.push(close(key('5'), key('6')));
    ins.push(close(key('7'), key('8')));
    ins.push(close(key('8'), key('9')));
    ins.push(close(key('1'), key('4')));
    ins.push(close(key('2'), key('5')));
    ins.push(close(key('3'), key('6')));
    ins.push(close(key('4'), key('7')));
    ins.push(close(key('5'), key('8')));
    ins.push(close(key('6'), key('9')));
    ins
}

} // verus!
