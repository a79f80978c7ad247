//! The physical keyboard model: an ordered sequence of key slots, each with a
//! grid position, an assigned finger and an ease-of-reach score, plus the
//! per-finger dexterity table.  Both are read-only inputs of the optimizer.

use vstd::prelude::*;

use crate::keys::Finger;
use crate::keys::FingerConfig;
use crate::keys::KeyCode;

verus! {

/// The largest number of key slots a keyboard model may have.  Keeps every
/// exact fixed-point score total comfortably inside 128 bits.
pub const MAX_SLOTS: usize = 65536;

/// One physical key slot: the key code engraved on it in the reference
/// keymap, the finger assigned to it, its ease-of-reach score as a percentage
/// in `0..=100`, and its `(column, row)` position on the grid.
#[derive(Clone, Copy, Debug)]
pub struct PhysicalKey {
    pub code: KeyCode,
    pub finger: Finger,
    pub score: u32,
    pub position: (u16, u16),
}

impl PhysicalKey {
    /// An ease-of-reach percentage never exceeds 100.
    pub open spec fn wf(self) -> bool {
        self.score <= 100
    }
}

/// The ordered sequence of physical key slots, in the enumeration order the
/// geometry description uses (row-major, left to right, top to bottom).
#[derive(Debug)]
pub struct PhysicalKeyboard(pub Vec<PhysicalKey>);

impl PhysicalKeyboard {
    /// A keyboard with no slots yet.
    pub fn new() -> (kb: PhysicalKeyboard)
        ensures
            kb.0@ =~= Seq::<PhysicalKey>::empty(),
    {
        PhysicalKeyboard(Vec::new())
    }

    /// Append one slot at the end of the enumeration order.
    pub fn add_key(&mut self, key: PhysicalKey)
        ensures
            final(self).0@ =~= old(self).0@.push(key),
    {
        self.0.push(key);
    }

    /// All slots, in enumeration order.
    pub fn keys(&self) -> (keys: &Vec<PhysicalKey>)
        ensures
            keys@ =~= self.0@,
    {
        &self.0
    }
}

/// The complete physical model: the finger dexterity table and the slots.
#[derive(Debug)]
pub struct KeymapConfig {
    pub fingers: Vec<FingerConfig>,
    pub keys: PhysicalKeyboard,
}

/// The dexterity percentage of the first table entry for finger `f`, walking
/// the table from entry `i` on; `None` when no entry covers `f`.
pub open spec fn finger_score_from(table: Seq<FingerConfig>, i: int, f: Finger) -> Option<u32>
    decreases table.len() - i,
{
    if i < 0 || i >= table.len() {
        None
    } else if table[i].finger == f {
        Some(table[i].score)
    } else {
        finger_score_from(table, i + 1, f)
    }
}

impl KeymapConfig {
    /// The dexterity percentage the table assigns to finger `f`.
    pub open spec fn finger_score(self, f: Finger) -> Option<u32> {
        finger_score_from(self.fingers@, 0, f)
    }

    /// A usable configuration: at least one slot, every score a percentage,
    /// every slot's finger covered by the dexterity table, each key code on
    /// at most one slot (so layouts are true permutations), and few enough
    /// slots that exact score totals fit in 128 bits.
    pub open spec fn wf(self) -> bool {
        &&& self.keys.0@.len() > 0
        &&& self.keys.0@.len() <= MAX_SLOTS
        &&& forall|i: int|
            0 <= i < self.fingers@.len() ==> (#[trigger] self.fingers@[i]).wf()
        &&& forall|i: int|
            0 <= i < self.keys.0@.len() ==> (#[trigger] self.keys.0@[i]).wf()
        &&& forall|i: int|
            0 <= i < self.keys.0@.len() ==> (#[trigger] self.finger_score(
                self.keys.0@[i].finger,
            )) is Some
        &&& forall|i: int, j: int|
            0 <= i < j < self.keys.0@.len() ==> (#[trigger] self.keys.0@[i]).code != (
            #[trigger] self.keys.0@[j]).code
    }

    /// Look the finger `f` up in the dexterity table.
    pub fn lookup_finger_score(&self, f: Finger) -> (score: Option<u32>)
        ensures
            score == self.finger_score(f),
    {
        let n = self.fingers.len();
        let mut i: usize = 0;
        while i < n
            invariant
                0 <= i <= n,
                n == self.fingers@.len(),
                finger_score_from(self.fingers@, 0, f) == finger_score_from(self.fingers@, i as int, f),
            decreases n - i,
        {
            if self.fingers[i].finger == f {
                return Some(self.fingers[i].score);
            }
            i = i + 1;
        }
        None
    }

    /// Decide whether this configuration is usable: checked once at startup,
    /// before any scoring; a `false` is a fatal configuration error.
    pub fn validate(&self) -> (ok: bool)
        ensures
            ok == self.wf(),
    {
        let n = self.keys.0.len();
        if n == 0 || n > MAX_SLOTS {
            return false;
        }
        let fingers_len = self.fingers.len();
        let mut i: usize = 0;
        while i < fingers_len
            invariant
                0 <= i <= fingers_len,
                fingers_len == self.fingers@.len(),
                forall|j: int| 0 <= j < i ==> (#[trigger] self.fingers@[j]).wf(),
            decreases fingers_len - i,
        {
            if self.fingers[i].score > 100 {
                return false;
            }
            i = i + 1;
        }
        let mut k: usize = 0;
        while k < n
            invariant
                0 <= k <= n,
                n == self.keys.0@.len(),
                forall|j: int| 0 <= j < k ==> (#[trigger] self.keys.0@[j]).wf(),
                forall|j: int|
                    0 <= j < k ==> (#[trigger] self.finger_score(self.keys.0@[j].finger)) is Some,
            decreases n - k,
        {
            let key = &self.keys.0[k];
            if key.score > 100 {
                return false;
            }
            if self.lookup_finger_score(key.finger).is_none() {
                return false;
            }
            k = k + 1;
        }
        let mut p: usize = 0;
        while p < n
            invariant
                0 <= p <= n,
                n == self.keys.0@.len(),
                forall|i: int, j: int|
                    0 <= i < j < n && i < p ==> (#[trigger] self.keys.0@[i]).code != (
                    #[trigger] self.keys.0@[j]).code,
            decreases n - p,
        {
            let mut q: usize = p + 1;
            while q < n
                invariant
                    p < q <= n,
                    p < n,
                    n == self.keys.0@.len(),
                    forall|j: int|
                        p < j < q ==> (#[trigger] self.keys.0@[j]).code != self.keys.0@[
                            p as int
                        ].code,
                decreases n - q,
            {
                if self.keys.0[p].code == self.keys.0[q].code {
                    return false;
                }
                q = q + 1;
            }
            p = p + 1;
        }
        true
    }
}

} // verus!
