//! The best-layout snapshot: arrange a layout's keys as a rows-by-columns
//! grid of cells, one cell per physical position, empty where the keyboard
//! has no key.  Serializing and writing the grid is the caller's business;
//! this module only computes what goes in each cell.

use vstd::prelude::*;

use crate::intuition::max_col_from;
use crate::keyboard::KeymapConfig;
use crate::keyboard::PhysicalKey;
use crate::keys::Key;
use crate::layout::Layout;

verus! {

/// The largest row used by any slot of the keyboard, scanning slots from
/// `i` on; 0 past the end.
pub open spec fn max_row_from(keys: Seq<PhysicalKey>, i: int) -> int
    decreases keys.len() - i,
{
    if i < 0 || i >= keys.len() {
        0
    } else {
        let rest = max_row_from(keys, i + 1);
        if keys[i].position.1 >= rest {
            keys[i].position.1 as int
        } else {
            rest
        }
    }
}

/// The first slot at column `c`, row `r`, scanning slots from `i` on;
/// `None` when no slot sits there.
pub open spec fn slot_at_from(keys: Seq<PhysicalKey>, i: int, c: int, r: int) -> Option<int>
    decreases keys.len() - i,
{
    if i < 0 || i >= keys.len() {
        None
    } else if keys[i].position.0 == c && keys[i].position.1 == r {
        Some(i)
    } else {
        slot_at_from(keys, i + 1, c, r)
    }
}

/// The first slot at column `c`, row `r` of the keyboard, if any.
fn find_slot_at(config: &KeymapConfig, c: u16, r: u16) -> (slot: Option<usize>)
    ensures
        match slot {
            Some(k) => k < config.keys.0@.len() && Some(k as int) == slot_at_from(
                config.keys.0@,
                0,
                c as int,
                r as int,
            ),
            None => slot_at_from(config.keys.0@, 0, c as int, r as int) is None,
        },
{
    let n = config.keys.0.len();
    let mut i: usize = 0;
    while i < n
        invariant
            0 <= i <= n,
            n == config.keys.0@.len(),
            slot_at_from(config.keys.0@, 0, c as int, r as int) == slot_at_from(
                config.keys.0@,
                i as int,
                c as int,
                r as int,
            ),
        decreases n - i,
    {
        let pos = config.keys.0[i].position;
        if pos.0 == c && pos.1 == r {
            return Some(i);
        }
        i = i + 1;
    }
    None
}

/// The cell a grid holds at column `c`, row `r`: the key the layout assigns
/// to the slot there, or nothing when the keyboard has no slot there.
pub open spec fn spec_grid_cell(config: KeymapConfig, layout: Layout, c: int, r: int) -> Option<
    Key,
> {
    match slot_at_from(config.keys.0@, 0, c, r) {
        Some(k) => Some(layout@[k]),
        None => None,
    }
}

/// Arrange a layout as a grid of cells for persistence: row `r`, column
/// `c` holds the key assigned to the slot at position `(c, r)`, or nothing
/// where the keyboard has no key.
pub fn best_grid(config: &KeymapConfig, layout: &Layout) -> (grid: Vec<Vec<Option<Key>>>)
    requires
        layout@.len() == config.keys.0@.len(),
    ensures
        grid@.len() == max_row_from(config.keys.0@, 0) + 1,
        forall|r: int|
            0 <= r < grid@.len() ==> (#[trigger] grid@[r])@.len() == max_col_from(
                config.keys.0@,
                0,
            ) + 1,
        forall|r: int, c: int|
            0 <= r < grid@.len() && 0 <= c < max_col_from(config.keys.0@, 0) + 1 ==> (
            #[trigger] grid@[r]@[c]) == spec_grid_cell(*config, *layout, c, r),
{
    let n = config.keys.0.len();
    let mut max_row: u16 = 0;
    let mut i: usize = 0;
    while i < n
        invariant
            0 <= i <= n,
            n == config.keys.0@.len(),
            max_row_from(config.keys.0@, 0) == if max_row_from(config.keys.0@, i as int)
                >= max_row {
                max_row_from(config.keys.0@, i as int)
            } else {
                max_row as int
            },
        decreases n - i,
    {
        if config.keys.0[i].position.1 > max_row {
            max_row = config.keys.0[i].position.1;
        }
        i = i + 1;
    }
    let mut max_col: u16 = 0;
    let mut i2: usize = 0;
    while i2 < n
        invariant
            0 <= i2 <= n,
            n == config.keys.0@.len(),
            max_col_from(config.keys.0@, 0) == if max_col_from(config.keys.0@, i2 as int)
                >= max_col {
                max_col_from(config.keys.0@, i2 as int)
            } else {
                max_col as int
            },
        decreases n - i2,
    {
        if config.keys.0[i2].position.0 > max_col {
            max_col = config.keys.0[i2].position.0;
        }
        i2 = i2 + 1;
    }
    let rows: usize = (max_row as usize) + 1;
    let cols: usize = (max_col as usize) + 1;
    let mut grid: Vec<Vec<Option<Key>>> = Vec::new();
    let mut r: usize = 0;
    while r < rows
        invariant
            0 <= r <= rows,
            rows == max_row_from(config.keys.0@, 0) + 1,
            cols == max_col_from(config.keys.0@, 0) + 1,
            rows <= 65536,
            cols <= 65536,
            n == config.keys.0@.len(),
            layout@.len() == config.keys.0@.len(),
            grid@.len() == r,
            forall|r2: int| 0 <= r2 < r ==> (#[trigger] grid@[r2])@.len() == cols,
            forall|r2: int, c2: int|
                0 <= r2 < r && 0 <= c2 < cols ==> (#[trigger] grid@[r2]@[c2]) == spec_grid_cell(
                    *config,
                    *layout,
                    c2,
                    r2,
                ),
        decreases rows - r,
    {
        let mut row: Vec<Option<Key>> = Vec::new();
        let mut c: usize = 0;
        while c < cols
            invariant
                0 <= c <= cols,
                cols <= 65536,
                r < rows,
                rows <= 65536,
                n == config.keys.0@.len(),
                layout@.len() == config.keys.0@.len(),
                row@.len() == c,
                forall|c2: int|
                    0 <= c2 < c ==> (#[trigger] row@[c2]) == spec_grid_cell(
                        *config,
                        *layout,
                        c2,
                        r as int,
                    ),
            decreases cols - c,
        {
            let cell = match find_slot_at(config, c as u16, r as u16) {
                Some(k) => Some(layout.keys[k]),
                None => None,
            };
            row.push(cell);
            c = c + 1;
        }
        grid.push(row);
        r = r + 1;
    }
    grid
}

} // verus!
