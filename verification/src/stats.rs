//! The frequency model: how often each key, and each ordered pair of
//! consecutively pressed keys, occurred in the recorded typing history.  A
//! key or pair that was never recorded counts as zero.

use vstd::prelude::*;

use crate::keys::KeyCode;

verus! {

/// The largest number of distinct entries either frequency table may hold.
/// Keeps the exact sum of all counts inside 128 bits.
pub const MAX_FREQ_ENTRIES: usize = 0x4000_0000;

/// The count stored with key `c` from entry `i` of the table on, or 0 when
/// no entry from there on carries `c`.
pub open spec fn individual_from(table: Seq<(KeyCode, u64)>, i: int, c: KeyCode) -> u64
    decreases table.len() - i,
{
    if i < 0 || i >= table.len() {
        0
    } else if table[i].0 == c {
        table[i].1
    } else {
        individual_from(table, i + 1, c)
    }
}

/// The count stored with the ordered pair `(a, b)` from entry `i` of the
/// table on, or 0 when no entry from there on carries the pair.
pub open spec fn consecutive_from(
    table: Seq<(KeyCode, KeyCode, u64)>,
    i: int,
    a: KeyCode,
    b: KeyCode,
) -> u64
    decreases table.len() - i,
{
    if i < 0 || i >= table.len() {
        0
    } else if table[i].0 == a && table[i].1 == b {
        table[i].2
    } else {
        consecutive_from(table, i + 1, a, b)
    }
}

/// Usage frequencies observed in the typing history: per-key counts and
/// ordered consecutive-pair counts.
#[derive(Debug)]
pub struct Stats {
    pub individual_key_counts: Vec<(KeyCode, u64)>,
    pub consecutive_key_counts: Vec<(KeyCode, KeyCode, u64)>,
}

impl Stats {
    /// How often key `c` was pressed; zero when never recorded.
    pub open spec fn individual_count(self, c: KeyCode) -> u64 {
        individual_from(self.individual_key_counts@, 0, c)
    }

    /// How often key `b` was pressed directly after key `a`; zero when the
    /// pair was never recorded.
    pub open spec fn consecutive_count(self, a: KeyCode, b: KeyCode) -> u64 {
        consecutive_from(self.consecutive_key_counts@, 0, a, b)
    }

    /// The entries of the per-key table, for summing every count.
    pub open spec fn individual_entries(self) -> Seq<(KeyCode, u64)> {
        self.individual_key_counts@
    }

    /// The entries of the pair table, for summing every count.
    pub open spec fn consecutive_entries(self) -> Seq<(KeyCode, KeyCode, u64)> {
        self.consecutive_key_counts@
    }

    /// Each key and each pair appears at most once, and the tables are small
    /// enough that the sum of every count fits in 128 bits.
    pub open spec fn wf(self) -> bool {
        &&& self.individual_key_counts@.len() <= MAX_FREQ_ENTRIES
        &&& self.consecutive_key_counts@.len() <= MAX_FREQ_ENTRIES
        &&& forall|i: int, j: int|
            0 <= i < j < self.individual_key_counts@.len() ==> (
            #[trigger] self.individual_key_counts@[i]).0 != (
            #[trigger] self.individual_key_counts@[j]).0
        &&& forall|i: int, j: int|
            0 <= i < j < self.consecutive_key_counts@.len() ==> ((
            #[trigger] self.consecutive_key_counts@[i]).0 != (
            #[trigger] self.consecutive_key_counts@[j]).0 || self.consecutive_key_counts@[i].1
                != self.consecutive_key_counts@[j].1)
    }

    /// An empty history: every count zero.
    pub fn new() -> (stats: Stats)
        ensures
            stats.wf(),
            forall|c: KeyCode| #[trigger] stats.individual_count(c) == 0,
            forall|a: KeyCode, b: KeyCode| #[trigger] stats.consecutive_count(a, b) == 0,
            stats.individual_entries() =~= Seq::<(KeyCode, u64)>::empty(),
            stats.consecutive_entries() =~= Seq::<(KeyCode, KeyCode, u64)>::empty(),
    {
        Stats { individual_key_counts: Vec::new(), consecutive_key_counts: Vec::new() }
    }

    /// How often key `c` was pressed.
    pub fn get_individual_count(&self, c: KeyCode) -> (count: u64)
        ensures
            count == self.individual_count(c),
    {
        let n = self.individual_key_counts.len();
        let mut i: usize = 0;
        while i < n
            invariant
                0 <= i <= n,
                n == self.individual_key_counts@.len(),
                individual_from(self.individual_key_counts@, 0, c) == individual_from(
                    self.individual_key_counts@,
                    i as int,
                    c,
                ),
            decreases n - i,
        {
            if self.individual_key_counts[i].0 == c {
                return self.individual_key_counts[i].1;
            }
            i = i + 1;
        }
        0
    }

    /// How often key `b` was pressed directly after key `a`.
    pub fn get_consecutive_count(&self, a: KeyCode, b: KeyCode) -> (count: u64)
        ensures
            count == self.consecutive_count(a, b),
    {
        let n = self.consecutive_key_counts.len();
        let mut i: usize = 0;
        while i < n
            invariant
                0 <= i <= n,
                n == self.consecutive_key_counts@.len(),
                consecutive_from(self.consecutive_key_counts@, 0, a, b) == consecutive_from(
                    self.consecutive_key_counts@,
                    i as int,
                    a,
                    b,
                ),
            decreases n - i,
        {
            if self.consecutive_key_counts[i].0 == a && self.consecutive_key_counts[i].1 == b {
                return self.consecutive_key_counts[i].2;
            }
            i = i + 1;
        }
        0
    }

    /// Record that key `c` was pressed `count` times.  Replaces any earlier
    /// count for `c` and leaves every other key's count unchanged.
    pub fn set_individual_count(&mut self, c: KeyCode, count: u64)
        requires
            old(self).wf(),
            old(self).individual_entries().len() < MAX_FREQ_ENTRIES,
        ensures
            final(self).wf(),
            final(self).individual_count(c) == count,
            forall|d: KeyCode|
                d != c ==> #[trigger] final(self).individual_count(d) == old(
                    self,
                ).individual_count(d),
            final(self).consecutive_entries() =~= old(self).consecutive_entries(),
    {
        let ghost table = old(self).individual_key_counts@;
        let n = self.individual_key_counts.len();
        let mut i: usize = 0;
        while i < n
            invariant
                0 <= i <= n,
                self.individual_key_counts@ == table,
                old(self).individual_key_counts@ == table,
                self.consecutive_key_counts@ == old(self).consecutive_key_counts@,
                n == table.len(),
                old(self).wf(),
                forall|j: int| 0 <= j < i ==> (#[trigger] table[j]).0 != c,
            decreases n - i,
        {
            if self.individual_key_counts[i].0 == c {
                self.individual_key_counts[i] = (c, count);
                proof {
                    lemma_individual_update(table, i as int, c, count);
                    assert forall|p: int, q: int|
                        0 <= p < q < self.individual_key_counts@.len() implies (
                    #[trigger] self.individual_key_counts@[p]).0 != (
                    #[trigger] self.individual_key_counts@[q]).0 by {
                        assert(self.individual_key_counts@[p].0 == table[p].0);
                        assert(self.individual_key_counts@[q].0 == table[q].0);
                    }
                }
                return ;
            }
            i = i + 1;
        }
        self.individual_key_counts.push((c, count));
        proof {
            lemma_individual_push(table, c, count);
            assert forall|p: int, q: int|
                0 <= p < q < self.individual_key_counts@.len() implies (
            #[trigger] self.individual_key_counts@[p]).0 != (
            #[trigger] self.individual_key_counts@[q]).0 by {
                assert(self.individual_key_counts@[p].0 == table.push((c, count))[p].0);
            }
        }
    }

    /// Record that key `b` followed key `a` `count` times.  Replaces any
    /// earlier count for the pair and leaves every other pair unchanged.
    pub fn set_consecutive_count(&mut self, a: KeyCode, b: KeyCode, count: u64)
        requires
            old(self).wf(),
            old(self).consecutive_entries().len() < MAX_FREQ_ENTRIES,
        ensures
            final(self).wf(),
            final(self).consecutive_count(a, b) == count,
            forall|x: KeyCode, y: KeyCode|
                (x != a || y != b) ==> #[trigger] final(self).consecutive_count(x, y) == old(
                    self,
                ).consecutive_count(x, y),
            final(self).individual_entries() =~= old(self).individual_entries(),
    {
        let ghost table = old(self).consecutive_key_counts@;
        let n = self.consecutive_key_counts.len();
        let mut i: usize = 0;
        while i < n
            invariant
                0 <= i <= n,
                self.consecutive_key_counts@ == table,
                old(self).consecutive_key_counts@ == table,
                self.individual_key_counts@ == old(self).individual_key_counts@,
                n == table.len(),
                old(self).wf(),
                forall|j: int| 0 <= j < i ==> ((#[trigger] table[j]).0 != a || table[j].1 != b),
            decreases n - i,
        {
            if self.consecutive_key_counts[i].0 == a && self.consecutive_key_counts[i].1 == b {
                self.consecutive_key_counts[i] = (a, b, count);
                proof {
                    lemma_consecutive_update(table, i as int, a, b, count);
                    assert forall|p: int, q: int|
                        0 <= p < q < self.consecutive_key_counts@.len() implies ((
                    #[trigger] self.consecutive_key_counts@[p]).0 != (
                    #[trigger] self.consecutive_key_counts@[q]).0
                        || self.consecutive_key_counts@[p].1
                        != self.consecutive_key_counts@[q].1) by {
                        assert(self.consecutive_key_counts@[p].0 == table[p].0
                            && self.consecutive_key_counts@[p].1 == table[p].1);
                        assert(self.consecutive_key_counts@[q].0 == table[q].0
                            && self.consecutive_key_counts@[q].1 == table[q].1);
                    }
                }
                return ;
            }
            i = i + 1;
        }
        self.consecutive_key_counts.push((a, b, count));
        proof {
            lemma_consecutive_push(table, a, b, count);
            assert forall|p: int, q: int|
                0 <= p < q < self.consecutive_key_counts@.len() implies ((
            #[trigger] self.consecutive_key_counts@[p]).0 != (
            #[trigger] self.consecutive_key_counts@[q]).0 || self.consecutive_key_counts@[p].1
                != self.consecutive_key_counts@[q].1) by {
                assert(self.consecutive_key_counts@[p] == table.push((a, b, count))[p]);
                assert(self.consecutive_key_counts@[q] == table.push((a, b, count))[q]);
            }
        }
    }
}

/// Updating the entry at a first-match index changes only that key's count.
proof fn lemma_individual_update(table: Seq<(KeyCode, u64)>, i: int, c: KeyCode, count: u64)
    requires
        0 <= i < table.len(),
        table[i].0 == c,
        forall|j: int| 0 <= j < i ==> (#[trigger] table[j]).0 != c,
    ensures
        individual_from(table.update(i, (c, count)), 0, c) == count,
        forall|d: KeyCode|
            d != c ==> #[trigger] individual_from(table.update(i, (c, count)), 0, d)
                == individual_from(table, 0, d),
{
    let updated = table.update(i, (c, count));
    assert forall|k: int| 0 <= k <= i implies individual_from(updated, k, c) == count by {
        lemma_individual_first_match(updated, k, i, c, count);
    }
    assert forall|d: KeyCode| d != c implies #[trigger] individual_from(updated, 0, d)
        == individual_from(table, 0, d) by {
        lemma_individual_other_key(table, i, c, count, d, 0);
    }
}

/// Walking toward a matching entry at `i` with no earlier match yields that
/// entry's count.
proof fn lemma_individual_first_match(
    table: Seq<(KeyCode, u64)>,
    k: int,
    i: int,
    c: KeyCode,
    count: u64,
)
    requires
        0 <= k <= i < table.len(),
        table[i] == (c, count),
        forall|j: int| 0 <= j < i ==> (#[trigger] table[j]).0 != c,
    ensures
        individual_from(table, k, c) == count,
    decreases i - k,
{
    if k < i {
        lemma_individual_first_match(table, k + 1, i, c, count);
    }
}

/// An update at an entry whose key is `c` leaves every other key's walk
/// unchanged.
proof fn lemma_individual_other_key(
    table: Seq<(KeyCode, u64)>,
    i: int,
    c: KeyCode,
    count: u64,
    d: KeyCode,
    k: int,
)
    requires
        0 <= i < table.len(),
        table[i].0 == c,
        d != c,
    ensures
        individual_from(table.update(i, (c, count)), k, d) == individual_from(table, k, d),
    decreases table.len() - k,
{
    if 0 <= k < table.len() {
        lemma_individual_other_key(table, i, c, count, d, k + 1);
    }
}

/// Appending a key that is absent from the table gives it the appended count
/// and leaves every other key's count unchanged.
proof fn lemma_individual_push(table: Seq<(KeyCode, u64)>, c: KeyCode, count: u64)
    requires
        forall|j: int| 0 <= j < table.len() ==> (#[trigger] table[j]).0 != c,
    ensures
        individual_from(table.push((c, count)), 0, c) == count,
        forall|d: KeyCode|
            d != c ==> #[trigger] individual_from(table.push((c, count)), 0, d)
                == individual_from(table, 0, d),
{
    let pushed = table.push((c, count));
    assert forall|k: int| 0 <= k <= table.len() implies individual_from(pushed, k, c)
        == count by {
        lemma_individual_first_match(pushed, k, table.len() as int, c, count);
    }
    assert forall|d: KeyCode| d != c implies #[trigger] individual_from(pushed, 0, d)
        == individual_from(table, 0, d) by {
        lemma_individual_push_other(table, c, count, d, 0);
    }
}

/// Appending an entry for `c` leaves the walk for any other key unchanged.
proof fn lemma_individual_push_other(
    table: Seq<(KeyCode, u64)>,
    c: KeyCode,
    count: u64,
    d: KeyCode,
    k: int,
)
    requires
        d != c,
    ensures
        individual_from(table.push((c, count)), k, d) == individual_from(table, k, d),
    decreases table.len() - k,
{
    if 0 <= k <= table.len() {
        if k < table.len() {
            lemma_individual_push_other(table, c, count, d, k + 1);
        } else {
            assert(individual_from(table.push((c, count)), k + 1, d) == 0);
        }
    }
}

/// Pair-table analogue of `lemma_individual_first_match`.
proof fn lemma_consecutive_first_match(
    table: Seq<(KeyCode, KeyCode, u64)>,
    k: int,
    i: int,
    a: KeyCode,
    b: KeyCode,
    count: u64,
)
    requires
        0 <= k <= i < table.len(),
        table[i] == (a, b, count),
        forall|j: int|
            0 <= j < i ==> ((#[trigger] table[j]).0 != a || table[j].1 != b),
    ensures
        consecutive_from(table, k, a, b) == count,
    decreases i - k,
{
    if k < i {
        lemma_consecutive_first_match(table, k + 1, i, a, b, count);
    }
}

/// Pair-table analogue of `lemma_individual_update`.
proof fn lemma_consecutive_update(
    table: Seq<(KeyCode, KeyCode, u64)>,
    i: int,
    a: KeyCode,
    b: KeyCode,
    count: u64,
)
    requires
        0 <= i < table.len(),
        table[i].0 == a,
        table[i].1 == b,
        forall|j: int|
            0 <= j < i ==> ((#[trigger] table[j]).0 != a || table[j].1 != b),
    ensures
        consecutive_from(table.update(i, (a, b, count)), 0, a, b) == count,
        forall|x: KeyCode, y: KeyCode|
            (x != a || y != b) ==> #[trigger] consecutive_from(
                table.update(i, (a, b, count)),
                0,
                x,
                y,
            ) == consecutive_from(table, 0, x, y),
{
    let updated = table.update(i, (a, b, count));
    lemma_consecutive_first_match(updated, 0, i, a, b, count);
    assert forall|x: KeyCode, y: KeyCode| x != a || y != b implies #[trigger] consecutive_from(
        updated,
        0,
        x,
        y,
    ) == consecutive_from(table, 0, x, y) by {
        lemma_consecutive_other_pair(table, i, a, b, count, x, y, 0);
    }
}

/// Pair-table analogue of `lemma_individual_other_key`.
proof fn lemma_consecutive_other_pair(
    table: Seq<(KeyCode, KeyCode, u64)>,
    i: int,
    a: KeyCode,
    b: KeyCode,
    count: u64,
    x: KeyCode,
    y: KeyCode,
    k: int,
)
    requires
        0 <= i < table.len(),
        table[i].0 == a,
        table[i].1 == b,
        x != a || y != b,
    ensures
        consecutive_from(table.update(i, (a, b, count)), k, x, y) == consecutive_from(
            table,
            k,
            x,
            y,
        ),
    decreases table.len() - k,
{
    if 0 <= k < table.len() {
        lemma_consecutive_other_pair(table, i, a, b, count, x, y, k + 1);
    }
}

/// Pair-table analogue of `lemma_individual_push`.
proof fn lemma_consecutive_push(
    table: Seq<(KeyCode, KeyCode, u64)>,
    a: KeyCode,
    b: KeyCode,
    count: u64,
)
    requires
        forall|j: int|
            0 <= j < table.len() ==> ((#[trigger] table[j]).0 != a || table[j].1 != b),
    ensures
        consecutive_from(table.push((a, b, count)), 0, a, b) == count,
        forall|x: KeyCode, y: KeyCode|
            (x != a || y != b) ==> #[trigger] consecutive_from(
                table.push((a, b, count)),
                0,
                x,
                y,
            ) == consecutive_from(table, 0, x, y),
{
    let pushed = table.push((a, b, count));
    lemma_consecutive_first_match(pushed, 0, table.len() as int, a, b, count);
    assert forall|x: KeyCode, y: KeyCode| x != a || y != b implies #[trigger] consecutive_from(
        pushed,
        0,
        x,
        y,
    ) == consecutive_from(table, 0, x, y) by {
        lemma_consecutive_push_other(table, a, b, count, x, y, 0);
    }
}

/// Pair-table analogue of `lemma_individual_push_other`.
proof fn lemma_consecutive_push_other(
    table: Seq<(KeyCode, KeyCode, u64)>,
    a: KeyCode,
    b: KeyCode,
    count: u64,
    x: KeyCode,
    y: KeyCode,
    k: int,
)
    requires
        x != a || y != b,
    ensures
        consecutive_from(table.push((a, b, count)), k, x, y) == consecutive_from(table, k, x, y),
    decreases table.len() - k,
{
    if 0 <= k <= table.len() {
        if k < table.len() {
            lemma_consecutive_push_other(table, a, b, count, x, y, k + 1);
        } else {
            assert(consecutive_from(table.push((a, b, count)), k + 1, x, y) == 0);
        }
    }
}

} // verus!
