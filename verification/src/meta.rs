//! Per-block mark state: one boolean per line plus one for the whole block,
//! and the hole-finding scan that locates the next maximal run of unmarked
//! lines.  A run that does not begin at line 0 gives up its first line (the
//! conservative skip), guarding against a live object whose tail spills into
//! that line without an explicit mark.

use vstd::prelude::*;

use crate::{BLOCK_SIZE, LINE_COUNT, LINE_SIZE};

verus! {

/// The end of the run of unmarked lines beginning at line `i`: the first
/// index at or after `i` that is marked or past the end of `m`.
pub open spec fn run_end(m: Seq<bool>, i: int) -> int
    decreases m.len() - i when 0 <= i <= m.len()
{
    if i >= m.len() {
        i
    } else if m[i] {
        i
    } else {
        run_end(m, i + 1)
    }
}

/// `run_end` delimits a maximal unmarked run: every line from `i` up to it
/// is unmarked, and the line at `run_end` itself, if any, is marked.
pub proof fn lemma_run_end(m: Seq<bool>, i: int)
    requires
        0 <= i <= m.len(),
    ensures
        i <= run_end(m, i) <= m.len(),
        forall|j: int| i <= j < run_end(m, i) ==> !m[j],
        run_end(m, i) < m.len() ==> m[run_end(m, i)],
    decreases m.len() - i,
{
    if i < m.len() && !m[i] {
        lemma_run_end(m, i + 1);
    }
}

/// The run end is the same seen from any line inside the run.
pub proof fn lemma_run_end_shift(m: Seq<bool>, i: int, k: int)
    requires
        0 <= i <= k <= m.len(),
        forall|j: int| i <= j < k ==> !m[j],
    ensures
        run_end(m, i) == run_end(m, k),
    decreases k - i,
{
    if i < k {
        assert(!m[i]);
        lemma_run_end_shift(m, i + 1, k);
    }
}

/// The first hole at or after line `s`, as a pair of line indices
/// `(start, end)`: take the first run of unmarked lines, drop its first line
/// unless the run begins at line 0 (the conservative skip), and keep the
/// result if at least one line is left; otherwise continue past the run.
pub open spec fn first_hole(m: Seq<bool>, s: int) -> Option<(int, int)>
    decreases m.len() - s when 0 <= s <= m.len()
{
    if s >= m.len() {
        None
    } else if m[s] {
        first_hole(m, s + 1)
    } else {
        let hole_end = run_end(m, s);
        let hole_start = if s == 0 { 0 } else { s + 1 };
        if hole_start < hole_end {
            Some((hole_start, hole_end))
        } else {
            proof {
                lemma_run_end(m, s + 1);
            }
            first_hole(m, hole_end)
        }
    }
}

/// The first hole at or after byte offset `starting_at`, as byte offsets.
pub open spec fn spec_hole(m: Seq<bool>, starting_at: int) -> Option<(int, int)> {
    match first_hole(m, starting_at / LINE_SIZE as int) {
        Some(h) => Some((h.0 * LINE_SIZE as int, h.1 * LINE_SIZE as int)),
        None => None,
    }
}

/// Every hole lies at or after the queried line, is non-empty, stays within
/// bounds, and consists of unmarked lines only.
pub proof fn lemma_first_hole_sound(m: Seq<bool>, s: int)
    requires
        0 <= s <= m.len(),
    ensures
        match first_hole(m, s) {
            Some(h) => s <= h.0 < h.1 <= m.len() && (forall|j: int| h.0 <= j < h.1 ==> !m[j]),
            None => true,
        },
    decreases m.len() - s,
{
    if s < m.len() {
        if m[s] {
            lemma_first_hole_sound(m, s + 1);
        } else {
            lemma_run_end(m, s);
            let hole_end = run_end(m, s);
            let hole_start = if s == 0 { 0int } else { s + 1 };
            if hole_start >= hole_end {
                lemma_first_hole_sound(m, hole_end);
            }
        }
    }
}

/// Hole enumeration law: each hole found from `starting_at` lies at or after
/// that offset, is non-empty and within the block, covers unmarked lines
/// only, and a further query from its limit yields only strictly later,
/// non-overlapping holes.  Repeated queries that restart at the previous
/// limit therefore enumerate the holes of a block in increasing order.
pub proof fn lemma_hole_enumeration(m: Seq<bool>, starting_at: int)
    requires
        m.len() == LINE_COUNT,
        0 <= starting_at <= BLOCK_SIZE,
    ensures
        match spec_hole(m, starting_at) {
            Some(h) => {
                &&& starting_at / LINE_SIZE as int * LINE_SIZE as int <= h.0 < h.1 <= BLOCK_SIZE
                &&& forall|j: int|
                    h.0 / LINE_SIZE as int <= j < h.1 / LINE_SIZE as int ==> !m[j]
                &&& match spec_hole(m, h.1) {
                    Some(h2) => h.1 <= h2.0 < h2.1 <= BLOCK_SIZE,
                    None => true,
                }
            },
            None => true,
        },
{
    let s = starting_at / LINE_SIZE as int;
    lemma_first_hole_sound(m, s);
    if first_hole(m, s) is Some {
        let (a, b) = first_hole(m, s)->Some_0;
        assert(b * LINE_SIZE as int / LINE_SIZE as int == b);
        lemma_first_hole_sound(m, b);
    }
}

/// Exhaustion is honest: when the scan from `s` returns no hole, none
/// remains.  Every unmarked line at or after `s` is isolated (the line after
/// it is marked or the block ends there), so no run has two lines and even
/// the conservative skip leaves nothing behind; and a scan of the whole
/// block can only come up empty if line 0 itself is marked.
pub proof fn lemma_first_hole_exhausted(m: Seq<bool>, s: int)
    requires
        0 <= s <= m.len(),
        first_hole(m, s) is None,
    ensures
        forall|j: int| s <= j && j + 1 < m.len() && !(#[trigger] m[j]) ==> m[j + 1],
        s == 0 && m.len() > 0 ==> m[0],
    decreases m.len() - s,
{
    if s < m.len() {
        if m[s] {
            lemma_first_hole_exhausted(m, s + 1);
        } else {
            lemma_run_end(m, s);
            let b = run_end(m, s);
            assert(s > 0);
            lemma_first_hole_exhausted(m, b);
        }
    }
}

/// The returned hole really is the first: wholly before it, every pair of
/// consecutive lines carries a mark, so no earlier run could have yielded a
/// hole once its first line is conservatively reserved.
pub proof fn lemma_first_hole_is_first(m: Seq<bool>, s: int)
    requires
        0 <= s <= m.len(),
    ensures
        match first_hole(m, s) {
            Some(h) => forall|j: int| s <= j && j + 1 < h.0 ==> #[trigger] m[j] || m[j + 1],
            None => true,
        },
    decreases m.len() - s,
{
    if s < m.len() && first_hole(m, s) is Some {
        if m[s] {
            lemma_first_hole_is_first(m, s + 1);
        } else {
            lemma_run_end(m, s);
            let b = run_end(m, s);
            let hole_start = if s == 0 { 0int } else { s + 1 };
            if hole_start >= b {
                lemma_first_hole_is_first(m, b);
                lemma_first_hole_sound(m, b);
            }
        }
    }
}

/// With no line marked, the block is one giant hole: the first hole from
/// offset 0 is the whole block, with no conservative skip at line 0.
pub proof fn lemma_unmarked_block_one_hole(m: Seq<bool>)
    requires
        m.len() == LINE_COUNT,
        forall|j: int| 0 <= j < m.len() ==> !m[j],
    ensures
        spec_hole(m, 0) == Some((0int, BLOCK_SIZE as int)),
{
    lemma_run_end_shift(m, 0, m.len() as int);
    assert(run_end(m, m.len() as int) == m.len());
    assert(first_hole(m, 0) == Some((0int, LINE_COUNT as int)));
}

/// With every line marked, the block has no hole at all.
pub proof fn lemma_marked_block_no_hole(m: Seq<bool>, s: int)
    requires
        0 <= s <= m.len(),
        forall|j: int| 0 <= j < m.len() ==> m[j],
    ensures
        first_hole(m, s) is None,
    decreases m.len() - s,
{
    if s < m.len() {
        lemma_marked_block_no_hole(m, s + 1);
    }
}

/// Per-block mark state: one flag per line, set by the external tracer for
/// lines touched by live objects, and one flag for the whole block.
pub struct BlockMeta {
    line_mark: Vec<bool>,
    block_mark: bool,
}

impl BlockMeta {
    /// The per-line mark flags, one per line of the block.
    pub closed spec fn lines(self) -> Seq<bool> {
        self.line_mark@
    }

    /// Whether any line of the block is marked.
    pub closed spec fn spec_block_mark(self) -> bool {
        self.block_mark
    }

    /// There is one flag per line, and the block mark is set exactly when
    /// some line is marked.
    pub open spec fn wf(self) -> bool {
        &&& self.lines().len() == LINE_COUNT
        &&& self.spec_block_mark() == exists|i: int|
            0 <= i < self.lines().len() && self.lines()[i]
    }

    /// Fresh metadata: every line unmarked, block mark clear.
    pub fn new() -> (r: BlockMeta)
        ensures
            r.wf(),
            forall|j: int| 0 <= j < LINE_COUNT ==> !r.lines()[j],
            !r.spec_block_mark(),
    {
        let mut line_mark: Vec<bool> = Vec::new();
        let mut i: usize = 0;
        while i < LINE_COUNT
            invariant
                i <= LINE_COUNT,
                line_mark@.len() == i,
                forall|j: int| 0 <= j < i ==> !line_mark@[j],
            decreases LINE_COUNT - i,
        {
            line_mark.push(false);
            i = i + 1;
        }
        BlockMeta { line_mark, block_mark: false }
    }

    /// Mark-phase boundary: record that `line` holds live data.  Sets the
    /// line's flag and the block mark.
    pub fn mark_line(&mut self, line: usize)
        requires
            old(self).wf(),
            line < LINE_COUNT,
        ensures
            final(self).wf(),
            final(self).lines() == old(self).lines().update(line as int, true),
            final(self).spec_block_mark(),
    {
        self.line_mark.set(line, true);
        self.block_mark = true;
        proof {
            assert(self.lines()[line as int]);
        }
    }

    /// Clear every line mark and the block mark, ready for a new mark phase
    /// at the start of a collection cycle.
    pub fn clear_marks(&mut self)
        requires
            old(self).wf(),
        ensures
            final(self).wf(),
            forall|j: int| 0 <= j < LINE_COUNT ==> !final(self).lines()[j],
            !final(self).spec_block_mark(),
    {
        *self = BlockMeta::new();
    }

    /// Whether any line of the block is marked; when this is false after a
    /// collection, the whole block holds no live data and can be released.
    pub fn block_mark(&self) -> (r: bool)
        ensures
            r == self.spec_block_mark(),
    {
        self.block_mark
    }

    /// Locate the next hole: the first maximal run of unmarked lines at or
    /// after the line containing `starting_at`, with the first line of a run
    /// that does not begin at line 0 conservatively treated as reserved.
    /// Returns the hole as byte offsets `(cursor, limit)` within the block,
    /// or `None` if no hole remains before the end of the block.
    pub fn find_next_available_hole(&self, starting_at: usize) -> (r: Option<(usize, usize)>)
        requires
            self.wf(),
            starting_at <= BLOCK_SIZE,
        ensures
            match r {
                Some(h) => spec_hole(self.lines(), starting_at as int)
                    == Some((h.0 as int, h.1 as int)),
                None => spec_hole(self.lines(), starting_at as int) is None,
            },
            r matches Some(h) ==> {
                &&& starting_at as int / LINE_SIZE as int * LINE_SIZE as int <= h.0 < h.1
                    <= BLOCK_SIZE
                &&& h.0 % LINE_SIZE == 0
                &&& h.1 % LINE_SIZE == 0
                &&& forall|j: int|
                    h.0 as int / LINE_SIZE as int <= j < h.1 as int / LINE_SIZE as int
                        ==> !self.lines()[j]
            },
    {
        let ghost m = self.lines();
        let ghost s0 = starting_at as int / LINE_SIZE as int;
        let starting_line: usize = starting_at / LINE_SIZE;
        let mut count: usize = 0;
        let mut start: Option<usize> = None;
        let mut stop: usize = 0;
        let mut index: usize = starting_line;

        while index < LINE_COUNT
            invariant
                self.wf(),
                m == self.lines(),
                m.len() == LINE_COUNT,
                s0 == starting_line as int,
                s0 == starting_at as int / LINE_SIZE as int,
                starting_line <= index <= LINE_COUNT,
                count as int <= index as int - starting_line as int,
                forall|j: int| index - count <= j < index ==> !m[j],
                first_hole(m, s0) == first_hole(m, index - count),
                count > 0 && index - count == 0 ==> start == Some(0usize) && stop == index,
                count > 1 && index - count > 0 ==> start == Some((index - count + 1) as usize)
                    && stop == index,
                count == 1 && index - count > 0 ==> start is None,
                count == 0 ==> start is None,
                count > 0 && (index - count == 0 || count > 1) ==> index < LINE_COUNT,
            decreases LINE_COUNT - index,
        {
            let marked: bool = self.line_mark[index];
            if !marked {
                count = count + 1;
                if count == 1 && index > 0 {
                    // conservative skip: the first line of a fresh run that
                    // does not begin the block is treated as reserved
                } else {
                    if start.is_none() {
                        start = Some(index);
                    }
                    stop = index + 1;
                    if stop >= LINE_COUNT {
                        // the run reaches the end of the block
                        let s: usize = start.unwrap();
                        proof {
                            let a = index + 1 - count;
                            lemma_run_end_shift(m, a, LINE_COUNT as int);
                            assert(run_end(m, a) == LINE_COUNT);
                            assert(!m[a]);
                            assert(first_hole(m, s0) == first_hole(m, a));
                            assert(s == if a == 0 { 0int } else { a + 1 });
                            assert(first_hole(m, a) == Some((s as int, LINE_COUNT as int)));
                            lemma_first_hole_sound(m, s0);
                        }
                        return Some((s * LINE_SIZE, stop * LINE_SIZE));
                    }
                }
            } else {
                if count > 0 && start.is_some() {
                    let s: usize = start.unwrap();
                    proof {
                        let a = index - count;
                        lemma_run_end_shift(m, a, index as int);
                        assert(run_end(m, index as int) == index);
                        assert(!m[a]);
                        assert(first_hole(m, s0) == first_hole(m, a));
                        assert(s == if a == 0 { 0int } else { a + 1 });
                        assert(stop == index);
                        assert(first_hole(m, a) == Some((s as int, index as int)));
                        lemma_first_hole_sound(m, s0);
                    }
                    return Some((s * LINE_SIZE, stop * LINE_SIZE));
                }
                proof {
                    let a = index - count;
                    if count == 1 && a > 0 {
                        // the one-line run at `a` was conservatively skipped
                        // and yields nothing: the scan continues past it
                        assert(run_end(m, a) == run_end(m, index as int)) by {
                            lemma_run_end_shift(m, a, index as int);
                        }
                        assert(run_end(m, index as int) == index);
                        assert(first_hole(m, a) == first_hole(m, index as int));
                    }
                    assert(first_hole(m, index as int) == first_hole(m, index + 1));
                }
                count = 0;
                start = None;
            }
            index = index + 1;
        }
        proof {
            if count > 0 {
                let a = index - count;
                assert(count == 1 && a > 0);
                lemma_run_end_shift(m, a, LINE_COUNT as int);
                assert(run_end(m, a) == LINE_COUNT);
                assert(!m[a]);
                assert(first_hole(m, a) == first_hole(m, LINE_COUNT as int));
            }
            assert(first_hole(m, s0) is None);
        }
        None
    }
}

} // verus!
