//! Code blocks in the conversation: which are expanded, how far each is scrolled
//! sideways, and where they stand among the drawn lines.

use vstd::prelude::*;
use vstd::string::*;
use crate::draw::{min, minus};
use crate::text::texts;

verus! {

/// Visible content lines of a collapsed code block.
pub const MAX_CODE_BLOCK_LINES: usize = 6;

/// Identifies a code block: the index of its entry and its ordinal within it.
pub type BlockId = (usize, usize);

/// The entry index under which the blocks of the streaming message stand until
/// that message becomes an entry.
pub const STREAMING: usize = usize::MAX;

fn sameId(a: BlockId, b: BlockId) -> (r: bool)
    ensures
        r == (a == b),
{
    a.0 == b.0 && a.1 == b.1
}

// ---- sideways scroll per block ----

/// How far code blocks are scrolled sideways.
pub struct BlockMap {
    pub items: Vec<(BlockId, u16)>,
}

/// The items as a map; of two with one key the later stands.
pub open spec fn map_of(e: Seq<(BlockId, u16)>) -> Map<BlockId, u16>
    decreases e.len(),
{
    if e.len() == 0 {
        Map::empty()
    } else {
        map_of(e.drop_last()).insert(e.last().0, e.last().1)
    }
}

impl View for BlockMap {
    type V = Map<BlockId, u16>;

    open spec fn view(&self) -> Map<BlockId, u16> {
        map_of(self.items@)
    }
}

/// The map with the blocks of the entry `from` handed to the entry `to`.
pub open spec fn handed_over(m: Map<BlockId, u16>, from: usize, to: usize) -> Map<BlockId, u16> {
    Map::new(
        |k: BlockId|
            (k.0 != from && m.dom().contains(k)) || (k.0 == to && m.dom().contains((from, k.1))),
        |k: BlockId|
            if k.0 == to && m.dom().contains((from, k.1)) {
                m[(from, k.1)]
            } else {
                m[k]
            },
    )
}

impl BlockMap {
    pub fn new() -> (r: Self)
        ensures
            r@ == Map::<BlockId, u16>::empty(),
    {
        BlockMap { items: Vec::new() }
    }

    /// The offset of a block.
    pub fn get(&self, id: BlockId) -> (r: Option<u16>)
        ensures
            match r {
                Some(x) => self@.dom().contains(id) && self@[id] == x,
                None => !self@.dom().contains(id),
            },
    {
        let mut i: usize = self.items.len();
        proof {
            assert(self.items@.take(self.items@.len() as int) =~= self.items@);
        }
        while i > 0
            invariant
                i <= self.items.len(),
                self@.dom().contains(id) == map_of(self.items@.take(i as int)).dom().contains(id),
                self@.dom().contains(id) ==> self@[id] == map_of(self.items@.take(i as int))[id],
            decreases i,
        {
            let ghost t = self.items@.take(i as int);
            proof {
                assert(t.drop_last() =~= self.items@.take(i - 1));
                assert(t.last() == self.items@[i - 1]);
            }
            if sameId(self.items[i - 1].0, id) {
                return Some(self.items[i - 1].1);
            }
            i = i - 1;
        }
        None
    }

    /// The offset of a block, 0 where none is kept.
    pub fn offset(&self, id: BlockId) -> (r: u16)
        ensures
            r == offset_in(self@, id),
    {
        match self.get(id) {
            Some(x) => x,
            None => 0,
        }
    }

    /// Forgets the offset of a block.
    pub fn remove(&mut self, id: BlockId)
        ensures
            final(self)@ == old(self)@.remove(id),
    {
        let mut out: Vec<(BlockId, u16)> = Vec::new();
        let mut i: usize = 0;
        proof {
            assert(map_of(out@) =~= map_of(self.items@.take(0)).remove(id));
        }
        while i < self.items.len()
            invariant
                *self == *old(self),
                i <= self.items.len(),
                map_of(out@) == map_of(self.items@.take(i as int)).remove(id),
            decreases self.items.len() - i,
        {
            let it = self.items[i];
            let ghost t = self.items@.take(i + 1);
            proof {
                assert(t.drop_last() =~= self.items@.take(i as int));
                assert(t.last() == it);
            }
            let ghost before = out@;
            if !sameId(it.0, id) {
                out.push(it);
                proof {
                    assert(out@.drop_last() =~= before);
                }
            }
            i = i + 1;
            proof {
                assert(map_of(out@) =~= map_of(t).remove(id));
            }
        }
        proof {
            assert(self.items@.take(self.items@.len() as int) =~= self.items@);
        }
        self.items = out;
    }

    /// Sets the offset of a block.
    pub fn insert(&mut self, id: BlockId, x: u16)
        ensures
            final(self)@ == old(self)@.insert(id, x),
    {
        self.remove(id);
        let ghost before = self.items@;
        self.items.push((id, x));
        proof {
            assert(self.items@.drop_last() =~= before);
            assert(self@ =~= old(self)@.insert(id, x));
        }
    }

    /// Forgets everything.
    pub fn clear(&mut self)
        ensures
            final(self)@ == Map::<BlockId, u16>::empty(),
    {
        self.items = Vec::new();
    }

    /// Hands the blocks of the entry `from` to the entry `to`.
    pub fn handOver(&mut self, from: usize, to: usize)
        requires
            from != to,
        ensures
            final(self)@ == handed_over(old(self)@, from, to),
    {
        let mut out: Vec<(BlockId, u16)> = Vec::new();
        let n: usize = self.items.len();
        let ghost m = self@;
        let mut i: usize = 0;
        proof {
            assert(map_of(out@) =~= without_entry(map_of(self.items@.take(0)), from));
        }
        while i < n
            invariant
                n == self.items@.len(),
                *self == *old(self),
                i <= n,
                map_of(out@) == without_entry(map_of(self.items@.take(i as int)), from),
            decreases n - i,
        {
            let it = self.items[i];
            let ghost t = self.items@.take(i + 1);
            proof {
                assert(t.drop_last() =~= self.items@.take(i as int));
                assert(t.last() == it);
            }
            let ghost before = out@;
            if it.0.0 != from {
                out.push(it);
                proof {
                    assert(out@.drop_last() =~= before);
                }
            }
            i = i + 1;
            proof {
                assert(map_of(out@) =~= without_entry(map_of(t), from));
            }
        }
        proof {
            assert(self.items@.take(n as int) =~= self.items@);
        }
        let ghost kept = map_of(out@);
        i = 0;
        proof {
            assert(map_of(out@) =~= merged(kept, map_of(self.items@.take(0)), from, to));
        }
        while i < n
            invariant
                n == self.items@.len(),
                *self == *old(self),
                i <= n,
                map_of(out@) == merged(kept, map_of(self.items@.take(i as int)), from, to),
            decreases n - i,
        {
            let it = self.items[i];
            let ghost t = self.items@.take(i + 1);
            let ghost before_m = map_of(self.items@.take(i as int));
            proof {
                assert(t.drop_last() =~= self.items@.take(i as int));
                assert(t.last() == it);
                assert(map_of(t) == before_m.insert(it.0, it.1));
            }
            let ghost before = out@;
            if it.0.0 == from {
                out.push(((to, it.0.1), it.1));
                proof {
                    assert(out@.drop_last() =~= before);
                    assert forall|k: BlockId| #![trigger map_of(t).dom().contains((from, k.1))]
                        map_of(t).dom().contains((from, k.1)) == (before_m.dom().contains(
                            (from, k.1),
                        ) || k.1 == it.0.1) by {
                        if k.1 == it.0.1 {
                            assert((from, k.1) == it.0);
                        }
                    }
                }
            } else {
                proof {
                    assert forall|k: BlockId| #![trigger map_of(t).dom().contains((from, k.1))]
                        map_of(t).dom().contains((from, k.1)) == before_m.dom().contains(
                            (from, k.1),
                        ) by {
                        assert((from, k.1) != it.0);
                    }
                }
            }
            i = i + 1;
            proof {
                assert(map_of(out@) =~= merged(kept, map_of(t), from, to));
            }
        }
        proof {
            assert(self.items@.take(n as int) =~= self.items@);
            assert(map_of(out@) =~= handed_over(m, from, to));
        }
        self.items = out;
    }
}

spec fn without_entry(m: Map<BlockId, u16>, from: usize) -> Map<BlockId, u16> {
    Map::new(|k: BlockId| k.0 != from && m.dom().contains(k), |k: BlockId| m[k])
}

spec fn merged(
    kept: Map<BlockId, u16>,
    m: Map<BlockId, u16>,
    from: usize,
    to: usize,
) -> Map<BlockId, u16> {
    Map::new(
        |k: BlockId| kept.dom().contains(k) || (k.0 == to && m.dom().contains((from, k.1))),
        |k: BlockId|
            if k.0 == to && m.dom().contains((from, k.1)) {
                m[(from, k.1)]
            } else {
                kept[k]
            },
    )
}

/// The offset that a map keeps for a block, 0 where it keeps none.
pub open spec fn offset_in(m: Map<BlockId, u16>, id: BlockId) -> u16 {
    if m.dom().contains(id) {
        m[id]
    } else {
        0
    }
}

// ---- expanded blocks ----

/// The code blocks that are expanded.
pub struct BlockSet {
    pub items: Vec<BlockId>,
}

impl View for BlockSet {
    type V = Set<BlockId>;

    open spec fn view(&self) -> Set<BlockId> {
        self.items@.to_set()
    }
}

impl BlockSet {
    pub fn new() -> (r: Self)
        ensures
            r@ == Set::<BlockId>::empty(),
    {
        let r = BlockSet { items: Vec::new() };
        proof {
            assert(r@ =~= Set::<BlockId>::empty());
        }
        r
    }

    /// Whether a block is expanded.
    pub fn contains(&self, id: BlockId) -> (r: bool)
        ensures
            r == self@.contains(id),
    {
        let mut i: usize = 0;
        while i < self.items.len()
            invariant
                i <= self.items.len(),
                forall|j: int| 0 <= j < i ==> self.items@[j] != id,
            decreases self.items.len() - i,
        {
            if sameId(self.items[i], id) {
                return true;
            }
            i = i + 1;
        }
        false
    }

    /// Marks a block as expanded.
    pub fn insert(&mut self, id: BlockId)
        ensures
            final(self)@ == old(self)@.insert(id),
    {
        let ghost before = self.items@;
        self.items.push(id);
        proof {
            assert forall|k: BlockId| #[trigger] self@.contains(k) == before.to_set().insert(
                id,
            ).contains(k) by {
                if before.contains(k) {
                    let j = choose|j: int| 0 <= j < before.len() && before[j] == k;
                    assert(self.items@[j] == k);
                }
                if k == id {
                    assert(self.items@[before.len() as int] == k);
                }
                if self.items@.contains(k) {
                    let j = choose|j: int| 0 <= j < self.items@.len() && self.items@[j] == k;
                    if j < before.len() {
                        assert(before[j] == k);
                    }
                }
            }
            assert(self@ =~= before.to_set().insert(id));
        }
    }

    /// Marks a block as collapsed.
    pub fn remove(&mut self, id: BlockId)
        ensures
            final(self)@ == old(self)@.remove(id),
    {
        let mut out: Vec<BlockId> = Vec::new();
        let mut i: usize = 0;
        while i < self.items.len()
            invariant
                *self == *old(self),
                i <= self.items.len(),
                forall|k: BlockId|
                    #[trigger] out@.contains(k) == (k != id && self.items@.take(i as int).contains(
                        k,
                    )),
            decreases self.items.len() - i,
        {
            let it = self.items[i];
            let ghost before = out@;
            if !sameId(it, id) {
                out.push(it);
            }
            proof {
                let t = self.items@.take(i as int);
                let u = self.items@.take(i + 1);
                assert(u =~= t.push(it));
                assert forall|k: BlockId| #[trigger] out@.contains(k) == (k != id && u.contains(
                    k,
                )) by {
                    if t.contains(k) {
                        let j = choose|j: int| 0 <= j < t.len() && t[j] == k;
                        assert(u[j] == k);
                    }
                    if k == it {
                        assert(u[t.len() as int] == k);
                    }
                    if u.contains(k) && k != it {
                        let j = choose|j: int| 0 <= j < u.len() && u[j] == k;
                        assert(t[j] == k);
                    }
                    if before.contains(k) {
                        let j = choose|j: int| 0 <= j < before.len() && before[j] == k;
                        assert(out@[j] == k);
                    }
                    if k == it && it != id {
                        assert(out@[before.len() as int] == k);
                    }
                    if out@.contains(k) && !before.contains(k) {
                        let j = choose|j: int| 0 <= j < out@.len() && out@[j] == k;
                        if j < before.len() {
                            assert(before[j] == k);
                        }
                    }
                }
            }
            i = i + 1;
        }
        proof {
            assert(self.items@.take(self.items@.len() as int) =~= self.items@);
            assert(out@.to_set() =~= self@.remove(id));
        }
        self.items = out;
    }

    /// Collapses every block.
    pub fn clear(&mut self)
        ensures
            final(self)@ == Set::<BlockId>::empty(),
    {
        self.items = Vec::new();
        proof {
            assert(self@ =~= Set::<BlockId>::empty());
        }
    }
}

// ---- blocks among the drawn lines ----

/// Where a code block was drawn.
#[derive(Debug)]
pub struct CodeBlockRange {
    /// First visual line (the top border).
    pub startLine: usize,
    /// Last visual line (the bottom border).
    pub endLine: usize,
    pub blockId: BlockId,
    /// Columns of the widest content line.
    pub maxContentWidth: usize,
    /// Columns between the borders.
    pub innerWidth: usize,
    /// The text of each content line, for selection.
    pub contentLines: Vec<String>,
    /// The code, for copying.
    pub rawCode: String,
    /// Column at which the "copy" label starts on the top border.
    pub copyLabelCol: u16,
    /// Whether the block has more lines than a collapsed one shows.
    pub collapsible: bool,
    /// Number of content lines.
    pub totalLines: usize,
}

/// A drawn code block as a value.
pub ghost struct RangeV {
    pub startLine: int,
    pub endLine: int,
    pub blockId: BlockId,
    pub maxContentWidth: int,
    pub innerWidth: int,
    pub contentLines: Seq<Seq<char>>,
    pub rawCode: Seq<char>,
    pub copyLabelCol: int,
    pub collapsible: bool,
    pub totalLines: int,
}

impl View for CodeBlockRange {
    type V = RangeV;

    open spec fn view(&self) -> RangeV {
        RangeV {
            startLine: self.startLine as int,
            endLine: self.endLine as int,
            blockId: self.blockId,
            maxContentWidth: self.maxContentWidth as int,
            innerWidth: self.innerWidth as int,
            contentLines: texts(self.contentLines@),
            rawCode: self.rawCode@,
            copyLabelCol: self.copyLabelCol as int,
            collapsible: self.collapsible,
            totalLines: self.totalLines as int,
        }
    }
}

/// The ranges of `v` as values.
pub open spec fn range_views(v: Seq<CodeBlockRange>) -> Seq<RangeV> {
    Seq::new(v.len(), |i: int| v[i]@)
}

/// The place of the first block that holds the visual line `line`, from `i` on.
pub open spec fn block_at(r: Seq<RangeV>, line: int, i: int) -> Option<int>
    decreases r.len() - i,
{
    if i >= r.len() {
        None
    } else if r[i].startLine <= line <= r[i].endLine {
        Some(i)
    } else {
        block_at(r, line, i + 1)
    }
}

/// The place of the first block that holds a visual line.
pub fn blockAt(r: &Vec<CodeBlockRange>, line: i64) -> (k: Option<usize>)
    ensures
        match k {
            Some(i) => i < r@.len() && block_at(range_views(r@), line as int, 0) == Some(i as int),
            None => block_at(range_views(r@), line as int, 0) is None,
        },
{
    let ghost rv = range_views(r@);
    let mut i: usize = 0;
    while i < r.len()
        invariant
            i <= r.len(),
            rv == range_views(r@),
            block_at(rv, line as int, 0) == block_at(rv, line as int, i as int),
        decreases r.len() - i,
    {
        proof {
            assert(rv[i as int] == r@[i as int]@);
        }
        if line >= 0 && r[i].startLine as u64 <= line as u64 && line as u64 <= r[i].endLine as u64 {
            return Some(i);
        }
        i = i + 1;
    }
    None
}

/// The place of the block `id`.
pub open spec fn block_named(r: Seq<RangeV>, id: BlockId, i: int) -> Option<int>
    decreases r.len() - i,
{
    if i >= r.len() {
        None
    } else if r[i].blockId == id {
        Some(i)
    } else {
        block_named(r, id, i + 1)
    }
}

/// The place of the first block `id`.
pub fn blockNamed(r: &Vec<CodeBlockRange>, id: BlockId) -> (k: Option<usize>)
    ensures
        match k {
            Some(i) => i < r@.len() && block_named(range_views(r@), id, 0) == Some(i as int),
            None => block_named(range_views(r@), id, 0) is None,
        },
{
    let ghost rv = range_views(r@);
    let mut i: usize = 0;
    while i < r.len()
        invariant
            i <= r.len(),
            rv == range_views(r@),
            block_named(rv, id, 0) == block_named(rv, id, i as int),
        decreases r.len() - i,
    {
        proof {
            assert(rv[i as int] == r@[i as int]@);
        }
        if sameId(r[i].blockId, id) {
            return Some(i);
        }
        i = i + 1;
    }
    None
}

/// The offset after scrolling by `delta` from `current`, at most `limit`.
pub open spec fn scrolled_by(current: int, delta: int, limit: int) -> int {
    if delta > 0 {
        min(min(current + delta, u16::MAX as int), limit)
    } else {
        minus(current, -delta)
    }
}

/// The offsets after the block of `r` was scrolled sideways by `delta`. A block
/// that fits does not scroll, and an offset of 0 is not kept. How far a block
/// scrolls is kept in 16 bits.
pub open spec fn scroll_block(m: Map<BlockId, u16>, r: RangeV, delta: int) -> Map<BlockId, u16> {
    let limit = minus(r.maxContentWidth, r.innerWidth) % 65536;
    if limit == 0 {
        m
    } else {
        let x = scrolled_by(offset_in(m, r.blockId) as int, delta, limit);
        if x == 0 {
            m.remove(r.blockId)
        } else {
            m.insert(r.blockId, x as u16)
        }
    }
}

/// Scrolls a drawn block sideways.
pub fn scrollBlock(m: &mut BlockMap, r: &CodeBlockRange, delta: i16)
    ensures
        final(m)@ == scroll_block(old(m)@, r@, delta as int),
{
    let wide: usize = r.maxContentWidth.saturating_sub(r.innerWidth);
    let limit: u16 = (wide % 65536) as u16;
    if limit == 0 {
        return;
    }
    let current: u16 = m.offset(r.blockId);
    let x: u16 = if delta > 0 {
        let moved: u16 = current.saturating_add(delta as u16);
        if moved < limit {
            moved
        } else {
            limit
        }
    } else {
        let back: i32 = -(delta as i32);
        current.saturating_sub(back as u16)
    };
    if x == 0 {
        m.remove(r.blockId);
    } else {
        m.insert(r.blockId, x);
    }
}

// ---- laws ----

/// A block never scrolls past its content, however far it is asked to.
pub proof fn law_scroll_stays_within_content(m: Map<BlockId, u16>, r: RangeV, delta: int)
    requires
        offset_in(m, r.blockId) <= minus(r.maxContentWidth, r.innerWidth),
        -32768 <= delta <= 32767,
    ensures
        offset_in(scroll_block(m, r, delta), r.blockId) <= minus(r.maxContentWidth, r.innerWidth),
        forall|k: BlockId|
            k != r.blockId ==> #[trigger] offset_in(scroll_block(m, r, delta), k) == offset_in(m, k),
{
}

} // verus!
