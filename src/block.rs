//! Read-block planning: coalesces catalog points into the fewest contiguous
//! bus requests under each register class's length limit.

use vstd::prelude::*;
use crate::catalog::{ModbusConfig, RegisterType, register_type_key};
use crate::codec::{decode_raw, decode_spec};

verus! {

pub open spec fn addr_of(pts: Seq<ModbusConfig>, i: int) -> int {
    pts[i].register_address as int
}

pub open spec fn width_of(pts: Seq<ModbusConfig>, i: int) -> int {
    pts[i].width()
}

pub open spec fn end_of(pts: Seq<ModbusConfig>, i: int) -> int {
    addr_of(pts, i) + width_of(pts, i)
}

pub open spec fn class_of(pts: Seq<ModbusConfig>, i: int) -> RegisterType {
    pts[i].register_type
}

/// Point `i` comes before point `j` in planning order: by class, then by
/// address, then by position in the catalog.
pub open spec fn precedes(pts: Seq<ModbusConfig>, i: int, j: int) -> bool {
    let ri = class_of(pts, i).rank();
    let rj = class_of(pts, j).rank();
    ri < rj || (ri == rj && (addr_of(pts, i) < addr_of(pts, j) || (addr_of(pts, i)
        == addr_of(pts, j) && i < j)))
}

/// `order` lists every point of `pts` once, in planning order.
pub open spec fn is_plan_order(pts: Seq<ModbusConfig>, order: Seq<usize>) -> bool {
    &&& order.len() == pts.len()
    &&& order.no_duplicates()
    &&& forall|k: int| 0 <= k < order.len() ==> order[k] < pts.len()
    &&& forall|i: usize| i < pts.len() ==> #[trigger] order.contains(i)
    &&& forall|k: int|
        0 <= k < order.len() - 1 ==> #[trigger] precedes(pts, order[k] as int, order[k + 1] as int)
}

proof fn lemma_sorted_pairwise(pts: Seq<ModbusConfig>, order: Seq<usize>, a: int, b: int)
    requires
        is_plan_order(pts, order),
        0 <= a < b < order.len(),
    ensures
        precedes(pts, order[a] as int, order[b] as int),
    decreases b - a,
{
    assert(precedes(pts, order[b - 1] as int, order[(b - 1) + 1] as int));
    if a < b - 1 {
        lemma_sorted_pairwise(pts, order, a, b - 1);
    }
}

/// There is one planning order of a catalog: `plan` is deterministic.
pub proof fn lemma_plan_order_unique(pts: Seq<ModbusConfig>, o1: Seq<usize>, o2: Seq<usize>)
    requires
        is_plan_order(pts, o1),
        is_plan_order(pts, o2),
    ensures
        o1 == o2,
{
    assert forall|k: int| 0 <= k < o1.len() implies o1[k] == o2[k] by {
        lemma_plan_order_prefix(pts, o1, o2, k);
    }
    assert(o1 =~= o2);
}

proof fn lemma_plan_order_prefix(pts: Seq<ModbusConfig>, o1: Seq<usize>, o2: Seq<usize>, k: int)
    requires
        is_plan_order(pts, o1),
        is_plan_order(pts, o2),
        0 <= k < o1.len(),
    ensures
        forall|m: int| 0 <= m <= k ==> o1[m] == o2[m],
    decreases k,
{
    if k > 0 {
        lemma_plan_order_prefix(pts, o1, o2, k - 1);
    }
    let x = o1[k];
    let y = o2[k];
    if x != y {
        assert(o2.contains(x));
        let p = choose|p: int| 0 <= p < o2.len() && o2[p] == x;
        assert(o1.contains(y));
        let q = choose|q: int| 0 <= q < o1.len() && o1[q] == y;
        if p < k {
            assert(o1[p] == x);
        }
        if q < k {
            assert(o2[q] == y);
        }
        assert(p > k && q > k);
        lemma_sorted_pairwise(pts, o2, k, p);
        lemma_sorted_pairwise(pts, o1, k, q);
    }
}

/// Whether `(rank, address)` of point `a` is strictly above that of `b`.
fn key_above(pts: &[ModbusConfig], a: usize, b: usize) -> (r: bool)
    requires
        a < pts@.len(),
        b < pts@.len(),
    ensures
        r == (class_of(pts@, a as int).rank() > class_of(pts@, b as int).rank() || (class_of(
            pts@,
            a as int,
        ).rank() == class_of(pts@, b as int).rank() && addr_of(pts@, a as int) > addr_of(
            pts@,
            b as int,
        ))),
{
    let ka = register_type_key(pts[a].register_type);
    let kb = register_type_key(pts[b].register_type);
    ka > kb || (ka == kb && pts[a].register_address > pts[b].register_address)
}

/// Positions of the points in planning order (a stable sort by class and
/// address).
fn plan_order(pts: &[ModbusConfig]) -> (order: Vec<usize>)
    ensures
        is_plan_order(pts@, order@),
{
    let n = pts.len();
    let mut order: Vec<usize> = Vec::new();
    let mut k: usize = 0;
    while k < n
        invariant
            k <= n == pts@.len(),
            order@.len() == k,
            order@.no_duplicates(),
            forall|j: int| 0 <= j < order@.len() ==> order@[j] < k,
            forall|j: usize| j < k ==> #[trigger] order@.contains(j),
            forall|j: int|
                0 <= j < order@.len() - 1 ==> #[trigger] precedes(
                    pts@,
                    order@[j] as int,
                    order@[j + 1] as int,
                ),
        decreases n - k,
    {
        let mut pos: usize = 0;
        while pos < order.len() && !key_above(pts, order[pos], k)
            invariant
                k < n == pts@.len(),
                pos <= order@.len(),
                forall|j: int| 0 <= j < order@.len() ==> order@[j] < k,
                forall|j: int|
                    0 <= j < pos ==> !(class_of(pts@, order@[j] as int).rank() > class_of(
                        pts@,
                        k as int,
                    ).rank() || (class_of(pts@, order@[j] as int).rank() == class_of(
                        pts@,
                        k as int,
                    ).rank() && addr_of(pts@, order@[j] as int) > addr_of(pts@, k as int))),
            decreases order@.len() - pos,
        {
            pos = pos + 1;
        }
        let ghost old_order = order@;
        order.insert(pos, k);
        assert(order@ == old_order.insert(pos as int, k));
        assert forall|a: int, b: int|
            0 <= a < order@.len() && 0 <= b < order@.len() && a != b implies order@[a]
            != order@[b] by {
            if a < pos && b < pos {
            } else if a < pos && b > pos {
                assert(order@[b] == old_order[b - 1]);
            } else if a > pos && b < pos {
                assert(order@[a] == old_order[a - 1]);
            } else if a > pos && b > pos {
                assert(order@[a] == old_order[a - 1]);
                assert(order@[b] == old_order[b - 1]);
            } else if a == pos && b != pos {
                if b < pos {
                } else {
                    assert(order@[b] == old_order[b - 1]);
                }
            } else {
                if a < pos {
                } else {
                    assert(order@[a] == old_order[a - 1]);
                }
            }
        }
        assert forall|j: int| 0 <= j < order@.len() - 1 implies #[trigger] precedes(
            pts@,
            order@[j] as int,
            order@[j + 1] as int,
        ) by {
            if j + 1 < pos {
                assert(precedes(pts@, old_order[j] as int, old_order[j + 1] as int));
            } else if j + 1 == pos {
                assert(old_order[j] < k);
            } else if j == pos {
            } else {
                assert(order@[j] == old_order[j - 1]);
                assert(order@[j + 1] == old_order[j]);
                let i = j - 1;
                assert(precedes(pts@, old_order[i] as int, old_order[i + 1] as int));
            }
        }
        assert forall|j: usize| j < k + 1 implies #[trigger] order@.contains(j) by {
            if j < k {
                assert(old_order.contains(j));
                let w = choose|w: int| 0 <= w < old_order.len() && old_order[w] == j;
                if w < pos {
                    assert(order@[w] == j);
                } else {
                    assert(order@[w + 1] == j);
                }
            } else {
                assert(order@[pos as int] == k);
            }
        }
        k = k + 1;
    }
    order
}


/// The portion of a block that one catalog point occupies.
#[derive(Debug, Clone, Copy, PartialEq, Eq, Structural)]
pub struct Region {
    /// Position of the point in the catalog that was planned.
    pub index: usize,
    /// First register (or bit) of the point, counted from the block's start.
    pub offset: u16,
    pub width: u16,
}

/// One contiguous bus read: `len` registers (or bits) from `start`.
#[derive(Debug)]
pub struct Block {
    pub register_type: RegisterType,
    pub start: u16,
    pub len: u16,
    pub regions: Vec<Region>,
}

/// The planned reads of a catalog, class by class in address order.
#[derive(Debug)]
pub struct Blocks(pub Vec<Block>);

#[derive(Debug, Clone, Copy, PartialEq, Eq, Structural)]
pub enum BuildBlocksError {
    /// The point read at `next_start` begins inside the block being built,
    /// which covers `[block_start, block_end)`.
    Overlap { register_type: RegisterType, block_start: u16, block_end: u32, next_start: u16 },
    /// The last register of a point lies beyond address 0xFFFF.
    AddressOverflow { register_type: RegisterType, address: u16, width: u16 },
}

/// Every register of point `i` has an address of at most 0xFFFF.
pub open spec fn fits(pts: Seq<ModbusConfig>, i: int) -> bool {
    end_of(pts, i) <= 0x10000
}

pub open spec fn all_fit(pts: Seq<ModbusConfig>) -> bool {
    forall|i: int| 0 <= i < pts.len() ==> #[trigger] fits(pts, i)
}

/// Two distinct points of one class share a register.
pub open spec fn has_class_overlap(pts: Seq<ModbusConfig>) -> bool {
    exists|i: int, j: int|
        0 <= i < pts.len() && 0 <= j < pts.len() && i != j && #[trigger] class_of(pts, i)
            == #[trigger] class_of(pts, j) && addr_of(pts, i) <= addr_of(pts, j) < end_of(pts, i)
}

/// The points at positions `k` and `k + 1` of `order` are of one class and
/// the second starts before the first ends.
pub open spec fn overlaps_at(pts: Seq<ModbusConfig>, order: Seq<usize>, k: int) -> bool {
    &&& class_of(pts, order[k] as int) == class_of(pts, order[k + 1] as int)
    &&& addr_of(pts, order[k + 1] as int) < end_of(pts, order[k] as int)
}

pub open spec fn no_overlap_before(pts: Seq<ModbusConfig>, order: Seq<usize>, k: int) -> bool {
    forall|m: int| 0 <= m < k ==> !#[trigger] overlaps_at(pts, order, m)
}

/// The point at position `k` of `order` extends the block that began at
/// position `s` and holds position `k - 1`.
pub open spec fn joins(pts: Seq<ModbusConfig>, order: Seq<usize>, k: int, s: int) -> bool {
    let prev = order[k - 1] as int;
    let next = order[k] as int;
    &&& class_of(pts, prev) == class_of(pts, next)
    &&& addr_of(pts, next) == end_of(pts, prev)
    &&& end_of(pts, prev) - addr_of(pts, order[s] as int) + width_of(pts, next) <= class_of(
        pts,
        next,
    ).max_len()
}

/// Position in `order` at which the block holding position `k` begins.
pub open spec fn seg_start(pts: Seq<ModbusConfig>, order: Seq<usize>, k: int) -> int
    decreases k,
{
    if k <= 0 {
        0
    } else {
        let s = seg_start(pts, order, k - 1);
        if joins(pts, order, k, s) {
            s
        } else {
            k
        }
    }
}

pub open spec fn region_indices(rs: Seq<Region>) -> Seq<usize> {
    rs.map_values(|r: Region| r.index)
}

/// Catalog positions of the regions of all blocks, block after block.
pub open spec fn flatten(bs: Seq<Block>) -> Seq<usize>
    decreases bs.len(),
{
    if bs.len() == 0 {
        Seq::empty()
    } else {
        flatten(bs.drop_last()) + region_indices(bs.last().regions@)
    }
}

/// A block is non-empty, within its class's limit, and its regions are the
/// consecutive points of its class that it covers, each at its own address.
pub open spec fn block_ok(pts: Seq<ModbusConfig>, b: Block) -> bool {
    let rs = b.regions@;
    &&& rs.len() > 0
    &&& b.start as int == addr_of(pts, rs[0].index as int)
    &&& forall|r: int|
        0 <= r < rs.len() ==> {
            &&& (#[trigger] rs[r]).index < pts.len()
            &&& class_of(pts, rs[r].index as int) == b.register_type
            &&& rs[r].width as int == width_of(pts, rs[r].index as int)
            &&& rs[r].offset as int == addr_of(pts, rs[r].index as int) - b.start
        }
    &&& forall|r: int|
        0 <= r < rs.len() - 1 ==> (#[trigger] rs[r + 1]).offset == rs[r].offset + rs[r].width
    &&& b.len as int == rs.last().offset + rs.last().width
    &&& b.len as int <= b.register_type.max_len()
}

/// Block `c` could have been read together with block `b`.
pub open spec fn mergeable(b: Block, c: Block) -> bool {
    &&& b.register_type == c.register_type
    &&& c.start as int == b.start + b.len
    &&& b.len + c.regions@[0].width <= b.register_type.max_len()
}

/// `bs` reads every point once, in planning order, with well-formed blocks
/// of which no two could be merged.
pub open spec fn plan_valid(pts: Seq<ModbusConfig>, order: Seq<usize>, bs: Seq<Block>) -> bool {
    &&& flatten(bs) == order
    &&& forall|j: int| 0 <= j < bs.len() ==> block_ok(pts, #[trigger] bs[j])
    &&& forall|j: int, k: int|
        0 <= j < k < bs.len() ==> !mergeable(#[trigger] bs[j], #[trigger] bs[k])
}

/// Blocks come class by class, and within a class each starts at or after
/// the end of the one before it.
pub open spec fn blocks_ordered(bs: Seq<Block>) -> bool {
    forall|j: int| 0 <= j < bs.len() - 1 ==> #[trigger] block_follows(bs[j], bs[j + 1])
}

/// Block `c` may come right after block `b`.
pub open spec fn block_follows(b: Block, c: Block) -> bool {
    &&& b.register_type.rank() <= c.register_type.rank()
    &&& b.register_type == c.register_type ==> c.start >= b.start + b.len
}

proof fn lemma_block_rank_monotone(bs: Seq<Block>, j: int, k: int)
    requires
        blocks_ordered(bs),
        0 <= j <= k < bs.len(),
    ensures
        bs[j].register_type.rank() <= bs[k].register_type.rank(),
    decreases k - j,
{
    if j < k {
        lemma_block_rank_monotone(bs, j, k - 1);
        assert(block_follows(bs[k - 1], bs[(k - 1) + 1]));
    }
}

proof fn lemma_block_starts(bs: Seq<Block>, j: int, k: int)
    requires
        blocks_ordered(bs),
        forall|m: int| 0 <= m < bs.len() ==> (#[trigger] bs[m]).len >= 1,
        0 <= j < k < bs.len(),
        bs[j].register_type == bs[k].register_type,
    ensures
        bs[k].start >= bs[j].start + bs[j].len,
    decreases k - j,
{
    let m = k - 1;
    assert(block_follows(bs[m], bs[m + 1]));
    if j < m {
        lemma_block_rank_monotone(bs, j, m);
        lemma_block_rank_monotone(bs, m, k);
        lemma_block_starts(bs, j, m);
    }
}

/// With neighbours not mergeable and blocks in order, no two blocks are.
proof fn lemma_no_pair_mergeable(bs: Seq<Block>)
    requires
        blocks_ordered(bs),
        forall|m: int| 0 <= m < bs.len() ==> (#[trigger] bs[m]).len >= 1,
        forall|j: int| 0 <= j < bs.len() - 1 ==> !#[trigger] mergeable(bs[j], bs[j + 1]),
    ensures
        forall|j: int, k: int|
            0 <= j < k < bs.len() ==> !mergeable(#[trigger] bs[j], #[trigger] bs[k]),
{
    assert forall|j: int, k: int| 0 <= j < k < bs.len() implies !mergeable(
        #[trigger] bs[j],
        #[trigger] bs[k],
    ) by {
        if k == j + 1 {
        } else if bs[j].register_type == bs[k].register_type {
            lemma_block_rank_monotone(bs, j, j + 1);
            lemma_block_rank_monotone(bs, j + 1, k);
            lemma_block_starts(bs, j + 1, k);
            assert(block_follows(bs[j], bs[j + 1]));
        }
    }
}

proof fn lemma_flatten_push(bs: Seq<Block>, b: Block)
    ensures
        flatten(bs.push(b)) == flatten(bs) + region_indices(b.regions@),
{
    assert(bs.push(b).drop_last() =~= bs);
}

proof fn lemma_rank_monotone(pts: Seq<ModbusConfig>, order: Seq<usize>, a: int, b: int)
    requires
        is_plan_order(pts, order),
        0 <= a <= b < order.len(),
    ensures
        class_of(pts, order[a] as int).rank() <= class_of(pts, order[b] as int).rank(),
    decreases b - a,
{
    if a < b {
        lemma_rank_monotone(pts, order, a, b - 1);
        assert(precedes(pts, order[b - 1] as int, order[b - 1 + 1] as int));
    }
}

/// Without adjacent overlaps, a later point of the same class starts at or
/// after the end of an earlier one.
proof fn lemma_disjoint_chain(pts: Seq<ModbusConfig>, order: Seq<usize>, a: int, b: int)
    requires
        is_plan_order(pts, order),
        no_overlap_before(pts, order, order.len() - 1),
        0 <= a < b < order.len(),
        class_of(pts, order[a] as int) == class_of(pts, order[b] as int),
    ensures
        addr_of(pts, order[b] as int) >= end_of(pts, order[a] as int),
    decreases b - a,
{
    let m = b - 1;
    assert(precedes(pts, order[m] as int, order[m + 1] as int));
    assert(!overlaps_at(pts, order, m));
    if a < m {
        lemma_rank_monotone(pts, order, a, m);
        lemma_chain_same_class(pts, order, a, m, b);
        lemma_disjoint_chain(pts, order, a, m);
    }
}

proof fn lemma_chain_same_class(pts: Seq<ModbusConfig>, order: Seq<usize>, a: int, m: int, b: int)
    requires
        is_plan_order(pts, order),
        0 <= a <= m <= b < order.len(),
        class_of(pts, order[a] as int) == class_of(pts, order[b] as int),
    ensures
        class_of(pts, order[m] as int) == class_of(pts, order[b] as int),
{
    lemma_rank_monotone(pts, order, a, m);
    lemma_rank_monotone(pts, order, m, b);
}

/// A plan order without adjacent overlaps leaves no two points of a class
/// sharing a register.
proof fn lemma_no_adjacent_no_overlap(pts: Seq<ModbusConfig>, order: Seq<usize>)
    requires
        is_plan_order(pts, order),
        no_overlap_before(pts, order, order.len() - 1),
        pts.len() <= usize::MAX,
    ensures
        !has_class_overlap(pts),
{
    if has_class_overlap(pts) {
        let (i, j) = choose|i: int, j: int|
            0 <= i < pts.len() && 0 <= j < pts.len() && i != j && #[trigger] class_of(pts, i)
                == #[trigger] class_of(pts, j) && addr_of(pts, i) <= addr_of(pts, j) < end_of(
                pts,
                i,
            );
        let iu = i as usize;
        let ju = j as usize;
        assert(iu as int == i && ju as int == j);
        assert(order.contains(iu));
        assert(order.contains(ju));
        let a = choose|a: int| 0 <= a < order.len() && order[a] == iu;
        let b = choose|b: int| 0 <= b < order.len() && order[b] == ju;
        assert(order[a] as int == i && order[b] as int == j);
        assert(a != b);
        if a < b {
            lemma_disjoint_chain(pts, order, a, b);
        } else {
            lemma_disjoint_chain(pts, order, b, a);
        }
    }
}

/// Position of the first point whose last register lies past 0xFFFF.
fn first_unfit(pts: &[ModbusConfig]) -> (r: Option<usize>)
    ensures
        match r {
            Some(c) => c < pts@.len() && !fits(pts@, c as int) && forall|j: int|
                0 <= j < c ==> #[trigger] fits(pts@, j),
            None => all_fit(pts@),
        },
{
    let n = pts.len();
    let mut c: usize = 0;
    while c < n
        invariant
            n == pts@.len(),
            c <= n,
            forall|j: int| 0 <= j < c ==> #[trigger] fits(pts@, j),
        decreases n - c,
    {
        if pts[c].register_address as u32 + pts[c].data_type.quantity() as u32 > 0x10000 {
            return Some(c);
        }
        c = c + 1;
    }
    None
}

impl Blocks {
    /// Plans the reads of a catalog. Points are grouped by class and sorted
    /// by address; a point joins the current block when it starts where the
    /// block ends and the block stays within its class's limit. A gap or the
    /// limit starts a new block; a point that starts inside the block fails
    /// the whole plan. A catalog without overlap that holds a point whose
    /// last register lies past 0xFFFF is refused too.
    pub fn plan(pts: &[ModbusConfig]) -> (r: Result<Blocks, BuildBlocksError>)
        ensures
            match r {
                Ok(blocks) => {
                    &&& all_fit(pts@)
                    &&& exists|order: Seq<usize>|
                        {
                            &&& is_plan_order(pts@, order)
                            &&& no_overlap_before(pts@, order, order.len() - 1)
                            &&& plan_valid(pts@, order, blocks.0@)
                        }
                },
                Err(BuildBlocksError::AddressOverflow { register_type, address, width }) => {
                    &&& !has_class_overlap(pts@)
                    &&& exists|i: int|
                        {
                            &&& 0 <= i < pts@.len()
                            &&& !fits(pts@, i)
                            &&& forall|j: int| 0 <= j < i ==> #[trigger] fits(pts@, j)
                            &&& register_type == pts@[i].register_type
                            &&& address == pts@[i].register_address
                            &&& width as int == width_of(pts@, i)
                        }
                },
                Err(BuildBlocksError::Overlap { register_type, block_start, block_end, next_start }) => {
                    exists|order: Seq<usize>, k: int|
                        {
                            &&& is_plan_order(pts@, order)
                            &&& 0 <= k < order.len() - 1
                            &&& overlaps_at(pts@, order, k)
                            &&& no_overlap_before(pts@, order, k)
                            &&& register_type == class_of(pts@, order[k] as int)
                            &&& block_start as int == addr_of(
                                pts@,
                                order[seg_start(pts@, order, k)] as int,
                            )
                            &&& block_end as int == end_of(pts@, order[k] as int)
                            &&& next_start as int == addr_of(pts@, order[k + 1] as int)
                        }
                },
            },
            all_fit(pts@) && !has_class_overlap(pts@) ==> r is Ok,
            has_class_overlap(pts@) ==> r is Err && r->Err_0 is Overlap,
    {
        let n = pts.len();
        let order = plan_order(pts);
        let ghost ord = order@;
        let mut blocks: Vec<Block> = Vec::new();
        if n == 0 {
            assert(flatten(blocks@) =~= ord);
            assert(!has_class_overlap(pts@));
            return Ok(Blocks(blocks));
        }
        let first = order[0];
        let w0 = pts[first].data_type.quantity();
        let mut cur = Block {
            register_type: pts[first].register_type,
            start: pts[first].register_address,
            len: w0,
            regions: vec![Region { index: first, offset: 0, width: w0 }],
        };
        proof {
            assert(region_indices(cur.regions@) =~= ord.subrange(0, 1));
            assert(flatten(blocks@) =~= ord.subrange(0, 0));
        }
        let ghost mut s: int = 0;
        let mut i: usize = 1;
        while i < n
            invariant
                n == pts@.len() == ord.len(),
                order@ == ord,
                is_plan_order(pts@, ord),
                1 <= i <= n,
                0 <= s < i,
                s == seg_start(pts@, ord, i - 1),
                block_ok(pts@, cur),
                region_indices(cur.regions@) == ord.subrange(s, i as int),
                cur.register_type == class_of(pts@, ord[i - 1] as int),
                cur.start + cur.len == end_of(pts@, ord[i - 1] as int),
                cur.start as int == addr_of(pts@, ord[s] as int),
                flatten(blocks@) == ord.subrange(0, s),
                forall|j: int| 0 <= j < blocks@.len() ==> block_ok(pts@, #[trigger] blocks@[j]),
                forall|j: int|
                    0 <= j < blocks@.len() - 1 ==> !#[trigger] mergeable(blocks@[j], blocks@[j + 1]),
                blocks@.len() > 0 ==> !mergeable(blocks@.last(), cur),
                blocks_ordered(blocks@),
                blocks@.len() > 0 ==> block_follows(blocks@.last(), cur),
                forall|m: int| 0 <= m < blocks@.len() ==> (#[trigger] blocks@[m]).len >= 1,
                cur.len >= 1,
                no_overlap_before(pts@, ord, i - 1),
            decreases n - i,
        {
            let p = order[i];
            let w = pts[p].data_type.quantity();
            let a = pts[p].register_address;
            let rt = pts[p].register_type;
            let end: u32 = cur.start as u32 + cur.len as u32;
            proof {
                assert(cur.regions@.last() == cur.regions@[cur.regions@.len() - 1]);
            }
            let same_class = rt == cur.register_type;
            if same_class && (a as u32) < end {
                proof {
                    assert(overlaps_at(pts@, ord, i - 1));
                    assert((i - 1) + 1 == i);
                    let pi = ord[i - 1] as int;
                    let pj = ord[i as int] as int;
                    assert(precedes(pts@, ord[i - 1] as int, ord[(i - 1) + 1] as int));
                    assert(pi != pj);
                    assert(class_of(pts@, pi) == class_of(pts@, pj) && addr_of(pts@, pi) <= addr_of(
                        pts@,
                        pj,
                    ) < end_of(pts@, pi));
                }
                return Err(
                    BuildBlocksError::Overlap {
                        register_type: cur.register_type,
                        block_start: cur.start,
                        block_end: end,
                        next_start: a,
                    },
                );
            }
            if same_class && a as u32 == end && cur.len as u32 + w as u32
                <= cur.register_type.max_block_len() as u32 {
                let ghost old_cur = cur;
                let reg = Region { index: p, offset: (a - cur.start) as u16, width: w };
                cur.regions.push(reg);
                cur.len = cur.len + w;
                proof {
                    assert(joins(pts@, ord, i as int, s));
                    assert(region_indices(cur.regions@) =~= region_indices(old_cur.regions@).push(
                        p,
                    ));
                    assert(ord.subrange(s, i + 1) =~= ord.subrange(s, i as int).push(p));
                    assert(cur.regions@.last() == reg);
                    assert forall|r: int| 0 <= r < cur.regions@.len() - 1 implies (
                    #[trigger] cur.regions@[r + 1]).offset == cur.regions@[r].offset
                        + cur.regions@[r].width by {
                        if r < cur.regions@.len() - 2 {
                            assert(old_cur.regions@[r + 1] == cur.regions@[r + 1]);
                        }
                    }
                    if blocks@.len() > 0 {
                        assert(cur.regions@[0] == old_cur.regions@[0]);
                    }
                    assert(!overlaps_at(pts@, ord, i - 1));
                }
            } else {
                let ghost old_blocks = blocks@;
                let ghost old_cur = cur;
                let fresh = Block {
                    register_type: rt,
                    start: a,
                    len: w,
                    regions: vec![Region { index: p, offset: 0, width: w }],
                };
                blocks.push(cur);
                cur = fresh;
                proof {
                    lemma_flatten_push(old_blocks, old_cur);
                    assert(ord.subrange(0, s) + ord.subrange(s, i as int) =~= ord.subrange(
                        0,
                        i as int,
                    ));
                    assert(!joins(pts@, ord, i as int, s));
                    assert(region_indices(cur.regions@) =~= ord.subrange(i as int, i + 1));
                    assert(!overlaps_at(pts@, ord, i - 1));
                    assert(blocks@.last() == old_cur);
                    assert(precedes(pts@, ord[i - 1] as int, ord[(i - 1) + 1] as int));
                    assert forall|j: int| 0 <= j < blocks@.len() - 1 implies #[trigger] block_follows(
                        blocks@[j],
                        blocks@[j + 1],
                    ) by {
                        if j < blocks@.len() - 2 {
                            assert(blocks@[j] == old_blocks[j]);
                            assert(blocks@[j + 1] == old_blocks[j + 1]);
                        } else {
                            assert(blocks@[j] == old_blocks.last());
                        }
                    }
                    assert forall|m: int| 0 <= m < blocks@.len() implies (
                    #[trigger] blocks@[m]).len >= 1 by {
                        if m < old_blocks.len() {
                            assert(blocks@[m] == old_blocks[m]);
                        }
                    }
                    assert forall|j: int|
                        0 <= j < blocks@.len() - 1 implies !#[trigger] mergeable(
                        blocks@[j],
                        blocks@[j + 1],
                    ) by {
                        if j < blocks@.len() - 2 {
                            assert(blocks@[j] == old_blocks[j]);
                            assert(blocks@[j + 1] == old_blocks[j + 1]);
                        } else {
                            assert(blocks@[j] == old_blocks.last());
                        }
                    }
                    assert forall|j: int| 0 <= j < blocks@.len() implies block_ok(
                        pts@,
                        #[trigger] blocks@[j],
                    ) by {
                        if j < old_blocks.len() {
                            assert(blocks@[j] == old_blocks[j]);
                        }
                    }
                }
                proof { s = i as int; }
            }
            i = i + 1;
        }
        let ghost old_blocks = blocks@;
        let ghost last = cur;
        blocks.push(cur);
        proof {
            lemma_flatten_push(old_blocks, last);
            assert(ord.subrange(0, s) + ord.subrange(s, n as int) =~= ord);
            assert forall|j: int| 0 <= j < blocks@.len() - 1 implies !#[trigger] mergeable(
                blocks@[j],
                blocks@[j + 1],
            ) by {
                if j < blocks@.len() - 2 {
                    assert(blocks@[j] == old_blocks[j]);
                    assert(blocks@[j + 1] == old_blocks[j + 1]);
                } else {
                    assert(blocks@[j] == old_blocks.last());
                }
            }
            assert forall|j: int| 0 <= j < blocks@.len() implies block_ok(
                pts@,
                #[trigger] blocks@[j],
            ) by {
                if j < old_blocks.len() {
                    assert(blocks@[j] == old_blocks[j]);
                }
            }
            assert forall|j: int| 0 <= j < blocks@.len() - 1 implies #[trigger] block_follows(
                blocks@[j],
                blocks@[j + 1],
            ) by {
                if j < blocks@.len() - 2 {
                    assert(blocks@[j] == old_blocks[j]);
                    assert(blocks@[j + 1] == old_blocks[j + 1]);
                } else {
                    assert(blocks@[j] == old_blocks.last());
                }
            }
            assert forall|m: int| 0 <= m < blocks@.len() implies (#[trigger] blocks@[m]).len
                >= 1 by {
                if m < old_blocks.len() {
                    assert(blocks@[m] == old_blocks[m]);
                }
            }
            lemma_no_pair_mergeable(blocks@);
            assert(plan_valid(pts@, ord, blocks@));
            lemma_no_adjacent_no_overlap(pts@, ord);
        }
        if let Some(c) = first_unfit(pts) {
            return Err(
                BuildBlocksError::AddressOverflow {
                    register_type: pts[c].register_type,
                    address: pts[c].register_address,
                    width: pts[c].data_type.quantity(),
                },
            );
        }
        Ok(Blocks(blocks))
    }
}


/// What one block read returned, by register class.
#[derive(Debug, Clone)]
pub enum BlockRead {
    Coils(Vec<bool>),
    DiscreteInputs(Vec<bool>),
    HoldingRegisters(Vec<u16>),
    InputRegisters(Vec<u16>),
}

/// The raw integer read for the catalog point at `index`: 0 or 1 for a bit
/// or a boolean point, the decoded register value otherwise.
#[derive(Debug, Clone, Copy, PartialEq, Eq, Structural)]
pub struct RawReading {
    pub index: usize,
    pub raw: i64,
}

/// The reading of one region from a block's returned data; none when the
/// data does not cover the region or does not match the block's class.
pub open spec fn region_reading(pts: Seq<ModbusConfig>, b: Block, read: BlockRead, reg: Region) -> Option<
    RawReading,
> {
    let i = reg.index as int;
    let off = reg.offset as int;
    let w = reg.width as int;
    let bits = match (b.register_type, read) {
        (RegisterType::Coils, BlockRead::Coils(d)) => Some(d@),
        (RegisterType::DiscreteInputs, BlockRead::DiscreteInputs(d)) => Some(d@),
        _ => None,
    };
    let words = match (b.register_type, read) {
        (RegisterType::HoldingRegisters, BlockRead::HoldingRegisters(d)) => Some(d@),
        (RegisterType::InputRegisters, BlockRead::InputRegisters(d)) => Some(d@),
        _ => None,
    };
    if i >= pts.len() {
        None
    } else if bits is Some {
        let d = bits->Some_0;
        if off < d.len() {
            Some(RawReading { index: reg.index, raw: if d[off] { 1 } else { 0 } })
        } else {
            None
        }
    } else if words is Some {
        let d = words->Some_0;
        if off + w <= d.len() {
            Some(
                RawReading {
                    index: reg.index,
                    raw: decode_spec(
                        pts[i].data_type,
                        pts[i].byte_order,
                        d.subrange(off, off + w),
                    ) as i64,
                },
            )
        } else {
            None
        }
    } else {
        None
    }
}

pub open spec fn opt_seq<T>(o: Option<T>) -> Seq<T> {
    match o {
        Some(x) => seq![x],
        None => Seq::empty(),
    }
}

/// Readings of the first `k` regions of a block.
pub open spec fn block_readings(pts: Seq<ModbusConfig>, b: Block, read: BlockRead, k: int) -> Seq<
    RawReading,
>
    decreases k,
{
    if k <= 0 {
        Seq::empty()
    } else {
        block_readings(pts, b, read, k - 1) + opt_seq(
            region_reading(pts, b, read, b.regions@[k - 1]),
        )
    }
}

/// Readings of the first `j` blocks, each with the read at its position.
pub open spec fn plan_readings(pts: Seq<ModbusConfig>, bs: Seq<Block>, reads: Seq<BlockRead>, j: int) -> Seq<
    RawReading,
>
    decreases j,
{
    if j <= 0 {
        Seq::empty()
    } else {
        plan_readings(pts, bs, reads, j - 1) + block_readings(
            pts,
            bs[j - 1],
            reads[j - 1],
            bs[j - 1].regions@.len() as int,
        )
    }
}

pub open spec fn min(a: int, b: int) -> int {
    if a < b {
        a
    } else {
        b
    }
}

/// Copies `width` words from `offset`.
fn words_at(d: &Vec<u16>, offset: usize, width: usize) -> (r: Vec<u16>)
    requires
        offset + width <= d@.len(),
    ensures
        r@ == d@.subrange(offset as int, offset + width),
{
    let mut r: Vec<u16> = Vec::new();
    let mut t: usize = 0;
    let len = d.len();
    while t < width
        invariant
            len == d@.len(),
            offset + width <= d@.len(),
            t <= width,
            r@ == d@.subrange(offset as int, offset + t),
        decreases width - t,
    {
        r.push(d[offset + t]);
        proof {
            assert(d@.subrange(offset as int, offset + t + 1) =~= d@.subrange(
                offset as int,
                offset + t,
            ).push(d@[offset + t]));
        }
        t = t + 1;
    }
    r
}

impl Block {
    fn region_value(&self, pts: &[ModbusConfig], read: &BlockRead, reg: Region) -> (r: Option<
        RawReading,
    >)
        ensures
            r == region_reading(pts@, *self, *read, reg),
    {
        if reg.index >= pts.len() {
            return None;
        }
        let off = reg.offset as usize;
        let w = reg.width as usize;
        match (self.register_type, read) {
            (RegisterType::Coils, BlockRead::Coils(d))
            | (RegisterType::DiscreteInputs, BlockRead::DiscreteInputs(d)) => {
                if off < d.len() {
                    Some(RawReading { index: reg.index, raw: if d[off] { 1 } else { 0 } })
                } else {
                    None
                }
            },
            (RegisterType::HoldingRegisters, BlockRead::HoldingRegisters(d))
            | (RegisterType::InputRegisters, BlockRead::InputRegisters(d)) => {
                if off + w <= d.len() {
                    let ws = words_at(d, off, w);
                    let cfg = &pts[reg.index];
                    let raw = decode_raw(cfg.data_type, cfg.byte_order, ws.as_slice());
                    Some(RawReading { index: reg.index, raw })
                } else {
                    None
                }
            },
            _ => None,
        }
    }
}

impl Blocks {
    /// Turns the data returned for each block into one raw reading per
    /// region, block by block; a region whose data is missing, or a block
    /// whose data is of another class, yields nothing.
    pub fn parse(&self, pts: &[ModbusConfig], reads: &[BlockRead]) -> (out: Vec<RawReading>)
        ensures
            out@ == plan_readings(pts@, self.0@, reads@, min(self.0@.len() as int, reads@.len() as int)),
    {
        let mut out: Vec<RawReading> = Vec::new();
        let n: usize = if self.0.len() < reads.len() { self.0.len() } else { reads.len() };
        let mut j: usize = 0;
        while j < n
            invariant
                n as int == min(self.0@.len() as int, reads@.len() as int),
                j <= n,
                out@ == plan_readings(pts@, self.0@, reads@, j as int),
            decreases n - j,
        {
            let block = &self.0[j];
            let read = &reads[j];
            let ghost base = out@;
            let mut k: usize = 0;
            while k < block.regions.len()
                invariant
                    j < n,
                    n as int == min(self.0@.len() as int, reads@.len() as int),
                    *block == self.0@[j as int],
                    *read == reads@[j as int],
                    k <= block.regions@.len(),
                    out@ == base + block_readings(pts@, *block, *read, k as int),
                decreases block.regions@.len() - k,
            {
                let reg = block.regions[k];
                match block.region_value(pts, read, reg) {
                    Some(x) => {
                        out.push(x);
                        proof {
                            assert(base + block_readings(pts@, *block, *read, k + 1) =~= (base
                                + block_readings(pts@, *block, *read, k as int)).push(x));
                        }
                    },
                    None => {
                        proof {
                            assert(base + block_readings(pts@, *block, *read, k + 1) =~= base
                                + block_readings(pts@, *block, *read, k as int));
                        }
                    },
                }
                k = k + 1;
            }
            j = j + 1;
        }
        out
    }
}

} // verus!
