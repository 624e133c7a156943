//! Downlink write planning: point writes become the fewest contiguous coil
//! and holding-register writes.

use vstd::prelude::*;
use crate::catalog::{ByteOrder, ModbusDataType, RegisterType};
use crate::codec::{encode_registers, encode_spec, in_range};

verus! {

/// Addresses strictly increase along `s`.
pub open spec fn increasing<T>(s: Seq<(u16, T)>) -> bool {
    forall|i: int| 0 <= i < s.len() - 1 ==> (#[trigger] s[i]).0 < s[i + 1].0
}

proof fn lemma_increasing_pairs<T>(s: Seq<(u16, T)>, i: int, j: int)
    requires
        increasing(s),
        0 <= i < j < s.len(),
    ensures
        s[i].0 < s[j].0,
    decreases j - i,
{
    if i + 1 < j {
        lemma_increasing_pairs(s, i, j - 1);
    }
    assert(s[j - 1].0 < s[(j - 1) + 1].0);
}

/// `s` lists exactly the entries of `m`.
pub open spec fn lists_map<T>(s: Seq<(u16, T)>, m: Map<u16, T>) -> bool {
    &&& forall|i: int|
        0 <= i < s.len() ==> m.contains_key((#[trigger] s[i]).0) && m[s[i].0] == s[i].1
    &&& forall|a: u16| #[trigger] m.contains_key(a) ==> exists|i: int| 0 <= i < s.len() && s[i].0 == a
}

/// The address-value pairs that a run starting at `start` writes.
pub open spec fn run_pairs<T>(start: u16, vals: Seq<T>) -> Seq<(u16, T)> {
    Seq::new(vals.len(), |j: int| ((start + j) as u16, vals[j]))
}

/// All address-value pairs written by `runs`, run after run.
pub open spec fn flatten_runs<T>(runs: Seq<(u16, Vec<T>)>) -> Seq<(u16, T)>
    decreases runs.len(),
{
    if runs.len() == 0 {
        Seq::empty()
    } else {
        flatten_runs(runs.drop_last()) + run_pairs(runs.last().0, runs.last().1@)
    }
}

/// `runs` writes exactly the pairs `s`, each run non-empty, within the
/// address space, and separated from the next by a gap.
pub open spec fn runs_of<T>(s: Seq<(u16, T)>, runs: Seq<(u16, Vec<T>)>) -> bool {
    &&& flatten_runs(runs) == s
    &&& forall|k: int|
        0 <= k < runs.len() ==> (#[trigger] runs[k]).1@.len() > 0 && runs[k].0 + runs[k].1@.len()
            <= 0x10000
    &&& forall|k: int|
        0 <= k < runs.len() - 1 ==> (#[trigger] runs[k + 1]).0 != runs[k].0 + runs[k].1@.len()
}

proof fn lemma_flatten_runs_push<T>(runs: Seq<(u16, Vec<T>)>, r: (u16, Vec<T>))
    ensures
        flatten_runs(runs.push(r)) == flatten_runs(runs) + run_pairs(r.0, r.1@),
{
    assert(runs.push(r).drop_last() =~= runs);
}

/// Splits address-ordered pairs into runs of consecutive addresses.
fn merge_runs<T: Copy>(entries: &[(u16, T)]) -> (out: Vec<(u16, Vec<T>)>)
    requires
        increasing(entries@),
    ensures
        runs_of(entries@, out@),
{
    let n = entries.len();
    let mut out: Vec<(u16, Vec<T>)> = Vec::new();
    if n == 0 {
        assert(flatten_runs(out@) =~= entries@);
        return out;
    }
    let mut cur_start: u16 = entries[0].0;
    let mut cur_vals: Vec<T> = vec![entries[0].1];
    let mut last: u16 = entries[0].0;
    proof {
        assert(run_pairs(cur_start, cur_vals@) =~= entries@.subrange(0, 1));
        assert(flatten_runs(out@) + run_pairs(cur_start, cur_vals@) =~= entries@.subrange(0, 1));
    }
    let mut i: usize = 1;
    while i < n
        invariant
            n == entries@.len(),
            increasing(entries@),
            1 <= i <= n,
            cur_vals@.len() > 0,
            last == entries@[i - 1].0,
            last as int == cur_start + cur_vals@.len() - 1,
            flatten_runs(out@) + run_pairs(cur_start, cur_vals@) == entries@.subrange(0, i as int),
            forall|k: int|
                0 <= k < out@.len() ==> (#[trigger] out@[k]).1@.len() > 0 && out@[k].0
                    + out@[k].1@.len() <= 0x10000,
            forall|k: int|
                0 <= k < out@.len() - 1 ==> (#[trigger] out@[k + 1]).0 != out@[k].0
                    + out@[k].1@.len(),
            out@.len() > 0 ==> cur_start != out@.last().0 + out@.last().1@.len(),
        decreases n - i,
    {
        let (addr, val) = entries[i];
        proof {
            assert(entries@[i - 1].0 < entries@[(i - 1) + 1].0);
        }
        let ghost prefix = flatten_runs(out@);
        if addr == last + 1 {
            let ghost old_vals = cur_vals@;
            cur_vals.push(val);
            proof {
                assert(run_pairs(cur_start, cur_vals@) =~= run_pairs(cur_start, old_vals).push(
                    (addr, val),
                ));
                assert(entries@.subrange(0, i + 1) =~= entries@.subrange(0, i as int).push(
                    entries@[i as int],
                ));
                assert(prefix + run_pairs(cur_start, cur_vals@) =~= (prefix + run_pairs(
                    cur_start,
                    old_vals,
                )).push((addr, val)));
            }
        } else {
            let ghost old_out = out@;
            let ghost closed = (cur_start, cur_vals);
            out.push((cur_start, cur_vals));
            cur_start = addr;
            cur_vals = vec![val];
            proof {
                lemma_flatten_runs_push(old_out, closed);
                assert(out@.last() == closed);
                assert(entries@.subrange(0, i + 1) =~= entries@.subrange(0, i as int).push(
                    entries@[i as int],
                ));
                assert(run_pairs(cur_start, cur_vals@) =~= seq![(addr, val)]);
                assert forall|k: int| 0 <= k < out@.len() - 1 implies (#[trigger] out@[k
                    + 1]).0 != out@[k].0 + out@[k].1@.len() by {
                    if k < out@.len() - 2 {
                        assert(out@[k] == old_out[k] && out@[k + 1] == old_out[k + 1]);
                    } else {
                        assert(out@[k] == old_out.last());
                    }
                }
                assert forall|k: int| 0 <= k < out@.len() implies (#[trigger] out@[k]).1@.len()
                    > 0 && out@[k].0 + out@[k].1@.len() <= 0x10000 by {
                    if k < old_out.len() {
                        assert(out@[k] == old_out[k]);
                    }
                }
            }
        }
        last = addr;
        i = i + 1;
    }
    let ghost old_out = out@;
    let ghost closed = (cur_start, cur_vals);
    out.push((cur_start, cur_vals));
    proof {
        lemma_flatten_runs_push(old_out, closed);
        assert(entries@.subrange(0, n as int) =~= entries@);
        assert forall|k: int| 0 <= k < out@.len() - 1 implies (#[trigger] out@[k + 1]).0
            != out@[k].0 + out@[k].1@.len() by {
            if k < out@.len() - 2 {
                assert(out@[k] == old_out[k] && out@[k + 1] == old_out[k + 1]);
            } else {
                assert(out@[k] == old_out.last());
            }
        }
        assert forall|k: int| 0 <= k < out@.len() implies (#[trigger] out@[k]).1@.len() > 0
            && out@[k].0 + out@[k].1@.len() <= 0x10000 by {
            if k < old_out.len() {
                assert(out@[k] == old_out[k]);
            }
        }
    }
    out
}

/// Groups address-ordered coil values into runs of consecutive addresses.
pub fn merge_bool_blocks(map: &[(u16, bool)]) -> (out: Vec<(u16, Vec<bool>)>)
    requires
        increasing(map@),
    ensures
        runs_of(map@, out@),
{
    merge_runs(map)
}

/// Groups address-ordered register words into runs of consecutive addresses.
pub fn merge_u16_blocks(map: &[(u16, u16)]) -> (out: Vec<(u16, Vec<u16>)>)
    requires
        increasing(map@),
    ensures
        runs_of(map@, out@),
{
    merge_runs(map)
}


/// Sets the value at `addr`, keeping addresses increasing; a value already
/// stored there is replaced.
fn upsert<T: Copy>(v: &mut Vec<(u16, T)>, addr: u16, val: T, Ghost(m): Ghost<Map<u16, T>>)
    requires
        increasing(old(v)@),
        lists_map(old(v)@, m),
    ensures
        increasing(final(v)@),
        lists_map(final(v)@, m.insert(addr, val)),
{
    let ghost s = v@;
    let mut pos: usize = 0;
    while pos < v.len() && v[pos].0 < addr
        invariant
            v@ == s,
            pos <= s.len(),
            forall|i: int| 0 <= i < pos ==> (#[trigger] s[i]).0 < addr,
        decreases s.len() - pos,
    {
        pos = pos + 1;
    }
    let ghost m2 = m.insert(addr, val);
    if pos < v.len() && v[pos].0 == addr {
        v.set(pos, (addr, val));
        proof {
            assert forall|i: int| 0 <= i < v@.len() - 1 implies (#[trigger] v@[i]).0 < v@[i
                + 1].0 by {
                assert(s[i].0 < s[i + 1].0);
            }
            assert forall|i: int| 0 <= i < v@.len() implies m2.contains_key(
                (#[trigger] v@[i]).0,
            ) && m2[v@[i].0] == v@[i].1 by {
                if i != pos {
                    if i < pos {
                        lemma_increasing_pairs(s, i, pos as int);
                    } else {
                        lemma_increasing_pairs(s, pos as int, i);
                    }
                }
            }
            assert forall|a: u16| #[trigger] m2.contains_key(a) implies exists|i: int|
                0 <= i < v@.len() && v@[i].0 == a by {
                if a == addr {
                    assert(v@[pos as int].0 == a);
                } else {
                    assert(m.contains_key(a));
                    let i = choose|i: int| 0 <= i < s.len() && s[i].0 == a;
                    assert(v@[i].0 == a);
                }
            }
        }
    } else {
        v.insert(pos, (addr, val));
        proof {
            assert(v@ == s.insert(pos as int, (addr, val)));
            assert forall|i: int| 0 <= i < v@.len() - 1 implies (#[trigger] v@[i]).0 < v@[i
                + 1].0 by {
                if i + 1 < pos {
                    assert(s[i].0 < s[i + 1].0);
                } else if i + 1 == pos {
                } else if i == pos {
                } else {
                    let k = i - 1;
                    assert(s[k].0 < s[k + 1].0);
                }
            }
            assert forall|i: int| 0 <= i < v@.len() implies m2.contains_key(
                (#[trigger] v@[i]).0,
            ) && m2[v@[i].0] == v@[i].1 by {
                if i < pos {
                    assert(v@[i] == s[i]);
                } else if i > pos {
                    assert(v@[i] == s[i - 1]);
                    if pos < s.len() {
                        if pos < i - 1 {
                            lemma_increasing_pairs(s, pos as int, i - 1);
                        }
                    }
                }
            }
            assert forall|a: u16| #[trigger] m2.contains_key(a) implies exists|i: int|
                0 <= i < v@.len() && v@[i].0 == a by {
                if a == addr {
                    assert(v@[pos as int].0 == a);
                } else {
                    assert(m.contains_key(a));
                    let i = choose|i: int| 0 <= i < s.len() && s[i].0 == a;
                    if i < pos {
                        assert(v@[i].0 == a);
                    } else {
                        assert(v@[i + 1].0 == a);
                    }
                }
            }
        }
    }
}

/// What an outbound point carries once its scaling has been applied: a flag
/// for coils and boolean points, a rounded raw integer for numeric points.
#[derive(Debug, Clone, Copy, PartialEq, Eq, Structural)]
pub enum WriteValue {
    Flag(bool),
    Raw(i64),
}

/// One outbound point write, with the catalog facts that place it.
#[derive(Debug, Clone, Copy, PartialEq, Eq, Structural)]
pub struct PointWrite {
    pub register_type: RegisterType,
    pub register_address: u16,
    pub data_type: ModbusDataType,
    pub byte_order: Option<ByteOrder>,
    pub value: WriteValue,
}

/// Coil state of a write: a nonzero integer is on.
pub open spec fn coil_of(v: WriteValue) -> bool {
    match v {
        WriteValue::Flag(b) => b,
        WriteValue::Raw(x) => x != 0,
    }
}

/// Integer of a write: a flag is 1 or 0.
pub open spec fn raw_of(v: WriteValue) -> int {
    match v {
        WriteValue::Flag(b) => if b {
            1
        } else {
            0
        },
        WriteValue::Raw(x) => x as int,
    }
}

/// Address of word `j` of a point at `a`, saturating at 0xFFFF.
pub open spec fn word_addr(a: u16, j: int) -> u16 {
    if a + j > 0xFFFF {
        0xFFFF
    } else {
        (a + j) as u16
    }
}

/// `m` after storing the words `ws` of a point at `a`, in word order.
pub open spec fn put_words(m: Map<u16, u16>, a: u16, ws: Seq<u16>) -> Map<u16, u16>
    decreases ws.len(),
{
    if ws.len() == 0 {
        m
    } else {
        put_words(m, a, ws.drop_last()).insert(word_addr(a, ws.len() - 1), ws.last())
    }
}

/// Coil address to state after the writes in order; a later write wins.
pub open spec fn coil_map(ws: Seq<PointWrite>) -> Map<u16, bool>
    decreases ws.len(),
{
    if ws.len() == 0 {
        Map::empty()
    } else {
        let m = coil_map(ws.drop_last());
        let w = ws.last();
        if w.register_type == RegisterType::Coils {
            m.insert(w.register_address, coil_of(w.value))
        } else {
            m
        }
    }
}

/// Register address to word after the writes in order; a later write wins,
/// and a value out of its type's range is left out.
pub open spec fn holding_map(ws: Seq<PointWrite>) -> Map<u16, u16>
    decreases ws.len(),
{
    if ws.len() == 0 {
        Map::empty()
    } else {
        let m = holding_map(ws.drop_last());
        let w = ws.last();
        if w.register_type == RegisterType::HoldingRegisters && in_range(
            w.data_type,
            raw_of(w.value),
        ) {
            put_words(
                m,
                w.register_address,
                encode_spec(w.data_type, w.byte_order, raw_of(w.value)),
            )
        } else {
            m
        }
    }
}

/// Contiguous coil writes and holding-register writes, each as
/// `(start address, values)`.
#[derive(Debug)]
pub struct WritePlan {
    pub coils: Vec<(u16, Vec<bool>)>,
    pub holding: Vec<(u16, Vec<u16>)>,
}

impl WritePlan {
    /// Plans a batch of writes: coils and holding registers are collected by
    /// address (the last write to an address wins), writes to read-only
    /// classes and out-of-range values are dropped, and each class is split
    /// into runs of consecutive addresses.
    pub fn build(writes: &[PointWrite]) -> (r: WritePlan)
        ensures
            exists|cs: Seq<(u16, bool)>|
                increasing(cs) && lists_map(cs, coil_map(writes@)) && runs_of(cs, r.coils@),
            exists|hs: Seq<(u16, u16)>|
                increasing(hs) && lists_map(hs, holding_map(writes@)) && runs_of(hs, r.holding@),
    {
        let mut coils: Vec<(u16, bool)> = Vec::new();
        let mut holding: Vec<(u16, u16)> = Vec::new();
        let mut i: usize = 0;
        proof {
            assert(writes@.subrange(0, 0) =~= Seq::<PointWrite>::empty());
        }
        while i < writes.len()
            invariant
                i <= writes@.len(),
                increasing(coils@),
                increasing(holding@),
                lists_map(coils@, coil_map(writes@.subrange(0, i as int))),
                lists_map(holding@, holding_map(writes@.subrange(0, i as int))),
            decreases writes@.len() - i,
        {
            let w = writes[i];
            let ghost pre = writes@.subrange(0, i as int);
            proof {
                assert(writes@.subrange(0, i + 1).drop_last() =~= pre);
                assert(writes@.subrange(0, i + 1).last() == w);
            }
            match w.register_type {
                RegisterType::Coils => {
                    let on = match w.value {
                        WriteValue::Flag(b) => b,
                        WriteValue::Raw(x) => x != 0,
                    };
                    upsert(&mut coils, w.register_address, on, Ghost(coil_map(pre)));
                },
                RegisterType::HoldingRegisters => {
                    let raw: i64 = match w.value {
                        WriteValue::Flag(b) => if b {
                            1
                        } else {
                            0
                        },
                        WriteValue::Raw(x) => x,
                    };
                    match encode_registers(w.data_type, w.byte_order, raw) {
                        Some(words) => {
                            let ghost base = holding_map(pre);
                            let mut j: usize = 0;
                            proof {
                                assert(words@.subrange(0, 0) =~= Seq::<u16>::empty());
                                assert(words@.len() <= 2);
                            }
                            while j < words.len()
                                invariant
                                    j <= words@.len() <= 2,
                                    increasing(holding@),
                                    lists_map(
                                        holding@,
                                        put_words(
                                            base,
                                            w.register_address,
                                            words@.subrange(0, j as int),
                                        ),
                                    ),
                                decreases words@.len() - j,
                            {
                                let a: u16 = if w.register_address as u32 + j as u32 > 0xFFFF {
                                    0xFFFF
                                } else {
                                    (w.register_address as u32 + j as u32) as u16
                                };
                                proof {
                                    assert(words@.subrange(0, j + 1).drop_last()
                                        =~= words@.subrange(0, j as int));
                                    assert(words@.subrange(0, j + 1).last() == words@[j as int]);
                                    assert(a == word_addr(w.register_address, j as int));
                                }
                                upsert(
                                    &mut holding,
                                    a,
                                    words[j],
                                    Ghost(
                                        put_words(
                                            base,
                                            w.register_address,
                                            words@.subrange(0, j as int),
                                        ),
                                    ),
                                );
                                j = j + 1;
                            }
                            proof {
                                assert(words@.subrange(0, words@.len() as int) =~= words@);
                            }
                        },
                        None => {},
                    }
                },
                _ => {},
            }
            i = i + 1;
        }
        proof {
            assert(writes@.subrange(0, writes@.len() as int) =~= writes@);
        }
        WritePlan { coils: merge_bool_blocks(&coils), holding: merge_u16_blocks(&holding) }
    }
}


/// One bus write: a run of length one uses the single-item function code.
#[derive(Debug, Clone)]
pub enum WriteOp {
    SingleCoil(u16, bool),
    MultipleCoils(u16, Vec<bool>),
    SingleRegister(u16, u16),
    MultipleRegisters(u16, Vec<u16>),
}

pub open spec fn coil_op(op: WriteOp, run: (u16, Vec<bool>)) -> bool {
    if run.1@.len() == 1 {
        op matches WriteOp::SingleCoil(a, v) && a == run.0 && v == run.1@[0]
    } else {
        op matches WriteOp::MultipleCoils(a, vs) && a == run.0 && vs@ == run.1@
    }
}

pub open spec fn register_op(op: WriteOp, run: (u16, Vec<u16>)) -> bool {
    if run.1@.len() == 1 {
        op matches WriteOp::SingleRegister(a, v) && a == run.0 && v == run.1@[0]
    } else {
        op matches WriteOp::MultipleRegisters(a, vs) && a == run.0 && vs@ == run.1@
    }
}

fn copy_vec<T: Copy>(v: &Vec<T>) -> (r: Vec<T>)
    ensures
        r@ == v@,
{
    let mut r: Vec<T> = Vec::new();
    let mut i: usize = 0;
    while i < v.len()
        invariant
            i <= v@.len(),
            r@ == v@.subrange(0, i as int),
        decreases v@.len() - i,
    {
        r.push(v[i]);
        proof {
            assert(v@.subrange(0, i + 1) =~= v@.subrange(0, i as int).push(v@[i as int]));
        }
        i = i + 1;
    }
    assert(v@.subrange(0, v@.len() as int) =~= v@);
    r
}

impl WritePlan {
    /// The bus writes of the plan: coil runs first, then register runs, each
    /// in address order.
    pub fn operations(&self) -> (ops: Vec<WriteOp>)
        ensures
            ops@.len() == self.coils@.len() + self.holding@.len(),
            forall|k: int| 0 <= k < self.coils@.len() ==> coil_op(#[trigger] ops@[k], self.coils@[k]),
            forall|k: int|
                0 <= k < self.holding@.len() ==> register_op(
                    #[trigger] ops@[self.coils@.len() + k],
                    self.holding@[k],
                ),
    {
        let mut ops: Vec<WriteOp> = Vec::new();
        let mut i: usize = 0;
        while i < self.coils.len()
            invariant
                i <= self.coils@.len(),
                ops@.len() == i,
                forall|k: int| 0 <= k < i ==> coil_op(#[trigger] ops@[k], self.coils@[k]),
            decreases self.coils@.len() - i,
        {
            let run = &self.coils[i];
            if run.1.len() == 1 {
                ops.push(WriteOp::SingleCoil(run.0, run.1[0]));
            } else {
                ops.push(WriteOp::MultipleCoils(run.0, copy_vec(&run.1)));
            }
            i = i + 1;
        }
        let c = self.coils.len();
        let mut i: usize = 0;
        while i < self.holding.len()
            invariant
                c == self.coils@.len(),
                i <= self.holding@.len(),
                ops@.len() == c + i,
                forall|k: int| 0 <= k < c ==> coil_op(#[trigger] ops@[k], self.coils@[k]),
                forall|k: int|
                    0 <= k < i ==> register_op(#[trigger] ops@[c + k], self.holding@[k]),
            decreases self.holding@.len() - i,
        {
            let run = &self.holding[i];
            if run.1.len() == 1 {
                ops.push(WriteOp::SingleRegister(run.0, run.1[0]));
            } else {
                ops.push(WriteOp::MultipleRegisters(run.0, copy_vec(&run.1)));
            }
            proof {
                assert(ops@[c + i as int] == ops@.last());
            }
            i = i + 1;
        }
        ops
    }
}

} // verus!
