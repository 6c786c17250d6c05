use vstd::prelude::*;

verus! {

use std::collections::HashMap;
use crate::errors::MemError;

broadcast use vstd::std_specs::hash::group_hash_axioms;

/// Addition of an offset to an address, wrapping at the top of the
/// 64-bit address space.
pub open spec fn wadd(a: u64, b: u64) -> u64 {
    vstd::wrapping::u64_specs::wrapping_add(a, b)
}

/// The target of a flat (non-dereferencing) chain: every offset summed
/// into the base, wrapping, with no memory read in between.
pub open spec fn flat_target(base: u64, offsets: Seq<u64>) -> u64
    decreases offsets.len(),
{
    if offsets.len() == 0 {
        base
    } else {
        flat_target(wadd(base, offsets[0]), offsets.drop_first())
    }
}

/// A flat chain with no offsets leaves the base address unchanged.
pub proof fn lemma_flat_empty(base: u64)
    ensures
        flat_target(base, Seq::<u64>::empty()) == base,
{
}

/// Sums all offsets into the base address, wrapping, with no dereference:
/// the flat addressing convention, used for string extraction. Distinct
/// from the dereferencing convention of `read`/`patch`; conflating the
/// two mis-addresses the target.
pub fn resolve_flat(base_address: u64, offsets: &Vec<u64>) -> (r: u64)
    ensures
        r == flat_target(base_address, offsets@),
{
    let n = offsets.len();
    let mut current = base_address;
    let mut idx: usize = 0;
    proof {
        assert(offsets@.skip(0) =~= offsets@);
    }
    while idx < n
        invariant
            n == offsets@.len(),
            0 <= idx <= n,
            flat_target(base_address, offsets@) == flat_target(current, offsets@.skip(idx as int)),
        decreases n - idx,
    {
        proof {
            assert(offsets@.skip(idx as int)[0] == offsets@[idx as int]);
            assert(offsets@.skip(idx as int).drop_first() =~= offsets@.skip(idx as int + 1));
        }
        current = current.wrapping_add(offsets[idx]);
        idx += 1;
    }
    proof {
        assert(offsets@.skip(n as int) =~= Seq::<u64>::empty());
    }
    current
}

/// The current address of a dereferencing chain after `i` dereference
/// steps in memory `m`: the base before any step, afterwards the 8-byte
/// word read at the previous step's cell.
pub open spec fn chain_cur(m: Map<u64, u64>, base: u64, offsets: Seq<u64>, i: int) -> u64
    decreases i,
{
    if i <= 0 {
        base
    } else {
        m[wadd(chain_cur(m, base, offsets, i - 1), offsets[i - 1])]
    }
}

/// The cell read at dereference step `i`: the current address plus the
/// step's offset.
pub open spec fn chain_cell(m: Map<u64, u64>, base: u64, offsets: Seq<u64>, i: int) -> u64 {
    wadd(chain_cur(m, base, offsets, i), offsets[i])
}

/// The first dereference step at or after `from` whose cell is unmapped
/// in `m`; `None` when every step up to the last offset succeeds. Only
/// offsets before the last are dereference steps.
pub open spec fn first_broken_from(m: Map<u64, u64>, base: u64, offsets: Seq<u64>, from: int) -> Option<
    int,
>
    decreases offsets.len() - from,
{
    if from < 0 || from >= offsets.len() - 1 {
        None
    } else if !m.contains_key(chain_cell(m, base, offsets, from)) {
        Some(from)
    } else {
        first_broken_from(m, base, offsets, from + 1)
    }
}

/// The first failing dereference step of the whole chain, if any.
pub open spec fn chain_broken(m: Map<u64, u64>, base: u64, offsets: Seq<u64>) -> Option<int> {
    first_broken_from(m, base, offsets, 0)
}

/// The target address of a dereferencing chain: the base itself for an
/// empty chain, otherwise the last current address plus the last offset.
/// Meaningful when the chain is not broken.
pub open spec fn chain_target_addr(m: Map<u64, u64>, base: u64, offsets: Seq<u64>) -> u64 {
    if offsets.len() == 0 {
        base
    } else {
        chain_cell(m, base, offsets, offsets.len() - 1)
    }
}

/// An empty dereferencing chain never breaks and targets the base
/// address itself.
pub proof fn lemma_empty_chain(m: Map<u64, u64>, base: u64)
    ensures
        chain_broken(m, base, Seq::<u64>::empty()) is None,
        chain_target_addr(m, base, Seq::<u64>::empty()) == base,
{
}

/// A broken chain reports the exact first failing dereference: every
/// step before it has a mapped cell, the reported step does not, and the
/// reported step is never the last offset of the chain.
pub proof fn lemma_broken_is_first(m: Map<u64, u64>, base: u64, offsets: Seq<u64>, i: int)
    requires
        chain_broken(m, base, offsets) == Some(i),
    ensures
        0 <= i < offsets.len() - 1,
        !m.contains_key(chain_cell(m, base, offsets, i)),
        forall|j: int| 0 <= j < i ==> m.contains_key(chain_cell(m, base, offsets, j)),
{
    lemma_broken_is_first_from(m, base, offsets, 0, i);
}

proof fn lemma_broken_is_first_from(m: Map<u64, u64>, base: u64, offsets: Seq<u64>, from: int, i: int)
    requires
        0 <= from,
        first_broken_from(m, base, offsets, from) == Some(i),
    ensures
        from <= i < offsets.len() - 1,
        !m.contains_key(chain_cell(m, base, offsets, i)),
        forall|j: int| from <= j < i ==> m.contains_key(chain_cell(m, base, offsets, j)),
    decreases offsets.len() - from,
{
    if from < offsets.len() - 1 && m.contains_key(chain_cell(m, base, offsets, from)) {
        lemma_broken_is_first_from(m, base, offsets, from + 1, i);
    }
}

/// In an unbroken chain, every dereference step's cell is mapped.
proof fn lemma_not_broken_cells_present(m: Map<u64, u64>, base: u64, offsets: Seq<u64>, from: int)
    requires
        0 <= from,
        first_broken_from(m, base, offsets, from) is None,
    ensures
        forall|j: int|
            from <= j < offsets.len() - 1 ==> m.contains_key(
                #[trigger] chain_cell(m, base, offsets, j),
            ),
    decreases offsets.len() - from,
{
    if from < offsets.len() - 1 {
        lemma_not_broken_cells_present(m, base, offsets, from + 1);
    }
}

/// When every dereference step's cell is mapped, the chain is not broken.
proof fn lemma_cells_present_not_broken(m: Map<u64, u64>, base: u64, offsets: Seq<u64>, from: int)
    requires
        0 <= from,
        forall|j: int|
            from <= j < offsets.len() - 1 ==> m.contains_key(
                #[trigger] chain_cell(m, base, offsets, j),
            ),
    ensures
        first_broken_from(m, base, offsets, from) is None,
    decreases offsets.len() - from,
{
    if from < offsets.len() - 1 {
        lemma_cells_present_not_broken(m, base, offsets, from + 1);
    }
}

/// Writing a value at an address that is none of a chain's dereference
/// cells leaves every current address and cell of the chain unchanged.
proof fn lemma_chain_unchanged_by_insert(
    m: Map<u64, u64>,
    t: u64,
    v: u64,
    base: u64,
    offsets: Seq<u64>,
    k: int,
)
    requires
        0 <= k,
        k == 0 || k <= offsets.len() - 1,
        forall|i: int|
            0 <= i < k ==> m.contains_key(#[trigger] chain_cell(m, base, offsets, i))
                && chain_cell(m, base, offsets, i) != t,
    ensures
        chain_cur(m.insert(t, v), base, offsets, k) == chain_cur(m, base, offsets, k),
        forall|i: int|
            0 <= i < k ==> #[trigger] chain_cell(m.insert(t, v), base, offsets, i) == chain_cell(
                m,
                base,
                offsets,
                i,
            ),
    decreases k,
{
    if k > 0 {
        lemma_chain_unchanged_by_insert(m, t, v, base, offsets, k - 1);
        assert(chain_cell(m.insert(t, v), base, offsets, k - 1) == chain_cell(
            m,
            base,
            offsets,
            k - 1,
        ));
    }
}

/// Round trip: after writing `v` at the target of a chain that resolves
/// in `m`, the same chain still resolves, to the same target, and the
/// value read there is `v` — provided the target cell is not itself one
/// of the chain's dereference cells, so the write cannot redirect the
/// chain it was addressed through.
pub proof fn lemma_write_then_read(m: Map<u64, u64>, base: u64, offsets: Seq<u64>, v: u64)
    requires
        chain_broken(m, base, offsets) is None,
        m.contains_key(chain_target_addr(m, base, offsets)),
        forall|i: int|
            0 <= i < offsets.len() - 1 ==> #[trigger] chain_cell(m, base, offsets, i)
                != chain_target_addr(m, base, offsets),
    ensures
        ({
            let t = chain_target_addr(m, base, offsets);
            let m2 = m.insert(t, v);
            &&& chain_broken(m2, base, offsets) is None
            &&& chain_target_addr(m2, base, offsets) == t
            &&& m2.contains_key(t)
            &&& m2[t] == v
        }),
{
    let t = chain_target_addr(m, base, offsets);
    let m2 = m.insert(t, v);
    lemma_not_broken_cells_present(m, base, offsets, 0);
    if offsets.len() == 0 {
    } else {
        let last = offsets.len() - 1;
        lemma_chain_unchanged_by_insert(m, t, v, base, offsets, last);
        assert(chain_target_addr(m2, base, offsets) == t);
        assert forall|j: int| 0 <= j < offsets.len() - 1 implies m2.contains_key(
            #[trigger] chain_cell(m2, base, offsets, j),
        ) by {
            assert(chain_cell(m2, base, offsets, j) == chain_cell(m, base, offsets, j));
            assert(m.contains_key(chain_cell(m, base, offsets, j)));
        }
        lemma_cells_present_not_broken(m2, base, offsets, 0);
    }
}

/// Resolves a dereferencing chain in a memory snapshot and reads the
/// 8-byte value at the target: for every offset but the last, the word at
/// `current + offset` becomes the new current address; the last offset is
/// added without a dereference. An empty chain reads at the base itself.
/// An unmapped cell at step `i` is the exact failure `ChainBroken(i)`;
/// an unmapped target after a resolved chain is `ReadFailed`.
pub fn read_value_in(mem: &HashMap<u64, u64>, base_address: u64, offsets: &Vec<u64>) -> (r: Result<
    u64,
    MemError,
>)
    ensures
        match chain_broken(mem@, base_address, offsets@) {
            Some(i) => r == Err::<u64, MemError>(MemError::ChainBroken(i as usize)),
            None => {
                let t = chain_target_addr(mem@, base_address, offsets@);
                if mem@.contains_key(t) {
                    r == Ok::<u64, MemError>(mem@[t])
                } else {
                    r == Err::<u64, MemError>(MemError::ReadFailed)
                }
            },
        },
{
    let target = resolve_target_in(mem, base_address, offsets);
    match target {
        Ok(t) => match mem.get(&t) {
            Some(value) => Ok(*value),
            None => Err(MemError::ReadFailed),
        },
        Err(e) => Err(e),
    }
}

/// Resolves a dereferencing chain in a memory snapshot to its target
/// address, without touching the target cell itself.
pub fn resolve_target_in(mem: &HashMap<u64, u64>, base_address: u64, offsets: &Vec<u64>) -> (r:
    Result<u64, MemError>)
    ensures
        match chain_broken(mem@, base_address, offsets@) {
            Some(i) => r == Err::<u64, MemError>(MemError::ChainBroken(i as usize)),
            None => r == Ok::<u64, MemError>(chain_target_addr(mem@, base_address, offsets@)),
        },
{
    let n = offsets.len();
    if n == 0 {
        return Ok(base_address);
    }
    let mut current = base_address;
    let mut idx: usize = 0;
    while idx + 1 < n
        invariant
            n == offsets@.len(),
            n >= 1,
            0 <= idx <= n - 1,
            current == chain_cur(mem@, base_address, offsets@, idx as int),
            first_broken_from(mem@, base_address, offsets@, 0) == first_broken_from(
                mem@,
                base_address,
                offsets@,
                idx as int,
            ),
        decreases n - idx,
    {
        let cell = current.wrapping_add(offsets[idx]);
        proof {
            assert(cell == chain_cell(mem@, base_address, offsets@, idx as int));
        }
        match mem.get(&cell) {
            Some(value) => {
                current = *value;
                idx += 1;
                proof {
                    assert(current == chain_cur(mem@, base_address, offsets@, idx as int));
                }
            },
            None => {
                proof {
                    assert(first_broken_from(mem@, base_address, offsets@, idx as int) == Some(
                        idx as int,
                    ));
                }
                return Err(MemError::ChainBroken(idx));
            },
        }
    }
    Ok(current.wrapping_add(offsets[n - 1]))
}

/// Resolves a dereferencing chain in a memory snapshot and writes `value`
/// at the target cell. The resolution is the same as for `read_value_in`;
/// writing to an unmapped target is `WriteFailed` and changes nothing.
pub fn write_value_in(
    mem: &mut HashMap<u64, u64>,
    base_address: u64,
    offsets: &Vec<u64>,
    value: u64,
) -> (r: Result<(), MemError>)
    ensures
        match chain_broken(old(mem)@, base_address, offsets@) {
            Some(i) => r == Err::<(), MemError>(MemError::ChainBroken(i as usize)) && final(mem)@
                == old(mem)@,
            None => {
                let t = chain_target_addr(old(mem)@, base_address, offsets@);
                if old(mem)@.contains_key(t) {
                    r == Ok::<(), MemError>(()) && final(mem)@ == old(mem)@.insert(t, value)
                } else {
                    r == Err::<(), MemError>(MemError::WriteFailed) && final(mem)@ == old(mem)@
                }
            },
        },
{
    let target = resolve_target_in(mem, base_address, offsets);
    match target {
        Ok(t) => {
            if mem.contains_key(&t) {
                mem.insert(t, value);
                Ok(())
            } else {
                Err(MemError::WriteFailed)
            }
        },
        Err(e) => Err(e),
    }
}

} // verus!
