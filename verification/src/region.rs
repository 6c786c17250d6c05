use vstd::prelude::*;

verus! {

use vstd::string::StringExecFns;
use crate::errors::MemError;

/// Bit used by the OS for the read permission of a region.
pub const PROT_READ: u32 = 1;

/// Bit used by the OS for the write permission of a region.
pub const PROT_WRITE: u32 = 2;

/// Bit used by the OS for the execute permission of a region.
pub const PROT_EXECUTE: u32 = 4;

/// Protection flags of one virtual memory region.
#[derive(Clone, Copy, PartialEq, Eq, Structural, Debug)]
pub struct Protection {
    pub read: bool,
    pub write: bool,
    pub execute: bool,
}

/// A contiguous span of the target's virtual address space with uniform
/// protection.
#[derive(Clone, Copy, PartialEq, Eq, Structural, Debug)]
pub struct MemoryRegion {
    pub start: u64,
    pub size: u64,
    pub protection: Protection,
}

/// An executable span, reported as a loaded module. Resolving a
/// human-readable module name would mean reading the loader's in-memory
/// structures, which is outside this crate's scope, so the name is a
/// fixed placeholder.
#[derive(Clone, PartialEq, Debug)]
pub struct Module {
    pub name: String,
    pub base_address: usize,
    pub size: usize,
}

/// The protection that a raw OS flag word denotes.
pub open spec fn prot_of_bits(bits: u32) -> Protection {
    Protection {
        read: bits & PROT_READ != 0,
        write: bits & PROT_WRITE != 0,
        execute: bits & PROT_EXECUTE != 0,
    }
}

/// Decodes an OS protection flag word into the three permission flags.
pub fn protection_from_bits(bits: u32) -> (p: Protection)
    ensures
        p == prot_of_bits(bits),
{
    Protection {
        read: bits & PROT_READ != 0,
        write: bits & PROT_WRITE != 0,
        execute: bits & PROT_EXECUTE != 0,
    }
}

/// The textual form of a protection: 'R', 'W', 'X' for each set flag, in
/// that order.
pub open spec fn protection_text(p: Protection) -> Seq<char> {
    (if p.read {
        "R"@
    } else {
        Seq::<char>::empty()
    }) + (if p.write {
        "W"@
    } else {
        Seq::<char>::empty()
    }) + (if p.execute {
        "X"@
    } else {
        Seq::<char>::empty()
    })
}

/// Renders a protection as text: one letter per set flag.
pub fn format_protection(p: &Protection) -> (r: String)
    ensures
        r@ == protection_text(*p),
{
    let mut s = String::new();
    if p.read {
        s.append("R");
    }
    if p.write {
        s.append("W");
    }
    if p.execute {
        s.append("X");
    }
    proof {
        assert(s@ =~= protection_text(*p));
    }
    s
}

/// Strictly ascending start addresses: what a well-formed enumeration of
/// regions guarantees.
pub open spec fn monotonic(s: Seq<MemoryRegion>) -> bool {
    forall|i: int, j: int| 0 <= i < j < s.len() ==> s[i].start < s[j].start
}

/// Collects the regions of one enumeration pass and enforces that they
/// arrive in strictly ascending address order, each of positive size, so
/// that the pass is guaranteed to terminate and the collected list is
/// monotonic.
///
/// The OS enumeration call itself lives outside this crate; a driver asks
/// for `probe_address`, reports each region the OS returns through
/// `record`, and stops when the OS signals no more regions or a report is
/// rejected.
pub struct RegionScan {
    regions: Vec<MemoryRegion>,
    next_address: u64,
}

impl View for RegionScan {
    type V = Seq<MemoryRegion>;

    closed spec fn view(&self) -> Seq<MemoryRegion> {
        self.regions@
    }
}

impl RegionScan {
    /// The lowest address the next reported region may start at.
    pub closed spec fn probe_spec(self) -> u64 {
        self.next_address
    }

    /// The scan's invariant: collected regions are monotonic, of positive
    /// size, and all end at or before the next probe address.
    pub closed spec fn wf(self) -> bool {
        &&& self.next_address >= 1
        &&& monotonic(self@)
        &&& forall|i: int|
            0 <= i < self@.len() ==> self@[i].size >= 1 && self@[i].start + self@[i].size
                <= self.next_address
    }

    /// A fresh scan, probing from the lowest address, with nothing
    /// collected yet.
    pub fn new() -> (s: Self)
        ensures
            s.wf(),
            s@ == Seq::<MemoryRegion>::empty(),
            s.probe_spec() == 1u64,
    {
        RegionScan { regions: Vec::new(), next_address: 1 }
    }

    /// The address at which the driver should ask the OS for the next
    /// region.
    pub fn probe_address(&self) -> (a: u64)
        ensures
            a == self.probe_spec(),
    {
        self.next_address
    }

    /// Reports one region returned by the OS. The report is accepted
    /// exactly when it starts at or after the probe address, has positive
    /// size, and its end fits in the address space; an accepted region is
    /// appended and the probe address moves past it. A rejected report
    /// leaves the scan unchanged, so a driver can stop there.
    pub fn record(&mut self, start: u64, size: u64, protection: Protection) -> (accepted: bool)
        requires
            old(self).wf(),
        ensures
            final(self).wf(),
            accepted == (start >= old(self).probe_spec() && size >= 1 && start + size
                <= u64::MAX),
            accepted ==> final(self)@ == old(self)@.push(
                MemoryRegion { start, size, protection },
            ) && final(self).probe_spec() == start + size,
            !accepted ==> *final(self) == *old(self),
    {
        if start >= self.next_address && size >= 1 && size <= u64::MAX - start {
            let region = MemoryRegion { start, size, protection };
            self.regions.push(region);
            self.next_address = start + size;
            proof {
                let s = self@;
                assert forall|i: int, j: int| 0 <= i < j < s.len() implies s[i].start
                    < s[j].start by {
                    if j == s.len() - 1 {
                        assert(old(self)@[i].start + old(self)@[i].size <= old(
                            self,
                        ).probe_spec());
                    }
                }
            }
            true
        } else {
            false
        }
    }

    /// Hands the collected regions out, in ascending address order.
    pub fn into_regions(self) -> (v: Vec<MemoryRegion>)
        requires
            self.wf(),
        ensures
            v@ == self@,
            monotonic(v@),
    {
        self.regions
    }
}

/// The index of the first region, at or after `from`, whose execute flag
/// is set.
pub open spec fn first_exec_index(s: Seq<MemoryRegion>, from: int) -> Option<int>
    decreases s.len() - from,
{
    if from < 0 || from >= s.len() {
        None
    } else if s[from].protection.execute {
        Some(from)
    } else {
        first_exec_index(s, from + 1)
    }
}

/// The first executable region is the least-indexed executable one, and
/// everything before it is not executable.
proof fn lemma_first_exec_least(s: Seq<MemoryRegion>, from: int, i: int)
    requires
        0 <= from,
        first_exec_index(s, from) == Some(i),
    ensures
        from <= i < s.len(),
        s[i].protection.execute,
        forall|j: int| from <= j < i ==> !s[j].protection.execute,
    decreases s.len() - from,
{
    if from < s.len() && !s[from].protection.execute {
        lemma_first_exec_least(s, from + 1, i);
    }
}

/// From `from` on, no first executable region exists exactly when no
/// executable region exists at all.
proof fn lemma_no_exec(s: Seq<MemoryRegion>, from: int)
    requires
        0 <= from,
    ensures
        first_exec_index(s, from) is None <==> forall|j: int|
            from <= j < s.len() ==> !s[j].protection.execute,
    decreases s.len() - from,
{
    if from < s.len() {
        lemma_no_exec(s, from + 1);
    }
}

/// The scan reports `NotFound` exactly when no region of the whole
/// enumeration has the execute flag set.
pub proof fn lemma_not_found_means_no_executable(s: Seq<MemoryRegion>)
    ensures
        first_exec_index(s, 0) is None <==> forall|j: int|
            0 <= j < s.len() ==> !s[j].protection.execute,
{
    lemma_no_exec(s, 0);
}

/// In a monotonic enumeration, the base address is the start of the
/// lowest-addressed executable region, and it is never the start of any
/// region whose execute flag is unset.
pub proof fn lemma_base_is_lowest_executable(s: Seq<MemoryRegion>, i: int)
    requires
        monotonic(s),
        first_exec_index(s, 0) == Some(i),
    ensures
        0 <= i < s.len(),
        s[i].protection.execute,
        forall|j: int|
            0 <= j < s.len() && s[j].protection.execute ==> s[i].start <= s[j].start,
        forall|j: int|
            0 <= j < s.len() && !s[j].protection.execute ==> s[j].start != s[i].start,
{
    lemma_first_exec_least(s, 0, i);
    assert forall|j: int|
        0 <= j < s.len() && s[j].protection.execute implies s[i].start <= s[j].start by {
        if j < i {
            assert(!s[j].protection.execute);
        }
    }
}

/// Finds the module base address: the start of the first region, in
/// ascending order, whose execute flag is set; `NotFound` when the scan
/// exhausts all regions without one.
pub fn get_base_address(regions: &Vec<MemoryRegion>) -> (r: Result<u64, MemError>)
    ensures
        match first_exec_index(regions@, 0) {
            Some(i) => r == Ok::<u64, MemError>(regions@[i].start),
            None => r == Err::<u64, MemError>(MemError::NotFound),
        },
{
    let n = regions.len();
    let mut idx: usize = 0;
    while idx < n
        invariant
            n == regions@.len(),
            0 <= idx <= n,
            first_exec_index(regions@, 0) == first_exec_index(regions@, idx as int),
        decreases n - idx,
    {
        if regions[idx].protection.execute {
            return Ok(regions[idx].start);
        }
        idx += 1;
    }
    Err(MemError::NotFound)
}

/// The executable regions of an enumeration, in order.
pub open spec fn executable_regions(s: Seq<MemoryRegion>) -> Seq<MemoryRegion>
    decreases s.len(),
{
    if s.len() == 0 {
        Seq::empty()
    } else {
        let rest = executable_regions(s.drop_last());
        if s.last().protection.execute {
            rest.push(s.last())
        } else {
            rest
        }
    }
}

/// Reports every executable region as a module, in ascending address
/// order, under the fixed placeholder name.
pub fn get_modules(regions: &Vec<MemoryRegion>) -> (v: Vec<Module>)
    requires
        forall|i: int|
            0 <= i < regions@.len() ==> regions@[i].start <= usize::MAX && regions@[i].size
                <= usize::MAX,
    ensures
        v@.len() == executable_regions(regions@).len(),
        forall|k: int|
            0 <= k < v@.len() ==> v@[k].base_address == executable_regions(regions@)[k].start
                && v@[k].size == executable_regions(regions@)[k].size && v@[k].name@
                == "Unimplemented"@,
{
    let n = regions.len();
    let mut v: Vec<Module> = Vec::new();
    let mut idx: usize = 0;
    proof {
        assert(regions@.subrange(0, 0) =~= Seq::<MemoryRegion>::empty());
    }
    while idx < n
        invariant
            n == regions@.len(),
            0 <= idx <= n,
            forall|i: int|
                0 <= i < regions@.len() ==> regions@[i].start <= usize::MAX
                    && regions@[i].size <= usize::MAX,
            v@.len() == executable_regions(regions@.subrange(0, idx as int)).len(),
            forall|k: int|
                0 <= k < v@.len() ==> v@[k].base_address == executable_regions(
                    regions@.subrange(0, idx as int),
                )[k].start && v@[k].size == executable_regions(
                    regions@.subrange(0, idx as int),
                )[k].size && v@[k].name@ == "Unimplemented"@,
        decreases n - idx,
    {
        let region = regions[idx];
        proof {
            assert(regions@.subrange(0, idx + 1).drop_last() =~= regions@.subrange(
                0,
                idx as int,
            ));
            assert(regions@.subrange(0, idx + 1).last() == regions@[idx as int]);
        }
        if region.protection.execute {
            let module = Module {
                name: String::from_str("Unimplemented"),
                base_address: region.start as usize,
                size: region.size as usize,
            };
            v.push(module);
        }
        idx += 1;
    }
    proof {
        assert(regions@.subrange(0, n as int) =~= regions@);
    }
    v
}

/// Renders each region as `(start, size, protection text)`, in the order
/// given, for operator inspection.
pub fn list_regions(regions: &Vec<MemoryRegion>) -> (v: Vec<(u64, u64, String)>)
    ensures
        v@.len() == regions@.len(),
        forall|i: int|
            0 <= i < regions@.len() ==> v@[i].0 == regions@[i].start && v@[i].1
                == regions@[i].size && v@[i].2@ == protection_text(regions@[i].protection),
{
    let n = regions.len();
    let mut v: Vec<(u64, u64, String)> = Vec::new();
    let mut idx: usize = 0;
    while idx < n
        invariant
            n == regions@.len(),
            0 <= idx <= n,
            v@.len() == idx,
            forall|i: int|
                0 <= i < idx ==> v@[i].0 == regions@[i].start && v@[i].1 == regions@[i].size
                    && v@[i].2@ == protection_text(regions@[i].protection),
        decreases n - idx,
    {
        let region = regions[idx];
        let text = format_protection(&region.protection);
        v.push((region.start, region.size, text));
        idx += 1;
    }
    v
}

} // verus!
