use vstd::prelude::*;

verus! {

use crate::errors::MemError;
use crate::region::{first_exec_index, get_base_address, MemoryRegion};

/// Relies on sysinfo::System::processes_by_exact_name: the numeric
/// identifiers of the running processes whose name equals `name`, in the
/// listing's own order. Which processes run, and the order the listing
/// walks them in, depend on the machine at that moment, so nothing is
/// claimed of the result.
#[verifier::external_body]
fn pids_by_exact_name(name: &str) -> Vec<i32> {
    let mut system = sysinfo::System::new_all();
    system.refresh_all();
    system.processes_by_exact_name(name.as_ref()).map(
        |p: &sysinfo::Process| p.pid().as_u32() as i32,
    ).collect()
}

/// Picks the process identifier out of a listing's matches: the last
/// match when there is at least one — a documented, deterministic policy,
/// not a tie-break guarantee — and `NotFound` when there is none.
pub fn pick_pid(pids: &Vec<i32>) -> (r: Result<i32, MemError>)
    ensures
        pids@.len() == 0 ==> r == Err::<i32, MemError>(MemError::NotFound),
        pids@.len() > 0 ==> r == Ok::<i32, MemError>(pids@.last()),
{
    let n = pids.len();
    if n == 0 {
        Err(MemError::NotFound)
    } else {
        Ok(pids[n - 1])
    }
}

/// Looks the named process up in the system's process list and returns
/// the identifier of the last match, or `NotFound` when no process of
/// that exact name is running.
pub fn get_pid(process_name: &str) -> (r: Result<i32, MemError>)
    ensures
        r is Err ==> r == Err::<i32, MemError>(MemError::NotFound),
{
    let pids = pids_by_exact_name(process_name);
    pick_pid(&pids)
}

/// Ties a process identifier, resolved once by `get_pid`, to the module
/// base address of its enumerated regions in one pair, for simple call
/// sites (the enumeration itself is an OS call and stays outside this
/// crate). The only failure is `NotFound`: no executable region in the
/// enumeration.
pub fn fullprep(pid: i32, regions: &Vec<MemoryRegion>) -> (r: Result<(i32, u64), MemError>)
    ensures
        match first_exec_index(regions@, 0) {
            Some(i) => r == Ok::<(i32, u64), MemError>((pid, regions@[i].start)),
            None => r == Err::<(i32, u64), MemError>(MemError::NotFound),
        },
{
    let base_address = match get_base_address(regions) {
        Ok(a) => a,
        Err(_) => {
            return Err(MemError::NotFound);
        },
    };
    Ok((pid, base_address))
}

} // verus!
