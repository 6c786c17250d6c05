use vstd::prelude::*;

verus! {

use crate::errors::MemError;

use process_memory::TryIntoProcessHandle;
use process_memory::Memory;

#[verifier::external_type_specification]
#[verifier::external_body]
pub struct ExIoError(std::io::Error);

/// Relies on process_memory::TryIntoProcessHandle for Pid: whether a
/// handle to the target process can be obtained at all. The outcome
/// depends on the machine's privilege state, so nothing more is claimed.
#[verifier::external_body]
pub(crate) fn can_attach(pid: i32) -> bool {
    (pid as process_memory::Pid).try_into_process_handle().is_ok()
}

/// Relies on process_memory::copy_address: on success the returned
/// buffer holds exactly `len` bytes copied from the target's memory at
/// `address`. What those bytes are depends on the target process, so
/// only the length is claimed.
#[verifier::external_body]
pub(crate) fn read_bytes(pid: i32, address: u64, len: usize) -> (r: Result<
    Vec<u8>,
    std::io::Error,
>)
    ensures
        r matches Ok(buf) ==> buf@.len() == len,
{
    let handle = (pid as process_memory::Pid).try_into_process_handle()?;
    process_memory::copy_address(address as usize, len, &handle)
}

/// Relies on process_memory::Memory::write for DataMember<u64>: puts the
/// 8-byte value at `address` in the target's memory. Whether the write
/// succeeds depends on the target's protection state, so nothing more is
/// claimed of the outcome.
#[verifier::external_body]
pub(crate) fn write_u64_at(pid: i32, address: u64, value: u64) -> Result<(), std::io::Error> {
    let handle = (pid as process_memory::Pid).try_into_process_handle()?;
    let member: process_memory::DataMember<u64> = process_memory::DataMember::new_offset(
        handle,
        vec![address as usize],
    );
    member.write(&value)
}

/// The unsigned value that eight bytes hold in least-significant-first
/// order.
pub open spec fn le_u64(s: Seq<u8>) -> int
    recommends
        s.len() == 8,
{
    s[0] + s[1] * 0x100 + s[2] * 0x1_0000 + s[3] * 0x100_0000 + s[4] * 0x1_0000_0000 + s[5]
        * 0x100_0000_0000 + s[6] * 0x1_0000_0000_0000 + s[7] * 0x100_0000_0000_0000
}

/// Assembles a u64 from eight bytes in least-significant-first order,
/// the byte order of the supported targets.
pub fn u64_from_le_bytes(bytes: &Vec<u8>) -> (r: u64)
    requires
        bytes@.len() == 8,
    ensures
        r == le_u64(bytes@),
{
    (bytes[0] as u64) + (bytes[1] as u64) * 0x100 + (bytes[2] as u64) * 0x1_0000 + (bytes[3]
        as u64) * 0x100_0000 + (bytes[4] as u64) * 0x1_0000_0000 + (bytes[5] as u64)
        * 0x100_0000_0000 + (bytes[6] as u64) * 0x1_0000_0000_0000 + (bytes[7] as u64)
        * 0x100_0000_0000_0000
}

/// Walks the dereference steps of a chain in the target's live memory:
/// for every offset but the last, reads the 8-byte word at
/// `current + offset` and makes it the new current address; the last
/// offset is added without a dereference. An empty chain targets the
/// base itself. A failed read at step `i` is the exact failure
/// `ChainBroken(i)`, which is therefore never the last offset's index.
fn resolve_target_live(pid: i32, base_address: u64, offsets: &Vec<u64>) -> (r: Result<
    u64,
    MemError,
>)
    ensures
        r matches Err(e) ==> e matches MemError::ChainBroken(i) && (i as int) < offsets@.len()
            - 1,
{
    let n = offsets.len();
    if n == 0 {
        return Ok(base_address);
    }
    let mut current = base_address;
    let mut idx: usize = 0;
    while idx + 1 < n
        invariant
            n == offsets@.len(),
            n >= 1,
            0 <= idx <= n - 1,
        decreases n - idx,
    {
        let cell = current.wrapping_add(offsets[idx]);
        match read_bytes(pid, cell, 8) {
            Ok(buf) => {
                current = u64_from_le_bytes(&buf);
                idx += 1;
            },
            Err(_) => {
                return Err(MemError::ChainBroken(idx));
            },
        }
    }
    Ok(current.wrapping_add(offsets[n - 1]))
}

/// Reads the 8-byte value at the target of a dereferencing pointer
/// chain in the target process's live memory. The value itself depends
/// on the target process; the failures are exactly: `AttachDenied` when
/// no handle can be obtained, `ChainBroken(i)` at the first failing
/// dereference step (never the last offset), and `ReadFailed` when the
/// chain resolved but the terminal read failed.
pub fn read(offsets: &Vec<u64>, base_address: u64, pid: i32) -> (r: Result<u64, MemError>)
    ensures
        r matches Err(e) ==> (e == MemError::AttachDenied || e == MemError::ReadFailed
            || e matches MemError::ChainBroken(_)),
        r matches Err(MemError::ChainBroken(i)) ==> (i as int) < offsets@.len() - 1,
{
    if !can_attach(pid) {
        return Err(MemError::AttachDenied);
    }
    match resolve_target_live(pid, base_address, offsets) {
        Ok(target) => match read_bytes(pid, target, 8) {
            Ok(buf) => Ok(u64_from_le_bytes(&buf)),
            Err(_) => Err(MemError::ReadFailed),
        },
        Err(e) => Err(e),
    }
}

/// Writes `val` as the 8-byte value at the target of a dereferencing
/// pointer chain in the target process's live memory. There is no
/// read-back and no rollback, and no write at all happens unless the
/// chain resolved. The failures are exactly: `AttachDenied`
/// when no handle can be obtained, `ChainBroken(i)` at the first failing
/// dereference step (never the last offset), and `WriteFailed` when the
/// chain resolved but the terminal write failed.
pub fn patch(offsets: &Vec<u64>, base_address: u64, pid: i32, val: u64) -> (r: Result<
    (),
    MemError,
>)
    ensures
        r matches Err(e) ==> (e == MemError::AttachDenied || e == MemError::WriteFailed
            || e matches MemError::ChainBroken(_)),
        r matches Err(MemError::ChainBroken(i)) ==> (i as int) < offsets@.len() - 1,
{
    if !can_attach(pid) {
        return Err(MemError::AttachDenied);
    }
    match resolve_target_live(pid, base_address, offsets) {
        Ok(target) => match write_u64_at(pid, target, val) {
            Ok(_) => Ok(()),
            Err(_) => Err(MemError::WriteFailed),
        },
        Err(e) => Err(e),
    }
}

} // verus!
