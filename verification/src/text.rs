use vstd::prelude::*;

verus! {

use std::collections::HashMap;
use crate::access::{can_attach, read_bytes};
use crate::chain::{flat_target, resolve_flat, wadd};
use crate::errors::MemError;

broadcast use vstd::std_specs::hash::group_hash_axioms;

/// The text that lossy decoding yields for a byte sequence: valid
/// sequences as themselves, anything else replaced.
pub uninterp spec fn lossy_text_of(bytes: Seq<u8>) -> Seq<char>;

/// Relies on String::from_utf8_lossy: decodes bytes as text,
/// substituting the replacement character for invalid sequences, never
/// failing. The result is a function of the bytes alone; every decoded
/// character consumes at least one byte, and a sequence of bytes below
/// 0x80 is valid and decodes to exactly those characters.
#[verifier::external_body]
fn decode_lossy(bytes: &Vec<u8>) -> (r: String)
    ensures
        r@ == lossy_text_of(bytes@),
        r@.len() <= bytes@.len(),
        (forall|i: int| 0 <= i < bytes@.len() ==> bytes@[i] < 128) ==> r@ == bytes@.map_values(
            (|b: u8| b as char),
        ),
{
    String::from_utf8_lossy(bytes.as_slice()).into_owned()
}

/// The bytes a string extraction collects starting at `addr`: up to
/// `max` bytes, stopping before the first zero byte; `None` when a byte
/// that would have to be read is unmapped.
pub open spec fn text_bytes(m: Map<u64, u8>, addr: u64, max: nat) -> Option<Seq<u8>>
    decreases max,
{
    if max == 0 {
        Some(Seq::<u8>::empty())
    } else if !m.contains_key(addr) {
        None
    } else if m[addr] == 0 {
        Some(Seq::<u8>::empty())
    } else {
        match text_bytes(m, wadd(addr, 1), (max - 1) as nat) {
            Some(rest) => Some(seq![m[addr]] + rest),
            None => None,
        }
    }
}

/// What a string extraction collects never exceeds the length cap.
pub proof fn lemma_text_bytes_len(m: Map<u64, u8>, addr: u64, max: nat)
    ensures
        text_bytes(m, addr, max) matches Some(s) ==> s.len() <= max,
    decreases max,
{
    if max > 0 && m.contains_key(addr) && m[addr] != 0 {
        lemma_text_bytes_len(m, wadd(addr, 1), (max - 1) as nat);
    }
}

/// Collects bytes from a snapshot, one at a time, stopping at the first
/// zero byte or at the cap, whichever comes first; an unmapped byte is a
/// failed read.
fn collect_text_bytes(mem: &HashMap<u64, u8>, address: u64, max_length: usize) -> (r: Option<
    Vec<u8>,
>)
    ensures
        match text_bytes(mem@, address, max_length as nat) {
            Some(s) => r matches Some(v) && v@ == s,
            None => r is None,
        },
    decreases max_length,
{
    if max_length == 0 {
        return Some(Vec::new());
    }
    match mem.get(&address) {
        None => None,
        Some(byte) => {
            let b = *byte;
            if b == 0 {
                Some(Vec::new())
            } else {
                match collect_text_bytes(mem, address.wrapping_add(1), max_length - 1) {
                    Some(mut rest) => {
                        rest.insert(0, b);
                        proof {
                            let s = text_bytes(mem@, address, max_length as nat).unwrap();
                            assert(rest@ =~= s);
                        }
                        Some(rest)
                    },
                    None => None,
                }
            }
        },
    }
}

/// Extracts a string from a memory snapshot: the target address is the
/// flat (non-dereferencing) sum of base and offsets; bytes are collected
/// until the first zero byte or `max_length` bytes, whichever comes
/// first, and decoded lossily. A byte that cannot be read is the failure
/// `ReadFailed`, never a silent truncation. The result never exceeds
/// `max_length` characters.
pub fn read_text_in(
    mem: &HashMap<u64, u8>,
    base_address: u64,
    offsets: &Vec<u64>,
    max_length: usize,
) -> (r: Result<String, MemError>)
    ensures
        ({
            let t = flat_target(base_address, offsets@);
            match text_bytes(mem@, t, max_length as nat) {
                Some(s) => r matches Ok(out) && out@ == lossy_text_of(s) && out@.len()
                    <= max_length && ((forall|i: int| 0 <= i < s.len() ==> s[i] < 128) ==> out@
                    == s.map_values((|b: u8| b as char))),
                None => r == Err::<String, MemError>(MemError::ReadFailed),
            }
        }),
{
    let target = resolve_flat(base_address, offsets);
    match collect_text_bytes(mem, target, max_length) {
        Some(bytes) => {
            proof {
                lemma_text_bytes_len(mem@, target, max_length as nat);
            }
            Ok(decode_lossy(&bytes))
        },
        None => Err(MemError::ReadFailed),
    }
}

/// Extracts a string from the target process's live memory: the target
/// address is the flat (non-dereferencing) sum of base and offsets;
/// bytes are read one at a time until the first zero byte or
/// `max_length` bytes, whichever comes first, and decoded lossily. The
/// result never exceeds `max_length` characters. The failures are
/// exactly: `AttachDenied` when no handle can be obtained, and
/// `ReadFailed` when any single byte read fails — a transient read error
/// is surfaced, never conflated with a terminator.
pub fn read_string(offsets: &Vec<u64>, base_address: u64, pid: i32, max_length: usize) -> (r:
    Result<String, MemError>)
    ensures
        r matches Ok(s) ==> s@.len() <= max_length,
        r matches Err(e) ==> (e == MemError::AttachDenied || e == MemError::ReadFailed),
{
    if !can_attach(pid) {
        return Err(MemError::AttachDenied);
    }
    let target = resolve_flat(base_address, offsets);
    let mut collected: Vec<u8> = Vec::new();
    let mut idx: usize = 0;
    while idx < max_length
        invariant
            0 <= idx <= max_length,
            collected@.len() <= idx,
        decreases max_length - idx,
    {
        let address = target.wrapping_add(idx as u64);
        match read_bytes(pid, address, 1) {
            Ok(buf) => {
                let b = buf[0];
                if b == 0 {
                    break ;
                }
                collected.push(b);
            },
            Err(_) => {
                return Err(MemError::ReadFailed);
            },
        }
        idx += 1;
    }
    Ok(decode_lossy(&collected))
}

} // verus!
