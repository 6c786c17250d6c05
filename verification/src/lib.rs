pub mod access;
pub mod chain;
pub mod errors;
pub mod process;
pub mod region;
pub mod text;

pub use access::{patch, read, u64_from_le_bytes};
pub use chain::{read_value_in, resolve_flat, resolve_target_in, write_value_in};
pub use errors::MemError;
pub use process::{fullprep, get_pid, pick_pid};
pub use region::{
    format_protection, get_base_address, get_modules, list_regions, protection_from_bits,
    MemoryRegion, Module, Protection, RegionScan,
};
pub use text::{read_string, read_text_in};
