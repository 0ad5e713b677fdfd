//! The headers and directories of an executable image, as they lie in the
//! memory of the target.

use vstd::prelude::*;

use crate::memory::le_u16;
use crate::memory::le_u32;
use crate::memory::le_u64;
use crate::memory::read_le_u16;
use crate::memory::read_le_u32;
use crate::memory::read_le_u64;
use crate::memory::Record;
use crate::stack::ffi::RUNTIME_FUNCTION;
use crate::stack::ffi::UNWIND_INFO;

verus! {

/// The machine field of an image that is built for AMD64.
pub const IMAGE_FILE_MACHINE_AMD64: u16 = 0x8664;

/// The type of a debug directory entry that refers to a symbol file.
pub const IMAGE_DEBUG_TYPE_CODEVIEW: u32 = 2;

/// The flag of unwind information that is chained to that of another
/// function.
pub const UNW_FLAG_CHAININFO: u8 = 4;

/// The head of an image. Of its sixty-four bytes, the only one that matters
/// here is the last field: where the headers proper begin.
#[derive(Debug, Default, Clone, Copy, PartialEq, Eq, Structural)]
pub struct DosHeader {
    pub e_magic: u16,
    pub e_lfanew: u32,
}

/// Where in an image a table lies, relative to the image's base, and how
/// many bytes it takes up.
#[derive(Debug, Default, Clone, Copy, PartialEq, Eq, Structural)]
pub struct DataDirectory {
    pub virtual_address: u32,
    pub size: u32,
}

/// The headers of a sixty-four-bit image, as far as the debugger reads them.
#[derive(Debug, Default, Clone, Copy, PartialEq, Eq, Structural)]
pub struct NtHeaders {
    pub signature: u32,
    pub machine: u16,
    pub size_of_image: u32,
    pub export_directory: DataDirectory,
    pub exception_directory: DataDirectory,
    pub debug_directory: DataDirectory,
}

/// The head of an image's export table.
#[derive(Debug, Default, Clone, Copy, PartialEq, Eq, Structural)]
pub struct ExportDirectory {
    pub name: u32,
    pub base: u32,
    pub number_of_functions: u32,
    pub number_of_names: u32,
    pub address_of_functions: u32,
    pub address_of_names: u32,
    pub address_of_name_ordinals: u32,
}

/// One entry of an image's debug directory.
#[derive(Debug, Default, Clone, Copy, PartialEq, Eq, Structural)]
pub struct DebugDirectory {
    pub debug_type: u32,
    pub size_of_data: u32,
    pub address_of_raw_data: u32,
}

/// A globally unique identifier, in the four parts in which it is stored.
/// The last part holds eight bytes, the first of them lowest.
#[derive(Debug, Default, Clone, Copy, PartialEq, Eq, Structural)]
pub struct Guid {
    pub data1: u32,
    pub data2: u16,
    pub data3: u16,
    pub data4: u64,
}

/// What identifies the symbol file of an image. The path of the file, ended
/// by a zero byte, follows the record in memory.
#[derive(Debug, Default, Clone, Copy, PartialEq, Eq, Structural)]
pub struct PdbInfo {
    pub signature: u32,
    pub guid: Guid,
    pub age: u32,
}

/// The data directory that lies at `at`.
pub open spec fn decoded_directory(bytes: Seq<u8>, at: int) -> DataDirectory {
    DataDirectory { virtual_address: le_u32(bytes, at), size: le_u32(bytes, at + 4) }
}

fn decode_directory(bytes: &[u8], at: usize) -> (directory: DataDirectory)
    requires
        at + 8 <= bytes.len(),
    ensures
        directory == decoded_directory(bytes@, at as int),
{
    DataDirectory { virtual_address: read_le_u32(bytes, at), size: read_le_u32(bytes, at + 4) }
}

impl Record for DosHeader {
    open spec fn size() -> nat {
        64
    }

    open spec fn decoded(bytes: Seq<u8>, at: int) -> DosHeader {
        DosHeader { e_magic: le_u16(bytes, at), e_lfanew: le_u32(bytes, at + 60) }
    }

    proof fn size_is_positive() {
    }

    fn byte_size() -> (size: usize) {
        64
    }

    fn decode(bytes: &[u8], at: usize) -> (value: DosHeader) {
        DosHeader { e_magic: read_le_u16(bytes, at), e_lfanew: read_le_u32(bytes, at + 60) }
    }
}

impl Record for DataDirectory {
    open spec fn size() -> nat {
        8
    }

    open spec fn decoded(bytes: Seq<u8>, at: int) -> DataDirectory {
        decoded_directory(bytes, at)
    }

    proof fn size_is_positive() {
    }

    fn byte_size() -> (size: usize) {
        8
    }

    fn decode(bytes: &[u8], at: usize) -> (value: DataDirectory) {
        decode_directory(bytes, at)
    }
}

impl Record for NtHeaders {
    /// Four bytes of signature, twenty of file header, and two hundred and
    /// forty of optional header, which ends with sixteen data directories.
    open spec fn size() -> nat {
        264
    }

    open spec fn decoded(bytes: Seq<u8>, at: int) -> NtHeaders {
        NtHeaders {
            signature: le_u32(bytes, at),
            machine: le_u16(bytes, at + 4),
            size_of_image: le_u32(bytes, at + 80),
            export_directory: decoded_directory(bytes, at + 136),
            exception_directory: decoded_directory(bytes, at + 160),
            debug_directory: decoded_directory(bytes, at + 184),
        }
    }

    proof fn size_is_positive() {
    }

    fn byte_size() -> (size: usize) {
        264
    }

    fn decode(bytes: &[u8], at: usize) -> (value: NtHeaders) {
        NtHeaders {
            signature: read_le_u32(bytes, at),
            machine: read_le_u16(bytes, at + 4),
            size_of_image: read_le_u32(bytes, at + 80),
            export_directory: decode_directory(bytes, at + 136),
            exception_directory: decode_directory(bytes, at + 160),
            debug_directory: decode_directory(bytes, at + 184),
        }
    }
}

impl Record for ExportDirectory {
    open spec fn size() -> nat {
        40
    }

    open spec fn decoded(bytes: Seq<u8>, at: int) -> ExportDirectory {
        ExportDirectory {
            name: le_u32(bytes, at + 12),
            base: le_u32(bytes, at + 16),
            number_of_functions: le_u32(bytes, at + 20),
            number_of_names: le_u32(bytes, at + 24),
            address_of_functions: le_u32(bytes, at + 28),
            address_of_names: le_u32(bytes, at + 32),
            address_of_name_ordinals: le_u32(bytes, at + 36),
        }
    }

    proof fn size_is_positive() {
    }

    fn byte_size() -> (size: usize) {
        40
    }

    fn decode(bytes: &[u8], at: usize) -> (value: ExportDirectory) {
        ExportDirectory {
            name: read_le_u32(bytes, at + 12),
            base: read_le_u32(bytes, at + 16),
            number_of_functions: read_le_u32(bytes, at + 20),
            number_of_names: read_le_u32(bytes, at + 24),
            address_of_functions: read_le_u32(bytes, at + 28),
            address_of_names: read_le_u32(bytes, at + 32),
            address_of_name_ordinals: read_le_u32(bytes, at + 36),
        }
    }
}

impl Record for DebugDirectory {
    open spec fn size() -> nat {
        28
    }

    open spec fn decoded(bytes: Seq<u8>, at: int) -> DebugDirectory {
        DebugDirectory {
            debug_type: le_u32(bytes, at + 12),
            size_of_data: le_u32(bytes, at + 16),
            address_of_raw_data: le_u32(bytes, at + 20),
        }
    }

    proof fn size_is_positive() {
    }

    fn byte_size() -> (size: usize) {
        28
    }

    fn decode(bytes: &[u8], at: usize) -> (value: DebugDirectory) {
        DebugDirectory {
            debug_type: read_le_u32(bytes, at + 12),
            size_of_data: read_le_u32(bytes, at + 16),
            address_of_raw_data: read_le_u32(bytes, at + 20),
        }
    }
}

impl Record for PdbInfo {
    open spec fn size() -> nat {
        24
    }

    open spec fn decoded(bytes: Seq<u8>, at: int) -> PdbInfo {
        PdbInfo {
            signature: le_u32(bytes, at),
            guid: Guid {
                data1: le_u32(bytes, at + 4),
                data2: le_u16(bytes, at + 8),
                data3: le_u16(bytes, at + 10),
                data4: le_u64(bytes, at + 12),
            },
            age: le_u32(bytes, at + 20),
        }
    }

    proof fn size_is_positive() {
    }

    fn byte_size() -> (size: usize) {
        24
    }

    fn decode(bytes: &[u8], at: usize) -> (value: PdbInfo) {
        PdbInfo {
            signature: read_le_u32(bytes, at),
            guid: Guid {
                data1: read_le_u32(bytes, at + 4),
                data2: read_le_u16(bytes, at + 8),
                data3: read_le_u16(bytes, at + 10),
                data4: read_le_u64(bytes, at + 12),
            },
            age: read_le_u32(bytes, at + 20),
        }
    }
}

impl Record for RUNTIME_FUNCTION {
    open spec fn size() -> nat {
        12
    }

    open spec fn decoded(bytes: Seq<u8>, at: int) -> RUNTIME_FUNCTION {
        RUNTIME_FUNCTION {
            BeginAddress: le_u32(bytes, at),
            EndAddress: le_u32(bytes, at + 4),
            UnwindInfo: le_u32(bytes, at + 8),
        }
    }

    proof fn size_is_positive() {
    }

    fn byte_size() -> (size: usize) {
        12
    }

    fn decode(bytes: &[u8], at: usize) -> (value: RUNTIME_FUNCTION) {
        RUNTIME_FUNCTION {
            BeginAddress: read_le_u32(bytes, at),
            EndAddress: read_le_u32(bytes, at + 4),
            UnwindInfo: read_le_u32(bytes, at + 8),
        }
    }
}

impl Record for UNWIND_INFO {
    open spec fn size() -> nat {
        4
    }

    open spec fn decoded(bytes: Seq<u8>, at: int) -> UNWIND_INFO {
        UNWIND_INFO {
            version_flags: bytes[at],
            size_of_prolog: bytes[at + 1],
            count_of_codes: bytes[at + 2],
            frame_register_offset: bytes[at + 3],
        }
    }

    proof fn size_is_positive() {
    }

    fn byte_size() -> (size: usize) {
        4
    }

    fn decode(bytes: &[u8], at: usize) -> (value: UNWIND_INFO) {
        UNWIND_INFO {
            version_flags: bytes[at],
            size_of_prolog: bytes[at + 1],
            count_of_codes: bytes[at + 2],
            frame_register_offset: bytes[at + 3],
        }
    }
}

} // verus!
