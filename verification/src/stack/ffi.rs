//! The records of a module's exception directory, as they lie in memory.

use vstd::prelude::*;

verus! {

/// One entry of the function table: the code range of a function and where
/// its unwind information lies, all relative to the module's base.
#[allow(non_snake_case, non_camel_case_types)]
#[derive(Debug, Default, Clone, Copy, PartialEq, Eq, Structural)]
pub struct RUNTIME_FUNCTION {
    pub BeginAddress: u32,
    pub EndAddress: u32,
    pub UnwindInfo: u32,
}

/// The fixed head of a function's unwind information. The unwind codes
/// follow it, sixteen bits each.
#[allow(non_snake_case, non_camel_case_types)]
#[derive(Debug, Default, Clone, Copy, PartialEq, Eq, Structural)]
pub struct UNWIND_INFO {
    pub version_flags: u8,
    pub size_of_prolog: u8,
    pub count_of_codes: u8,
    pub frame_register_offset: u8,
}

/// One sixteen-bit unwind code slot, split into its two bytes.
#[allow(non_snake_case, non_camel_case_types)]
#[derive(Debug, Default, Clone, Copy, PartialEq, Eq, Structural)]
pub struct UNWIND_CODE {
    pub code_offset: u8,
    pub unwind_op_info: u8,
}

} // verus!
