//! The failures that the debugger core reports.

use vstd::prelude::*;

use crate::stack::stack_unwind::UnwindCodeParseError;

verus! {

/// The operating-system calls that the debugger makes.
#[derive(Debug, Clone, Copy, PartialEq, Eq, Structural)]
pub enum WindowsFunction {
    CreateProcessW,
    CloseHandle,
    WaitForDebugEventEx,
    ContinueDebugEvent,
    OpenThread,
    GetThreadContext,
    SetThreadContext,
    ReadProcessMemory,
}

/// A failed operating-system call: which call it was, and the status code
/// that it gave.
#[derive(Debug, Clone, Copy, PartialEq, Eq, Structural)]
pub struct WindowsError {
    pub source: WindowsFunction,
    pub code: i32,
}

impl WindowsError {
    pub fn new(source: WindowsFunction, code: i32) -> (error: WindowsError)
        ensures
            error.source == source,
            error.code == code,
    {
        WindowsError { source, code }
    }
}

/// What can go wrong in the debugger core.
#[derive(Debug)]
pub enum Error {
    /// A named operating-system call failed.
    WindowsError(WindowsError),
    /// The target's memory ran out in the middle of a fixed-size structure.
    MemorySourceNotEnoughData,
    /// No loaded module has this name.
    UnknownModuleName(String),
    /// The module is loaded, but has no symbol of this name.
    UnknownSymbol(String, String),
    /// The image is not built for AMD64.
    UnsupportedMachine,
    /// A string in the target's memory is not well-formed UTF-8.
    InvalidUtf8,
    /// The symbol file could not be opened or read.
    Pdb2(String),
    /// The unwind codes of a function are malformed, or hold an operation
    /// that cannot be taken back.
    UnwindParse(UnwindCodeParseError),
}

/// An error with its texts as sequences of characters.
pub enum ErrorView {
    WindowsError(WindowsError),
    MemorySourceNotEnoughData,
    UnknownModuleName(Seq<char>),
    UnknownSymbol(Seq<char>, Seq<char>),
    UnsupportedMachine,
    InvalidUtf8,
    Pdb2(Seq<char>),
    UnwindParse(UnwindCodeParseError),
}

impl DeepView for Error {
    type V = ErrorView;

    open spec fn deep_view(&self) -> ErrorView {
        match self {
            Error::WindowsError(error) => ErrorView::WindowsError(*error),
            Error::MemorySourceNotEnoughData => ErrorView::MemorySourceNotEnoughData,
            Error::UnknownModuleName(name) => ErrorView::UnknownModuleName(name@),
            Error::UnknownSymbol(module, name) => ErrorView::UnknownSymbol(module@, name@),
            Error::UnsupportedMachine => ErrorView::UnsupportedMachine,
            Error::InvalidUtf8 => ErrorView::InvalidUtf8,
            Error::Pdb2(message) => ErrorView::Pdb2(message@),
            Error::UnwindParse(error) => ErrorView::UnwindParse(*error),
        }
    }
}

} // verus!
