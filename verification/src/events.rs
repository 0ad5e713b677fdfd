//! The events that the target reports while it is being debugged.

use vstd::prelude::*;
use vstd::string::StringExecFns;

use crate::breakpoints::dr6_hit;
use crate::breakpoints::BreakpointManager;
use crate::context::ThreadContext;
use crate::context::TRAP_FLAG;
use crate::error::Error;
use crate::events::registers::Registers;
use crate::memory::string_read;
use crate::memory::string_read_indirect;
use crate::memory::MemorySource;
use crate::processes::module_read;
use crate::processes::without;
use crate::processes::without_module;
use crate::processes::Process;
use crate::processes::ProcessView;
use crate::text::chars_of;

pub mod registers;

verus! {

/// The reasons for which the processor or the system stops a thread.
#[derive(Debug, Clone, Copy, PartialEq, Eq, Structural)]
pub enum ExceptionCode {
    AccessViolation,
    ArrayBoundsExceeded,
    Breakpoint,
    DatatypeMisalignment,
    FloatDenormalOperand,
    FloatDivideByZero,
    FloatInexactResult,
    FloatInvalidOperation,
    FloatOverflow,
    FloatStackCheck,
    FloatUnderflow,
    IllegalInstruction,
    InPageError,
    IntDivideByZero,
    IntOverflow,
    InvalidDisposition,
    NoncontinueableException,
    PrivateInstruction,
    SingleStep,
    StackOverflow,
}

/// The exception that a status code of the system stands for.
pub open spec fn exception_of_status(status: u32) -> Option<ExceptionCode> {
    if status == 0xC000_0005 {
        Some(ExceptionCode::AccessViolation)
    } else if status == 0xC000_008C {
        Some(ExceptionCode::ArrayBoundsExceeded)
    } else if status == 0x8000_0003 {
        Some(ExceptionCode::Breakpoint)
    } else if status == 0x8000_0002 {
        Some(ExceptionCode::DatatypeMisalignment)
    } else if status == 0xC000_008D {
        Some(ExceptionCode::FloatDenormalOperand)
    } else if status == 0xC000_008E {
        Some(ExceptionCode::FloatDivideByZero)
    } else if status == 0xC000_008F {
        Some(ExceptionCode::FloatInexactResult)
    } else if status == 0xC000_0090 {
        Some(ExceptionCode::FloatInvalidOperation)
    } else if status == 0xC000_0091 {
        Some(ExceptionCode::FloatOverflow)
    } else if status == 0xC000_0092 {
        Some(ExceptionCode::FloatStackCheck)
    } else if status == 0xC000_0093 {
        Some(ExceptionCode::FloatUnderflow)
    } else if status == 0xC000_001D {
        Some(ExceptionCode::IllegalInstruction)
    } else if status == 0xC000_0006 {
        Some(ExceptionCode::InPageError)
    } else if status == 0xC000_0094 {
        Some(ExceptionCode::IntDivideByZero)
    } else if status == 0xC000_0095 {
        Some(ExceptionCode::IntOverflow)
    } else if status == 0xC000_0026 {
        Some(ExceptionCode::InvalidDisposition)
    } else if status == 0xC000_0025 {
        Some(ExceptionCode::NoncontinueableException)
    } else if status == 0xC000_0096 {
        Some(ExceptionCode::PrivateInstruction)
    } else if status == 0x8000_0004 {
        Some(ExceptionCode::SingleStep)
    } else if status == 0xC000_00FD {
        Some(ExceptionCode::StackOverflow)
    } else {
        None
    }
}

impl TryFrom<u32> for ExceptionCode {
    type Error = u32;

    fn try_from(value: u32) -> (code: Result<ExceptionCode, u32>) {
        Ok(
            match value {
                0xC000_0005 => Self::AccessViolation,
                0xC000_008C => Self::ArrayBoundsExceeded,
                0x8000_0003 => Self::Breakpoint,
                0x8000_0002 => Self::DatatypeMisalignment,
                0xC000_008D => Self::FloatDenormalOperand,
                0xC000_008E => Self::FloatDivideByZero,
                0xC000_008F => Self::FloatInexactResult,
                0xC000_0090 => Self::FloatInvalidOperation,
                0xC000_0091 => Self::FloatOverflow,
                0xC000_0092 => Self::FloatStackCheck,
                0xC000_0093 => Self::FloatUnderflow,
                0xC000_001D => Self::IllegalInstruction,
                0xC000_0006 => Self::InPageError,
                0xC000_0094 => Self::IntDivideByZero,
                0xC000_0095 => Self::IntOverflow,
                0xC000_0026 => Self::InvalidDisposition,
                0xC000_0025 => Self::NoncontinueableException,
                0xC000_0096 => Self::PrivateInstruction,
                0x8000_0004 => Self::SingleStep,
                0xC000_00FD => Self::StackOverflow,
                err => return Err(err),
            },
        )
    }
}

impl vstd::std_specs::convert::TryFromSpecImpl<u32> for ExceptionCode {
    open spec fn obeys_try_from_spec() -> bool {
        true
    }

    /// The exception that the status code stands for, or the status code
    /// itself where it stands for none.
    open spec fn try_from_spec(value: u32) -> Result<ExceptionCode, u32> {
        match exception_of_status(value) {
            Some(code) => Ok(code),
            None => Err(value),
        }
    }
}

/// What the debugger tells the system when it lets the target run on.
#[derive(Debug, Clone, Copy, PartialEq, Eq, Structural)]
pub enum ContinueStatus {
    /// The event is dealt with.
    Continue,
    /// The exception is left to the target's own handlers.
    ExceptionNotHandled,
}

/// An exception in the target.
#[derive(Debug, Clone, Copy, PartialEq, Eq, Structural)]
pub struct ExceptionEventKind {
    /// Whether the debugger asked for a single step before the target ran.
    pub expect_step_exception: bool,
    pub is_first_chance: bool,
    pub code: ExceptionCode,
    /// The breakpoint that stopped the thread, if one did.
    pub breakpoint: Option<u32>,
}

#[derive(Debug, Clone)]
pub enum DebugEventKind {
    Unknown,
    Exception(ExceptionEventKind),
    CreateThread,
    CreateProcess(String),
    ExitThread,
    ExitProcess,
    LoadDll(String),
    UnloadDll,
    OutputDebugString(String),
    RipEvent,
}

pub enum DebugEventKindView {
    Unknown,
    Exception(ExceptionEventKind),
    CreateThread,
    CreateProcess(Seq<char>),
    ExitThread,
    ExitProcess,
    LoadDll(Seq<char>),
    UnloadDll,
    OutputDebugString(Seq<char>),
    RipEvent,
}

impl DeepView for DebugEventKind {
    type V = DebugEventKindView;

    open spec fn deep_view(&self) -> DebugEventKindView {
        match self {
            DebugEventKind::Unknown => DebugEventKindView::Unknown,
            DebugEventKind::Exception(exception) => DebugEventKindView::Exception(*exception),
            DebugEventKind::CreateThread => DebugEventKindView::CreateThread,
            DebugEventKind::CreateProcess(name) => DebugEventKindView::CreateProcess(name@),
            DebugEventKind::ExitThread => DebugEventKindView::ExitThread,
            DebugEventKind::ExitProcess => DebugEventKindView::ExitProcess,
            DebugEventKind::LoadDll(name) => DebugEventKindView::LoadDll(name@),
            DebugEventKind::UnloadDll => DebugEventKindView::UnloadDll,
            DebugEventKind::OutputDebugString(text) => DebugEventKindView::OutputDebugString(
                text@,
            ),
            DebugEventKind::RipEvent => DebugEventKindView::RipEvent,
        }
    }
}

impl DebugEventKindView {
    /// Whether the target runs on after the event. It does not after the
    /// exit of the process.
    pub open spec fn should_continue(self) -> bool {
        !(self is ExitProcess)
    }

    /// What the system is told when the target is let run on after the
    /// event. An exception is dealt with where it is the single step that
    /// the debugger asked for, or the hit of a breakpoint; any other
    /// exception is left to the target.
    pub open spec fn continue_status(self) -> ContinueStatus {
        match self {
            DebugEventKindView::Exception(exception) => if (exception.expect_step_exception
                && exception.code == ExceptionCode::SingleStep) || exception.breakpoint
                is Some {
                ContinueStatus::Continue
            } else {
                ContinueStatus::ExceptionNotHandled
            },
            _ => ContinueStatus::Continue,
        }
    }
}

/// Where the file name of a path begins, looking at its first `upto`
/// characters: behind the last backslash or slash among them, or at the
/// start.
pub open spec fn file_name_start(path: Seq<char>, upto: int) -> int
    decreases upto,
{
    if upto <= 0 {
        0
    } else if path[upto - 1] == '\\' || path[upto - 1] == '/' {
        upto
    } else {
        file_name_start(path, upto - 1)
    }
}

/// The file name of a path: what follows its last backslash or slash.
/// `None` where nothing follows it.
pub open spec fn file_name(path: Seq<char>) -> Option<Seq<char>> {
    if file_name_start(path, path.len() as int) >= path.len() {
        None
    } else {
        Some(path.skip(file_name_start(path, path.len() as int)))
    }
}

/// The file name of an optional path.
pub open spec fn file_name_of(path: Option<Seq<char>>) -> Option<Seq<char>> {
    match path {
        Some(path) => file_name(path),
        None => None,
    }
}

/// The file name of a path: what follows its last backslash or slash.
pub fn path_file_name(path: &str) -> (name: Option<String>)
    ensures
        name.deep_view() == file_name(path@),
{
    let chars = chars_of(path);
    let mut start: usize = chars.len();
    while start > 0 && chars[start - 1] != '\\' && chars[start - 1] != '/'
        invariant
            start <= chars.len(),
            file_name_start(chars@, chars.len() as int) == file_name_start(chars@, start as int),
        decreases start,
    {
        start -= 1;
    }
    if start >= chars.len() {
        return None;
    }
    let name = path.substring_char(start, chars.len());
    assert(chars@.subrange(start as int, chars.len() as int) =~= chars@.skip(start as int));
    Some(String::from_str(name))
}

/// What creating the process gives: the main thread is alive, and the
/// executable image is the first module, where it can be described.
pub open spec fn process_created<M: MemorySource>(
    memory: &M,
    process: ProcessView,
    exe_base: u64,
    exe_path: Option<Seq<char>>,
    thread_id: u32,
) -> (ProcessView, Result<DebugEventKindView, Error>) {
    let threads = process.threads.push(thread_id);
    match module_read(memory, exe_base, file_name_of(exe_path)) {
        Ok(module) => (
            ProcessView { modules: process.modules.push(module), threads },
            Ok(DebugEventKindView::CreateProcess(module.name())),
        ),
        Err(e) => (ProcessView { threads, ..process }, Err(e)),
    }
}

/// The name of a library that is being loaded, as the target's memory gives
/// it: through the pointer at `image_name`, unless that is null or cannot be
/// read.
pub open spec fn dll_name<M: MemorySource>(memory: &M, image_name: u64, is_wide: bool) -> Option<
    Seq<char>,
> {
    if image_name == 0 {
        None
    } else {
        match string_read_indirect(memory, image_name, 260, is_wide) {
            Ok(name) => Some(name),
            Err(_) => None,
        }
    }
}

/// What loading a library gives: a further module, where the library can be
/// described.
pub open spec fn dll_loaded<M: MemorySource>(
    memory: &M,
    process: ProcessView,
    dll_base: u64,
    image_name: u64,
    is_wide: bool,
) -> (ProcessView, Result<DebugEventKindView, Error>) {
    match module_read(memory, dll_base, dll_name(memory, image_name, is_wide)) {
        Ok(module) => (
            ProcessView { modules: process.modules.push(module), ..process },
            Ok(DebugEventKindView::LoadDll(module.name())),
        ),
        Err(e) => (process, Err(e)),
    }
}

impl DebugEventKind {
    pub fn should_continue(&self) -> (go_on: bool)
        ensures
            go_on == self.deep_view().should_continue(),
    {
        !matches!(self, Self::ExitProcess)
    }

    /// Notes the main thread and the executable image of the process that
    /// has been created. `exe_path` is the path of the executable, where
    /// the system could tell it.
    pub fn create_process<M: MemorySource>(
        base_process: &mut Process,
        memory: &M,
        exe_base: u64,
        exe_path: Option<String>,
        thread_id: u32,
    ) -> (kind: Result<DebugEventKind, Error>)
        ensures
            final(base_process).deep_view() == process_created(
                memory,
                old(base_process).deep_view(),
                exe_base,
                exe_path.deep_view(),
                thread_id,
            ).0,
            match process_created(
                memory,
                old(base_process).deep_view(),
                exe_base,
                exe_path.deep_view(),
                thread_id,
            ).1 {
                Ok(created) => kind matches Ok(k) && k.deep_view() == created,
                Err(e) => kind matches Err(err) && err == e,
            },
    {
        // The path is the full one, and the module goes by its file name.
        let exe_name = match &exe_path {
            Some(full_path) => path_file_name(full_path.as_str()),
            None => None,
        };
        base_process.add_thread(thread_id);
        match base_process.add_module(exe_base, exe_name, memory) {
            Ok(module) => Ok(DebugEventKind::CreateProcess(module.name())),
            Err(e) => Err(e),
        }
    }

    /// Notes the library that has been loaded at `dll_base`. `image_name`
    /// is where the target holds a pointer to the library's name, or null.
    pub fn load_dll<M: MemorySource>(
        process: &mut Process,
        memory: &M,
        dll_base: u64,
        image_name: u64,
        is_wide: bool,
    ) -> (kind: Result<DebugEventKind, Error>)
        ensures
            final(process).deep_view() == dll_loaded(
                memory,
                old(process).deep_view(),
                dll_base,
                image_name,
                is_wide,
            ).0,
            match dll_loaded(memory, old(process).deep_view(), dll_base, image_name, is_wide).1 {
                Ok(loaded) => kind matches Ok(k) && k.deep_view() == loaded,
                Err(e) => kind matches Err(err) && err == e,
            },
    {
        let dll_name = if image_name == 0 {
            None
        } else {
            match memory.read_memory_string_indirect(image_name, 260, is_wide) {
                Ok(name) => Some(name),
                Err(_) => None,
            }
        };
        match process.add_module(dll_base, dll_name, memory) {
            Ok(module) => Ok(DebugEventKind::LoadDll(module.name())),
            Err(e) => Err(e),
        }
    }

    /// Describes an exception of a thread with the registers `ctx`.
    /// `expect_step_exception` says whether the debugger asked for a single
    /// step before the target ran.
    pub fn exception(
        code: ExceptionCode,
        is_first_chance: bool,
        expect_step_exception: bool,
        breakpoint_manager: &BreakpointManager,
        ctx: &ThreadContext,
    ) -> (kind: DebugEventKind)
        ensures
            kind.deep_view() == DebugEventKindView::Exception(
                ExceptionEventKind {
                    expect_step_exception,
                    is_first_chance,
                    code,
                    breakpoint: dr6_hit(ctx.dr6),
                },
            ),
    {
        let breakpoint = breakpoint_manager.was_breakpoint_hit(ctx);
        DebugEventKind::Exception(
            ExceptionEventKind { expect_step_exception, code, is_first_chance, breakpoint },
        )
    }

    pub fn continue_status(&self) -> (status: ContinueStatus)
        ensures
            status == self.deep_view().continue_status(),
    {
        match self {
            Self::Exception(exception) => {
                let is_step = match exception.code {
                    ExceptionCode::SingleStep => true,
                    _ => false,
                };
                if (exception.expect_step_exception && is_step) || exception.breakpoint.is_some() {
                    ContinueStatus::Continue
                } else {
                    ContinueStatus::ExceptionNotHandled
                }
            },
            _ => ContinueStatus::Continue,
        }
    }

    /// Reads the text that the target has sent to the debugger.
    pub fn output_debug_string<M: MemorySource>(
        memory: &M,
        address: u64,
        len: usize,
        is_wide: bool,
    ) -> (kind: Result<DebugEventKind, Error>)
        ensures
            match string_read(memory, address, len, is_wide) {
                Ok(text) => kind matches Ok(k) && k.deep_view()
                    == DebugEventKindView::OutputDebugString(text),
                Err(e) => kind matches Err(err) && err == e,
            },
    {
        match memory.read_memory_string(address, len, is_wide) {
            Ok(debug_string) => Ok(DebugEventKind::OutputDebugString(debug_string)),
            Err(e) => Err(e),
        }
    }

    /// Notes a thread that has begun.
    pub fn create_thread(process: &mut Process, thread_id: u32) -> (kind: DebugEventKind)
        ensures
            kind.deep_view() == DebugEventKindView::CreateThread,
            final(process).deep_view() == (ProcessView {
                threads: old(process).deep_view().threads.push(thread_id),
                ..old(process).deep_view()
            }),
    {
        process.add_thread(thread_id);
        DebugEventKind::CreateThread
    }

    /// Notes a thread that has ended: it is alive no longer.
    pub fn exit_thread(process: &mut Process, thread_id: u32) -> (kind: DebugEventKind)
        ensures
            kind.deep_view() == DebugEventKindView::ExitThread,
            final(process).deep_view() == (ProcessView {
                threads: without(old(process).deep_view().threads, thread_id),
                ..old(process).deep_view()
            }),
    {
        process.remove_thread(thread_id);
        DebugEventKind::ExitThread
    }

    /// Notes a library that has been unloaded: it is a module no longer.
    pub fn unload_dll(process: &mut Process, dll_base: u64) -> (kind: DebugEventKind)
        ensures
            kind.deep_view() == DebugEventKindView::UnloadDll,
            final(process).deep_view() == (ProcessView {
                modules: without_module(old(process).deep_view().modules, dll_base),
                ..old(process).deep_view()
            }),
    {
        process.remove_module(dll_base);
        DebugEventKind::UnloadDll
    }
}

/// One stop of the target: what happened, in which thread, and the
/// registers of that thread. The registers may be changed until the event
/// is released.
#[derive(Debug, Clone)]
pub struct DebugEvent {
    pub kind: DebugEventKind,
    pub process_id: u32,
    pub thread_id: u32,
    pub ctx: ThreadContext,
    pub continue_status: ContinueStatus,
    /// Whether a single step was asked for.
    pub step_requested: bool,
}

impl DebugEvent {
    pub fn new(kind: DebugEventKind, process_id: u32, thread_id: u32, ctx: ThreadContext) -> (event:
        DebugEvent)
        ensures
            event.kind == kind,
            event.process_id == process_id,
            event.thread_id == thread_id,
            event.ctx == ctx,
            event.continue_status == kind.deep_view().continue_status(),
            !event.step_requested,
    {
        let continue_status = kind.continue_status();
        Self { kind, process_id, thread_id, ctx, continue_status, step_requested: false }
    }

    /// Asks for a single step: the thread stops again after its next
    /// instruction.
    pub fn step_into(&mut self)
        ensures
            *final(self) == (DebugEvent {
                ctx: ThreadContext { eflags: old(self).ctx.eflags | TRAP_FLAG, ..old(self).ctx },
                step_requested: true,
                ..*old(self)
            }),
    {
        self.ctx.eflags = self.ctx.eflags | TRAP_FLAG;
        self.step_requested = true;
    }

    pub fn registers(&self) -> (registers: Registers)
        ensures
            registers@ == crate::events::registers::register_names().zip_with(
                crate::events::registers::register_values(self.ctx),
            ),
    {
        Registers::from_context(&self.ctx)
    }

    pub fn instruction_pointer(&self) -> (rip: u64)
        ensures
            rip == self.ctx.rip,
    {
        self.ctx.rip
    }

    pub fn thread_id(&self) -> (id: u32)
        ensures
            id == self.thread_id,
    {
        self.thread_id
    }
}

} // verus!
