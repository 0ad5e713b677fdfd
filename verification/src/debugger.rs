//! The state of a debugging session, and what it does with each event of
//! the target.

use vstd::prelude::*;
use vstd::string::StringExecFns;

use crate::breakpoints::applied;
use crate::breakpoints::law_apply_is_idempotent;
use crate::breakpoints::lowest_empty_from;
use crate::breakpoints::populated;
use crate::breakpoints::Breakpoint;
use crate::breakpoints::BreakpointManager;
use crate::context::ThreadContext;
use crate::error::Error;
use crate::events::dll_loaded;
use crate::events::process_created;
use crate::events::ContinueStatus;
use crate::events::DebugEvent;
use crate::events::DebugEventKind;
use crate::events::DebugEventKindView;
use crate::events::ExceptionCode;
use crate::events::ExceptionEventKind;
use crate::memory::array_read;
use crate::memory::string_read;
use crate::memory::MemorySource;
use crate::breakpoints::dr6_hit;
use crate::processes::without;
use crate::processes::without_module;
use crate::processes::module_bases;
use crate::processes::ModuleView;
use crate::processes::PdbSymbols;
use crate::search::first_true;
use crate::processes::Process;
use crate::processes::ProcessView;
use crate::stack::outer_frames;
use crate::stack::stack_frames;
use crate::stack::StackFrame;
use crate::wide_string::utf16_encoded;
use crate::wide_string::WideString;

verus! {

/// What the system reports of one stop of the target, apart from the
/// thread and the process to which it happened.
#[derive(Debug, Clone)]
pub enum RawEventInfo {
    /// The process has been created. `image_path` is the path of the
    /// executable, where the system can tell it.
    CreateProcess { image_base: u64, image_path: Option<String> },
    /// A thread has begun.
    CreateThread { thread_id: u32 },
    Exception { code: ExceptionCode, first_chance: bool },
    ExitProcess,
    ExitThread,
    /// A library has been loaded. `image_name` is where the target holds a
    /// pointer to the library's name, or null.
    LoadDll { base: u64, image_name: u64, unicode: bool },
    UnloadDll { base: u64 },
    /// The target has sent a text of `length` code units to the debugger.
    OutputDebugString { address: u64, length: u16, unicode: bool },
    Rip,
}

/// One stop of the target as the system reports it.
#[derive(Debug, Clone)]
pub struct RawDebugEvent {
    pub process_id: u32,
    pub thread_id: u32,
    pub info: RawEventInfo,
}

/// The command line for a program and its arguments: each of them followed
/// by one space.
pub open spec fn command_line_text(program: Seq<char>, args: Seq<Seq<char>>) -> Seq<char>
    decreases args.len(),
{
    if args.len() == 0 {
        program + " "@
    } else {
        command_line_text(program, args.drop_last()) + args.last() + " "@
    }
}

/// The command line for a program and its arguments: each of them followed
/// by one space.
pub fn command_line(program: &str, args: &[String]) -> (line: String)
    ensures
        line@ == command_line_text(program@, args.deep_view()),
{
    let mut line = String::from_str(program);
    line.append(" ");
    let ghost all = args.deep_view();
    assert(all.take(0) =~= Seq::<Seq<char>>::empty());
    let mut index: usize = 0;
    while index < args.len()
        invariant
            index <= args.len(),
            all == args.deep_view(),
            line@ == command_line_text(program@, all.take(index as int)),
        decreases args.len() - index,
    {
        assert(all.take(index + 1).drop_last() =~= all.take(index as int));
        assert(all.take(index + 1).last() == args[index as int]@);
        line.append(args[index].as_str());
        line.append(" ");
        index += 1;
    }
    assert(all.take(index as int) =~= all);
    line
}

/// A debugging session: the command line that began it, the modules and
/// threads of the target, and the breakpoints.
pub struct Debugger {
    command_line: WideString,
    process: Process,
    breakpoints: BreakpointManager,
    /// Whether the event that was released last asked for a single step.
    expect_step: bool,
}

/// What is done to let the target run on after an event.
#[derive(Debug, Clone, Copy, PartialEq, Eq, Structural)]
pub struct Release {
    /// The thread of the event. It steps off the instruction at which it
    /// stopped without hitting a breakpoint there again.
    pub resume_thread_id: u32,
    /// The registers of that thread, as the front end may have changed them.
    pub ctx: ThreadContext,
    /// What the system is told.
    pub continue_status: ContinueStatus,
}

pub struct DebuggerView {
    pub command_line: Seq<u16>,
    pub process: ProcessView,
    pub breakpoints: Seq<Option<u64>>,
    pub expect_step: bool,
}

/// What an event does to the session and what is reported of it.
pub open spec fn event_pulled<M: MemorySource>(
    memory: &M,
    session: DebuggerView,
    raw: crate::debugger::RawEventInfoView,
    thread_id: u32,
    ctx: ThreadContext,
) -> (DebuggerView, Result<DebugEventKindView, Error>) {
    match raw {
        RawEventInfoView::CreateProcess { image_base, image_path } => {
            let created = process_created(
                memory,
                session.process,
                image_base,
                image_path,
                thread_id,
            );
            (DebuggerView { process: created.0, ..session }, created.1)
        },
        RawEventInfoView::CreateThread { thread_id: created } => (
            DebuggerView {
                process: ProcessView {
                    threads: session.process.threads.push(created),
                    ..session.process
                },
                ..session
            },
            Ok(DebugEventKindView::CreateThread),
        ),
        RawEventInfoView::Exception { code, first_chance } => (
            DebuggerView { expect_step: false, ..session },
            Ok(
                DebugEventKindView::Exception(
                    ExceptionEventKind {
                        expect_step_exception: session.expect_step,
                        is_first_chance: first_chance,
                        code,
                        breakpoint: dr6_hit(ctx.dr6),
                    },
                ),
            ),
        ),
        RawEventInfoView::ExitProcess => (session, Ok(DebugEventKindView::ExitProcess)),
        RawEventInfoView::ExitThread => (
            DebuggerView {
                process: ProcessView {
                    threads: without(session.process.threads, thread_id),
                    ..session.process
                },
                ..session
            },
            Ok(DebugEventKindView::ExitThread),
        ),
        RawEventInfoView::LoadDll { base, image_name, unicode } => {
            let loaded = dll_loaded(memory, session.process, base, image_name, unicode);
            (DebuggerView { process: loaded.0, ..session }, loaded.1)
        },
        RawEventInfoView::UnloadDll { base } => (
            DebuggerView {
                process: ProcessView {
                    modules: without_module(session.process.modules, base),
                    ..session.process
                },
                ..session
            },
            Ok(DebugEventKindView::UnloadDll),
        ),
        RawEventInfoView::OutputDebugString { address, length, unicode } => (
            session,
            match string_read(memory, address, length as usize, unicode) {
                Ok(text) => Ok(DebugEventKindView::OutputDebugString(text)),
                Err(e) => Err(e),
            },
        ),
        RawEventInfoView::Rip => (session, Ok(DebugEventKindView::RipEvent)),
    }
}

pub enum RawEventInfoView {
    CreateProcess { image_base: u64, image_path: Option<Seq<char>> },
    CreateThread { thread_id: u32 },
    Exception { code: ExceptionCode, first_chance: bool },
    ExitProcess,
    ExitThread,
    LoadDll { base: u64, image_name: u64, unicode: bool },
    UnloadDll { base: u64 },
    OutputDebugString { address: u64, length: u16, unicode: bool },
    Rip,
}

impl DeepView for RawEventInfo {
    type V = RawEventInfoView;

    open spec fn deep_view(&self) -> RawEventInfoView {
        match self {
            RawEventInfo::CreateProcess { image_base, image_path } => {
                RawEventInfoView::CreateProcess {
                    image_base: *image_base,
                    image_path: image_path.deep_view(),
                }
            },
            RawEventInfo::CreateThread { thread_id } => RawEventInfoView::CreateThread {
                thread_id: *thread_id,
            },
            RawEventInfo::Exception { code, first_chance } => RawEventInfoView::Exception {
                code: *code,
                first_chance: *first_chance,
            },
            RawEventInfo::ExitProcess => RawEventInfoView::ExitProcess,
            RawEventInfo::ExitThread => RawEventInfoView::ExitThread,
            RawEventInfo::LoadDll { base, image_name, unicode } => RawEventInfoView::LoadDll {
                base: *base,
                image_name: *image_name,
                unicode: *unicode,
            },
            RawEventInfo::UnloadDll { base } => RawEventInfoView::UnloadDll { base: *base },
            RawEventInfo::OutputDebugString { address, length, unicode } => {
                RawEventInfoView::OutputDebugString {
                    address: *address,
                    length: *length,
                    unicode: *unicode,
                }
            },
            RawEventInfo::Rip => RawEventInfoView::Rip,
        }
    }
}

impl DeepView for Debugger {
    type V = DebuggerView;

    closed spec fn deep_view(&self) -> DebuggerView {
        DebuggerView {
            command_line: self.command_line@,
            process: self.process.deep_view(),
            breakpoints: self.breakpoints@,
            expect_step: self.expect_step,
        }
    }
}

impl Debugger {
    /// Begins a session for a program and its arguments: no module, no
    /// thread and no breakpoint yet, and the command line from which the
    /// embedding program creates the process.
    pub fn run(program: &str, args: &[String]) -> (debugger: Debugger)
        ensures
            debugger.deep_view() == (DebuggerView {
                command_line: utf16_encoded(command_line_text(program@, args.deep_view())),
                process: ProcessView { modules: Seq::empty(), threads: Seq::empty() },
                breakpoints: Seq::new(4, |i: int| None::<u64>),
                expect_step: false,
            }),
    {
        let line = command_line(program, args);
        let process = Process::new();
        assert(process.deep_view().modules =~= Seq::empty());
        assert(process.deep_view().threads =~= Seq::empty());
        Debugger {
            command_line: WideString::from(line),
            process,
            breakpoints: BreakpointManager::new(),
            expect_step: false,
        }
    }

    /// The command line of the session, in UTF-16.
    pub fn command_line(&self) -> (line: &WideString)
        ensures
            line@ == self.deep_view().command_line,
    {
        &self.command_line
    }

    /// The threads of the target that are alive.
    pub fn threads(&self) -> (threads: &[u32])
        ensures
            threads@ == self.deep_view().process.threads,
    {
        self.process.threads()
    }

    /// The modules and threads of the target.
    pub fn process(&self) -> (process: &Process)
        ensures
            process.deep_view() == self.deep_view().process,
    {
        &self.process
    }

    /// Takes note of an event that the system has reported for the thread
    /// `raw.thread_id`, whose registers are `ctx`, and says what happened.
    ///
    /// Where the event cannot be described, the error says why; the session
    /// has then still taken note of what the event changed before.
    pub fn pull_event<M: MemorySource>(
        &mut self,
        raw: RawDebugEvent,
        ctx: ThreadContext,
        memory: &M,
    ) -> (event: Result<DebugEvent, Error>)
        ensures
            final(self).deep_view() == event_pulled(
                memory,
                old(self).deep_view(),
                raw.info.deep_view(),
                raw.thread_id,
                ctx,
            ).0,
            match event_pulled(
                memory,
                old(self).deep_view(),
                raw.info.deep_view(),
                raw.thread_id,
                ctx,
            ).1 {
                Ok(kind) => event matches Ok(pulled) && pulled.kind.deep_view() == kind
                    && pulled.process_id == raw.process_id && pulled.thread_id == raw.thread_id
                    && pulled.ctx == ctx && pulled.continue_status == kind.continue_status()
                    && !pulled.step_requested,
                Err(e) => event matches Err(err) && err == e,
            },
    {
        let process_id = raw.process_id;
        let thread_id = raw.thread_id;
        let kind = match raw.info {
            RawEventInfo::CreateProcess { image_base, image_path } => {
                match DebugEventKind::create_process(
                    &mut self.process,
                    memory,
                    image_base,
                    image_path,
                    thread_id,
                ) {
                    Ok(kind) => kind,
                    Err(e) => {
                        return Err(e);
                    },
                }
            },
            RawEventInfo::CreateThread { thread_id: created } => DebugEventKind::create_thread(
                &mut self.process,
                created,
            ),
            RawEventInfo::Exception { code, first_chance } => {
                let expected = self.expect_step;
                self.expect_step = false;
                DebugEventKind::exception(code, first_chance, expected, &self.breakpoints, &ctx)
            },
            RawEventInfo::ExitProcess => DebugEventKind::ExitProcess,
            RawEventInfo::ExitThread => DebugEventKind::exit_thread(&mut self.process, thread_id),
            RawEventInfo::LoadDll { base, image_name, unicode } => {
                match DebugEventKind::load_dll(
                    &mut self.process,
                    memory,
                    base,
                    image_name,
                    unicode,
                ) {
                    Ok(kind) => kind,
                    Err(e) => {
                        return Err(e);
                    },
                }
            },
            RawEventInfo::UnloadDll { base } => DebugEventKind::unload_dll(
                &mut self.process,
                base,
            ),
            RawEventInfo::OutputDebugString { address, length, unicode } => {
                match DebugEventKind::output_debug_string(
                    memory,
                    address,
                    length as usize,
                    unicode,
                ) {
                    Ok(kind) => kind,
                    Err(e) => {
                        return Err(e);
                    },
                }
            },
            RawEventInfo::Rip => DebugEventKind::RipEvent,
        };
        Ok(DebugEvent::new(kind, process_id, thread_id, ctx))
    }

    /// Ends the stop of the target. Returns what is to be done to let the
    /// target run on, or `None` after the exit of the process, after which
    /// nothing runs on.
    pub fn release(&mut self, event: &DebugEvent) -> (release: Option<Release>)
        ensures
            final(self).deep_view() == (DebuggerView {
                expect_step: event.kind.deep_view().should_continue() && event.step_requested,
                ..old(self).deep_view()
            }),
            release == if event.kind.deep_view().should_continue() {
                Some(
                    Release {
                        resume_thread_id: event.thread_id,
                        ctx: event.ctx,
                        continue_status: event.continue_status,
                    },
                )
            } else {
                None
            },
    {
        if !event.kind.should_continue() {
            self.expect_step = false;
            return None;
        }
        self.expect_step = event.step_requested;
        Some(
            Release {
                resume_thread_id: event.thread_id,
                ctx: event.ctx,
                continue_status: event.continue_status,
            },
        )
    }

    /// The registers with which the thread `thread_id` runs on after an
    /// event has been released: the breakpoints are projected onto the
    /// registers `fetched` that the thread has, or, for the thread of the
    /// event, onto the registers of the event.
    pub fn apply_breakpoints(&self, release: &Release, thread_id: u32, fetched: ThreadContext) -> (
    updated: ThreadContext)
        ensures
            updated == released(*release, self.deep_view().breakpoints, thread_id, fetched),
    {
        let ctx = if thread_id == release.resume_thread_id {
            release.ctx
        } else {
            fetched
        };
        self.breakpoints.apply_breakpoints(ctx, thread_id, release.resume_thread_id)
    }

    /// The registers with which each live thread runs on after an event has
    /// been released, in the order of `threads`. `fetched` holds for each
    /// live thread, in the same order, the registers that the platform gave
    /// for it, or `None` where it gave none: the thread has ended, or cannot
    /// be opened or read. Such a thread is passed over: nothing is written
    /// to it.
    pub fn release_threads(&self, release: &Release, fetched: &[Option<ThreadContext>]) -> (
    updated: Vec<Option<ThreadContext>>)
        ensures
            updated@ == threads_released(
                *release,
                self.deep_view().breakpoints,
                self.deep_view().process.threads,
                fetched@,
            ),
    {
        let threads = self.process.threads();
        let mut updated: Vec<Option<ThreadContext>> = Vec::new();
        let mut index: usize = 0;
        while index < threads.len()
            invariant
                index <= threads.len(),
                threads@ == self.deep_view().process.threads,
                updated@.len() == index,
                forall|i: int|
                    0 <= i < index ==> #[trigger] updated@[i] == thread_released(
                        *release,
                        self.deep_view().breakpoints,
                        threads@[i],
                        if i < fetched@.len() {
                            fetched@[i]
                        } else {
                            None
                        },
                    ),
            decreases threads.len() - index,
        {
            let registers = if index < fetched.len() {
                fetched[index]
            } else {
                None
            };
            updated.push(
                match registers {
                    Some(ctx) => Some(self.apply_breakpoints(release, threads[index], ctx)),
                    None => None,
                },
            );
            index += 1;
        }
        assert(updated@ =~= threads_released(
            *release,
            self.deep_view().breakpoints,
            self.deep_view().process.threads,
            fetched@,
        ));
        updated
    }

    pub fn resolve_symbol(&self, module_name: &str, function_name: &str) -> (address: Option<u64>)
        ensures
            address == match self.deep_view().process.module_by_name(module_name@) {
                Some(module) => module.resolve_function(function_name@),
                None => None,
            },
    {
        match self.process.get_module_by_name(module_name) {
            Some(module) => module.resolve_function(function_name),
            None => None,
        }
    }

    /// Reads sixteen bytes of the target's memory, or as many as are mapped.
    pub fn read_memory<M: MemorySource>(&self, memory: &M, address: u64) -> (data: Result<
        Vec<u8>,
        Error,
    >)
        ensures
            match array_read::<M, u8>(memory, address, 16) {
                Ok(bytes) => data matches Ok(v) && v@ == bytes,
                Err(e) => data matches Err(err) && err == e,
            },
    {
        memory.read_memory_array::<u8>(address, 16)
    }

    pub fn look_up_symbol(&self, address: u64) -> (name: Option<String>)
        ensures
            name.deep_view() == self.deep_view().process.address_to_name(address),
    {
        self.process.address_to_name(address)
    }

    pub fn breakpoints(&self) -> (list: Vec<Breakpoint>)
        ensures
            list@.map_values(|bp: Breakpoint| bp@) == populated(self.deep_view().breakpoints),
    {
        self.breakpoints.list_breakpoints()
    }

    pub fn add_breakpoint(&mut self, address: u64) -> (id: Option<usize>)
        ensures
            match lowest_empty_from(old(self).deep_view().breakpoints, 0) {
                Some(slot) => id == Some(slot as usize) && final(self).deep_view() == (
                DebuggerView {
                    breakpoints: old(self).deep_view().breakpoints.update(slot, Some(address)),
                    ..old(self).deep_view()
                }),
                None => id is None && final(self).deep_view() == old(self).deep_view(),
            },
    {
        self.breakpoints.add_breakpoint(address)
    }

    pub fn module_names(&self) -> (names: Vec<String>)
        ensures
            names.deep_view() == self.deep_view().process.module_names(),
    {
        self.process.module_names()
    }

    pub fn clear_breakpoint(&mut self, index: usize)
        ensures
            final(self).deep_view() == (DebuggerView {
                breakpoints: if index < 4 {
                    old(self).deep_view().breakpoints.update(index as int, None)
                } else {
                    old(self).deep_view().breakpoints
                },
                ..old(self).deep_view()
            }),
    {
        self.breakpoints.clear_breakpoint(index);
    }

    /// Adds to the module that is loaded at `address` what its symbol file
    /// says: to the first such module, in the order of loading. Returns
    /// whether there is such a module.
    pub fn attach_symbols(&mut self, address: u64, symbols: PdbSymbols) -> (attached: bool)
        ensures
            match first_true(module_bases(old(self).deep_view().process.modules, address)) {
                Some(index) => attached && final(self).deep_view() == (DebuggerView {
                    process: ProcessView {
                        modules: old(self).deep_view().process.modules.update(
                            index,
                            ModuleView {
                                symbols: Some(symbols.deep_view()),
                                ..old(self).deep_view().process.modules[index]
                            },
                        ),
                        ..old(self).deep_view().process
                    },
                    ..old(self).deep_view()
                }),
                None => !attached && final(self).deep_view() == old(self).deep_view(),
            },
    {
        self.process.attach_symbols(address, symbols)
    }

    /// The call stack of the thread of an event, from the inside out.
    pub fn stack_frames<M: MemorySource>(&self, event: &DebugEvent, memory: &M) -> (frames: Vec<
        StackFrame,
    >)
        ensures
            frames@ == seq![StackFrame { context: event.ctx }] + outer_frames(
                memory,
                self.deep_view().process,
                event.ctx,
                (usize::MAX - 1) as nat,
            ),
    {
        stack_frames(event.ctx, &self.process, memory)
    }
}

/// The registers with which a thread runs on after a release.
pub open spec fn released(
    release: Release,
    breakpoints: Seq<Option<u64>>,
    thread_id: u32,
    fetched: ThreadContext,
) -> ThreadContext {
    applied(
        if thread_id == release.resume_thread_id {
            release.ctx
        } else {
            fetched
        },
        breakpoints,
        thread_id == release.resume_thread_id,
    )
}

/// The registers that are written to a thread at a release: none where the
/// platform gave no registers for the thread.
pub open spec fn thread_released(
    release: Release,
    breakpoints: Seq<Option<u64>>,
    thread_id: u32,
    fetched: Option<ThreadContext>,
) -> Option<ThreadContext> {
    match fetched {
        Some(ctx) => Some(released(release, breakpoints, thread_id, ctx)),
        None => None,
    }
}

/// The registers that are written to each of the live threads at a release.
/// A thread for which `fetched` holds no entry is one for which the platform
/// gave no registers.
pub open spec fn threads_released(
    release: Release,
    breakpoints: Seq<Option<u64>>,
    threads: Seq<u32>,
    fetched: Seq<Option<ThreadContext>>,
) -> Seq<Option<ThreadContext>> {
    Seq::new(
        threads.len(),
        |i: int|
            thread_released(
                release,
                breakpoints,
                threads[i],
                if i < fetched.len() {
                    fetched[i]
                } else {
                    None
                },
            ),
    )
}

/// Setting the breakpoints in a thread once more, in the registers that
/// setting them gave, changes nothing: however often an event is released,
/// the target runs on with the same registers.
pub proof fn law_release_is_idempotent(
    release: Release,
    breakpoints: Seq<Option<u64>>,
    thread_id: u32,
    fetched: ThreadContext,
)
    ensures
        released(
            release,
            breakpoints,
            thread_id,
            released(release, breakpoints, thread_id, fetched),
        ) == released(release, breakpoints, thread_id, fetched),
{
    if thread_id != release.resume_thread_id {
        law_apply_is_idempotent(fetched, breakpoints, false);
    }
}

} // verus!
