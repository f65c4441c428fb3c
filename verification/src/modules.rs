//! The lister of the modules that a process has loaded.
//!
//! It opens the process with the rights to query it and to read its memory,
//! asks for one enumeration, resolves every handle that is not null in any
//! of the slots, and sorts each path by its extension into the libraries,
//! the executables, or neither. The handle is released on every way out.

use crate::path::{classify, executable_extension, kind_of, library_extension, spec_extension, ModuleKind};
use crate::protocol::{
    collect_live, law_live_handles, live_handles, Event, EventView, Request, RequestView,
    MODULE_ACCESS, SLOT_COUNT,
};
use crate::report::{
    module_failure_message, module_report, open_failure_message, render_module_failure,
    render_module_report, render_open_failure,
};
use crate::wide::{decode_wide, spec_decode_wide, NAME_UNITS};
use vstd::prelude::*;

verus! {

/// How far the module lister has come.
#[derive(Clone, Copy, Debug, PartialEq, Eq, Structural)]
pub enum ModulePhase {
    /// The process is asked to be opened.
    Opening,
    /// The process could not be opened and the diagnostic is due.
    Refused,
    /// The process is open and the enumeration is asked for.
    Enumerating,
    /// The enumeration failed and the diagnostic is due.
    EnumerationFailed,
    /// The handles are resolved one by one; the report follows the last.
    Listing,
    /// The handle is asked to be released.
    Closing,
    /// Nothing is left to do.
    Finished,
}

/// Every path in the list is of the kind given.
pub open spec fn all_of_kind(paths: Seq<Seq<char>>, kind: ModuleKind) -> bool {
    forall|i: int| 0 <= i < paths.len() ==> kind_of(#[trigger] paths[i]) == kind
}

/// The module lister as a mathematical value.
pub struct ModuleListerView {
    /// The process whose modules are listed.
    pub pid: u32,
    pub phase: ModulePhase,
    /// The handle of the process, once it is open.
    pub process: usize,
    /// The module handles that are still to be resolved.
    pub pending: Seq<usize>,
    /// The paths of the libraries found so far.
    pub libraries: Seq<Seq<char>>,
    /// The paths of the executables found so far.
    pub executables: Seq<Seq<char>>,
}

impl ModuleListerView {
    /// The lister before anything was asked.
    pub open spec fn start(pid: u32) -> Self {
        ModuleListerView {
            pid,
            phase: ModulePhase::Opening,
            process: 0,
            pending: Seq::empty(),
            libraries: Seq::empty(),
            executables: Seq::empty(),
        }
    }

    /// What the lister asks for, unless it has finished.
    pub open spec fn request(self) -> Option<RequestView> {
        match self.phase {
            ModulePhase::Opening => Some(
                RequestView::OpenProcess { pid: self.pid, access: MODULE_ACCESS },
            ),
            ModulePhase::Refused => Some(
                RequestView::Complain { line: open_failure_message(self.pid) },
            ),
            ModulePhase::Enumerating => Some(
                RequestView::EnumerateModules { process: self.process, slots: SLOT_COUNT },
            ),
            ModulePhase::EnumerationFailed => Some(
                RequestView::Complain { line: module_failure_message(self.pid) },
            ),
            ModulePhase::Listing => if self.pending.len() > 0 {
                Some(
                    RequestView::ResolveModule {
                        process: self.process,
                        module: self.pending[0],
                        units: NAME_UNITS,
                    },
                )
            } else {
                Some(RequestView::Print { lines: module_report(self.libraries, self.executables) })
            },
            ModulePhase::Closing => Some(RequestView::CloseProcess { process: self.process }),
            ModulePhase::Finished => None,
        }
    }

    /// The event answers what the lister asks for.
    pub open spec fn accepts(self, event: EventView) -> bool {
        match self.phase {
            ModulePhase::Opening => event is Opened,
            ModulePhase::Refused => event is Done,
            ModulePhase::Enumerating => event is Enumerated,
            ModulePhase::EnumerationFailed => event is Done,
            ModulePhase::Listing => if self.pending.len() > 0 {
                event is Resolved
            } else {
                event is Done
            },
            ModulePhase::Closing => event is Done,
            ModulePhase::Finished => false,
        }
    }

    /// The lister with one more path, put where its extension sends it.
    pub open spec fn with_path(self, path: Seq<char>) -> Self {
        match kind_of(path) {
            ModuleKind::Library => ModuleListerView {
                libraries: self.libraries.push(path),
                ..self
            },
            ModuleKind::Executable => ModuleListerView {
                executables: self.executables.push(path),
                ..self
            },
            ModuleKind::Other => self,
        }
    }

    /// The lister after an event. An event that does not answer the request
    /// changes nothing.
    pub open spec fn answer(self, event: EventView) -> Self {
        if !self.accepts(event) {
            self
        } else {
            match event {
                EventView::Opened { process } => if process == 0 {
                    ModuleListerView { phase: ModulePhase::Refused, ..self }
                } else {
                    ModuleListerView { phase: ModulePhase::Enumerating, process, ..self }
                },
                EventView::Enumerated { ok, slots, bytes } => if ok {
                    ModuleListerView {
                        phase: ModulePhase::Listing,
                        pending: live_handles(slots),
                        ..self
                    }
                } else {
                    ModuleListerView { phase: ModulePhase::EnumerationFailed, ..self }
                },
                EventView::Resolved { len, units } => {
                    let rest = ModuleListerView { pending: self.pending.drop_first(), ..self };
                    if len > 0 {
                        rest.with_path(spec_decode_wide(units))
                    } else {
                        rest
                    }
                },
                EventView::Done => match self.phase {
                    ModulePhase::Refused => ModuleListerView {
                        phase: ModulePhase::Finished,
                        ..self
                    },
                    ModulePhase::Closing => ModuleListerView {
                        phase: ModulePhase::Finished,
                        ..self
                    },
                    _ => ModuleListerView { phase: ModulePhase::Closing, ..self },
                },
            }
        }
    }

    /// How many phases lie behind the lister.
    pub open spec fn rank(self) -> nat {
        match self.phase {
            ModulePhase::Opening => 0,
            ModulePhase::Refused => 1,
            ModulePhase::Enumerating => 1,
            ModulePhase::EnumerationFailed => 2,
            ModulePhase::Listing => 2,
            ModulePhase::Closing => 3,
            ModulePhase::Finished => 4,
        }
    }

    /// The process is open and its release has not been asked for yet.
    pub open spec fn holds_process(self) -> bool {
        self.phase == ModulePhase::Enumerating || self.phase == ModulePhase::EnumerationFailed
            || self.phase == ModulePhase::Listing
    }

    /// No handle that is still to be resolved is null.
    pub open spec fn pending_live(self) -> bool {
        forall|i: int| 0 <= i < self.pending.len() ==> self.pending[i] != 0
    }

    /// Each list holds paths of its own kind only.
    pub open spec fn sorted(self) -> bool {
        all_of_kind(self.libraries, ModuleKind::Library) && all_of_kind(
            self.executables,
            ModuleKind::Executable,
        )
    }
}

/// The module lister.
pub struct ModuleLister {
    pid: u32,
    phase: ModulePhase,
    process: usize,
    queue: Vec<usize>,
    cursor: usize,
    libraries: Vec<String>,
    executables: Vec<String>,
}

impl View for ModuleLister {
    type V = ModuleListerView;

    closed spec fn view(&self) -> ModuleListerView {
        ModuleListerView {
            pid: self.pid,
            phase: self.phase,
            process: self.process,
            pending: if self.cursor <= self.queue.len() {
                self.queue@.skip(self.cursor as int)
            } else {
                Seq::empty()
            },
            libraries: self.libraries.deep_view(),
            executables: self.executables.deep_view(),
        }
    }
}

impl ModuleLister {
    #[verifier::type_invariant]
    spec fn kept(self) -> bool {
        self@.sorted()
    }

    /// A lister for the process that has asked for nothing yet.
    pub fn start(pid: u32) -> (lister: Self)
        ensures
            lister@ == ModuleListerView::start(pid),
    {
        let lister = ModuleLister {
            pid,
            phase: ModulePhase::Opening,
            process: 0,
            queue: Vec::new(),
            cursor: 0,
            libraries: Vec::new(),
            executables: Vec::new(),
        };
        proof {
            assert(lister@.pending =~= Seq::<usize>::empty());
            assert(lister@.libraries =~= Seq::<Seq<char>>::empty());
            assert(lister@.executables =~= Seq::<Seq<char>>::empty());
        }
        lister
    }

    /// The phase that the lister is in.
    pub fn phase(&self) -> (phase: ModulePhase)
        ensures
            phase == self@.phase,
    {
        self.phase
    }

    /// Whether nothing is left to do.
    pub fn is_finished(&self) -> (finished: bool)
        ensures
            finished == (self@.phase == ModulePhase::Finished),
            finished == (self@.request() is None),
    {
        match self.phase {
            ModulePhase::Finished => true,
            _ => false,
        }
    }

    /// The paths of the libraries found so far. Each has the extension
    /// `dll`.
    pub fn libraries(&self) -> (list: &Vec<String>)
        ensures
            list.deep_view() == self@.libraries,
            all_of_kind(list.deep_view(), ModuleKind::Library),
    {
        proof {
            use_type_invariant(self);
        }
        &self.libraries
    }

    /// The paths of the executables found so far. Each has the extension
    /// `exe`.
    pub fn executables(&self) -> (list: &Vec<String>)
        ensures
            list.deep_view() == self@.executables,
            all_of_kind(list.deep_view(), ModuleKind::Executable),
    {
        proof {
            use_type_invariant(self);
        }
        &self.executables
    }

    /// What is to be done next, unless the lister has finished.
    pub fn request(&self) -> (request: Option<Request>)
        ensures
            match request {
                Some(asked) => self@.request() == Some(asked@),
                None => self@.request() is None,
            },
    {
        match self.phase {
            ModulePhase::Opening => Some(
                Request::OpenProcess { pid: self.pid, access: MODULE_ACCESS },
            ),
            ModulePhase::Refused => Some(Request::Complain { line: render_open_failure(self.pid) }),
            ModulePhase::Enumerating => Some(
                Request::EnumerateModules { process: self.process, slots: SLOT_COUNT },
            ),
            ModulePhase::EnumerationFailed => Some(
                Request::Complain { line: render_module_failure(self.pid) },
            ),
            ModulePhase::Listing => if self.cursor < self.queue.len() {
                Some(
                    Request::ResolveModule {
                        process: self.process,
                        module: self.queue[self.cursor],
                        units: NAME_UNITS,
                    },
                )
            } else {
                Some(
                    Request::Print {
                        lines: render_module_report(&self.libraries, &self.executables),
                    },
                )
            },
            ModulePhase::Closing => Some(Request::CloseProcess { process: self.process }),
            ModulePhase::Finished => None,
        }
    }

    /// Takes in what came of the request. An event that does not answer it
    /// changes nothing.
    pub fn answer(self, event: Event) -> (next: Self)
        ensures
            next@ == self@.answer(event@),
    {
        proof {
            use_type_invariant(&self);
        }
        let ModuleLister { pid, phase, process, queue, cursor, libraries, executables } = self;
        let mut phase = phase;
        let mut process = process;
        let mut queue = queue;
        let mut cursor = cursor;
        let mut libraries = libraries;
        let mut executables = executables;
        match phase {
            ModulePhase::Opening => match event {
                Event::Opened { process: opened } => {
                    if opened == 0 {
                        phase = ModulePhase::Refused;
                    } else {
                        process = opened;
                        phase = ModulePhase::Enumerating;
                    }
                },
                _ => {},
            },
            ModulePhase::Refused => match event {
                Event::Done => {
                    phase = ModulePhase::Finished;
                },
                _ => {},
            },
            ModulePhase::Enumerating => match event {
                Event::Enumerated { ok, slots, bytes } => {
                    if ok {
                        queue = collect_live(slots.as_slice());
                        cursor = 0;
                        phase = ModulePhase::Listing;
                        proof {
                            assert(queue@.skip(0) =~= queue@);
                        }
                    } else {
                        phase = ModulePhase::EnumerationFailed;
                    }
                },
                _ => {},
            },
            ModulePhase::EnumerationFailed => match event {
                Event::Done => {
                    phase = ModulePhase::Closing;
                },
                _ => {},
            },
            ModulePhase::Listing => if cursor < queue.len() {
                match event {
                    Event::Resolved { len, units } => {
                        if len > 0 {
                            let path = decode_wide(units.as_slice());
                            let ghost old_libraries = libraries.deep_view();
                            let ghost old_executables = executables.deep_view();
                            match classify(path.as_str()) {
                                ModuleKind::Library => {
                                    libraries.push(path);
                                    proof {
                                        assert(libraries.deep_view() =~= old_libraries.push(
                                            spec_decode_wide(units@),
                                        ));
                                    }
                                },
                                ModuleKind::Executable => {
                                    executables.push(path);
                                    proof {
                                        assert(executables.deep_view() =~= old_executables.push(
                                            spec_decode_wide(units@),
                                        ));
                                    }
                                },
                                ModuleKind::Other => {},
                            }
                        }
                        proof {
                            assert(queue@.skip(cursor + 1) =~= queue@.skip(cursor as int).drop_first());
                        }
                        cursor = cursor + 1;
                    },
                    _ => {},
                }
            } else {
                match event {
                    Event::Done => {
                        phase = ModulePhase::Closing;
                    },
                    _ => {},
                }
            },
            ModulePhase::Closing => match event {
                Event::Done => {
                    phase = ModulePhase::Finished;
                },
                _ => {},
            },
            ModulePhase::Finished => {},
        }
        ModuleLister { pid, phase, process, queue, cursor, libraries, executables }
    }
}

/// A path goes to the libraries where its extension is exactly `dll`, to the
/// executables where it is exactly `exe`, and to neither list where it is
/// anything else or missing. The lists are otherwise left as they were.
pub proof fn law_paths_go_by_extension(lister: ModuleListerView, len: u32, units: Seq<u16>)
    requires
        lister.phase == ModulePhase::Listing,
        lister.pending.len() > 0,
        len > 0,
    ensures
        ({
            let path = spec_decode_wide(units);
            let next = lister.answer(EventView::Resolved { len, units });
            if spec_extension(path) == Some(library_extension()) {
                next.libraries == lister.libraries.push(path) && next.executables
                    == lister.executables
            } else if spec_extension(path) == Some(executable_extension()) {
                next.libraries == lister.libraries && next.executables
                    == lister.executables.push(path)
            } else {
                next.libraries == lister.libraries && next.executables == lister.executables
            }
        }),
{
}

/// A resolution that reports no length adds nothing to either list.
pub proof fn law_unresolved_module_is_skipped(lister: ModuleListerView, units: Seq<u16>)
    ensures
        lister.answer(EventView::Resolved { len: 0, units }).libraries == lister.libraries,
        lister.answer(EventView::Resolved { len: 0, units }).executables == lister.executables,
{
}

/// Whatever happens, every path among the libraries has the extension `dll`
/// and every path among the executables has the extension `exe`: the lists
/// start out that way and no event changes it.
pub proof fn law_lists_stay_sorted(lister: ModuleListerView, event: EventView)
    ensures
        ModuleListerView::start(lister.pid).sorted(),
        lister.sorted() ==> lister.answer(event).sorted(),
{
    if lister.sorted() {
        let next = lister.answer(event);
        assert forall|i: int| 0 <= i < next.libraries.len() implies kind_of(
            #[trigger] next.libraries[i],
        ) == ModuleKind::Library by {
            if i < lister.libraries.len() {
                assert(next.libraries[i] == lister.libraries[i]);
            }
        }
        assert forall|i: int| 0 <= i < next.executables.len() implies kind_of(
            #[trigger] next.executables[i],
        ) == ModuleKind::Executable by {
            if i < lister.executables.len() {
                assert(next.executables[i] == lister.executables[i]);
            }
        }
    }
}

/// In sorted lists a path with an extension other than `dll` and `exe`, or
/// with none, is in neither.
pub proof fn law_other_paths_are_in_no_list(lister: ModuleListerView, path: Seq<char>)
    requires
        lister.sorted(),
        kind_of(path) == ModuleKind::Other,
    ensures
        !lister.libraries.contains(path),
        !lister.executables.contains(path),
{
}

/// The handles that are resolved are the ones that are not null among all
/// the slots, in their order, whatever number of bytes was reported.
pub proof fn law_module_enumeration(
    lister: ModuleListerView,
    ok: bool,
    slots: Seq<usize>,
    bytes: u32,
)
    requires
        lister.phase == ModulePhase::Enumerating,
    ensures
        ({
            let next = lister.answer(EventView::Enumerated { ok, slots, bytes });
            if ok {
                next.phase == ModulePhase::Listing && next.pending == live_handles(slots)
            } else {
                next.request() == Some(
                    RequestView::Complain { line: module_failure_message(lister.pid) },
                )
            }
        }),
{
}

/// A null handle is never asked to be resolved: none is pending at the
/// start, no event makes one pending, and the module that is resolved next
/// is the first of the pending ones.
pub proof fn law_null_module_is_never_resolved(lister: ModuleListerView, event: EventView)
    ensures
        ModuleListerView::start(lister.pid).pending_live(),
        lister.pending_live() ==> lister.answer(event).pending_live(),
        lister.pending_live() ==> !(lister.request() matches Some(
            RequestView::ResolveModule { module, .. },
        ) && module == 0),
{
    if lister.pending_live() {
        let next = lister.answer(event);
        if lister.accepts(event) {
            match event {
                EventView::Enumerated { ok, slots, bytes } => {
                    law_live_handles(slots);
                },
                EventView::Resolved { len, units } => {
                    assert forall|i: int| 0 <= i < next.pending.len() implies next.pending[i]
                        != 0 by {
                        assert(next.pending[i] == lister.pending[i + 1]);
                    }
                },
                _ => {},
            }
        }
    }
}

/// The process handle is taken only by an opening that succeeded, stays the
/// same while it is held, is the one that every request in between names,
/// and is given up only by asking to release it. A lister that has finished
/// holds none.
pub proof fn law_process_is_released(lister: ModuleListerView, event: EventView)
    ensures
        ({
            let next = lister.answer(event);
            &&& !ModuleListerView::start(lister.pid).holds_process()
            &&& !lister.holds_process() && next.holds_process() ==> lister.phase
                == ModulePhase::Opening && event == (EventView::Opened { process: next.process })
                && next.process != 0
            &&& lister.holds_process() ==> next.process == lister.process
            &&& lister.holds_process() && !next.holds_process() ==> next.request() == Some(
                RequestView::CloseProcess { process: lister.process },
            )
            &&& lister.holds_process() && next.holds_process() ==> !(next.request() matches Some(
                RequestView::CloseProcess { .. },
            ))
            &&& next.phase == ModulePhase::Finished ==> !next.holds_process()
            &&& next.request() matches Some(RequestView::CloseProcess { .. })
                ==> next.phase == ModulePhase::Closing
            &&& lister.phase == ModulePhase::Closing ==> next.phase == ModulePhase::Closing
                || next.phase == ModulePhase::Finished
        }),
{
}

/// An event that answers the request takes the lister forward: into a later
/// phase, or to one handle fewer. Any other event leaves it as it is.
pub proof fn law_module_progress(lister: ModuleListerView, event: EventView)
    ensures
        ({
            let next = lister.answer(event);
            if lister.accepts(event) {
                next.rank() > lister.rank() || (next.rank() == lister.rank()
                    && next.pending.len() < lister.pending.len())
            } else {
                next == lister
            }
        }),
        lister.request() is None <==> lister.phase == ModulePhase::Finished,
{
}

} // verus!
