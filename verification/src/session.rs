//! One run of the program: the arguments are read, the modules of the
//! process are listed, then the drivers, and the run ends with an exit code.

use crate::cli::{
    parse_args, spec_parse_args, usage_message, UsageError, LISTED_EXIT_CODE, USAGE_EXIT_CODE,
};
use crate::drivers::{reported_slots, DriverLister, DriverListerView, DriverPhase};
use crate::modules::{ModuleLister, ModuleListerView, ModulePhase};
use crate::protocol::{live_handles, Event, EventView, Request, RequestView, MODULE_ACCESS, SLOT_COUNT};
use crate::report::{driver_failure_message, driver_report, open_failure_message};
use crate::wide::NAME_UNITS;
use vstd::prelude::*;

verus! {

/// A run as a mathematical value.
pub enum SessionView {
    /// The arguments were refused; `told` once the diagnostic is written.
    Rejected { error: UsageError, told: bool },
    /// The listers are at work, the modules first.
    Running { modules: ModuleListerView, drivers: DriverListerView },
}

impl SessionView {
    /// The run that lists the process.
    pub open spec fn listing(pid: u32) -> Self {
        SessionView::Running {
            modules: ModuleListerView::start(pid),
            drivers: DriverListerView::start(),
        }
    }

    /// The run that the arguments start.
    pub open spec fn start(args: Seq<Seq<char>>) -> Self {
        match spec_parse_args(args) {
            Ok(pid) => Self::listing(pid),
            Err(error) => SessionView::Rejected { error, told: false },
        }
    }

    /// What is to be done next. The last request is to leave.
    pub open spec fn request(self) -> RequestView {
        match self {
            SessionView::Rejected { error, told } => if told {
                RequestView::Exit { code: USAGE_EXIT_CODE }
            } else {
                RequestView::Complain { line: usage_message(error) }
            },
            SessionView::Running { modules, drivers } => match modules.request() {
                Some(asked) => asked,
                None => match drivers.request() {
                    Some(asked) => asked,
                    None => RequestView::Exit { code: LISTED_EXIT_CODE },
                },
            },
        }
    }

    /// The run after an event. An event that does not answer the request
    /// changes nothing.
    pub open spec fn answer(self, event: EventView) -> Self {
        match self {
            SessionView::Rejected { error, told } => if event is Done {
                SessionView::Rejected { error, told: true }
            } else {
                self
            },
            SessionView::Running { modules, drivers } => if modules.phase != ModulePhase::Finished {
                SessionView::Running { modules: modules.answer(event), drivers }
            } else {
                SessionView::Running { modules, drivers: drivers.answer(event) }
            },
        }
    }
}

/// A run.
pub enum Session {
    /// The arguments were refused; `told` once the diagnostic is written.
    Rejected { error: UsageError, told: bool },
    /// The listers are at work, the modules first.
    Running { modules: ModuleLister, drivers: DriverLister },
}

impl View for Session {
    type V = SessionView;

    open spec fn view(&self) -> SessionView {
        match *self {
            Session::Rejected { error, told } => SessionView::Rejected { error, told },
            Session::Running { modules, drivers } => SessionView::Running {
                modules: modules@,
                drivers: drivers@,
            },
        }
    }
}

impl Session {
    /// The run that the arguments start, the program's name first among
    /// them.
    pub fn start(args: &[String]) -> (session: Self)
        ensures
            session@ == SessionView::start(args.deep_view()),
    {
        match parse_args(args) {
            Ok(pid) => Session::Running {
                modules: ModuleLister::start(pid),
                drivers: DriverLister::start(),
            },
            Err(error) => Session::Rejected { error, told: false },
        }
    }

    /// What is to be done next. The last request is to leave.
    pub fn request(&self) -> (request: Request)
        ensures
            request@ == self@.request(),
    {
        match self {
            Session::Rejected { error, told } => if *told {
                Request::Exit { code: USAGE_EXIT_CODE }
            } else {
                Request::Complain { line: error.message() }
            },
            Session::Running { modules, drivers } => match modules.request() {
                Some(asked) => asked,
                None => match drivers.request() {
                    Some(asked) => asked,
                    None => Request::Exit { code: LISTED_EXIT_CODE },
                },
            },
        }
    }

    /// Takes in what came of the request. An event that does not answer it
    /// changes nothing.
    pub fn answer(self, event: Event) -> (next: Self)
        ensures
            next@ == self@.answer(event@),
    {
        match self {
            Session::Rejected { error, told } => match event {
                Event::Done => Session::Rejected { error, told: true },
                _ => Session::Rejected { error, told },
            },
            Session::Running { modules, drivers } => if !modules.is_finished() {
                Session::Running { modules: modules.answer(event), drivers }
            } else {
                Session::Running { modules, drivers: drivers.answer(event) }
            },
        }
    }
}

/// Refused arguments are answered with their diagnostic and then with the
/// exit code 1; nothing is asked of the operating system.
pub proof fn law_refused_arguments(args: Seq<Seq<char>>, error: UsageError)
    requires
        spec_parse_args(args) == Err::<u32, UsageError>(error),
    ensures
        SessionView::start(args).request() == (RequestView::Complain {
            line: usage_message(error),
        }),
        SessionView::start(args).answer(EventView::Done).request() == (RequestView::Exit {
            code: 1,
        }),
{
}

/// A run whose arguments name a process first asks to open that process,
/// with the rights to query it and to read its memory.
pub proof fn law_accepted_arguments(args: Seq<Seq<char>>, pid: u32)
    requires
        spec_parse_args(args) == Ok::<u32, UsageError>(pid),
    ensures
        SessionView::start(args) == SessionView::listing(pid),
        SessionView::start(args).request() == (RequestView::OpenProcess {
            pid,
            access: MODULE_ACCESS,
        }),
{
}

/// A process that cannot be opened is reported with the diagnostic that
/// names it, and the run goes on to the drivers: it asks for their
/// enumeration and, by what comes back, resolves the first driver, prints
/// the section, or reports the failure.
pub proof fn law_refused_process_leaves_drivers(pid: u32, ok: bool, slots: Seq<usize>, bytes: u32)
    ensures
        ({
            let opening = SessionView::listing(pid);
            let refused = opening.answer(EventView::Opened { process: 0 });
            let told = refused.answer(EventView::Done);
            let listed = told.answer(EventView::Enumerated { ok, slots, bytes });
            let drivers = live_handles(reported_slots(slots, bytes));
            &&& opening.request() == RequestView::OpenProcess { pid, access: MODULE_ACCESS }
            &&& refused.request() == RequestView::Complain { line: open_failure_message(pid) }
            &&& told.request() == RequestView::EnumerateDrivers { slots: SLOT_COUNT }
            &&& listed.request() == if !ok {
                RequestView::Complain { line: driver_failure_message() }
            } else if drivers.len() > 0 {
                RequestView::ResolveDriver { driver: drivers[0], units: NAME_UNITS }
            } else {
                RequestView::Print { lines: driver_report(Seq::empty()) }
            }
        }),
{
}

/// The modules come first and the drivers follow, however the modules
/// ended. The run leaves only when both listers have finished, and then
/// with the exit code 0.
pub proof fn law_drivers_follow_modules(modules: ModuleListerView, drivers: DriverListerView)
    ensures
        ({
            let session = SessionView::Running { modules, drivers };
            &&& modules.phase != ModulePhase::Finished ==> Some(session.request())
                == modules.request()
            &&& modules.phase == ModulePhase::Finished && drivers.phase != DriverPhase::Finished
                ==> Some(session.request()) == drivers.request()
            &&& session.request() is Exit <==> modules.phase == ModulePhase::Finished
                && drivers.phase == DriverPhase::Finished
            &&& session.request() is Exit ==> session.request() == (RequestView::Exit { code: 0 })
        }),
{
}

} // verus!
