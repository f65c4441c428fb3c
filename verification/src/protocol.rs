//! What the listers ask of the operating system, and what they are told.
//!
//! A handle travels as the number that the operating system gave; zero is
//! the null handle. The caller carries each request out and hands back the
//! event that answers it.

use vstd::prelude::*;

verus! {

/// Number of handle slots that an enumeration is given to fill.
pub const SLOT_COUNT: usize = 1024;

/// The right to query information about a process.
pub const PROCESS_QUERY_INFORMATION: u32 = 0x0400;

/// The right to read the memory of a process.
pub const PROCESS_VM_READ: u32 = 0x0010;

/// The rights with which a process is opened: to query it and to read its
/// memory, and no other.
pub const MODULE_ACCESS: u32 = 0x0410;

/// One thing to do for a lister.
#[derive(Debug, PartialEq, Eq)]
pub enum Request {
    /// Open the process with the access rights given.
    OpenProcess { pid: u32, access: u32 },
    /// Enumerate the modules of the open process into `slots` slots.
    EnumerateModules { process: usize, slots: usize },
    /// Resolve the path of a module into a buffer of `units` code units.
    ResolveModule { process: usize, module: usize, units: usize },
    /// Release the process handle.
    CloseProcess { process: usize },
    /// Enumerate the loaded drivers into `slots` slots.
    EnumerateDrivers { slots: usize },
    /// Resolve the path of a driver into a buffer of `units` code units.
    ResolveDriver { driver: usize, units: usize },
    /// Write the lines to the standard output, one after the other.
    Print { lines: Vec<String> },
    /// Write the line to the error stream.
    Complain { line: String },
    /// Leave with the exit code.
    Exit { code: i32 },
}

/// A request as a mathematical value.
pub enum RequestView {
    OpenProcess { pid: u32, access: u32 },
    EnumerateModules { process: usize, slots: usize },
    ResolveModule { process: usize, module: usize, units: usize },
    CloseProcess { process: usize },
    EnumerateDrivers { slots: usize },
    ResolveDriver { driver: usize, units: usize },
    Print { lines: Seq<Seq<char>> },
    Complain { line: Seq<char> },
    Exit { code: i32 },
}

impl View for Request {
    type V = RequestView;

    open spec fn view(&self) -> RequestView {
        match *self {
            Request::OpenProcess { pid, access } => RequestView::OpenProcess { pid, access },
            Request::EnumerateModules { process, slots } => RequestView::EnumerateModules {
                process,
                slots,
            },
            Request::ResolveModule { process, module, units } => RequestView::ResolveModule {
                process,
                module,
                units,
            },
            Request::CloseProcess { process } => RequestView::CloseProcess { process },
            Request::EnumerateDrivers { slots } => RequestView::EnumerateDrivers { slots },
            Request::ResolveDriver { driver, units } => RequestView::ResolveDriver {
                driver,
                units,
            },
            Request::Print { lines } => RequestView::Print { lines: lines.deep_view() },
            Request::Complain { line } => RequestView::Complain { line: line@ },
            Request::Exit { code } => RequestView::Exit { code },
        }
    }
}

/// What came of a request.
#[derive(Debug, PartialEq, Eq)]
pub enum Event {
    /// The process was opened; a null handle where it was refused.
    Opened { process: usize },
    /// An enumeration returned: whether it succeeded, the slots as it left
    /// them, and the number of bytes that it reported.
    Enumerated { ok: bool, slots: Vec<usize>, bytes: u32 },
    /// A path was resolved: the length reported and the whole buffer.
    Resolved { len: u32, units: Vec<u16> },
    /// A line was written, or a handle released.
    Done,
}

/// An event as a mathematical value.
pub enum EventView {
    Opened { process: usize },
    Enumerated { ok: bool, slots: Seq<usize>, bytes: u32 },
    Resolved { len: u32, units: Seq<u16> },
    Done,
}

impl View for Event {
    type V = EventView;

    open spec fn view(&self) -> EventView {
        match *self {
            Event::Opened { process } => EventView::Opened { process },
            Event::Enumerated { ok, slots, bytes } => EventView::Enumerated {
                ok,
                slots: slots@,
                bytes,
            },
            Event::Resolved { len, units } => EventView::Resolved { len, units: units@ },
            Event::Done => EventView::Done,
        }
    }
}

/// The handles that are not null, in the order of their slots.
pub open spec fn live_handles(slots: Seq<usize>) -> Seq<usize> {
    slots.filter(|handle: usize| handle != 0)
}

/// The access rights hold the two rights and nothing else.
pub proof fn law_access_is_query_and_read()
    ensures
        MODULE_ACCESS == PROCESS_QUERY_INFORMATION | PROCESS_VM_READ,
        MODULE_ACCESS & PROCESS_QUERY_INFORMATION != 0,
        MODULE_ACCESS & PROCESS_VM_READ != 0,
        MODULE_ACCESS & !(PROCESS_QUERY_INFORMATION | PROCESS_VM_READ) == 0,
{
    assert(0x0410u32 == 0x0400u32 | 0x0010u32) by (bit_vector);
    assert(0x0410u32 & 0x0400u32 != 0) by (bit_vector);
    assert(0x0410u32 & 0x0010u32 != 0) by (bit_vector);
    assert(0x0410u32 & !(0x0400u32 | 0x0010u32) == 0) by (bit_vector);
}

/// No handle among the live ones is null, each of them stands in a slot,
/// and every slot that is not null is among them. Slots without a null are
/// all live.
pub proof fn law_live_handles(slots: Seq<usize>)
    ensures
        live_handles(slots).len() <= slots.len(),
        forall|i: int| 0 <= i < live_handles(slots).len() ==> live_handles(slots)[i] != 0,
        forall|i: int|
            0 <= i < live_handles(slots).len() ==> slots.contains(#[trigger] live_handles(slots)[i]),
        forall|j: int|
            0 <= j < slots.len() && slots[j] != 0 ==> live_handles(slots).contains(
                #[trigger] slots[j],
            ),
        (forall|j: int| 0 <= j < slots.len() ==> slots[j] != 0) ==> live_handles(slots) == slots,
    decreases slots.len(),
{
    reveal(Seq::filter);
    if slots.len() > 0 {
        let front = slots.drop_last();
        let live = live_handles(slots);
        law_live_handles(front);
        assert forall|i: int| 0 <= i < live.len() implies slots.contains(#[trigger] live[i]) by {
            if i < live_handles(front).len() {
                let j = choose|j: int| 0 <= j < front.len() && front[j] == live_handles(front)[i];
                assert(slots[j] == live[i]);
            } else {
                assert(slots[slots.len() - 1] == live[i]);
            }
        }
        assert forall|j: int| 0 <= j < slots.len() && slots[j] != 0 implies live.contains(
            #[trigger] slots[j],
        ) by {
            if j < front.len() {
                assert(front[j] == slots[j]);
                let i = choose|i: int|
                    0 <= i < live_handles(front).len() && live_handles(front)[i] == front[j];
                assert(live[i] == slots[j]);
            } else {
                assert(live[live.len() - 1] == slots[j]);
            }
        }
        if forall|j: int| 0 <= j < slots.len() ==> slots[j] != 0 {
            assert forall|j: int| 0 <= j < front.len() implies front[j] != 0 by {
                assert(front[j] == slots[j]);
            }
            assert(live =~= slots);
        }
    }
}

/// Collects the handles that are not null.
pub fn collect_live(slots: &[usize]) -> (live: Vec<usize>)
    ensures
        live@ == live_handles(slots@),
{
    let mut live: Vec<usize> = Vec::new();
    let mut i: usize = 0;
    proof {
        assert(slots@.take(0) =~= Seq::<usize>::empty());
    }
    while i < slots.len()
        invariant
            i <= slots.len(),
            live@ == live_handles(slots@.take(i as int)),
        decreases slots.len() - i,
    {
        let handle = slots[i];
        proof {
            let more = slots@.take(i + 1);
            assert(more.drop_last() =~= slots@.take(i as int));
            assert(more.last() == handle);
            reveal(Seq::filter);
        }
        if handle != 0 {
            live.push(handle);
        }
        i = i + 1;
    }
    proof {
        assert(slots@.take(slots.len() as int) =~= slots@);
    }
    live
}

} // verus!
