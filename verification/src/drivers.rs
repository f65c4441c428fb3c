//! The lister of the kernel drivers that the system has loaded.
//!
//! It asks for one enumeration, reads as many slots as the bytes reported
//! make up, resolves each handle that is not null and lists every path that
//! came back, whatever its extension.

use crate::protocol::{
    collect_live, law_live_handles, live_handles, Event, EventView, Request, RequestView, SLOT_COUNT,
};
use crate::report::{driver_failure_message, driver_report, render_driver_failure, render_driver_report};
use crate::wide::{decode_wide, spec_decode_wide, NAME_UNITS};
use vstd::layout::{layout_of_primitives, size_of};
use vstd::prelude::*;
use vstd::slice::slice_subrange;

verus! {

/// How far the driver lister has come.
#[derive(Clone, Copy, Debug, PartialEq, Eq, Structural)]
pub enum DriverPhase {
    /// The enumeration is asked for.
    Enumerating,
    /// The enumeration failed and the diagnostic is due.
    Failed,
    /// The handles are resolved one by one; the report follows the last.
    Listing,
    /// Nothing is left to do.
    Finished,
}

/// Number of slots that the bytes reported by an enumeration make up.
pub open spec fn entry_count(bytes: u32) -> nat {
    bytes as nat / size_of::<usize>()
}

/// The slots that an enumeration reported as filled: as many as
/// `entry_count` says, and never more than there are.
pub open spec fn reported_slots(slots: Seq<usize>, bytes: u32) -> Seq<usize> {
    if entry_count(bytes) <= slots.len() {
        slots.take(entry_count(bytes) as int)
    } else {
        slots
    }
}

/// The driver lister as a mathematical value.
pub struct DriverListerView {
    pub phase: DriverPhase,
    /// The handles that are still to be resolved.
    pub pending: Seq<usize>,
    /// The paths listed so far.
    pub names: Seq<Seq<char>>,
}

impl DriverListerView {
    /// The lister before anything was asked.
    pub open spec fn start() -> Self {
        DriverListerView {
            phase: DriverPhase::Enumerating,
            pending: Seq::empty(),
            names: Seq::empty(),
        }
    }

    /// What the lister asks for, unless it has finished.
    pub open spec fn request(self) -> Option<RequestView> {
        match self.phase {
            DriverPhase::Enumerating => Some(RequestView::EnumerateDrivers { slots: SLOT_COUNT }),
            DriverPhase::Failed => Some(RequestView::Complain { line: driver_failure_message() }),
            DriverPhase::Listing => if self.pending.len() > 0 {
                Some(RequestView::ResolveDriver { driver: self.pending[0], units: NAME_UNITS })
            } else {
                Some(RequestView::Print { lines: driver_report(self.names) })
            },
            DriverPhase::Finished => None,
        }
    }

    /// The event answers what the lister asks for.
    pub open spec fn accepts(self, event: EventView) -> bool {
        match self.phase {
            DriverPhase::Enumerating => event is Enumerated,
            DriverPhase::Failed => event is Done,
            DriverPhase::Listing => if self.pending.len() > 0 {
                event is Resolved
            } else {
                event is Done
            },
            DriverPhase::Finished => false,
        }
    }

    /// The lister after an event. An event that does not answer the request
    /// changes nothing.
    pub open spec fn answer(self, event: EventView) -> Self {
        if !self.accepts(event) {
            self
        } else {
            match event {
                EventView::Enumerated { ok, slots, bytes } => if ok {
                    DriverListerView {
                        phase: DriverPhase::Listing,
                        pending: live_handles(reported_slots(slots, bytes)),
                        names: self.names,
                    }
                } else {
                    DriverListerView { phase: DriverPhase::Failed, ..self }
                },
                EventView::Resolved { len, units } => DriverListerView {
                    phase: DriverPhase::Listing,
                    pending: self.pending.drop_first(),
                    names: if len > 0 {
                        self.names.push(spec_decode_wide(units))
                    } else {
                        self.names
                    },
                },
                _ => DriverListerView { phase: DriverPhase::Finished, ..self },
            }
        }
    }

    /// No handle that is still to be resolved is null.
    pub open spec fn pending_live(self) -> bool {
        forall|i: int| 0 <= i < self.pending.len() ==> self.pending[i] != 0
    }

    /// How many phases lie behind the lister.
    pub open spec fn rank(self) -> nat {
        match self.phase {
            DriverPhase::Enumerating => 0,
            DriverPhase::Failed => 1,
            DriverPhase::Listing => 1,
            DriverPhase::Finished => 2,
        }
    }
}

/// The driver lister.
pub struct DriverLister {
    phase: DriverPhase,
    queue: Vec<usize>,
    cursor: usize,
    names: Vec<String>,
}

impl View for DriverLister {
    type V = DriverListerView;

    closed spec fn view(&self) -> DriverListerView {
        DriverListerView {
            phase: self.phase,
            pending: if self.cursor <= self.queue.len() {
                self.queue@.skip(self.cursor as int)
            } else {
                Seq::empty()
            },
            names: self.names.deep_view(),
        }
    }
}

/// Number of slots that the bytes reported make up, and no more than
/// `available`.
pub fn reported_len(bytes: u32, available: usize) -> (len: usize)
    ensures
        len == if entry_count(bytes) <= available {
            entry_count(bytes)
        } else {
            available as nat
        },
{
    broadcast use layout_of_primitives;

    let size: usize = core::mem::size_of::<usize>();
    let count: usize = bytes as usize / size;
    if count <= available {
        count
    } else {
        available
    }
}

impl DriverLister {
    /// A lister that has asked for nothing yet.
    pub fn start() -> (lister: Self)
        ensures
            lister@ == DriverListerView::start(),
    {
        let lister = DriverLister {
            phase: DriverPhase::Enumerating,
            queue: Vec::new(),
            cursor: 0,
            names: Vec::new(),
        };
        proof {
            assert(lister@.pending =~= Seq::<usize>::empty());
            assert(lister@.names =~= Seq::<Seq<char>>::empty());
        }
        lister
    }

    /// The phase that the lister is in.
    pub fn phase(&self) -> (phase: DriverPhase)
        ensures
            phase == self@.phase,
    {
        self.phase
    }

    /// Whether nothing is left to do.
    pub fn is_finished(&self) -> (finished: bool)
        ensures
            finished == (self@.phase == DriverPhase::Finished),
            finished == (self@.request() is None),
    {
        match self.phase {
            DriverPhase::Finished => true,
            _ => false,
        }
    }

    /// The paths listed so far.
    pub fn names(&self) -> (names: &Vec<String>)
        ensures
            names.deep_view() == self@.names,
    {
        &self.names
    }

    /// What is to be done next, unless the lister has finished.
    pub fn request(&self) -> (request: Option<Request>)
        ensures
            match request {
                Some(asked) => self@.request() == Some(asked@),
                None => self@.request() is None,
            },
    {
        match self.phase {
            DriverPhase::Enumerating => Some(Request::EnumerateDrivers { slots: SLOT_COUNT }),
            DriverPhase::Failed => Some(Request::Complain { line: render_driver_failure() }),
            DriverPhase::Listing => if self.cursor < self.queue.len() {
                Some(Request::ResolveDriver { driver: self.queue[self.cursor], units: NAME_UNITS })
            } else {
                Some(Request::Print { lines: render_driver_report(&self.names) })
            },
            DriverPhase::Finished => None,
        }
    }

    /// Takes in what came of the request. An event that does not answer it
    /// changes nothing.
    pub fn answer(self, event: Event) -> (next: Self)
        ensures
            next@ == self@.answer(event@),
    {
        let mut next = self;
        match next.phase {
            DriverPhase::Enumerating => match event {
                Event::Enumerated { ok, slots, bytes } => {
                    if ok {
                        let len: usize = reported_len(bytes, slots.len());
                        let reported = slice_subrange(slots.as_slice(), 0, len);
                        proof {
                            assert(reported@ =~= reported_slots(slots@, bytes));
                        }
                        next.queue = collect_live(reported);
                        next.cursor = 0;
                        next.phase = DriverPhase::Listing;
                        proof {
                            assert(next.queue@.skip(0) =~= next.queue@);
                        }
                    } else {
                        next.phase = DriverPhase::Failed;
                    }
                },
                _ => {},
            },
            DriverPhase::Failed => match event {
                Event::Done => {
                    next.phase = DriverPhase::Finished;
                },
                _ => {},
            },
            DriverPhase::Listing => if next.cursor < next.queue.len() {
                match event {
                    Event::Resolved { len, units } => {
                        if len > 0 {
                            let ghost before = next.names.deep_view();
                            let name = decode_wide(units.as_slice());
                            next.names.push(name);
                            proof {
                                assert(next.names.deep_view() =~= before.push(
                                    spec_decode_wide(units@),
                                ));
                            }
                        }
                        proof {
                            assert(next.queue@.skip(next.cursor + 1) =~= next.queue@.skip(
                                next.cursor as int,
                            ).drop_first());
                        }
                        next.cursor = next.cursor + 1;
                    },
                    _ => {},
                }
            } else {
                match event {
                    Event::Done => {
                        next.phase = DriverPhase::Finished;
                    },
                    _ => {},
                }
            },
            DriverPhase::Finished => {},
        }
        next
    }
}

/// Every path that resolves to a positive length is listed, whatever its
/// extension, and behind the paths listed before it.
pub proof fn law_every_driver_path_is_listed(lister: DriverListerView, len: u32, units: Seq<u16>)
    requires
        lister.phase == DriverPhase::Listing,
        lister.pending.len() > 0,
        len > 0,
    ensures
        lister.answer(EventView::Resolved { len, units }).names == lister.names.push(
            spec_decode_wide(units),
        ),
{
}

/// A resolution that reports no length adds nothing to the list.
pub proof fn law_unresolved_driver_is_skipped(lister: DriverListerView, units: Seq<u16>)
    requires
        lister.phase == DriverPhase::Listing,
        lister.pending.len() > 0,
    ensures
        lister.answer(EventView::Resolved { len: 0, units }).names == lister.names,
{
}

/// The handles that are resolved are the ones that are not null among the
/// slots reported, in their order; a failed enumeration resolves none and
/// is followed by the diagnostic.
pub proof fn law_driver_enumeration(ok: bool, slots: Seq<usize>, bytes: u32)
    ensures
        ({
            let next = DriverListerView::start().answer(EventView::Enumerated { ok, slots, bytes });
            if ok {
                &&& next.phase == DriverPhase::Listing
                &&& next.pending == live_handles(reported_slots(slots, bytes))
                &&& next.names.len() == 0
            } else {
                next.request() == Some(RequestView::Complain { line: driver_failure_message() })
            }
        }),
{
}

/// A null handle is never asked to be resolved: none is pending at the
/// start, no event makes one pending, and the driver that is resolved next
/// is the first of the pending ones.
pub proof fn law_null_driver_is_never_resolved(lister: DriverListerView, event: EventView)
    ensures
        DriverListerView::start().pending_live(),
        lister.pending_live() ==> lister.answer(event).pending_live(),
        lister.pending_live() ==> !(lister.request() matches Some(
            RequestView::ResolveDriver { driver, .. },
        ) && driver == 0),
{
    if lister.pending_live() {
        let next = lister.answer(event);
        if lister.accepts(event) {
            match event {
                EventView::Enumerated { ok, slots, bytes } => {
                    law_live_handles(reported_slots(slots, bytes));
                },
                EventView::Resolved { len, units } => {
                    assert forall|i: int| 0 <= i < next.pending.len() implies next.pending[i]
                        != 0 by {
                        assert(next.pending[i] == lister.pending[i + 1]);
                    }
                },
                _ => {},
            }
        }
    }
}

/// An event that answers the request takes the lister forward: into a later
/// phase, or to one handle fewer. Any other event leaves it as it is.
pub proof fn law_driver_progress(lister: DriverListerView, event: EventView)
    ensures
        ({
            let next = lister.answer(event);
            if lister.accepts(event) {
                next.rank() > lister.rank() || (next.rank() == lister.rank()
                    && next.pending.len() < lister.pending.len())
            } else {
                next == lister
            }
        }),
        lister.request() is None <==> lister.phase == DriverPhase::Finished,
{
}

} // verus!
