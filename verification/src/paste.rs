//! Leases on the source of a paste or a drop, and the one report that its owner
//! gets.

use crate::file_transfer::FileTransferOperation;
use vstd::prelude::*;

verus! {

/// A native payload may need metadata prepared on a background worker.
pub enum ExternalDragPayloadResolution<Payload, Task> {
    /// Available without background work.
    Ready(Option<Payload>),
    /// The pointer gesture remains cancellable until it is done.
    Pending(Task),
}

/// What the owner of a paste is told: the operation of a fully completed paste,
/// or nothing where it was cancelled or only partly done.
pub type PasteReport = Option<FileTransferOperation>;

/// A lease on the clipboard data object that supplied a paste. Keeping a lease
/// lets platforms report completion to the original owner even when another
/// application replaces the clipboard during the transfer.
///
/// This is the state that all holders of one lease share. The host keeps it where
/// they can reach it, tells it when a holder comes or goes, and passes on the
/// report that it gives back.
#[derive(Clone, Copy, Debug, PartialEq, Eq, Structural)]
pub struct FilePaste {
    /// Whether the owner still waits for its report.
    pub pending: bool,
    /// How many holders share the lease.
    pub holders: u64,
}

impl FilePaste {
    /// A report is owed only while somebody holds the lease.
    pub open spec fn wf(&self) -> bool {
        self.pending ==> self.holders > 0
    }

    /// Constructed by native clipboard adapters: one holder, and a report owed.
    pub fn new() -> (paste: FilePaste)
        ensures
            paste.wf(),
            paste == (FilePaste { pending: true, holders: 1 }),
    {
        FilePaste { pending: true, holders: 1 }
    }

    /// One more holder shares the lease.
    pub fn share(&mut self)
        requires
            0 < old(self).holders < u64::MAX,
            old(self).wf(),
        ensures
            final(self).wf(),
            *final(self) == after_event(*old(self), PasteEvent::Share),
    {
        self.holders = self.holders + 1;
    }

    /// Report a fully completed paste and give the lease up. `None` preserves a
    /// cancelled or partial transfer. Move means the receiver already removed the
    /// source items. Only the first completion is reported.
    pub fn complete(&mut self, operation: Option<FileTransferOperation>) -> (report: Option<
        PasteReport,
    >)
        requires
            old(self).holders > 0,
            old(self).wf(),
        ensures
            final(self).wf(),
            *final(self) == after_event(*old(self), PasteEvent::Complete(operation)),
            report == event_report(*old(self), PasteEvent::Complete(operation)),
    {
        let report = if self.pending {
            Some(operation)
        } else {
            None
        };
        self.pending = false;
        self.holders = self.holders - 1;
        report
    }

    /// Give the lease up. The last holder to do so cancels a paste that nobody
    /// completed.
    pub fn release(&mut self) -> (report: Option<PasteReport>)
        requires
            old(self).holders > 0,
            old(self).wf(),
        ensures
            final(self).wf(),
            *final(self) == after_event(*old(self), PasteEvent::Release),
            report == event_report(*old(self), PasteEvent::Release),
    {
        self.holders = self.holders - 1;
        if self.holders == 0 && self.pending {
            self.pending = false;
            Some(None)
        } else {
            None
        }
    }
}

/// What can happen to a lease.
pub enum PasteEvent {
    /// One more holder shares it.
    Share,
    /// A holder reports a paste as done and lets go.
    Complete(Option<FileTransferOperation>),
    /// A holder lets go.
    Release,
}

/// A lease after an event.
pub open spec fn after_event(paste: FilePaste, event: PasteEvent) -> FilePaste {
    match event {
        PasteEvent::Share => FilePaste {
            pending: paste.pending,
            holders: (paste.holders + 1) as u64,
        },
        PasteEvent::Complete(_) => FilePaste {
            pending: false,
            holders: (paste.holders - 1) as u64,
        },
        PasteEvent::Release => FilePaste {
            pending: paste.pending && paste.holders > 1,
            holders: (paste.holders - 1) as u64,
        },
    }
}

/// The report that an event gives rise to, if any.
pub open spec fn event_report(paste: FilePaste, event: PasteEvent) -> Option<PasteReport> {
    match event {
        PasteEvent::Share => None,
        PasteEvent::Complete(operation) => if paste.pending {
            Some(operation)
        } else {
            None
        },
        PasteEvent::Release => if paste.pending && paste.holders == 1 {
            Some(None)
        } else {
            None
        },
    }
}

/// A new lease after the events of its life so far.
pub open spec fn after_events(events: Seq<PasteEvent>) -> FilePaste
    decreases events.len(),
{
    if events.len() == 0 {
        FilePaste { pending: true, holders: 1 }
    } else {
        after_event(after_events(events.drop_last()), events.last())
    }
}

/// Whether each event comes while somebody holds the lease.
pub open spec fn events_possible(events: Seq<PasteEvent>) -> bool {
    forall|i: int|
        0 <= i < events.len() ==> 0 < (#[trigger] after_events(events.take(i))).holders < u64::MAX
}

/// The reports that the owner of a lease has had.
pub open spec fn reports(events: Seq<PasteEvent>) -> Seq<PasteReport>
    decreases events.len(),
{
    if events.len() == 0 {
        Seq::empty()
    } else {
        let before = reports(events.drop_last());
        match event_report(after_events(events.drop_last()), events.last()) {
            Some(report) => before.push(report),
            None => before,
        }
    }
}

/// The first completion among some events, if there is one.
pub open spec fn first_completion(events: Seq<PasteEvent>) -> Option<PasteReport>
    decreases events.len(),
{
    if events.len() == 0 {
        None
    } else {
        match first_completion(events.drop_last()) {
            Some(report) => Some(report),
            None => match events.last() {
                PasteEvent::Complete(operation) => Some(operation),
                _ => None,
            },
        }
    }
}

/// The owner of a lease gets one report and never a second: the operation of the
/// first completion, or a cancellation once all holders have let go without one.
/// Until then it gets none.
pub proof fn law_one_report_per_paste(events: Seq<PasteEvent>)
    requires
        events_possible(events),
    ensures
        reports(events) == match first_completion(events) {
            Some(report) => seq![report],
            None => if after_events(events).holders == 0 {
                seq![None]
            } else {
                Seq::empty()
            },
        },
        after_events(events).pending <==> reports(events).len() == 0,
        after_events(events).wf(),
    decreases events.len(),
{
    if events.len() > 0 {
        let before = events.drop_last();
        assert forall|i: int| 0 <= i < before.len() implies 0 < (#[trigger] after_events(
            before.take(i),
        )).holders < u64::MAX by {
            assert(before.take(i) =~= events.take(i));
            assert(0 < after_events(events.take(i)).holders < u64::MAX);
        }
        law_one_report_per_paste(before);
        assert(events.take(events.len() - 1) =~= before);
        assert(0 < after_events(events.take(events.len() - 1)).holders < u64::MAX);
    }
}

/// The native drop remains pending until the receiving application finishes
/// extracting the files. Giving up this lease cancels the transfer.
#[derive(Clone, Copy, Debug, PartialEq, Eq, Structural)]
pub struct FileDropTransfer {
    /// The operation agreed with the source application.
    pub operation: FileTransferOperation,
    /// Whether this particular source guarantees removal after successful Move.
    /// Local file URL transfers normally delegate the move to the receiver;
    /// a protocol completion alone does not imply source-side deletion.
    pub source_owns_move: bool,
    /// A completion tied to the original offer or data object.
    pub completion: FilePaste,
}

/// How many of some events let one more holder share the lease.
pub open spec fn shares(events: Seq<PasteEvent>) -> nat
    decreases events.len(),
{
    if events.len() == 0 {
        0
    } else {
        shares(events.drop_last()) + if events.last() is Share {
            1nat
        } else {
            0
        }
    }
}

/// A lease has its first holder and one for each that came to share it, less one for each that
/// let go of it, with a completion or without: it is held until all of them have let go.
pub proof fn law_holders_are_counted(events: Seq<PasteEvent>)
    requires
        events_possible(events),
    ensures
        after_events(events).holders == 1 + shares(events) - (events.len() - shares(events)),
    decreases events.len(),
{
    if events.len() > 0 {
        let before = events.drop_last();
        assert forall|i: int| 0 <= i < before.len() implies 0 < (#[trigger] after_events(
            before.take(i),
        )).holders < u64::MAX by {
            assert(before.take(i) =~= events.take(i));
            assert(0 < after_events(events.take(i)).holders < u64::MAX);
        }
        law_holders_are_counted(before);
        assert(events.take(events.len() - 1) =~= before);
        assert(0 < after_events(events.take(events.len() - 1)).holders < u64::MAX);
    }
}

/// The owner hears of a completion what the holder says of it, and at once, unless it has heard
/// before; it hears nothing when the lease is shared, and a cancellation only when the last
/// holder lets go. Once it has heard it never hears again.
pub proof fn law_owner_hears_once(
    paste: FilePaste,
    operation: Option<FileTransferOperation>,
    event: PasteEvent,
)
    requires
        paste.holders > 0,
    ensures
        event_report(paste, PasteEvent::Share) is None,
        paste.pending ==> event_report(paste, PasteEvent::Complete(operation)) == Some(operation),
        !paste.pending ==> event_report(paste, event) is None && !after_event(paste, event).pending,
        event_report(paste, PasteEvent::Release) is Some <==> paste.pending && paste.holders == 1,
        event_report(paste, PasteEvent::Release) matches Some(report) ==> report is None,
        event_report(paste, event) is Some ==> !after_event(paste, event).pending,
        event_report(paste, event) is None && paste.pending ==> after_event(paste, event).pending,
{
}

} // verus!
