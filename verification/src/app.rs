//! The native transfers that an application is taking part in.

use crate::file_transfer::{
    transfer_view, ExternalPaths, FileTransfer, FileTransferOperation, FileTransferView,
};
use std::collections::BTreeSet;
use vstd::prelude::*;

verus! {

broadcast use vstd::laws_cmp::group_laws_cmp;

/// A completed native transfer. `None` means cancellation or rejection.
pub struct FileTransferCompletion {
    /// The source items supplied when the transfer began.
    pub files: FileTransfer,
    /// The operation actually negotiated with the receiving application.
    pub operation: Option<FileTransferOperation>,
    /// True when the receiver owns source removal (e.g. a Shell optimized move).
    pub source_removed: bool,
}

/// A [`FileTransferCompletion`] with its pathnames as bytes.
pub struct CompletionView {
    pub files: FileTransferView,
    pub operation: Option<FileTransferOperation>,
    pub source_removed: bool,
}

impl View for FileTransferCompletion {
    type V = CompletionView;

    open spec fn view(&self) -> CompletionView {
        CompletionView {
            files: self.files@,
            operation: self.operation,
            source_removed: self.source_removed,
        }
    }
}

impl Clone for FileTransferCompletion {
    fn clone(&self) -> (copy: FileTransferCompletion)
        ensures
            copy@ == self@,
    {
        FileTransferCompletion {
            files: self.files.clone(),
            operation: self.operation,
            source_removed: self.source_removed,
        }
    }
}

/// The results that wait to be taken, and the tokens of the transfers whose
/// receivers are still extracting.
pub struct App {
    completions: Vec<FileTransferCompletion>,
    active: BTreeSet<u64>,
}

/// [`App`] as a model.
pub struct AppView {
    pub completions: Seq<CompletionView>,
    pub active: Set<u64>,
}

/// The views of some completions.
pub open spec fn completion_views(list: Seq<FileTransferCompletion>) -> Seq<CompletionView> {
    list.map_values(|completion: FileTransferCompletion| completion@)
}

impl View for App {
    type V = AppView;

    closed spec fn view(&self) -> AppView {
        AppView { completions: completion_views(self.completions@), active: self.active@ }
    }
}

impl App {
    /// No transfers yet.
    pub fn new() -> (app: App)
        ensures
            app@.completions == Seq::<CompletionView>::empty(),
            app@.active == Set::<u64>::empty(),
    {
        let app = App { completions: Vec::new(), active: BTreeSet::new() };
        assert(completion_views(app.completions@) =~= Seq::empty());
        app
    }

    /// Whether a native receiver is still extracting this clipboard payload.
    pub fn file_transfer_is_active(&self, ownership: u64) -> (active: bool)
        ensures
            active == self@.active.contains(ownership),
    {
        self.active.contains(&ownership)
    }

    /// Includes completed transfers whose source cleanup has not been consumed.
    pub fn has_pending_native_file_transfers(&self) -> (pending: bool)
        ensures
            pending == (self@.active != Set::<u64>::empty() || self@.completions.len() > 0),
    {
        !self.active.is_empty() || !self.completions.is_empty()
    }

    /// Drain native transfer results. Callers retain ownership tokens to match
    /// results to their source snapshots and perform any required source cleanup.
    pub fn take_file_transfer_completions(&mut self) -> (taken: Vec<FileTransferCompletion>)
        ensures
            completion_views(taken@) == old(self)@.completions,
            final(self)@.completions == Seq::<CompletionView>::empty(),
            final(self)@.active == old(self)@.active,
    {
        let mut taken: Vec<FileTransferCompletion> = Vec::new();
        std::mem::swap(&mut taken, &mut self.completions);
        assert(completion_views(self.completions@) =~= Seq::empty());
        taken
    }
}

impl FileTransfer {
    /// Native adapters mark asynchronous extraction before releasing their drag loop.
    pub fn set_active(&self, app: &mut App, active: bool)
        ensures
            final(app)@.completions == old(app)@.completions,
            final(app)@.active == if active {
                old(app)@.active.insert(self@.ownership)
            } else {
                old(app)@.active.remove(self@.ownership)
            },
    {
        if active {
            app.active.insert(self.ownership);
        } else {
            app.active.remove(&self.ownership);
            assert(app.active@ =~= old(app).active@.remove(self.ownership));
        }
    }
}

/// The transfers after a completion was reported.
pub open spec fn reported(app: AppView, completion: CompletionView) -> AppView {
    AppView {
        completions: app.completions.push(completion),
        active: app.active.remove(completion.files.ownership),
    }
}

impl FileTransferCompletion {
    /// Native adapters report completion after their protocol's final event.
    pub fn report(self, app: &mut App)
        ensures
            final(app)@ == reported(old(app)@, self@),
    {
        self.files.set_active(app, false);
        let ghost before = app.completions@;
        app.completions.push(self);
        assert(completion_views(app.completions@) =~= completion_views(before).push(self@));
    }
}

/// One piece of what the clipboard holds.
pub enum ClipboardEntry {
    /// Text, which may happen to spell a path.
    Text(String),
    /// Pathnames from outside the application.
    ExternalPaths(ExternalPaths),
    /// Files offered for transfer.
    Files(FileTransfer),
    /// Contents of another type, such as an image.
    Other,
}

/// What the clipboard holds.
pub struct ClipboardItem {
    pub entries: Vec<ClipboardEntry>,
}

/// The files that an entry offers, if it is typed as files.
pub open spec fn entry_files(entry: ClipboardEntry) -> Option<FileTransferView> {
    match entry {
        ClipboardEntry::Files(files) => Some(files@),
        ClipboardEntry::ExternalPaths(paths) => Some(
            FileTransferView {
                paths: paths@,
                operation: FileTransferOperation::Copy,
                ownership: 0,
            },
        ),
        ClipboardEntry::Text(_) | ClipboardEntry::Other => None,
    }
}

/// The files that the first entry typed as files offers.
pub open spec fn first_files(entries: Seq<ClipboardEntry>) -> Option<FileTransferView>
    decreases entries.len(),
{
    if entries.len() == 0 {
        None
    } else {
        match entry_files(entries[0]) {
            Some(files) => Some(files),
            None => first_files(entries.skip(1)),
        }
    }
}

impl ClipboardItem {
    /// An item of text alone.
    pub fn new_string(text: String) -> (item: ClipboardItem)
        ensures
            item.entries@ == seq![ClipboardEntry::Text(text)],
    {
        let mut entries: Vec<ClipboardEntry> = Vec::new();
        entries.push(ClipboardEntry::Text(text));
        ClipboardItem { entries }
    }

    /// Extract typed files, keeping ordinary text distinct.
    pub fn file_transfer(&self) -> (files: Option<FileTransfer>)
        ensures
            transfer_view(files) == first_files(self.entries@),
    {
        let mut i: usize = 0;
        assert(self.entries@.skip(0) =~= self.entries@);
        while i < self.entries.len()
            invariant
                i <= self.entries.len(),
                first_files(self.entries@.skip(i as int)) == first_files(self.entries@),
            decreases self.entries.len() - i,
        {
            assert(self.entries@.skip(i as int).skip(1) =~= self.entries@.skip(i + 1));
            match &self.entries[i] {
                ClipboardEntry::Files(files) => {
                    return Some(files.clone());
                },
                ClipboardEntry::ExternalPaths(paths) => {
                    return Some(
                        FileTransfer {
                            paths: paths.clone(),
                            operation: FileTransferOperation::Copy,
                            ownership: 0,
                        },
                    );
                },
                ClipboardEntry::Text(_) | ClipboardEntry::Other => {},
            }
            i = i + 1;
        }
        None
    }
}

/// Whether an entry is text or of another type than files.
pub open spec fn entry_is_not_files(entry: ClipboardEntry) -> bool {
    entry is Text || entry is Other
}

/// Text is never taken for files, whatever it spells, and neither is anything else that is
/// not typed as files.
pub proof fn law_text_is_not_files(entries: Seq<ClipboardEntry>)
    requires
        forall|i: int| 0 <= i < entries.len() ==> entry_is_not_files(#[trigger] entries[i]),
    ensures
        first_files(entries) is None,
    decreases entries.len(),
{
    if entries.len() > 0 {
        law_text_is_not_files(entries.skip(1));
    }
}

/// The first entry that is typed as files decides which files an item offers.
pub proof fn law_first_files_decide(entries: Seq<ClipboardEntry>, at: int)
    requires
        0 <= at < entries.len(),
        !entry_is_not_files(entries[at]),
        forall|i: int| 0 <= i < at ==> entry_is_not_files(#[trigger] entries[i]),
    ensures
        first_files(entries) is Some,
        first_files(entries) == entry_files(entries[at]),
    decreases entries.len(),
{
    if at > 0 {
        assert(entry_is_not_files(entries[0]));
        law_first_files_decide(entries.skip(1), at - 1);
    }
}

/// A transfer is pending from the moment it is marked active until its completion
/// is taken: reporting it moves it from the one list to the other.
pub proof fn law_reported_transfers_stay_pending(app: AppView, completion: CompletionView)
    ensures
        !reported(app, completion).active.contains(completion.files.ownership),
        reported(app, completion).completions.last() == completion,
        reported(app, completion).completions.drop_last() == app.completions,
        forall|other: u64|
            other != completion.files.ownership ==> (reported(app, completion).active.contains(
                other,
            ) <==> #[trigger] app.active.contains(other)),
{
    assert(reported(app, completion).completions.drop_last() =~= app.completions);
}

/// What an entry offers as files: files that were offered for transfer as they are, and
/// pathnames from outside the application for copying, with no token.
pub proof fn law_entries_offer_their_own_files(files: FileTransfer, paths: ExternalPaths)
    ensures
        entry_files(ClipboardEntry::Files(files)) == Some(files@),
        entry_files(ClipboardEntry::ExternalPaths(paths)) matches Some(offered) && offered.paths
            == paths@ && offered.operation == FileTransferOperation::Copy && offered.ownership == 0,
{
}

/// Entries that are not files make no difference to the files that an item offers, wherever
/// they stand.
pub proof fn law_other_entries_make_no_difference(
    before: Seq<ClipboardEntry>,
    entry: ClipboardEntry,
    behind: Seq<ClipboardEntry>,
)
    requires
        entry_is_not_files(entry),
    ensures
        first_files(before + seq![entry] + behind) == first_files(before + behind),
    decreases before.len(),
{
    let with = before + seq![entry] + behind;
    let without = before + behind;
    if before.len() == 0 {
        assert(with.skip(1) =~= behind);
        assert(without =~= behind);
    } else {
        let rest = before.skip(1);
        law_other_entries_make_no_difference(rest, entry, behind);
        assert(with.skip(1) =~= rest + seq![entry] + behind);
        assert(without.skip(1) =~= rest + behind);
    }
}

} // verus!
