//! File transfers with the Windows shell: what a data object remembers of a
//! transfer, and what it reports when the transfer ends.

use crate::app::{reported, App, AppView, ClipboardItem, CompletionView, FileTransferCompletion};
use crate::file_transfer::{
    payload_text, transfer_view, FileTransfer, FileTransferOperation, FileTransferView,
    FILE_TRANSFER_MIME,
};
use crate::paste::{FileDropTransfer, FilePaste};
use crate::paths::{same_paths, PathSystem};
use vstd::prelude::*;
use vstd::utf8::encode_utf8;

verus! {

/// The drop effect of a copy.
pub const EFFECT_COPY: u32 = 1;

/// The drop effect of a move.
pub const EFFECT_MOVE: u32 = 2;

/// The result of a call that succeeded.
pub const S_OK: i32 = 0;

/// The result of an operation that was aborted.
pub const E_ABORT: i32 = -2147467260;

/// The identifiers of the clipboard formats that transfers use.
#[derive(Clone, Copy, Debug, PartialEq, Eq, Structural)]
pub struct TransferFormats {
    /// Preferred DropEffect.
    pub preferred: u16,
    /// Performed DropEffect.
    pub performed: u16,
    /// Logical Performed DropEffect.
    pub logical: u16,
    /// Paste Succeeded.
    pub pasted: u16,
    /// The application's own format.
    pub private: u16,
    /// TargetCLSID.
    pub target_clsid: u16,
}

/// What a data object remembers of a transfer.
#[derive(Clone, Copy, Debug, PartialEq, Eq, Structural)]
pub struct TransferResult {
    pub performed: Option<u32>,
    pub logical: Option<u32>,
    pub reported: bool,
    pub async_mode: bool,
    pub in_operation: bool,
    pub pasted: Option<u32>,
    pub drag_effect: Option<u32>,
    pub recycle_bin: bool,
}

/// A data object that offers files and keeps the results of their transfer.
pub struct FileDataObject {
    pub files: FileTransfer,
    pub result: TransferResult,
    /// Whether the files are offered on the clipboard rather than dragged.
    pub clipboard: bool,
}

/// Forwards a result unchanged: anything but plain success goes through as it is,
/// other success codes among them.
pub fn forward(code: i32) -> (result: Result<(), i32>)
    ensures
        result == if code == S_OK {
            Ok::<(), i32>(())
        } else {
            Err::<(), i32>(code)
        },
{
    if code == S_OK {
        Ok(())
    } else {
        Err(code)
    }
}

/// The operation that a drop effect stands for.
pub open spec fn effect_operation(effect: u32) -> Option<FileTransferOperation> {
    if effect == EFFECT_MOVE {
        Some(FileTransferOperation::Move)
    } else if effect == EFFECT_COPY {
        Some(FileTransferOperation::Copy)
    } else {
        None
    }
}

/// The operation that a drop effect stands for.
pub fn transfer_operation(effect: u32) -> (operation: Option<FileTransferOperation>)
    ensures
        operation == effect_operation(effect),
{
    if effect == EFFECT_MOVE {
        Some(FileTransferOperation::Move)
    } else if effect == EFFECT_COPY {
        Some(FileTransferOperation::Copy)
    } else {
        None
    }
}

/// The drop effect of an operation.
pub open spec fn operation_effect(operation: FileTransferOperation) -> u32 {
    match operation {
        FileTransferOperation::Move => EFFECT_MOVE,
        FileTransferOperation::Copy => EFFECT_COPY,
    }
}

/// The drop effect of an operation.
pub fn effect_of(operation: FileTransferOperation) -> (effect: u32)
    ensures
        effect == operation_effect(operation),
{
    match operation {
        FileTransferOperation::Move => EFFECT_MOVE,
        FileTransferOperation::Copy => EFFECT_COPY,
    }
}

/// The operation that a receiver performed, where anything that reached the recycle
/// bin counts as moved.
pub open spec fn performed_operation(effect: u32, recycle_bin: bool) -> Option<
    FileTransferOperation,
> {
    if effect != 0 && recycle_bin {
        Some(FileTransferOperation::Move)
    } else {
        effect_operation(effect)
    }
}

fn operation_performed(effect: u32, recycle_bin: bool) -> (operation: Option<
    FileTransferOperation,
>)
    ensures
        operation == performed_operation(effect, recycle_bin),
{
    if effect != 0 && recycle_bin {
        Some(FileTransferOperation::Move)
    } else {
        transfer_operation(effect)
    }
}

// ---------------------------------------------------------------------------
// Effects as bytes

/// The number that four bytes hold, the least significant first.
pub open spec fn le_value(bytes: Seq<u8>) -> int {
    bytes[0] + bytes[1] * 0x100 + bytes[2] * 0x1_0000 + bytes[3] * 0x100_0000
}

/// The drop effect at the beginning of a medium, if it is long enough for one.
pub fn effect_in(bytes: &[u8]) -> (effect: Option<u32>)
    ensures
        effect is Some <==> bytes.len() >= 4,
        effect is Some ==> effect->0 == le_value(bytes@),
{
    if bytes.len() < 4 {
        return None;
    }
    Some(
        bytes[0] as u32 + bytes[1] as u32 * 0x100 + bytes[2] as u32 * 0x1_0000 + bytes[3] as u32
            * 0x100_0000,
    )
}

/// A drop effect as four bytes.
pub fn effect_bytes(effect: u32) -> (bytes: Vec<u8>)
    ensures
        bytes.len() == 4,
        le_value(bytes@) == effect,
{
    let mut bytes: Vec<u8> = Vec::new();
    bytes.push((effect % 0x100) as u8);
    bytes.push((effect / 0x100 % 0x100) as u8);
    bytes.push((effect / 0x1_0000 % 0x100) as u8);
    bytes.push((effect / 0x100_0000) as u8);
    bytes
}

/// Whether a medium set in some format names the recycle bin as the target.
pub open spec fn is_recycle_bin(
    formats: TransferFormats,
    format: u16,
    medium: Seq<u8>,
    recycle_bin_clsid: Seq<u8>,
) -> bool {
    format == formats.target_clsid && medium.len() >= 16 && medium.take(16) == recycle_bin_clsid
}

/// Whether a medium set in some format names the recycle bin as the target.
pub fn names_recycle_bin(
    formats: &TransferFormats,
    format: u16,
    medium: &[u8],
    recycle_bin_clsid: &[u8; 16],
) -> (named: bool)
    ensures
        named == is_recycle_bin(*formats, format, medium@, recycle_bin_clsid@),
{
    if format != formats.target_clsid || medium.len() < 16 {
        return false;
    }
    let mut i: usize = 0;
    while i < 16
        invariant
            i <= 16,
            medium.len() >= 16,
            forall|k: int| 0 <= k < i ==> medium@[k] == recycle_bin_clsid@[k],
        decreases 16 - i,
    {
        if medium[i] != recycle_bin_clsid[i] {
            assert(medium@.take(16)[i as int] != recycle_bin_clsid@[i as int]);
            return false;
        }
        i = i + 1;
    }
    assert(medium@.take(16) =~= recycle_bin_clsid@);
    true
}

// ---------------------------------------------------------------------------
// The life of a data object

/// What can happen to a data object once it is offered.
pub enum ShellEvent {
    /// A receiver set a result, whose medium held this effect and may have named the
    /// recycle bin.
    SetData { format: u16, effect: Option<u32>, recycle_bin: bool },
    /// A receiver began to extract the files on its own time.
    StartOperation,
    /// It ended with this result and these effects.
    EndOperation { code: i32, effects: u32 },
    /// A drag of the files ended with this effect.
    DragEnded { effect: u32 },
    /// Nobody holds the object any longer.
    Drop,
}

/// What is reported of a transfer: the operation, and whether the receiver owns the
/// removal of the source.
pub struct ShellReport {
    pub operation: Option<FileTransferOperation>,
    pub source_removed: bool,
}

/// What a data object remembers after a result was set.
pub open spec fn after_set_data(
    state: TransferResult,
    formats: TransferFormats,
    clipboard: bool,
    format: u16,
    effect: Option<u32>,
    recycle_bin: bool,
) -> TransferResult {
    match effect {
        None => state,
        Some(effect) => TransferResult {
            recycle_bin: state.recycle_bin || recycle_bin,
            performed: if format == formats.performed {
                Some(effect)
            } else {
                state.performed
            },
            logical: if format == formats.logical {
                Some(effect)
            } else {
                state.logical
            },
            pasted: if format == formats.pasted {
                Some(effect)
            } else {
                state.pasted
            },
            reported: state.reported || clipboard && format == formats.pasted
                && !state.in_operation,
            ..state
        },
    }
}

/// What a data object reports when a result is set: the end of a paste, unless the
/// receiver extracts on its own time or the end was reported already. Both
/// PasteSucceeded=MOVE and Performed=MOVE are required before a clipboard source
/// must delete its originals.
pub open spec fn set_data_report(
    state: TransferResult,
    formats: TransferFormats,
    clipboard: bool,
    format: u16,
    effect: Option<u32>,
    recycle_bin: bool,
) -> Option<ShellReport> {
    let after = after_set_data(state, formats, clipboard, format, effect, recycle_bin);
    if effect is Some && clipboard && format == formats.pasted && !state.reported
        && !state.in_operation {
        Some(
            ShellReport {
                operation: performed_operation(effect->0, after.recycle_bin),
                source_removed: !after.recycle_bin && after.performed != Some(EFFECT_MOVE),
            },
        )
    } else {
        None
    }
}

/// The effect that decides how an operation ended: for the clipboard that of the
/// paste, for a drag the first known of the logical effect, the effect of the drag
/// and the effects that the operation ended with.
pub open spec fn decisive_effect(
    state: TransferResult,
    clipboard: bool,
    effects: u32,
) -> Option<u32> {
    if clipboard {
        state.pasted
    } else if state.logical is Some {
        state.logical
    } else if state.drag_effect is Some {
        state.drag_effect
    } else {
        Some(effects)
    }
}

/// What a data object reports when an asynchronous operation ends.
pub open spec fn end_operation_report(
    state: TransferResult,
    clipboard: bool,
    code: i32,
    effects: u32,
) -> Option<ShellReport> {
    if state.reported {
        None
    } else {
        let effect = decisive_effect(state, clipboard, effects);
        Some(
            ShellReport {
                operation: if code >= 0 && effect is Some {
                    performed_operation(effect->0, state.recycle_bin)
                } else {
                    None
                },
                source_removed: !state.recycle_bin && effects != EFFECT_MOVE,
            },
        )
    }
}

/// What a data object remembers after an event.
pub open spec fn after_shell_event(
    state: TransferResult,
    formats: TransferFormats,
    clipboard: bool,
    event: ShellEvent,
) -> TransferResult {
    match event {
        ShellEvent::SetData { format, effect, recycle_bin } => after_set_data(
            state,
            formats,
            clipboard,
            format,
            effect,
            recycle_bin,
        ),
        ShellEvent::StartOperation => TransferResult { in_operation: true, ..state },
        ShellEvent::EndOperation { .. } => TransferResult {
            in_operation: false,
            reported: true,
            ..state
        },
        ShellEvent::DragEnded { effect } => TransferResult { drag_effect: Some(effect), ..state },
        ShellEvent::Drop => TransferResult { reported: true, ..state },
    }
}

/// What a data object reports by itself at an event. The end of a drag is for whoever
/// dragged to report.
pub open spec fn shell_event_report(
    state: TransferResult,
    formats: TransferFormats,
    clipboard: bool,
    event: ShellEvent,
) -> Option<ShellReport> {
    match event {
        ShellEvent::SetData { format, effect, recycle_bin } => set_data_report(
            state,
            formats,
            clipboard,
            format,
            effect,
            recycle_bin,
        ),
        ShellEvent::StartOperation => None,
        ShellEvent::EndOperation { code, effects } => end_operation_report(
            state,
            clipboard,
            code,
            effects,
        ),
        ShellEvent::DragEnded { .. } => None,
        ShellEvent::Drop => if state.reported {
            None
        } else {
            Some(ShellReport { operation: None, source_removed: false })
        },
    }
}

/// The completion of a transfer of some files that a report makes.
pub open spec fn report_completion(files: FileTransferView, report: ShellReport) -> CompletionView {
    CompletionView {
        files,
        operation: report.operation,
        source_removed: report.source_removed,
    }
}

/// The application's transfers after what was reported, if anything was.
pub open spec fn app_after_report(
    app: AppView,
    files: FileTransferView,
    report: Option<ShellReport>,
) -> AppView {
    match report {
        Some(report) => reported(app, report_completion(files, report)),
        None => app,
    }
}

/// What a new data object remembers.
pub open spec fn new_result() -> TransferResult {
    TransferResult {
        performed: None,
        logical: None,
        reported: false,
        async_mode: true,
        in_operation: false,
        pasted: None,
        drag_effect: None,
        recycle_bin: false,
    }
}

impl FileDataObject {
    /// A data object that offers files, with asynchronous extraction allowed.
    pub fn new(files: FileTransfer, clipboard: bool) -> (object: FileDataObject)
        ensures
            object.files == files,
            object.clipboard == clipboard,
            object.result == new_result(),
    {
        FileDataObject {
            files,
            clipboard,
            result: TransferResult {
                performed: None,
                logical: None,
                reported: false,
                async_mode: true,
                in_operation: false,
                pasted: None,
                drag_effect: None,
                recycle_bin: false,
            },
        }
    }

    fn report(
        &self,
        app: &mut App,
        operation: Option<FileTransferOperation>,
        source_removed: bool,
    )
        ensures
            final(app)@ == reported(
                old(app)@,
                report_completion(self.files@, ShellReport { operation, source_removed }),
            ),
    {
        let completion = FileTransferCompletion {
            files: self.files.clone(),
            operation,
            source_removed,
        };
        completion.report(app);
    }

    /// A receiver set a result. `effect` is the drop effect that the medium held and
    /// `recycle_bin` whether it named the recycle bin as the target.
    pub fn set_data(
        &mut self,
        app: &mut App,
        formats: &TransferFormats,
        format: u16,
        effect: Option<u32>,
        recycle_bin: bool,
    )
        ensures
            final(self).files == old(self).files,
            final(self).clipboard == old(self).clipboard,
            final(self).result == after_shell_event(
                old(self).result,
                *formats,
                old(self).clipboard,
                ShellEvent::SetData { format, effect, recycle_bin },
            ),
            final(app)@ == app_after_report(
                old(app)@,
                old(self).files@,
                shell_event_report(
                    old(self).result,
                    *formats,
                    old(self).clipboard,
                    ShellEvent::SetData { format, effect, recycle_bin },
                ),
            ),
    {
        if let Some(value) = effect {
            self.result.recycle_bin = self.result.recycle_bin || recycle_bin;
            if format == formats.performed {
                self.result.performed = Some(value);
            }
            if format == formats.logical {
                self.result.logical = Some(value);
            }
            if format == formats.pasted {
                self.result.pasted = Some(value);
            }
            if self.clipboard && format == formats.pasted && !self.result.reported
                && !self.result.in_operation {
                self.result.reported = true;
                let operation = operation_performed(value, self.result.recycle_bin);
                let moved = match self.result.performed {
                    Some(performed) => performed == EFFECT_MOVE,
                    None => false,
                };
                self.report(app, operation, !self.result.recycle_bin && !moved);
            }
        }
    }

    /// Whether receivers may extract on their own time.
    pub fn set_async_mode(&mut self, enabled: bool)
        ensures
            final(self).files == old(self).files,
            final(self).clipboard == old(self).clipboard,
            final(self).result == (TransferResult { async_mode: enabled, ..old(self).result }),
    {
        self.result.async_mode = enabled;
    }

    /// Whether receivers may extract on their own time.
    pub fn get_async_mode(&self) -> (enabled: bool)
        ensures
            enabled == self.result.async_mode,
    {
        self.result.async_mode
    }

    /// Whether a receiver is extracting on its own time.
    pub fn in_operation(&self) -> (extracting: bool)
        ensures
            extracting == self.result.in_operation,
    {
        self.result.in_operation
    }

    /// A receiver begins to extract the files on its own time.
    pub fn start_operation(&mut self, app: &mut App)
        ensures
            final(self).files == old(self).files,
            final(self).clipboard == old(self).clipboard,
            final(self).result == (TransferResult { in_operation: true, ..old(self).result }),
            final(app)@.completions == old(app)@.completions,
            final(app)@.active == old(app)@.active.insert(old(self).files@.ownership),
    {
        self.result.in_operation = true;
        self.files.set_active(app, true);
    }

    /// The extraction that a receiver did on its own time ends.
    pub fn end_operation(&mut self, app: &mut App, code: i32, effects: u32)
        ensures
            final(self).files == old(self).files,
            final(self).clipboard == old(self).clipboard,
            final(self).result == (TransferResult {
                in_operation: false,
                reported: true,
                ..old(self).result
            }),
            final(app)@ == app_after_report(
                AppView {
                    completions: old(app)@.completions,
                    active: old(app)@.active.remove(old(self).files@.ownership),
                },
                old(self).files@,
                end_operation_report(old(self).result, old(self).clipboard, code, effects),
            ),
    {
        self.result.in_operation = false;
        self.files.set_active(app, false);
        if !self.result.reported {
            self.result.reported = true;
            let effect = if self.clipboard {
                self.result.pasted
            } else {
                match self.result.logical {
                    Some(logical) => Some(logical),
                    None => match self.result.drag_effect {
                        Some(drag_effect) => Some(drag_effect),
                        None => Some(effects),
                    },
                }
            };
            let operation = if code >= 0 {
                match effect {
                    Some(effect) => operation_performed(effect, self.result.recycle_bin),
                    None => None,
                }
            } else {
                None
            };
            self.report(app, operation, !self.result.recycle_bin && effects != EFFECT_MOVE);
        }
    }

    /// Nobody holds the object any longer: a transfer that was not reported was
    /// cancelled.
    pub fn release(self, app: &mut App)
        ensures
            final(app)@ == app_after_report(
                old(app)@,
                self.files@,
                if self.result.reported {
                    None
                } else {
                    Some(ShellReport { operation: None, source_removed: false })
                },
            ),
    {
        if !self.result.reported {
            self.report(app, None, false);
        }
    }
}

// ---------------------------------------------------------------------------
// Offering files

/// The pathname of a file to offer, ended by a zero; none where it holds a zero.
pub fn wide_path(name: Vec<u16>) -> (path: Option<Vec<u16>>)
    ensures
        path is Some <==> !name@.contains(0),
        path is Some ==> path->0@ == name@.push(0),
{
    let mut i: usize = 0;
    while i < name.len()
        invariant
            i <= name.len(),
            forall|k: int| 0 <= k < i ==> name@[k] != 0,
        decreases name.len() - i,
    {
        if name[i] == 0 {
            assert(name@.contains(0)) by {
                assert(name@[i as int] == 0);
            }
            return None;
        }
        i = i + 1;
    }
    let mut path = name;
    path.push(0);
    Some(path)
}

/// What a data object is given before it is offered: the preferred effect, and the
/// files in the application's own format.
pub fn offered_formats(
    files: &FileTransfer,
    formats: &TransferFormats,
    system: PathSystem,
) -> (offers: Vec<(u16, Vec<u8>)>)
    ensures
        offers.len() == 2,
        offers@[0].0 == formats.preferred,
        offers@[0].1.len() == 4,
        le_value(offers@[0].1@) == operation_effect(files@.operation),
        offers@[1].0 == formats.private,
        payload_text(system@, files@, FILE_TRANSFER_MIME@) is Some,
        offers@[1].1@ == encode_utf8(payload_text(system@, files@, FILE_TRANSFER_MIME@)->0),
{
    let mut offers: Vec<(u16, Vec<u8>)> = Vec::new();
    offers.push((formats.preferred, effect_bytes(effect_of(files.operation))));
    if let Some(bytes) = files.encode(FILE_TRANSFER_MIME, system) {
        offers.push((formats.private, bytes));
    }
    offers
}

/// The effects that a drag may end in: a move only where one was asked for.
pub open spec fn drag_effects(operation: FileTransferOperation) -> u32 {
    match operation {
        FileTransferOperation::Move => EFFECT_COPY | EFFECT_MOVE,
        FileTransferOperation::Copy => EFFECT_COPY,
    }
}

/// The effects that a drag may end in.
pub fn allowed_effects(operation: FileTransferOperation) -> (allowed: u32)
    ensures
        allowed == drag_effects(operation),
{
    match operation {
        FileTransferOperation::Move => EFFECT_COPY | EFFECT_MOVE,
        FileTransferOperation::Copy => EFFECT_COPY,
    }
}

/// The completion of a drag that could not be carried out.
pub fn failed_drag(files: &FileTransfer) -> (completion: FileTransferCompletion)
    ensures
        completion@ == (CompletionView {
            files: files@,
            operation: None,
            source_removed: false,
        }),
{
    FileTransferCompletion { files: files.clone(), operation: None, source_removed: false }
}

/// The report of a drag that ended with an effect, from what the data object
/// remembers; none where the object has reported or is yet to report by itself.
pub open spec fn drag_report(state: TransferResult, effect: u32) -> Option<ShellReport> {
    if state.in_operation || state.reported {
        None
    } else {
        let logical = match state.logical {
            Some(logical) => logical,
            None => effect,
        };
        Some(
            ShellReport {
                operation: performed_operation(logical, state.recycle_bin),
                source_removed: !state.recycle_bin && (effect != EFFECT_MOVE || (
                state.performed is Some && state.performed->0 != EFFECT_MOVE)),
            },
        )
    }
}

impl FileDataObject {
    /// A drag of the files ended with an effect. Gives the completion of the drag,
    /// unless the object has reported it or is yet to report it by itself.
    pub fn drag_ended(&mut self, effect: u32) -> (completion: Option<FileTransferCompletion>)
        ensures
            final(self).files == old(self).files,
            final(self).clipboard == old(self).clipboard,
            final(self).result == (TransferResult {
                drag_effect: Some(effect),
                ..old(self).result
            }),
            completion is Some <==> drag_report(old(self).result, effect) is Some,
            completion is Some ==> completion->0@ == report_completion(
                old(self).files@,
                drag_report(old(self).result, effect)->0,
            ),
    {
        self.result.drag_effect = Some(effect);
        if self.result.in_operation || self.result.reported {
            return None;
        }
        let logical = match self.result.logical {
            Some(logical) => logical,
            None => effect,
        };
        let kept = match self.result.performed {
            Some(performed) => performed != EFFECT_MOVE,
            None => false,
        };
        Some(
            FileTransferCompletion {
                files: self.files.clone(),
                operation: operation_performed(logical, self.result.recycle_bin),
                source_removed: !self.result.recycle_bin && (effect != EFFECT_MOVE || kept),
            },
        )
    }
}

// ---------------------------------------------------------------------------
// Receiving files

/// Whether two transfers are the same: equal pathnames, one by one, with the same
/// operation and token.
pub open spec fn same_transfer(windows: bool, a: FileTransferView, b: FileTransferView) -> bool {
    &&& same_paths(windows, a.paths, b.paths)
    &&& a.operation == b.operation
    &&& a.ownership == b.ownership
}

/// Whether two transfers are the same.
pub fn transfers_equal(a: &FileTransfer, b: &FileTransfer, system: PathSystem) -> (same: bool)
    ensures
        same == same_transfer(system@, a@, b@),
{
    a.paths.0.same(&b.paths.0, system) && a.operation == b.operation && a.ownership == b.ownership
}

/// Whether the clipboard still holds the files of a paste: it offers the same
/// transfer, and it did not change while it was read.
pub fn clipboard_still_offers(
    files: &FileTransfer,
    item: &ClipboardItem,
    sequence_before: u32,
    sequence_after: u32,
    system: PathSystem,
) -> (offers: bool)
    ensures
        offers == (sequence_before == sequence_after && crate::app::first_files(
            item.entries@,
        ) is Some && same_transfer(
            system@,
            crate::app::first_files(item.entries@)->0,
            files@,
        )),
{
    match item.file_transfer() {
        Some(found) => transfers_equal(&found, files, system) && sequence_before == sequence_after,
        None => false,
    }
}

/// The effects that a receiver reports to the source.
#[derive(Clone, Copy, Debug, PartialEq, Eq, Structural)]
pub struct ReceiverEffects {
    pub performed: u32,
    pub logical: u32,
}

/// The effects of a transfer that ended in an operation or was cancelled. The
/// receiver moves the originals itself: it reports an optimized move, which keeps
/// the source from deleting them again.
pub open spec fn receiver_effects(completed: Option<FileTransferOperation>) -> ReceiverEffects {
    match completed {
        Some(FileTransferOperation::Copy) => ReceiverEffects {
            performed: EFFECT_COPY,
            logical: EFFECT_COPY,
        },
        Some(FileTransferOperation::Move) => ReceiverEffects {
            performed: 0,
            logical: EFFECT_MOVE,
        },
        None => ReceiverEffects { performed: 0, logical: 0 },
    }
}

/// What to set on the source of a paste when it has ended, in this order: the
/// performed effect, the logical effect, and the logical effect again as the success
/// of the paste. A cancelled paste sets nothing.
pub fn paste_effects(
    completed: Option<FileTransferOperation>,
    formats: &TransferFormats,
) -> (settings: Vec<(u16, u32)>)
    ensures
        settings@ == match completed {
            Some(operation) => seq![
                (formats.performed, receiver_effects(completed).performed),
                (formats.logical, receiver_effects(completed).logical),
                (formats.pasted, receiver_effects(completed).logical),
            ],
            None => Seq::empty(),
        },
{
    let mut settings: Vec<(u16, u32)> = Vec::new();
    if let Some(operation) = completed {
        let logical = effect_of(operation);
        let performed = match operation {
            FileTransferOperation::Move => 0,
            FileTransferOperation::Copy => EFFECT_COPY,
        };
        settings.push((formats.performed, performed));
        settings.push((formats.logical, logical));
        settings.push((formats.pasted, logical));
    }
    settings
}

/// The lease on a drop that was accepted with an operation. The source of a shell
/// drop does not own the move.
pub fn accept_drop(operation: FileTransferOperation) -> (transfer: FileDropTransfer)
    ensures
        transfer == (FileDropTransfer {
            operation,
            source_owns_move: false,
            completion: FilePaste { pending: true, holders: 1 },
        }),
{
    FileDropTransfer { operation, source_owns_move: false, completion: FilePaste::new() }
}

/// How a drop ends towards its source.
pub struct DropEnd {
    /// The effects to set, each with its format, in order.
    pub settings: Vec<(u16, u32)>,
    /// The result to end an asynchronous operation with.
    pub code: i32,
    /// The effects to end an asynchronous operation with.
    pub effects: u32,
}

/// What to tell the source of a drop when it was completed or cancelled.
pub fn drop_effects(
    completed: Option<FileTransferOperation>,
    formats: &TransferFormats,
) -> (end: DropEnd)
    ensures
        end.settings@ == seq![
            (formats.performed, receiver_effects(completed).performed),
            (formats.logical, receiver_effects(completed).logical),
        ],
        end.code == if completed is Some {
            S_OK
        } else {
            E_ABORT
        },
        end.effects == receiver_effects(completed).performed,
{
    let logical = match completed {
        Some(operation) => effect_of(operation),
        None => 0,
    };
    let performed = match completed {
        Some(FileTransferOperation::Copy) => EFFECT_COPY,
        _ => 0,
    };
    let mut settings: Vec<(u16, u32)> = Vec::new();
    settings.push((formats.performed, performed));
    settings.push((formats.logical, logical));
    DropEnd {
        settings,
        code: if completed.is_some() {
            S_OK
        } else {
            E_ABORT
        },
        effects: performed,
    }
}

// ---------------------------------------------------------------------------
// Laws

/// What a data object remembers after the events of its life so far.
pub open spec fn after_shell_events(
    formats: TransferFormats,
    clipboard: bool,
    events: Seq<ShellEvent>,
) -> TransferResult
    decreases events.len(),
{
    if events.len() == 0 {
        new_result()
    } else {
        after_shell_event(
            after_shell_events(formats, clipboard, events.drop_last()),
            formats,
            clipboard,
            events.last(),
        )
    }
}

/// What a data object has reported.
pub open spec fn shell_reports(
    formats: TransferFormats,
    clipboard: bool,
    events: Seq<ShellEvent>,
) -> Seq<ShellReport>
    decreases events.len(),
{
    if events.len() == 0 {
        Seq::empty()
    } else {
        let before = shell_reports(formats, clipboard, events.drop_last());
        match shell_event_report(
            after_shell_events(formats, clipboard, events.drop_last()),
            formats,
            clipboard,
            events.last(),
        ) {
            Some(report) => before.push(report),
            None => before,
        }
    }
}

/// A data object reports its transfer by itself once: never twice, and at the latest when
/// nobody holds it any longer. What a drag hands to whoever dragged is not counted.
pub proof fn law_one_report_per_data_object(
    formats: TransferFormats,
    clipboard: bool,
    events: Seq<ShellEvent>,
)
    ensures
        shell_reports(formats, clipboard, events).len() == if after_shell_events(
            formats,
            clipboard,
            events,
        ).reported {
            1nat
        } else {
            0
        },
        shell_reports(formats, clipboard, events.push(ShellEvent::Drop)).len() == 1,
    decreases events.len(),
{
    if events.len() > 0 {
        law_one_report_per_data_object(formats, clipboard, events.drop_last());
    }
    let ended = events.push(ShellEvent::Drop);
    assert(ended.drop_last() =~= events);
    assert(ended.last() == ShellEvent::Drop);
    reveal_with_fuel(shell_reports, 2);
}

/// How a drag ends is handed to whoever dragged only where the data object has not
/// reported it and is not yet to report it from an operation under way. If nothing else
/// happens to the object before nobody holds it, it adds a cancellation of its own.
pub proof fn law_drags_are_handed_on_or_reported(
    formats: TransferFormats,
    clipboard: bool,
    events: Seq<ShellEvent>,
    effect: u32,
)
    ensures
        ({
            let state = after_shell_events(formats, clipboard, events);
            let ended = events.push(ShellEvent::DragEnded { effect });
            let released = ended.push(ShellEvent::Drop);
            let before = shell_reports(formats, clipboard, events);
            &&& drag_report(state, effect) is Some <==> before.len() == 0 && !state.in_operation
            &&& shell_reports(formats, clipboard, ended) == before
            &&& shell_reports(formats, clipboard, released) == if before.len() == 0 {
                seq![ShellReport { operation: None, source_removed: false }]
            } else {
                before
            }
        }),
{
    let ended = events.push(ShellEvent::DragEnded { effect });
    let released = ended.push(ShellEvent::Drop);
    law_one_report_per_data_object(formats, clipboard, events);
    assert(ended.drop_last() =~= events);
    assert(ended.last() == ShellEvent::DragEnded { effect });
    assert(released.drop_last() =~= ended);
    assert(released.last() == ShellEvent::Drop);
    reveal_with_fuel(shell_reports, 2);
    reveal_with_fuel(after_shell_events, 2);
    let before = shell_reports(formats, clipboard, events);
    if before.len() == 0 {
        assert(before =~= Seq::empty());
    }
}

/// A clipboard source is left to delete its originals only where the receiver set
/// both PasteSucceeded=MOVE and Performed=MOVE, or put the files into the recycle
/// bin.
pub proof fn law_source_deletes_only_a_performed_move(
    state: TransferResult,
    formats: TransferFormats,
    clipboard: bool,
    format: u16,
    effect: Option<u32>,
    recycle_bin: bool,
)
    requires
        set_data_report(state, formats, clipboard, format, effect, recycle_bin) is Some,
    ensures
        ({
            let report = set_data_report(state, formats, clipboard, format, effect, recycle_bin)->0;
            let after = after_set_data(state, formats, clipboard, format, effect, recycle_bin);
            report.operation == Some(FileTransferOperation::Move) && !report.source_removed ==> (
            after.recycle_bin || (effect == Some(EFFECT_MOVE) && after.performed == Some(
                EFFECT_MOVE,
            )))
        }),
{
}

/// A source whose files were extracted asynchronously or dragged is left to delete its
/// originals only where the transfer ended with the effect of a move, which no performed
/// effect contradicts, or where the files went into the recycle bin.
pub proof fn law_source_deletes_only_a_finished_move(
    state: TransferResult,
    clipboard: bool,
    code: i32,
    effect: u32,
)
    ensures
        end_operation_report(state, clipboard, code, effect) matches Some(report)
            && report.operation == Some(FileTransferOperation::Move) && !report.source_removed
            ==> state.recycle_bin || effect == EFFECT_MOVE,
        drag_report(state, effect) matches Some(report) && report.operation == Some(
            FileTransferOperation::Move,
        ) && !report.source_removed ==> state.recycle_bin || (effect == EFFECT_MOVE && (
        state.performed is None || state.performed == Some(EFFECT_MOVE))),
        code < 0 ==> (end_operation_report(state, clipboard, code, effect) matches Some(report)
            ==> report.operation is None),
{
}

/// The event of a receiver setting one of its effects.
pub open spec fn setting(format: u16, effect: u32) -> ShellEvent {
    ShellEvent::SetData { format, effect: Some(effect), recycle_bin: false }
}

/// What this application's receiver sets when a paste has ended is reported by this
/// application's source as that operation, with the originals left alone: a file
/// that was moved is not deleted again.
pub proof fn law_paste_is_reported_as_it_ended(
    formats: TransferFormats,
    operation: FileTransferOperation,
)
    requires
        formats.performed != formats.pasted,
        formats.logical != formats.pasted,
        formats.performed != formats.logical,
    ensures
        ({
            let effects = receiver_effects(Some(operation));
            shell_reports(
                formats,
                true,
                seq![
                    setting(formats.performed, effects.performed),
                    setting(formats.logical, effects.logical),
                    setting(formats.pasted, effects.logical),
                ],
            ) == seq![ShellReport { operation: Some(operation), source_removed: true }]
        }),
{
    let effects = receiver_effects(Some(operation));
    let first = setting(formats.performed, effects.performed);
    let second = setting(formats.logical, effects.logical);
    let third = setting(formats.pasted, effects.logical);
    let events = seq![first, second, third];
    assert(events.drop_last() =~= seq![first, second]);
    assert(seq![first, second].drop_last() =~= seq![first]);
    assert(seq![first].drop_last() =~= Seq::<ShellEvent>::empty());
    reveal_with_fuel(after_shell_events, 4);
    reveal_with_fuel(shell_reports, 4);
}

/// Whatever a transfer ended in, the receiver never asks the source to delete.
pub proof fn law_receiver_never_asks_for_deletion(completed: Option<FileTransferOperation>)
    ensures
        receiver_effects(completed).performed != EFFECT_MOVE,
        effect_operation(receiver_effects(completed).logical) == completed,
{
}

/// The effects of a copy and of a move, 1 and 2, stand for these operations and for nothing
/// else, and no other effect stands for an operation.
pub proof fn law_effects_stand_for_operations(effect: u32, operation: FileTransferOperation)
    ensures
        effect_operation(effect) == Some(operation) <==> effect == operation_effect(operation),
        effect_operation(effect) is Some <==> effect == 1 || effect == 2,
        effect_operation(effect) == Some(FileTransferOperation::Copy) <==> effect == 1,
        operation_effect(FileTransferOperation::Move) == 2,
{
}

/// Whatever was done to files that reached the recycle bin moved them; anything else counts as
/// what its effect stands for. Doing nothing is no operation.
pub proof fn law_recycled_files_were_moved(effect: u32, recycle_bin: bool)
    ensures
        performed_operation(0, recycle_bin) is None,
        effect != 0 ==> performed_operation(effect, true) == Some(FileTransferOperation::Move),
        performed_operation(effect, false) == effect_operation(effect),
{
}

/// The bytes of an effect are its digits to the base 256, the least significant one first.
pub proof fn law_effect_bytes_are_little_endian(bytes: Seq<u8>)
    requires
        bytes.len() >= 4,
    ensures
        le_value(bytes) % 0x100 == bytes[0],
        le_value(bytes) / 0x100 % 0x100 == bytes[1],
        le_value(bytes) / 0x1_0000 % 0x100 == bytes[2],
        le_value(bytes) / 0x100_0000 == bytes[3],
{
    assert(bytes[0] < 0x100 && bytes[1] < 0x100 && bytes[2] < 0x100);
}

/// The recycle bin is named by its 16 bytes at the beginning of a medium, whatever follows
/// them, and only in the format that names the target.
pub proof fn law_recycle_bin_is_named_by_its_class(
    formats: TransferFormats,
    format: u16,
    medium: Seq<u8>,
    behind: Seq<u8>,
    clsid: Seq<u8>,
)
    requires
        clsid.len() == 16,
    ensures
        is_recycle_bin(formats, formats.target_clsid, clsid + behind, clsid),
        is_recycle_bin(formats, format, medium, clsid) ==> format == formats.target_clsid
            && medium.len() >= 16 && forall|i: int| 0 <= i < 16 ==> #[trigger] medium[i]
            == clsid[i],
{
    assert((clsid + behind).take(16) =~= clsid);
    if is_recycle_bin(formats, format, medium, clsid) {
        assert forall|i: int| 0 <= i < 16 implies #[trigger] medium[i] == clsid[i] by {
            assert(medium.take(16)[i] == medium[i]);
        }
    }
}

/// What a receiver sets is remembered under the format that it was set in, and under no other;
/// what was remembered in the other formats stays. That the recycle bin was named is never
/// forgotten. A medium that holds no effect changes nothing.
pub proof fn law_results_are_remembered_by_format(
    state: TransferResult,
    formats: TransferFormats,
    clipboard: bool,
    format: u16,
    effect: u32,
    recycle_bin: bool,
)
    ensures
        after_set_data(state, formats, clipboard, format, None, recycle_bin) == state,
        ({
            let after = after_set_data(
                state,
                formats,
                clipboard,
                format,
                Some(effect),
                recycle_bin,
            );
            &&& format == formats.performed ==> after.performed == Some(effect)
            &&& format == formats.logical ==> after.logical == Some(effect)
            &&& format == formats.pasted ==> after.pasted == Some(effect)
            &&& format != formats.performed ==> after.performed == state.performed
            &&& format != formats.logical ==> after.logical == state.logical
            &&& format != formats.pasted ==> after.pasted == state.pasted
            &&& after.recycle_bin <==> state.recycle_bin || recycle_bin
            &&& after.drag_effect == state.drag_effect && after.async_mode == state.async_mode
            &&& after.in_operation == state.in_operation
        }),
{
}

/// Files on the clipboard are reported when a receiver says that it pasted them, and when
/// nothing else is set: not for a drag, not a second time, and not while the receiver is still
/// extracting. The effect that is set then is the operation that is reported, whatever other
/// effects were set before, and the source keeps its originals to delete only after a performed
/// move or for the recycle bin.
pub proof fn law_pasted_files_are_reported(
    state: TransferResult,
    formats: TransferFormats,
    clipboard: bool,
    format: u16,
    effect: u32,
    recycle_bin: bool,
)
    requires
        formats.performed != formats.pasted,
    ensures
        ({
            let report = set_data_report(
                state,
                formats,
                clipboard,
                format,
                Some(effect),
                recycle_bin,
            );
            let binned = state.recycle_bin || recycle_bin;
            &&& report is Some <==> clipboard && format == formats.pasted && !state.reported
                && !state.in_operation
            &&& report is Some && !binned ==> {
                &&& report->0.operation == Some(FileTransferOperation::Move) <==> effect == 2
                &&& report->0.operation == Some(FileTransferOperation::Copy) <==> effect == 1
                &&& report->0.source_removed <==> state.performed != Some(2u32)
            }
            &&& report is Some && binned ==> {
                &&& report->0.operation == if effect == 0 {
                    None
                } else {
                    Some(FileTransferOperation::Move)
                }
                &&& !report->0.source_removed
            }
        }),
        set_data_report(state, formats, clipboard, format, None, recycle_bin) is None,
        after_set_data(state, formats, clipboard, format, Some(effect), recycle_bin).reported
            <==> state.reported || (clipboard && format == formats.pasted && !state.in_operation),
{
}

/// An asynchronous paste that ends with a success code and no recycle bin is reported as what
/// the effect set as Paste Succeeded stands for, whatever effects the operation ends with, and
/// as no operation where none was set.
pub proof fn law_asynchronous_paste_is_what_was_pasted(
    state: TransferResult,
    code: i32,
    effects: u32,
    other_effects: u32,
)
    requires
        code >= 0,
        !state.reported,
        !state.recycle_bin,
    ensures
        ({
            let report = end_operation_report(state, true, code, effects);
            let other = end_operation_report(state, true, code, other_effects);
            &&& report is Some && other is Some
            &&& report->0.operation == other->0.operation
            &&& state.pasted is None ==> report->0.operation is None
            &&& report->0.operation == Some(FileTransferOperation::Move) <==> state.pasted == Some(
                2u32,
            )
            &&& report->0.operation == Some(FileTransferOperation::Copy) <==> state.pasted == Some(
                1u32,
            )
        }),
{
}

/// An asynchronous drag that ends with a success code and no recycle bin is reported as what
/// its logical effect stands for; where none was set, as what the drag ended with; and only
/// where that is not known either, as what the operation ends with. What was set as Paste
/// Succeeded has no say in it.
pub proof fn law_asynchronous_drag_is_its_logical_effect(
    state: TransferResult,
    pasted: Option<u32>,
    code: i32,
    effects: u32,
)
    requires
        code >= 0,
        !state.reported,
        !state.recycle_bin,
    ensures
        ({
            let report = end_operation_report(state, false, code, effects);
            let other = end_operation_report(
                TransferResult { pasted, ..state },
                false,
                code,
                effects,
            );
            &&& report is Some && other == report
            &&& state.logical matches Some(logical) ==> report->0.operation == effect_operation(
                logical,
            )
            &&& state.logical is None ==> (state.drag_effect matches Some(dragged)
                ==> report->0.operation == effect_operation(dragged))
            &&& state.logical is None && state.drag_effect is None ==> report->0.operation
                == effect_operation(effects)
        }),
{
}

/// However an asynchronous transfer ended, it is reported once: never after it was reported. A
/// failure is no operation, and neither is a success of which nothing is known or that did
/// nothing. Files in the recycle bin were moved, and the source does not keep them. The source
/// is left to delete its originals exactly where the transfer ends with a move or the recycle
/// bin was named.
pub proof fn law_asynchronous_ends_are_reported(
    state: TransferResult,
    clipboard: bool,
    code: i32,
    effects: u32,
)
    ensures
        ({
            let report = end_operation_report(state, clipboard, code, effects);
            let known = if clipboard {
                state.pasted
            } else if state.logical is None && state.drag_effect is None {
                Some(effects)
            } else if state.logical is None {
                state.drag_effect
            } else {
                state.logical
            };
            &&& report is None <==> state.reported
            &&& report is Some && code < 0 ==> report->0.operation is None
            &&& report is Some && code >= 0 && state.recycle_bin ==> (report->0.operation == Some(
                FileTransferOperation::Move,
            ) <==> known is Some && known->0 != 0) && report->0.operation != Some(
                FileTransferOperation::Copy,
            )
            &&& report is Some ==> (report->0.source_removed <==> !state.recycle_bin && effects
                != 2)
        }),
{
}

/// A synchronous drag is handed on as what its logical effect stands for, or else as what the
/// drag ended with. The source is left to delete its originals exactly where the drag ended
/// with a move that no other performed effect contradicts, or where the recycle bin was named.
pub proof fn law_drags_are_handed_on_as_they_ended(state: TransferResult, effect: u32)
    requires
        !state.reported,
        !state.in_operation,
    ensures
        ({
            let report = drag_report(state, effect);
            &&& report is Some
            &&& !state.recycle_bin && state.logical is None ==> report->0.operation
                == effect_operation(effect)
            &&& !state.recycle_bin ==> (state.logical matches Some(logical)
                ==> report->0.operation == effect_operation(logical))
            &&& state.recycle_bin ==> report->0.operation == if state.logical == Some(0u32) || (
            state.logical is None && effect == 0) {
                None
            } else {
                Some(FileTransferOperation::Move)
            }
            &&& !report->0.source_removed <==> state.recycle_bin || (effect == 2 && (
            state.performed is None || state.performed == Some(2u32)))
        }),
{
}

/// What events change and report. A result that is set, and the end of an operation, are
/// reported as they are by themselves; neither the start of an operation nor the end of a
/// drag is. An operation is under way from its start to its end, and the end of a drag is
/// remembered. The end of an operation counts as reported, and so does the moment when nobody
/// holds the object any longer, at which a transfer that was not reported is reported as
/// cancelled.
pub proof fn law_events_of_a_data_object(
    state: TransferResult,
    formats: TransferFormats,
    clipboard: bool,
    code: i32,
    effects: u32,
    format: u16,
    effect: Option<u32>,
    recycle_bin: bool,
)
    ensures
        ({
            let set = ShellEvent::SetData { format, effect, recycle_bin };
            let end = ShellEvent::EndOperation { code, effects };
            let drag = ShellEvent::DragEnded { effect: effects };
            let start = ShellEvent::StartOperation;
            &&& after_shell_event(state, formats, clipboard, set) == after_set_data(
                state,
                formats,
                clipboard,
                format,
                effect,
                recycle_bin,
            )
            &&& shell_event_report(state, formats, clipboard, set) == set_data_report(
                state,
                formats,
                clipboard,
                format,
                effect,
                recycle_bin,
            )
            &&& shell_event_report(state, formats, clipboard, end) == end_operation_report(
                state,
                clipboard,
                code,
                effects,
            )
            &&& shell_event_report(state, formats, clipboard, drag) is None
            &&& shell_event_report(state, formats, clipboard, start) is None
        }),
        ({
            let started = after_shell_event(
                state,
                formats,
                clipboard,
                ShellEvent::StartOperation,
            );
            let ended = after_shell_event(
                state,
                formats,
                clipboard,
                ShellEvent::EndOperation { code, effects },
            );
            let dragged = after_shell_event(
                state,
                formats,
                clipboard,
                ShellEvent::DragEnded { effect: effects },
            );
            let dropped = after_shell_event(state, formats, clipboard, ShellEvent::Drop);
            let cancelled = shell_event_report(state, formats, clipboard, ShellEvent::Drop);
            &&& started.in_operation && started == (TransferResult {
                in_operation: true,
                ..state
            })
            &&& ended == (TransferResult { in_operation: false, reported: true, ..state })
            &&& dragged == (TransferResult { drag_effect: Some(effects), ..state })
            &&& dropped == (TransferResult { reported: true, ..state })
            &&& cancelled is Some <==> !state.reported
            &&& cancelled is Some ==> cancelled->0.operation is None
                && !cancelled->0.source_removed
        }),
{
}

/// A data object begins with nothing known and nothing reported, and allows receivers to extract
/// on their own time.
pub proof fn law_new_data_object_knows_nothing(formats: TransferFormats, clipboard: bool)
    ensures
        ({
            let state = after_shell_events(formats, clipboard, Seq::empty());
            &&& state.performed is None && state.logical is None && state.pasted is None
            &&& state.drag_effect is None && !state.recycle_bin
            &&& !state.reported && !state.in_operation && state.async_mode
        }),
{
}

/// A receiver reports a copy as performed, and nothing at all as performed where it moved the
/// originals itself or did nothing. As the logical effect it reports what was completed.
pub proof fn law_receivers_report_what_they_completed(completed: Option<FileTransferOperation>)
    ensures
        ({
            let effects = receiver_effects(completed);
            &&& effects.performed == 1 <==> completed == Some(FileTransferOperation::Copy)
            &&& effects.performed == 0 <==> completed != Some(FileTransferOperation::Copy)
            &&& effects.logical == 1 <==> completed == Some(FileTransferOperation::Copy)
            &&& effects.logical == 2 <==> completed == Some(FileTransferOperation::Move)
            &&& effects.logical == 0 <==> completed is None
        }),
{
}

/// A drag may always end in a copy, and in a move exactly where one was asked for; it may end in
/// nothing else.
pub proof fn law_drags_may_end_in_what_was_asked_for(operation: FileTransferOperation)
    ensures
        drag_effects(operation) == if operation == FileTransferOperation::Move {
            3u32
        } else {
            1u32
        },
{
    assert(1u32 | 2u32 == 3u32) by (bit_vector);
}

/// What this application's receiver sets when an asynchronous drop has ended is reported by this
/// application's source as it ended, with the originals left alone.
pub proof fn law_drop_is_reported_as_it_ended(
    formats: TransferFormats,
    completed: Option<FileTransferOperation>,
    code: i32,
)
    requires
        formats.performed != formats.pasted,
        formats.logical != formats.pasted,
        formats.performed != formats.logical,
        completed is Some ==> code >= 0,
        completed is None ==> code < 0,
    ensures
        ({
            let effects = receiver_effects(completed);
            shell_reports(
                formats,
                false,
                seq![
                    ShellEvent::StartOperation,
                    setting(formats.performed, effects.performed),
                    setting(formats.logical, effects.logical),
                    ShellEvent::EndOperation { code, effects: effects.performed },
                ],
            ) == seq![ShellReport { operation: completed, source_removed: true }]
        }),
{
    let effects = receiver_effects(completed);
    let first = ShellEvent::StartOperation;
    let second = setting(formats.performed, effects.performed);
    let third = setting(formats.logical, effects.logical);
    let fourth = ShellEvent::EndOperation { code, effects: effects.performed };
    let events = seq![first, second, third, fourth];
    assert(events.drop_last() =~= seq![first, second, third]);
    assert(seq![first, second, third].drop_last() =~= seq![first, second]);
    assert(seq![first, second].drop_last() =~= seq![first]);
    assert(seq![first].drop_last() =~= Seq::<ShellEvent>::empty());
    reveal_with_fuel(after_shell_events, 5);
    reveal_with_fuel(shell_reports, 5);
}

/// A transfer is the same as itself, and as no transfer with another operation, another token,
/// more or fewer pathnames, or an unequal pathname in some place.
pub proof fn law_same_transfers_agree_in_everything(
    windows: bool,
    a: FileTransferView,
    b: FileTransferView,
    at: int,
)
    ensures
        same_transfer(windows, a, a),
        same_transfer(windows, a, b) ==> a.operation == b.operation && a.ownership == b.ownership
            && a.paths.len() == b.paths.len(),
        same_transfer(windows, a, b) && 0 <= at < a.paths.len() ==> crate::paths::equal_paths(
            windows,
            a.paths[at],
            b.paths[at],
        ),
        a.operation == b.operation && a.ownership == b.ownership && a.paths.len() == b.paths.len()
            && (forall|i: int|
            0 <= i < a.paths.len() ==> crate::paths::equal_paths(
                windows,
                #[trigger] a.paths[i],
                b.paths[i],
            )) ==> same_transfer(windows, a, b),
{
}

/// Whoever waits for completions gets each report behind the earlier ones, with the files that
/// were offered, the operation and whether the source is gone; the transfer is then no longer
/// active. Where nothing is reported, nothing changes.
pub proof fn law_reports_reach_the_application(
    app: AppView,
    files: FileTransferView,
    report: ShellReport,
)
    ensures
        app_after_report(app, files, None) == app,
        ({
            let after = app_after_report(app, files, Some(report));
            &&& after.completions.len() == app.completions.len() + 1
            &&& after.completions.drop_last() == app.completions
            &&& after.completions.last().files == files
            &&& after.completions.last().operation == report.operation
            &&& after.completions.last().source_removed == report.source_removed
            &&& after.active == app.active.remove(files.ownership)
        }),
{
    let after = app_after_report(app, files, Some(report));
    assert(after.completions.drop_last() =~= app.completions);
}

} // verus!
