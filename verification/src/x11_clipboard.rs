//! The file clipboard of X11, for programs that draw on another display server.

use crate::app::{first_files, ClipboardItem};
use crate::file_transfer::{transfer_view, FileTransfer};
use vstd::prelude::*;

verus! {

/// What is said where X11 is not compiled in.
pub const DISABLED: &'static str = "X11 support is disabled";

/// A connection to the clipboard, or why there is none. It is opened once, when it is
/// first needed, and its outcome is kept.
pub struct FileClipboardBridge<C> {
    pub outcome: Option<Result<C, String>>,
}

impl<C> FileClipboardBridge<C> {
    /// Not opened yet.
    pub fn new() -> (bridge: FileClipboardBridge<C>)
        ensures
            bridge.outcome is None,
    {
        FileClipboardBridge { outcome: None }
    }
}

/// Whether a connection was opened in passing from one state to another: only if its
/// outcome was not known yet.
pub open spec fn opened<C, Open: FnOnce() -> Result<C, String>>(
    before: FileClipboardBridge<C>,
    open: Open,
    after: FileClipboardBridge<C>,
) -> bool {
    match before.outcome {
        Some(_) => after == before,
        None => after.outcome is Some && call_ensures(open, (), after.outcome->0),
    }
}

/// Access the X11 file clipboard. `open` opens it, unless that was tried before.
pub fn file_clipboard_bridge<C, Open: FnOnce() -> Result<C, String>>(
    bridge: &mut FileClipboardBridge<C>,
    open: Open,
) -> (failure: Option<String>)
    requires
        call_requires(open, ()),
    ensures
        opened(*old(bridge), open, *final(bridge)),
        final(bridge).outcome is Some,
        match final(bridge).outcome->0 {
            Ok(_) => failure is None,
            Err(reason) => failure is Some && failure->0@ == reason@,
        },
{
    if bridge.outcome.is_none() {
        let outcome = open();
        bridge.outcome = Some(outcome);
    }
    match &bridge.outcome {
        Some(Err(reason)) => Some(reason.clone()),
        _ => None,
    }
}

/// Write native file formats through X11, including desktop cut metadata. `set_files`
/// offers them on the connection.
pub fn write_files_to_x11_clipboard<
    C,
    Open: FnOnce() -> Result<C, String>,
    Write: FnOnce(&C, &FileTransfer) -> Result<(), String>,
>(
    enabled: bool,
    bridge: &mut FileClipboardBridge<C>,
    open: Open,
    set_files: Write,
    files: &FileTransfer,
) -> (written: Result<(), String>)
    requires
        call_requires(open, ()),
        forall|connection: C| call_requires(set_files, (&connection, files)),
    ensures
        !enabled ==> written is Err && written->Err_0@ == DISABLED@ && *final(bridge) == *old(
            bridge,
        ),
        enabled ==> opened(*old(bridge), open, *final(bridge)) && match final(bridge).outcome {
            None => false,
            Some(Err(reason)) => written is Err && written->Err_0@ == reason@,
            Some(Ok(connection)) => call_ensures(set_files, (&connection, files), written),
        },
{
    if !enabled {
        return Err(DISABLED.to_owned());
    }
    if let Some(reason) = file_clipboard_bridge(bridge, open) {
        return Err(reason);
    }
    match &bridge.outcome {
        Some(Ok(connection)) => set_files(connection, files),
        _ => Ok(()),
    }
}

/// Read typed files from the X11 clipboard bridge. Text paths remain text. `get_any`
/// gives what the clipboard holds.
pub fn read_files_from_x11_clipboard<
    C,
    Open: FnOnce() -> Result<C, String>,
    Read: FnOnce(&C) -> Result<ClipboardItem, String>,
>(enabled: bool, bridge: &mut FileClipboardBridge<C>, open: Open, get_any: Read) -> (files: Option<
    FileTransfer,
>)
    requires
        call_requires(open, ()),
        forall|connection: C| call_requires(get_any, (&connection,)),
    ensures
        !enabled ==> files is None && *final(bridge) == *old(bridge),
        enabled ==> opened(*old(bridge), open, *final(bridge)) && match final(bridge).outcome {
            None => false,
            Some(Err(_)) => files is None,
            Some(Ok(connection)) => exists|item: Result<ClipboardItem, String>| #[trigger]
                call_ensures(get_any, (&connection,), item) && transfer_view(files) == match item {
                    Ok(item) => first_files(item.entries@),
                    Err(_) => None,
                },
        },
{
    if !enabled {
        return None;
    }
    if file_clipboard_bridge(bridge, open).is_some() {
        return None;
    }
    match &bridge.outcome {
        Some(Ok(connection)) => {
            let item = get_any(connection);
            assert(call_ensures(get_any, (connection,), item));
            match item {
                Ok(item) => item.file_transfer(),
                Err(_) => None,
            }
        },
        _ => None,
    }
}

/// A connection is opened once: whatever came of the first attempt is kept, and no later attempt
/// changes it.
pub proof fn law_connection_is_opened_once<C, Open: FnOnce() -> Result<C, String>>(
    before: FileClipboardBridge<C>,
    open: Open,
    after: FileClipboardBridge<C>,
    open_again: Open,
    again: FileClipboardBridge<C>,
)
    requires
        opened(before, open, after),
        opened(after, open_again, again),
    ensures
        after.outcome is Some,
        again == after,
        before.outcome is Some ==> after == before,
        before.outcome is None ==> call_ensures(open, (), after.outcome->0),
{
}

} // verus!
