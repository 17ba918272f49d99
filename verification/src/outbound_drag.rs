//! Xdnd version 5 source. Selection ownership lives until XdndFinished, including
//! INCR reads; the receiving application alone decides whether a drop succeeded.
//!
//! The session is a state machine: the host polls the display server, tells the
//! session what it saw, and carries out the actions that it gets back.

use crate::app::{CompletionView, FileTransferCompletion};
use crate::file_transfer::{crlf_lines, file_urls, FileTransfer, FileTransferOperation};
use crate::paths::PathSystem;
use vstd::prelude::*;
use vstd::utf8::encode_utf8;

verus! {

/// No window, atom or property.
pub const NONE: u32 = 0;

/// The time of an event that has none.
pub const CURRENT_TIME: u32 = 0;

/// How many bytes of the file list go into one property.
pub const CHUNK: usize = 65536;

/// How many windows deep the search for a target goes.
pub const MAX_DEPTH: u32 = 64;

/// How long a session may last, in nanoseconds.
pub const SESSION_NANOS: u64 = 600_000_000_000;

/// How long a released drag waits to be accepted, in nanoseconds.
pub const RELEASE_NANOS: u64 = 250_000_000;

/// The key symbol of Escape.
pub const ESCAPE: u32 = 0xff1b;

/// The protocol version, where XdndEnter carries it.
pub const ENTER_VERSION: u32 = 0x500_0000;

/// The atoms of the protocol.
#[derive(Clone, Copy, Debug, PartialEq, Eq, Structural)]
pub struct Atoms {
    pub xdnd_aware: u32,
    pub xdnd_proxy: u32,
    pub xdnd_enter: u32,
    pub xdnd_leave: u32,
    pub xdnd_position: u32,
    pub xdnd_status: u32,
    pub xdnd_drop: u32,
    pub xdnd_finished: u32,
    pub xdnd_selection: u32,
    pub xdnd_action_copy: u32,
    pub xdnd_action_move: u32,
    pub targets: u32,
    pub incr: u32,
    pub uri: u32,
}

/// The five numbers that a client message carries.
#[derive(Clone, Copy, Debug, PartialEq, Eq, Structural)]
pub struct MessageData {
    pub d0: u32,
    pub d1: u32,
    pub d2: u32,
    pub d3: u32,
    pub d4: u32,
}

/// What the host does towards the display server.
#[derive(Clone, Copy, Debug, PartialEq, Eq, Structural)]
pub enum DragAction {
    /// Send a client message.
    Send { target: u32, kind: u32, data: MessageData },
    /// Send a client message, whether or not that succeeds.
    TrySend { target: u32, kind: u32, data: MessageData },
    /// Let go of the pointer and the keyboard.
    Ungrab,
    /// Set a property to two atoms.
    SetAtoms { window: u32, property: u32, first: u32, second: u32 },
    /// Set a property of a type to the bytes `from..to` of the file list.
    SetBytes { window: u32, property: u32, kind: u32, from: usize, to: usize },
    /// Set a property of a type to one number.
    SetNumber { window: u32, property: u32, kind: u32, number: u32 },
    /// Ask for the property changes of a window.
    WatchProperties { window: u32 },
    /// Answer a request for the selection.
    Notify { requestor: u32, selection: u32, target: u32, property: u32, time: u32 },
}

/// Whether a session goes on.
#[derive(Clone, Copy, Debug, PartialEq, Eq, Structural)]
pub enum DragOutcome {
    Continue,
    /// It ended in an operation, or in none.
    Ended(Option<FileTransferOperation>),
}

/// Why a session cannot begin.
#[derive(Clone, Copy, Debug, PartialEq, Eq, Structural)]
pub enum DragError {
    /// Pointer grab was rejected.
    GrabRejected,
    /// No local file URLs.
    NoLocalFiles,
}

// ---------------------------------------------------------------------------
// The window under the pointer

/// The search for the deepest window under the pointer that takes drops, through
/// the frames of window managers.
#[derive(Clone, Copy, Debug, PartialEq, Eq, Structural)]
pub struct TargetSearch {
    pub source: u32,
    /// The window to look at.
    pub current: u32,
    /// The deepest window found that takes drops.
    pub target: u32,
    /// How many windows were looked at.
    pub visited: u32,
}

/// What the display server says of a window.
#[derive(Clone, Copy, Debug, PartialEq, Eq, Structural)]
pub struct WindowReply {
    /// Whether it takes drops.
    pub aware: bool,
    /// Its child under the pointer.
    pub child: u32,
}

impl TargetSearch {
    /// A search that begins at the root window.
    pub fn new(root: u32, source: u32) -> (search: TargetSearch)
        ensures
            search == new_search(root, source),
    {
        TargetSearch { source, current: root, target: NONE, visited: 0 }
    }

    /// Takes in what the display server says of the current window, and says whether
    /// there is another one to look at.
    pub fn visit(&mut self, reply: WindowReply) -> (more: bool)
        requires
            old(self).visited < MAX_DEPTH,
        ensures
            *final(self) == after_visit(*old(self), reply),
            more == search_goes_on(*old(self), reply),
    {
        if self.current != self.source && reply.aware {
            self.target = self.current;
        }
        self.visited = self.visited + 1;
        if reply.child == NONE || reply.child == self.source {
            return false;
        }
        self.current = reply.child;
        self.visited < MAX_DEPTH
    }
}

/// A search that begins at the root window.
pub open spec fn new_search(root: u32, source: u32) -> TargetSearch {
    TargetSearch { source, current: root, target: NONE, visited: 0 }
}

/// A search after it has looked at its current window.
pub open spec fn after_visit(search: TargetSearch, reply: WindowReply) -> TargetSearch {
    TargetSearch {
        source: search.source,
        target: if search.current != search.source && reply.aware {
            search.current
        } else {
            search.target
        },
        current: if reply.child == NONE || reply.child == search.source {
            search.current
        } else {
            reply.child
        },
        visited: (search.visited + 1) as u32,
    }
}

/// Whether a search has another window to look at after its current one.
pub open spec fn search_goes_on(search: TargetSearch, reply: WindowReply) -> bool {
    reply.child != NONE && reply.child != search.source && search.visited + 1 < MAX_DEPTH
}

/// The window that messages for a target go to: its proxy, if the proxy names itself
/// as its own proxy too.
pub open spec fn message_window(
    target: u32,
    proxy: Option<u32>,
    proxy_of_proxy: Option<u32>,
) -> u32 {
    if target != NONE && proxy is Some && proxy_of_proxy == proxy {
        proxy->0
    } else {
        target
    }
}

/// The window that messages for a target go to. `proxy` is what the target names as
/// its proxy and `proxy_of_proxy` what that window names.
pub fn resolve_proxy(target: u32, proxy: Option<u32>, proxy_of_proxy: Option<u32>) -> (window: u32)
    ensures
        window == message_window(target, proxy, proxy_of_proxy),
{
    if target != NONE {
        if let Some(window) = proxy {
            if let Some(own) = proxy_of_proxy {
                if own == window {
                    return window;
                }
            }
        }
    }
    target
}

/// A search after some windows were looked at.
pub open spec fn search_after(root: u32, source: u32, replies: Seq<WindowReply>) -> TargetSearch
    decreases replies.len(),
{
    if replies.len() == 0 {
        new_search(root, source)
    } else {
        after_visit(search_after(root, source, replies.drop_last()), replies.last())
    }
}

/// The window that a search looked at in its turn `i`.
pub open spec fn visited_window(
    root: u32,
    source: u32,
    replies: Seq<WindowReply>,
    i: int,
) -> u32 {
    search_after(root, source, replies.take(i)).current
}

/// Whether the window that a search looked at in its turn `i` takes drops and is not
/// the source itself.
pub open spec fn takes_drops(
    root: u32,
    source: u32,
    replies: Seq<WindowReply>,
    i: int,
) -> bool {
    replies[i].aware && visited_window(root, source, replies, i) != source
}

/// Whether the window of turn `at` is the deepest one that takes drops.
pub open spec fn deepest_taker(
    root: u32,
    source: u32,
    replies: Seq<WindowReply>,
    at: int,
) -> bool {
    &&& 0 <= at < replies.len()
    &&& takes_drops(root, source, replies, at)
    &&& forall|i: int| at < i < replies.len() ==> !takes_drops(root, source, replies, i)
}

/// The search finds the deepest window on its way that takes drops, or none where
/// there is no such window.
pub proof fn law_search_finds_deepest_aware_window(
    root: u32,
    source: u32,
    replies: Seq<WindowReply>,
)
    ensures
        search_after(root, source, replies).source == source,
        (forall|i: int| 0 <= i < replies.len() ==> !takes_drops(root, source, replies, i))
            ==> search_after(root, source, replies).target == NONE,
        forall|at: int| #[trigger]
            deepest_taker(root, source, replies, at) ==> search_after(root, source, replies).target
                == visited_window(root, source, replies, at),
    decreases replies.len(),
{
    if replies.len() > 0 {
        let before = replies.drop_last();
        let last = replies.len() - 1;
        law_search_finds_deepest_aware_window(root, source, before);
        assert(replies.take(last) =~= before);
        assert forall|i: int| 0 <= i < last implies takes_drops(root, source, before, i)
            == #[trigger] takes_drops(root, source, replies, i) && visited_window(
            root,
            source,
            before,
            i,
        ) == visited_window(root, source, replies, i) by {
            assert(replies.take(i) =~= before.take(i));
        }
        assert(search_after(root, source, before).current == visited_window(
            root,
            source,
            replies,
            last,
        ));
        if forall|i: int| 0 <= i < replies.len() ==> !takes_drops(root, source, replies, i) {
            assert(!takes_drops(root, source, replies, last));
            assert forall|i: int| 0 <= i < before.len() implies !takes_drops(
                root,
                source,
                before,
                i,
            ) by {
                assert(!takes_drops(root, source, replies, i));
            }
        }
        assert forall|at: int| #[trigger] deepest_taker(root, source, replies, at) implies
            search_after(root, source, replies).target == visited_window(
            root,
            source,
            replies,
            at,
        ) by {
            if at < last {
                assert(!takes_drops(root, source, replies, last));
                assert(takes_drops(root, source, replies, at));
                assert forall|i: int| at < i < before.len() implies !takes_drops(
                    root,
                    source,
                    before,
                    i,
                ) by {
                    assert(!takes_drops(root, source, replies, i));
                }
                assert(deepest_taker(root, source, before, at));
            }
        }
    }
}

// ---------------------------------------------------------------------------
// The session

/// A position that a target was told, with the action that it was asked for there.
#[derive(Clone, Copy, Debug, PartialEq, Eq, Structural)]
pub struct Position {
    pub point: u32,
    pub action: u32,
}

/// Where a drag stands.
#[derive(Clone, Copy, Debug, PartialEq, Eq, Structural)]
pub struct DragState {
    /// The window that owns the selection.
    pub source: u32,
    /// The operation that was asked for.
    pub operation: FileTransferOperation,
    /// The window that the pointer is over, if it takes drops.
    pub target: u32,
    /// Whether the target would take the drop.
    pub accepted: bool,
    /// The action that the target was last asked for.
    pub requested_action: u32,
    /// The time of the last pointer event.
    pub time: u32,
    /// Whether the files were dropped.
    pub dropped: bool,
    /// When the button was first seen released, in nanoseconds.
    pub released_at: Option<u64>,
    /// The position and action that the target was last told.
    pub last_position: Option<Position>,
}

/// A read of the file list in parts.
#[derive(Clone, Copy, Debug, PartialEq, Eq, Structural)]
pub struct Increment {
    pub requestor: u32,
    pub property: u32,
    /// How many bytes were handed over.
    pub offset: usize,
}

/// A drag of files out of the application.
pub struct DragSession {
    pub atoms: Atoms,
    pub state: DragState,
    /// The file list that receivers read.
    pub payload: Vec<u8>,
    /// The reads that are under way.
    pub increments: Vec<Increment>,
}

/// The state in which a drag begins.
pub open spec fn new_drag(source: u32, operation: FileTransferOperation) -> DragState {
    DragState {
        source,
        operation,
        target: NONE,
        accepted: false,
        requested_action: NONE,
        time: CURRENT_TIME,
        dropped: false,
        released_at: None,
        last_position: None,
    }
}

/// A message of the source to a target.
pub open spec fn message(
    target: u32,
    kind: u32,
    d0: u32,
    d1: u32,
    d2: u32,
    d3: u32,
    d4: u32,
) -> DragAction {
    DragAction::Send { target, kind, data: MessageData { d0, d1, d2, d3, d4 } }
}

/// A drag after the button was found released.
pub open spec fn after_release(state: DragState, now: u64) -> DragState {
    if state.target == NONE {
        state
    } else {
        DragState {
            released_at: if state.released_at is Some {
                state.released_at
            } else {
                Some(now)
            },
            dropped: state.accepted,
            ..state
        }
    }
}

/// Whether a drag ends when the button is found released: there is no target, or the
/// target did not accept in time.
pub open spec fn release_ends(state: DragState, now: u64) -> bool {
    state.target == NONE || (!state.accepted && state.released_at is Some && now
        - state.released_at->0 > RELEASE_NANOS)
}

/// What is done when the button is found released: a target that accepts gets the
/// drop.
pub open spec fn release_actions(atoms: Atoms, state: DragState) -> Seq<DragAction> {
    if state.target != NONE && state.accepted {
        seq![
            message(state.target, atoms.xdnd_drop, state.source, 0, state.time, 0, 0),
            DragAction::Ungrab,
        ]
    } else {
        Seq::empty()
    }
}

/// The action to ask for: a move only where one was asked for and the control key
/// does not turn it into a copy.
pub open spec fn wanted_action(
    atoms: Atoms,
    operation: FileTransferOperation,
    control: bool,
) -> u32 {
    if operation == FileTransferOperation::Move && !control {
        atoms.xdnd_action_move
    } else {
        atoms.xdnd_action_copy
    }
}

/// A point on the root window, as one number: each coordinate in 16 bits of its two's
/// complement.
pub open spec fn packed_point(x: i16, y: i16) -> u32 {
    ((x as int % 0x1_0000) * 0x1_0000 + y as int % 0x1_0000) as u32
}

/// A drag after it was found that the pointer is over a window.
pub open spec fn over_target(state: DragState, next_target: u32) -> DragState {
    if next_target == state.target {
        state
    } else {
        DragState { target: next_target, accepted: false, last_position: None, ..state }
    }
}

/// What a change of target is told to the old one and the new one.
pub open spec fn target_actions(
    atoms: Atoms,
    state: DragState,
    next_target: u32,
) -> Seq<DragAction> {
    let leave = if state.target == NONE {
        Seq::empty()
    } else {
        seq![message(state.target, atoms.xdnd_leave, state.source, 0, 0, 0, 0)]
    };
    let enter = if next_target == NONE {
        Seq::empty()
    } else {
        seq![message(next_target, atoms.xdnd_enter, state.source, ENTER_VERSION, atoms.uri, 0, 0)]
    };
    if next_target == state.target {
        Seq::empty()
    } else {
        leave + enter
    }
}

/// A drag after the pointer was found over a window with the button held.
pub open spec fn after_hold(
    atoms: Atoms,
    state: DragState,
    next_target: u32,
    control: bool,
    x: i16,
    y: i16,
) -> DragState {
    let over = over_target(state, next_target);
    let action = wanted_action(atoms, state.operation, control);
    DragState {
        requested_action: action,
        last_position: if over.target == NONE {
            over.last_position
        } else {
            Some(Position { point: packed_point(x, y), action })
        },
        ..over
    }
}

/// What is done when the pointer was found over a window with the button held: targets
/// are left and entered, and the target is told the position where it is new.
pub open spec fn hold_actions(
    atoms: Atoms,
    state: DragState,
    next_target: u32,
    control: bool,
    x: i16,
    y: i16,
) -> Seq<DragAction> {
    let over = over_target(state, next_target);
    let action = wanted_action(atoms, state.operation, control);
    let point = packed_point(x, y);
    let position = if over.target == NONE || over.last_position == Some(
        Position { point, action },
    ) {
        Seq::empty()
    } else {
        seq![message(over.target, atoms.xdnd_position, over.source, 0, point, over.time, action)]
    };
    target_actions(atoms, state, next_target) + position
}

/// Whether the target's status says that it would take the drop, with an action that
/// it was asked for or may fall back to.
pub open spec fn status_accepts(atoms: Atoms, state: DragState, data: MessageData) -> bool {
    data.d1 % 2 == 1 && (data.d4 == atoms.xdnd_action_copy || data.d4 == atoms.xdnd_action_move
        && state.requested_action == atoms.xdnd_action_move)
}

/// The operation that a finished drop ended in: a move only where one was asked for.
pub open spec fn finished_operation(
    atoms: Atoms,
    operation: FileTransferOperation,
    data: MessageData,
) -> Option<FileTransferOperation> {
    if data.d1 % 2 == 0 {
        None
    } else if data.d2 == atoms.xdnd_action_copy {
        Some(FileTransferOperation::Copy)
    } else if data.d2 == atoms.xdnd_action_move && operation == FileTransferOperation::Move {
        Some(FileTransferOperation::Move)
    } else {
        None
    }
}

/// A drag after a client message.
pub open spec fn after_message(
    atoms: Atoms,
    state: DragState,
    kind: u32,
    data: MessageData,
) -> DragState {
    if kind == atoms.xdnd_status && !state.dropped && data.d0 == state.target {
        DragState { accepted: status_accepts(atoms, state, data), ..state }
    } else {
        state
    }
}

/// Whether a drag ends at a client message, and in what.
pub open spec fn message_outcome(
    atoms: Atoms,
    state: DragState,
    kind: u32,
    data: MessageData,
) -> DragOutcome {
    if kind == atoms.xdnd_finished && state.dropped && data.d0 == state.target {
        DragOutcome::Ended(finished_operation(atoms, state.operation, data))
    } else {
        DragOutcome::Continue
    }
}

/// A request for the selection.
#[derive(Clone, Copy, Debug, PartialEq, Eq, Structural)]
pub struct SelectionRequest {
    pub requestor: u32,
    pub selection: u32,
    pub target: u32,
    pub property: u32,
    pub time: u32,
}

/// The property that a request is answered in: requestors of old name none and mean
/// the target.
pub open spec fn answer_property(request: SelectionRequest) -> u32 {
    if request.property == NONE {
        request.target
    } else {
        request.property
    }
}

/// Whether a request starts a read in parts: it asks for a file list that is too long
/// for one property.
pub open spec fn starts_increment(
    atoms: Atoms,
    payload_len: nat,
    request: SelectionRequest,
) -> bool {
    request.selection == atoms.xdnd_selection && request.target != atoms.targets && request.target
        == atoms.uri && payload_len > CHUNK
}

/// How a request for the selection is answered.
pub open spec fn request_actions(
    atoms: Atoms,
    payload_len: nat,
    request: SelectionRequest,
) -> Seq<DragAction> {
    let property = answer_property(request);
    let window = request.requestor;
    if request.selection != atoms.xdnd_selection {
        Seq::empty()
    } else {
        let handed_over = if request.target == atoms.targets {
            seq![
                DragAction::SetAtoms { window, property, first: atoms.targets, second: atoms.uri },
            ]
        } else if request.target != atoms.uri {
            Seq::empty()
        } else if payload_len <= CHUNK {
            seq![
                DragAction::SetBytes {
                    window,
                    property,
                    kind: atoms.uri,
                    from: 0,
                    to: payload_len as usize,
                },
            ]
        } else {
            seq![
                DragAction::WatchProperties { window },
                DragAction::SetNumber {
                    window,
                    property,
                    kind: atoms.incr,
                    number: (payload_len % 0x1_0000_0000) as u32,
                },
            ]
        };
        handed_over.push(
            DragAction::Notify {
                requestor: request.requestor,
                selection: request.selection,
                target: request.target,
                property: if request.target == atoms.targets || request.target == atoms.uri {
                    property
                } else {
                    NONE
                },
                time: request.time,
            },
        )
    }
}

/// The first read under way for a property of a window, or the number of reads where
/// there is none.
pub open spec fn increment_for(increments: Seq<Increment>, window: u32, property: u32) -> int
    decreases increments.len(),
{
    if increments.len() == 0 || (increments[0].requestor == window && increments[0].property
        == property) {
        0
    } else {
        1 + increment_for(increments.skip(1), window, property)
    }
}

/// Where the part of a read that begins at an offset ends.
pub open spec fn part_end(payload_len: nat, offset: nat) -> nat {
    if payload_len - offset <= CHUNK {
        payload_len
    } else {
        offset + CHUNK as nat
    }
}

/// What is done when a property was deleted: the next part of the read that goes
/// through it is handed over, an empty part at its end.
pub open spec fn part_actions(
    atoms: Atoms,
    payload_len: nat,
    increments: Seq<Increment>,
    window: u32,
    property: u32,
) -> Seq<DragAction> {
    let at = increment_for(increments, window, property);
    if 0 <= at < increments.len() {
        let offset = increments[at].offset;
        seq![
            DragAction::SetBytes {
                window,
                property,
                kind: atoms.uri,
                from: offset,
                to: part_end(payload_len, offset as nat) as usize,
            },
        ]
    } else {
        Seq::empty()
    }
}

/// The reads under way after a property was deleted: the one that goes through it has
/// moved on, or is over once it has handed over its empty part.
pub open spec fn after_part(
    payload_len: nat,
    increments: Seq<Increment>,
    window: u32,
    property: u32,
) -> Seq<Increment> {
    let at = increment_for(increments, window, property);
    if 0 <= at < increments.len() {
        let increment = increments[at];
        if increment.offset == payload_len {
            increments.remove(at)
        } else {
            increments.update(
                at,
                Increment {
                    offset: part_end(payload_len, increment.offset as nat) as usize,
                    ..increment
                },
            )
        }
    } else {
        increments
    }
}

proof fn lemma_increment_for(increments: Seq<Increment>, window: u32, property: u32, at: int)
    requires
        0 <= at <= increments.len(),
        forall|i: int|
            0 <= i < at ==> !((#[trigger] increments[i]).requestor == window
                && increments[i].property == property),
        at < increments.len() ==> increments[at].requestor == window && increments[at].property
            == property,
    ensures
        increment_for(increments, window, property) == at,
    decreases increments.len(),
{
    if at > 0 {
        assert(!(increments[0].requestor == window && increments[0].property == property));
        assert forall|i: int| 0 <= i < at - 1 implies !((#[trigger] increments.skip(1)[i]).requestor
            == window && increments.skip(1)[i].property == property) by {
            assert(increments.skip(1)[i] == increments[i + 1]);
        }
        lemma_increment_for(increments.skip(1), window, property, at - 1);
    }
}

fn send(target: u32, kind: u32, d0: u32, d1: u32, d2: u32, d3: u32, d4: u32) -> (action: DragAction)
    ensures
        action == message(target, kind, d0, d1, d2, d3, d4),
{
    DragAction::Send { target, kind, data: MessageData { d0, d1, d2, d3, d4 } }
}

fn low_half(v: i16) -> (bits: u32)
    ensures
        bits == v as int % 0x1_0000,
{
    if v >= 0 {
        v as u32
    } else {
        (v as i32 + 0x1_0000) as u32
    }
}

impl DragSession {
    /// No read has handed over more than there is, and there is something to read.
    pub open spec fn wf(&self) -> bool {
        &&& self.payload.len() > 0
        &&& forall|i: int|
            0 <= i < self.increments.len() ==> (#[trigger] self.increments@[i]).offset
                <= self.payload.len()
    }

    /// Begins a drag of files, once the pointer was grabbed or could not be.
    pub fn begin(
        files: &FileTransfer,
        system: PathSystem,
        grabbed: bool,
        source: u32,
        atoms: Atoms,
    ) -> (session: Result<DragSession, DragError>)
        ensures
            session is Ok <==> grabbed && encode_utf8(
                crlf_lines(file_urls(system@, files@.paths)),
            ).len() > 0,
            !grabbed ==> session == Err::<DragSession, DragError>(DragError::GrabRejected),
            grabbed && session is Err ==> session == Err::<DragSession, DragError>(
                DragError::NoLocalFiles,
            ),
            session matches Ok(session) ==> {
                &&& session.wf()
                &&& session.atoms == atoms
                &&& session.state == new_drag(source, files@.operation)
                &&& session.payload@ == encode_utf8(crlf_lines(file_urls(system@, files@.paths)))
                &&& session.increments@ == Seq::<Increment>::empty()
            },
    {
        if !grabbed {
            return Err(DragError::GrabRejected);
        }
        let payload = files.uri_list(system);
        if payload.is_empty() {
            return Err(DragError::NoLocalFiles);
        }
        Ok(
            DragSession {
                atoms,
                state: DragState {
                    source,
                    operation: files.operation,
                    target: NONE,
                    accepted: false,
                    requested_action: NONE,
                    time: CURRENT_TIME,
                    dropped: false,
                    released_at: None,
                    last_position: None,
                },
                payload,
                increments: Vec::new(),
            },
        )
    }

    /// Whether a session that has lasted so many nanoseconds is given up.
    pub fn expired(elapsed_nanos: u64) -> (over: bool)
        ensures
            over == (elapsed_nanos > SESSION_NANOS),
    {
        elapsed_nanos > SESSION_NANOS
    }

    /// Whether the pointer still decides where the files go.
    pub fn follows_pointer(&self) -> (follows: bool)
        ensures
            follows == !self.state.dropped,
    {
        !self.state.dropped
    }

    /// The button was found released.
    pub fn pointer_released(&mut self, now_nanos: u64) -> (step: (Vec<DragAction>, DragOutcome))
        requires
            old(self).wf(),
            !old(self).state.dropped,
        ensures
            final(self).wf(),
            final(self).atoms == old(self).atoms,
            final(self).payload == old(self).payload,
            final(self).increments == old(self).increments,
            final(self).state == after_release(old(self).state, now_nanos),
            step.0@ == release_actions(old(self).atoms, old(self).state),
            step.1 == if release_ends(old(self).state, now_nanos) {
                DragOutcome::Ended(None)
            } else {
                DragOutcome::Continue
            },
    {
        let mut actions: Vec<DragAction> = Vec::new();
        if self.state.target == NONE {
            return (actions, DragOutcome::Ended(None));
        }
        let released_at = match self.state.released_at {
            Some(released_at) => released_at,
            None => now_nanos,
        };
        self.state.released_at = Some(released_at);
        if self.state.accepted {
            let target = self.state.target;
            actions.push(
                send(target, self.atoms.xdnd_drop, self.state.source, 0, self.state.time, 0, 0),
            );
            actions.push(DragAction::Ungrab);
            self.state.dropped = true;
            return (actions, DragOutcome::Continue);
        }
        if now_nanos >= released_at && now_nanos - released_at > RELEASE_NANOS {
            return (actions, DragOutcome::Ended(None));
        }
        (actions, DragOutcome::Continue)
    }

    /// The pointer was found at a point with the button held, over a window that takes
    /// drops or over none.
    pub fn pointer_held(
        &mut self,
        next_target: u32,
        control: bool,
        x: i16,
        y: i16,
    ) -> (actions: Vec<DragAction>)
        requires
            old(self).wf(),
            !old(self).state.dropped,
        ensures
            final(self).wf(),
            final(self).atoms == old(self).atoms,
            final(self).payload == old(self).payload,
            final(self).increments == old(self).increments,
            final(self).state == after_hold(
                old(self).atoms,
                old(self).state,
                next_target,
                control,
                x,
                y,
            ),
            actions@ == hold_actions(old(self).atoms, old(self).state, next_target, control, x, y),
    {
        let mut actions: Vec<DragAction> = Vec::new();
        let atoms = self.atoms;
        let source = self.state.source;
        let ghost before = self.state;
        if next_target != self.state.target {
            if self.state.target != NONE {
                actions.push(send(self.state.target, atoms.xdnd_leave, source, 0, 0, 0, 0));
            }
            self.state.target = next_target;
            self.state.accepted = false;
            self.state.last_position = None;
            if next_target != NONE {
                actions.push(
                    send(next_target, atoms.xdnd_enter, source, ENTER_VERSION, atoms.uri, 0, 0),
                );
            }
        }
        assert(actions@ =~= target_actions(atoms, before, next_target));
        let action = if self.state.operation == FileTransferOperation::Move && !control {
            atoms.xdnd_action_move
        } else {
            atoms.xdnd_action_copy
        };
        self.state.requested_action = action;
        let point = low_half(x) * 0x1_0000 + low_half(y);
        let known = match self.state.last_position {
            Some(last) => last.point == point && last.action == action,
            None => false,
        };
        if self.state.target != NONE && !known {
            actions.push(
                send(
                    self.state.target,
                    atoms.xdnd_position,
                    source,
                    0,
                    point,
                    self.state.time,
                    action,
                ),
            );
            self.state.last_position = Some(Position { point, action });
        }
        assert(actions@ =~= hold_actions(atoms, before, next_target, control, x, y));
        actions
    }

    /// The pointer moved, or its button was released, at a time.
    pub fn pointer_event(&mut self, time: u32)
        requires
            old(self).wf(),
        ensures
            final(self).wf(),
            final(self).atoms == old(self).atoms,
            final(self).payload == old(self).payload,
            final(self).increments == old(self).increments,
            final(self).state == (DragState { time, ..old(self).state }),
    {
        self.state.time = time;
    }

    /// A key was pressed that stands for some symbols. Escape ends the drag, and the
    /// target is told so if that can be done.
    pub fn key_pressed(&self, keysyms: &Vec<u32>) -> (step: (Vec<DragAction>, DragOutcome))
        ensures
            step.1 == if keysyms@.contains(ESCAPE) {
                DragOutcome::Ended(None)
            } else {
                DragOutcome::Continue
            },
            step.0@ == if keysyms@.contains(ESCAPE) && self.state.target != NONE {
                seq![
                    DragAction::TrySend {
                        target: self.state.target,
                        kind: self.atoms.xdnd_leave,
                        data: MessageData { d0: self.state.source, d1: 0, d2: 0, d3: 0, d4: 0 },
                    },
                ]
            } else {
                Seq::empty()
            },
    {
        let mut actions: Vec<DragAction> = Vec::new();
        let mut i: usize = 0;
        while i < keysyms.len()
            invariant
                i <= keysyms.len(),
                actions@ == Seq::<DragAction>::empty(),
                forall|k: int| 0 <= k < i ==> keysyms@[k] != ESCAPE,
            decreases keysyms.len() - i,
        {
            if keysyms[i] == ESCAPE {
                assert(keysyms@.contains(ESCAPE)) by {
                    assert(keysyms@[i as int] == ESCAPE);
                }
                if self.state.target != NONE {
                    actions.push(
                        DragAction::TrySend {
                            target: self.state.target,
                            kind: self.atoms.xdnd_leave,
                            data: MessageData {
                                d0: self.state.source,
                                d1: 0,
                                d2: 0,
                                d3: 0,
                                d4: 0,
                            },
                        },
                    );
                }
                return (actions, DragOutcome::Ended(None));
            }
            i = i + 1;
        }
        (actions, DragOutcome::Continue)
    }

    /// A client message came in.
    pub fn client_message(&mut self, kind: u32, data: MessageData) -> (outcome: DragOutcome)
        requires
            old(self).wf(),
        ensures
            final(self).wf(),
            final(self).atoms == old(self).atoms,
            final(self).payload == old(self).payload,
            final(self).increments == old(self).increments,
            final(self).state == after_message(old(self).atoms, old(self).state, kind, data),
            outcome == message_outcome(old(self).atoms, old(self).state, kind, data),
    {
        if data.d0 != self.state.target {
            return DragOutcome::Continue;
        }
        if kind == self.atoms.xdnd_status && !self.state.dropped {
            self.state.accepted = data.d1 % 2 == 1 && (data.d4 == self.atoms.xdnd_action_copy
                || data.d4 == self.atoms.xdnd_action_move && self.state.requested_action
                == self.atoms.xdnd_action_move);
            return DragOutcome::Continue;
        }
        if kind == self.atoms.xdnd_finished && self.state.dropped {
            if data.d1 % 2 == 0 {
                return DragOutcome::Ended(None);
            }
            if data.d2 == self.atoms.xdnd_action_copy {
                return DragOutcome::Ended(Some(FileTransferOperation::Copy));
            }
            if data.d2 == self.atoms.xdnd_action_move && self.state.operation
                == FileTransferOperation::Move {
                return DragOutcome::Ended(Some(FileTransferOperation::Move));
            }
            return DragOutcome::Ended(None);
        }
        DragOutcome::Continue
    }

    /// A receiver asked for the selection.
    pub fn selection_request(&mut self, request: SelectionRequest) -> (actions: Vec<DragAction>)
        requires
            old(self).wf(),
        ensures
            final(self).wf(),
            final(self).atoms == old(self).atoms,
            final(self).payload == old(self).payload,
            final(self).state == old(self).state,
            final(self).increments@ == if starts_increment(
                old(self).atoms,
                old(self).payload.len() as nat,
                request,
            ) {
                old(self).increments@.push(
                    Increment {
                        requestor: request.requestor,
                        property: answer_property(request),
                        offset: 0,
                    },
                )
            } else {
                old(self).increments@
            },
            actions@ == request_actions(old(self).atoms, old(self).payload.len() as nat, request),
    {
        let mut actions: Vec<DragAction> = Vec::new();
        let atoms = self.atoms;
        let window = request.requestor;
        if request.selection != atoms.xdnd_selection {
            return actions;
        }
        let property = if request.property == NONE {
            request.target
        } else {
            request.property
        };
        let mut response = NONE;
        if request.target == atoms.targets {
            actions.push(
                DragAction::SetAtoms { window, property, first: atoms.targets, second: atoms.uri },
            );
            response = property;
        } else if request.target == atoms.uri {
            if self.payload.len() <= CHUNK {
                actions.push(
                    DragAction::SetBytes {
                        window,
                        property,
                        kind: atoms.uri,
                        from: 0,
                        to: self.payload.len(),
                    },
                );
            } else {
                actions.push(DragAction::WatchProperties { window });
                actions.push(
                    DragAction::SetNumber {
                        window,
                        property,
                        kind: atoms.incr,
                        number: (self.payload.len() as u64 % 0x1_0000_0000) as u32,
                    },
                );
                self.increments.push(Increment { requestor: window, property, offset: 0 });
            }
            response = property;
        }
        actions.push(
            DragAction::Notify {
                requestor: request.requestor,
                selection: request.selection,
                target: request.target,
                property: response,
                time: request.time,
            },
        );
        assert(actions@ =~= request_actions(atoms, self.payload.len() as nat, request));
        actions
    }

    /// A receiver deleted a property, which asks for the next part of a read that goes
    /// through it.
    pub fn property_deleted(&mut self, window: u32, property: u32) -> (actions: Vec<DragAction>)
        requires
            old(self).wf(),
        ensures
            final(self).wf(),
            final(self).atoms == old(self).atoms,
            final(self).payload == old(self).payload,
            final(self).state == old(self).state,
            final(self).increments@ == after_part(
                old(self).payload.len() as nat,
                old(self).increments@,
                window,
                property,
            ),
            actions@ == part_actions(
                old(self).atoms,
                old(self).payload.len() as nat,
                old(self).increments@,
                window,
                property,
            ),
    {
        let mut actions: Vec<DragAction> = Vec::new();
        let mut at: usize = 0;
        while at < self.increments.len() && !(self.increments[at].requestor == window
            && self.increments[at].property == property)
            invariant
                at <= self.increments.len(),
                forall|i: int|
                    0 <= i < at ==> !((#[trigger] self.increments@[i]).requestor == window
                        && self.increments@[i].property == property),
            decreases self.increments.len() - at,
        {
            at = at + 1;
        }
        proof {
            lemma_increment_for(self.increments@, window, property, at as int);
        }
        if at < self.increments.len() {
            let increment = self.increments[at];
            let offset = increment.offset;
            let len = self.payload.len();
            let end = if len - offset <= CHUNK {
                len
            } else {
                offset + CHUNK
            };
            actions.push(
                DragAction::SetBytes {
                    window,
                    property,
                    kind: self.atoms.uri,
                    from: offset,
                    to: end,
                },
            );
            if offset == len {
                self.increments.remove(at);
            } else {
                self.increments.set(at, Increment { requestor: window, property, offset: end });
            }
        }
        actions
    }

    /// Another application took the selection: the drag ends.
    pub fn selection_cleared(&self) -> (outcome: DragOutcome)
        ensures
            outcome == DragOutcome::Ended(None),
    {
        DragOutcome::Ended(None)
    }
}

/// The completion of a drag that ended, or that stopped on an error.
pub fn drag_completion<E>(
    files: FileTransfer,
    ended: Result<Option<FileTransferOperation>, E>,
) -> (completion: FileTransferCompletion)
    ensures
        completion@ == (CompletionView {
            files: files@,
            operation: match ended {
                Ok(operation) => operation,
                Err(_) => None,
            },
            source_removed: false,
        }),
{
    let operation = match ended {
        Ok(operation) => operation,
        Err(_) => None,
    };
    FileTransferCompletion { files, operation, source_removed: false }
}

// ---------------------------------------------------------------------------
// Laws

/// The parts, each from one offset to another, that a read hands over from an offset
/// on.
pub open spec fn parts_from(payload_len: nat, offset: nat) -> Seq<(nat, nat)>
    decreases payload_len - offset,
{
    if offset >= payload_len {
        seq![(offset, offset)]
    } else {
        seq![(offset, part_end(payload_len, offset))] + parts_from(
            payload_len,
            part_end(payload_len, offset),
        )
    }
}

/// The bytes of some parts of a file list, one after the other.
pub open spec fn bytes_of_parts(payload: Seq<u8>, parts: Seq<(nat, nat)>) -> Seq<u8>
    decreases parts.len(),
{
    if parts.len() == 0 {
        Seq::empty()
    } else {
        payload.subrange(parts[0].0 as int, parts[0].1 as int) + bytes_of_parts(
            payload,
            parts.skip(1),
        )
    }
}

/// A read in parts hands over the whole file list, in order: no part is longer than a
/// property may be, and an empty part at the end, and nowhere else, says that it is
/// complete.
pub proof fn law_parts_make_up_the_payload(payload: Seq<u8>, offset: nat)
    requires
        offset <= payload.len(),
    ensures
        bytes_of_parts(payload, parts_from(payload.len(), offset)) == payload.skip(offset as int),
        parts_from(payload.len(), offset).len() > 0,
        parts_from(payload.len(), offset).last() == (payload.len(), payload.len()),
        forall|i: int|
            0 <= i < parts_from(payload.len(), offset).len() - 1 ==> 0 < (
            #[trigger] parts_from(payload.len(), offset)[i]).1 - parts_from(
                payload.len(),
                offset,
            )[i].0 <= CHUNK,
    decreases payload.len() - offset,
{
    let parts = parts_from(payload.len(), offset);
    if offset == payload.len() {
        assert(parts.skip(1) =~= Seq::empty());
        assert(bytes_of_parts(payload, parts.skip(1)) =~= Seq::empty());
        assert(bytes_of_parts(payload, parts) =~= payload.skip(offset as int));
    } else {
        let end = part_end(payload.len(), offset);
        let rest = parts_from(payload.len(), end);
        law_parts_make_up_the_payload(payload, end);
        assert(parts.skip(1) =~= rest);
        assert(bytes_of_parts(payload, parts) =~= payload.skip(offset as int));
        assert forall|i: int| 0 <= i < parts.len() - 1 implies 0 < (#[trigger] parts[i]).1
            - parts[i].0 <= CHUNK by {
            if i > 0 {
                assert(parts[i] == rest[i - 1]);
            }
        }
    }
}

/// Each deletion of the property hands over the first of the parts that a read has
/// left, and leaves the others for the next deletions; the read is over when none is
/// left.
pub proof fn law_deletion_hands_over_the_next_part(
    atoms: Atoms,
    payload_len: nat,
    increments: Seq<Increment>,
    at: int,
)
    requires
        payload_len <= usize::MAX,
        0 <= at < increments.len(),
        increments[at].offset <= payload_len,
        at == increment_for(increments, increments[at].requestor, increments[at].property),
    ensures
        ({
            let read = increments[at];
            let left = parts_from(payload_len, read.offset as nat);
            let after = after_part(payload_len, increments, read.requestor, read.property);
            &&& part_actions(atoms, payload_len, increments, read.requestor, read.property) == seq![
                DragAction::SetBytes {
                    window: read.requestor,
                    property: read.property,
                    kind: atoms.uri,
                    from: left[0].0 as usize,
                    to: left[0].1 as usize,
                },
            ]
            &&& left.len() == 1 ==> after == increments.remove(at)
            &&& left.len() > 1 ==> after.len() == increments.len() && parts_from(
                payload_len,
                after[at].offset as nat,
            ) == left.skip(1)
        }),
{
    let read = increments[at];
    let left = parts_from(payload_len, read.offset as nat);
    if read.offset < payload_len {
        let end = part_end(payload_len, read.offset as nat);
        assert(left.skip(1) =~= parts_from(payload_len, end));
        assert(parts_from(payload_len, end).len() > 0);
    }
}

/// The window that has been entered and not left, after some messages.
pub open spec fn entered_window(atoms: Atoms, entered: u32, actions: Seq<DragAction>) -> u32
    decreases actions.len(),
{
    if actions.len() == 0 {
        entered
    } else {
        let before = entered_window(atoms, entered, actions.drop_last());
        match actions.last() {
            DragAction::Send { target, kind, .. } => if kind == atoms.xdnd_enter {
                target
            } else if kind == atoms.xdnd_leave {
                NONE
            } else {
                before
            },
            _ => before,
        }
    }
}

/// The window that was told of the drag last and not told that it left is always the
/// target: each window is left before another is entered, and is told of positions
/// only while it is entered.
pub proof fn law_entered_window_is_the_target(
    atoms: Atoms,
    state: DragState,
    next_target: u32,
    control: bool,
    x: i16,
    y: i16,
)
    requires
        atoms.xdnd_enter != atoms.xdnd_leave,
        atoms.xdnd_position != atoms.xdnd_enter,
        atoms.xdnd_position != atoms.xdnd_leave,
    ensures
        entered_window(
            atoms,
            state.target,
            hold_actions(atoms, state, next_target, control, x, y),
        ) == after_hold(atoms, state, next_target, control, x, y).target,
{
    let actions = hold_actions(atoms, state, next_target, control, x, y);
    reveal_with_fuel(entered_window, 5);
    if actions.len() > 0 {
        assert(actions.drop_last().len() == actions.len() - 1);
        if actions.len() > 1 {
            assert(actions.drop_last().drop_last().len() == actions.len() - 2);
        }
    }
}

/// A drag reports a move only where one was asked for and the receiver says, after the
/// drop, that it moved; a drop goes only to a target that said it would take it.
pub proof fn law_receiver_decides(
    atoms: Atoms,
    state: DragState,
    kind: u32,
    data: MessageData,
)
    ensures
        message_outcome(atoms, state, kind, data) == DragOutcome::Ended(
            Some(FileTransferOperation::Move),
        ) ==> state.dropped && state.operation == FileTransferOperation::Move && data.d2
            == atoms.xdnd_action_move && data.d0 == state.target,
        release_actions(atoms, state).len() > 0 ==> state.accepted && state.target != NONE,
        message_outcome(atoms, state, kind, data) is Ended ==> state.dropped,
{
}

/// What moves a drag on.
pub enum DragEvent {
    /// The button was found released.
    Released { now: u64 },
    /// The pointer was found over a window with the button held.
    Held { next_target: u32, control: bool, x: i16, y: i16 },
    /// The pointer moved, or its button was released, at a time.
    Pointer { time: u32 },
    /// A client message came in.
    Message { kind: u32, data: MessageData },
}

/// A drag after an event. The pointer decides nothing once the files were dropped.
pub open spec fn after_drag_event(atoms: Atoms, state: DragState, event: DragEvent) -> DragState {
    match event {
        DragEvent::Released { now } => if state.dropped {
            state
        } else {
            after_release(state, now)
        },
        DragEvent::Held { next_target, control, x, y } => if state.dropped {
            state
        } else {
            after_hold(atoms, state, next_target, control, x, y)
        },
        DragEvent::Pointer { time } => DragState { time, ..state },
        DragEvent::Message { kind, data } => after_message(atoms, state, kind, data),
    }
}

/// What is done at an event.
pub open spec fn event_actions(atoms: Atoms, state: DragState, event: DragEvent) -> Seq<
    DragAction,
> {
    match event {
        DragEvent::Released { .. } => if state.dropped {
            Seq::empty()
        } else {
            release_actions(atoms, state)
        },
        DragEvent::Held { next_target, control, x, y } => if state.dropped {
            Seq::empty()
        } else {
            hold_actions(atoms, state, next_target, control, x, y)
        },
        _ => Seq::empty(),
    }
}

/// A drag after the events of its life so far.
pub open spec fn after_drag_events(
    atoms: Atoms,
    source: u32,
    operation: FileTransferOperation,
    events: Seq<DragEvent>,
) -> DragState
    decreases events.len(),
{
    if events.len() == 0 {
        new_drag(source, operation)
    } else {
        after_drag_event(
            atoms,
            after_drag_events(atoms, source, operation, events.drop_last()),
            events.last(),
        )
    }
}

/// What was done in the life of a drag so far.
pub open spec fn all_actions(
    atoms: Atoms,
    source: u32,
    operation: FileTransferOperation,
    events: Seq<DragEvent>,
) -> Seq<DragAction>
    decreases events.len(),
{
    if events.len() == 0 {
        Seq::empty()
    } else {
        all_actions(atoms, source, operation, events.drop_last()) + event_actions(
            atoms,
            after_drag_events(atoms, source, operation, events.drop_last()),
            events.last(),
        )
    }
}

proof fn lemma_entered_in_turn(
    atoms: Atoms,
    entered: u32,
    first: Seq<DragAction>,
    second: Seq<DragAction>,
)
    ensures
        entered_window(atoms, entered, first + second) == entered_window(
            atoms,
            entered_window(atoms, entered, first),
            second,
        ),
    decreases second.len(),
{
    if second.len() == 0 {
        assert(first + second =~= first);
    } else {
        assert((first + second).drop_last() =~= first + second.drop_last());
        lemma_entered_in_turn(atoms, entered, first, second.drop_last());
    }
}

/// Throughout a drag the one window that has been entered and not left is the target,
/// the files were dropped only on a target that said it would take them, and the
/// operation that was asked for stays what it was.
pub proof fn law_only_accepting_targets_get_the_drop(
    atoms: Atoms,
    source: u32,
    operation: FileTransferOperation,
    events: Seq<DragEvent>,
)
    requires
        atoms.xdnd_enter != atoms.xdnd_leave,
        atoms.xdnd_position != atoms.xdnd_enter,
        atoms.xdnd_position != atoms.xdnd_leave,
        atoms.xdnd_drop != atoms.xdnd_enter,
        atoms.xdnd_drop != atoms.xdnd_leave,
    ensures
        ({
            let state = after_drag_events(atoms, source, operation, events);
            &&& state.source == source
            &&& state.operation == operation
            &&& state.dropped ==> state.accepted && state.target != NONE
            &&& entered_window(atoms, NONE, all_actions(atoms, source, operation, events))
                == state.target
        }),
    decreases events.len(),
{
    if events.len() > 0 {
        let before = events.drop_last();
        let event = events.last();
        let state = after_drag_events(atoms, source, operation, before);
        let actions = event_actions(atoms, state, event);
        law_only_accepting_targets_get_the_drop(atoms, source, operation, before);
        lemma_entered_in_turn(
            atoms,
            NONE,
            all_actions(atoms, source, operation, before),
            actions,
        );
        match event {
            DragEvent::Held { next_target, control, x, y } => {
                if !state.dropped {
                    law_entered_window_is_the_target(atoms, state, next_target, control, x, y);
                }
            },
            _ => {
                reveal_with_fuel(entered_window, 3);
                if actions.len() > 0 {
                    assert(actions.drop_last().len() == 1);
                    assert(actions.drop_last().drop_last().len() == 0);
                }
            },
        }
    }
}

/// The search walks down from the root window: the window after each one is its child under
/// the pointer. It stops where there is no child, where the child is the source, and once it
/// has looked at 64 windows.
pub proof fn law_search_walks_down(
    root: u32,
    source: u32,
    replies: Seq<WindowReply>,
    reply: WindowReply,
)
    requires
        replies.len() < 64,
    ensures
        visited_window(root, source, replies, 0) == root,
        forall|i: int|
            0 <= i < replies.len() && replies[i].child != 0 && replies[i].child != source
                ==> #[trigger] visited_window(root, source, replies, i + 1) == replies[i].child,
        search_after(root, source, replies).visited == replies.len(),
        search_goes_on(search_after(root, source, replies), reply) <==> reply.child != 0
            && reply.child != source && replies.len() + 1 < 64,
    decreases replies.len(),
{
    assert(replies.take(0) =~= Seq::empty());
    law_search_finds_deepest_aware_window(root, source, replies);
    assert forall|i: int|
        0 <= i < replies.len() && replies[i].child != 0 && replies[i].child
            != source implies #[trigger] visited_window(root, source, replies, i + 1)
        == replies[i].child by {
        let front = replies.take(i + 1);
        assert(front.drop_last() =~= replies.take(i));
        assert(front.last() == replies[i]);
        law_search_finds_deepest_aware_window(root, source, replies.take(i));
    }
    if replies.len() > 0 {
        law_search_walks_down(root, source, replies.drop_last(), reply);
    }
}

/// Messages go to another window than the target only where the target names that window
/// and the window names itself; where both do, they go there, whichever target named it. No
/// proxy stands for a missing target.
pub proof fn law_proxies_name_themselves(
    target: u32,
    other: u32,
    proxy: Option<u32>,
    proxy_of_proxy: Option<u32>,
)
    ensures
        ({
            let window = message_window(target, proxy, proxy_of_proxy);
            &&& target == 0 ==> window == 0
            &&& window != target ==> proxy == Some(window) && proxy_of_proxy == Some(window)
            &&& target != 0 && proxy is Some && proxy == proxy_of_proxy ==> Some(window) == proxy
                && (other != 0 ==> message_window(other, proxy, proxy_of_proxy) == window)
        }),
{
}

/// The number that 16 bits of two's complement stand for.
pub open spec fn signed_half(bits: int) -> int {
    if bits < 0x8000 {
        bits
    } else {
        bits - 0x1_0000
    }
}

/// Both coordinates can be read from a packed point: the horizontal one from its upper half,
/// the vertical one from its lower half. Different points are different numbers.
pub proof fn law_packed_points_hold_both_coordinates(x: i16, y: i16, other_x: i16, other_y: i16)
    ensures
        signed_half(packed_point(x, y) as int / 0x1_0000) == x,
        signed_half(packed_point(x, y) as int % 0x1_0000) == y,
        packed_point(x, y) == packed_point(other_x, other_y) <==> x == other_x && y == other_y,
{
    let high = x as int % 0x1_0000;
    let low = y as int % 0x1_0000;
    assert(0 <= high < 0x1_0000 && 0 <= low < 0x1_0000);
    assert(packed_point(x, y) == high * 0x1_0000 + low);
    let other_high = other_x as int % 0x1_0000;
    let other_low = other_y as int % 0x1_0000;
    assert(packed_point(other_x, other_y) == other_high * 0x1_0000 + other_low);
}

/// A target is asked for a move exactly where the files were offered for moving and the
/// control key is up, and for a copy everywhere else.
pub proof fn law_control_turns_a_move_into_a_copy(
    atoms: Atoms,
    state: DragState,
    next_target: u32,
    control: bool,
    x: i16,
    y: i16,
)
    requires
        atoms.xdnd_action_copy != atoms.xdnd_action_move,
    ensures
        ({
            let asked = after_hold(atoms, state, next_target, control, x, y).requested_action;
            &&& asked == atoms.xdnd_action_move || asked == atoms.xdnd_action_copy
            &&& asked == atoms.xdnd_action_move <==> state.operation == FileTransferOperation::Move
                && !control
        }),
{
}

/// A pointer that is held over a window makes that window the target. Only a change of target
/// takes an earlier acceptance back, and nothing else that the drag is about changes. While the
/// pointer stays over no window, nobody is told anything.
pub proof fn law_held_pointer_chooses_the_target(
    atoms: Atoms,
    state: DragState,
    next_target: u32,
    control: bool,
    x: i16,
    y: i16,
)
    ensures
        ({
            let after = after_hold(atoms, state, next_target, control, x, y);
            &&& after.target == next_target
            &&& after.accepted <==> state.accepted && next_target == state.target
            &&& after.source == state.source && after.operation == state.operation
            &&& after.time == state.time && after.dropped == state.dropped
            &&& after.released_at == state.released_at
            &&& next_target == 0 && state.target == 0 ==> hold_actions(
                atoms,
                state,
                next_target,
                control,
                x,
                y,
            ).len() == 0
        }),
{
}

/// What a change of target tells: the old target, if there is one, that it is left, before
/// the new one, if there is one, that it is entered, by protocol version 5 and with the one
/// type that is offered, and then where the pointer is. Every message names the source, and
/// there are no others.
pub proof fn law_change_of_target_is_told(
    atoms: Atoms,
    state: DragState,
    next_target: u32,
    control: bool,
    x: i16,
    y: i16,
)
    requires
        next_target != state.target,
    ensures
        ({
            let told = hold_actions(atoms, state, next_target, control, x, y);
            let leave = DragAction::Send {
                target: state.target,
                kind: atoms.xdnd_leave,
                data: MessageData { d0: state.source, d1: 0, d2: 0, d3: 0, d4: 0 },
            };
            let enter = DragAction::Send {
                target: next_target,
                kind: atoms.xdnd_enter,
                data: MessageData { d0: state.source, d1: 0x500_0000, d2: atoms.uri, d3: 0, d4: 0 },
            };
            &&& state.target != 0 ==> told.len() > 0 && told[0] == leave
            &&& next_target != 0 ==> told.len() > 1 && told[told.len() - 2] == enter && told.last()
                == (DragAction::Send {
                target: next_target,
                kind: atoms.xdnd_position,
                data: MessageData {
                    d0: state.source,
                    d1: 0,
                    d2: packed_point(x, y),
                    d3: state.time,
                    d4: if state.operation == FileTransferOperation::Move && !control {
                        atoms.xdnd_action_move
                    } else {
                        atoms.xdnd_action_copy
                    },
                },
            })
            &&& told.len() == (if state.target != 0 {
                1int
            } else {
                0
            }) + (if next_target != 0 {
                2int
            } else {
                0
            })
        }),
{
}

/// While the pointer stays over one target, the target is told exactly of what is new: where
/// neither the point nor the action differ from the last call there is nothing to tell, and
/// else one message carries the point and the action of this call, with the time of the last
/// pointer event.
pub proof fn law_moves_within_a_target_are_told(
    atoms: Atoms,
    state: DragState,
    target: u32,
    control: bool,
    x: i16,
    y: i16,
    next_control: bool,
    next_x: i16,
    next_y: i16,
)
    requires
        target != 0,
        atoms.xdnd_action_copy != atoms.xdnd_action_move,
    ensures
        ({
            let over = after_hold(atoms, state, target, control, x, y);
            let told = hold_actions(atoms, over, target, next_control, next_x, next_y);
            let moves = state.operation == FileTransferOperation::Move;
            if x == next_x && y == next_y && (control == next_control || !moves) {
                told == Seq::<DragAction>::empty()
            } else {
                told == seq![
                    DragAction::Send {
                        target,
                        kind: atoms.xdnd_position,
                        data: MessageData {
                            d0: state.source,
                            d1: 0,
                            d2: packed_point(next_x, next_y),
                            d3: state.time,
                            d4: if moves && !next_control {
                                atoms.xdnd_action_move
                            } else {
                                atoms.xdnd_action_copy
                            },
                        },
                    },
                ]
            }
        }),
{
    law_packed_points_hold_both_coordinates(x, y, next_x, next_y);
    let over = after_hold(atoms, state, target, control, x, y);
    let told = hold_actions(atoms, over, target, next_control, next_x, next_y);
    if told.len() == 0 {
        assert(told =~= Seq::<DragAction>::empty());
    } else {
        assert(told =~= seq![told[0]]);
    }
}

/// The position and action that a window was told last since it was entered, where `told` is
/// what it was told before the messages.
pub open spec fn last_told(
    atoms: Atoms,
    window: u32,
    told: Option<Position>,
    actions: Seq<DragAction>,
) -> Option<Position>
    decreases actions.len(),
{
    if actions.len() == 0 {
        told
    } else {
        let before = last_told(atoms, window, told, actions.drop_last());
        match actions.last() {
            DragAction::Send { target, kind, data } => if target != window {
                before
            } else if kind == atoms.xdnd_enter || kind == atoms.xdnd_leave {
                None
            } else if kind == atoms.xdnd_position {
                Some(Position { point: data.d2, action: data.d4 })
            } else {
                before
            },
            _ => before,
        }
    }
}

proof fn lemma_told_in_turn(
    atoms: Atoms,
    window: u32,
    told: Option<Position>,
    first: Seq<DragAction>,
    second: Seq<DragAction>,
)
    ensures
        last_told(atoms, window, told, first + second) == last_told(
            atoms,
            window,
            last_told(atoms, window, told, first),
            second,
        ),
    decreases second.len(),
{
    if second.len() == 0 {
        assert(first + second =~= first);
    } else {
        assert((first + second).drop_last() =~= first + second.drop_last());
        lemma_told_in_turn(atoms, window, told, first, second.drop_last());
    }
}

/// Whether the messages of a drag can be told apart.
pub open spec fn distinct_messages(atoms: Atoms) -> bool {
    &&& atoms.xdnd_enter != atoms.xdnd_leave
    &&& atoms.xdnd_position != atoms.xdnd_enter
    &&& atoms.xdnd_position != atoms.xdnd_leave
    &&& atoms.xdnd_drop != atoms.xdnd_enter
    &&& atoms.xdnd_drop != atoms.xdnd_leave
    &&& atoms.xdnd_drop != atoms.xdnd_position
}

proof fn lemma_told_by_hold(
    atoms: Atoms,
    state: DragState,
    told: Option<Position>,
    next_target: u32,
    control: bool,
    x: i16,
    y: i16,
)
    requires
        distinct_messages(atoms),
        next_target != NONE,
        next_target == state.target ==> told == state.last_position,
    ensures
        last_told(
            atoms,
            next_target,
            told,
            hold_actions(atoms, state, next_target, control, x, y),
        ) == after_hold(atoms, state, next_target, control, x, y).last_position,
{
    let actions = hold_actions(atoms, state, next_target, control, x, y);
    reveal_with_fuel(last_told, 5);
    if actions.len() > 0 {
        assert(actions.drop_last().len() == actions.len() - 1);
        if actions.len() > 1 {
            assert(actions.drop_last().drop_last().len() == actions.len() - 2);
        }
    }
}

proof fn lemma_last_position_is_told(
    atoms: Atoms,
    source: u32,
    operation: FileTransferOperation,
    events: Seq<DragEvent>,
)
    requires
        distinct_messages(atoms),
    ensures
        ({
            let state = after_drag_events(atoms, source, operation, events);
            state.target != NONE ==> last_told(
                atoms,
                state.target,
                None,
                all_actions(atoms, source, operation, events),
            ) == state.last_position
        }),
    decreases events.len(),
{
    if events.len() > 0 {
        let before = events.drop_last();
        let state = after_drag_events(atoms, source, operation, before);
        let after = after_drag_events(atoms, source, operation, events);
        let done = all_actions(atoms, source, operation, before);
        let actions = event_actions(atoms, state, events.last());
        lemma_last_position_is_told(atoms, source, operation, before);
        lemma_told_in_turn(atoms, after.target, None, done, actions);
        match events.last() {
            DragEvent::Held { next_target, control, x, y } => {
                if !state.dropped && next_target != NONE {
                    let told = last_told(atoms, next_target, None, done);
                    lemma_told_by_hold(atoms, state, told, next_target, control, x, y);
                }
            },
            _ => {
                reveal_with_fuel(last_told, 3);
                if actions.len() > 0 {
                    assert(actions.drop_last().len() == 1);
                    assert(actions.drop_last().drop_last().len() == 0);
                }
            },
        }
    }
}

/// Whatever happened before, a target over which the pointer is held knows where the pointer
/// is and what it is asked for: the last position that it was told since it was entered is
/// that of this very moment.
pub proof fn law_target_knows_the_current_position(
    atoms: Atoms,
    source: u32,
    operation: FileTransferOperation,
    events: Seq<DragEvent>,
    target: u32,
    control: bool,
    x: i16,
    y: i16,
)
    requires
        distinct_messages(atoms),
        target != 0,
        !after_drag_events(atoms, source, operation, events).dropped,
    ensures
        ({
            let held = events.push(DragEvent::Held { next_target: target, control, x, y });
            let told = last_told(
                atoms,
                target,
                None,
                all_actions(atoms, source, operation, held),
            );
            &&& told is Some
            &&& signed_half(told->0.point as int / 0x1_0000) == x
            &&& signed_half(told->0.point as int % 0x1_0000) == y
            &&& told->0.action == if operation == FileTransferOperation::Move && !control {
                atoms.xdnd_action_move
            } else {
                atoms.xdnd_action_copy
            }
        }),
{
    let event = DragEvent::Held { next_target: target, control, x, y };
    let held = events.push(event);
    assert(held.drop_last() =~= events);
    assert(held.last() == event);
    lemma_last_position_is_told(atoms, source, operation, held);
    law_only_accepting_targets_get_the_drop(atoms, source, operation, events);
    law_packed_points_hold_both_coordinates(x, y, x, y);
}

/// The target's latest status decides whether it would take the drop. With the accept bit set,
/// a copy is always taken, since a target that is asked for a move may fall back to it, and a
/// move exactly where one was requested; any other action, or the accept bit cleared, is a
/// refusal. Until the drop only the target's status says so, and after the drop nothing does.
pub proof fn law_status_decides_acceptance(
    atoms: Atoms,
    state: DragState,
    kind: u32,
    data: MessageData,
)
    requires
        atoms.xdnd_action_copy != atoms.xdnd_action_move,
    ensures
        ({
            let after = after_message(atoms, state, kind, data);
            let heard = kind == atoms.xdnd_status && data.d0 == state.target && !state.dropped;
            &&& heard && data.d1 % 2 == 1 && data.d4 == atoms.xdnd_action_copy ==> after.accepted
            &&& heard && data.d1 % 2 == 1 && data.d4 == atoms.xdnd_action_move ==> (after.accepted
                <==> state.requested_action == atoms.xdnd_action_move)
            &&& heard && data.d4 != atoms.xdnd_action_copy && data.d4 != atoms.xdnd_action_move
                ==> !after.accepted
            &&& heard && data.d1 % 2 == 0 ==> !after.accepted
            &&& !heard ==> after == state
            &&& after == DragState { accepted: after.accepted, ..state }
        }),
{
}

/// A drop that the target reports as finished ends the drag, whatever the target says of it:
/// in a copy where it accepted a copy, in a move where it accepted a move of files that were
/// offered for moving, and in nothing else. No other message ends a drag.
pub proof fn law_finished_drop_ends_the_drag(
    atoms: Atoms,
    state: DragState,
    kind: u32,
    data: MessageData,
)
    requires
        atoms.xdnd_action_copy != atoms.xdnd_action_move,
    ensures
        ({
            let outcome = message_outcome(atoms, state, kind, data);
            let heard = kind == atoms.xdnd_finished && data.d0 == state.target && state.dropped;
            &&& outcome is Ended <==> heard
            &&& outcome == DragOutcome::Ended(Some(FileTransferOperation::Copy)) <==> heard
                && data.d1 % 2 == 1 && data.d2 == atoms.xdnd_action_copy
            &&& outcome == DragOutcome::Ended(Some(FileTransferOperation::Move)) <==> heard
                && data.d1 % 2 == 1 && data.d2 == atoms.xdnd_action_move && state.operation
                == FileTransferOperation::Move
        }),
{
}

/// A released button drops the files on a target that would take them, at once and with the
/// time of the last pointer event, and lets go of the pointer. Without a target the drag ends.
/// A target that has not said that it would take them has 250 milliseconds from the moment
/// when the release was first seen, and nothing is done until then.
pub proof fn law_release_drops_or_waits(atoms: Atoms, state: DragState, now: u64, later: u64)
    ensures
        ({
            let after = after_release(state, now);
            let done = release_actions(atoms, state);
            &&& state.target == 0 ==> release_ends(state, now) && done.len() == 0 && after == state
            &&& state.target != 0 && state.accepted ==> {
                &&& !release_ends(state, now)
                &&& after.dropped
                &&& done.len() == 2
                &&& done[0] == (DragAction::Send {
                    target: state.target,
                    kind: atoms.xdnd_drop,
                    data: MessageData { d0: state.source, d1: 0, d2: state.time, d3: 0, d4: 0 },
                })
                &&& done[1] == DragAction::Ungrab
            }
            &&& state.target != 0 && !state.accepted ==> done.len() == 0 && !after.dropped
            &&& state.target != 0 && !state.accepted && state.released_at is None ==> {
                &&& !release_ends(state, now)
                &&& release_ends(after, later) <==> later - now > 250_000_000
                &&& after_release(after, later) == after
            }
            &&& after.target == state.target && after.accepted == state.accepted
            &&& after.source == state.source && after.operation == state.operation
            &&& after.time == state.time && after.last_position == state.last_position
            &&& after.requested_action == state.requested_action
        }),
{
}

/// Every request for the dragged selection, and no request for another one, is answered: the
/// last thing done is to notify the requestor, by its own selection, target and time. The
/// answer names a property exactly where the target is one of the two that are offered.
/// Requestors of old, which name no property, are answered as if they had named the target.
pub proof fn law_requests_are_answered(atoms: Atoms, payload_len: nat, request: SelectionRequest)
    ensures
        ({
            let done = request_actions(atoms, payload_len, request);
            let offered = request.target == atoms.targets || request.target == atoms.uri;
            let named = SelectionRequest { property: request.target, ..request };
            &&& request.selection != atoms.xdnd_selection ==> done.len() == 0 && !starts_increment(
                atoms,
                payload_len,
                request,
            )
            &&& request.selection == atoms.xdnd_selection ==> done.len() > 0 && done.last() == (
            DragAction::Notify {
                requestor: request.requestor,
                selection: request.selection,
                target: request.target,
                property: if !offered {
                    0
                } else if request.property != 0 {
                    request.property
                } else {
                    request.target
                },
                time: request.time,
            })
            &&& forall|i: int| 0 <= i < done.len() - 1 ==> !(#[trigger] done[i] is Notify)
            &&& request.property == 0 ==> done == request_actions(atoms, payload_len, named)
        }),
{
    let named = SelectionRequest { property: request.target, ..request };
    assert(request_actions(atoms, payload_len, request).len() <= 3);
    if request.property == 0 {
        assert(answer_property(named) == answer_property(request));
        assert(request_actions(atoms, payload_len, request) =~= request_actions(
            atoms,
            payload_len,
            named,
        ));
    }
}

/// What a request is handed before it is notified, all of it in the requestor's property: the
/// two targets on offer, or the whole file list, where that fits into 64 KiB. A longer list
/// is announced by its length and starts a read in parts; nothing else does.
pub proof fn law_requests_are_handed_what_they_ask_for(
    atoms: Atoms,
    payload_len: nat,
    request: SelectionRequest,
)
    requires
        request.selection == atoms.xdnd_selection,
        atoms.targets != atoms.uri,
        payload_len <= usize::MAX,
    ensures
        ({
            let done = request_actions(atoms, payload_len, request);
            let window = request.requestor;
            let property = if request.property != 0 {
                request.property
            } else {
                request.target
            };
            &&& starts_increment(atoms, payload_len, request) <==> request.target == atoms.uri
                && payload_len > 65536
            &&& request.target == atoms.targets ==> done.len() == 2 && done[0] == (
            DragAction::SetAtoms { window, property, first: atoms.targets, second: atoms.uri })
            &&& request.target == atoms.uri && payload_len <= 65536 ==> done.len() == 2 && done[0]
                == (DragAction::SetBytes {
                window,
                property,
                kind: atoms.uri,
                from: 0,
                to: payload_len as usize,
            })
            &&& request.target == atoms.uri && payload_len > 65536 ==> done.len() == 3 && done[0]
                == (DragAction::WatchProperties { window }) && done[1] == (DragAction::SetNumber {
                window,
                property,
                kind: atoms.incr,
                number: (payload_len % 0x1_0000_0000) as u32,
            })
            &&& request.target != atoms.uri && request.target != atoms.targets ==> done.len() == 1
        }),
{
}

/// A deleted property belongs to the read that goes through this property of this window, the
/// first one where there are several. It moves that read on and leaves all others alone; where
/// there is no such read, nothing is done.
pub proof fn law_deletion_moves_one_read_on(
    atoms: Atoms,
    payload_len: nat,
    increments: Seq<Increment>,
    window: u32,
    property: u32,
)
    ensures
        ({
            let at = increment_for(increments, window, property);
            let after = after_part(payload_len, increments, window, property);
            let done = part_actions(atoms, payload_len, increments, window, property);
            &&& 0 <= at <= increments.len()
            &&& forall|i: int|
                0 <= i < at ==> (#[trigger] increments[i]).requestor != window
                    || increments[i].property != property
            &&& at < increments.len() ==> increments[at].requestor == window
                && increments[at].property == property && done.len() == 1
            &&& at == increments.len() ==> after == increments && done.len() == 0
            &&& at < increments.len() && increments[at].offset == payload_len ==> after
                == increments.remove(at)
            &&& at < increments.len() && increments[at].offset != payload_len ==> {
                &&& after.len() == increments.len()
                &&& forall|i: int|
                    0 <= i < increments.len() && i != at ==> #[trigger] after[i] == increments[i]
                &&& after[at].requestor == window && after[at].property == property
            }
        }),
    decreases increments.len(),
{
    if increments.len() > 0 && !(increments[0].requestor == window && increments[0].property
        == property) {
        let rest = increments.skip(1);
        law_deletion_moves_one_read_on(atoms, payload_len, rest, window, property);
        let at = increment_for(increments, window, property);
        assert(at == 1 + increment_for(rest, window, property));
        assert forall|i: int| 0 <= i < at implies (#[trigger] increments[i]).requestor != window
            || increments[i].property != property by {
            if i > 0 {
                assert(increments[i] == rest[i - 1]);
            }
        }
        assert(at < increments.len() ==> increments[at] == rest[at - 1]);
    }
}

/// A part of a read is as long as a property may be, 64 KiB, unless less than that is left;
/// then it is all that is left.
pub proof fn law_parts_are_as_long_as_can_be(payload_len: nat, offset: nat)
    requires
        offset <= payload_len,
    ensures
        offset <= part_end(payload_len, offset) <= payload_len,
        part_end(payload_len, offset) - offset <= 65536,
        part_end(payload_len, offset) < payload_len ==> part_end(payload_len, offset) - offset
            == 65536,
{
}

/// A drag begins over no window, with nothing accepted, dropped or told, for the files'
/// operation.
pub proof fn law_new_drag_is_over_nothing(source: u32, operation: FileTransferOperation)
    ensures
        ({
            let state = new_drag(source, operation);
            &&& state.source == source && state.operation == operation
            &&& state.target == 0 && !state.accepted && !state.dropped
            &&& state.released_at is None && state.last_position is None && state.time == 0
            &&& state.requested_action == 0
        }),
{
}

} // verus!
