//! Where queued tasks run on Windows, and for how long.

use vstd::prelude::*;

verus! {

/// How urgent a task is.
#[derive(Clone, Copy, Debug, PartialEq, Eq, Structural)]
pub enum Priority {
    /// Audio, which has a thread of its own.
    RealtimeAudio,
    High,
    Medium,
    Low,
}

/// Priorities of the thread pool.
#[derive(Clone, Copy, Debug, PartialEq, Eq, Structural)]
pub enum ThreadpoolPriority {
    High,
    Normal,
    Low,
}

/// What comes of handing a task to the main thread.
#[derive(Clone, Copy, Debug, PartialEq, Eq, Structural)]
pub enum MainDispatch {
    /// Wake the main thread with a message that carries this number.
    PostWake(usize),
    /// The main thread has a wake waiting already.
    WakePending,
    /// The main thread is gone. The task may not be dropped on this thread, so it
    /// must be forgotten.
    ForgetTask,
}

/// The state by which tasks reach the main thread.
#[derive(Clone, Copy, Debug, PartialEq, Eq, Structural)]
pub struct WindowsDispatcher {
    /// Whether a wake is posted that the ordinary message loop has not taken.
    pub wake_posted: bool,
    /// The thread that runs foreground tasks.
    pub main_thread_id: u64,
    /// The number that marks wakes as this application's own.
    pub validation_number: usize,
}

impl WindowsDispatcher {
    /// A dispatcher for the main thread, with no wake posted.
    pub fn new(main_thread_id: u64, validation_number: usize) -> (dispatcher: WindowsDispatcher)
        ensures
            dispatcher == (WindowsDispatcher {
                wake_posted: false,
                main_thread_id,
                validation_number,
            }),
    {
        WindowsDispatcher { wake_posted: false, main_thread_id, validation_number }
    }

    /// Whether a thread is the main thread.
    pub fn is_main_thread(&self, thread_id: u64) -> (main: bool)
        ensures
            main == (thread_id == self.main_thread_id),
    {
        thread_id == self.main_thread_id
    }

    /// The thread pool's priority for a task. Realtime audio has threads of its own
    /// and never goes through the pool.
    pub fn dispatch(priority: Priority) -> (pool: ThreadpoolPriority)
        requires
            priority != Priority::RealtimeAudio,
        ensures
            priority == Priority::High <==> pool == ThreadpoolPriority::High,
            priority == Priority::Medium <==> pool == ThreadpoolPriority::Normal,
            priority == Priority::Low <==> pool == ThreadpoolPriority::Low,
    {
        match priority {
            Priority::High => ThreadpoolPriority::High,
            Priority::Medium => ThreadpoolPriority::Normal,
            _ => ThreadpoolPriority::Low,
        }
    }

    /// Decides what follows once a task was queued for the main thread, or could
    /// not be: only the first task after the main thread last took its wake posts a
    /// new one.
    pub fn dispatch_on_main_thread(&mut self, queued: bool) -> (what: MainDispatch)
        ensures
            (*final(self), what) == dispatch_step(*old(self), queued),
    {
        if !queued {
            return MainDispatch::ForgetTask;
        }
        let posted = self.wake_posted;
        self.wake_posted = true;
        if posted {
            MainDispatch::WakePending
        } else {
            MainDispatch::PostWake(self.validation_number)
        }
    }

    /// The ordinary message loop takes the wake.
    pub fn take_wake(&mut self)
        ensures
            *final(self) == (WindowsDispatcher { wake_posted: false, ..*old(self) }),
    {
        self.wake_posted = false;
    }
}

/// A dispatcher after a task was queued for the main thread, or could not be, and what
/// comes of that.
pub open spec fn dispatch_step(dispatcher: WindowsDispatcher, queued: bool) -> (
    WindowsDispatcher,
    MainDispatch,
) {
    (
        WindowsDispatcher { wake_posted: dispatcher.wake_posted || queued, ..dispatcher },
        if !queued {
            MainDispatch::ForgetTask
        } else if dispatcher.wake_posted {
            MainDispatch::WakePending
        } else {
            MainDispatch::PostWake(dispatcher.validation_number)
        },
    )
}

/// A dispatcher after some tasks were queued, or could not be.
pub open spec fn after_dispatches(dispatcher: WindowsDispatcher, queued: Seq<bool>) -> (
    WindowsDispatcher)
    decreases queued.len(),
{
    if queued.len() == 0 {
        dispatcher
    } else {
        dispatch_step(after_dispatches(dispatcher, queued.drop_last()), queued.last()).0
    }
}

/// How many wakes are posted while some tasks are queued, or cannot be.
pub open spec fn wakes_posted(dispatcher: WindowsDispatcher, queued: Seq<bool>) -> nat
    decreases queued.len(),
{
    if queued.len() == 0 {
        0
    } else {
        let before = queued.drop_last();
        let what = dispatch_step(after_dispatches(dispatcher, before), queued.last()).1;
        wakes_posted(dispatcher, before) + if what is PostWake {
            1nat
        } else {
            0
        }
    }
}

/// However many tasks are queued, one wake is posted for them until the ordinary
/// message loop takes it, and none while an earlier one waits.
pub proof fn law_one_wake_until_taken(dispatcher: WindowsDispatcher, queued: Seq<bool>)
    ensures
        wakes_posted(dispatcher, queued) == if !dispatcher.wake_posted && queued.contains(true) {
            1nat
        } else {
            0
        },
        after_dispatches(dispatcher, queued) == (WindowsDispatcher {
            wake_posted: dispatcher.wake_posted || queued.contains(true),
            ..dispatcher
        }),
    decreases queued.len(),
{
    if queued.len() > 0 {
        let before = queued.drop_last();
        law_one_wake_until_taken(dispatcher, before);
        if before.contains(true) {
            let i = before.index_of(true);
            assert(queued[i] == true);
        }
        if queued.contains(true) && !queued.last() {
            let i = queued.index_of(true);
            assert(before[i] == true);
        }
        if queued.last() {
            assert(queued[queued.len() - 1] == true);
        }
    }
}

// ---------------------------------------------------------------------------
// Timers

/// A file time, in two halves.
#[derive(Clone, Copy, Debug, PartialEq, Eq, Structural)]
pub struct DueTime {
    pub low: u32,
    pub high: u32,
}

impl DueTime {
    /// The signed number that the two halves make up.
    pub open spec fn value(self) -> int {
        let bits = self.high * 0x1_0000_0000 + self.low;
        if bits < 0x8000_0000_0000_0000 {
            bits
        } else {
            bits - 0x1_0000_0000_0000_0000
        }
    }
}

/// The whole ticks of 100 nanoseconds in a delay, as many as a file time can hold.
pub open spec fn delay_ticks(nanos: nat) -> int {
    if nanos / 100 <= i64::MAX {
        (nanos / 100) as int
    } else {
        i64::MAX as int
    }
}

/// The file time at which a timer is due: a negative one is relative.
pub fn timer_due_time(delay_nanos: u128) -> (due: DueTime)
    ensures
        due.value() == -delay_ticks(delay_nanos as nat),
{
    let whole: u128 = delay_nanos / 100;
    let ticks: u64 = if whole <= 0x7fff_ffff_ffff_ffff {
        whole as u64
    } else {
        0x7fff_ffff_ffff_ffff
    };
    // The two's complement of the ticks.
    let bits: u64 = if ticks == 0 {
        0
    } else {
        u64::MAX - ticks + 1
    };
    DueTime { low: (bits % 0x1_0000_0000) as u32, high: (bits / 0x1_0000_0000) as u32 }
}

// ---------------------------------------------------------------------------
// Modal loops

/// How many nanoseconds the main thread runs queued foreground tasks for before it
/// goes back to painting and input, both in the ordinary message loop and in
/// native modal loops.
pub const MAIN_TASK_BUDGET: u64 = 10_000_000;

/// A run of queued foreground tasks from inside a native modal loop (window drag or
/// resize, menu tracking).
#[derive(Clone, Copy, Debug, PartialEq, Eq, Structural)]
pub struct ModalDrain {
    /// Whether a task has run.
    pub started: bool,
}

impl ModalDrain {
    /// A run that has not begun.
    pub fn new() -> (drain: ModalDrain)
        ensures
            drain == (ModalDrain { started: false }),
    {
        ModalDrain { started: false }
    }

    /// Whether one more task may run after so many nanoseconds. The first one always
    /// may: at least one task runs if any are queued. Tasks that may not run stay
    /// queued for the modal loop's next timer tick, or for the ordinary loop once
    /// the modal loop exits.
    pub fn next_task_may_run(&mut self, elapsed_nanos: u64) -> (may: bool)
        ensures
            may == task_may_run(old(self).started, elapsed_nanos as nat),
            final(self).started == (old(self).started || may),
    {
        let may = !self.started || elapsed_nanos < MAIN_TASK_BUDGET;
        self.started = true;
        may
    }
}

/// Whether a task may run after so many nanoseconds.
pub open spec fn task_may_run(started: bool, elapsed_nanos: nat) -> bool {
    !started || elapsed_nanos < MAIN_TASK_BUDGET
}

/// How many of `queued` tasks have run once the drain ends, where `clock[n]` is the
/// time that had gone by when `n` tasks had run.
pub open spec fn tasks_drained(queued: nat, clock: Seq<nat>, ran: nat) -> nat
    decreases queued - ran,
{
    if ran < queued && task_may_run(ran > 0, clock[ran as int]) {
        tasks_drained(queued, clock, ran + 1)
    } else {
        ran
    }
}

proof fn lemma_tasks_drained(queued: nat, clock: Seq<nat>, ran: nat)
    requires
        clock.len() > queued,
        ran <= queued,
    ensures
        ran <= tasks_drained(queued, clock, ran) <= queued,
        ran < queued && task_may_run(ran > 0, clock[ran as int]) ==> tasks_drained(
            queued,
            clock,
            ran,
        ) > ran,
        forall|n: int|
            ran <= n < tasks_drained(queued, clock, ran) ==> task_may_run(
                n > 0,
                #[trigger] clock[n],
            ),
        tasks_drained(queued, clock, ran) < queued ==> !task_may_run(
            tasks_drained(queued, clock, ran) > 0,
            clock[tasks_drained(queued, clock, ran) as int],
        ),
    decreases queued - ran,
{
    if ran < queued && task_may_run(ran > 0, clock[ran as int]) {
        lemma_tasks_drained(queued, clock, ran + 1);
    }
}

/// A drain runs at least one task if any are queued, starts none but the first past
/// the budget, and leaves tasks queued only once the budget is spent.
pub proof fn law_modal_drain_keeps_the_budget(queued: nat, clock: Seq<nat>)
    requires
        clock.len() > queued,
    ensures
        tasks_drained(queued, clock, 0) <= queued,
        queued > 0 ==> tasks_drained(queued, clock, 0) >= 1,
        forall|n: int|
            1 <= n < tasks_drained(queued, clock, 0) ==> #[trigger] clock[n] < MAIN_TASK_BUDGET,
        tasks_drained(queued, clock, 0) < queued ==> clock[tasks_drained(queued, clock, 0) as int]
            >= MAIN_TASK_BUDGET,
{
    lemma_tasks_drained(queued, clock, 0);
}

/// A task that was queued wakes the main thread, by a message that carries the number of this
/// application, unless a wake waits already. A task that could not be queued is forgotten and
/// wakes nobody. Once the wake is taken, the next task posts another one.
pub proof fn law_queued_tasks_wake_the_main_thread(dispatcher: WindowsDispatcher)
    ensures
        dispatch_step(dispatcher, false) == (dispatcher, MainDispatch::ForgetTask),
        dispatcher.wake_posted ==> dispatch_step(dispatcher, true) == (
            dispatcher,
            MainDispatch::WakePending,
        ),
        !dispatcher.wake_posted ==> ({
            let (after, what) = dispatch_step(dispatcher, true);
            &&& what == MainDispatch::PostWake(dispatcher.validation_number)
            &&& after.wake_posted
            &&& after.main_thread_id == dispatcher.main_thread_id
            &&& after.validation_number == dispatcher.validation_number
            &&& dispatch_step(after, true).1 == MainDispatch::WakePending
            &&& dispatch_step(WindowsDispatcher { wake_posted: false, ..after }, true).1
                == MainDispatch::PostWake(dispatcher.validation_number)
        }),
{
}

/// A delay counts as many ticks of 100 nanoseconds as it has in full, so that a timer is never
/// due later than asked for, and less than a tick earlier. Only a delay that is too long for a
/// file time is cut, to the longest that there is.
pub proof fn law_delays_are_counted_in_whole_ticks(nanos: nat, longer: nat)
    requires
        nanos <= longer,
    ensures
        0 <= delay_ticks(nanos) <= 0x7fff_ffff_ffff_ffff,
        100 * delay_ticks(nanos) <= nanos,
        delay_ticks(nanos) < 0x7fff_ffff_ffff_ffff ==> nanos < 100 * (delay_ticks(nanos) + 1),
        delay_ticks(nanos) <= delay_ticks(longer),
{
}

/// A file time is read as a number of 64 bits in two's complement, from its upper and its lower
/// half.
pub proof fn law_file_times_are_signed(due: DueTime)
    ensures
        due.high < 0x8000_0000 ==> due.value() == due.high * 0x1_0000_0000 + due.low,
        due.high >= 0x8000_0000 ==> due.value() == (due.high - 0x1_0000_0000) * 0x1_0000_0000
            + due.low,
{
}

/// The first task of a drain may always run, and another one for as long as 10 milliseconds
/// have not gone by.
pub proof fn law_tasks_run_within_ten_milliseconds(elapsed_nanos: nat)
    ensures
        task_may_run(false, elapsed_nanos),
        task_may_run(true, elapsed_nanos) <==> elapsed_nanos < 10_000_000,
{
}

} // verus!
