use native_shell::dispatcher::{
    timer_due_time, MainDispatch, ModalDrain, Priority, ThreadpoolPriority, WindowsDispatcher,
    MAIN_TASK_BUDGET,
};

/// A task that takes some nanoseconds and may queue itself again.
#[derive(Clone, Copy)]
struct Work {
    nanos: u64,
    reschedules: bool,
}

/// A main-thread queue with a clock of its own.
struct MainThread {
    dispatcher: WindowsDispatcher,
    queue: Vec<Work>,
    wakes: usize,
    completed: usize,
}

impl MainThread {
    fn new() -> Self {
        MainThread {
            dispatcher: WindowsDispatcher::new(1, 0),
            queue: Vec::new(),
            wakes: 0,
            completed: 0,
        }
    }

    fn spawn(&mut self, work: Work) {
        self.queue.push(work);
        if let MainDispatch::PostWake(_) = self.dispatcher.dispatch_on_main_thread(true) {
            self.wakes += 1;
        }
    }

    fn spawn_counted(&mut self, nanos: u64) {
        self.spawn(Work {
            nanos,
            reschedules: false,
        });
    }

    fn drain_modal_tasks(&mut self) {
        let mut elapsed = 0;
        let mut drain = ModalDrain::new();
        while !self.queue.is_empty() && drain.next_task_may_run(elapsed) {
            let work = self.queue.remove(0);
            elapsed += work.nanos;
            self.completed += 1;
            if work.reschedules {
                self.spawn(work);
            }
        }
    }
}

#[test]
fn modal_drain_runs_every_task_that_fits_in_the_budget() {
    let mut main = MainThread::new();
    for _ in 0..100 {
        main.spawn_counted(0);
    }
    main.drain_modal_tasks();
    assert_eq!(main.completed, 100);
    assert!(main.queue.is_empty());
}

#[test]
fn modal_drain_leaves_tasks_past_the_budget_for_later() {
    let mut main = MainThread::new();
    // Each task alone overruns the budget, so each drain runs one.
    for _ in 0..2 {
        main.spawn_counted(MAIN_TASK_BUDGET + 1_000_000);
    }
    main.drain_modal_tasks();
    assert_eq!(main.completed, 1);
    assert!(!main.queue.is_empty());
    // The leftover task still runs if the modal loop exits before its next
    // tick: the ordinary loop's wake stays posted, and stays claimed so no
    // duplicate is posted.
    assert_eq!(main.wakes, 1);
    assert!(main.dispatcher.wake_posted);

    main.drain_modal_tasks();
    assert_eq!(main.completed, 2);
    assert!(main.queue.is_empty());
}

#[test]
fn modal_drain_returns_while_a_task_keeps_rescheduling_itself() {
    let mut main = MainThread::new();
    main.spawn(Work {
        nanos: 1_000_000,
        reschedules: true,
    });
    main.drain_modal_tasks();
    assert!(
        main.completed > 1,
        "the task must keep running within the budget"
    );
    assert!(!main.queue.is_empty());
    assert_eq!(main.completed, 10);
}

#[test]
fn the_first_task_runs_whatever_the_time() {
    let mut drain = ModalDrain::new();
    assert!(drain.next_task_may_run(MAIN_TASK_BUDGET));
    assert!(!drain.next_task_may_run(MAIN_TASK_BUDGET));
    assert!(drain.next_task_may_run(MAIN_TASK_BUDGET - 1));
}

#[test]
fn one_wake_serves_many_tasks() {
    let mut dispatcher = WindowsDispatcher::new(7, 42);
    assert!(dispatcher.is_main_thread(7));
    assert!(!dispatcher.is_main_thread(8));
    assert_eq!(
        dispatcher.dispatch_on_main_thread(false),
        MainDispatch::ForgetTask
    );
    assert_eq!(
        dispatcher.dispatch_on_main_thread(true),
        MainDispatch::PostWake(42)
    );
    assert_eq!(
        dispatcher.dispatch_on_main_thread(true),
        MainDispatch::WakePending
    );
    assert_eq!(
        dispatcher.dispatch_on_main_thread(false),
        MainDispatch::ForgetTask
    );
    dispatcher.take_wake();
    assert_eq!(
        dispatcher.dispatch_on_main_thread(true),
        MainDispatch::PostWake(42)
    );
}

#[test]
fn priorities_reach_the_pool() {
    assert_eq!(
        WindowsDispatcher::dispatch(Priority::High),
        ThreadpoolPriority::High
    );
    assert_eq!(
        WindowsDispatcher::dispatch(Priority::Medium),
        ThreadpoolPriority::Normal
    );
    assert_eq!(
        WindowsDispatcher::dispatch(Priority::Low),
        ThreadpoolPriority::Low
    );
}

fn due(nanos: u128) -> i64 {
    let due = timer_due_time(nanos);
    ((u64::from(due.high) << 32) | u64::from(due.low)) as i64
}

#[test]
fn timers_count_ticks_of_a_hundred_nanoseconds() {
    assert_eq!(due(0), 0);
    assert_eq!(due(99), 0);
    assert_eq!(due(100), -1);
    assert_eq!(due(1_000_000), -10_000);
    assert_eq!(due(u128::from(u32::MAX) * 100), -i64::from(u32::MAX));
    assert_eq!(due(u128::MAX), -i64::MAX);
}
