use command_rs::{
    command_client_step, declare_tasks, execute_handler, handler_task, help_text,
    init_interpreter, version_text, Accumulator, Command, CommandBuffer, DisplayRows, Scheduler,
    SpawnError, TaskState, TransmitResource, COMMAND_BUF_SIZE, TASK_CLIENT, TASK_COUNT, TASK_HELP,
    TASK_LOG_BOARD, TASK_TOGGLE_DISPLAY, TASK_VERSION,
};

#[test]
fn initialization_spawns_only_the_receive_task() {
    let (acc, sched, tx) = init_interpreter();
    assert_eq!(acc.buffered_len(), 0);
    assert_eq!(tx.wire_history(), "");
    assert_eq!(sched.task_count(), TASK_COUNT);
    assert_eq!(sched.state_of(TASK_CLIENT), TaskState::Pending);
    for id in TASK_CLIENT + 1..TASK_COUNT {
        assert_eq!(sched.state_of(id), TaskState::Dormant);
    }
}

#[test]
fn buffer_append_and_clear() {
    let mut buf = CommandBuffer::new();
    assert_eq!(buf.len(), 0);
    assert!(!buf.is_full());
    buf.push(10);
    buf.push(20);
    assert_eq!(buf.as_slice(), &[10, 20]);
    assert_eq!(buf.len(), 2);
    buf.clear();
    assert_eq!(buf.len(), 0);
    assert_eq!(buf.as_slice(), &[] as &[u8]);
}

#[test]
fn buffer_reports_full_at_capacity() {
    let mut buf = CommandBuffer::new();
    for k in 0..COMMAND_BUF_SIZE {
        assert!(!buf.is_full());
        buf.push(k as u8);
    }
    assert!(buf.is_full());
    assert_eq!(buf.len(), COMMAND_BUF_SIZE);
}

#[test]
fn declared_table_is_dormant_at_priority_one() {
    let sched = declare_tasks();
    assert_eq!(sched.task_count(), TASK_COUNT);
    for id in 0..TASK_COUNT {
        assert_eq!(sched.state_of(id), TaskState::Dormant);
    }
}

#[test]
fn task_life_cycle() {
    let mut sched = declare_tasks();
    assert_eq!(sched.spawn(TASK_CLIENT), Ok(()));
    assert_eq!(sched.state_of(TASK_CLIENT), TaskState::Pending);
    sched.start(TASK_CLIENT);
    assert_eq!(sched.state_of(TASK_CLIENT), TaskState::Running);
    sched.suspend(TASK_CLIENT);
    assert_eq!(sched.state_of(TASK_CLIENT), TaskState::Suspended);
    sched.make_ready(TASK_CLIENT);
    assert_eq!(sched.state_of(TASK_CLIENT), TaskState::Pending);
    sched.start(TASK_CLIENT);
    sched.complete(TASK_CLIENT);
    assert_eq!(sched.state_of(TASK_CLIENT), TaskState::Dormant);
}

#[test]
fn spawn_contention_is_rejected() {
    let mut sched = declare_tasks();
    assert_eq!(sched.spawn(TASK_HELP), Ok(()));
    assert_eq!(sched.spawn(TASK_HELP), Err(SpawnError::AlreadyActive));
    assert_eq!(sched.state_of(TASK_HELP), TaskState::Pending);
}

#[test]
fn next_ready_picks_highest_priority_then_fifo() {
    let priorities: Vec<u8> = vec![1, 3, 2, 3];
    let mut sched = Scheduler::new(&priorities);
    assert_eq!(sched.next_ready(), None);
    sched.spawn(0).unwrap();
    sched.spawn(2).unwrap();
    sched.spawn(3).unwrap();
    // Task 3 has the maximal priority among the pending tasks.
    assert_eq!(sched.next_ready(), Some(3));
    sched.spawn(1).unwrap();
    // Tasks 1 and 3 tie at priority 3; the one that became ready first wins.
    assert_eq!(sched.next_ready(), Some(3));
}

#[test]
fn equal_priority_handlers_dispatch_in_ready_order() {
    // All handlers share one priority tier: they acquire the core, and with
    // it the transmit resource, in the order they became ready.
    let mut sched = declare_tasks();
    sched.spawn(TASK_VERSION).unwrap();
    sched.spawn(TASK_HELP).unwrap();
    assert_eq!(sched.next_ready(), Some(TASK_VERSION));
    sched.start(TASK_VERSION);
    sched.complete(TASK_VERSION);
    assert_eq!(sched.next_ready(), Some(TASK_HELP));
}

#[test]
fn dispatch_table_is_total() {
    assert_eq!(handler_task(&Command::Help), TASK_HELP);
    assert_eq!(handler_task(&Command::ToggleDisplay), TASK_TOGGLE_DISPLAY);
    assert_eq!(handler_task(&Command::LogBoard), TASK_LOG_BOARD);
    assert_eq!(handler_task(&Command::Version), TASK_VERSION);
}

#[test]
fn execute_spawns_the_handler_once() {
    let mut sched = declare_tasks();
    assert_eq!(Command::Help.execute(&mut sched), Ok(()));
    assert_eq!(sched.state_of(TASK_HELP), TaskState::Pending);
    // Re-triggering while the handler is still pending drops the command.
    assert_eq!(Command::Help.execute(&mut sched), Err(SpawnError::AlreadyActive));
    assert_eq!(sched.state_of(TASK_HELP), TaskState::Pending);
    // Other handlers are untouched.
    assert_eq!(sched.state_of(TASK_VERSION), TaskState::Dormant);
}

fn run_pending_handlers(
    sched: &mut Scheduler,
    tx: &mut TransmitResource,
    rows: &mut DisplayRows,
    descriptor: &str,
) {
    while let Some(id) = sched.next_ready() {
        sched.start(id);
        let cmd = match id {
            _ if id == TASK_HELP => Some(Command::Help),
            _ if id == TASK_TOGGLE_DISPLAY => Some(Command::ToggleDisplay),
            _ if id == TASK_LOG_BOARD => Some(Command::LogBoard),
            _ if id == TASK_VERSION => Some(Command::Version),
            _ => None,
        };
        if let Some(cmd) = cmd {
            execute_handler(cmd, tx, rows, descriptor);
        }
        sched.complete(id);
    }
}

#[test]
fn ready_order_decides_wire_order() {
    // Two handlers become ready in a given order; their whole outputs
    // appear on the wire in that order.
    let mut sched = declare_tasks();
    let mut tx = TransmitResource::new();
    let mut rows = DisplayRows { row1: false, row2: false, row3: false, row4: false, row5: false };
    Command::Version.execute(&mut sched).unwrap();
    Command::Help.execute(&mut sched).unwrap();
    run_pending_handlers(&mut sched, &mut tx, &mut rows, "d1");
    let expected = format!("{}{}", version_text("d1"), help_text());
    assert_eq!(tx.wire_history(), expected.as_str());
}

#[test]
fn full_round_version_command() {
    // The whole loop: bytes polled one per tick, the accumulator feeds the
    // dispatcher, the scheduler runs the handler, the response hits the wire.
    let mut acc = Accumulator::new();
    let mut sched = declare_tasks();
    let mut tx = TransmitResource::new();
    let mut rows = DisplayRows { row1: false, row2: false, row3: false, row4: false, row5: false };

    for b in "version;".bytes() {
        command_client_step(&mut acc, &mut sched, Some(b));
    }
    // A tick without a byte changes nothing.
    command_client_step(&mut acc, &mut sched, None);
    assert_eq!(sched.state_of(TASK_VERSION), TaskState::Pending);

    run_pending_handlers(&mut sched, &mut tx, &mut rows, "0.1.0-7-g1234567");
    assert_eq!(
        tx.wire_history(),
        "This command-rs build is based on '0.1.0-7-g1234567'.\r\n"
    );
    assert_eq!(sched.state_of(TASK_VERSION), TaskState::Dormant);
}

#[test]
fn full_round_toggle_twice_restores_rows() {
    let mut acc = Accumulator::new();
    let mut sched = declare_tasks();
    let mut tx = TransmitResource::new();
    let original = DisplayRows { row1: true, row2: false, row3: true, row4: false, row5: true };
    let mut rows = original;

    for b in "toggle;toggle;".bytes() {
        command_client_step(&mut acc, &mut sched, Some(b));
        // Handlers run between polls, so the second spawn finds the task
        // dormant again.
        run_pending_handlers(&mut sched, &mut tx, &mut rows, "");
    }
    assert_eq!(rows, original);
    assert_eq!(tx.wire_history(), "");
}

#[test]
fn full_round_help_command_frames_its_banner() {
    let (mut acc, mut sched, mut tx) = init_interpreter();
    let mut rows = DisplayRows { row1: false, row2: false, row3: false, row4: false, row5: false };

    for b in "help;".bytes() {
        command_client_step(&mut acc, &mut sched, Some(b));
    }
    run_pending_handlers(&mut sched, &mut tx, &mut rows, "");
    assert!(tx.wire_history().starts_with("\r\n=== command-rs ===\r\n"));
    assert!(tx.wire_history().ends_with("==================\r\n"));
}

#[test]
fn full_round_bogus_input_yields_no_output() {
    let mut acc = Accumulator::new();
    let mut sched = declare_tasks();
    let mut tx = TransmitResource::new();
    let mut rows = DisplayRows { row1: false, row2: false, row3: false, row4: false, row5: false };

    for b in "bogus;".bytes() {
        command_client_step(&mut acc, &mut sched, Some(b));
    }
    run_pending_handlers(&mut sched, &mut tx, &mut rows, "");
    assert_eq!(tx.wire_history(), "");
    assert_eq!(acc.buffered_len(), 0);
    for id in 0..TASK_COUNT {
        assert_eq!(sched.state_of(id), TaskState::Dormant);
    }
}
