use bevy_wasm_tasks::{Phase, TaskChannels};

#[test]
fn mailbox_drains_one_phase_in_fifo_order() {
    let mut m: TaskChannels<&'static str> = TaskChannels::new();
    m.submit(Phase::Update, "c1").unwrap();
    m.submit(Phase::Update, "c2").unwrap();
    m.submit(Phase::Update, "c3").unwrap();
    assert_eq!(m.try_recv(Phase::Update), Some("c1"));
    assert_eq!(m.try_recv(Phase::Update), Some("c2"));
    assert_eq!(m.try_recv(Phase::Update), Some("c3"));
    assert_eq!(m.try_recv(Phase::Update), None);
}

#[test]
fn phases_keep_independent_queues() {
    let mut m: TaskChannels<u32> = TaskChannels::new();
    m.submit(Phase::First, 1).unwrap();
    m.submit(Phase::Update, 2).unwrap();
    m.submit(Phase::Last, 3).unwrap();
    m.submit(Phase::First, 4).unwrap();
    assert_eq!(m.try_recv(Phase::Last), Some(3));
    assert_eq!(m.try_recv(Phase::First), Some(1));
    assert_eq!(m.try_recv(Phase::First), Some(4));
    assert_eq!(m.try_recv(Phase::Update), Some(2));
    assert_eq!(m.try_recv(Phase::PostUpdate), None);
}

#[test]
fn drain_takes_a_snapshot_and_leaves_the_queue_empty() {
    let mut m: TaskChannels<u32> = TaskChannels::new();
    m.submit(Phase::PreUpdate, 10).unwrap();
    m.submit(Phase::PreUpdate, 20).unwrap();
    m.submit(Phase::PostUpdate, 30).unwrap();
    let batch = m.drain(Phase::PreUpdate);
    assert_eq!(batch, vec![10, 20]);
    assert_eq!(m.depth(Phase::PreUpdate), 0);
    assert_eq!(m.drain(Phase::PreUpdate), Vec::<u32>::new());
    // The other phase is untouched.
    assert_eq!(m.drain(Phase::PostUpdate), vec![30]);
}

#[test]
fn items_submitted_between_drains_wait_for_the_next_drain() {
    let mut m: TaskChannels<u32> = TaskChannels::new();
    m.submit(Phase::Update, 1).unwrap();
    let batch = m.drain(Phase::Update);
    assert_eq!(batch, vec![1]);
    // Work enqueued while the batch executes is picked up next time.
    m.submit(Phase::Update, 2).unwrap();
    assert_eq!(m.depth(Phase::Update), 1);
    assert_eq!(m.drain(Phase::Update), vec![2]);
}

#[test]
fn closed_mailbox_turns_submissions_away() {
    let mut m: TaskChannels<u32> = TaskChannels::new();
    m.submit(Phase::Update, 1).unwrap();
    m.close();
    assert!(m.submit(Phase::Update, 2).is_err());
    // What was queued before the teardown is still there for a final drain.
    assert_eq!(m.try_recv(Phase::Update), Some(1));
    assert_eq!(m.try_recv(Phase::Update), None);
}

#[test]
fn depth_reports_queue_growth() {
    let mut m: TaskChannels<u32> = TaskChannels::new();
    assert_eq!(m.depth(Phase::Startup), 0);
    for i in 0..5 {
        m.submit(Phase::Startup, i).unwrap();
    }
    assert_eq!(m.depth(Phase::Startup), 5);
    assert_eq!(m.depth(Phase::PreStartup), 0);
    m.try_recv(Phase::Startup);
    assert_eq!(m.depth(Phase::Startup), 4);
}
