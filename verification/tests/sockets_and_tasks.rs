use webos::error::Error;
use webos::poll;
use webos::socket::{
    validate, AcceptStep, ConnectStep, ReadStep, UnixNet, UnixSocket, WriteStep, AF_INET, AF_UNIX,
    SOCK_DGRAM, SOCK_STREAM,
};
use webos::task::{
    finish_poll, init_cpu, on_tick_cpu, poll_count_total, ready_is_empty_cpu, run_ready_tasks_cpu,
    sleep_ticks, spawn_on, Executors, ReadyQueue, RunStep, Task, TaskIds,
};

#[test]
fn socket_triples() {
    assert_eq!(validate(AF_UNIX, SOCK_STREAM, 0), Ok(()));
    assert_eq!(validate(AF_UNIX, SOCK_DGRAM, 0), Err(Error::InvalidArgument));
    assert_eq!(validate(AF_INET, SOCK_DGRAM, 0), Ok(()));
    assert_eq!(validate(AF_INET, 3, 0), Err(Error::InvalidArgument));
    assert_eq!(validate(7, SOCK_STREAM, 0), Err(Error::InvalidArgument));
}

fn listening(net: &mut UnixNet, path: &[u8]) -> usize {
    let s = UnixSocket::new(net);
    assert_eq!(UnixSocket::bind(net, s, path), Ok(()));
    assert_eq!(UnixSocket::listen(net, s, 4), Ok(()));
    s
}

#[test]
fn bind_errors() {
    let mut net = UnixNet::new();
    let a = UnixSocket::new(&mut net);
    let b = UnixSocket::new(&mut net);
    assert_eq!(UnixSocket::bind(&mut net, a, b""), Err(Error::InvalidArgument));
    assert_eq!(UnixSocket::bind(&mut net, a, b"/s"), Ok(()));
    assert_eq!(UnixSocket::bind(&mut net, a, b"/t"), Err(Error::InvalidArgument));
    assert_eq!(UnixSocket::bind(&mut net, b, b"/s"), Err(Error::AlreadyExists));
    assert_eq!(UnixSocket::listen(&mut net, b, 1), Err(Error::InvalidArgument));
    assert_eq!(UnixSocket::listen(&mut net, a, 0), Err(Error::InvalidArgument));
}

#[test]
fn connect_accept_and_exchange_bytes() {
    let mut net = UnixNet::new();
    let l = listening(&mut net, b"/srv");
    let c = UnixSocket::new(&mut net);
    assert_eq!(UnixSocket::connect(&mut net, c, b"/srv", true), Ok(ConnectStep::Connected));
    let server_end = match UnixSocket::accept(&mut net, l, true) {
        Ok(AcceptStep::Accepted(st)) => st,
        other => panic!("unexpected {:?}", other),
    };
    let s = UnixSocket::from_stream(&mut net, server_end);
    assert_eq!(
        UnixSocket::write(&mut net, c, b"hello", true),
        Ok(WriteStep { sent: 5, blocked: false })
    );
    assert_eq!(UnixSocket::poll(&net, s, poll::IN | poll::OUT, true, true), poll::IN | poll::OUT);
    match UnixSocket::read(&mut net, s, 3, true) {
        Ok(ReadStep::Data(v)) => assert_eq!(v, b"hel".to_vec()),
        _ => panic!("no data"),
    }
    match UnixSocket::read(&mut net, s, 10, true) {
        Ok(ReadStep::Data(v)) => assert_eq!(v, b"lo".to_vec()),
        _ => panic!("no data"),
    }
    assert!(matches!(UnixSocket::read(&mut net, s, 10, true), Err(Error::WouldBlock)));
    assert!(matches!(UnixSocket::read(&mut net, s, 10, false), Ok(ReadStep::Block)));
}

#[test]
fn connect_errors_and_full_backlog() {
    let mut net = UnixNet::new();
    let c = UnixSocket::new(&mut net);
    assert_eq!(UnixSocket::connect(&mut net, c, b"/none", true), Err(Error::NotFound));
    assert_eq!(UnixSocket::connect(&mut net, c, b"", true), Err(Error::InvalidArgument));
    let bound = UnixSocket::new(&mut net);
    assert_eq!(UnixSocket::bind(&mut net, bound, b"/b"), Ok(()));
    assert_eq!(UnixSocket::connect(&mut net, c, b"/b", true), Err(Error::NotConnected));
    let l = UnixSocket::new(&mut net);
    assert_eq!(UnixSocket::bind(&mut net, l, b"/l"), Ok(()));
    assert_eq!(UnixSocket::listen(&mut net, l, 1), Ok(()));
    assert_eq!(UnixSocket::connect(&mut net, c, b"/l", true), Ok(ConnectStep::Connected));
    let d = UnixSocket::new(&mut net);
    assert_eq!(UnixSocket::connect(&mut net, d, b"/l", true), Err(Error::WouldBlock));
    assert_eq!(UnixSocket::connect(&mut net, d, b"/l", false), Ok(ConnectStep::Block));
    assert_eq!(UnixSocket::connect(&mut net, c, b"/l", true), Err(Error::InvalidArgument));
    assert!(matches!(UnixSocket::read(&mut net, d, 1, true), Err(Error::NotConnected)));
    assert!(matches!(UnixSocket::read(&mut net, l, 1, true), Err(Error::InvalidArgument)));
    assert_eq!(UnixSocket::accept(&mut net, d, true), Err(Error::InvalidArgument));
}

#[test]
fn closing_a_peer_ends_the_stream() {
    let mut net = UnixNet::new();
    let l = listening(&mut net, b"/x");
    let c = UnixSocket::new(&mut net);
    assert_eq!(UnixSocket::connect(&mut net, c, b"/x", true), Ok(ConnectStep::Connected));
    let st = match UnixSocket::accept(&mut net, l, true) {
        Ok(AcceptStep::Accepted(st)) => st,
        _ => panic!(),
    };
    let s = UnixSocket::from_stream(&mut net, st);
    UnixSocket::close(&mut net, c);
    assert_eq!(UnixSocket::poll(&net, s, poll::IN, true, true), poll::IN | poll::HUP);
    match UnixSocket::read(&mut net, s, 4, false) {
        Ok(ReadStep::Data(v)) => assert!(v.is_empty()),
        _ => panic!("expected end of stream"),
    }
    assert_eq!(UnixSocket::write(&mut net, s, b"x", true), Ok(WriteStep { sent: 0, blocked: false }));
    UnixSocket::close(&mut net, l);
    let again = UnixSocket::new(&mut net);
    assert_eq!(UnixSocket::bind(&mut net, again, b"/x"), Ok(()));
}

#[test]
fn write_stops_at_the_buffer_limit() {
    let mut net = UnixNet::new();
    let l = listening(&mut net, b"/big");
    let c = UnixSocket::new(&mut net);
    assert_eq!(UnixSocket::connect(&mut net, c, b"/big", true), Ok(ConnectStep::Connected));
    let data = vec![7u8; 600];
    assert_eq!(UnixSocket::write(&mut net, c, &data, false), Ok(WriteStep { sent: 512, blocked: true }));
    assert_eq!(UnixSocket::write(&mut net, c, &data, true), Err(Error::WouldBlock));
    assert_eq!(UnixSocket::poll(&net, l, poll::IN, true, false), poll::IN);
}

#[test]
fn task_ids_count_up_and_wrap() {
    let mut ids = TaskIds { next: 5 };
    assert_eq!(Task::new(&mut ids).id, 5);
    assert_eq!(ids.next, 6);
    let mut top = TaskIds { next: u64::MAX };
    assert_eq!(Task::new(&mut top).id, u64::MAX);
    assert_eq!(top.next, 0);
}

#[test]
fn ready_queue_ring() {
    let mut q = ReadyQueue::new();
    for i in 0..256u64 {
        assert!(q.push(i));
    }
    assert!(!q.push(999));
    assert_eq!(q.pop(), Some(0));
    assert!(q.push(999));
    for i in 1..256u64 {
        assert_eq!(q.pop(), Some(i));
    }
    assert_eq!(q.pop(), Some(999));
    assert_eq!(q.pop(), None);
}

#[test]
fn spawned_task_is_polled_then_parked_and_woken_by_tick() {
    let mut ex = Executors::new();
    init_cpu(&mut ex, 0);
    let mut ids = TaskIds { next: 0 };
    let t = Task::new(&mut ids);
    spawn_on(&mut ex, 0, t);
    assert!(!ready_is_empty_cpu(&ex, 0));
    assert_eq!(run_ready_tasks_cpu(&mut ex, 0, 0, 0), RunStep::Poll(t.id));
    let sleep = sleep_ticks(&ex, 0, 1);
    assert!(!sleep.poll(&mut ex, t.id));
    finish_poll(&mut ex, 0, t.id, false);
    assert_eq!(run_ready_tasks_cpu(&mut ex, 0, 0, 1), RunStep::Done);
    on_tick_cpu(&mut ex, 0);
    assert!(sleep.poll(&mut ex, t.id));
    assert_eq!(run_ready_tasks_cpu(&mut ex, 0, 0, 0), RunStep::Poll(t.id));
    finish_poll(&mut ex, 0, t.id, true);
    assert_eq!(poll_count_total(&ex), 2);
}

#[test]
fn budget_stops_the_run_and_stale_ids_are_skipped() {
    let mut ex = Executors::new();
    init_cpu(&mut ex, 1);
    let mut ids = TaskIds { next: 10 };
    spawn_on(&mut ex, 1, Task::new(&mut ids));
    assert_eq!(run_ready_tasks_cpu(&mut ex, 1, 1, 1), RunStep::Done);
    assert_eq!(run_ready_tasks_cpu(&mut ex, 1, 1, 0), RunStep::Poll(10));
    finish_poll(&mut ex, 1, 10, true);
    ex.cpus[1].tick_wakers.push(10);
    on_tick_cpu(&mut ex, 1);
    assert_eq!(run_ready_tasks_cpu(&mut ex, 1, 0, 0), RunStep::Skipped);
    assert_eq!(poll_count_total(&ex), 2);
}
