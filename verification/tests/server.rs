use futures::{Async, Future, Stream};
use stahlnet::{
    Delivery, Frame, MessageTypeID, Outgoing, PeerAddr, Server, TaskHandle, TaskID,
    DEFAULT_QUEUE_TIMEOUT,
};

const MILLI: u128 = 1_000_000;
const SECOND: u128 = 1_000_000_000;

fn any_addr() -> PeerAddr {
    PeerAddr::V6 { ip6: 0, port: 0, flowinfo: 0, scope_id: 0 }
}

fn peer(n: u16) -> PeerAddr {
    PeerAddr::V4 { ip4: 0x7f00_0001, port: n }
}

fn ping() -> MessageTypeID {
    MessageTypeID::from(0)
}

/// What the server's `Debug` shows: everything but its channels and socket.
fn state(server: &Server) -> String {
    let mut tasks: Vec<u64> = server.tasks().keys().cloned().collect();
    tasks.sort();
    let mut queued: Vec<(u64, String)> = server
        .queued_messages()
        .iter()
        .map(|(k, v)| (*k, format!("{:?}", v)))
        .collect();
    queued.sort();
    let mut routes: Vec<(u64, String)> = server
        .routes()
        .iter()
        .map(|(k, v)| (*k, format!("{:?}", v)))
        .collect();
    routes.sort();
    format!(
        "addr={:?} peers={:?} queue_timeout={} queued={:?} routes={:?} send_peer_bye={} tasks={:?}",
        server.addr(),
        server.peers(),
        server.queue_timeout(),
        queued,
        routes,
        server.send_peer_bye(),
        tasks
    )
}

fn drain_task_frames(server: &mut Server) -> Vec<Frame> {
    futures::future::lazy(|| -> Result<Vec<Frame>, ()> {
        let mut frames = Vec::new();
        while let Ok(Async::Ready(Some(frame))) = server.task_frames().poll() {
            frames.push(frame);
        }
        Ok(frames)
    })
    .wait()
    .unwrap()
}

fn drain_deliveries(handle: &mut TaskHandle) -> Vec<Delivery> {
    futures::future::lazy(|| -> Result<Vec<Delivery>, ()> {
        let mut out = Vec::new();
        while let Ok(Async::Ready(Some(d))) = handle.receiver().poll() {
            out.push(d);
        }
        Ok(out)
    })
    .wait()
    .unwrap()
}

/// Runs the server on what its tasks have sent, at `now`, then expires at
/// `end` and sends everything out.
fn run_until(server: &mut Server, now: u128, end: u128) {
    let own = server.addr();
    for frame in drain_task_frames(server) {
        server.handle_frame_at(frame, own, now);
    }
    server.expire_queued_at(end);
    let _ = server.take_outgoing();
}

fn outgoing_text(items: &[Outgoing]) -> Vec<String> {
    items.iter().map(|o| format!("{:?}", o)).collect()
}

#[test]
fn leak_check_queued() {
    let mut server = Server::new(any_addr());
    server.set_queue_timeout(500 * MILLI);

    let initial_state = state(&server);
    let task = server.spawn_task();
    for _ in 0..1000 {
        task.send_message(TaskID::rand(), ping(), Vec::new()).unwrap();
    }
    task.send_bye();
    drop(task);

    run_until(&mut server, 0, SECOND);
    assert_eq!(initial_state, state(&server));
}

#[test]
fn leak_check_tasks() {
    let mut server = Server::new(any_addr());

    let initial_state = state(&server);
    for _ in 0..1000 {
        let handle = server.spawn_task();
        handle.send_bye();
    }

    let a = server.spawn_task();
    let b = server.spawn_task();
    a.send_message(b.id(), ping(), Vec::new()).unwrap();
    a.send_bye();
    drop(a);
    b.send_bye();
    drop(b);

    run_until(&mut server, 0, SECOND);
    assert_eq!(initial_state, state(&server));
}

#[test]
fn queued_are_queued() {
    let mut server = Server::new(any_addr());

    let initial_state = state(&server);
    let task = server.spawn_task();
    for _ in 0..1000 {
        task.send_message(TaskID::rand(), ping(), Vec::new()).unwrap();
    }
    task.send_bye();
    drop(task);

    run_until(&mut server, 0, SECOND);
    assert_ne!(initial_state, state(&server));
}

#[test]
fn new_server_is_empty() {
    let server = Server::new(any_addr());
    assert_eq!(server.addr(), any_addr());
    assert!(server.peers().is_empty());
    assert!(server.routes().is_empty());
    assert!(server.tasks().is_empty());
    assert!(server.queued_messages().is_empty());
    assert_eq!(server.queue_timeout(), DEFAULT_QUEUE_TIMEOUT);
    assert_eq!(server.queue_timeout(), 5 * SECOND);
    assert!(server.send_peer_bye());
    assert_eq!(server.next_deadline(), None);
}

#[test]
fn add_peer_greets_without_recording() {
    let mut server = Server::new(any_addr());
    server.add_peer(peer(1));
    assert!(server.peers().is_empty());
    let out = server.take_outgoing();
    assert_eq!(
        outgoing_text(&out),
        vec![format!("Send(PeerHello, {:?})", peer(1)), "Flush".to_string()]
    );
    assert!(server.take_outgoing().is_empty());
}

#[test]
fn peer_hello_twice_replies_once() {
    let mut server = Server::new(any_addr());
    server.handle_frame_at(Frame::PeerHello, peer(1), 0);
    server.handle_frame_at(Frame::PeerHello, peer(1), 0);
    assert_eq!(server.peers(), &vec![peer(1)]);
    let out = server.take_outgoing();
    assert_eq!(
        outgoing_text(&out),
        vec![format!("Send(PeerHello, {:?})", peer(1)), "Flush".to_string()]
    );
}

#[test]
fn peer_bye_forgets_peer() {
    let mut server = Server::new(any_addr());
    server.handle_frame_at(Frame::PeerHello, peer(1), 0);
    server.handle_frame_at(Frame::PeerHello, peer(2), 0);
    server.handle_frame_at(Frame::PeerBye, peer(1), 0);
    assert_eq!(server.peers(), &vec![peer(2)]);
    server.handle_frame_at(Frame::PeerBye, peer(3), 0);
    assert_eq!(server.peers(), &vec![peer(2)]);
}

#[test]
fn task_hello_takes_shorter_routes_and_announces_them() {
    let mut server = Server::new(any_addr());
    server.handle_frame_at(Frame::PeerHello, peer(1), 0);
    server.handle_frame_at(Frame::PeerHello, peer(2), 0);
    let _ = server.take_outgoing();

    let task = TaskID::from(77);
    server.handle_frame_at(Frame::TaskHello(3, task), peer(1), 0);
    assert_eq!(server.routes().get(&77), Some(&(3, peer(1))));
    let out = server.take_outgoing();
    assert_eq!(
        outgoing_text(&out),
        vec![
            format!("Send(TaskHello(4, TaskID(77)), {:?})", peer(1)),
            format!("Send(TaskHello(4, TaskID(77)), {:?})", peer(2)),
            "Flush".to_string(),
        ]
    );

    // A longer route is ignored.
    server.handle_frame_at(Frame::TaskHello(5, task), peer(2), 0);
    assert_eq!(server.routes().get(&77), Some(&(3, peer(1))));
    assert!(server.take_outgoing().is_empty());

    // An equally long one replaces the known one.
    server.handle_frame_at(Frame::TaskHello(3, task), peer(2), 0);
    assert_eq!(server.routes().get(&77), Some(&(3, peer(2))));

    // A shorter one too.
    server.handle_frame_at(Frame::TaskHello(1, task), peer(1), 0);
    assert_eq!(server.routes().get(&77), Some(&(1, peer(1))));
}

#[test]
fn task_hello_hop_count_wraps() {
    let mut server = Server::new(any_addr());
    server.handle_frame_at(Frame::PeerHello, peer(1), 0);
    let _ = server.take_outgoing();
    server.handle_frame_at(Frame::TaskHello(u64::MAX, TaskID::from(5)), peer(1), 0);
    let out = server.take_outgoing();
    assert_eq!(
        outgoing_text(&out),
        vec![format!("Send(TaskHello(0, TaskID(5)), {:?})", peer(1)), "Flush".to_string()]
    );
}

#[test]
fn find_task_answers_known_routes_only() {
    let mut server = Server::new(any_addr());
    server.handle_frame_at(Frame::TaskHello(2, TaskID::from(8)), peer(1), 0);
    let _ = server.take_outgoing();
    server.handle_frame_at(Frame::FindTask(TaskID::from(8)), peer(2), 0);
    server.handle_frame_at(Frame::FindTask(TaskID::from(9)), peer(2), 0);
    let out = server.take_outgoing();
    assert_eq!(
        outgoing_text(&out),
        vec![format!("Send(TaskHello(3, TaskID(8)), {:?})", peer(2)), "Flush".to_string()]
    );
}

#[test]
fn task_bye_drops_route_and_announces() {
    let mut server = Server::new(any_addr());
    server.handle_frame_at(Frame::PeerHello, peer(1), 0);
    server.handle_frame_at(Frame::TaskHello(2, TaskID::from(8)), peer(1), 0);
    let _ = server.take_outgoing();
    server.handle_frame_at(Frame::TaskBye(TaskID::from(8)), peer(1), 0);
    assert!(server.routes().is_empty());
    let out = server.take_outgoing();
    assert_eq!(
        outgoing_text(&out),
        vec![format!("Send(TaskBye(TaskID(8)), {:?})", peer(1)), "Flush".to_string()]
    );
    // An unknown task's goodbye is not passed on.
    server.handle_frame_at(Frame::TaskBye(TaskID::from(8)), peer(1), 0);
    assert!(server.take_outgoing().is_empty());
}

#[test]
fn task_bye_drops_a_route_before_a_local_task() {
    let mut server = Server::new(any_addr());
    let handle = server.spawn_task_with_id(TaskID::from(8));
    server.handle_frame_at(Frame::TaskHello(2, TaskID::from(8)), peer(1), 0);
    server.handle_frame_at(Frame::TaskBye(TaskID::from(8)), peer(1), 0);
    assert!(server.routes().is_empty());
    assert!(server.tasks().contains_key(&8));
    server.handle_frame_at(Frame::TaskBye(TaskID::from(8)), server.addr(), 0);
    assert!(server.tasks().is_empty());
    drop(handle);
}

#[test]
fn spawn_announces_at_zero_hops() {
    let mut server = Server::new(any_addr());
    server.handle_frame_at(Frame::PeerHello, peer(1), 0);
    let _ = server.take_outgoing();
    let handle = server.spawn_task_with_id(TaskID::from(12));
    assert_eq!(handle.id(), TaskID::from(12));
    assert_eq!(handle.name(), "");
    assert!(handle.name_arc().is_none());
    assert!(server.tasks().contains_key(&12));
    let out = server.take_outgoing();
    assert_eq!(
        outgoing_text(&out),
        vec![format!("Send(TaskHello(0, TaskID(12)), {:?})", peer(1)), "Flush".to_string()]
    );
}

#[test]
fn message_follows_known_route() {
    let mut server = Server::new(any_addr());
    server.handle_frame_at(Frame::TaskHello(1, TaskID::from(8)), peer(3), 0);
    let _ = server.take_outgoing();
    let msg = Frame::Message(TaskID::from(1), TaskID::from(8), MessageTypeID::from(2), vec![4, 5]);
    server.handle_frame_at(msg, server.addr(), 0);
    let out = server.take_outgoing();
    assert_eq!(
        outgoing_text(&out),
        vec![
            format!(
                "Send(Message(TaskID(1), TaskID(8), MessageTypeID(2), [4, 5]), {:?})",
                peer(3)
            ),
            "Flush".to_string(),
        ]
    );
    assert!(server.queued_messages().is_empty());
}

#[test]
fn message_without_route_is_queued_and_looked_for() {
    let mut server = Server::new(any_addr());
    server.handle_frame_at(Frame::PeerHello, peer(1), 0);
    let _ = server.take_outgoing();
    let msg = Frame::Message(TaskID::from(1), TaskID::from(8), MessageTypeID::from(2), vec![4]);
    server.handle_frame_at(msg, server.addr(), 10);
    let out = server.take_outgoing();
    assert_eq!(
        outgoing_text(&out),
        vec![format!("Send(FindTask(TaskID(8)), {:?})", peer(1)), "Flush".to_string()]
    );
    let queue = &server.queued_messages()[&8];
    assert_eq!(queue.len(), 1);
    assert_eq!(queue[0].deadline, 10 + DEFAULT_QUEUE_TIMEOUT);
    assert_eq!(queue[0].from, TaskID::from(1));
    assert_eq!(queue[0].msg_type, MessageTypeID::from(2));
    assert_eq!(queue[0].data, vec![4]);
    assert_eq!(server.next_deadline(), Some(10 + DEFAULT_QUEUE_TIMEOUT));
}

#[test]
fn expiry_drops_only_what_is_due() {
    let mut server = Server::new(any_addr());
    server.set_queue_timeout(100);
    for (at, to) in [(0u128, 8u64), (50, 8), (20, 9)] {
        let msg = Frame::Message(TaskID::from(1), TaskID::from(to), MessageTypeID::from(2), vec![]);
        server.handle_frame_at(msg, server.addr(), at);
    }
    assert_eq!(server.next_deadline(), Some(100));
    server.expire_queued_at(99);
    assert_eq!(server.queued_messages()[&8].len(), 2);
    server.expire_queued_at(120);
    assert_eq!(server.queued_messages()[&8].len(), 1);
    assert_eq!(server.queued_messages()[&8][0].deadline, 150);
    assert!(!server.queued_messages().contains_key(&9));
    assert_eq!(server.next_deadline(), Some(150));
    let before = state(&server);
    server.expire_queued_at(120);
    assert_eq!(before, state(&server));
    server.expire_queued_at(150);
    assert!(server.queued_messages().is_empty());
    assert_eq!(server.next_deadline(), None);
}

#[test]
fn message_to_local_task_is_delivered() {
    let mut server = Server::new(any_addr());
    let mut b = server.spawn_task_with_id(TaskID::from(2));
    let _ = server.take_outgoing();
    let before = state(&server);
    let msg = Frame::Message(TaskID::from(1), TaskID::from(2), MessageTypeID::from(3), vec![7]);
    server.handle_frame_at(msg, server.addr(), 0);
    assert_eq!(before, state(&server));
    assert!(server.take_outgoing().is_empty());
    let got = drain_deliveries(&mut b);
    assert_eq!(got, vec![(TaskID::from(1), MessageTypeID::from(3), vec![7])]);
}

#[test]
fn message_to_gone_local_task_is_queued() {
    let mut server = Server::new(any_addr());
    let b = server.spawn_task_with_id(TaskID::from(2));
    drop(b);
    let msg = Frame::Message(TaskID::from(1), TaskID::from(2), MessageTypeID::from(3), vec![7]);
    server.handle_frame_at(msg, server.addr(), 0);
    assert_eq!(server.queued_messages()[&2].len(), 1);
    assert_eq!(server.queued_messages()[&2][0].data, vec![7]);
}

#[test]
fn task_handle_sends_frames_to_server() {
    let mut server = Server::new(any_addr());
    let a = server.spawn_task_with_id(TaskID::from(1));
    a.send_message(TaskID::from(2), MessageTypeID::from(3), vec![1, 2]).unwrap();
    a.send_bye();
    let frames = drain_task_frames(&mut server);
    assert_eq!(
        frames.iter().map(|f| format!("{:?}", f)).collect::<Vec<_>>(),
        vec![
            "Message(TaskID(1), TaskID(2), MessageTypeID(3), [1, 2])".to_string(),
            "TaskBye(TaskID(1))".to_string(),
        ]
    );
}

#[test]
fn task_handle_reports_shutting_down() {
    let mut server = Server::new(any_addr());
    let a = server.spawn_task_with_id(TaskID::from(1));
    drop(server);
    assert!(matches!(
        a.send_message(TaskID::from(2), MessageTypeID::from(3), vec![]),
        Err(stahlnet::Error::ShuttingDown)
    ));
}

#[test]
fn shut_down_says_goodbye_when_set_to() {
    let mut server = Server::new(any_addr());
    server.handle_frame_at(Frame::PeerHello, peer(1), 0);
    let _ = server.take_outgoing();
    server.shut_down();
    assert_eq!(
        outgoing_text(&server.take_outgoing()),
        vec![format!("Send(PeerBye, {:?})", peer(1)), "Flush".to_string()]
    );
    server.set_send_peer_bye(false);
    assert!(!server.send_peer_bye());
    server.shut_down();
    assert!(server.take_outgoing().is_empty());
}

#[test]
fn spawn_then_bye_leaves_no_trace() {
    let mut server = Server::new(any_addr());
    let before = state(&server);
    let handle = server.spawn_task_with_id(TaskID::from(5));
    server.handle_frame_at(Frame::TaskBye(handle.id()), server.addr(), 0);
    assert_eq!(before, state(&server));
}

#[test]
fn handle_frame_uses_the_server_clock() {
    let mut server = Server::new(any_addr());
    let msg = Frame::Message(TaskID::from(1), TaskID::from(8), MessageTypeID::from(2), vec![]);
    server.handle_frame(msg, peer(1));
    let deadline = server.queued_messages()[&8][0].deadline;
    assert!(deadline >= DEFAULT_QUEUE_TIMEOUT);
    server.expire_queued();
    assert_eq!(server.queued_messages()[&8].len(), 1);
}

#[test]
fn only_task_frames_change_routes() {
    let mut server = Server::new(any_addr());
    server.handle_frame_at(Frame::TaskHello(4, TaskID::from(3)), peer(1), 0);
    let routes = format!("{:?}", server.routes());
    server.handle_frame_at(Frame::PeerHello, peer(2), 0);
    server.handle_frame_at(Frame::FindTask(TaskID::from(3)), peer(2), 0);
    let msg = Frame::Message(TaskID::from(1), TaskID::from(9), MessageTypeID::from(2), vec![]);
    server.handle_frame_at(msg, server.addr(), 0);
    let _handle = server.spawn_task_with_id(TaskID::from(6));
    server.handle_frame_at(Frame::PeerBye, peer(2), 0);
    server.expire_queued_at(SECOND * 10);
    server.shut_down();
    assert_eq!(routes, format!("{:?}", server.routes()));
}

#[test]
fn route_arrival_sends_queued_messages_on() {
    let mut server = Server::new(any_addr());
    server.handle_frame_at(Frame::PeerHello, peer(1), 0);
    for byte in [1u8, 2] {
        let msg = Frame::Message(TaskID::from(1), TaskID::from(8), MessageTypeID::from(2), vec![byte]);
        server.handle_frame_at(msg, server.addr(), 0);
    }
    let _ = server.take_outgoing();
    server.handle_frame_at(Frame::TaskHello(0, TaskID::from(8)), peer(2), 5);
    assert!(!server.queued_messages().contains_key(&8));
    assert_eq!(server.routes().get(&8), Some(&(0, peer(2))));
    let out = server.take_outgoing();
    assert_eq!(
        outgoing_text(&out),
        vec![
            format!("Send(TaskHello(1, TaskID(8)), {:?})", peer(1)),
            "Flush".to_string(),
            format!("Send(Message(TaskID(1), TaskID(8), MessageTypeID(2), [1]), {:?})", peer(2)),
            format!("Send(Message(TaskID(1), TaskID(8), MessageTypeID(2), [2]), {:?})", peer(2)),
            "Flush".to_string(),
        ]
    );
}

#[test]
fn complete_local_send_routes_what_came_back() {
    let mut server = Server::new(any_addr());
    let before = state(&server);
    server.complete_local_send(TaskID::from(1), TaskID::from(2), MessageTypeID::from(3), Ok(()), 0);
    assert_eq!(before, state(&server));
    let back = (TaskID::from(1), MessageTypeID::from(3), vec![6u8]);
    server.complete_local_send(TaskID::from(1), TaskID::from(2), MessageTypeID::from(3), Err(back), 7);
    let queue = &server.queued_messages()[&2];
    assert_eq!(queue.len(), 1);
    assert_eq!(queue[0].data, vec![6]);
    assert_eq!(queue[0].deadline, 7 + DEFAULT_QUEUE_TIMEOUT);
}

#[test]
fn handle_builds_its_frames() {
    let mut server = Server::new(any_addr());
    let a = server.spawn_task_with_id(TaskID::from(4));
    assert_eq!(
        format!("{:?}", a.message_frame(TaskID::from(5), MessageTypeID::from(6), vec![1])),
        "Message(TaskID(4), TaskID(5), MessageTypeID(6), [1])"
    );
    assert_eq!(format!("{:?}", a.bye_frame()), "TaskBye(TaskID(4))");
}

#[test]
fn message_between_local_tasks_arrives() {
    let mut server = Server::new(any_addr());
    let a = server.spawn_task_with_id(TaskID::from(1));
    let mut b = server.spawn_task_with_id(TaskID::from(2));
    a.send_message(b.id(), MessageTypeID::from(1), vec![7]).unwrap();
    let own = server.addr();
    for frame in drain_task_frames(&mut server) {
        server.handle_frame_at(frame, own, 0);
    }
    assert!(server.queued_messages().is_empty());
    assert_eq!(
        drain_deliveries(&mut b),
        vec![(TaskID::from(1), MessageTypeID::from(1), vec![7])]
    );
}
