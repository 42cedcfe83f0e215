use std::collections::HashMap;
use std::time::Instant;

use futures::sync::mpsc::{UnboundedReceiver, UnboundedSender};
use vstd::prelude::*;
use vstd::std_specs::iter::IteratorSpec;

use crate::frame::Frame;
use crate::handle::{Delivery, TaskHandle};
use crate::outside::{
    channel_send, clock_start, clone_sender, elapsed_nanos, new_channel, ClockReading, Delivered,
    Refused,
};
use crate::peer::PeerAddr;
use crate::{MessageTypeID, TaskID};

verus! {

broadcast use vstd::std_specs::hash::group_hash_axioms;

/// How long a message may wait for a route before it is dropped, unless
/// set otherwise: five seconds, in nanoseconds.
pub const DEFAULT_QUEUE_TIMEOUT: u128 = 5_000_000_000;

/// The longest span a `std::time::Duration` can hold, in nanoseconds.
pub const MAX_DURATION_NANOS: u128 = 18_446_744_073_709_551_615_999_999_999;

/// A message that waits for a route to its recipient.
#[derive(Debug)]
pub struct QueuedMessage {
    /// When the message is dropped, in nanoseconds on the server's clock.
    pub deadline: u128,
    /// The sender.
    pub from: TaskID,
    /// The message type.
    pub msg_type: MessageTypeID,
    /// The payload.
    pub data: Vec<u8>,
}

/// What the server asks of its socket, in order.
#[derive(Debug)]
pub enum Outgoing {
    /// Send a frame to a peer.
    Send(Frame, PeerAddr),
    /// Flush what has been sent.
    Flush,
}

/// The state of a StahlNet server: its peers, the routes it knows to remote
/// tasks, its local tasks, the messages that wait for a route, and what it
/// has yet to send on its socket. The socket itself, the clock and the
/// shutdown signal are kept by whoever drives the server.
#[derive(Debug)]
pub struct Server {
    addr: PeerAddr,
    epoch: Instant,
    chan_recv: UnboundedReceiver<Frame>,
    chan_send: UnboundedSender<Frame>,
    peers: Vec<PeerAddr>,
    queue_timeout: u128,
    queued_messages: HashMap<u64, Vec<QueuedMessage>>,
    routes: HashMap<u64, (u64, PeerAddr)>,
    send_peer_bye: bool,
    tasks: HashMap<u64, UnboundedSender<Delivery>>,
    outgoing: Vec<Outgoing>,
}

/// The state of a server, as contracts speak of it, with the point on the
/// monotonic clock from which it counts time. Tasks are keyed by the number
/// of their ID; a route is a hop count and the peer to send through.
pub ghost struct ServerView {
    pub addr: PeerAddr,
    pub epoch: Instant,
    pub peers: Seq<PeerAddr>,
    pub queue_timeout: u128,
    pub queued: Map<u64, Seq<QueuedMessage>>,
    pub routes: Map<u64, (u64, PeerAddr)>,
    pub send_peer_bye: bool,
    pub tasks: Set<u64>,
    pub outgoing: Seq<Outgoing>,
}

/// One more hop, wrapping around as unsigned arithmetic does.
pub open spec fn next_hop(hops: u64) -> u64 {
    if hops == u64::MAX {
        0
    } else {
        (hops + 1) as u64
    }
}

/// The sends that pass the queued messages for `task` on to `peer`, in
/// order.
pub open spec fn forwards(queue: Seq<QueuedMessage>, task: TaskID, peer: PeerAddr) -> Seq<Outgoing> {
    queue.map_values(
        |m: QueuedMessage| Outgoing::Send(Frame::Message(m.from, task, m.msg_type, m.data), peer),
    )
}

/// The messages of a queue whose deadline is still to come at `now`, in
/// their order.
pub open spec fn unexpired(queue: Seq<QueuedMessage>, now: u128) -> Seq<QueuedMessage> {
    queue.filter(|m: QueuedMessage| m.deadline > now)
}

/// The queues after expiring those of the tasks listed in `done`: each of
/// them keeps its unexpired messages and is dropped if none is left; the
/// others are as they were.
pub open spec fn partially_expired(
    queued: Map<u64, Seq<QueuedMessage>>,
    done: Seq<u64>,
    now: u128,
) -> Map<u64, Seq<QueuedMessage>> {
    Map::new(
        |k: u64|
            queued.contains_key(k) && (done.contains(k) ==> unexpired(queued[k], now).len() > 0),
        |k: u64|
            if done.contains(k) {
                unexpired(queued[k], now)
            } else {
                queued[k]
            },
    )
}

impl ServerView {
    /// No peer is listed twice, no task has an empty queue, and the queue
    /// timeout is a span a `Duration` can hold.
    pub open spec fn wf(self) -> bool {
        &&& self.peers.no_duplicates()
        &&& self.queue_timeout <= MAX_DURATION_NANOS
        &&& forall|k: u64| #[trigger] self.queued.contains_key(k) ==> self.queued[k].len() > 0
    }

    /// The state with `items` appended to what is to be sent.
    pub open spec fn push_outgoing(self, items: Seq<Outgoing>) -> ServerView {
        ServerView { outgoing: self.outgoing + items, ..self }
    }

    /// The state after queueing `frame` for `peer`, then a flush.
    pub open spec fn send_and_flush(self, frame: Frame, peer: PeerAddr) -> ServerView {
        self.push_outgoing(seq![Outgoing::Send(frame, peer), Outgoing::Flush])
    }

    /// What a broadcast of `frame` sends: the frame to each peer in turn.
    pub open spec fn broadcast_sends(self, frame: Frame) -> Seq<Outgoing> {
        self.peers.map_values(|p: PeerAddr| Outgoing::Send(frame, p))
    }

    /// The state after queueing `frame` for every peer, then a flush.
    pub open spec fn broadcast(self, frame: Frame) -> ServerView {
        self.push_outgoing(self.broadcast_sends(frame).push(Outgoing::Flush))
    }

    /// A new peer is recorded and greeted back; a known one is ignored.
    pub open spec fn after_peer_hello(self, peer: PeerAddr) -> ServerView {
        if self.peers.contains(peer) {
            self
        } else {
            ServerView { peers: self.peers.push(peer), ..self }.send_and_flush(
                Frame::PeerHello,
                peer,
            )
        }
    }

    /// A leaving peer is forgotten.
    pub open spec fn after_peer_bye(self, peer: PeerAddr) -> ServerView {
        if self.peers.contains(peer) {
            ServerView { peers: self.peers.remove(self.peers.index_of(peer)), ..self }
        } else {
            self
        }
    }

    /// A route to `task` through `peer` is taken when no route is known or
    /// it is no longer than the known one, and is then announced to every
    /// peer with one hop more. The messages that waited for a route to
    /// `task` are then sent on to `peer`, in the order they came, followed by
    /// a flush, and the queue is gone.
    pub open spec fn after_task_hello(self, hops: u64, task: TaskID, peer: PeerAddr) -> ServerView {
        if !self.routes.contains_key(task.0) || hops <= self.routes[task.0].0 {
            ServerView { routes: self.routes.insert(task.0, (hops, peer)), ..self }.broadcast(
                Frame::TaskHello(next_hop(hops), task),
            ).forward_queued(task, peer)
        } else {
            self
        }
    }

    /// The messages queued for `task`, sent on to `peer` in order, then a
    /// flush; the queue is dropped. Nothing happens without a queue.
    pub open spec fn forward_queued(self, task: TaskID, peer: PeerAddr) -> ServerView {
        if self.queued.contains_key(task.0) {
            ServerView { queued: self.queued.remove(task.0), ..self }.push_outgoing(
                forwards(self.queued[task.0], task, peer).push(Outgoing::Flush),
            )
        } else {
            self
        }
    }

    /// The messages queued for `task` are dropped. When a route to it is
    /// known, the route is dropped; otherwise, when it is a local task, the
    /// task is dropped. In either case its departure is announced.
    pub open spec fn after_task_bye(self, task: TaskID) -> ServerView {
        let v = ServerView { queued: self.queued.remove(task.0), ..self };
        if v.routes.contains_key(task.0) {
            ServerView { routes: v.routes.remove(task.0), ..v }.broadcast(Frame::TaskBye(task))
        } else if v.tasks.contains(task.0) {
            ServerView { tasks: v.tasks.remove(task.0), ..v }.broadcast(Frame::TaskBye(task))
        } else {
            v
        }
    }

    /// A peer that asks for `task` is told of a known route, one hop longer.
    pub open spec fn after_find_task(self, task: TaskID, peer: PeerAddr) -> ServerView {
        if self.routes.contains_key(task.0) {
            self.send_and_flush(Frame::TaskHello(next_hop(self.routes[task.0].0), task), peer)
        } else {
            self
        }
    }

    /// A message for a task that is not local goes to the peer of the known
    /// route. Without one, every peer is asked for the task and the message
    /// waits in the task's queue until `now` plus the queue timeout.
    pub open spec fn after_send_remote(
        self,
        from: TaskID,
        to: TaskID,
        msg_type: MessageTypeID,
        data: Vec<u8>,
        now: u128,
    ) -> ServerView {
        if self.routes.contains_key(to.0) {
            self.send_and_flush(Frame::Message(from, to, msg_type, data), self.routes[to.0].1)
        } else {
            let v = self.broadcast(Frame::FindTask(to));
            let q = QueuedMessage {
                deadline: (now + self.queue_timeout) as u128,
                from,
                msg_type,
                data,
            };
            ServerView {
                queued: v.queued.insert(
                    to.0,
                    if v.queued.contains_key(to.0) {
                        v.queued[to.0].push(q)
                    } else {
                        seq![q]
                    },
                ),
                ..v
            }
        }
    }

    /// The states a message from `from` to `to` may lead to. A message for a
    /// local task is handed to it, which leaves the state as it was; when
    /// that task no longer listens, and for every other task, it is sent as
    /// a remote message.
    pub open spec fn send_message_outcome(
        self,
        from: TaskID,
        to: TaskID,
        msg_type: MessageTypeID,
        data: Vec<u8>,
        now: u128,
        next: ServerView,
    ) -> bool {
        if self.tasks.contains(to.0) {
            next == self || next == self.after_send_remote(from, to, msg_type, data, now)
        } else {
            next == self.after_send_remote(from, to, msg_type, data, now)
        }
    }

    /// A new local task is recorded and announced at zero hops.
    pub open spec fn after_spawn(self, id: TaskID) -> ServerView {
        ServerView { tasks: self.tasks.insert(id.0), ..self }.broadcast(Frame::TaskHello(0, id))
    }

    /// The state after dropping every queued message whose deadline has
    /// come by `now`, and every queue left empty.
    pub open spec fn after_expiry(self, now: u128) -> ServerView {
        ServerView {
            queued: Map::new(
                |k: u64| self.queued.contains_key(k) && unexpired(self.queued[k], now).len() > 0,
                |k: u64| unexpired(self.queued[k], now),
            ),
            ..self
        }
    }

    /// `d` is the earliest deadline among the queued messages.
    pub open spec fn is_earliest_deadline(self, d: u128) -> bool {
        &&& exists|k: u64, i: int|
            self.queued.contains_key(k) && 0 <= i < self.queued[k].len()
                && #[trigger] self.queued[k][i].deadline == d
        &&& forall|k: u64, i: int|
            self.queued.contains_key(k) && 0 <= i < self.queued[k].len()
                ==> d <= #[trigger] self.queued[k][i].deadline
    }

    /// When the server goes away, it says goodbye to every peer if it is set
    /// to.
    pub open spec fn after_shutdown(self) -> ServerView {
        if self.send_peer_bye {
            self.broadcast(Frame::PeerBye)
        } else {
            self
        }
    }
}

/// The states that handling `frame` from `peer` at `now` may lead to.
pub open spec fn handled(v: ServerView, frame: Frame, peer: PeerAddr, now: u128, next: ServerView) -> bool {
    match frame {
        Frame::PeerHello => next == v.after_peer_hello(peer),
        Frame::PeerBye => next == v.after_peer_bye(peer),
        Frame::TaskHello(hops, task) => next == v.after_task_hello(hops, task, peer),
        Frame::TaskBye(task) => next == v.after_task_bye(task),
        Frame::FindTask(task) => next == v.after_find_task(task, peer),
        Frame::Message(from, to, msg_type, data) => v.send_message_outcome(
            from,
            to,
            msg_type,
            data,
            now,
            next,
        ),
    }
}

impl View for Server {
    type V = ServerView;

    closed spec fn view(&self) -> ServerView {
        ServerView {
            addr: self.addr,
            epoch: self.epoch,
            peers: self.peers@,
            queue_timeout: self.queue_timeout,
            queued: self.queued_messages@.map_values(|q: Vec<QueuedMessage>| q@),
            routes: self.routes@,
            send_peer_bye: self.send_peer_bye,
            tasks: self.tasks@.dom(),
            outgoing: self.outgoing@,
        }
    }
}

/// What a local task receives of a message: the sender, the message type
/// and the payload.
fn local_delivery(from: TaskID, msg_type: MessageTypeID, data: Vec<u8>) -> (d: Delivery)
    ensures
        d == (from, msg_type, data),
{
    (from, msg_type, data)
}

/// A copy of a frame that carries no payload.
fn copy_control_frame(frame: &Frame) -> (r: Frame)
    requires
        !(frame is Message),
    ensures
        r == *frame,
{
    match frame {
        Frame::PeerHello => Frame::PeerHello,
        Frame::PeerBye => Frame::PeerBye,
        Frame::TaskHello(hops, task) => Frame::TaskHello(*hops, *task),
        Frame::TaskBye(task) => Frame::TaskBye(*task),
        Frame::FindTask(task) => Frame::FindTask(*task),
        // A message is never copied this way: `requires` rules it out.
        Frame::Message(_, _, _, _) => Frame::PeerHello,
    }
}

/// The messages of `queue` whose deadline is still to come at `now`.
fn keep_unexpired(queue: Vec<QueuedMessage>, now: u128) -> (r: Vec<QueuedMessage>)
    ensures
        r@ == unexpired(queue@, now),
{
    let ghost q = queue@;
    let mut kept: Vec<QueuedMessage> = Vec::new();
    for m in it: queue
        invariant
            it.seq() == q,
            kept@ == unexpired(q.take(it.index()), now),
    {
        proof {
            reveal_with_fuel(Seq::<_>::filter, 1);
            assert(q.take(it.index() + 1).drop_last() =~= q.take(it.index()));
        }
        if m.deadline > now {
            kept.push(m);
        }
    }
    assert(q.take(q.len() as int) =~= q);
    kept
}

impl Server {
    /// The channel on which frames from local tasks arrive.
    pub closed spec fn task_channel(&self) -> UnboundedReceiver<Frame> {
        self.chan_recv
    }

    /// The server's state is well formed.
    pub open spec fn wf(&self) -> bool {
        self@.wf()
    }

    /// Creates the state of a server listening on `addr`: no peers, routes,
    /// tasks or queued messages, the default queue timeout, saying goodbye
    /// to peers when it goes away, and nothing to send.
    pub fn new(addr: PeerAddr) -> (s: Server)
        ensures
            s.wf(),
            s@ == (ServerView {
                addr,
                epoch: s@.epoch,
                peers: Seq::empty(),
                queue_timeout: DEFAULT_QUEUE_TIMEOUT,
                queued: Map::empty(),
                routes: Map::empty(),
                send_peer_bye: true,
                tasks: Set::empty(),
                outgoing: Seq::empty(),
            }),
    {
        let (chan_send, chan_recv) = new_channel();
        let s = Server {
            addr,
            epoch: clock_start(),
            chan_recv,
            chan_send,
            peers: Vec::new(),
            queue_timeout: DEFAULT_QUEUE_TIMEOUT,
            queued_messages: HashMap::new(),
            routes: HashMap::new(),
            send_peer_bye: true,
            tasks: HashMap::new(),
            outgoing: Vec::new(),
        };
        assert(s@.queued =~= Map::empty());
        assert(s@.tasks =~= Set::empty());
        s
    }

    /// Queues `frame` for `peer`.
    fn queue_send(&mut self, frame: Frame, peer: PeerAddr)
        ensures
            final(self)@ == old(self)@.push_outgoing(seq![Outgoing::Send(frame, peer)]),
    {
        self.outgoing.push(Outgoing::Send(frame, peer));
        assert(final(self)@.outgoing =~= old(self)@.outgoing + seq![Outgoing::Send(frame, peer)]);
    }

    /// Queues a flush.
    fn queue_flush(&mut self)
        ensures
            final(self)@ == old(self)@.push_outgoing(seq![Outgoing::Flush]),
    {
        self.outgoing.push(Outgoing::Flush);
        assert(final(self)@.outgoing =~= old(self)@.outgoing + seq![Outgoing::Flush]);
    }

    /// Queues `frame` for `peer`, then a flush.
    fn queue_send_and_flush(&mut self, frame: Frame, peer: PeerAddr)
        ensures
            final(self)@ == old(self)@.send_and_flush(frame, peer),
    {
        self.queue_send(frame, peer);
        self.queue_flush();
        assert(final(self)@.outgoing =~= old(self)@.send_and_flush(frame, peer).outgoing);
    }

    /// Queues `frame` for every peer, then a flush.
    fn broadcast(&mut self, frame: Frame)
        requires
            !(frame is Message),
        ensures
            final(self)@ == old(self)@.broadcast(frame),
    {
        let n = self.peers.len();
        let ghost sends = old(self)@.broadcast_sends(frame);
        for i in 0..n
            invariant
                n == self.peers@.len(),
                !(frame is Message),
                self@ == old(self)@.push_outgoing(sends.take(i as int)),
                sends == old(self)@.broadcast_sends(frame),
                self.peers@ == old(self)@.peers,
        {
            let peer = self.peers[i];
            self.queue_send(copy_control_frame(&frame), peer);
            assert(sends.take(i + 1) =~= sends.take(i as int) + seq![Outgoing::Send(frame, peer)]);
            assert(self@.outgoing =~= old(self)@.push_outgoing(sends.take(i + 1)).outgoing);
        }
        self.queue_flush();
        assert(sends.take(n as int) =~= sends);
        assert(self@.outgoing =~= old(self)@.broadcast(frame).outgoing);
    }

    /// Asks `peer` to become a peer of this server, by greeting it.
    pub fn add_peer(&mut self, peer: PeerAddr)
        requires
            old(self).wf(),
        ensures
            final(self).wf(),
            final(self)@ == old(self)@.send_and_flush(Frame::PeerHello, peer),
    {
        self.queue_send_and_flush(Frame::PeerHello, peer);
    }

    /// The index at which `peer` is listed, if it is.
    fn find_peer(&self, peer: PeerAddr) -> (r: Option<usize>)
        ensures
            match r {
                Some(i) => i < self@.peers.len() && self@.peers[i as int] == peer,
                None => !self@.peers.contains(peer),
            },
    {
        let n = self.peers.len();
        for i in 0..n
            invariant
                n == self.peers@.len(),
                forall|j: int| 0 <= j < i ==> self.peers@[j] != peer,
        {
            if self.peers[i] == peer {
                return Some(i);
            }
        }
        None
    }

    /// Handles a `PeerHello` from `peer`.
    fn handle_peer_hello(&mut self, peer: PeerAddr)
        requires
            old(self).wf(),
        ensures
            final(self).wf(),
            final(self)@ == old(self)@.after_peer_hello(peer),
    {
        if self.find_peer(peer).is_none() {
            self.peers.push(peer);
            self.queue_send_and_flush(Frame::PeerHello, peer);
        }
    }

    /// Handles a `PeerBye` from `peer`.
    fn handle_peer_bye(&mut self, peer: PeerAddr)
        requires
            old(self).wf(),
        ensures
            final(self).wf(),
            final(self)@ == old(self)@.after_peer_bye(peer),
    {
        match self.find_peer(peer) {
            Some(i) => {
                let ghost v = self@;
                assert(v.peers.index_of(peer) == i) by {
                    assert(v.peers.contains(peer));
                };
                let _ = self.peers.remove(i);
                assert(self@.peers =~= v.peers.remove(i as int));
            },
            None => {},
        }
    }

    /// Handles a `TaskHello` for `task` at `hops` hops, heard from `peer`.
    fn handle_task_hello(&mut self, hops: u64, task: TaskID, peer: PeerAddr)
        requires
            old(self).wf(),
        ensures
            final(self).wf(),
            final(self)@ == old(self)@.after_task_hello(hops, task, peer),
    {
        let better = match self.routes.get(&task.0) {
            Some(route) => hops <= route.0,
            None => true,
        };
        if better {
            let _ = self.routes.insert(task.0, (hops, peer));
            let next = if hops == u64::MAX {
                0
            } else {
                hops + 1
            };
            self.broadcast(Frame::TaskHello(next, task));
            self.forward_queued(task, peer);
        }
    }

    /// Sends the messages queued for `task` on to `peer`, in order, then a
    /// flush, and drops the queue.
    fn forward_queued(&mut self, task: TaskID, peer: PeerAddr)
        requires
            old(self).wf(),
        ensures
            final(self).wf(),
            final(self)@ == old(self)@.forward_queued(task, peer),
    {
        let ghost v = self@;
        match self.queued_messages.remove(&task.0) {
            Some(queue) => {
                let ghost q = queue@;
                assert(q == v.queued[task.0]);
                assert(self@ == ServerView { queued: v.queued.remove(task.0), ..v }) by {
                    assert(self@.queued =~= v.queued.remove(task.0));
                };
                let ghost w = self@;
                let ghost sends = forwards(q, task, peer);
                for m in it: queue
                    invariant
                        it.seq() == q,
                        self@ == w.push_outgoing(sends.take(it.index())),
                        sends == forwards(q, task, peer),
                {
                    let ghost i = it.index();
                    assert(m == q[i]);
                    self.queue_send(Frame::Message(m.from, task, m.msg_type, m.data), peer);
                    assert(sends.take(i + 1) =~= sends.take(i) + seq![sends[i]]);
                    assert(self@.outgoing =~= w.push_outgoing(sends.take(i + 1)).outgoing);
                }
                self.queue_flush();
                assert(sends.take(q.len() as int) =~= sends);
                assert(self@.outgoing =~= v.forward_queued(task, peer).outgoing);
            },
            None => {
                assert(self@.queued =~= v.queued);
            },
        }
    }

    /// Handles a `TaskBye` for `task`.
    fn handle_task_bye(&mut self, task: TaskID)
        requires
            old(self).wf(),
        ensures
            final(self).wf(),
            final(self)@ == old(self)@.after_task_bye(task),
    {
        let _ = self.queued_messages.remove(&task.0);
        assert(self@.queued =~= old(self)@.queued.remove(task.0));
        let ghost v = self@;
        assert(v == ServerView { queued: old(self)@.queued.remove(task.0), ..old(self)@ });
        let was_known = if self.routes.remove(&task.0).is_some() {
            assert(v.routes.contains_key(task.0));
            assert(self@ == ServerView { routes: v.routes.remove(task.0), ..v });
            true
        } else {
            assert(!v.routes.contains_key(task.0));
            assert(self@.routes =~= v.routes);
            let removed = self.tasks.remove(&task.0).is_some();
            if removed {
                assert(self@.tasks =~= v.tasks.remove(task.0));
                assert(self@ == ServerView { tasks: v.tasks.remove(task.0), ..v });
            } else {
                assert(self@.tasks =~= v.tasks);
                assert(self@ == v);
            }
            removed
        };
        if was_known {
            self.broadcast(Frame::TaskBye(task));
        }
    }

    /// Handles a `FindTask` for `task` from `peer`.
    fn handle_find_task(&mut self, task: TaskID, peer: PeerAddr)
        requires
            old(self).wf(),
        ensures
            final(self).wf(),
            final(self)@ == old(self)@.after_find_task(task, peer),
    {
        let known = match self.routes.get(&task.0) {
            Some(route) => Some(route.0),
            None => None,
        };
        if let Some(hops) = known {
            let next = if hops == u64::MAX {
                0
            } else {
                hops + 1
            };
            self.queue_send_and_flush(Frame::TaskHello(next, task), peer);
        }
    }

    /// Sends a message to a task that is not local: through the known route,
    /// or, without one, into the task's queue after asking every peer for it.
    fn send_message_remote(
        &mut self,
        from: TaskID,
        to: TaskID,
        msg_type: MessageTypeID,
        data: Vec<u8>,
        now: u128,
    )
        requires
            old(self).wf(),
            now <= MAX_DURATION_NANOS,
        ensures
            final(self).wf(),
            final(self)@ == old(self)@.after_send_remote(from, to, msg_type, data, now),
    {
        let route = match self.routes.get(&to.0) {
            Some(route) => Some(route.1),
            None => None,
        };
        match route {
            Some(peer) => {
                self.queue_send_and_flush(Frame::Message(from, to, msg_type, data), peer);
            },
            None => {
                self.broadcast(Frame::FindTask(to));
                let ghost v = self@;
                let msg = QueuedMessage { deadline: now + self.queue_timeout, from, msg_type, data };
                let mut queue = match self.queued_messages.remove(&to.0) {
                    Some(queue) => queue,
                    None => Vec::new(),
                };
                queue.push(msg);
                let _ = self.queued_messages.insert(to.0, queue);
                let ghost expected = old(self)@.after_send_remote(from, to, msg_type, data, now);
                assert(self@.queued =~= expected.queued);
                assert(self@.tasks =~= expected.tasks);
            },
        }
    }

    /// Sends a message, to a local task when `to` is one and it still
    /// listens, and as a remote message otherwise.
    fn send_message(
        &mut self,
        from: TaskID,
        to: TaskID,
        msg_type: MessageTypeID,
        data: Vec<u8>,
        now: u128,
    ) -> (attempt: Option<Result<Delivered<Delivery>, Refused<Delivery>>>)
        requires
            old(self).wf(),
            now <= MAX_DURATION_NANOS,
        ensures
            final(self).wf(),
            old(self)@.send_message_outcome(from, to, msg_type, data, now, final(self)@),
            match attempt {
                None => !old(self)@.tasks.contains(to.0) && final(self)@ == old(self)@.after_send_remote(
                    from,
                    to,
                    msg_type,
                    data,
                    now,
                ),
                Some(Ok(d)) => old(self)@.tasks.contains(to.0) && d.message() == (from, msg_type, data)
                    && final(self)@ == old(self)@,
                Some(Err(f)) => old(self)@.tasks.contains(to.0) && f.message() == (
                    from,
                    msg_type,
                    data,
                ) && final(self)@ == old(self)@.after_send_remote(from, to, msg_type, data, now),
            },
    {
        let local = match self.tasks.get(&to.0) {
            Some(chan) => {
                let delivery = local_delivery(from, msg_type, data);
                Ok(channel_send(chan, delivery))
            },
            None => Err(data),
        };
        match local {
            Ok(Ok(delivered)) => {
                self.complete_local_send(from, to, msg_type, Ok(()), now);
                Some(Ok(delivered))
            },
            Ok(Err((refused, back))) => {
                self.complete_local_send(from, to, msg_type, Err(back), now);
                Some(Err(refused))
            },
            Err(data) => {
                self.send_message_remote(from, to, msg_type, data, now);
                None
            },
        }
    }

    /// Finishes a message that was handed to the local task `to`: when the
    /// task took it, nothing more is done; when its channel gave the
    /// delivery back, the message is sent as a remote message with the
    /// payload that came back.
    pub fn complete_local_send(
        &mut self,
        from: TaskID,
        to: TaskID,
        msg_type: MessageTypeID,
        sent: Result<(), Delivery>,
        now: u128,
    )
        requires
            old(self).wf(),
            now <= MAX_DURATION_NANOS,
        ensures
            final(self).wf(),
            match sent {
                Ok(()) => final(self)@ == old(self)@,
                Err(d) => final(self)@ == old(self)@.after_send_remote(from, to, msg_type, d.2, now),
            },
    {
        match sent {
            Ok(()) => {},
            Err(returned) => {
                self.send_message_remote(from, to, msg_type, returned.2, now);
            },
        }
    }

    /// Handles an incoming frame from `peer`, at time `now` (in nanoseconds
    /// on the server's clock). Frames that local tasks send come in with the
    /// server's own address as `peer`.
    pub fn handle_frame_at(&mut self, frame: Frame, peer: PeerAddr, now: u128)
        requires
            old(self).wf(),
            now <= MAX_DURATION_NANOS,
        ensures
            final(self).wf(),
            handled(old(self)@, frame, peer, now, final(self)@),
    {
        match frame {
            Frame::PeerHello => self.handle_peer_hello(peer),
            Frame::PeerBye => self.handle_peer_bye(peer),
            Frame::TaskHello(hops, task) => self.handle_task_hello(hops, task, peer),
            Frame::TaskBye(task) => self.handle_task_bye(task),
            Frame::FindTask(task) => self.handle_find_task(task, peer),
            Frame::Message(from, to, msg_type, data) => {
                let _ = self.send_message(from, to, msg_type, data, now);
            },
        }
    }

    /// Handles an incoming frame from `peer`, at the present time on the
    /// server's clock. Frames that local tasks send come in with the
    /// server's own address as `peer`.
    pub fn handle_frame(&mut self, frame: Frame, peer: PeerAddr) -> (t: ClockReading)
        requires
            old(self).wf(),
        ensures
            final(self).wf(),
            t.value() <= MAX_DURATION_NANOS,
            handled(old(self)@, frame, peer, t.value(), final(self)@),
    {
        let t = elapsed_nanos(&self.epoch);
        self.handle_frame_at(frame, peer, t.nanos());
        t
    }

    /// Sets whether to say goodbye to the peers when the server goes away.
    /// (Default `true`.)
    pub fn set_send_peer_bye(&mut self, send_peer_bye: bool)
        requires
            old(self).wf(),
        ensures
            final(self).wf(),
            final(self)@ == (ServerView { send_peer_bye, ..old(self)@ }),
    {
        self.send_peer_bye = send_peer_bye;
    }

    /// Sets how long, in nanoseconds, a message may wait for a route before
    /// it is dropped. (Default five seconds.) The span is one that a
    /// `Duration` can hold.
    pub fn set_queue_timeout(&mut self, queue_timeout: u128)
        requires
            old(self).wf(),
            queue_timeout <= MAX_DURATION_NANOS,
        ensures
            final(self).wf(),
            final(self)@ == (ServerView { queue_timeout, ..old(self)@ }),
    {
        self.queue_timeout = queue_timeout;
    }

    /// Spawns a local task with the given ID and announces it to every peer,
    /// returning a handle that can be used to refer to it.
    pub fn spawn_task_with_id(&mut self, id: TaskID) -> (h: TaskHandle)
        requires
            old(self).wf(),
        ensures
            final(self).wf(),
            final(self)@ == old(self)@.after_spawn(id),
            h@.id == id,
            h@.name is None,
    {
        let (send, recv) = new_channel();
        let _ = self.tasks.insert(id.0, send);
        assert(self@.tasks =~= old(self)@.tasks.insert(id.0));
        self.broadcast(Frame::TaskHello(0, id));
        TaskHandle::new(id, recv, clone_sender(&self.chan_send))
    }

    /// Spawns a local task with a random ID and announces it to every peer,
    /// returning a handle that can be used to refer to it.
    pub fn spawn_task(&mut self) -> (h: TaskHandle)
        requires
            old(self).wf(),
        ensures
            final(self).wf(),
            final(self)@ == old(self)@.after_spawn(h@.id),
            h@.name is None,
    {
        self.spawn_task_with_id(TaskID::rand())
    }

    /// Prepares the server to go away: when it is set to, it says goodbye to
    /// every peer.
    pub fn shut_down(&mut self)
        requires
            old(self).wf(),
        ensures
            final(self).wf(),
            final(self)@ == old(self)@.after_shutdown(),
    {
        if self.send_peer_bye {
            self.broadcast(Frame::PeerBye);
        }
    }

    /// Takes out what the server has to send on its socket, in order.
    pub fn take_outgoing(&mut self) -> (r: Vec<Outgoing>)
        requires
            old(self).wf(),
        ensures
            final(self).wf(),
            r@ == old(self)@.outgoing,
            final(self)@ == (ServerView { outgoing: Seq::empty(), ..old(self)@ }),
    {
        let mut r = Vec::new();
        std::mem::swap(&mut r, &mut self.outgoing);
        assert(self@.outgoing =~= Seq::<Outgoing>::empty());
        r
    }

    /// The IDs of the tasks that have queued messages, each once.
    fn queued_keys(&self) -> (keys: Vec<u64>)
        ensures
            keys@.no_duplicates(),
            forall|k: u64| self@.queued.contains_key(k) <==> keys@.contains(k),
    {
        let mut keys: Vec<u64> = Vec::new();
        for k in it: self.queued_messages.keys()
            invariant
                keys@ == it.seq().take(it.index()).unref(),
                it.seq() == vstd::std_specs::hash::spec_keys_iter(&self.queued_messages).remaining(),
        {
            keys.push(*k);
            assert(keys@ =~= it.seq().take(it.index() + 1).unref());
        }
        assert(keys@ =~= vstd::std_specs::hash::spec_keys_iter(&self.queued_messages).remaining().unref());
        keys
    }

    /// The earliest deadline among the queued messages, if any message is
    /// queued: the time at which the server next has messages to expire.
    pub fn next_deadline(&self) -> (r: Option<u128>)
        requires
            self.wf(),
        ensures
            match r {
                Some(d) => self@.is_earliest_deadline(d),
                None => self@.queued.dom() == Set::<u64>::empty(),
            },
    {
        let ghost v = self@;
        let keys = self.queued_keys();
        let nk = keys.len();
        let mut best: Option<u128> = None;
        for i in 0..nk
            invariant
                v == self@,
                v.wf(),
                nk == keys@.len(),
                forall|k: u64| v.queued.contains_key(k) <==> keys@.contains(k),
                best is None ==> i == 0,
                best matches Some(d) ==> {
                    &&& exists|j: int, m: int|
                        0 <= j < i && 0 <= m < v.queued[keys@[j]].len()
                            && #[trigger] v.queued[keys@[j]][m].deadline == d
                    &&& forall|j: int, m: int|
                        0 <= j < i && 0 <= m < v.queued[keys@[j]].len()
                            ==> d <= #[trigger] v.queued[keys@[j]][m].deadline
                },
        {
            let key = keys[i];
            assert(v.queued.contains_key(key)) by {
                assert(keys@[i as int] == key);
                assert(keys@.contains(key));
            };
            let queue = self.queued_messages.get(&key).unwrap();
            assert(queue@ == v.queued[key]);
            let n = queue.len();
            let ghost best_before = best;
            for j in 0..n
                invariant
                    n == queue@.len(),
                    queue@ == v.queued[key],
                    key == keys@[i as int],
                    queue@.len() > 0,
                    best is None ==> (j == 0 && best_before is None),
                    best_before is None ==> i == 0,
                    best_before matches Some(d0) ==> {
                        &&& exists|jj: int, m: int|
                            0 <= jj < i && 0 <= m < v.queued[keys@[jj]].len()
                                && #[trigger] v.queued[keys@[jj]][m].deadline == d0
                        &&& forall|jj: int, m: int|
                            0 <= jj < i && 0 <= m < v.queued[keys@[jj]].len()
                                ==> d0 <= #[trigger] v.queued[keys@[jj]][m].deadline
                    },
                    best matches Some(d) ==> {
                        &&& (best_before matches Some(d0) && d == d0)
                            || (exists|m: int| 0 <= m < j && #[trigger] queue@[m].deadline == d)
                        &&& best_before matches Some(d0) ==> d <= d0
                        &&& forall|m: int| 0 <= m < j ==> d <= #[trigger] queue@[m].deadline
                    },
            {
                let deadline = queue[j].deadline;
                best = match best {
                    Some(d) => if deadline < d {
                        Some(deadline)
                    } else {
                        Some(d)
                    },
                    None => Some(deadline),
                };
            }
            proof {
                if let Some(d) = best {
                    if let Some(d0) = best_before {
                        if d == d0 {
                            let (jj, m) = choose|jj: int, m: int|
                                0 <= jj < i && 0 <= m < v.queued[keys@[jj]].len()
                                    && #[trigger] v.queued[keys@[jj]][m].deadline == d0;
                            assert(v.queued[keys@[jj]][m].deadline == d);
                        } else {
                            let m = choose|m: int| 0 <= m < n && #[trigger] queue@[m].deadline == d;
                            assert(v.queued[keys@[i as int]][m].deadline == d);
                        }
                    } else {
                        let m = choose|m: int| 0 <= m < n && #[trigger] queue@[m].deadline == d;
                        assert(v.queued[keys@[i as int]][m].deadline == d);
                    }
                    assert forall|jj: int, m: int|
                        0 <= jj < i + 1 && 0 <= m < v.queued[keys@[jj]].len()
                            implies d <= #[trigger] v.queued[keys@[jj]][m].deadline by {
                        if jj < i {
                            let d0 = best_before->0;
                            assert(d0 <= v.queued[keys@[jj]][m].deadline);
                        } else {
                            assert(queue@[m].deadline == v.queued[keys@[jj]][m].deadline);
                        }
                    };
                }
            }
        }
        proof {
            if let Some(d) = best {
                let (jj, m) = choose|jj: int, m: int|
                    0 <= jj < nk && 0 <= m < v.queued[keys@[jj]].len()
                        && #[trigger] v.queued[keys@[jj]][m].deadline == d;
                assert(keys@.contains(keys@[jj]));
                assert(v.queued.contains_key(keys@[jj]));
                assert forall|k: u64, m: int|
                    v.queued.contains_key(k) && 0 <= m < v.queued[k].len()
                        implies d <= #[trigger] v.queued[k][m].deadline by {
                    assert(keys@.contains(k));
                    let jk = choose|jk: int| 0 <= jk < keys@.len() && keys@[jk] == k;
                    assert(d <= v.queued[keys@[jk]][m].deadline);
                };
            } else {
                assert(nk == 0);
                assert forall|k: u64| !v.queued.contains_key(k) by {
                    if v.queued.contains_key(k) {
                        assert(keys@.contains(k));
                    }
                };
                assert(v.queued.dom() =~= Set::<u64>::empty());
            }
        }
        best
    }

    /// The address the server listens on.
    pub fn addr(&self) -> (r: PeerAddr)
        ensures
            r == self@.addr,
    {
        self.addr
    }

    /// The point on the monotonic clock from which the server counts time.
    pub fn epoch(&self) -> (r: Instant)
        ensures
            r == self@.epoch,
    {
        self.epoch
    }

    /// The known peers.
    pub fn peers(&self) -> (r: &Vec<PeerAddr>)
        ensures
            r@ == self@.peers,
    {
        &self.peers
    }

    /// How long, in nanoseconds, a message may wait for a route.
    pub fn queue_timeout(&self) -> (r: u128)
        ensures
            r == self@.queue_timeout,
    {
        self.queue_timeout
    }

    /// Whether the server says goodbye to its peers when it goes away.
    pub fn send_peer_bye(&self) -> (r: bool)
        ensures
            r == self@.send_peer_bye,
    {
        self.send_peer_bye
    }

    /// The messages that wait for a route, by the number of their
    /// recipient's ID.
    pub fn queued_messages(&self) -> (r: &HashMap<u64, Vec<QueuedMessage>>)
        ensures
            r@.map_values(|q: Vec<QueuedMessage>| q@) == self@.queued,
    {
        &self.queued_messages
    }

    /// The known routes, by the number of the task's ID: a hop count and the
    /// peer to send through.
    pub fn routes(&self) -> (r: &HashMap<u64, (u64, PeerAddr)>)
        ensures
            r@ == self@.routes,
    {
        &self.routes
    }

    /// The local tasks, by the number of their ID, each with the channel on
    /// which its messages go.
    pub fn tasks(&self) -> (r: &HashMap<u64, UnboundedSender<Delivery>>)
        ensures
            r@.dom() == self@.tasks,
    {
        &self.tasks
    }

    /// The channel on which frames from local tasks arrive.
    pub fn task_frames(&mut self) -> (r: &mut UnboundedReceiver<Frame>)
        ensures
            *r == old(self).task_channel(),
            final(self)@ == old(self)@,
            final(self).task_channel() == *final(r),
    {
        &mut self.chan_recv
    }

    /// Drops every queued message whose deadline has come by the present
    /// time on the server's clock, and every queue left empty.
    pub fn expire_queued(&mut self) -> (t: ClockReading)
        requires
            old(self).wf(),
        ensures
            final(self).wf(),
            t.value() <= MAX_DURATION_NANOS,
            final(self)@ == old(self)@.after_expiry(t.value()),
    {
        let t = elapsed_nanos(&self.epoch);
        self.expire_queued_at(t.nanos());
        t
    }

    /// Drops every queued message whose deadline has come by `now`, and
    /// every queue left empty.
    pub fn expire_queued_at(&mut self, now: u128)
        requires
            old(self).wf(),
        ensures
            final(self).wf(),
            final(self)@ == old(self)@.after_expiry(now),
    {
        let ghost old_v = self@;
        let keys = self.queued_keys();
        let n = keys.len();
        let mut i: usize = 0;
        assert(partially_expired(old_v.queued, keys@.take(0), now) =~= old_v.queued);
        while i < n
            invariant
                n == keys@.len(),
                i <= n,
                keys@.no_duplicates(),
                forall|k: u64| old_v.queued.contains_key(k) <==> keys@.contains(k),
                old_v == old(self)@,
                old_v.wf(),
                self@ == (ServerView {
                    queued: partially_expired(old_v.queued, keys@.take(i as int), now),
                    ..old_v
                }),
            decreases n - i,
        {
            let k = keys[i];
            let ghost before = self@;
            assert(!keys@.take(i as int).contains(k)) by {
                if keys@.take(i as int).contains(k) {
                    let j = choose|j: int| 0 <= j < i && keys@.take(i as int)[j] == k;
                    assert(keys@[j] == keys@[i as int]);
                }
            };
            assert(keys@.contains(k)) by {
                assert(keys@[i as int] == k);
            };
            let ghost done = keys@.take(i as int);
            let ghost done_next = done.push(k);
            assert(keys@.take(i + 1) =~= done_next);
            assert(before.queued.contains_key(k) && before.queued[k] == old_v.queued[k]);
            match self.queued_messages.remove(&k) {
                Some(queue) => {
                    assert(queue@ == old_v.queued[k]);
                    let kept = keep_unexpired(queue, now);
                    if kept.len() > 0 {
                        let _ = self.queued_messages.insert(k, kept);
                        assert(self@.queued =~= before.queued.insert(k, unexpired(old_v.queued[k], now)));
                    } else {
                        assert(self@.queued =~= before.queued.remove(k));
                    }
                },
                None => {
                    assert(false);
                },
            }
            assert forall|x: u64| #[trigger] done_next.contains(x) <==> (done.contains(x) || x == k) by {
                if x == k {
                    assert(done_next[i as int] == k);
                }
                if done.contains(x) {
                    let j = choose|j: int| 0 <= j < done.len() && done[j] == x;
                    assert(done_next[j] == x);
                }
                if done_next.contains(x) && x != k {
                    let j = choose|j: int| 0 <= j < done_next.len() && done_next[j] == x;
                    assert(done[j] == x);
                }
            };
            i += 1;
            assert(self@.queued =~= partially_expired(old_v.queued, keys@.take(i as int), now));
        }
        assert(keys@.take(n as int) =~= keys@);
        assert(self@.queued =~= old_v.after_expiry(now).queued);
    }
}

} // verus!

verus! {

/// Greeting a peer twice is the same as greeting it once: the second
/// `PeerHello` from a known peer changes nothing.
pub proof fn lemma_peer_hello_idempotent(v: ServerView, peer: PeerAddr)
    ensures
        v.after_peer_hello(peer).after_peer_hello(peer) == v.after_peer_hello(peer),
{
    if !v.peers.contains(peer) {
        let w = v.after_peer_hello(peer);
        assert(w.peers[w.peers.len() - 1] == peer);
        assert(w.peers.contains(peer));
    }
}

/// A `TaskHello` never lengthens a known route: afterwards every task that
/// had a route still has one, no longer than before, and the announced task
/// has a route no longer than the announcement.
pub proof fn lemma_task_hello_never_lengthens_routes(
    v: ServerView,
    hops: u64,
    task: TaskID,
    peer: PeerAddr,
    k: u64,
)
    ensures
        v.routes.contains_key(k) ==> {
            &&& v.after_task_hello(hops, task, peer).routes.contains_key(k)
            &&& v.after_task_hello(hops, task, peer).routes[k].0 <= v.routes[k].0
        },
        v.after_task_hello(hops, task, peer).routes.contains_key(task.0),
        v.after_task_hello(hops, task, peer).routes[task.0].0 <= hops,
{
}

/// When a route to `task` is taken, the messages that waited for it go to
/// the route's peer, in their order, and no queue for `task` is left.
pub proof fn lemma_route_releases_queue(v: ServerView, hops: u64, task: TaskID, peer: PeerAddr)
    requires
        !v.routes.contains_key(task.0) || hops <= v.routes[task.0].0,
    ensures
        v.after_task_hello(hops, task, peer).routes[task.0] == (hops, peer),
        !v.after_task_hello(hops, task, peer).queued.contains_key(task.0),
        v.queued.contains_key(task.0) ==> v.after_task_hello(hops, task, peer).outgoing
            == v.outgoing + v.broadcast_sends(Frame::TaskHello(next_hop(hops), task)).push(
            Outgoing::Flush,
        ) + forwards(v.queued[task.0], task, peer).push(Outgoing::Flush),
{
    let w = ServerView { routes: v.routes.insert(task.0, (hops, peer)), ..v }.broadcast(
        Frame::TaskHello(next_hop(hops), task),
    );
    assert(w.broadcast_sends(Frame::TaskHello(next_hop(hops), task)) == v.broadcast_sends(
        Frame::TaskHello(next_hop(hops), task),
    ));
    if v.queued.contains_key(task.0) {
        assert(v.after_task_hello(hops, task, peer).outgoing =~= v.outgoing
            + v.broadcast_sends(Frame::TaskHello(next_hop(hops), task)).push(Outgoing::Flush)
            + forwards(v.queued[task.0], task, peer).push(Outgoing::Flush));
    }
}

/// Only `TaskHello` and `TaskBye` change the routes: greeting or losing a
/// peer, answering a `FindTask`, sending a message, spawning a task,
/// expiring queued messages and shutting down leave them as they are.
pub proof fn lemma_routes_change_only_on_task_frames(
    v: ServerView,
    peer: PeerAddr,
    task: TaskID,
    from: TaskID,
    msg_type: MessageTypeID,
    data: Vec<u8>,
    now: u128,
)
    ensures
        v.after_peer_hello(peer).routes == v.routes,
        v.after_peer_bye(peer).routes == v.routes,
        v.after_find_task(task, peer).routes == v.routes,
        v.after_send_remote(from, task, msg_type, data, now).routes == v.routes,
        v.after_spawn(task).routes == v.routes,
        v.after_expiry(now).routes == v.routes,
        v.after_shutdown().routes == v.routes,
{
}

/// When a local task says goodbye and no route to a task of its ID is
/// known, the server forgets the task and every message queued for it.
pub proof fn lemma_task_bye_forgets_local_task(v: ServerView, task: TaskID)
    requires
        !v.routes.contains_key(task.0),
    ensures
        !v.after_task_bye(task).tasks.contains(task.0),
        !v.after_task_bye(task).queued.contains_key(task.0),
        v.after_task_bye(task).routes == v.routes,
{
}

/// Spawning a task and then saying goodbye for it leaves the tasks, routes
/// and peers as they were, when the ID was neither a local task nor routed
/// before; only the messages queued for that ID are gone.
pub proof fn lemma_spawn_then_bye_leaves_no_trace(v: ServerView, id: TaskID)
    requires
        !v.tasks.contains(id.0),
        !v.routes.contains_key(id.0),
    ensures
        v.after_spawn(id).after_task_bye(id).tasks == v.tasks,
        v.after_spawn(id).after_task_bye(id).routes == v.routes,
        v.after_spawn(id).after_task_bye(id).peers == v.peers,
        v.after_spawn(id).after_task_bye(id).queued == v.queued.remove(id.0),
{
    assert(v.after_spawn(id).after_task_bye(id).tasks =~= v.tasks);
}

/// A broadcast sends the frame once to each known peer and to nobody else.
pub proof fn lemma_broadcast_reaches_each_peer_once(v: ServerView, frame: Frame, p: PeerAddr)
    requires
        v.wf(),
    ensures
        v.broadcast_sends(frame).len() == v.peers.len(),
        v.broadcast_sends(frame).contains(Outgoing::Send(frame, p)) <==> v.peers.contains(p),
        forall|i: int, j: int|
            0 <= i < j < v.peers.len() ==> v.broadcast_sends(frame)[i] != v.broadcast_sends(
                frame,
            )[j],
{
    let sends = v.broadcast_sends(frame);
    if v.peers.contains(p) {
        let i = choose|i: int| 0 <= i < v.peers.len() && v.peers[i] == p;
        assert(sends[i] == Outgoing::Send(frame, p));
    }
    if sends.contains(Outgoing::Send(frame, p)) {
        let i = choose|i: int| 0 <= i < sends.len() && sends[i] == Outgoing::Send(frame, p);
        assert(v.peers[i] == p);
    }
    assert forall|i: int, j: int| 0 <= i < j < v.peers.len() implies sends[i] != sends[j] by {
        assert(v.peers[i] != v.peers[j]);
    };
}

/// Filtering out the expired messages of a queue twice is the same as
/// doing it once.
proof fn lemma_unexpired_idempotent(q: Seq<QueuedMessage>, now: u128)
    ensures
        unexpired(unexpired(q, now), now) == unexpired(q, now),
    decreases q.len(),
{
    reveal_with_fuel(Seq::<_>::filter, 1);
    if q.len() > 0 {
        lemma_unexpired_idempotent(q.drop_last(), now);
        let r = unexpired(q.drop_last(), now);
        if q.last().deadline > now {
            assert(r.push(q.last()).drop_last() =~= r);
        }
    }
}

/// A message stays in its queue exactly when its deadline is still to come.
proof fn lemma_unexpired_contains(q: Seq<QueuedMessage>, now: u128, m: QueuedMessage)
    ensures
        unexpired(q, now).contains(m) <==> (q.contains(m) && m.deadline > now),
{
    broadcast use vstd::seq_lib::group_seq_properties;

    let pred = |x: QueuedMessage| x.deadline > now;
    if q.contains(m) && m.deadline > now {
        let i = choose|i: int| 0 <= i < q.len() && q[i] == m;
        q.lemma_filter_contains(pred, i);
    }
    if unexpired(q, now).contains(m) {
        q.lemma_filter_contains_rev(pred, m);
    }
}

/// Expiring at the same time twice is the same as expiring once.
pub proof fn lemma_expiry_idempotent(v: ServerView, now: u128)
    ensures
        v.after_expiry(now).after_expiry(now) == v.after_expiry(now),
{
    let w = v.after_expiry(now);
    assert forall|k: u64| w.queued.contains_key(k) implies unexpired(w.queued[k], now)
        == w.queued[k] by {
        lemma_unexpired_idempotent(v.queued[k], now);
    };
    assert(w.after_expiry(now).queued =~= w.queued);
}

/// After expiring at `now`, a message waits exactly when it waited before
/// and its deadline is still to come; no queue is left empty.
pub proof fn lemma_expiry_keeps_exactly_the_unexpired(
    v: ServerView,
    now: u128,
    k: u64,
    m: QueuedMessage,
)
    ensures
        (v.after_expiry(now).queued.contains_key(k) && v.after_expiry(now).queued[k].contains(m))
            <==> (v.queued.contains_key(k) && v.queued[k].contains(m) && m.deadline > now),
        v.after_expiry(now).queued.contains_key(k) ==> v.after_expiry(now).queued[k].len() > 0,
{
    if v.queued.contains_key(k) {
        lemma_unexpired_contains(v.queued[k], now, m);
        if unexpired(v.queued[k], now).contains(m) {
            assert(unexpired(v.queued[k], now).len() > 0);
        }
    }
}

} // verus!

verus! {

/// A taken `TaskHello` (no route known, or one no shorter than the new
/// one) records the route through the peer it came from and is always
/// announced: everything queued to be sent before stays first, then the
/// `TaskHello` one hop longer (wrapping at the largest count) goes to every
/// peer in turn, then a flush. A `TaskHello` that is not taken changes
/// nothing.
pub proof fn lemma_taken_task_hello_is_announced(
    v: ServerView,
    hops: u64,
    task: TaskID,
    peer: PeerAddr,
)
    ensures
        ({
            let w = v.after_task_hello(hops, task, peer);
            let announced = Frame::TaskHello(
                if hops == u64::MAX {
                    0
                } else {
                    (hops + 1) as u64
                },
                task,
            );
            let n = v.outgoing.len() as int;
            let k = v.peers.len() as int;
            if !v.routes.contains_key(task.0) || hops <= v.routes[task.0].0 {
                &&& w.routes == v.routes.insert(task.0, (hops, peer))
                &&& w.peers == v.peers
                &&& w.tasks == v.tasks
                &&& w.outgoing.len() >= n + k + 1
                &&& forall|i: int| 0 <= i < n ==> w.outgoing[i] == v.outgoing[i]
                &&& forall|i: int| 0 <= i < k ==> w.outgoing[n + i] == Outgoing::Send(announced, v.peers[i])
                &&& w.outgoing[n + k] == Outgoing::Flush
            } else {
                w == v
            }
        }),
{
    let announced = Frame::TaskHello(next_hop(hops), task);
    if !v.routes.contains_key(task.0) || hops <= v.routes[task.0].0 {
        let u = ServerView { routes: v.routes.insert(task.0, (hops, peer)), ..v }.broadcast(announced);
        let w = v.after_task_hello(hops, task, peer);
        assert(u.outgoing =~= v.outgoing + v.broadcast_sends(announced).push(Outgoing::Flush));
        if u.queued.contains_key(task.0) {
            assert(w.outgoing =~= u.outgoing + forwards(u.queued[task.0], task, peer).push(Outgoing::Flush));
        }
        assert forall|i: int| 0 <= i < v.peers.len() implies w.outgoing[v.outgoing.len() as int + i]
            == Outgoing::Send(announced, v.peers[i]) by {
            assert(u.outgoing[v.outgoing.len() as int + i] == Outgoing::Send(announced, v.peers[i]));
        };
        assert(w.outgoing[v.outgoing.len() + v.peers.len() as int] == u.outgoing[v.outgoing.len() + v.peers.len() as int]);
    }
}

/// A `TaskBye` for a task that is known, by a route or as a local task,
/// forgets it and every message queued for it, and is always announced:
/// what was queued to be sent stays first, then `TaskBye` for the task goes
/// to every peer in turn, then a flush, and nothing else. A route is
/// forgotten before a local task of the same ID. A `TaskBye` for an unknown
/// task sends nothing.
pub proof fn lemma_known_task_bye_is_announced(v: ServerView, task: TaskID)
    ensures
        ({
            let w = v.after_task_bye(task);
            let n = v.outgoing.len() as int;
            let k = v.peers.len() as int;
            &&& !w.queued.contains_key(task.0)
            &&& w.peers == v.peers
            &&& if v.routes.contains_key(task.0) || v.tasks.contains(task.0) {
                &&& !w.routes.contains_key(task.0)
                &&& (v.routes.contains_key(task.0) ==> w.tasks == v.tasks && w.routes == v.routes.remove(task.0))
                &&& (!v.routes.contains_key(task.0) ==> w.tasks == v.tasks.remove(task.0) && w.routes == v.routes)
                &&& w.outgoing.len() == n + k + 1
                &&& forall|i: int| 0 <= i < n ==> w.outgoing[i] == v.outgoing[i]
                &&& forall|i: int| 0 <= i < k ==> w.outgoing[n + i] == Outgoing::Send(Frame::TaskBye(task), v.peers[i])
                &&& w.outgoing[n + k] == Outgoing::Flush
            } else {
                &&& w.outgoing == v.outgoing
                &&& w.routes == v.routes
                &&& w.tasks == v.tasks
            }
        }),
{
    let w = v.after_task_bye(task);
    if v.routes.contains_key(task.0) || v.tasks.contains(task.0) {
        assert(w.outgoing =~= v.outgoing + v.broadcast_sends(Frame::TaskBye(task)).push(Outgoing::Flush));
    }
}

/// After a `PeerBye` from a peer, it is no longer a peer, and the other
/// peers stay, in their order: the list loses exactly the position the
/// peer held, if it held one.
pub proof fn lemma_peer_bye_forgets_only_that_peer(v: ServerView, peer: PeerAddr)
    requires
        v.wf(),
    ensures
        !v.after_peer_bye(peer).peers.contains(peer),
        v.peers.contains(peer) ==> exists|i: int|
            0 <= i < v.peers.len() && v.peers[i] == peer && v.after_peer_bye(peer).peers
                == v.peers.subrange(0, i) + v.peers.subrange(i + 1, v.peers.len() as int),
        !v.peers.contains(peer) ==> v.after_peer_bye(peer).peers == v.peers,
        forall|q: PeerAddr| q != peer ==> (v.after_peer_bye(peer).peers.contains(q) <==> v.peers.contains(q)),
{
    let w = v.after_peer_bye(peer);
    if v.peers.contains(peer) {
        let i = v.peers.index_of(peer);
        assert(w.peers =~= v.peers.subrange(0, i) + v.peers.subrange(i + 1, v.peers.len() as int));
        assert forall|j: int| 0 <= j < w.peers.len() implies w.peers[j] != peer by {
            if j < i {
                assert(w.peers[j] == v.peers[j]);
            } else {
                assert(w.peers[j] == v.peers[j + 1]);
            }
        };
        assert forall|q: PeerAddr| q != peer implies (w.peers.contains(q) <==> v.peers.contains(q)) by {
            if v.peers.contains(q) {
                let j = choose|j: int| 0 <= j < v.peers.len() && v.peers[j] == q;
                if j < i {
                    assert(w.peers[j] == q);
                } else {
                    assert(j != i);
                    assert(w.peers[j - 1] == q);
                }
            }
            if w.peers.contains(q) {
                let j = choose|j: int| 0 <= j < w.peers.len() && w.peers[j] == q;
                if j < i {
                    assert(v.peers[j] == q);
                } else {
                    assert(v.peers[j + 1] == q);
                }
            }
        };
    }
}

} // verus!
