use futures::sync::mpsc::{UnboundedReceiver, UnboundedSender};
use vstd::prelude::*;

use crate::frame::Frame;
use crate::outside::{arc_from_str, channel_send};
use crate::{Error, MessageTypeID, TaskID};

verus! {

/// What a task receives: the sender, the message type and the payload.
pub type Delivery = (TaskID, MessageTypeID, Vec<u8>);

/// A handle to the StahlNet server for communicating with it.
#[derive(Debug)]
pub struct TaskHandle {
    pub(crate) id: TaskID,
    pub(crate) name: Option<String>,
    pub(crate) recv: UnboundedReceiver<Delivery>,
    pub(crate) send: UnboundedSender<Frame>,
}

/// What a task handle is: the task's ID and its name, if it has one.
pub ghost struct TaskHandleView {
    pub id: TaskID,
    pub name: Option<Seq<char>>,
}

impl View for TaskHandle {
    type V = TaskHandleView;

    closed spec fn view(&self) -> TaskHandleView {
        TaskHandleView {
            id: self.id,
            name: match self.name {
                Some(s) => Some(s@),
                None => None,
            },
        }
    }
}

impl TaskHandle {
    /// A handle for the task `id`, without a name.
    pub(crate) fn new(id: TaskID, recv: UnboundedReceiver<Delivery>, send: UnboundedSender<Frame>) -> (h: TaskHandle)
        ensures
            h@.id == id,
            h@.name is None,
    {
        TaskHandle { id, name: None, recv, send }
    }

    /// Gets the task's ID.
    pub fn id(&self) -> (r: TaskID)
        ensures
            r == self@.id,
    {
        self.id
    }

    /// Gets the task's name; the empty string for a task without a name.
    pub fn name(&self) -> (r: &str)
        ensures
            r@ == match self@.name {
                Some(s) => s,
                None => Seq::<char>::empty(),
            },
    {
        match &self.name {
            Some(s) => s.as_str(),
            None => {
                proof {
                    reveal_strlit("");
                }
                ""
            },
        }
    }

    /// Gets the task's name as a shared string, if it has one.
    pub fn name_arc(&self) -> (r: Option<std::sync::Arc<str>>)
        ensures
            r is Some == self@.name is Some,
            r matches Some(a) ==> self@.name matches Some(n) && (*a)@ == n,
    {
        match &self.name {
            Some(s) => Some(arc_from_str(s.as_str())),
            None => None,
        }
    }

    /// The frame by which the handle's task sends `data` of type `msg_type`
    /// to the task `to`: a `Message` from the handle's ID.
    pub fn message_frame(&self, to: TaskID, msg_type: MessageTypeID, data: Vec<u8>) -> (f: Frame)
        ensures
            f == Frame::Message(self@.id, to, msg_type, data),
    {
        Frame::Message(self.id, to, msg_type, data)
    }

    /// The frame by which the handle's task says goodbye: a `TaskBye` with
    /// the handle's ID.
    pub fn bye_frame(&self) -> (f: Frame)
        ensures
            f == Frame::TaskBye(self@.id),
    {
        Frame::TaskBye(self.id)
    }

    /// Sends a message to the task `to`, as a `Message` frame from the ID of
    /// the handle. The result is `ShuttingDown` when the server has stopped
    /// listening.
    pub fn send_message(&self, to: TaskID, msg_type: MessageTypeID, data: Vec<u8>) -> (r: Result<
        (),
        Error,
    >)
        ensures
            r matches Err(e) ==> e is ShuttingDown,
    {
        let frame = self.message_frame(to, msg_type, data);
        match channel_send(&self.send, frame) {
            Ok(_) => Ok(()),
            Err(_) => Err(Error::ShuttingDown),
        }
    }

    /// Says goodbye for the handle's task, by a `TaskBye` frame with its ID.
    /// Whether the server still listens makes no difference.
    pub fn send_bye(&self) {
        let frame = self.bye_frame();
        let _ = channel_send(&self.send, frame);
    }

    /// The channel on which the handle receives messages for its task.
    pub closed spec fn receiving_channel(&self) -> UnboundedReceiver<Delivery> {
        self.recv
    }

    /// The channel on which the handle sends frames to its server.
    pub closed spec fn sending_channel(&self) -> UnboundedSender<Frame> {
        self.send
    }

    /// The receiving channel for messages addressed to the handle's task.
    /// What is done through the returned borrow is what becomes of the
    /// handle's receiving channel; the ID, the name and the sending channel
    /// stay as they were.
    pub fn receiver(&mut self) -> (r: &mut UnboundedReceiver<Delivery>)
        ensures
            *r == old(self).receiving_channel(),
            final(self)@ == old(self)@,
            final(self).receiving_channel() == *final(r),
            final(self).sending_channel() == old(self).sending_channel(),
    {
        &mut self.recv
    }

    /// The sending channel for frames from the handle's task. What is done
    /// through the returned borrow is what becomes of the handle's sending
    /// channel; the ID, the name and the receiving channel stay as they were.
    pub fn sender(&mut self) -> (r: &mut UnboundedSender<Frame>)
        ensures
            *r == old(self).sending_channel(),
            final(self)@ == old(self)@,
            final(self).sending_channel() == *final(r),
            final(self).receiving_channel() == old(self).receiving_channel(),
    {
        &mut self.send
    }
}

} // verus!
