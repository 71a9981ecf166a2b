//! The messages that go to the user interface: a named event with a payload
//! of status, message and data.

use crate::traffic::TrafficHead;
use vstd::prelude::*;
use vstd::string::StringExecFns;

verus! {

/// Whether the engine reports success or failure.
#[derive(Debug, Clone, Copy, PartialEq, Eq, Structural)]
pub enum Status {
    Success,
    Fail,
}

/// What an event carries.
#[derive(Debug)]
pub struct Payload<T> {
    pub status: Status,
    pub message: String,
    pub data: Option<T>,
}

/// An event for the user interface.
#[derive(Debug)]
pub struct SendData<T> {
    pub event_name: String,
    pub payload: Payload<T>,
}

/// The event that publishes the head of a transaction.
#[derive(Debug)]
pub struct NewTrafficHeadData {
    pub send_data: SendData<TrafficHead>,
}

impl NewTrafficHeadData {
    /// The `new-traffic` event for `head`.
    pub fn new(head: &TrafficHead) -> (r: Self)
        ensures
            r.send_data.event_name@ == "new-traffic"@,
            r.send_data.payload.status == Status::Success,
            r.send_data.payload.message@ == "请求状态更新"@,
            r.send_data.payload.data is Some,
            r.send_data.payload.data->0@ == head@,
    {
        let payload = Payload {
            status: Status::Success,
            message: String::from_str("请求状态更新"),
            data: Some(head.clone()),
        };
        NewTrafficHeadData {
            send_data: SendData { event_name: String::from_str("new-traffic"), payload },
        }
    }
}

} // verus!
