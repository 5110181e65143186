//! The message frame that devices, monitors and the broker exchange, and the
//! text protocol of commands carried in a frame's payload.

use vstd::prelude::*;
use crate::clock::unix_time_secs;
use crate::text::{
    first_word_after_prefix, is_space, lemma_token_end_at, starts_with, token_end, word_after_prefix,
    word_from,
};

verus! {

/// The kind of a message.
#[derive(Clone, Copy, Debug, PartialEq, Eq, Structural)]
pub enum MsgType {
    Telemetry,
    Heartbeat,
    Fault,
    Command,
}

/// One frame on the socket.
#[derive(Clone, Debug)]
pub struct Message {
    /// Sender name, such as `device_1` or `monitor`.
    pub device_id: String,
    /// Message category.
    pub msg_type: MsgType,
    /// Unix time in seconds.
    pub timestamp: u64,
    /// The data carried.
    pub payload: String,
}

/// The text a monitor shows in its type column for a message kind.
pub open spec fn column_label_text(t: MsgType) -> Seq<char> {
    match t {
        MsgType::Telemetry => "TELEMETRY"@,
        MsgType::Heartbeat => "HEARTBEAT"@,
        MsgType::Fault => "FAULT    "@,
        MsgType::Command => "COMMAND  "@,
    }
}

impl MsgType {
    /// The type column a monitor shows for this kind, nine characters wide.
    pub fn column_label(&self) -> (s: &'static str)
        ensures
            s@ == column_label_text(*self),
    {
        match self {
            MsgType::Telemetry => "TELEMETRY",
            MsgType::Heartbeat => "HEARTBEAT",
            MsgType::Fault => "FAULT    ",
            MsgType::Command => "COMMAND  ",
        }
    }
}

impl Message {
    /// A message stamped with the current Unix time in whole seconds; `None`
    /// where the wall clock is set before 1970, which has no such time.
    pub fn new(device_id: &str, msg_type: MsgType, payload: &str) -> (r: Option<Message>)
        ensures
            r matches Some(m) ==> {
                &&& m.device_id@ == device_id@
                &&& m.msg_type == msg_type
                &&& m.payload@ == payload@
            },
    {
        match unix_time_secs() {
            Some(secs) => Some(Message::new_at(device_id, msg_type, payload, secs)),
            None => None,
        }
    }

    /// A message stamped `timestamp` (Unix time in whole seconds).
    pub fn new_at(device_id: &str, msg_type: MsgType, payload: &str, timestamp: u64) -> (m: Message)
        ensures
            m.device_id@ == device_id@,
            m.msg_type == msg_type,
            m.payload@ == payload@,
            m.timestamp == timestamp,
    {
        Message {
            device_id: device_id.to_owned(),
            msg_type,
            timestamp,
            payload: payload.to_owned(),
        }
    }
}

/// The payload key that names a command's target device.
pub open spec fn target_key() -> Seq<char> {
    "target="@
}

/// The payload a monitor sends to run `command` on `target`.
pub open spec fn command_payload_text(target: Seq<char>, command: Seq<char>) -> Seq<char> {
    "target="@ + target + " cmd="@ + command
}

/// The device a command payload names: the first whitespace-separated word
/// that begins with `target=`, without that key.
pub open spec fn command_target_text(payload: Seq<char>) -> Option<Seq<char>> {
    word_after_prefix(payload, target_key(), 0)
}

/// The payload that asks the broker to run `command` on `target`.
pub fn command_payload(target: &str, command: &str) -> (p: String)
    ensures
        p@ == command_payload_text(target@, command@),
{
    let mut p = String::new();
    p.push_str("target=");
    p.push_str(target);
    p.push_str(" cmd=");
    p.push_str(command);
    p
}

/// The device that a command payload names, if it names one.
pub fn command_target(payload: &str) -> (t: Option<String>)
    ensures
        match t {
            Some(s) => command_target_text(payload@) == Some(s@),
            None => command_target_text(payload@) is None,
        },
{
    first_word_after_prefix(payload, "target=")
}

/// The broker finds the target that a monitor's command names: for a target
/// without white space and any command, the payload built for them names
/// that target.
pub proof fn command_routing_law(target: Seq<char>, command: Seq<char>)
    requires
        forall|k: int| 0 <= k < target.len() ==> !is_space(#[trigger] target[k]),
    ensures
        command_target_text(command_payload_text(target, command)) == Some(target),
{
    reveal_strlit("target=");
    reveal_strlit(" cmd=");
    let p = command_payload_text(target, command);
    let key = target_key();
    let end: int = 7 + target.len() as int;
    assert(key.len() == 7);
    assert forall|k: int| 0 <= k < end implies !is_space(#[trigger] p[k]) by {
        if k < 7 {
            assert(p[k] == key[k]);
        } else {
            assert(p[k] == target[k - 7]);
        }
    }
    assert(p[end] == ' ');
    lemma_token_end_at(p, 0, end);
    assert(p.subrange(0, end).subrange(0, 7) =~= key);
    assert(p.subrange(0, end).subrange(7, end) =~= target);
    assert(!is_space(p[0]));
    let word = p.subrange(0, end);
    assert(starts_with(word, key));
    assert(word_from(p, key, 0, end) == Some(target));
    assert(word_after_prefix(p, key, 0) == word_from(p, key, 0, token_end(p, 0)));
}

} // verus!
