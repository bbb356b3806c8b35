//! The client's side of the protocol: the messages it sends, and what it
//! makes of each read from the server.

use crate::message::Message;
use crate::message::MessageType;
use crate::message::MessageView;
use crate::reader::decode_bytes;
use crate::reader::message_of_bytes;
use vstd::prelude::*;
use vstd::string::StringExecFns;

verus! {

/// The text message with the given sender and content.
pub open spec fn text_from(sender: Seq<char>, content: Seq<char>) -> MessageView {
    MessageView { msg_type: MessageType::TextMessage, msg_sender: sender, msg_content: content }
}

/// The text message that a client sends: `sender` is its address or name,
/// `content` what its user wrote.
pub fn text_message(sender: &str, content: &str) -> (msg: Message)
    ensures
        msg@ == text_from(sender@, content@),
{
    Message {
        msg_type: MessageType::TextMessage,
        msg_sender: String::from_str(sender),
        msg_content: String::from_str(content),
    }
}

/// The sender under which the line client at address `addr` writes.
pub open spec fn local_sender(addr: Seq<char>) -> Seq<char> {
    "local client: "@ + addr
}

/// The text message that the line client at address `addr` sends for one
/// line of input.
pub fn line_message(addr: &str, input: &str) -> (msg: Message)
    ensures
        msg@ == text_from(local_sender(addr@), input@),
{
    let mut sender = String::from_str("local client: ");
    sender.append(addr);
    Message {
        msg_type: MessageType::TextMessage,
        msg_sender: sender,
        msg_content: String::from_str(input),
    }
}

/// The message with which a client tells itself that the server is gone.
pub open spec fn lost_notice() -> MessageView {
    MessageView {
        msg_type: MessageType::Error,
        msg_sender: "localhost"@,
        msg_content: "Lost connection."@,
    }
}

/// What a client does after one read from the server.
#[derive(Debug)]
pub enum ClientStep {
    /// Hand the message on and read again.
    Deliver(Message),
    /// Nothing came: read again.
    Idle,
    /// The connection is lost: hand the message on and stop reading.
    Lost(Message),
}

/// Decide the step after one read from the server. `read` holds the bytes
/// that the read returned, or `None` where it failed.
pub fn client_step(read: Option<&[u8]>) -> (step: ClientStep)
    ensures
        match read {
            Some(bytes) if bytes@.len() > 0 => step matches ClientStep::Deliver(msg) && msg@
                == decode_bytes(bytes@),
            Some(_) => step is Idle,
            None => step matches ClientStep::Lost(msg) && msg@ == lost_notice(),
        },
{
    match read {
        Some(bytes) => {
            if bytes.len() > 0 {
                ClientStep::Deliver(message_of_bytes(bytes))
            } else {
                ClientStep::Idle
            }
        },
        None => {
            // should try to re-connect, or just quit
            ClientStep::Lost(
                Message {
                    msg_type: MessageType::Error,
                    msg_sender: String::from_str("localhost"),
                    msg_content: String::from_str("Lost connection."),
                },
            )
        },
    }
}

} // verus!
