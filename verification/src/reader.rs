//! The reader task of one connection: what it forwards to the dispatcher
//! after each read, and when it ends.

use crate::identity::decimal;
use crate::identity::identity_of;
use crate::identity::identity_to_string;
use crate::message::decode;
use crate::message::format_error_text;
use crate::message::Message;
use crate::message::MessageType;
use crate::message::MessageView;
use vstd::prelude::*;
use vstd::string::StringExecFns;
use vstd::string::StringSliceAdditionalSpecFns;
use vstd::utf8::decode_utf8;
use vstd::utf8::valid_utf8;

verus! {

/// `std::str::from_utf8` hands back the text whose UTF-8 encoding the bytes
/// are, and an error exactly where they are no valid UTF-8.
#[verifier::external_body]
fn text_of_bytes(bytes: &[u8]) -> (text: Option<&str>)
    ensures
        text is Some <==> valid_utf8(bytes@),
        text matches Some(t) ==> t.spec_bytes() == bytes@,
{
    std::str::from_utf8(bytes).ok()
}

/// The message that the bytes of one read stand for. Bytes that are no
/// text stand for a format error without a sender.
pub open spec fn decode_bytes(bytes: Seq<u8>) -> MessageView {
    if valid_utf8(bytes) {
        decode(decode_utf8(bytes))
    } else {
        MessageView {
            msg_type: MessageType::Error,
            msg_sender: Seq::empty(),
            msg_content: format_error_text(),
        }
    }
}

/// The message with which the reader of connection `id` reports that its
/// peer has gone.
pub open spec fn exit_notice(id: u32, peer: Seq<char>) -> MessageView {
    MessageView {
        msg_type: MessageType::ClientExit,
        msg_sender: decimal(id as nat),
        msg_content: "Client "@ + peer + " with id "@ + decimal(id as nat) + " is offline now."@,
    }
}

/// Decode the bytes of one read as one message.
pub fn message_of_bytes(bytes: &[u8]) -> (msg: Message)
    ensures
        msg@ == decode_bytes(bytes@),
{
    match text_of_bytes(bytes) {
        Some(text) => {
            proof {
                vstd::utf8::encode_utf8_decode_utf8(text@);
            }
            Message::convert_to_msg(text)
        },
        None => Message {
            msg_type: MessageType::Error,
            msg_sender: String::new(),
            msg_content: String::from_str("Msg format error."),
        },
    }
}

/// The exit message of connection `id`, whose peer has the address `peer`.
pub fn exit_message(id: u32, peer: &str) -> (msg: Message)
    ensures
        msg@ == exit_notice(id, peer@),
        msg.msg_type == MessageType::ClientExit,
        identity_of(msg.msg_sender@) == Some(id),
{
    let sender = identity_to_string(id);
    let mut content = String::from_str("Client ");
    content.append(peer);
    content.append(" with id ");
    content.append(sender.as_str());
    content.append(" is offline now.");
    Message { msg_type: MessageType::ClientExit, msg_sender: sender, msg_content: content }
}

/// What a reader task does after one read.
#[derive(Debug)]
pub enum ReaderStep {
    /// Forward the message to the dispatcher and read again.
    Forward(Message),
    /// Forward the message to the dispatcher and end the task.
    Finish(Message),
}

/// Decide the step after one read on connection `id`. `read` holds the
/// bytes that the read returned, or `None` where it failed.
///
/// Bytes are decoded as one message, which is forwarded. A read that
/// failed, or returned no byte because the peer closed the connection,
/// ends the task with the exit message of `id`.
pub fn reader_step(id: u32, peer: &str, read: Option<&[u8]>) -> (step: ReaderStep)
    ensures
        match read {
            Some(bytes) if bytes@.len() > 0 => step matches ReaderStep::Forward(msg) && msg@
                == decode_bytes(bytes@),
            _ => step matches ReaderStep::Finish(msg) && msg@ == exit_notice(id, peer@),
        },
{
    match read {
        Some(bytes) => {
            if bytes.len() > 0 {
                ReaderStep::Forward(message_of_bytes(bytes))
            } else {
                ReaderStep::Finish(exit_message(id, peer))
            }
        },
        None => ReaderStep::Finish(exit_message(id, peer)),
    }
}

} // verus!
