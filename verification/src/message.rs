//! The wire codec: a message is one line of text, `kind,sender,content`.

use crate::utils::str_to_char_vec;
use vstd::prelude::*;
use vstd::string::StringExecFns;
use vstd::string::StrSliceExecFns;

verus! {

/// The kind tag of a message.
#[derive(Clone, Copy, Debug, PartialEq, Eq, Structural)]
pub enum MessageType {
    ClientLogIn,
    ClientExit,
    ClientListUpdate,
    TextMessage,
    Error,
}

/// The character that separates the fields of an encoded message.
pub open spec fn separator() -> char {
    ','
}

/// The canonical name of a kind, as it stands on the wire.
pub open spec fn kind_name(kind: MessageType) -> Seq<char> {
    match kind {
        MessageType::ClientLogIn => "ClientLogin"@,
        MessageType::ClientExit => "ClientExit"@,
        MessageType::ClientListUpdate => "ClientListUpdate"@,
        MessageType::TextMessage => "TextMessage"@,
        MessageType::Error => "Error"@,
    }
}

/// The kind that a name on the wire stands for; every unknown name is `Error`.
pub open spec fn kind_of_name(name: Seq<char>) -> MessageType {
    if name == "ClientLogin"@ {
        MessageType::ClientLogIn
    } else if name == "ClientExit"@ {
        MessageType::ClientExit
    } else if name == "ClientListUpdate"@ {
        MessageType::ClientListUpdate
    } else if name == "TextMessage"@ {
        MessageType::TextMessage
    } else {
        MessageType::Error
    }
}

/// The content of a message that stands for a line that could not be decoded.
pub open spec fn format_error_text() -> Seq<char> {
    "Msg format error."@
}

/// Whether two string slices hold the same characters.
pub fn same_text(left: &str, right: &str) -> (same: bool)
    ensures
        same == (left@ == right@),
{
    let a = str_to_char_vec(left);
    let b = str_to_char_vec(right);
    if a.len() != b.len() {
        return false;
    }
    let mut i: usize = 0;
    while i < a.len()
        invariant
            i <= a.len(),
            a.len() == b.len(),
            a@ == left@,
            b@ == right@,
            a@.take(i as int) == b@.take(i as int),
        decreases a.len() - i,
    {
        if a[i] != b[i] {
            return false;
        }
        i += 1;
        assert(a@.take(i as int) == a@.take(i - 1).push(a@[i - 1]));
        assert(b@.take(i as int) == b@.take(i - 1).push(b@[i - 1]));
    }
    assert(a@ == a@.take(a.len() as int));
    assert(b@ == b@.take(b.len() as int));
    true
}

impl MessageType {
    /// Convert string to `MessageType`: `"ClientLogin"` becomes
    /// `MessageType::ClientLogIn`, and a name that no kind has becomes
    /// `MessageType::Error`.
    pub fn convert_to_msg_type(msg_type_str: &str) -> (kind: MessageType)
        ensures
            kind == kind_of_name(msg_type_str@),
    {
        if same_text(msg_type_str, "ClientLogin") {
            MessageType::ClientLogIn
        } else if same_text(msg_type_str, "ClientExit") {
            MessageType::ClientExit
        } else if same_text(msg_type_str, "ClientListUpdate") {
            MessageType::ClientListUpdate
        } else if same_text(msg_type_str, "TextMessage") {
            MessageType::TextMessage
        } else {
            MessageType::Error
        }
    }

    /// The canonical name of the kind.
    pub fn to_string(&self) -> (name: String)
        ensures
            name@ == kind_name(*self),
    {
        match self {
            MessageType::ClientLogIn => String::from_str("ClientLogin"),
            MessageType::ClientExit => String::from_str("ClientExit"),
            MessageType::ClientListUpdate => String::from_str("ClientListUpdate"),
            MessageType::TextMessage => String::from_str("TextMessage"),
            MessageType::Error => String::from_str("Error"),
        }
    }
}

/// One message of the protocol.
#[derive(Clone, Debug, PartialEq, Eq)]
pub struct Message {
    pub msg_type: MessageType,
    pub msg_sender: String,
    pub msg_content: String,
}

/// What a `Message` holds, as mathematical values.
pub struct MessageView {
    pub msg_type: MessageType,
    pub msg_sender: Seq<char>,
    pub msg_content: Seq<char>,
}

impl View for Message {
    type V = MessageView;

    open spec fn view(&self) -> MessageView {
        MessageView {
            msg_type: self.msg_type,
            msg_sender: self.msg_sender@,
            msg_content: self.msg_content@,
        }
    }
}

/// The line that stands for a message: the kind's name, the sender and the
/// content, joined by the separator.
pub open spec fn encode(msg: MessageView) -> Seq<char> {
    kind_name(msg.msg_type) + seq![separator()] + msg.msg_sender + seq![separator()]
        + msg.msg_content
}

/// The message that a line stands for.
///
/// A line with two separators or more holds the kind's name before the first,
/// the sender between the first and the second, and the content after the
/// second, further separators included. A line with fewer is a format error:
/// its sender is what follows the only separator, or the whole line where
/// there is none.
pub open spec fn decode(line: Seq<char>) -> MessageView {
    match line.index_of_first(separator()) {
        None => MessageView {
            msg_type: MessageType::Error,
            msg_sender: line,
            msg_content: format_error_text(),
        },
        Some(first) => {
            let rest = line.skip(first + 1);
            match rest.index_of_first(separator()) {
                None => MessageView {
                    msg_type: MessageType::Error,
                    msg_sender: rest,
                    msg_content: format_error_text(),
                },
                Some(second) => MessageView {
                    msg_type: kind_of_name(line.take(first)),
                    msg_sender: rest.take(second),
                    msg_content: rest.skip(second + 1),
                },
            }
        },
    }
}

/// How many separators a line holds.
pub open spec fn separator_count(line: Seq<char>) -> nat
    decreases line.len(),
{
    if line.len() == 0 {
        0
    } else if line[0] == separator() {
        1 + separator_count(line.drop_first())
    } else {
        separator_count(line.drop_first())
    }
}

/// A line whose first separator stands at `at` holds one separator more than
/// what follows it.
pub proof fn lemma_count_after_first(line: Seq<char>, at: int)
    requires
        0 <= at < line.len(),
        line[at] == separator(),
        forall|k: int| 0 <= k < at ==> line[k] != separator(),
    ensures
        separator_count(line) == 1 + separator_count(line.skip(at + 1)),
    decreases at,
{
    if at == 0 {
        assert(line.drop_first() == line.skip(1));
    } else {
        let tail = line.drop_first();
        assert(tail.skip(at) == line.skip(at + 1));
        lemma_count_after_first(tail, at - 1);
    }
}

/// A line with fewer than two separators decodes to a format error.
pub proof fn lemma_short_line_is_error(line: Seq<char>)
    requires
        separator_count(line) < 2,
    ensures
        decode(line).msg_type == MessageType::Error,
        decode(line).msg_content == format_error_text(),
{
    line.index_of_first_ensures(separator());
    if let Some(first) = line.index_of_first(separator()) {
        let rest = line.skip(first + 1);
        lemma_count_after_first(line, first);
        rest.index_of_first_ensures(separator());
        if let Some(second) = rest.index_of_first(separator()) {
            lemma_count_after_first(rest, second);
        }
    }
}

/// No kind's name holds a separator, and each name stands for its own kind.
pub proof fn lemma_kind_names(kind: MessageType)
    ensures
        !kind_name(kind).contains(separator()),
        kind_of_name(kind_name(kind)) == kind,
{
    reveal_strlit("ClientLogin");
    reveal_strlit("ClientExit");
    reveal_strlit("ClientListUpdate");
    reveal_strlit("TextMessage");
    reveal_strlit("Error");
    assert("ClientLogin"@.len() == 11 && "ClientLogin"@[0] == 'C');
    assert("ClientExit"@.len() == 10);
    assert("ClientListUpdate"@.len() == 16);
    assert("TextMessage"@.len() == 11 && "TextMessage"@[0] == 'T');
    assert("Error"@.len() == 5);
}

/// Round trip: a message whose sender holds no separator is what its own
/// line decodes to.
pub proof fn lemma_decode_encode(msg: MessageView)
    requires
        !msg.msg_sender.contains(separator()),
    ensures
        decode(encode(msg)) == msg,
{
    let name = kind_name(msg.msg_type);
    let line = encode(msg);
    let first = name.len() as int;
    lemma_kind_names(msg.msg_type);
    line.index_of_first_ensures(separator());
    assert(line[first] == separator());
    assert forall|k: int| 0 <= k < first implies line[k] != separator() by {
        assert(line[k] == name[k]);
        assert(name.contains(name[k]));
    }
    assert(line.index_of_first(separator()) == Some(first));
    let rest = line.skip(first + 1);
    let second = msg.msg_sender.len() as int;
    assert(rest == msg.msg_sender + seq![separator()] + msg.msg_content);
    rest.index_of_first_ensures(separator());
    assert(rest[second] == separator());
    assert forall|k: int| 0 <= k < second implies rest[k] != separator() by {
        assert(rest[k] == msg.msg_sender[k]);
        assert(msg.msg_sender.contains(msg.msg_sender[k]));
    }
    assert(rest.index_of_first(separator()) == Some(second));
    assert(line.take(first) == name);
    assert(rest.take(second) == msg.msg_sender);
    assert(rest.skip(second + 1) == msg.msg_content);
}

/// The index of the first separator in `chars` at or after `from`, or the
/// length of `chars` where none follows.
fn find_separator(chars: &Vec<char>, from: usize) -> (at: usize)
    requires
        from <= chars.len(),
    ensures
        from <= at <= chars.len(),
        at < chars.len() ==> chars@.skip(from as int).index_of_first(separator()) == Some(
            at - from,
        ),
        at == chars.len() ==> chars@.skip(from as int).index_of_first(separator()) is None,
{
    let mut at: usize = from;
    while at < chars.len() && chars[at] != ','
        invariant
            from <= at <= chars.len(),
            forall|k: int| from <= k < at ==> chars@[k] != separator(),
        decreases chars.len() - at,
    {
        at += 1;
    }
    proof {
        let rest = chars@.skip(from as int);
        rest.index_of_first_ensures(separator());
        assert forall|k: int| 0 <= k < at - from implies rest[k] != separator() by {
            assert(rest[k] == chars@[from + k]);
        }
        if at < chars.len() {
            assert(rest[at - from] == separator());
        }
    }
    at
}

impl Message {
    /// Convert a formatted string to `Message`: `"AMsgType,name_or_id,xxxxx"`
    /// becomes the message of kind `AMsgType` from `name_or_id` with content
    /// `xxxxx`. A line with fewer than three fields becomes a message of kind
    /// `Error`.
    pub fn convert_to_msg(msg_str: &str) -> (msg: Message)
        ensures
            msg@ == decode(msg_str@),
            separator_count(msg_str@) < 2 ==> msg.msg_type == MessageType::Error,
    {
        proof {
            if separator_count(msg_str@) < 2 {
                lemma_short_line_is_error(msg_str@);
            }
        }
        let chars = str_to_char_vec(msg_str);
        let len = chars.len();
        let first = find_separator(&chars, 0);
        assert(chars@.skip(0) == msg_str@);
        if first == len {
            return Message {
                msg_type: MessageType::Error,
                msg_sender: String::from_str(msg_str),
                msg_content: String::from_str("Msg format error."),
            };
        }
        let second = find_separator(&chars, first + 1);
        let ghost rest = msg_str@.skip(first + 1);
        if second == len {
            let sender = msg_str.substring_char(first + 1, len);
            assert(sender@ == rest);
            return Message {
                msg_type: MessageType::Error,
                msg_sender: String::from_str(sender),
                msg_content: String::from_str("Msg format error."),
            };
        }
        let name = msg_str.substring_char(0, first);
        let sender = msg_str.substring_char(first + 1, second);
        let content = msg_str.substring_char(second + 1, len);
        assert(name@ == msg_str@.take(first as int));
        assert(sender@ == rest.take(second - (first + 1)));
        assert(content@ == rest.skip(second - (first + 1) + 1));
        Message {
            msg_type: MessageType::convert_to_msg_type(name),
            msg_sender: String::from_str(sender),
            msg_content: String::from_str(content),
        }
    }

    /// The line that stands for the message on the wire.
    pub fn to_string(&self) -> (line: String)
        ensures
            line@ == encode(self@),
    {
        let mut line = self.msg_type.to_string();
        line.push(',');
        line.append(self.msg_sender.as_str());
        line.push(',');
        line.append(self.msg_content.as_str());
        assert(line@ == encode(self@));
        line
    }

    /// Convert a `Message` to a `String` that just contains
    /// basic information of the message: the sender, a colon and a space, and
    /// the content.
    pub fn to_brief_string(&self) -> (brief: String)
        ensures
            brief@ == self.msg_sender@ + seq![':', ' '] + self.msg_content@,
    {
        let mut brief = self.msg_sender.clone();
        brief.push(':');
        brief.push(' ');
        brief.append(self.msg_content.as_str());
        assert(brief@ == self.msg_sender@ + seq![':', ' '] + self.msg_content@);
        brief
    }
}

} // verus!
