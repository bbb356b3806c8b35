//! The state of the terminal client: the messages received, the line being
//! edited and the cursor in it.

use crate::client::text_from;
use crate::client::text_message;
use crate::consts::MSG_BUF_SIZE;
use crate::layout::down_walk;
use crate::layout::lemma_occupied_bound;
use crate::layout::lemma_line_walk_bound;
use crate::layout::lines_occupied;
use crate::layout::occupied_lines;
use crate::layout::occupied_width;
use crate::layout::steps_down;
use crate::layout::steps_up;
use crate::layout::up_walk;
use crate::layout::width_occupied;
use crate::message::Message;
use crate::message::MessageType;
use crate::message::MessageView;
use crate::utils::char_arr_to_string;
use crate::utils::char_vec_to_string;
use crate::utils::str_to_char_vec;
use crate::utils::string_to_char_vec;
use crate::utils::white_space;
use crate::width::columns_of;
use crate::width::columns_of_chars;
use crate::width::str_width;
use crate::width::width_of_str;
use vstd::prelude::*;
use vstd::slice::slice_subrange;
use vstd::string::StrSliceExecFns;
use vstd::string::StringSliceAdditionalSpecFns;
use vstd::utf8::encode_utf8;

verus! {

/// The part of the screen that takes the keys.
#[derive(Clone, Copy, Debug, PartialEq, Eq, Structural)]
pub enum AppFocus {
    Editor,
    MsgList,
    ClientList,
}

/// A key, as far as the client tells keys apart.
#[derive(Clone, Copy, Debug, PartialEq, Eq, Structural)]
pub enum Key {
    Enter,
    Char(char),
    Backspace,
    Left,
    Right,
    Up,
    Down,
    Esc,
    Other,
}

/// What the caller is to do after a key.
#[derive(Clone, Copy, Debug, PartialEq, Eq, Structural)]
pub enum Command {
    /// Go on.
    Nothing,
    /// Send the line that is in the editor.
    Send,
    /// Leave the client.
    Quit,
}

/// The state of the terminal client.
pub struct App {
    focus: AppFocus,
    received_messages: Vec<Message>,
    input_buffer: String,
    cursor_position: usize,
    editor_width: u16,
    /// The characters of the received messages as they are shown, and one
    /// more for each message.
    text_size: usize,
}

/// What an `App` holds, as mathematical values.
pub struct AppView {
    pub focus: AppFocus,
    /// The text messages received, oldest first.
    pub received: Seq<MessageView>,
    /// The line being edited.
    pub input: Seq<char>,
    /// The number of characters of the line that stand before the cursor.
    pub cursor: nat,
    /// The columns of the block in which the line is edited.
    pub editor_width: nat,
}

impl View for App {
    type V = AppView;

    closed spec fn view(&self) -> AppView {
        AppView {
            focus: self.focus,
            received: self.received_messages@.map_values(|msg: Message| msg@),
            input: self.input_buffer@,
            cursor: self.cursor_position as nat,
            editor_width: self.editor_width as nat,
        }
    }
}

/// A message as the list of messages shows it: the sender, a colon and a
/// space, and the content.
pub open spec fn brief(msg: MessageView) -> Seq<char> {
    msg.msg_sender + seq![':', ' '] + msg.msg_content
}

/// The characters of the messages as they are shown, and one more for each
/// message.
pub open spec fn text_size(msgs: Seq<MessageView>) -> nat
    decreases msgs.len(),
{
    if msgs.len() == 0 {
        0
    } else {
        text_size(msgs.drop_last()) + brief(msgs.last()).len() + 1
    }
}

/// The lines that the messages touch in a block of the given width, each
/// message starting a line of its own.
pub open spec fn total_lines(msgs: Seq<MessageView>, editor_width: nat) -> nat
    decreases msgs.len(),
{
    if msgs.len() == 0 {
        0
    } else {
        total_lines(msgs.drop_last(), editor_width) + occupied_lines(
            columns_of(brief(msgs.last())),
            editor_width,
        )
    }
}

/// Whether a text holds nothing but white space.
pub open spec fn blank(text: Seq<char>) -> bool {
    forall|k: int| 0 <= k < text.len() ==> white_space(#[trigger] text[k])
}

impl AppView {
    /// The cursor stands in the line or at its end, the line is no longer
    /// than one message may be, and the size of the received text can be
    /// counted.
    pub open spec fn wf(self) -> bool {
        &&& self.cursor <= self.input.len()
        &&& self.input.len() <= MSG_BUF_SIZE
        &&& text_size(self.received) <= usize::MAX
    }

    /// After a character was typed: it stands at the cursor, which has
    /// moved behind it. A line whose bytes fill a message takes no more.
    pub open spec fn insert_char(self, ch: char) -> AppView {
        if encode_utf8(self.input).len() < MSG_BUF_SIZE {
            AppView {
                input: self.input.insert(self.cursor as int, ch),
                cursor: self.cursor + 1,
                ..self
            }
        } else {
            self
        }
    }

    /// After the character before the cursor was removed, if there is one.
    pub open spec fn remove_before_cursor(self) -> AppView {
        if self.cursor > 0 {
            AppView {
                input: self.input.remove(self.cursor - 1),
                cursor: (self.cursor - 1) as nat,
                ..self
            }
        } else {
            self
        }
    }

    /// After the cursor went one character to the left, if it could.
    pub open spec fn cursor_left(self) -> AppView {
        AppView {
            cursor: if self.cursor > 0 {
                (self.cursor - 1) as nat
            } else {
                0
            },
            ..self
        }
    }

    /// After the cursor went one character to the right, if it could.
    pub open spec fn cursor_right(self) -> AppView {
        AppView {
            cursor: if self.cursor < self.input.len() {
                self.cursor + 1
            } else {
                self.cursor
            },
            ..self
        }
    }

    /// After the cursor went one line up. It stays where the way cannot be
    /// told from the widths of the text before it.
    pub open spec fn cursor_up(self) -> AppView {
        AppView {
            cursor: match up_walk(
                columns_of(self.before_cursor()),
                str_width(self.before_cursor()) as nat,
                self.editor_width,
                0,
            ) {
                Some(steps) => (self.cursor - steps) as nat,
                None => self.cursor,
            },
            ..self
        }
    }

    /// After the cursor went one line down.
    pub open spec fn cursor_down(self) -> AppView {
        AppView {
            cursor: self.cursor + down_walk(
                columns_of(self.behind_cursor()),
                occupied_width(columns_of(self.before_cursor()), self.editor_width),
                self.editor_width,
                0,
            ),
            ..self
        }
    }

    /// After a message arrived: a text message joins the list, unless the
    /// size of the list could then not be counted; any other is dropped.
    pub open spec fn receive(self, msg: MessageView) -> AppView {
        if self.stores(msg) {
            AppView { received: self.received.push(msg), ..self }
        } else {
            self
        }
    }

    /// Whether a message that arrives joins the list.
    pub open spec fn stores(self, msg: MessageView) -> bool {
        msg.msg_type == MessageType::TextMessage && text_size(self.received.push(msg))
            <= usize::MAX
    }

    /// After a key. Only the editor takes keys.
    pub open spec fn after_key(self, key: Key) -> AppView {
        if self.focus != AppFocus::Editor {
            self
        } else {
            match key {
                Key::Char(ch) => self.insert_char(ch),
                Key::Backspace => self.remove_before_cursor(),
                Key::Left => self.cursor_left(),
                Key::Right => self.cursor_right(),
                Key::Up => self.cursor_up(),
                Key::Down => self.cursor_down(),
                _ => self,
            }
        }
    }

    /// What a key asks the caller to do.
    pub open spec fn command_of(self, key: Key) -> Command {
        if self.focus != AppFocus::Editor {
            Command::Nothing
        } else {
            match key {
                Key::Enter => Command::Send,
                Key::Esc => Command::Quit,
                _ => Command::Nothing,
            }
        }
    }

    /// After the line was taken to be sent: it is empty.
    pub open spec fn cleared(self) -> AppView {
        AppView { input: Seq::empty(), cursor: 0, ..self }
    }

    /// The part of the line that stands before the cursor.
    pub open spec fn before_cursor(self) -> Seq<char> {
        self.input.take(self.cursor as int)
    }

    /// The part of the line that stands behind the cursor.
    pub open spec fn behind_cursor(self) -> Seq<char> {
        self.input.skip(self.cursor as int)
    }
}

/// A text has at least one byte for each of its characters.
pub proof fn lemma_bytes_cover_chars(text: Seq<char>)
    ensures
        text.len() <= encode_utf8(text).len(),
    decreases text.len(),
{
    if text.len() > 0 {
        lemma_bytes_cover_chars(text.drop_first());
    }
}

impl Default for App {
    fn default() -> (app: App)
        ensures
            app@ == (AppView {
                focus: AppFocus::Editor,
                received: Seq::empty(),
                input: Seq::empty(),
                cursor: 0,
                editor_width: 0,
            }),
            app.wf(),
    {
        let app = App {
            focus: AppFocus::Editor,
            received_messages: Vec::new(),
            input_buffer: String::new(),
            cursor_position: 0,
            editor_width: 0,
            text_size: 0,
        };
        assert(app@.received == Seq::<MessageView>::empty());
        app
    }
}

impl App {
    /// The state is sound: what it holds is well formed, and the size of the
    /// received text is counted rightly.
    pub closed spec fn wf(&self) -> bool {
        &&& self@.wf()
        &&& self.text_size == text_size(self@.received)
    }

    /// What a sound state holds is well formed.
    pub proof fn lemma_wf(&self)
        requires
            self.wf(),
        ensures
            self@.wf(),
    {
    }

    /// The part of the screen that takes the keys.
    pub fn focus(&self) -> (focus: AppFocus)
        ensures
            focus == self@.focus,
    {
        self.focus
    }

    /// The line being edited.
    pub fn input_buffer(&self) -> (input: &str)
        ensures
            input@ == self@.input,
    {
        self.input_buffer.as_str()
    }

    /// The number of characters before the cursor.
    pub fn cursor_position(&self) -> (cursor: usize)
        ensures
            cursor == self@.cursor,
    {
        self.cursor_position
    }

    /// The columns of the block in which the line is edited.
    pub fn editor_width(&self) -> (width: u16)
        ensures
            width == self@.editor_width,
    {
        self.editor_width
    }

    /// The text messages received, oldest first.
    pub fn received_messages(&self) -> (received: &Vec<Message>)
        ensures
            received@.map_values(|msg: Message| msg@) == self@.received,
    {
        &self.received_messages
    }

    /// Fit the editor into a block that is `block_width` columns wide, its
    /// border on both sides included.
    pub fn fit_to_block(&mut self, block_width: u16)
        requires
            block_width >= 2,
            old(self).wf(),
        ensures
            final(self).wf(),
            final(self)@ == (AppView { editor_width: (block_width - 2) as nat, ..old(self)@ }),
    {
        self.editor_width = block_width - 2;
    }

    /// Get `len()` of the string before your cursor.
    ///
    /// For example, string `"啊a"` is before your cursor,
    /// the function will return `4`.
    pub fn len_of_str_before_cursor(&self) -> (len: usize)
        requires
            self.wf(),
        ensures
            len == encode_utf8(self@.before_cursor()).len(),
    {
        let chars = string_to_char_vec(&self.input_buffer);
        let string_before_cursor: String = char_arr_to_string(
            slice_subrange(chars.as_slice(), 0, self.cursor_position),
        );
        string_before_cursor.as_str().as_bytes().len()
    }

    /// Get unicode width of the string before your cursor.
    ///
    /// For example, string `"啊a"` is before your cursor,
    /// the function will return `3`.
    pub fn width_of_str_before_cursor(&self) -> (width: usize)
        requires
            self.wf(),
        ensures
            width == str_width(self@.before_cursor()),
    {
        let chars = string_to_char_vec(&self.input_buffer);
        let string_before_cursor: String = char_arr_to_string(
            slice_subrange(chars.as_slice(), 0, self.cursor_position),
        );
        width_of_str(string_before_cursor.as_str())
    }

    /// Get actually occupied width of the string before your cursor.
    ///
    /// For example, in such a block, width for string is `10`:
    /// ```shell
    /// ┌──────────┐
    /// │123456789 │
    /// │十        │
    /// └──────────┘
    /// ```
    /// The width of string `"123456789十"` should be `11`,
    /// but actually occupied width will be `12`.
    pub fn width_occupied_by_str_before_cursor(&self) -> (width: usize)
        requires
            self.wf(),
            self@.editor_width > 0,
        ensures
            width == occupied_width(columns_of(self@.before_cursor()), self@.editor_width),
            width <= 2 * u8::MAX * MSG_BUF_SIZE,
    {
        let chars = string_to_char_vec(&self.input_buffer);
        let widths = columns_of_chars(slice_subrange(chars.as_slice(), 0, self.cursor_position));
        proof {
            lemma_occupied_bound(widths@, self.editor_width as nat);
            assert(2 * u8::MAX * widths@.len() <= 2 * u8::MAX * MSG_BUF_SIZE) by (nonlinear_arith)
                requires
                    widths@.len() <= MSG_BUF_SIZE,
            ;
        }
        width_occupied(widths.as_slice(), self.editor_width)
    }

    /// Put `ch` into the line at the cursor, which then stands behind it.
    /// A line that has reached the size of one message takes no more.
    pub fn insert_char(&mut self, ch: char) -> (inserted: bool)
        requires
            old(self).wf(),
        ensures
            final(self).wf(),
            inserted == (encode_utf8(old(self)@.input).len() < MSG_BUF_SIZE),
            final(self)@ == old(self)@.insert_char(ch),
    {
        // length of msg should be shorter
        // for there are msg type and sender in Message
        if self.input_buffer.as_str().as_bytes().len() < MSG_BUF_SIZE {
            proof {
                lemma_bytes_cover_chars(self.input_buffer@);
            }
            let mut chars = string_to_char_vec(&self.input_buffer);
            chars.insert(self.cursor_position, ch);
            self.input_buffer = char_vec_to_string(&chars);
            self.cursor_position = self.cursor_position + 1;
            true
        } else {
            false
        }
    }

    /// remove a char just before the cursor
    pub fn remove_a_char_before_cursor(&mut self)
        requires
            old(self).wf(),
        ensures
            final(self).wf(),
            final(self)@ == old(self)@.remove_before_cursor(),
    {
        if self.cursor_position > 0 {
            let mut chars_in_buffer: Vec<char> = string_to_char_vec(&self.input_buffer);
            chars_in_buffer.remove(self.cursor_position - 1);
            self.input_buffer = char_vec_to_string(&chars_in_buffer);
            self.cursor_position = self.cursor_position - 1;
        }
    }

    /// move cursor one character to the left, unless it stands at the start
    pub fn move_cursor_left(&mut self)
        requires
            old(self).wf(),
        ensures
            final(self).wf(),
            final(self)@ == old(self)@.cursor_left(),
    {
        if self.cursor_position > 0 {
            self.cursor_position = self.cursor_position - 1;
        }
    }

    /// move cursor one character to the right, unless it stands at the end
    pub fn move_cursor_right(&mut self)
        requires
            old(self).wf(),
        ensures
            final(self).wf(),
            final(self)@ == old(self)@.cursor_right(),
    {
        let count: usize = string_to_char_vec(&self.input_buffer).len();
        if self.cursor_position < count {
            self.cursor_position = self.cursor_position + 1;
        }
    }

    /// move cursor to the line above
    ///
    /// The cursor stays where it is if the way up cannot be told from the
    /// widths of the text before it.
    pub fn move_cursor_up(&mut self)
        requires
            old(self).wf(),
            old(self)@.editor_width > 0,
        ensures
            final(self).wf(),
            final(self)@ == old(self)@.cursor_up(),
    {
        let str_width_before_cursor: usize = self.width_of_str_before_cursor();
        let chars = string_to_char_vec(&self.input_buffer);
        let widths = columns_of_chars(slice_subrange(chars.as_slice(), 0, self.cursor_position));
        match steps_up(widths.as_slice(), str_width_before_cursor, self.editor_width) {
            Some(steps_to_move) => {
                self.cursor_position = self.cursor_position - steps_to_move;
            },
            None => {},
        }
    }

    /// move cursor to the line below
    pub fn move_cursor_down(&mut self)
        requires
            old(self).wf(),
            old(self)@.editor_width > 0,
        ensures
            final(self).wf(),
            final(self)@ == old(self)@.cursor_down(),
    {
        let width_occupied: usize = self.width_occupied_by_str_before_cursor();
        let chars_in_buf = string_to_char_vec(&self.input_buffer);
        let widths = columns_of_chars(
            slice_subrange(chars_in_buf.as_slice(), self.cursor_position, chars_in_buf.len()),
        );
        let steps_to_move: usize = steps_down(widths.as_slice(), width_occupied, self.editor_width);
        self.cursor_position = self.cursor_position + steps_to_move;
    }

    /// Take in a message from the server: a text message joins the list of
    /// received messages, any other is dropped.
    pub fn receive(&mut self, msg: Message) -> (stored: bool)
        requires
            old(self).wf(),
        ensures
            final(self).wf(),
            stored == old(self)@.stores(msg@),
            final(self)@ == old(self)@.receive(msg@),
    {
        match msg.msg_type {
            MessageType::TextMessage => {},
            _ => {
                return false;
            },
        }
        let sender_len: usize = msg.msg_sender.as_str().unicode_len();
        let content_len: usize = msg.msg_content.as_str().unicode_len();
        let ghost received = self@.received;
        assert(received.push(msg@).drop_last() == received);
        assert(brief(msg@).len() == sender_len + 2 + content_len);
        if sender_len > usize::MAX - 3 || content_len > usize::MAX - 3 - sender_len {
            return false;
        }
        let size: usize = sender_len + 2 + content_len + 1;
        if self.text_size > usize::MAX - size {
            return false;
        }
        self.text_size = self.text_size + size;
        self.received_messages.push(msg);
        assert(self@.received == received.push(msg@));
        true
    }

    /// Get number of actually occupied lines by the msgs received.
    pub fn lines_occupied_by_msg_received(&self) -> (lines: usize)
        requires
            self.wf(),
            self@.editor_width > 0,
        ensures
            lines == total_lines(self@.received, self@.editor_width),
    {
        let ghost received = self@.received;
        let mut lines: usize = 0;
        let mut i: usize = 0;
        while i < self.received_messages.len()
            invariant
                i <= self.received_messages.len(),
                received == self@.received,
                received.len() == self.received_messages.len(),
                self@.editor_width > 0,
                text_size(received) <= usize::MAX,
                lines == total_lines(received.take(i as int), self@.editor_width),
                lines <= text_size(received.take(i as int)),
            decreases self.received_messages.len() - i,
        {
            let msg_str = self.received_messages[i].to_brief_string();
            let chars = string_to_char_vec(&msg_str);
            proof {
                let next = received.take(i + 1);
                assert(next.drop_last() == received.take(i as int));
                assert(next.last() == self.received_messages[i as int]@);
                lemma_text_size_grows(received, i + 1);
                lemma_line_walk_bound(columns_of(chars@), self@.editor_width);
            }
            let widths = columns_of_chars(chars.as_slice());
            lines = lines + lines_occupied(widths.as_slice(), self.editor_width);
            i += 1;
        }
        assert(received.take(received.len() as int) == received);
        lines
    }

    /// Take the line out of the editor to send it as a text message from
    /// `sender`. An empty or blank line is not sent: it stays, and there
    /// is no message.
    pub fn take_outgoing(&mut self, sender: &str) -> (outgoing: Option<Message>)
        requires
            old(self).wf(),
        ensures
            final(self).wf(),
            match outgoing {
                Some(msg) => {
                    &&& !blank(old(self)@.input)
                    &&& msg@ == text_from(sender@, old(self)@.input)
                    &&& final(self)@ == old(self)@.cleared()
                },
                None => blank(old(self)@.input) && final(self)@ == old(self)@,
            },
    {
        // do not send empty or blank string
        if is_blank(self.input_buffer.as_str()) {
            return None;
        }
        let msg = text_message(sender, self.input_buffer.as_str());
        self.input_buffer = String::new();
        self.cursor_position = 0;
        Some(msg)
    }

    /// Apply one key that was pressed while the editor has the focus, and
    /// say what the caller is to do. Elsewhere no key does anything.
    pub fn handle_key(&mut self, key: Key) -> (command: Command)
        requires
            old(self).wf(),
            key is Up || key is Down ==> old(self)@.editor_width > 0,
        ensures
            final(self).wf(),
            final(self)@ == old(self)@.after_key(key),
            command == old(self)@.command_of(key),
    {
        match self.focus {
            AppFocus::Editor => {},
            _ => {
                return Command::Nothing;
            },
        }
        match key {
            Key::Enter => Command::Send,
            Key::Char(ch) => {
                self.insert_char(ch);
                Command::Nothing
            },
            Key::Backspace => {
                self.remove_a_char_before_cursor();
                Command::Nothing
            },
            Key::Left => {
                self.move_cursor_left();
                Command::Nothing
            },
            Key::Right => {
                self.move_cursor_right();
                Command::Nothing
            },
            Key::Up => {
                self.move_cursor_up();
                Command::Nothing
            },
            Key::Down => {
                self.move_cursor_down();
                Command::Nothing
            },
            Key::Esc => Command::Quit,
            Key::Other => Command::Nothing,
        }
    }
}

/// The text of more messages is no smaller than the text of the first of
/// them.
pub proof fn lemma_text_size_grows(msgs: Seq<MessageView>, len: int)
    requires
        0 <= len <= msgs.len(),
    ensures
        text_size(msgs.take(len)) <= text_size(msgs),
    decreases msgs.len() - len,
{
    if len == msgs.len() {
        assert(msgs.take(len) == msgs);
    } else {
        lemma_text_size_grows(msgs.drop_last(), len);
        assert(msgs.drop_last().take(len) == msgs.take(len));
    }
}

/// Whether a text holds nothing but white space.
pub fn is_blank(text: &str) -> (answer: bool)
    ensures
        answer == blank(text@),
{
    let chars = str_to_char_vec(text);
    let mut i: usize = 0;
    while i < chars.len()
        invariant
            i <= chars.len(),
            chars@ == text@,
            blank(chars@.take(i as int)),
        decreases chars.len() - i,
    {
        if !chars[i].is_whitespace() {
            return false;
        }
        i += 1;
    }
    assert(chars@.take(chars.len() as int) == chars@);
    true
}

} // verus!
