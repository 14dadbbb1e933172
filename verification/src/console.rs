//! What the console shows: the input prompt, the line being edited, and
//! the streamed reply.  Reading keys and writing to the terminal is done by
//! the caller, which prints the text these functions return.
use vstd::prelude::*;
use vstd::string::*;
use std::collections::BTreeSet;
use crate::config::StreamingConfig;
use crate::context::budget::sat;
use crate::streaming::{AgentStreamEvent, EventModel};
use crate::text::{
    append_chars, append_str, ascii_lower, ascii_lower_vec, chars_eq_str, decimal, decimal_chars,
    str_chars, string_from_chars,
};

verus! {

/// The display width of a text in terminal columns
/// (`unicode_width::UnicodeWidthStr::width`).
pub uninterp spec fn display_width(s: Seq<char>) -> usize;

/// `UnicodeWidthStr::width` from the `unicode-width` crate: the number of
/// columns the text occupies.  It depends on the text alone.
#[verifier::external_body]
fn str_display_width(s: &str) -> (w: usize)
    ensures
        w == display_width(s@),
{
    unicode_width::UnicodeWidthStr::width(s)
}

pub open spec fn line_clear(ansi_line_clear: bool) -> Seq<char> {
    if ansi_line_clear {
        "\x1b[2K"@
    } else {
        Seq::empty()
    }
}

/// The prompt, after the footer on a line of its own when there is a
/// footer; each line is cleared first on a terminal.
pub open spec fn spec_render_input_prompt(
    prompt: Seq<char>,
    footer: Option<Seq<char>>,
    ansi_line_clear: bool,
) -> Seq<char> {
    (match footer {
        Some(f) => if f.len() > 0 {
            line_clear(ansi_line_clear) + f + "\n"@
        } else {
            Seq::empty()
        },
        None => Seq::empty(),
    }) + line_clear(ansi_line_clear) + prompt
}

pub fn render_input_prompt(prompt: &str, footer: Option<&str>, ansi_line_clear: bool) -> (r: String)
    ensures
        r@ == spec_render_input_prompt(
            prompt@,
            match footer {
                Some(f) => Some(f@),
                None => None,
            },
            ansi_line_clear,
        ),
{
    let mut output: Vec<char> = Vec::new();
    let clear = if ansi_line_clear {
        str_chars("\x1b[2K")
    } else {
        Vec::new()
    };
    match footer {
        Some(f) => {
            if !f.is_empty() {
                append_chars(&mut output, clear.as_slice());
                append_str(&mut output, f);
                append_str(&mut output, "\n");
            }
        },
        None => {},
    }
    append_chars(&mut output, clear.as_slice());
    append_str(&mut output, prompt);
    string_from_chars(output.as_slice())
}

/// The length of a UTF-8 sequence from its first byte, 0 when the byte
/// does not start one of two to four bytes.
pub fn utf8_sequence_width(first: u8) -> (w: usize)
    ensures
        w == if 0xC2 <= first <= 0xDF {
            2usize
        } else if 0xE0 <= first <= 0xEF {
            3usize
        } else if 0xF0 <= first <= 0xF4 {
            4usize
        } else {
            0usize
        },
{
    if 0xC2 <= first && first <= 0xDF {
        2
    } else if 0xE0 <= first && first <= 0xEF {
        3
    } else if 0xF0 <= first && first <= 0xF4 {
        4
    } else {
        0
    }
}

/// `exit` or `quit`, in any ASCII case.
pub fn is_exit_command(input: &str) -> (b: bool)
    ensures
        b == (ascii_lower(input@) == "exit"@ || ascii_lower(input@) == "quit"@),
{
    let lower = ascii_lower_vec(str_chars(input).as_slice());
    chars_eq_str(lower.as_slice(), "exit") || chars_eq_str(lower.as_slice(), "quit")
}

/// A line being edited, with a cursor between characters.
#[derive(Debug, Default)]
pub struct EditableLine {
    pub text: Vec<char>,
    pub cursor: usize,
}

impl EditableLine {
    pub open spec fn wf(&self) -> bool {
        self.cursor <= self.text@.len()
    }

    pub fn as_string(&self) -> (s: String)
        ensures
            s@ == self.text@,
    {
        string_from_chars(self.text.as_slice())
    }

    pub fn into_string(self) -> (s: String)
        ensures
            s@ == self.text@,
    {
        string_from_chars(self.text.as_slice())
    }

    /// Inserts text at the cursor and moves the cursor past it.
    pub fn insert_str(&mut self, text: &str)
        requires
            old(self).wf(),
        ensures
            final(self).wf(),
            final(self).text@ == old(self).text@.take(old(self).cursor as int) + text@ + old(self).text@.skip(old(self).cursor as int),
            final(self).cursor == old(self).cursor + text@.len(),
    {
        let t = str_chars(text);
        let mut out: Vec<char> = Vec::new();
        let mut i: usize = 0;
        while i < self.cursor
            invariant
                i <= self.cursor <= self.text@.len(),
                out@ == self.text@.take(i as int),
            decreases self.cursor - i,
        {
            out.push(self.text[i]);
            i = i + 1;
            assert(out@ =~= self.text@.take(i as int));
        }
        append_chars(&mut out, t.as_slice());
        let new_cursor = out.len();
        let mut j: usize = self.cursor;
        let ghost head = out@;
        while j < self.text.len()
            invariant
                self.cursor <= j <= self.text@.len(),
                out@ == head + self.text@.subrange(self.cursor as int, j as int),
            decreases self.text.len() - j,
        {
            out.push(self.text[j]);
            j = j + 1;
            assert(out@ =~= head + self.text@.subrange(self.cursor as int, j as int));
        }
        assert(self.text@.subrange(self.cursor as int, self.text@.len() as int) =~= self.text@.skip(
            self.cursor as int,
        ));
        self.text = out;
        self.cursor = new_cursor;
    }

    /// Removes the character before the cursor; false at the start.
    pub fn backspace(&mut self) -> (b: bool)
        requires
            old(self).wf(),
        ensures
            final(self).wf(),
            b == (old(self).cursor > 0),
            b ==> final(self).text@ == old(self).text@.remove(old(self).cursor - 1) && final(self).cursor == old(self).cursor - 1,
            !b ==> *final(self) == *old(self),
    {
        if self.cursor == 0 {
            return false;
        }
        self.text.remove(self.cursor - 1);
        self.cursor = self.cursor - 1;
        true
    }

    /// Removes the character at the cursor; false at the end.
    pub fn delete(&mut self) -> (b: bool)
        requires
            old(self).wf(),
        ensures
            final(self).wf(),
            b == (old(self).cursor < old(self).text@.len()),
            b ==> final(self).text@ == old(self).text@.remove(old(self).cursor as int) && final(self).cursor == old(self).cursor,
            !b ==> *final(self) == *old(self),
    {
        if self.cursor >= self.text.len() {
            return false;
        }
        self.text.remove(self.cursor);
        true
    }

    pub fn move_left(&mut self) -> (b: bool)
        requires
            old(self).wf(),
        ensures
            final(self).wf(),
            final(self).text == old(self).text,
            b == (old(self).cursor > 0),
            final(self).cursor == if b {
                old(self).cursor - 1
            } else {
                old(self).cursor as int
            },
    {
        if self.cursor == 0 {
            return false;
        }
        self.cursor = self.cursor - 1;
        true
    }

    pub fn move_right(&mut self) -> (b: bool)
        requires
            old(self).wf(),
        ensures
            final(self).wf(),
            final(self).text == old(self).text,
            b == (old(self).cursor < old(self).text@.len()),
            final(self).cursor == if b {
                old(self).cursor + 1
            } else {
                old(self).cursor as int
            },
    {
        if self.cursor >= self.text.len() {
            return false;
        }
        self.cursor = self.cursor + 1;
        true
    }

    /// The column of the cursor after `prompt`.
    pub fn cursor_display_width(&self, prompt: &str) -> (w: usize)
        requires
            self.wf(),
        ensures
            w == sat(display_width(prompt@) + display_width(self.text@.take(self.cursor as int))),
    {
        let head = crate::text::slice_vec(self.text.as_slice(), 0, self.cursor);
        let hs = string_from_chars(head.as_slice());
        str_display_width(prompt).saturating_add(str_display_width(hs.as_str()))
    }

    /// The column after the whole line.
    pub fn end_display_width(&self, prompt: &str) -> (w: usize)
        ensures
            w == sat(display_width(prompt@) + display_width(self.text@)),
    {
        let s = string_from_chars(self.text.as_slice());
        str_display_width(prompt).saturating_add(str_display_width(s.as_str()))
    }
}

/// Redrawing a line: clear it, write prompt and text, and move the cursor
/// back to its column when it is not at the end.
pub open spec fn spec_render_editable_line(prompt: Seq<char>, line: EditableLine) -> Seq<char> {
    let cursor = sat(display_width(prompt) + display_width(line.text@.take(line.cursor as int)));
    let end = sat(display_width(prompt) + display_width(line.text@));
    "\r\x1b[2K"@ + prompt + line.text@ + if cursor != end {
        "\r"@ + if cursor > 0 {
            "\x1b["@ + decimal(cursor as nat) + "C"@
        } else {
            Seq::empty()
        }
    } else {
        Seq::empty()
    }
}

pub fn render_editable_line(prompt: &str, line: &EditableLine) -> (r: String)
    requires
        line.wf(),
    ensures
        r@ == spec_render_editable_line(prompt@, *line),
{
    let mut output = str_chars("\r\x1b[2K");
    append_str(&mut output, prompt);
    append_chars(&mut output, line.text.as_slice());
    let cursor_width = line.cursor_display_width(prompt);
    if cursor_width != line.end_display_width(prompt) {
        append_str(&mut output, "\r");
        if cursor_width > 0 {
            append_str(&mut output, "\x1b[");
            append_chars(&mut output, decimal_chars(cursor_width as u64).as_slice());
            append_str(&mut output, "C");
        }
    }
    string_from_chars(output.as_slice())
}

// ---------------------------------------------------------------------------
// Keys of the line editor.
// ---------------------------------------------------------------------------

/// A key read from a terminal in raw mode.
#[derive(Debug, Clone, PartialEq, Eq)]
pub enum InputKey {
    Enter,
    Backspace,
    Delete,
    Left,
    Right,
    Text(String),
    CtrlD,
    CtrlC,
    Ignore,
}

pub enum KeyModel {
    Enter,
    Backspace,
    Delete,
    Left,
    Right,
    Text(Seq<char>),
    CtrlD,
    CtrlC,
    Ignore,
}

impl View for InputKey {
    type V = KeyModel;

    open spec fn view(&self) -> KeyModel {
        match self {
            InputKey::Enter => KeyModel::Enter,
            InputKey::Backspace => KeyModel::Backspace,
            InputKey::Delete => KeyModel::Delete,
            InputKey::Left => KeyModel::Left,
            InputKey::Right => KeyModel::Right,
            InputKey::Text(t) => KeyModel::Text(t@),
            InputKey::CtrlD => KeyModel::CtrlD,
            InputKey::CtrlC => KeyModel::CtrlC,
            InputKey::Ignore => KeyModel::Ignore,
        }
    }
}

/// A key still needs more bytes: `None` before the input ended, `fallback`
/// once it has.
pub open spec fn need_more(eof: bool, fallback: KeyModel) -> Option<KeyModel> {
    if eof {
        Some(fallback)
    } else {
        None
    }
}

/// An escape sequence: `ESC [ C` is right, `ESC [ D` left, `ESC [ 3 x`
/// delete (whatever `x` is, or nothing), and anything else is ignored.
pub open spec fn spec_escape_key(bs: Seq<u8>, eof: bool) -> Option<KeyModel> {
    if bs.len() < 2 {
        need_more(eof, KeyModel::Ignore)
    } else if bs[1] != 0x5bu8 {
        Some(KeyModel::Ignore)
    } else if bs.len() < 3 {
        need_more(eof, KeyModel::Ignore)
    } else if bs[2] == 0x43u8 {
        Some(KeyModel::Right)
    } else if bs[2] == 0x44u8 {
        Some(KeyModel::Left)
    } else if bs[2] == 0x33u8 {
        if bs.len() < 4 {
            need_more(eof, KeyModel::Delete)
        } else {
            Some(KeyModel::Delete)
        }
    } else {
        Some(KeyModel::Ignore)
    }
}

pub open spec fn spec_sequence_width(first: u8) -> int {
    if 0xC2 <= first <= 0xDF {
        2
    } else if 0xE0 <= first <= 0xEF {
        3
    } else if 0xF0 <= first <= 0xF4 {
        4
    } else {
        0
    }
}

/// A multi-byte character: its bytes as text when they are UTF-8.
pub open spec fn spec_utf8_key(bs: Seq<u8>, eof: bool) -> Option<KeyModel> {
    let w = spec_sequence_width(bs[0]);
    if w == 0 {
        Some(KeyModel::Ignore)
    } else if bs.len() < w {
        need_more(eof, KeyModel::Ignore)
    } else if vstd::utf8::valid_utf8(bs.take(w)) {
        Some(KeyModel::Text(vstd::utf8::decode_utf8(bs.take(w))))
    } else {
        Some(KeyModel::Ignore)
    }
}

/// The key that the bytes read so far make, `None` while more are needed;
/// `eof` says that no more will come.
pub open spec fn spec_decode_key(bs: Seq<u8>, eof: bool) -> Option<KeyModel> {
    if bs.len() == 0 {
        need_more(eof, KeyModel::CtrlD)
    } else {
        let b = bs[0];
        if b == 0x0du8 || b == 0x0au8 {
            Some(KeyModel::Enter)
        } else if b == 0x03u8 {
            Some(KeyModel::CtrlC)
        } else if b == 0x04u8 {
            Some(KeyModel::CtrlD)
        } else if b == 0x08u8 || b == 0x7fu8 {
            Some(KeyModel::Backspace)
        } else if b == 0x1bu8 {
            spec_escape_key(bs, eof)
        } else if b <= 0x1fu8 {
            Some(KeyModel::Ignore)
        } else if b <= 0x7eu8 {
            Some(KeyModel::Text(seq![b as char]))
        } else {
            spec_utf8_key(bs, eof)
        }
    }
}

pub open spec fn opt_key(o: Option<InputKey>) -> Option<KeyModel> {
    match o {
        Some(k) => Some(k@),
        None => None,
    }
}

fn more_or(eof: bool, fallback: InputKey) -> (r: Option<InputKey>)
    ensures
        opt_key(r) == need_more(eof, fallback@),
{
    if eof {
        Some(fallback)
    } else {
        None
    }
}

fn ascii_char(b: u8) -> (c: char)
    requires
        0x20 <= b <= 0x7e,
    ensures
        c == b as char,
{
    b as char
}

/// Decodes the bytes of one key.
pub fn decode_key(bs: &[u8], eof: bool) -> (r: Option<InputKey>)
    ensures
        opt_key(r) == spec_decode_key(bs@, eof),
{
    if bs.len() == 0 {
        return more_or(eof, InputKey::CtrlD);
    }
    let b = bs[0];
    if b == 0x0d || b == 0x0a {
        Some(InputKey::Enter)
    } else if b == 0x03 {
        Some(InputKey::CtrlC)
    } else if b == 0x04 {
        Some(InputKey::CtrlD)
    } else if b == 0x08 || b == 0x7f {
        Some(InputKey::Backspace)
    } else if b == 0x1b {
        if bs.len() < 2 {
            more_or(eof, InputKey::Ignore)
        } else if bs[1] != 0x5b {
            Some(InputKey::Ignore)
        } else if bs.len() < 3 {
            more_or(eof, InputKey::Ignore)
        } else if bs[2] == 0x43 {
            Some(InputKey::Right)
        } else if bs[2] == 0x44 {
            Some(InputKey::Left)
        } else if bs[2] == 0x33 {
            if bs.len() < 4 {
                more_or(eof, InputKey::Delete)
            } else {
                Some(InputKey::Delete)
            }
        } else {
            Some(InputKey::Ignore)
        }
    } else if b <= 0x1f {
        Some(InputKey::Ignore)
    } else if b <= 0x7e {
        let mut t = String::new();
        crate::text::push_char(&mut t, ascii_char(b));
        proof {
            assert(t@ =~= seq![b as char]);
        }
        Some(InputKey::Text(t))
    } else {
        let w = utf8_sequence_width(b);
        if w == 0 {
            Some(InputKey::Ignore)
        } else if bs.len() < w {
            more_or(eof, InputKey::Ignore)
        } else {
            let mut head: Vec<u8> = Vec::new();
            let mut i: usize = 0;
            while i < w
                invariant
                    i <= w <= bs@.len(),
                    head@ == bs@.take(i as int),
                decreases w - i,
            {
                head.push(bs[i]);
                i = i + 1;
                assert(head@ =~= bs@.take(i as int));
            }
            match crate::text::utf8_text(head) {
                Some(t) => Some(InputKey::Text(t)),
                None => Some(InputKey::Ignore),
            }
        }
    }
}

/// What a key did to the line being edited.
#[derive(Debug, Clone, PartialEq, Eq)]
pub enum EditOutcome {
    Submit(String),
    EndOfInput,
    Interrupted,
    Redraw,
    Unchanged,
}

/// Applies a key: Enter submits the line, Ctrl-C interrupts, Ctrl-D ends the
/// input on an empty line, text is inserted, and the editing keys change the
/// line or the cursor; the line is redrawn when it changed.
pub fn apply_key(line: &mut EditableLine, key: InputKey) -> (o: EditOutcome)
    requires
        old(line).wf(),
    ensures
        final(line).wf(),
        match key {
            InputKey::Enter => o matches EditOutcome::Submit(s) && s@ == old(line).text@
                && *final(line) == *old(line),
            InputKey::CtrlC => o == EditOutcome::Interrupted && *final(line) == *old(line),
            InputKey::CtrlD => *final(line) == *old(line) && o == if old(line).text@.len() == 0 {
                EditOutcome::EndOfInput
            } else {
                EditOutcome::Unchanged
            },
            InputKey::Text(t) => o == EditOutcome::Redraw && final(line).text@ == old(line).text@.take(
                old(line).cursor as int,
            ) + t@ + old(line).text@.skip(old(line).cursor as int) && final(line).cursor
                == old(line).cursor + t@.len(),
            InputKey::Backspace => if old(line).cursor > 0 {
                o == EditOutcome::Redraw && final(line).text@ == old(line).text@.remove(
                    old(line).cursor - 1,
                ) && final(line).cursor == old(line).cursor - 1
            } else {
                o == EditOutcome::Unchanged && *final(line) == *old(line)
            },
            InputKey::Delete => if old(line).cursor < old(line).text@.len() {
                o == EditOutcome::Redraw && final(line).text@ == old(line).text@.remove(
                    old(line).cursor as int,
                ) && final(line).cursor == old(line).cursor
            } else {
                o == EditOutcome::Unchanged && *final(line) == *old(line)
            },
            InputKey::Left => final(line).text == old(line).text && if old(line).cursor > 0 {
                o == EditOutcome::Redraw && final(line).cursor == old(line).cursor - 1
            } else {
                o == EditOutcome::Unchanged && final(line).cursor == old(line).cursor
            },
            InputKey::Right => final(line).text == old(line).text && if old(line).cursor
                < old(line).text@.len() {
                o == EditOutcome::Redraw && final(line).cursor == old(line).cursor + 1
            } else {
                o == EditOutcome::Unchanged && final(line).cursor == old(line).cursor
            },
            InputKey::Ignore => o == EditOutcome::Unchanged && *final(line) == *old(line),
        },
{
    match key {
        InputKey::Enter => EditOutcome::Submit(line.as_string()),
        InputKey::CtrlC => EditOutcome::Interrupted,
        InputKey::CtrlD => if line.text.len() == 0 {
            EditOutcome::EndOfInput
        } else {
            EditOutcome::Unchanged
        },
        InputKey::Text(t) => {
            line.insert_str(t.as_str());
            EditOutcome::Redraw
        },
        InputKey::Backspace => if line.backspace() {
            EditOutcome::Redraw
        } else {
            EditOutcome::Unchanged
        },
        InputKey::Delete => if line.delete() {
            EditOutcome::Redraw
        } else {
            EditOutcome::Unchanged
        },
        InputKey::Left => if line.move_left() {
            EditOutcome::Redraw
        } else {
            EditOutcome::Unchanged
        },
        InputKey::Right => if line.move_right() {
            EditOutcome::Redraw
        } else {
            EditOutcome::Unchanged
        },
        InputKey::Ignore => EditOutcome::Unchanged,
    }
}

/// A line that was read is accepted trimmed, unless it is blank (then the
/// prompt is shown again).
pub fn accept_input(raw: &str) -> (r: Option<String>)
    ensures
        match r {
            Some(s) => crate::text::trim(raw@).len() > 0 && s@ == crate::text::trim(raw@),
            None => crate::text::trim(raw@).len() == 0,
        },
{
    let t = crate::text::trim_vec(str_chars(raw).as_slice());
    if t.len() == 0 {
        None
    } else {
        Some(string_from_chars(t.as_slice()))
    }
}

// ---------------------------------------------------------------------------
// The streamed reply on the console.
// ---------------------------------------------------------------------------

/// What the console has shown of the current response.
pub struct ConsoleTraceRenderer {
    pub config: StreamingConfig,
    pub is_tty: bool,
    pub printed_thinking_header: bool,
    pub printed_reasoning_delta: bool,
    pub printed_answer_header: bool,
    pub printed_tool_calls: BTreeSet<u32>,
    pub open_tool_call_line: bool,
}

pub struct RendererModel {
    pub show_reasoning: bool,
    pub show_tool_call_deltas: bool,
    pub is_tty: bool,
    pub printed_thinking_header: bool,
    pub printed_reasoning_delta: bool,
    pub printed_answer_header: bool,
    pub printed_tool_calls: Set<u32>,
    pub open_tool_call_line: bool,
}

impl View for ConsoleTraceRenderer {
    type V = RendererModel;

    open spec fn view(&self) -> RendererModel {
        RendererModel {
            show_reasoning: self.config.show_reasoning,
            show_tool_call_deltas: self.config.show_tool_call_deltas,
            is_tty: self.is_tty,
            printed_thinking_header: self.printed_thinking_header,
            printed_reasoning_delta: self.printed_reasoning_delta,
            printed_answer_header: self.printed_answer_header,
            printed_tool_calls: self.printed_tool_calls@,
            open_tool_call_line: self.open_tool_call_line,
        }
    }
}

pub open spec fn dim(is_tty: bool, text: Seq<char>) -> Seq<char> {
    if is_tty {
        "\x1b[2m"@ + text + "\x1b[0m"@
    } else {
        text
    }
}

/// Ends a line of reasoning, if one is open.
pub open spec fn finish_reasoning(st: RendererModel) -> (RendererModel, Seq<char>) {
    if st.printed_reasoning_delta {
        (RendererModel { printed_reasoning_delta: false, ..st }, "\n"@)
    } else {
        (st, Seq::empty())
    }
}

/// What one event shows, and the state after it.
pub open spec fn render_step(st: RendererModel, e: EventModel) -> (RendererModel, Seq<char>) {
    match e {
        EventModel::ResponseStarted { .. } => (
            RendererModel {
                printed_thinking_header: false,
                printed_reasoning_delta: false,
                printed_answer_header: false,
                printed_tool_calls: Set::empty(),
                open_tool_call_line: false,
                ..st
            },
            Seq::empty(),
        ),
        EventModel::ReasoningStarted => if st.show_reasoning && !st.printed_thinking_header {
            (
                RendererModel { printed_thinking_header: true, ..st },
                dim(st.is_tty, "thinking> "@),
            )
        } else {
            (st, Seq::empty())
        },
        EventModel::ReasoningDelta(text) => if st.show_reasoning {
            (RendererModel { printed_reasoning_delta: true, ..st }, dim(st.is_tty, text))
        } else {
            (st, Seq::empty())
        },
        EventModel::AnswerStarted => {
            let (s1, out1) = finish_reasoning(st);
            if !s1.printed_answer_header {
                (RendererModel { printed_answer_header: true, ..s1 }, out1 + "agent> "@)
            } else {
                (s1, out1)
            }
        },
        EventModel::AnswerDelta(text) => (st, text),
        EventModel::ToolCallDelta { index, name, arguments_delta, .. } => if !st.show_tool_call_deltas || (
        name is None && arguments_delta is None) {
            (st, Seq::empty())
        } else {
            let (s1, out1) = finish_reasoning(st);
            let first = !s1.printed_tool_calls.contains(index);
            let (s2, out2) = if first {
                (
                    RendererModel {
                        printed_tool_calls: s1.printed_tool_calls.insert(index),
                        open_tool_call_line: true,
                        ..s1
                    },
                    (if s1.open_tool_call_line {
                        "\n"@
                    } else {
                        Seq::empty()
                    }) + "tool["@ + decimal(index as nat) + "]> "@ + match name {
                        Some(n) => n + " "@,
                        None => Seq::empty(),
                    },
                )
            } else {
                (s1, Seq::empty())
            };
            (s2, out1 + out2 + match arguments_delta {
                Some(a) => a,
                None => Seq::empty(),
            })
        },
        EventModel::ResponseFinished { .. } => (
            RendererModel { printed_reasoning_delta: false, open_tool_call_line: false, ..st },
            if st.printed_answer_header || st.printed_reasoning_delta || st.open_tool_call_line {
                "\n"@
            } else {
                Seq::empty()
            },
        ),
        EventModel::Usage(_) => (st, Seq::empty()),
    }
}

impl ConsoleTraceRenderer {
    pub fn new(config: &StreamingConfig, is_tty: bool) -> (r: Self)
        ensures
            r.config == *config,
            r.is_tty == is_tty,
            !r.printed_thinking_header,
            !r.printed_reasoning_delta,
            !r.printed_answer_header,
            r.printed_tool_calls@ == Set::<u32>::empty(),
            !r.open_tool_call_line,
    {
        ConsoleTraceRenderer {
            config: StreamingConfig {
                enabled: config.enabled,
                show_reasoning: config.show_reasoning,
                show_tool_call_deltas: config.show_tool_call_deltas,
            },
            is_tty,
            printed_thinking_header: false,
            printed_reasoning_delta: false,
            printed_answer_header: false,
            printed_tool_calls: BTreeSet::new(),
            open_tool_call_line: false,
        }
    }

    fn finish_reasoning_line(&mut self, out: &mut Vec<char>)
        ensures
            (final(self)@, final(out)@.skip(old(out)@.len() as int)) == finish_reasoning(old(self)@),
            final(out)@.take(old(out)@.len() as int) == old(out)@,
            final(self).config == old(self).config,
            final(self).printed_tool_calls == old(self).printed_tool_calls,
    {
        let ghost start = out@;
        if self.printed_reasoning_delta {
            append_str(out, "\n");
            self.printed_reasoning_delta = false;
        }
        assert(out@.skip(start.len() as int) =~= finish_reasoning(old(self)@).1);
        assert(out@.take(start.len() as int) =~= start);
    }

    fn printed(&self, index: u32) -> (b: bool)
        ensures
            b == self@.printed_tool_calls.contains(index),
    {
        broadcast use vstd::std_specs::btree::group_btree_axioms, vstd::laws_cmp::group_laws_cmp;
        self.printed_tool_calls.contains(&index)
    }

    #[verifier::rlimit(40)]
    fn render_tool_delta(
        &mut self,
        index: u32,
        name: &Option<String>,
        arguments_delta: &Option<String>,
        out: &mut Vec<char>,
    )
        requires
            old(out)@.len() == 0,
        ensures
            (final(self)@, final(out)@) == render_step(
                old(self)@,
                EventModel::ToolCallDelta {
                    index,
                    id: None,
                    name: crate::api::opt_text(*name),
                    arguments_delta: crate::api::opt_text(*arguments_delta),
                },
            ),
            final(self).config == old(self).config,
    {
        let has_name = match name {
            Some(_) => true,
            None => false,
        };
        let has_args = match arguments_delta {
            Some(_) => true,
            None => false,
        };
        if self.config.show_tool_call_deltas && (has_name || has_args) {
            self.finish_reasoning_line(out);
            let ghost o1 = out@;
            assert(o1.skip(0) =~= o1);
            if !self.printed(index) {
                mark_printed(&mut self.printed_tool_calls, index);
                if self.open_tool_call_line {
                    append_str(out, "\n");
                }
                append_str(out, "tool[");
                append_chars(out, decimal_chars(index as u64).as_slice());
                append_str(out, "]> ");
                match name {
                    Some(n) => {
                        append_str(out, n.as_str());
                        append_str(out, " ");
                    },
                    None => {},
                }
                self.open_tool_call_line = true;
            }
            let ghost o2 = out@;
            match arguments_delta {
                Some(a) => {
                    append_str(out, a.as_str());
                },
                None => {},
            }
            assert(out@ =~= o1 + o2.skip(o1.len() as int) + out@.skip(o2.len() as int));
        } else {
            assert(out@ =~= Seq::<char>::empty());
        }
    }

    /// The text that an event shows; the caller prints it.
    pub fn render(&mut self, event: &AgentStreamEvent) -> (out: String)
        ensures
            (final(self)@, out@) == render_step(old(self)@, event@),
            final(self).config == old(self).config,
    {
        let mut out: Vec<char> = Vec::new();
        match event {
            AgentStreamEvent::ResponseStarted { .. } => {
                self.printed_thinking_header = false;
                self.printed_reasoning_delta = false;
                self.printed_answer_header = false;
                self.printed_tool_calls = BTreeSet::new();
                self.open_tool_call_line = false;
            },
            AgentStreamEvent::ReasoningStarted => {
                if self.config.show_reasoning && !self.printed_thinking_header {
                    if self.is_tty {
                        append_str(&mut out, "\x1b[2m");
                        append_str(&mut out, "thinking> ");
                        append_str(&mut out, "\x1b[0m");
                    } else {
                        append_str(&mut out, "thinking> ");
                    }
                    self.printed_thinking_header = true;
                }
            },
            AgentStreamEvent::ReasoningDelta(text) => {
                if self.config.show_reasoning {
                    if self.is_tty {
                        append_str(&mut out, "\x1b[2m");
                        append_str(&mut out, text.as_str());
                        append_str(&mut out, "\x1b[0m");
                    } else {
                        append_str(&mut out, text.as_str());
                    }
                    self.printed_reasoning_delta = true;
                }
            },
            AgentStreamEvent::AnswerStarted => {
                self.finish_reasoning_line(&mut out);
                let ghost o1 = out@;
                if !self.printed_answer_header {
                    append_str(&mut out, "agent> ");
                    self.printed_answer_header = true;
                }
                assert(out@.skip(0) =~= out@);
                assert(o1.skip(0) =~= o1);
            },
            AgentStreamEvent::AnswerDelta(text) => {
                append_str(&mut out, text.as_str());
            },
            AgentStreamEvent::ToolCallDelta { index, id, name, arguments_delta } => {
                self.render_tool_delta(*index, name, arguments_delta, &mut out);
                assert(out@.skip(0) =~= out@);
            },
            AgentStreamEvent::ResponseFinished { .. } => {
                if self.printed_answer_header || self.printed_reasoning_delta
                    || self.open_tool_call_line {
                    append_str(&mut out, "\n");
                }
                self.printed_reasoning_delta = false;
                self.open_tool_call_line = false;
            },
            AgentStreamEvent::Usage(_) => {},
        }
        string_from_chars(out.as_slice())
    }
}

/// Records that a tool call's line was started.
fn mark_printed(printed: &mut BTreeSet<u32>, index: u32)
    ensures
        final(printed)@ == old(printed)@.insert(index),
{
    broadcast use vstd::std_specs::btree::group_btree_axioms, vstd::laws_cmp::group_laws_cmp;
    printed.insert(index);
}

} // verus!
