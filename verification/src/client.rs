//! The pure side of talking to the chat-completion endpoint: the streaming
//! form of a request, and the decoding of the server-sent-event text into
//! the `data:` payloads of its frames.
use vstd::prelude::*;
use vstd::string::*;
use vstd::utf8::{encode_utf8, is_char_boundary};
use crate::context::budget::byte_len;
use crate::api::{
    clone_messages, clone_text, clone_tool_defs, message_views, opt_text, opt_thinking,
    opt_tool_defs, ChatCompletionRequest, StreamOptions, ThinkingConfig,
};
use crate::config::{split_char, split_char_exec};
use crate::text::{
    chars_eq_str, chars_match_at, chars_starts_with_str, matches_at, slice_vec, starts_with,
    str_chars, string_from_chars, trim, trim_vec, views,
};
use crate::trace::boundary_at_most;

verus! {

pub const API_URL: &'static str = "https://api.deepseek.com/chat/completions";

/// The longest prefix of `s` of at most `max_len` bytes that ends on a
/// character boundary.
pub fn truncate_str(s: &str, max_len: usize) -> (r: &str)
    ensures
        byte_len(s@) <= max_len ==> r@ == s@,
        byte_len(s@) > max_len ==> encode_utf8(r@) == encode_utf8(s@).subrange(
            0,
            boundary_at_most(encode_utf8(s@), max_len as int),
        ),
{
    if s.len() <= max_len {
        return s;
    }
    let mut end = max_len;
    while end > 0 && !s.is_char_boundary(end)
        invariant
            0 <= end <= max_len,
            boundary_at_most(s.spec_bytes(), max_len as int) == boundary_at_most(
                s.spec_bytes(),
                end as int,
            ),
        decreases end,
    {
        end = end - 1;
    }
    proof {
        vstd::utf8::encode_utf8_valid_utf8(s@);
        if end > 0 {
            assert(is_char_boundary(s.spec_bytes(), end as int));
        }
        assert(is_char_boundary(s.spec_bytes(), 0));
    }
    let (head, _) = s.split_at(end);
    head
}

/// The request asked for as a stream, with usage reported at its end.
pub fn streaming_request(request: &ChatCompletionRequest) -> (r: ChatCompletionRequest)
    ensures
        r.model@ == request.model@,
        message_views(r.messages@) == message_views(request.messages@),
        opt_tool_defs(r.tools) == opt_tool_defs(request.tools),
        opt_thinking(r.thinking) == opt_thinking(request.thinking),
        opt_text(r.reasoning_effort) == opt_text(request.reasoning_effort),
        r.stream == Some(true),
        r.stream_options == Some(StreamOptions { include_usage: true }),
{
    ChatCompletionRequest {
        model: request.model.clone(),
        messages: clone_messages(&request.messages),
        tools: clone_tool_defs(&request.tools),
        thinking: match &request.thinking {
            Some(t) => Some(ThinkingConfig { kind: t.kind.clone() }),
            None => None,
        },
        reasoning_effort: clone_text(&request.reasoning_effort),
        stream: Some(true),
        stream_options: Some(StreamOptions { include_usage: true }),
    }
}

// ---------------------------------------------------------------------------
// Server-sent events.
// ---------------------------------------------------------------------------

/// The first position at or after `i` where `t` occurs in `s`.
pub open spec fn find_from(s: Seq<char>, t: Seq<char>, i: int) -> Option<int>
    decreases s.len() + 1 - i,
{
    if i < 0 || i + t.len() > s.len() {
        None
    } else if matches_at(s, t, i) {
        Some(i)
    } else {
        find_from(s, t, i + 1)
    }
}

/// The first position of `t` in `s` (`str::find`).
pub open spec fn find(s: Seq<char>, t: Seq<char>) -> Option<int> {
    find_from(s, t, 0)
}

/// The first frame of a buffer and what follows its separator: frames end
/// at the first blank line, `\n\n`, or failing that at the first `\r\n\r\n`.
pub open spec fn split_frame(b: Seq<char>) -> Option<(Seq<char>, Seq<char>)> {
    match find(b, "\n\n"@) {
        Some(p) => if 0 <= p && p + 2 <= b.len() {
            Some((b.subrange(0, p), b.subrange(p + 2, b.len() as int)))
        } else {
            None
        },
        None => match find(b, "\r\n\r\n"@) {
            Some(p) => if 0 <= p && p + 4 <= b.len() {
                Some((b.subrange(0, p), b.subrange(p + 4, b.len() as int)))
            } else {
                None
            },
            None => None,
        },
    }
}

/// What one frame line carries.
#[derive(Debug, Clone, PartialEq, Eq)]
pub enum SseItem {
    Payload(String),
    Done,
}

pub enum SseItemModel {
    Payload(Seq<char>),
    Done,
}

impl View for SseItem {
    type V = SseItemModel;

    open spec fn view(&self) -> SseItemModel {
        match self {
            SseItem::Payload(p) => SseItemModel::Payload(p@),
            SseItem::Done => SseItemModel::Done,
        }
    }
}

pub open spec fn item_views(v: Seq<SseItem>) -> Seq<SseItemModel> {
    v.map_values(|i: SseItem| i@)
}

/// A trimmed line that starts with `data:` carries its trimmed rest:
/// `[DONE]` ends the stream, anything else is a payload.
pub open spec fn line_item(line: Seq<char>) -> Option<SseItemModel> {
    let t = trim(line);
    if starts_with(t, "data:"@) {
        let p = trim(t.subrange(5, t.len() as int));
        if p == "[DONE]"@ {
            Some(SseItemModel::Done)
        } else {
            Some(SseItemModel::Payload(p))
        }
    } else {
        None
    }
}

pub open spec fn ends_done(items: Seq<SseItemModel>) -> bool {
    items.len() > 0 && items.last() is Done
}

/// The items of some lines, up to and including the first `[DONE]`.
pub open spec fn lines_items(lines: Seq<Seq<char>>) -> Seq<SseItemModel>
    decreases lines.len(),
{
    if lines.len() == 0 {
        Seq::empty()
    } else {
        let prev = lines_items(lines.drop_last());
        if ends_done(prev) {
            prev
        } else {
            match line_item(lines.last()) {
                Some(i) => prev.push(i),
                None => prev,
            }
        }
    }
}

/// The items of one frame, line by line.
pub open spec fn frame_items(frame: Seq<char>) -> Seq<SseItemModel> {
    lines_items(split_char(frame, '\n'))
}

/// The items of every complete frame of `b`, in order, up to and including
/// a `[DONE]`, and the text left for later frames.
pub open spec fn drain(b: Seq<char>) -> (Seq<SseItemModel>, Seq<char>)
    decreases b.len(),
{
    match split_frame(b) {
        None => (Seq::empty(), b),
        Some((frame, rest)) => {
            let items = frame_items(frame);
            if ends_done(items) || rest.len() >= b.len() {
                (items, rest)
            } else {
                let (more, left) = drain(rest);
                (items + more, left)
            }
        },
    }
}

proof fn lemma_find_from_step(s: Seq<char>, t: Seq<char>, i: int)
    requires
        0 <= i,
        i + t.len() <= s.len(),
        !matches_at(s, t, i),
    ensures
        find_from(s, t, i) == find_from(s, t, i + 1),
{
}

proof fn lemma_find_from_bounds(s: Seq<char>, t: Seq<char>, i: int)
    ensures
        find_from(s, t, i) matches Some(p) ==> i <= p && p + t.len() <= s.len() && matches_at(
            s,
            t,
            p,
        ),
    decreases s.len() + 1 - i,
{
    if i < 0 || i + t.len() > s.len() {
    } else if matches_at(s, t, i) {
    } else {
        lemma_find_from_bounds(s, t, i + 1);
    }
}

/// The first position of `t` in `s`.
fn chars_find(s: &[char], t: &[char]) -> (r: Option<usize>)
    ensures
        match r {
            Some(p) => find(s@, t@) == Some(p as int),
            None => find(s@, t@) is None,
        },
{
    if t.len() > s.len() {
        return None;
    }
    let limit = s.len() - t.len();
    let mut i: usize = 0;
    while i < limit
        invariant
            t@.len() <= s@.len(),
            limit == s@.len() - t@.len(),
            i <= limit,
            find(s@, t@) == find_from(s@, t@, i as int),
        decreases limit - i,
    {
        if chars_match_at(s, t, i) {
            return Some(i);
        }
        proof {
            lemma_find_from_step(s@, t@, i as int);
        }
        i = i + 1;
    }
    if chars_match_at(s, t, limit) {
        return Some(limit);
    }
    proof {
        lemma_find_from_step(s@, t@, limit as int);
    }
    None
}

fn split_frame_exec(b: &[char]) -> (r: Option<(Vec<char>, Vec<char>)>)
    ensures
        match r {
            Some((f, rest)) => split_frame(b@) == Some((f@, rest@)),
            None => split_frame(b@) is None,
        },
{
    let lf: Vec<char> = vec!['\n', '\n'];
    let crlf: Vec<char> = vec!['\r', '\n', '\r', '\n'];
    proof {
        reveal_strlit("\n\n");
        reveal_strlit("\r\n\r\n");
        assert(lf@ =~= "\n\n"@);
        assert(crlf@ =~= "\r\n\r\n"@);
    }
    match chars_find(b, lf.as_slice()) {
        Some(p) => {
            proof {
                lemma_find_from_bounds(b@, lf@, 0);
                assert(lf@.len() == 2);
                assert(find(b@, lf@) == Some(p as int));
                assert(p + 2 <= b@.len());
                assert(b@.len() == b.len());
            }
            let after: usize = p + 2;
            Some((slice_vec(b, 0, p), slice_vec(b, after, b.len())))
        },
        None => match chars_find(b, crlf.as_slice()) {
            Some(p) => {
                proof {
                    lemma_find_from_bounds(b@, crlf@, 0);
                    assert(crlf@.len() == 4);
                    assert(b@.len() == b.len());
                }
                let after: usize = p + 4;
                Some((slice_vec(b, 0, p), slice_vec(b, after, b.len())))
            },
            None => None,
        },
    }
}

fn line_item_exec(line: &[char]) -> (r: Option<SseItem>)
    ensures
        match r {
            Some(i) => line_item(line@) == Some(i@),
            None => line_item(line@) is None,
        },
{
    let t = trim_vec(line);
    if chars_starts_with_str(t.as_slice(), "data:") {
        proof {
            reveal_strlit("data:");
        }
        let p = trim_vec(slice_vec(t.as_slice(), 5, t.len()).as_slice());
        if chars_eq_str(p.as_slice(), "[DONE]") {
            Some(SseItem::Done)
        } else {
            Some(SseItem::Payload(string_from_chars(p.as_slice())))
        }
    } else {
        None
    }
}

fn frame_items_exec(frame: &[char]) -> (r: Vec<SseItem>)
    ensures
        item_views(r@) == frame_items(frame@),
{
    let text = string_from_chars(frame);
    let lines = split_char_exec(text.as_str(), '\n');
    let mut items: Vec<SseItem> = Vec::new();
    let mut i: usize = 0;
    assert(views(lines@).take(0) =~= Seq::<Seq<char>>::empty());
    while i < lines.len()
        invariant
            i <= lines@.len(),
            views(lines@) == split_char(frame@, '\n'),
            item_views(items@) == lines_items(views(lines@).take(i as int)),
        decreases lines.len() - i,
    {
        proof {
            assert(views(lines@).take(i + 1).drop_last() =~= views(lines@).take(i as int));
        }
        let done = items.len() > 0 && match &items[items.len() - 1] {
            SseItem::Done => true,
            SseItem::Payload(_) => false,
        };
        if !done {
            match line_item_exec(lines[i].as_slice()) {
                Some(item) => {
                    let ghost before = item_views(items@);
                    items.push(item);
                    assert(item_views(items@) =~= before.push(item@));
                },
                None => {},
            }
        }
        i = i + 1;
    }
    assert(views(lines@).take(lines@.len() as int) =~= views(lines@));
    items
}

/// Cuts the text of a stream into frames and hands out their payloads.
pub struct SseDecoder {
    pub buffer: Vec<char>,
}

impl SseDecoder {
    pub fn new() -> (d: Self)
        ensures
            d.buffer@ == Seq::<char>::empty(),
    {
        SseDecoder { buffer: Vec::new() }
    }

    /// Appends `text` and returns the items of every frame that is now
    /// complete, in order, up to and including a `[DONE]`; the rest stays
    /// buffered.
    pub fn push_text(&mut self, text: &str) -> (items: Vec<SseItem>)
        ensures
            (item_views(items@), final(self).buffer@) == drain(old(self).buffer@ + text@),
    {
        let mut buf = self.buffer.clone();
        let t = str_chars(text);
        let mut k: usize = 0;
        while k < t.len()
            invariant
                k <= t@.len(),
                buf@ == old(self).buffer@ + t@.take(k as int),
            decreases t.len() - k,
        {
            buf.push(t[k]);
            k = k + 1;
            assert(buf@ =~= old(self).buffer@ + t@.take(k as int));
        }
        assert(t@.take(t@.len() as int) =~= text@);
        let ghost start = buf@;
        let mut items: Vec<SseItem> = Vec::new();
        loop
            invariant
                start == old(self).buffer@ + text@,
                drain(start) == (item_views(items@) + drain(buf@).0, drain(buf@).1),
            ensures
                drain(start) == (item_views(items@), buf@),
            decreases buf@.len(),
        {
            match split_frame_exec(buf.as_slice()) {
                None => {
                    assert(item_views(items@) + Seq::<SseItemModel>::empty() =~= item_views(
                        items@,
                    ));
                    break;
                },
                Some((frame, rest)) => {
                    let fi = frame_items_exec(frame.as_slice());
                    let ghost before = item_views(items@);
                    let ghost whole = buf@;
                    let done = fi.len() > 0 && match &fi[fi.len() - 1] {
                        SseItem::Done => true,
                        SseItem::Payload(_) => false,
                    };
                    proof {
                        if fi@.len() > 0 {
                            assert(item_views(fi@).last() == fi@.last()@);
                        }
                        assert(done == ends_done(frame_items(frame@)));
                        assert(split_frame(whole) == Some((frame@, rest@)));
                    }
                    let mut fi = fi;
                    items.append(&mut fi);
                    assert(item_views(items@) =~= before + frame_items(frame@));
                    if done || rest.len() >= buf.len() {
                        buf = rest;
                        assert(drain(whole) == (frame_items(frame@), buf@));
                        assert(item_views(items@) + Seq::<SseItemModel>::empty() =~= item_views(
                            items@,
                        ));
                        proof {
                            assert(drain(start) == (item_views(items@), buf@));
                        }
                        self.buffer = buf;
                        return items;
                    }
                    buf = rest;
                    assert(before + (frame_items(frame@) + drain(buf@).0) =~= item_views(items@)
                        + drain(buf@).0);
                },
            }
        }
        self.buffer = buf;
        items
    }
}

} // verus!
