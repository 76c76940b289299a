//! Chat messages, the endpoints of the model server, and the framing of its
//! streamed replies.
//!
//! A streamed reply arrives as bytes in arbitrary pieces and holds one JSON
//! object per line. This module cuts the lines; decoding an object is left to
//! the caller, who hands the decoded reply back for the decision what to
//! pass on.

use crate::text::first_index_of;
use crate::text::is_blank;
use crate::text::lemma_first_index_at;
use crate::text::lemma_trimmed_empty_iff_blank;
use crate::text::string_of;
use crate::text::trim;
use crate::text::trimmed;
use vstd::prelude::*;
use vstd::std_specs::iter::IteratorSpec;
use vstd::string::StringExecFns;

verus! {

/// One message of a conversation.
#[derive(Debug, PartialEq, Eq)]
pub struct Message {
    pub role: String,
    pub content: String,
}

/// A message with its texts as sequences of characters.
pub struct MessageView {
    pub role: Seq<char>,
    pub content: Seq<char>,
}

impl View for Message {
    type V = MessageView;

    open spec fn view(&self) -> MessageView {
        MessageView { role: self.role@, content: self.content@ }
    }
}

impl Clone for Message {
    fn clone(&self) -> (copy: Self)
        ensures
            copy == *self,
    {
        Message { role: self.role.clone(), content: self.content.clone() }
    }
}

impl Message {
    /// A message written by the user.
    pub fn user(content: &str) -> (message: Self)
        ensures
            message@ == (MessageView { role: "user"@, content: content@ }),
    {
        Message { role: String::from_str("user"), content: String::from_str(content) }
    }

    /// A message written by the assistant.
    pub fn assistant(content: &str) -> (message: Self)
        ensures
            message@ == (MessageView { role: "assistant"@, content: content@ }),
    {
        Message { role: String::from_str("assistant"), content: String::from_str(content) }
    }

    /// A message that instructs the model.
    pub fn system(content: &str) -> (message: Self)
        ensures
            message@ == (MessageView { role: "system"@, content: content@ }),
    {
        Message { role: String::from_str("system"), content: String::from_str(content) }
    }
}

/// One decoded object of a reply.
#[derive(Debug)]
pub struct ChatResponse {
    pub message: Message,
    pub done: bool,
}

/// Where the model server is reached.
#[derive(Debug)]
pub struct OllamaClient {
    pub base_url: String,
}

impl OllamaClient {
    /// A client for the server at `base_url`.
    pub fn new(base_url: &str) -> (client: Self)
        ensures
            client.base_url@ == base_url@,
    {
        OllamaClient { base_url: String::from_str(base_url) }
    }

    /// The address that lists the models: the base address followed by
    /// `/api/tags`.
    pub fn tags_url(&self) -> (url: String)
        ensures
            url@ == self.base_url@ + "/api/tags"@,
    {
        self.base_url.clone().concat("/api/tags")
    }

    /// The address that answers a conversation: the base address followed by
    /// `/api/chat`.
    pub fn chat_url(&self) -> (url: String)
        ensures
            url@ == self.base_url@ + "/api/chat"@,
    {
        self.base_url.clone().concat("/api/chat")
    }
}

/// The text that a piece of a reply carries: its content, unless that is
/// empty.
pub open spec fn reply_text(response: ChatResponse) -> Option<Seq<char>> {
    if response.message.content@.len() == 0 {
        None
    } else {
        Some(response.message.content@)
    }
}

/// What to pass on for a line of the reply: the content of the decoded
/// object if the line could be decoded and the content is not empty, nothing
/// otherwise.
pub fn reply_chunk(decoded: Option<ChatResponse>) -> (chunk: Option<String>)
    ensures
        chunk is Some <==> decoded is Some && reply_text(decoded->0) is Some,
        chunk is Some ==> chunk->0@ == reply_text(decoded->0)->0,
{
    match decoded {
        Some(response) => {
            if response.message.content.as_str().is_empty() {
                None
            } else {
                Some(response.message.content)
            }
        },
        None => None,
    }
}

/// Position of the first line feed in `s`, or the length of `s` if it holds
/// none.
pub open spec fn first_newline(s: Seq<char>) -> int {
    first_index_of(s, '\n')
}

/// What one piece of text does to the framer: the text held afterwards and
/// the line handed out. A complete line leaves the held text, up to and
/// including its line feed, and is handed out trimmed unless it is blank.
/// Without a line feed everything stays.
pub open spec fn frame_step(held: Seq<char>, piece: Seq<char>) -> (Seq<char>, Option<Seq<char>>) {
    let text = held + piece;
    let k = first_newline(text);
    if k < text.len() {
        let line = text.subrange(0, k + 1);
        (
            text.subrange(k + 1, text.len() as int),
            if is_blank(line) {
                None
            } else {
                Some(trimmed(line))
            },
        )
    } else {
        (text, None)
    }
}

/// The text that a piece of bytes stands for when every malformed UTF-8
/// sequence in it is replaced by U+FFFD.
pub uninterp spec fn utf8_lossy(bytes: Seq<u8>) -> Seq<char>;

/// Calls `String::from_utf8_lossy`, which decodes UTF-8 and puts U+FFFD in
/// place of what is malformed. Well-formed bytes are decoded as they are; for
/// the rest the result is only named.
#[verifier::external_body]
fn from_utf8_lossy(bytes: &[u8]) -> (text: String)
    ensures
        text@ == utf8_lossy(bytes@),
        vstd::utf8::valid_utf8(bytes@) ==> text@ == vstd::utf8::decode_utf8(bytes@),
{
    String::from_utf8_lossy(bytes).into_owned()
}

/// The text of a streamed reply that has arrived but was not handed out yet.
pub struct ChatStream {
    buffer: Vec<char>,
}

impl View for ChatStream {
    type V = Seq<char>;

    closed spec fn view(&self) -> Seq<char> {
        self.buffer@
    }
}

impl ChatStream {
    /// A framer that holds no text.
    pub fn new() -> (stream: Self)
        ensures
            stream@ == Seq::<char>::empty(),
    {
        ChatStream { buffer: Vec::new() }
    }

    /// Decodes `bytes`, malformed sequences replaced, and handles the text as
    /// `poll_next` does.
    pub fn poll_bytes(&mut self, bytes: &[u8]) -> (line: Option<String>)
        ensures
            final(self)@ == frame_step(old(self)@, utf8_lossy(bytes@)).0,
            line is Some <==> frame_step(old(self)@, utf8_lossy(bytes@)).1 is Some,
            line is Some ==> line->0@ == frame_step(old(self)@, utf8_lossy(bytes@)).1->0,
    {
        let piece = from_utf8_lossy(bytes);
        self.poll_next(piece.as_str())
    }

    /// Adds `piece` to the held text and hands out at most one line: the
    /// first complete one, trimmed, unless it is blank. Further complete
    /// lines stay held until the next call.
    pub fn poll_next(&mut self, piece: &str) -> (line: Option<String>)
        ensures
            final(self)@ == frame_step(old(self)@, piece@).0,
            line is Some <==> frame_step(old(self)@, piece@).1 is Some,
            line is Some ==> line->0@ == frame_step(old(self)@, piece@).1->0,
    {
        for c in it: piece.chars()
            invariant
                it.seq() == piece@,
                self.buffer@ == old(self).buffer@ + piece@.take(it.index() as int),
        {
            self.buffer.push(c);
            assert(piece@.take(it.index() + 1) =~= piece@.take(it.index() as int).push(c));
            assert(self.buffer@ =~= old(self).buffer@ + piece@.take(it.index() + 1));
        }
        assert(piece@.take(piece@.len() as int) =~= piece@);
        let ghost text = self.buffer@;
        let n = self.buffer.len();
        let mut k: usize = 0;
        while k < n && self.buffer[k] != '\n'
            invariant
                k <= n,
                n == self.buffer.len(),
                self.buffer@ == text,
                forall|i: int| 0 <= i < k ==> #[trigger] text[i] != '\n',
            decreases n - k,
        {
            k += 1;
        }
        proof {
            lemma_first_index_at(text, '\n', k as int);
        }
        if k == n {
            return None;
        }
        let raw = string_of(self.buffer.as_slice(), 0, k + 1);
        let mut rest: Vec<char> = Vec::new();
        let mut i: usize = k + 1;
        while i < n
            invariant
                k + 1 <= i <= n,
                n == self.buffer.len(),
                self.buffer@ == text,
                rest@ == text.subrange(k + 1, i as int),
            decreases n - i,
        {
            rest.push(self.buffer[i]);
            assert(text.subrange(k + 1, i + 1) =~= text.subrange(k + 1, i as int).push(
                text[i as int],
            ));
            i += 1;
        }
        self.buffer = rest;
        proof {
            lemma_trimmed_empty_iff_blank(raw@);
        }
        let line = trim(raw.as_str());
        if line.is_empty() {
            None
        } else {
            Some(String::from_str(line))
        }
    }
}

} // verus!
