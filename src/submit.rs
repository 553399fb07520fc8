//! The submission state machine: `Idle -> Generating -> Idle`.
//!
//! The caller runs the stream: after `begin_submit` it sends the request of
//! `prepare_request`, hands each chunk's events to `apply_chunk` until that
//! says to stop, and ends with `finish`. `cancel` may be called at any time.

use vstd::prelude::*;
use crate::client::{header_views, request_body, request_headers, rewrite_endpoint, spec_request_body, spec_request_headers, spec_rewrite_endpoint};
use crate::model::{ChatInterface, ConfigInterface, MessageInterface, ModelOptions, Role, TokenUsage};
use crate::stream::{delta_text, has_done, text_until_done, EventSourceData};
use crate::tokens::{count_tokens, fits_count_limit, limit_message_tokens, spec_count_tokens, spec_trim, within_count_limit};
use crate::usage::UsageTable;
use crate::text::{chars_of, string_of};

verus! {

/// What the stream loop does after a chunk.
#[derive(Clone, Copy, Debug, PartialEq, Eq, Structural)]
pub enum StreamStep {
    Continue,
    Stop,
}

/// The chats and the generation state of the session.
#[derive(Debug)]
pub struct ChatSlice {
    pub chats: Vec<ChatInterface>,
    pub curr_chat_index: usize,
    /// A stream is open; cleared to cancel it.
    pub generating: bool,
    /// The last failure, for display.
    pub error: String,
}

/// A completion request, ready to send.
#[derive(Debug)]
pub struct CompletionRequest {
    pub endpoint: String,
    pub headers: Vec<(String, String)>,
    pub messages: Vec<MessageInterface>,
    pub config: ConfigInterface,
    /// The JSON body, asking for a stream.
    pub body: String,
}

/// `b` is `a` with only its messages changed.
pub open spec fn same_but_messages(a: ChatInterface, b: ChatInterface) -> bool {
    &&& a.id == b.id
    &&& a.title == b.title
    &&& a.folder == b.folder
    &&& a.config == b.config
    &&& a.title_set == b.title_set
}

/// `b` is `a` but for the chat at index `i`.
pub open spec fn others_unchanged(a: Seq<ChatInterface>, b: Seq<ChatInterface>, i: int) -> bool {
    &&& a.len() == b.len()
    &&& forall|j: int| 0 <= j < a.len() && j != i ==> #[trigger] b[j] == a[j]
}

/// The token limit of a configuration; a negative one allows nothing.
pub open spec fn spec_token_limit(c: ConfigInterface) -> nat {
    if c.max_tokens < 0 { 0 } else { c.max_tokens as nat }
}

/// The error recorded when there is nothing to send.
pub open spec fn no_messages_error() -> Seq<char> {
    "No messages submitted!"@
}

/// The error recorded when no endpoint is configured.
pub open spec fn no_endpoint_error() -> Seq<char> {
    "No API endpoint defined!"@
}

/// The error recorded when the history is too long to count.
pub open spec fn too_long_error() -> Seq<char> {
    "Chat history is too long to count its tokens!"@
}

impl ChatSlice {
    /// A session over `chats` with the chat at `curr_chat_index` current.
    pub fn new(chats: Vec<ChatInterface>, curr_chat_index: usize) -> (r: ChatSlice)
        ensures
            r.chats == chats,
            r.curr_chat_index == curr_chat_index,
            !r.generating,
            r.error@ == Seq::<char>::empty(),
    {
        ChatSlice { chats, curr_chat_index, generating: false, error: String::new() }
    }

    /// The current chat exists and has a message.
    pub open spec fn has_current_message(&self) -> bool {
        self.curr_chat_index < self.chats@.len() && self.chats@[self.curr_chat_index as int].messages@.len() > 0
    }

    /// A submission may start: none runs, and the current chat has a message.
    pub open spec fn can_submit(&self) -> bool {
        !self.generating && self.has_current_message()
    }

    /// The current chat.
    pub open spec fn current(&self) -> ChatInterface {
        self.chats@[self.curr_chat_index as int]
    }

    /// The last message of the current chat.
    pub open spec fn last_message(&self) -> MessageInterface {
        self.current().messages@.last()
    }

    /// A stream is open on the current chat, whose last message receives it.
    pub open spec fn is_streaming(&self) -> bool {
        self.generating && self.has_current_message()
    }

    /// Takes the chat at `i` out, leaving the others in place.
    fn take_chat(&mut self, i: usize) -> (r: ChatInterface)
        requires
            i < old(self).chats@.len(),
        ensures
            r == old(self).chats@[i as int],
            final(self).chats@ == old(self).chats@.remove(i as int),
            final(self).curr_chat_index == old(self).curr_chat_index,
            final(self).generating == old(self).generating,
            final(self).error == old(self).error,
    {
        self.chats.remove(i)
    }

    /// Puts `chat` back at `i`.
    fn put_chat(&mut self, i: usize, chat: ChatInterface)
        requires
            i <= old(self).chats@.len(),
        ensures
            final(self).chats@ == old(self).chats@.insert(i as int, chat),
            final(self).curr_chat_index == old(self).curr_chat_index,
            final(self).generating == old(self).generating,
            final(self).error == old(self).error,
    {
        self.chats.insert(i, chat);
    }

    /// Starts a submission: appends an empty assistant message to the
    /// current chat and marks the session as generating. Does nothing, and
    /// returns `false`, while one runs or when the current chat has no
    /// message.
    pub fn begin_submit(&mut self) -> (started: bool)
        ensures
            started == old(self).can_submit(),
            !started ==> *final(self) == *old(self),
            started ==> {
                &&& final(self).generating
                &&& final(self).error == old(self).error
                &&& final(self).curr_chat_index == old(self).curr_chat_index
                &&& others_unchanged(old(self).chats@, final(self).chats@, old(self).curr_chat_index as int)
                &&& same_but_messages(old(self).current(), final(self).current())
                &&& final(self).current().messages@.len() == old(self).current().messages@.len() + 1
                &&& final(self).current().messages@.drop_last() == old(self).current().messages@
                &&& final(self).last_message().role == Role::Assistant
                &&& final(self).last_message().content@ == Seq::<char>::empty()
                &&& final(self).last_message().folder is None
            },
    {
        if self.generating || self.curr_chat_index >= self.chats.len() {
            return false;
        }
        let i = self.curr_chat_index;
        if self.chats[i].messages.len() == 0 {
            return false;
        }
        let ghost before = self.chats@;
        let mut chat = self.take_chat(i);
        chat.messages.push(MessageInterface { role: Role::Assistant, content: String::new(), folder: None });
        self.put_chat(i, chat);
        self.generating = true;
        assert(self.chats@ =~= before.update(i as int, chat));
        assert(self.current().messages@.drop_last() =~= before[i as int].messages@);
        true
    }

    /// Applies the events of one chunk. Unless the session is streaming
    /// (cancelled, or nothing to append to), nothing changes and the stream
    /// is to stop. Otherwise the texts of the deltas before the first `Done`
    /// are appended to the last message of the current chat, and the stream
    /// is to stop if there was a `Done`.
    pub fn apply_chunk(&mut self, events: &Vec<EventSourceData>) -> (step: StreamStep)
        ensures
            !old(self).is_streaming() ==> step == StreamStep::Stop && *final(self) == *old(self),
            old(self).is_streaming() ==> {
                &&& step == (if has_done(events@) { StreamStep::Stop } else { StreamStep::Continue })
                &&& final(self).generating
                &&& final(self).error == old(self).error
                &&& final(self).curr_chat_index == old(self).curr_chat_index
                &&& others_unchanged(old(self).chats@, final(self).chats@, old(self).curr_chat_index as int)
                &&& same_but_messages(old(self).current(), final(self).current())
                &&& final(self).current().messages@.len() == old(self).current().messages@.len()
                &&& final(self).current().messages@.drop_last() == old(self).current().messages@.drop_last()
                &&& final(self).last_message().role == old(self).last_message().role
                &&& final(self).last_message().folder == old(self).last_message().folder
                &&& final(self).last_message().content@ == old(self).last_message().content@ + text_until_done(events@)
            },
    {
        if !self.generating || self.curr_chat_index >= self.chats.len() {
            return StreamStep::Stop;
        }
        let i = self.curr_chat_index;
        if self.chats[i].messages.len() == 0 {
            return StreamStep::Stop;
        }
        let (text, done) = collect_delta_text(events);
        let ghost before = self.chats@;
        let mut chat = self.take_chat(i);
        let mut last = chat.messages.pop().unwrap();
        last.content.append(text.as_str());
        chat.messages.push(last);
        self.put_chat(i, chat);
        assert(self.chats@ =~= before.update(i as int, chat));
        assert(self.current().messages@.drop_last() =~= before[i as int].messages@.drop_last());
        if done {
            StreamStep::Stop
        } else {
            StreamStep::Continue
        }
    }

    /// The request for the current submission: the history before the
    /// assistant placeholder, trimmed to the chat's token limit; the
    /// endpoint, rewritten for the managed cloud; the headers.
    pub fn prepare_request(&self, api_endpoint: &Option<String>, api_key: &Option<String>) -> (r: Result<CompletionRequest, String>)
        ensures
            !self.has_current_message() ==> (r matches Err(e) && e@ == no_messages_error()),
            self.has_current_message() ==> {
                let history = self.current().messages@.drop_last();
                let config = self.current().spec_effective_config();
                &&& !within_count_limit(history) ==> (r matches Err(e) && e@ == too_long_error())
                &&& within_count_limit(history) && api_endpoint is None ==> (r matches Err(e) && e@ == no_endpoint_error())
                &&& within_count_limit(history) && api_endpoint is Some ==> (r matches Ok(req) && {
                    &&& req.config == config
                    &&& req.messages@ == spec_trim(history, spec_token_limit(config), config.model)
                    &&& req.body@ == spec_request_body(req.messages@, config, true)
                    &&& req.endpoint@ == spec_rewrite_endpoint(api_endpoint->0@, config.model, api_key is Some)
                    &&& header_views(req.headers@) == spec_request_headers(
                        match api_key { Some(k) => Some(k@), None => None },
                        Seq::<(Seq<char>, Seq<char>)>::empty(),
                    )
                })
            },
    {
        if self.curr_chat_index >= self.chats.len() || self.chats[self.curr_chat_index].messages.len() == 0 {
            return Err(String::from_str("No messages submitted!"));
        }
        let chat = &self.chats[self.curr_chat_index];
        let config = chat.effective_config();
        let mut history = chat.messages.clone();
        assert(history@ =~= chat.messages@);
        history.pop();
        assert(history@ =~= chat.messages@.drop_last());
        if !fits_count_limit(history.as_slice()) {
            return Err(String::from_str("Chat history is too long to count its tokens!"));
        }
        let limit: usize = if config.max_tokens < 0 { 0 } else { config.max_tokens as usize };
        let messages = limit_message_tokens(history.as_slice(), limit, &config.model);
        match api_endpoint {
            None => Err(String::from_str("No API endpoint defined!")),
            Some(ep) => {
                let endpoint = rewrite_endpoint(ep.as_str(), &config.model, api_key.is_some());
                let headers = request_headers(api_key, Vec::new());
                assert(header_views(Seq::<(String, String)>::empty()) =~= Seq::<(Seq<char>, Seq<char>)>::empty());
                let body = request_body(messages.as_slice(), &config, true);
                Ok(CompletionRequest { endpoint, headers, messages, config, body })
            },
        }
    }

    /// Marks the session as no longer generating; a running stream stops at
    /// its next chunk, and what it appended stays.
    pub fn cancel(&mut self)
        ensures
            final(self).chats == old(self).chats,
            final(self).curr_chat_index == old(self).curr_chat_index,
            final(self).error == old(self).error,
            !final(self).generating,
    {
        self.generating = false;
    }

    /// Ends a submission, whatever its outcome: the session stops generating
    /// and a failure is recorded for display.
    pub fn finish(&mut self, outcome: Result<(), String>)
        ensures
            final(self).chats == old(self).chats,
            final(self).curr_chat_index == old(self).curr_chat_index,
            !final(self).generating,
            match outcome {
                Ok(()) => final(self).error == old(self).error,
                Err(e) => final(self).error == e,
            },
    {
        self.generating = false;
        if let Err(e) = outcome {
            self.error = e;
        }
    }
}

/// The text of the `Data` events of `events` before the first `Done`, and
/// whether there is a `Done`.
pub fn collect_delta_text(events: &Vec<EventSourceData>) -> (r: (String, bool))
    ensures
        r.0@ == text_until_done(events@),
        r.1 == has_done(events@),
{
    let n = events.len();
    let mut out = String::new();
    let mut k: usize = 0;
    assert(events@.subrange(0, n as int) =~= events@);
    assert(out@ + text_until_done(events@) =~= text_until_done(events@));
    while k < n
        invariant
            k <= n == events@.len(),
            out@ + text_until_done(events@.subrange(k as int, n as int)) == text_until_done(events@),
            forall|j: int| 0 <= j < k ==> !(#[trigger] events@[j] is Done),
        decreases n - k,
    {
        let ghost rest = events@.subrange(k as int, n as int);
        assert(rest[0] == events@[k as int]);
        match &events[k] {
            EventSourceData::Done(_) => {
                assert(events@[k as int] is Done);
                return (out, true);
            },
            EventSourceData::Data(d) => {
                assert(rest.drop_first() =~= events@.subrange(k + 1, n as int));
                let ghost before = out@;
                if d.choices.len() > 0 {
                    match &d.choices[0].delta.content {
                        Some(c) => out.append(c.as_str()),
                        None => {},
                    }
                }
                assert(out@ == before + delta_text(*d));
            },
        }
        k += 1;
    }
    assert(events@.subrange(n as int, n as int) =~= Seq::<EventSourceData>::empty());
    (out, false)
}


/// The usage after adding `p` prompt and `c` completion tokens for `model`.
pub open spec fn added_usage(t: Map<ModelOptions, TokenUsage>, model: ModelOptions, p: nat, c: nat) -> TokenUsage {
    if t.contains_key(model) {
        TokenUsage {
            prompt_tokens: (t[model].prompt_tokens + p) as u64,
            completion_tokens: (t[model].completion_tokens + c) as u64,
        }
    } else {
        TokenUsage { prompt_tokens: p as u64, completion_tokens: c as u64 }
    }
}

/// Adding `p` and `c` to the totals of `model` stays within 64 bits.
pub open spec fn usage_fits(t: Map<ModelOptions, TokenUsage>, model: ModelOptions, p: nat, c: nat) -> bool {
    &&& p <= u64::MAX
    &&& c <= u64::MAX
    &&& t.contains_key(model) ==> t[model].prompt_tokens + p <= u64::MAX
    &&& t.contains_key(model) ==> t[model].completion_tokens + c <= u64::MAX
}

/// Records the tokens of a completed exchange: the prompt's count and the
/// completion's count under `model` are added to its totals. Nothing is
/// recorded, and `false` returned, when the messages are too long to count
/// or the totals would overflow.
pub fn record_usage(table: &mut UsageTable, model: &ModelOptions, prompt: &[MessageInterface], completion: &MessageInterface) -> (recorded: bool)
    requires
        old(table).wf(),
    ensures
        final(table).wf(),
        recorded == (within_count_limit(prompt@) && within_count_limit(seq![*completion]) && usage_fits(
            old(table)@,
            *model,
            spec_count_tokens(prompt@, *model),
            spec_count_tokens(seq![*completion], *model),
        )),
        recorded ==> final(table)@ == old(table)@.insert(
            *model,
            added_usage(
                old(table)@,
                *model,
                spec_count_tokens(prompt@, *model),
                spec_count_tokens(seq![*completion], *model),
            ),
        ),
        !recorded ==> final(table)@ == old(table)@,
{
    let mut one: Vec<MessageInterface> = Vec::new();
    one.push(completion.clone());
    assert(one@ =~= seq![*completion]);
    if !fits_count_limit(prompt) || !fits_count_limit(one.as_slice()) {
        return false;
    }
    let p = count_tokens(prompt, model) as u64;
    let c = count_tokens(one.as_slice(), model) as u64;
    if let Some(u) = table.get(model) {
        if p > u64::MAX - u.prompt_tokens || c > u64::MAX - u.completion_tokens {
            return false;
        }
    }
    table.add(model, p, c);
    true
}

/// The message that asks for a title of an exchange.
pub open spec fn spec_title_prompt(user: Seq<char>, assistant: Seq<char>) -> Seq<char> {
    "Generate a title in less than 6 words for the following message:\nUser: "@ + user + "\nAssistant: "@ + assistant
}

/// `s` without the `"` characters at its start and end.
pub open spec fn strip_quotes(s: Seq<char>) -> Seq<char>
    decreases s.len(),
{
    if s.len() > 0 && s[0] == '"' {
        strip_quotes(s.drop_first())
    } else if s.len() > 0 && s.last() == '"' {
        strip_quotes(s.drop_last())
    } else {
        s
    }
}

/// `s` without the `"` characters at its start and end.
pub fn trim_quotes(s: &str) -> (r: String)
    ensures
        r@ == strip_quotes(s@),
{
    let cs = chars_of(s);
    let n = cs.len();
    let mut lo: usize = 0;
    assert(cs@.subrange(0, n as int) =~= s@);
    while lo < n && cs[lo] == '"'
        invariant
            lo <= n == cs@.len(),
            cs@ == s@,
            strip_quotes(cs@.subrange(lo as int, n as int)) == strip_quotes(s@),
        decreases n - lo,
    {
        assert(cs@.subrange(lo as int, n as int).drop_first() =~= cs@.subrange(lo + 1, n as int));
        lo += 1;
    }
    let mut hi: usize = n;
    while hi > lo && cs[hi - 1] == '"'
        invariant
            lo <= hi <= n == cs@.len(),
            cs@ == s@,
            lo < n ==> cs@[lo as int] != '"',
            strip_quotes(cs@.subrange(lo as int, hi as int)) == strip_quotes(s@),
        decreases hi - lo,
    {
        let ghost t = cs@.subrange(lo as int, hi as int);
        assert(t[0] == cs@[lo as int]);
        assert(t.drop_last() =~= cs@.subrange(lo as int, hi - 1));
        hi -= 1;
    }
    string_of(&cs, lo, hi)
}

/// The message that asks for a title of an exchange.
pub fn title_prompt(user: &str, assistant: &str) -> (r: String)
    ensures
        r@ == spec_title_prompt(user@, assistant@),
{
    let mut out = String::from_str("Generate a title in less than 6 words for the following message:\nUser: ");
    out.append(user);
    out.append("\nAssistant: ");
    out.append(assistant);
    out
}

impl ChatSlice {
    /// A title is to be generated: auto-titling is on and the current chat
    /// exists and has no title set yet.
    pub fn needs_title(&self, auto_title: bool) -> (r: bool)
        ensures
            r == (auto_title && self.curr_chat_index < self.chats@.len() && !self.current().title_set),
    {
        auto_title && self.curr_chat_index < self.chats.len() && !self.chats[self.curr_chat_index].title_set
    }

    /// The request for a title of the current chat's last exchange: a user
    /// message built from its last two messages; `None` if it has fewer.
    pub fn title_request(&self) -> (r: Option<MessageInterface>)
        ensures
            !(self.curr_chat_index < self.chats@.len() && self.current().messages@.len() >= 2) ==> r is None,
            self.curr_chat_index < self.chats@.len() && self.current().messages@.len() >= 2 ==> (r matches Some(m) && {
                let msgs = self.current().messages@;
                &&& m.role == Role::User
                &&& m.folder is None
                &&& m.content@ == spec_title_prompt(msgs[msgs.len() - 2].content@, msgs[msgs.len() - 1].content@)
            }),
    {
        if self.curr_chat_index >= self.chats.len() {
            return None;
        }
        let msgs = &self.chats[self.curr_chat_index].messages;
        let n = msgs.len();
        if n < 2 {
            return None;
        }
        let content = title_prompt(msgs[n - 2].content.as_str(), msgs[n - 1].content.as_str());
        Some(MessageInterface { role: Role::User, content, folder: None })
    }

    /// Sets the title of the chat at `index` to `raw` without its surrounding
    /// quotes, and marks it as set. Does nothing if there is no such chat.
    pub fn apply_title(&mut self, index: usize, raw: &str)
        ensures
            final(self).curr_chat_index == old(self).curr_chat_index,
            final(self).generating == old(self).generating,
            final(self).error == old(self).error,
            index >= old(self).chats@.len() ==> final(self).chats == old(self).chats,
            index < old(self).chats@.len() ==> {
                &&& others_unchanged(old(self).chats@, final(self).chats@, index as int)
                &&& final(self).chats@[index as int].title matches Some(t) && t@ == strip_quotes(raw@)
                &&& final(self).chats@[index as int].title_set
                &&& final(self).chats@[index as int].id == old(self).chats@[index as int].id
                &&& final(self).chats@[index as int].folder == old(self).chats@[index as int].folder
                &&& final(self).chats@[index as int].messages == old(self).chats@[index as int].messages
                &&& final(self).chats@[index as int].config == old(self).chats@[index as int].config
            },
    {
        if index >= self.chats.len() {
            return;
        }
        let title = trim_quotes(raw);
        let ghost before = self.chats@;
        let mut chat = self.take_chat(index);
        chat.title = Some(title);
        chat.title_set = true;
        self.put_chat(index, chat);
        assert(self.chats@ =~= before.update(index as int, chat));
    }
}

} // verus!
