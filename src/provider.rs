use vstd::prelude::*;
use vstd::string::*;

use crate::clean::{clean, cleaned};
use crate::prompt::{build_messages, lower_of, fim_listed, messages_fit, supports_fim, ChatMessage};
use crate::text::{all_whitespace, chars_of, is_blank};
use crate::window::TextWindow;

verus! {

/// Where the inference service is reached when no address is configured.
pub const DEFAULT_API_URL: &'static str = "http://localhost:11434";

/// The most tokens that the model is asked to generate.
pub const MAX_PREDICT_TOKENS: i64 = 256;

/// How long a debounced request waits before it is sent.
pub const DEBOUNCE_MILLIS: u64 = 75;

/// An edit that replaces the text between two anchors of a buffer.
#[derive(Clone, Debug)]
pub struct EditPrediction {
    pub start: u64,
    pub end: u64,
    pub text: String,
}

/// A request for a streamed chat completion.
pub struct ChatRequest {
    pub model: String,
    pub messages: Vec<ChatMessage>,
    pub stream: bool,
    pub num_predict: i64,
}

/// The work that the host performs for a refresh: wait if `debounce`, send `request`, gather
/// the stream, and report back under `task`.
pub struct RefreshRequest {
    pub task: u64,
    pub debounce: bool,
    pub api_url: String,
    pub api_key: Option<String>,
    pub request: ChatRequest,
}

/// The refresh in flight: what its result will be cleaned against and where it will go.
pub struct PendingRefresh {
    pub task: u64,
    pub buffer_id: u64,
    pub cursor: u64,
    pub prefix: String,
    pub suffix: String,
    pub fim: bool,
}

/// One streamed piece of the model's answer.
pub struct ChatDelta {
    pub message: ChatMessage,
    pub done: bool,
}

/// Inline completions from a model of a local or remote inference service.
pub struct OllamaCompletionProvider {
    pub api_url: String,
    pub api_key: Option<String>,
    pub model: Option<String>,
    pub pending_refresh: Option<PendingRefresh>,
    pub next_task: u64,
    pub buffer_id: Option<u64>,
    pub cursor_position: Option<u64>,
    pub prediction: Option<EditPrediction>,
}

/// A configured value, where it is set and not empty.
pub open spec fn non_empty(v: Option<String>) -> Option<Seq<char>> {
    match v {
        Some(s) => if s@.len() > 0 {
            Some(s@)
        } else {
            None
        },
        None => None,
    }
}

pub open spec fn opt_view(v: Option<String>) -> Option<Seq<char>> {
    match v {
        Some(s) => Some(s@),
        None => None,
    }
}

/// The task id that follows `t`.
pub open spec fn next_id(t: u64) -> u64 {
    if t < u64::MAX {
        (t + 1) as u64
    } else {
        0
    }
}

impl OllamaCompletionProvider {
    /// A prediction is stored exactly when its buffer and cursor are recorded, and it is an
    /// insertion at that cursor.
    pub open spec fn wf(&self) -> bool {
        &&& self.prediction is Some <==> self.buffer_id is Some
        &&& self.prediction is Some <==> self.cursor_position is Some
        &&& self.prediction matches Some(p) ==> p.start == p.end && self.cursor_position == Some(
            p.start,
        ) && !is_blank(p.text@)
    }

    /// No prediction and no key are stored; the rest is as in `old`.
    pub open spec fn cleared_from(self, old: Self) -> bool {
        &&& self.prediction is None
        &&& self.buffer_id is None
        &&& self.cursor_position is None
        &&& self.api_url == old.api_url
        &&& self.api_key == old.api_key
        &&& self.model == old.model
        &&& self.next_task == old.next_task
    }

    /// `self` is `old` after `refresh(buffer_id, cursor, context, debounce)` returned `r`.
    pub open spec fn refreshed_from(
        self,
        old: Self,
        buffer_id: u64,
        cursor: u64,
        context: TextWindow,
        debounce: bool,
        r: Option<RefreshRequest>,
    ) -> bool {
        match old.model {
            None => {
                &&& r is None
                &&& self.cleared_from(old)
                &&& self.pending_refresh == old.pending_refresh
            },
            Some(model) => {
                &&& self.prediction is None
                &&& self.buffer_id is None
                &&& self.cursor_position is None
                &&& self.api_url == old.api_url
                &&& self.api_key == old.api_key
                &&& self.model == old.model
                &&& self.next_task == next_id(old.next_task)
                &&& self.pending_refresh matches Some(p) && p.task == old.next_task && p.buffer_id
                    == buffer_id && p.cursor == cursor && p.prefix@ == context.prefix@
                    && p.suffix@ == context.suffix@ && p.fim == fim_listed(lower_of(model@))
                &&& r matches Some(req) && req.task == old.next_task && req.debounce == debounce
                    && req.api_url == old.api_url && req.api_key == old.api_key
                    && req.request.model@ == model@ && req.request.stream
                    && req.request.num_predict == MAX_PREDICT_TOKENS && messages_fit(
                    req.request.messages@,
                    context,
                    model@,
                )
            },
        }
    }

    /// `self` is `old` after the task `task` finished with the raw completion `raw`.
    pub open spec fn finished_from(self, old: Self, task: u64, raw: Seq<char>) -> bool {
        match old.pending_refresh {
            Some(p) if p.task == task => {
                let text = cleaned(raw, p.prefix@, p.suffix@, p.fim);
                &&& self.pending_refresh is None
                &&& self.api_url == old.api_url
                &&& self.api_key == old.api_key
                &&& self.model == old.model
                &&& self.next_task == old.next_task
                &&& if is_blank(text) {
                    &&& self.prediction is None
                    &&& self.buffer_id is None
                    &&& self.cursor_position is None
                } else {
                    &&& self.prediction matches Some(e) && e.start == p.cursor && e.end == p.cursor
                        && e.text@ == text
                    &&& self.buffer_id == Some(p.buffer_id)
                    &&& self.cursor_position == Some(p.cursor)
                }
            },
            _ => self == old,
        }
    }

    /// Configured from the values of the model, address and credential settings.
    pub fn new(model: Option<String>, api_url: Option<String>, api_key: Option<String>) -> (r:
        Self)
        ensures
            r.wf(),
            opt_view(r.model) == non_empty(model),
            r.api_url@ == match non_empty(api_url) {
                Some(u) => u,
                None => DEFAULT_API_URL@,
            },
            opt_view(r.api_key) == non_empty(api_key),
            r.pending_refresh is None,
            r.prediction is None,
    {
        let url = match api_url {
            Some(u) => if u.unicode_len() > 0 {
                u
            } else {
                String::from_str(DEFAULT_API_URL)
            },
            None => String::from_str(DEFAULT_API_URL),
        };
        let key = match api_key {
            Some(k) => if k.unicode_len() > 0 {
                Some(k)
            } else {
                None
            },
            None => None,
        };
        let model = match model {
            Some(m) => if m.unicode_len() > 0 {
                Some(m)
            } else {
                None
            },
            None => None,
        };
        OllamaCompletionProvider {
            api_url: url,
            api_key: key,
            model,
            pending_refresh: None,
            next_task: 0,
            buffer_id: None,
            cursor_position: None,
            prediction: None,
        }
    }

    fn clear_prediction(&mut self)
        requires
            old(self).wf(),
        ensures
            final(self).wf(),
            final(self).cleared_from(*old(self)),
            final(self).pending_refresh == old(self).pending_refresh,
    {
        if self.prediction.is_some() {
            self.prediction = None;
            self.buffer_id = None;
            self.cursor_position = None;
        }
    }

    pub fn is_enabled(&self) -> (r: bool)
        ensures
            r == self.model is Some,
    {
        self.model.is_some()
    }

    pub fn is_refreshing(&self) -> (r: bool)
        ensures
            r == self.pending_refresh is Some,
    {
        self.pending_refresh.is_some()
    }

    /// Starts a refresh for the cursor `cursor` of the buffer `buffer_id`, whose surrounding
    /// text is `context`: drops the stored prediction, replaces the refresh in flight and
    /// returns the request to send, or clears and returns nothing where no model is set.
    pub fn refresh(&mut self, buffer_id: u64, cursor: u64, context: TextWindow, debounce: bool) -> (r:
        Option<RefreshRequest>)
        requires
            old(self).wf(),
        ensures
            final(self).wf(),
            final(self).refreshed_from(*old(self), buffer_id, cursor, context, debounce, r),
    {
        let model = match &self.model {
            None => {
                self.clear_prediction();
                return None;
            },
            Some(m) => m.clone(),
        };
        let messages = build_messages(&context, model.as_str());
        let fim = supports_fim(model.as_str());
        self.prediction = None;
        self.buffer_id = None;
        self.cursor_position = None;
        let task = self.next_task;
        self.next_task = if task < u64::MAX {
            task + 1
        } else {
            0
        };
        let prefix = String::from_str(context.prefix.as_str());
        let suffix = String::from_str(context.suffix.as_str());
        self.pending_refresh = Some(PendingRefresh { task, buffer_id, cursor, prefix, suffix, fim });
        let api_url = self.api_url.clone();
        let api_key = match &self.api_key {
            Some(k) => Some(k.clone()),
            None => None,
        };
        Some(
            RefreshRequest {
                task,
                debounce,
                api_url,
                api_key,
                request: ChatRequest {
                    model,
                    messages,
                    stream: true,
                    num_predict: MAX_PREDICT_TOKENS,
                },
            },
        )
    }

    /// Takes in the raw completion that the task `task` gathered. The refresh in flight, if it
    /// is that task, ends: its cleaned completion is stored as an insertion at its cursor, or
    /// nothing is stored where the cleaned text is blank. A task that was superseded changes
    /// nothing.
    pub fn finish_refresh(&mut self, task: u64, completion: &str)
        requires
            old(self).wf(),
        ensures
            final(self).wf(),
            final(self).finished_from(*old(self), task, completion@),
    {
        let current = match &self.pending_refresh {
            Some(p) => p.task == task,
            None => false,
        };
        if !current {
            return;
        }
        let pending = self.pending_refresh.take();
        if let Some(p) = pending {
            let text = clean(completion, p.prefix.as_str(), p.suffix.as_str(), p.fim);
            let chars = chars_of(text.as_str());
            if all_whitespace(&chars) {
                self.prediction = None;
                self.buffer_id = None;
                self.cursor_position = None;
            } else {
                self.prediction = Some(EditPrediction { start: p.cursor, end: p.cursor, text });
                self.buffer_id = Some(p.buffer_id);
                self.cursor_position = Some(p.cursor);
            }
        }
    }

    /// The task `task` failed: if it is the refresh in flight, nothing is in flight any more.
    pub fn fail_refresh(&mut self, task: u64)
        requires
            old(self).wf(),
        ensures
            final(self).wf(),
            match old(self).pending_refresh {
                Some(p) if p.task == task => final(self).pending_refresh is None,
                _ => final(self).pending_refresh == old(self).pending_refresh,
            },
            final(self).prediction == old(self).prediction,
            final(self).buffer_id == old(self).buffer_id,
            final(self).cursor_position == old(self).cursor_position,
            final(self).next_task == old(self).next_task,
            final(self).model == old(self).model,
    {
        let current = match &self.pending_refresh {
            Some(p) => p.task == task,
            None => false,
        };
        if current {
            self.pending_refresh = None;
        }
    }

    /// Only one completion is offered at a time: cycling changes nothing.
    pub fn cycle(&mut self, buffer_id: u64, cursor: u64, forward: bool)
        ensures
            *final(self) == *old(self),
    {
    }

    /// The prediction was taken into the buffer: it is dropped.
    pub fn accept(&mut self)
        requires
            old(self).wf(),
        ensures
            final(self).wf(),
            final(self).cleared_from(*old(self)),
            final(self).pending_refresh == old(self).pending_refresh,
    {
        self.clear_prediction();
    }

    /// The prediction was dismissed: it is dropped.
    pub fn discard(&mut self)
        requires
            old(self).wf(),
        ensures
            final(self).wf(),
            final(self).cleared_from(*old(self)),
            final(self).pending_refresh == old(self).pending_refresh,
    {
        self.clear_prediction();
    }

    /// The stored prediction, where it was made for this buffer and this cursor.
    pub fn suggest(&self, buffer_id: u64, cursor: u64) -> (r: Option<EditPrediction>)
        ensures
            match r {
                Some(e) => {
                    &&& self.buffer_id == Some(buffer_id)
                    &&& self.cursor_position == Some(cursor)
                    &&& self.prediction matches Some(p) && e.start == p.start && e.end == p.end
                        && e.text@ == p.text@
                },
                None => self.buffer_id != Some(buffer_id) || self.cursor_position != Some(cursor)
                    || self.prediction is None,
            },
    {
        if self.buffer_id == Some(buffer_id) && self.cursor_position == Some(cursor) {
            match &self.prediction {
                Some(p) => Some(EditPrediction { start: p.start, end: p.end, text: p.text.clone() }),
                None => None,
            }
        } else {
            None
        }
    }
}

/// Adds one streamed piece to the completion gathered so far: the text of an assistant turn
/// is appended, and the result says whether the stream is done.
pub fn append_delta(completion: &mut String, delta: &ChatDelta) -> (done: bool)
    ensures
        done == delta.done,
        final(completion)@ == match delta.message {
            ChatMessage::Assistant { content } => old(completion)@ + content@,
            _ => old(completion)@,
        },
{
    if let ChatMessage::Assistant { content } = &delta.message {
        completion.append(content.as_str());
    }
    delta.done
}

/// A refresh that a later one superseded cannot change the state when its result arrives.
pub proof fn lemma_superseded_refresh_ignored(
    s0: OllamaCompletionProvider,
    s1: OllamaCompletionProvider,
    s2: OllamaCompletionProvider,
    s3: OllamaCompletionProvider,
    first: (u64, u64, TextWindow, bool, Option<RefreshRequest>),
    second: (u64, u64, TextWindow, bool, Option<RefreshRequest>),
    raw: Seq<char>,
)
    requires
        s1.refreshed_from(s0, first.0, first.1, first.2, first.3, first.4),
        s2.refreshed_from(s1, second.0, second.1, second.2, second.3, second.4),
        first.4 is Some,
        s3.finished_from(s2, first.4->0.task, raw),
    ensures
        s3 == s2,
{
}

/// When the newest refresh finishes, its cleaned completion, if not blank, is what is stored,
/// under its own buffer and cursor.
pub proof fn lemma_newest_refresh_stored(
    s0: OllamaCompletionProvider,
    s1: OllamaCompletionProvider,
    s2: OllamaCompletionProvider,
    buffer_id: u64,
    cursor: u64,
    context: TextWindow,
    debounce: bool,
    r: Option<RefreshRequest>,
    raw: Seq<char>,
)
    requires
        s1.refreshed_from(s0, buffer_id, cursor, context, debounce, r),
        r is Some,
        s2.finished_from(s1, r->0.task, raw),
    ensures
        s2.pending_refresh is None,
        ({
            let text = cleaned(
                raw,
                context.prefix@,
                context.suffix@,
                fim_listed(lower_of(s0.model->0@)),
            );
            if is_blank(text) {
                s2.prediction is None
            } else {
                &&& s2.buffer_id == Some(buffer_id)
                &&& s2.cursor_position == Some(cursor)
                &&& s2.prediction matches Some(e) && e.start == cursor && e.end == cursor
                    && e.text@ == text
            }
        }),
{
}

} // verus!
