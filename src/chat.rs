//! Chat messages and sessions, and the retrieval-augmented responder.
//!
//! A reply is made in two verified steps around the optional generation
//! backend: [`ChatProcessor::plan_reply`] finds the relevant records and says
//! whether the backend is to be asked; [`ChatProcessor::finish_reply`] takes
//! what the backend answered, if it was asked, and falls back to a templated
//! reply when it was not or when it failed.
use vstd::prelude::*;
use std::sync::Arc;
use crate::experience::{now_millis, Experience};
use crate::memory::{ids_unique, lemma_push_contains, matches_query, Memory};
use crate::ollama::OllamaClient;
use crate::pattern::{analyzed_all, top_of, PatternRecognizer, PatternView};
use crate::text::{
    chars_of, contains_chars, dec_text, decimal, join_with, joined, lower_of, seq_contains,
    string_views, to_lower, tokenize, tokens,
};
use crate::pattern::copy_strings;

verus! {

/// Relies on `uuid::Uuid::new_v4` and its `Display`: a random UUID in the
/// hyphenated lower-case form, 36 characters long.
#[verifier::external_body]
pub(crate) fn random_uuid() -> (r: String)
    ensures
        r@.len() == 36,
{
    uuid::Uuid::new_v4().to_string()
}

/// One message of a conversation. `timestamp` counts milliseconds since the
/// Unix epoch, UTC; `context_used` holds the ids of the records a reply drew on.
pub struct ChatMessage {
    pub id: String,
    pub role: String,
    pub content: String,
    pub timestamp: i64,
    pub context_used: Option<Vec<String>>,
}

/// What a [`ChatMessage`] holds, as plain values.
pub struct ChatMessageView {
    pub id: Seq<char>,
    pub role: Seq<char>,
    pub content: Seq<char>,
    pub timestamp: int,
    pub context_used: Option<Seq<Seq<char>>>,
}

impl View for ChatMessage {
    type V = ChatMessageView;

    open spec fn view(&self) -> ChatMessageView {
        ChatMessageView {
            id: self.id@,
            role: self.role@,
            content: self.content@,
            timestamp: self.timestamp as int,
            context_used: match self.context_used {
                Some(c) => Some(string_views(c@)),
                None => None,
            },
        }
    }
}

impl Clone for ChatMessage {
    fn clone(&self) -> (r: Self)
        ensures
            r@ == self@,
    {
        let context_used = match &self.context_used {
            Some(c) => Some(copy_strings(c)),
            None => None,
        };
        ChatMessage {
            id: self.id.clone(),
            role: self.role.clone(),
            content: self.content.clone(),
            timestamp: self.timestamp,
            context_used,
        }
    }
}

/// A message id: `msg_` and a random UUID.
pub open spec fn is_message_id(id: Seq<char>) -> bool {
    id.len() == 40 && id.take(4) == "msg_"@
}

fn message_id() -> (r: String)
    ensures
        is_message_id(r@),
{
    let mut r = String::from_str("msg_");
    let u = random_uuid();
    r.append(u.as_str());
    proof {
        reveal_strlit("msg_");
    }
    assert(r@.take(4) =~= "msg_"@);
    r
}

impl ChatMessage {
    /// A message from `role`, with a fresh id and the current time.
    pub fn new(role: &str, content: String) -> (r: ChatMessage)
        ensures
            is_message_id(r.id@),
            r.role@ == role@,
            r.content == content,
            r.context_used is None,
    {
        ChatMessage {
            id: message_id(),
            role: String::from_str(role),
            content,
            timestamp: now_millis(),
            context_used: None,
        }
    }

    /// A message like [`ChatMessage::new`] that names the records it drew on.
    pub fn with_context(role: &str, content: String, context: Vec<String>) -> (r: ChatMessage)
        ensures
            is_message_id(r.id@),
            r.role@ == role@,
            r.content == content,
            r.context_used == Some(context),
    {
        ChatMessage {
            id: message_id(),
            role: String::from_str(role),
            content,
            timestamp: now_millis(),
            context_used: Some(context),
        }
    }

    /// A message from the user.
    pub fn user(content: &str) -> (r: ChatMessage)
        ensures
            is_message_id(r.id@),
            r.role@ == "user"@,
            r.content@ == content@,
            r.context_used is None,
    {
        Self::new("user", String::from_str(content))
    }

    /// A message from the assistant.
    pub fn assistant(content: String) -> (r: ChatMessage)
        ensures
            is_message_id(r.id@),
            r.role@ == "assistant"@,
            r.content == content,
            r.context_used is None,
    {
        Self::new("assistant", content)
    }
}

/// Views of a sequence of messages.
pub open spec fn message_views(v: Seq<ChatMessage>) -> Seq<ChatMessageView> {
    v.map_values(|m: ChatMessage| m@)
}

/// A conversation. Times count milliseconds since the Unix epoch, UTC.
pub struct ChatSession {
    pub id: String,
    pub messages: Vec<ChatMessage>,
    pub created_at: i64,
    pub updated_at: i64,
}

impl ChatSession {
    /// An empty conversation named `session_id`, created now.
    pub fn new(session_id: &str) -> (r: ChatSession)
        ensures
            r.id@ == session_id@,
            r.messages@.len() == 0,
            r.created_at == r.updated_at,
    {
        let now = now_millis();
        ChatSession {
            id: String::from_str(session_id),
            messages: Vec::new(),
            created_at: now,
            updated_at: now,
        }
    }

    /// Adds `message` at the end and stamps the session as updated now.
    pub fn add_message(&mut self, message: ChatMessage)
        ensures
            final(self).messages@ == old(self).messages@.push(message),
            final(self).id == old(self).id,
            final(self).created_at == old(self).created_at,
    {
        self.messages.push(message);
        self.updated_at = now_millis();
    }

    /// The last `count` messages (all of them when there are fewer), oldest first.
    pub fn get_recent_messages(&self, count: usize) -> (r: Vec<ChatMessage>)
        ensures
            message_views(r@) == message_views(self.messages@).subrange(
                self.messages@.len() - (if count < self.messages@.len() {
                    count as int
                } else {
                    self.messages@.len() as int
                }),
                self.messages@.len() as int,
            ),
    {
        let n = self.messages.len();
        let start = if count < n {
            n - count
        } else {
            0
        };
        let mut r: Vec<ChatMessage> = Vec::new();
        let mut i: usize = start;
        while i < n
            invariant
                n == self.messages@.len(),
                start <= i <= n,
                message_views(r@) == message_views(self.messages@).subrange(
                    start as int,
                    i as int,
                ),
            decreases n - i,
        {
            let ghost before = r@;
            let m = self.messages[i].clone();
            r.push(m);
            assert(message_views(r@) =~= message_views(before).push(m@));
            i = i + 1;
            assert(message_views(r@) =~= message_views(self.messages@).subrange(
                start as int,
                i as int,
            ));
        }
        r
    }
}

/// Does `e` match at least one of the keywords `kws`?
pub open spec fn matches_any(e: Experience, kws: Seq<Seq<char>>) -> bool {
    exists|k: int| 0 <= k < kws.len() && matches_query(e, lower_of(#[trigger] kws[k]))
}

/// The records of `s` that match at least one keyword of `kws`, in store order.
pub open spec fn relevant_of(s: Seq<Experience>, kws: Seq<Seq<char>>) -> Seq<Experience>
    decreases s.len(),
{
    if s.len() == 0 {
        Seq::empty()
    } else {
        let rest = relevant_of(s.drop_last(), kws);
        if matches_any(s.last(), kws) {
            rest.push(s.last())
        } else {
            rest
        }
    }
}

proof fn lemma_relevant_members(s: Seq<Experience>, kws: Seq<Seq<char>>, e: Experience)
    ensures
        relevant_of(s, kws).contains(e) <==> s.contains(e) && matches_any(e, kws),
    decreases s.len(),
{
    if s.len() > 0 {
        let t = s.drop_last();
        let l = s.last();
        lemma_relevant_members(t, kws, e);
        assert(s =~= t.push(l));
        lemma_push_contains(t, l, e);
        lemma_push_contains(relevant_of(t, kws), l, e);
    }
}

/// The records a reply draws on are exactly the stored records that match
/// one of the input's keywords, each once: their ids are distinct, and there
/// is at least one of them when some stored record matches.
pub proof fn lemma_context_is_matching_records(s: Seq<Experience>, kws: Seq<Seq<char>>)
    requires
        ids_unique(s),
    ensures
        ids_unique(relevant_of(s, kws)),
        forall|e: Experience| #[trigger]
            relevant_of(s, kws).contains(e) <==> s.contains(e) && matches_any(e, kws),
        (exists|i: int| 0 <= i < s.len() && matches_any(#[trigger] s[i], kws)) ==> relevant_of(
            s,
            kws,
        ).len() > 0,
    decreases s.len(),
{
    assert forall|e: Experience| #[trigger]
        relevant_of(s, kws).contains(e) <==> s.contains(e) && matches_any(e, kws) by {
        lemma_relevant_members(s, kws, e);
    }
    if exists|i: int| 0 <= i < s.len() && matches_any(#[trigger] s[i], kws) {
        let i = choose|i: int| 0 <= i < s.len() && matches_any(#[trigger] s[i], kws);
        assert(s.contains(s[i]));
        assert(relevant_of(s, kws).contains(s[i]));
    }
    if s.len() > 0 {
        let t = s.drop_last();
        let l = s.last();
        assert forall|i: int, j: int| 0 <= i < j < t.len() implies t[i].id@ != t[j].id@ by {
            assert(t[i] == s[i] && t[j] == s[j]);
        }
        lemma_context_is_matching_records(t, kws);
        let r = relevant_of(t, kws);
        if matches_any(l, kws) {
            assert forall|i: int, j: int|
                0 <= i < j < r.push(l).len() implies r.push(l)[i].id@ != r.push(l)[j].id@ by {
                if j == r.len() {
                    assert(r.contains(r[i]));
                    assert(t.contains(r[i]));
                    let k = choose|k: int| 0 <= k < t.len() && t[k] == r[i];
                    assert(s[k] == t[k]);
                    assert(s[s.len() - 1] == l);
                } else {
                    assert(r.push(l)[i] == r[i] && r.push(l)[j] == r[j]);
                }
            }
        }
    }
}

/// The ids of `s`, in order.
pub open spec fn ids_of(s: Seq<Experience>) -> Seq<Seq<char>> {
    s.map_values(|e: Experience| e.id@)
}

/// The line a record contributes to the backend's context.
pub open spec fn context_line(e: Experience) -> Seq<char> {
    "- "@ + e.content@ + " (from "@ + e.source@ + ")"@
}

/// The canned reply when no record is relevant to `input`.
pub open spec fn default_reply(input: Seq<char>) -> Seq<char> {
    let low = lower_of(input);
    if seq_contains(low, "halo"@) || seq_contains(low, "hello"@) || seq_contains(low, "hi"@) {
        "Halo! Ada yang bisa saya bantu? Saya memiliki akses ke memori dan pengalaman yang tersimpan."@
    } else if seq_contains(low, "apa"@) || seq_contains(low, "what"@) {
        "Saya adalah AI Core yang dapat membantu Anda mengakses dan menganalisis informasi dari memori. Silakan tanyakan sesuatu yang lebih spesifik."@
    } else if seq_contains(low, "bagaimana"@) || seq_contains(low, "how"@) {
        "Saya menggunakan pattern recognition dan memory analysis untuk memberikan jawaban. Coba berikan lebih banyak konteks atau kata kunci."@
    } else if seq_contains(low, "terima kasih"@) || seq_contains(low, "thanks"@) {
        "Sama-sama! Senang bisa membantu. Ada yang lain yang ingin ditanyakan?"@
    } else {
        "Saya memahami pertanyaan Anda tentang '"@ + input
            + "'. Namun, saat ini saya tidak menemukan informasi relevan dalam memori. Silakan tambahkan lebih banyak pengalaman atau berikan konteks yang lebih spesifik."@
    }
}

/// The numbered listing of `s`: one line per record, counting from 1.
pub open spec fn listing(s: Seq<Experience>) -> Seq<char>
    decreases s.len(),
{
    if s.len() == 0 {
        Seq::empty()
    } else {
        listing(s.drop_last()) + dec_text(s.len()) + ". "@ + s.last().content@ + " (dari "@
            + s.last().source@ + ")\n"@
    }
}

/// The keywords of `ps`, in order.
pub open spec fn keywords_of(ps: Seq<PatternView>) -> Seq<Seq<char>> {
    ps.map_values(|p: PatternView| p.keyword)
}

/// The templated reply over the relevant records `exps`, given the keyword
/// index `ps` built over them.
pub open spec fn context_reply(exps: Seq<Experience>, ps: Seq<PatternView>) -> Seq<char> {
    let shown = if exps.len() < 3 {
        exps
    } else {
        exps.take(3)
    };
    let top = top_of(ps, 3);
    "Berdasarkan "@ + dec_text(exps.len()) + " pengalaman relevan yang saya temukan:\n\n"@
        + listing(shown) + (if top.len() > 0 {
        "\n\u{1f50d} Pola yang terdeteksi: "@ + joined(keywords_of(top), ", "@)
    } else {
        Seq::empty()
    }) + "\n\nApakah ini menjawab pertanyaan Anda?"@
}

/// The backend's text, when it was to be asked and answered successfully.
pub open spec fn backend_reply(use_backend: bool, backend: Option<Result<String, String>>) -> Option<
    String,
> {
    if use_backend {
        match backend {
            Some(Ok(t)) => Some(t),
            _ => None,
        }
    } else {
        None
    }
}

/// What the responder found for one input, before the backend is asked.
pub struct ReplyPlan {
    pub relevant: Vec<Experience>,
    pub context_ids: Vec<String>,
    pub context_lines: Vec<String>,
    pub use_backend: bool,
}

/// Builds replies from the store, optionally through a generation backend.
pub struct ChatProcessor {
    pub ollama_client: Option<Arc<OllamaClient>>,
}

impl ChatProcessor {
    /// A responder without a backend.
    pub fn new() -> (r: ChatProcessor)
        ensures
            r.ollama_client is None,
    {
        ChatProcessor { ollama_client: None }
    }

    /// A responder that consults `ollama_client` when it is enabled.
    pub fn with_ollama(ollama_client: Arc<OllamaClient>) -> (r: ChatProcessor)
        ensures
            r.ollama_client == Some(ollama_client),
    {
        ChatProcessor { ollama_client: Some(ollama_client) }
    }

    /// Whether the backend is to be asked: there is one and it is enabled.
    pub open spec fn backend_ready(&self) -> bool {
        match self.ollama_client {
            Some(c) => c.enabled(),
            None => false,
        }
    }

    /// The keywords of `input` (the index's tokenizer).
    pub fn extract_keywords(input: &str) -> (r: Vec<String>)
        ensures
            string_views(r@) == tokens(input@),
    {
        tokenize(input)
    }

    /// The records of `memory` that contain at least one of `keywords`,
    /// compared case-insensitively, each once, in store order.
    pub fn relevant_experiences(memory: &Memory, keywords: &Vec<String>) -> (r: Vec<Experience>)
        ensures
            r@ == relevant_of(memory@, string_views(keywords@)),
    {
        let ghost kws = string_views(keywords@);
        let nk = keywords.len();
        let mut lowered: Vec<Vec<char>> = Vec::new();
        let mut k: usize = 0;
        while k < nk
            invariant
                nk == keywords@.len(),
                kws == string_views(keywords@),
                k <= nk,
                lowered@.len() == k,
                forall|m: int| 0 <= m < k ==> #[trigger] lowered@[m]@ == lower_of(kws[m]),
            decreases nk - k,
        {
            let low = to_lower(keywords[k].as_str());
            lowered.push(chars_of(low.as_str()));
            k = k + 1;
        }
        let exps = memory.get_experiences();
        let n = exps.len();
        let mut r: Vec<Experience> = Vec::new();
        let mut i: usize = 0;
        while i < n
            invariant
                n == memory@.len(),
                exps@ == memory@,
                kws == string_views(keywords@),
                nk == kws.len(),
                lowered@.len() == nk,
                forall|m: int| 0 <= m < nk ==> #[trigger] lowered@[m]@ == lower_of(kws[m]),
                i <= n,
                r@ == relevant_of(memory@.take(i as int), kws),
            decreases n - i,
        {
            let e = &exps[i];
            let low = to_lower(e.content.as_str());
            let lc = chars_of(low.as_str());
            let mut hit = false;
            let mut m: usize = 0;
            while m < nk && !hit
                invariant
                    nk == kws.len(),
                    lowered@.len() == nk,
                    forall|q: int| 0 <= q < nk ==> #[trigger] lowered@[q]@ == lower_of(kws[q]),
                    lc@ == lower_of(e.content@),
                    m <= nk,
                    hit ==> matches_any(*e, kws),
                    !hit ==> forall|q: int| 0 <= q < m ==> !matches_query(*e, lower_of(#[trigger] kws[q])),
                decreases nk - m,
            {
                if contains_chars(&lc, &lowered[m]) {
                    hit = true;
                }
                m = m + 1;
            }
            assert(memory@.take(i + 1).drop_last() =~= memory@.take(i as int));
            assert(memory@.take(i + 1).last() == *e);
            if hit {
                r.push(e.clone());
            }
            i = i + 1;
        }
        assert(memory@.take(n as int) =~= memory@);
        r
    }

    /// The context line of each record: `- <content> (from <source>)`.
    pub fn context_lines(exps: &Vec<Experience>) -> (r: Vec<String>)
        ensures
            string_views(r@) == exps@.map_values(|e: Experience| context_line(e)),
    {
        let n = exps.len();
        let mut r: Vec<String> = Vec::new();
        let mut i: usize = 0;
        while i < n
            invariant
                n == exps@.len(),
                i <= n,
                string_views(r@) == exps@.take(i as int).map_values(
                    |e: Experience| context_line(e),
                ),
            decreases n - i,
        {
            let mut line = String::from_str("- ");
            line.append(exps[i].content.as_str());
            line.append(" (from ");
            line.append(exps[i].source.as_str());
            line.append(")");
            let ghost before = r@;
            r.push(line);
            assert(string_views(r@) =~= string_views(before).push(context_line(exps@[i as int])));
            assert(exps@.take(i + 1).map_values(|e: Experience| context_line(e)) =~= exps@.take(
                i as int,
            ).map_values(|e: Experience| context_line(e)).push(context_line(exps@[i as int])));
            i = i + 1;
            assert(string_views(r@) =~= exps@.take(i as int).map_values(
                |e: Experience| context_line(e),
            ));
        }
        assert(exps@.take(n as int) =~= exps@);
        r
    }

    /// The ids of `exps`, in order.
    fn ids(exps: &Vec<Experience>) -> (r: Vec<String>)
        ensures
            string_views(r@) == ids_of(exps@),
    {
        let n = exps.len();
        let mut r: Vec<String> = Vec::new();
        let mut i: usize = 0;
        while i < n
            invariant
                n == exps@.len(),
                i <= n,
                string_views(r@) == ids_of(exps@.take(i as int)),
            decreases n - i,
        {
            let ghost before = r@;
            r.push(exps[i].id.clone());
            assert(string_views(r@) =~= string_views(before).push(exps@[i as int].id@));
            assert(ids_of(exps@.take(i + 1)) =~= ids_of(exps@.take(i as int)).push(
                exps@[i as int].id@,
            ));
            i = i + 1;
            assert(string_views(r@) =~= ids_of(exps@.take(i as int)));
        }
        assert(exps@.take(n as int) =~= exps@);
        r
    }

    /// The canned reply for an input that no record is relevant to: a greeting,
    /// an introduction, a note on how answers are made, an acknowledgement of
    /// thanks, or else a message that echoes the input.
    pub fn generate_default_response(user_input: &str) -> (r: String)
        ensures
            r@ == default_reply(user_input@),
    {
        let low = to_lower(user_input);
        let lc = chars_of(low.as_str());
        if contains_chars(&lc, &chars_of("halo")) || contains_chars(&lc, &chars_of("hello"))
            || contains_chars(&lc, &chars_of("hi")) {
            String::from_str(
                "Halo! Ada yang bisa saya bantu? Saya memiliki akses ke memori dan pengalaman yang tersimpan.",
            )
        } else if contains_chars(&lc, &chars_of("apa")) || contains_chars(&lc, &chars_of("what")) {
            String::from_str(
                "Saya adalah AI Core yang dapat membantu Anda mengakses dan menganalisis informasi dari memori. Silakan tanyakan sesuatu yang lebih spesifik.",
            )
        } else if contains_chars(&lc, &chars_of("bagaimana")) || contains_chars(
            &lc,
            &chars_of("how"),
        ) {
            String::from_str(
                "Saya menggunakan pattern recognition dan memory analysis untuk memberikan jawaban. Coba berikan lebih banyak konteks atau kata kunci.",
            )
        } else if contains_chars(&lc, &chars_of("terima kasih")) || contains_chars(
            &lc,
            &chars_of("thanks"),
        ) {
            String::from_str(
                "Sama-sama! Senang bisa membantu. Ada yang lain yang ingin ditanyakan?",
            )
        } else {
            let mut r = String::from_str("Saya memahami pertanyaan Anda tentang '");
            r.append(user_input);
            r.append(
                "'. Namun, saat ini saya tidak menemukan informasi relevan dalam memori. Silakan tambahkan lebih banyak pengalaman atau berikan konteks yang lebih spesifik.",
            );
            r
        }
    }

    /// The templated reply over the relevant records `experiences`: their
    /// number, the first three of them, and the three most frequent keywords
    /// once `experiences` have been analysed into `patterns`.
    pub fn generate_context_aware_response(
        user_input: &str,
        experiences: &Vec<Experience>,
        patterns: &mut PatternRecognizer,
    ) -> (r: String)
        requires
            old(patterns).wf(),
        ensures
            final(patterns).wf(),
            final(patterns)@ == analyzed_all(old(patterns)@, experiences@),
            r@ == context_reply(experiences@, final(patterns)@),
    {
        patterns.analyze_all(experiences.as_slice());
        let top = patterns.get_top_patterns(3);
        let n = experiences.len();
        let mut response = String::from_str("Berdasarkan ");
        let n_text = decimal(n as u64);
        response.append(n_text.as_str());
        response.append(" pengalaman relevan yang saya temukan:\n\n");
        let shown = if n < 3 {
            n
        } else {
            3
        };
        let ghost head = response@;
        let ghost s = if n < 3 {
            experiences@
        } else {
            experiences@.take(3)
        };
        assert(s =~= experiences@.take(shown as int));
        let mut i: usize = 0;
        while i < shown
            invariant
                shown <= n,
                n == experiences@.len(),
                i <= shown,
                response@ == head + listing(experiences@.take(i as int)),
            decreases shown - i,
        {
            let e = &experiences[i];
            let num = decimal((i + 1) as u64);
            response.append(num.as_str());
            response.append(". ");
            response.append(e.content.as_str());
            response.append(" (dari ");
            response.append(e.source.as_str());
            response.append(")\n");
            i = i + 1;
            assert(experiences@.take(i as int).drop_last() =~= experiences@.take(i - 1));
            assert(response@ =~= head + listing(experiences@.take(i as int)));
        }
        let ghost ps = patterns@;
        if top.len() > 0 {
            response.append("\n\u{1f50d} Pola yang terdeteksi: ");
            let mut names: Vec<String> = Vec::new();
            let mut j: usize = 0;
            while j < top.len()
                invariant
                    j <= top@.len(),
                    string_views(names@) == keywords_of(
                        top@.take(j as int).map_values(|p: crate::pattern::Pattern| p@),
                    ),
                decreases top@.len() - j,
            {
                let ghost before = names@;
                names.push(top[j].keyword.clone());
                assert(string_views(names@) =~= string_views(before).push(top@[j as int].keyword@));
                assert(keywords_of(top@.take(j + 1).map_values(|p: crate::pattern::Pattern| p@))
                    =~= keywords_of(
                    top@.take(j as int).map_values(|p: crate::pattern::Pattern| p@),
                ).push(top@[j as int].keyword@));
                j = j + 1;
                assert(string_views(names@) =~= keywords_of(
                    top@.take(j as int).map_values(|p: crate::pattern::Pattern| p@),
                ));
            }
            assert(top@.take(j as int) =~= top@);
            let joined_names = join_with(&names, ", ");
            response.append(joined_names.as_str());
        }
        response.append("\n\nApakah ini menjawab pertanyaan Anda?");
        assert(response@ =~= context_reply(experiences@, ps));
        response
    }

    /// First step of a reply to `user_input`: the records relevant to it,
    /// their ids and context lines, and whether the backend is to be asked.
    pub fn plan_reply(&self, user_input: &str, memory: &Memory) -> (r: ReplyPlan)
        ensures
            r.relevant@ == relevant_of(memory@, tokens(user_input@)),
            string_views(r.context_ids@) == ids_of(r.relevant@),
            string_views(r.context_lines@) == r.relevant@.map_values(
                |e: Experience| context_line(e),
            ),
            r.use_backend == self.backend_ready(),
    {
        let keywords = Self::extract_keywords(user_input);
        let relevant = Self::relevant_experiences(memory, &keywords);
        let context_ids = Self::ids(&relevant);
        let context_lines = Self::context_lines(&relevant);
        let use_backend = match &self.ollama_client {
            Some(c) => c.is_enabled(),
            None => false,
        };
        ReplyPlan { relevant, context_ids, context_lines, use_backend }
    }

    /// The reply text for `plan`: what the backend answered when it was asked
    /// and succeeded; otherwise the canned reply when nothing was relevant,
    /// or the templated reply over the relevant records.
    pub fn reply_text(
        plan: &ReplyPlan,
        user_input: &str,
        backend: Option<Result<String, String>>,
        patterns: &mut PatternRecognizer,
    ) -> (r: String)
        requires
            old(patterns).wf(),
        ensures
            final(patterns).wf(),
            backend_reply(plan.use_backend, backend) is Some ==> r == backend_reply(
                plan.use_backend,
                backend,
            )->0 && final(patterns)@ == old(patterns)@,
            backend_reply(plan.use_backend, backend) is None && plan.relevant@.len() == 0 ==> r@
                == default_reply(user_input@) && final(patterns)@ == old(patterns)@,
            backend_reply(plan.use_backend, backend) is None && plan.relevant@.len() > 0 ==> (
            final(patterns)@ == analyzed_all(old(patterns)@, plan.relevant@) && r@ == context_reply(
                plan.relevant@,
                final(patterns)@,
            )),
    {
        if plan.use_backend {
            if let Some(Ok(t)) = backend {
                return t;
            }
        }
        if plan.relevant.len() == 0 {
            Self::generate_default_response(user_input)
        } else {
            Self::generate_context_aware_response(user_input, &plan.relevant, patterns)
        }
    }

    /// Second step of a reply: the assistant's message, with the reply text of
    /// [`ChatProcessor::reply_text`] and the ids of the relevant records.
    pub fn finish_reply(
        plan: ReplyPlan,
        user_input: &str,
        backend: Option<Result<String, String>>,
        patterns: &mut PatternRecognizer,
    ) -> (r: ChatMessage)
        requires
            old(patterns).wf(),
        ensures
            final(patterns).wf(),
            r.role@ == "assistant"@,
            r.context_used == Some(plan.context_ids),
            backend_reply(plan.use_backend, backend) is Some ==> r.content == backend_reply(
                plan.use_backend,
                backend,
            )->0,
            backend_reply(plan.use_backend, backend) is None && plan.relevant@.len() == 0
                ==> r.content@ == default_reply(user_input@),
            backend_reply(plan.use_backend, backend) is None && plan.relevant@.len() > 0 ==> (
            final(patterns)@ == analyzed_all(old(patterns)@, plan.relevant@) && r.content@
                == context_reply(plan.relevant@, final(patterns)@)),
    {
        let text = Self::reply_text(&plan, user_input, backend, patterns);
        let ReplyPlan { relevant: _, context_ids, context_lines: _, use_backend: _ } = plan;
        ChatMessage::with_context("assistant", text, context_ids)
    }
}

} // verus!
