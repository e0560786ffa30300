//! The session store: the ordered transcript of one conversation and its
//! metadata, whose counters always agree with the transcript.
use vstd::prelude::*;
use vstd::string::*;
use crate::clock::{local_stamp, now_millis};
use crate::text::{chars_of, push_char, same_text, string_of_range};

verus! {

/// Who wrote a message.
#[derive(PartialEq, Eq, Structural, Clone, Copy, Debug)]
pub enum Role {
    User,
    Assistant,
}

impl Role {
    /// The role's name in a chat-completion request: `user` or `assistant`.
    pub fn name(&self) -> (r: &'static str)
        ensures
            r@ == role_name(*self),
    {
        match self {
            Role::User => "user",
            Role::Assistant => "assistant",
        }
    }

    /// The role with the wire name `s`, if one has it.
    pub fn from_name(s: &str) -> (r: Option<Role>)
        ensures
            r matches Some(role) ==> s@ == role_name(role),
            r is None ==> s@ != role_name(Role::User) && s@ != role_name(Role::Assistant),
    {
        if same_text(s, "user") {
            Some(Role::User)
        } else if same_text(s, "assistant") {
            Some(Role::Assistant)
        } else {
            None
        }
    }
}

/// The wire name of a role.
pub open spec fn role_name(r: Role) -> Seq<char> {
    match r {
        Role::User => "user"@,
        Role::Assistant => "assistant"@,
    }
}

/// One turn of the conversation.
pub struct ChatMessage {
    /// Sequence number within the session, from 1; never reused.
    pub id: usize,
    pub role: Role,
    pub content: String,
    /// When the message was added, in milliseconds since the Unix epoch.
    pub timestamp: i64,
    /// Token count, when the server reported one.
    pub tokens: Option<u32>,
}

impl ChatMessage {
    /// An identical copy.
    pub fn duplicate(&self) -> (r: ChatMessage)
        ensures
            r == *self,
    {
        ChatMessage {
            id: self.id,
            role: self.role,
            content: self.content.clone(),
            timestamp: self.timestamp,
            tokens: self.tokens,
        }
    }
}

/// Facts about a session that are kept beside its transcript.
pub struct SessionMetadata {
    /// `session_DDMMYYYY_HHMMSS`, followed by `_label` once renamed.
    pub id: String,
    pub created_at: i64,
    pub last_modified: i64,
    pub model_name: String,
    /// In thousandths: `700` is `0.7`.
    pub temperature: u32,
    pub message_count: usize,
    pub total_tokens: u64,
    pub label: Option<String>,
    /// The id the next message will get.
    pub next_message_id: usize,
}

impl SessionMetadata {
    /// An identical copy.
    pub fn duplicate(&self) -> (r: SessionMetadata)
        ensures
            r == *self,
    {
        SessionMetadata {
            id: self.id.clone(),
            created_at: self.created_at,
            last_modified: self.last_modified,
            model_name: self.model_name.clone(),
            temperature: self.temperature,
            message_count: self.message_count,
            total_tokens: self.total_tokens,
            label: match &self.label {
                Some(l) => Some(l.clone()),
                None => None,
            },
            next_message_id: self.next_message_id,
        }
    }
}

/// Why a session operation was refused.
#[derive(PartialEq, Eq, Structural, Clone, Copy, Debug)]
pub enum SessionError {
    /// No message of the session has this id.
    NoSuchMessage(usize),
    /// The stored counters disagree with the stored transcript.
    Inconsistent,
}

/// One conversation: its metadata and its messages in order.
pub struct Session {
    pub metadata: SessionMetadata,
    pub messages: Vec<ChatMessage>,
}

/// The tokens a message counts for.
pub open spec fn tokens_of(m: ChatMessage) -> nat {
    match m.tokens {
        Some(t) => t as nat,
        None => 0,
    }
}

/// The tokens of all messages.
pub open spec fn token_sum(ms: Seq<ChatMessage>) -> nat
    decreases ms.len(),
{
    if ms.len() == 0 {
        0
    } else {
        token_sum(ms.drop_last()) + tokens_of(ms.last())
    }
}

/// Message ids grow strictly along the transcript.
pub open spec fn ids_increasing(ms: Seq<ChatMessage>) -> bool {
    forall|i: int, j: int| 0 <= i < j < ms.len() ==> #[trigger] ms[i].id < #[trigger] ms[j].id
}

/// The message with id `id`, if there is one (the first such).
pub open spec fn find_id(ms: Seq<ChatMessage>, id: nat) -> Option<ChatMessage>
    decreases ms.len(),
{
    if ms.len() == 0 {
        None
    } else if ms[0].id == id {
        Some(ms[0])
    } else {
        find_id(ms.drop_first(), id)
    }
}

/// Whether a message with id `id` is in the transcript.
pub open spec fn has_id(ms: Seq<ChatMessage>, id: nat) -> bool {
    exists|i: int| 0 <= i < ms.len() && #[trigger] ms[i].id == id
}

/// The well-formedness of a session: its counters are those of its transcript,
/// and its ids are distinct, increasing, and below the next id to hand out.
pub open spec fn session_wf(md: SessionMetadata, ms: Seq<ChatMessage>) -> bool {
    &&& md.message_count == ms.len()
    &&& md.total_tokens == token_sum(ms)
    &&& ids_increasing(ms)
    &&& md.next_message_id >= 1
    &&& forall|i: int| 0 <= i < ms.len() ==> 1 <= #[trigger] ms[i].id < md.next_message_id
}

proof fn lemma_token_sum_concat(a: Seq<ChatMessage>, b: Seq<ChatMessage>)
    ensures
        token_sum(a + b) == token_sum(a) + token_sum(b),
    decreases b.len(),
{
    if b.len() == 0 {
        assert(a + b =~= a);
    } else {
        lemma_token_sum_concat(a, b.drop_last());
        assert((a + b).drop_last() =~= a + b.drop_last());
    }
}

proof fn lemma_token_sum_remove(ms: Seq<ChatMessage>, i: int)
    requires
        0 <= i < ms.len(),
    ensures
        token_sum(ms.remove(i)) + tokens_of(ms[i]) == token_sum(ms),
{
    let a = ms.subrange(0, i);
    let b = ms.subrange(i + 1, ms.len() as int);
    assert(ms.remove(i) =~= a + b);
    assert(ms =~= a.push(ms[i]) + b);
    lemma_token_sum_concat(a, b);
    lemma_token_sum_concat(a.push(ms[i]), b);
    assert(a.push(ms[i]).drop_last() =~= a);
}

proof fn lemma_find_id(ms: Seq<ChatMessage>, id: nat)
    requires
        ids_increasing(ms),
    ensures
        find_id(ms, id) is None <==> !has_id(ms, id),
        forall|i: int| 0 <= i < ms.len() && #[trigger] ms[i].id == id ==> find_id(ms, id) == Some(ms[i]),
    decreases ms.len(),
{
    if ms.len() > 0 {
        let t = ms.drop_first();
        assert(ids_increasing(t)) by {
            assert forall|i: int, j: int| 0 <= i < j < t.len() implies #[trigger] t[i].id < #[trigger] t[j].id by {
                assert(ms[i + 1].id < ms[j + 1].id);
            }
        }
        lemma_find_id(t, id);
        if ms[0].id != id {
            assert(has_id(ms, id) ==> has_id(t, id)) by {
                if has_id(ms, id) {
                    let i = choose|i: int| 0 <= i < ms.len() && #[trigger] ms[i].id == id;
                    assert(t[i - 1].id == id);
                }
            }
            assert(has_id(t, id) ==> has_id(ms, id)) by {
                if has_id(t, id) {
                    let i = choose|i: int| 0 <= i < t.len() && #[trigger] t[i].id == id;
                    assert(ms[i + 1].id == id);
                }
            }
            assert forall|i: int| 0 <= i < ms.len() && #[trigger] ms[i].id == id implies find_id(ms, id) == Some(ms[i]) by {
                assert(t[i - 1] == ms[i]);
            }
        } else {
            assert(ms[0].id == id);
            assert forall|i: int| 0 <= i < ms.len() && #[trigger] ms[i].id == id implies find_id(ms, id) == Some(ms[i]) by {
                if i > 0 {
                    assert(ms[0].id < ms[i].id);
                }
            }
        }
    }
}

/// The stamp a change made at `now` leaves: never earlier than the one
/// before, so a clock that steps back does not move it back.
pub open spec fn later_of(prev: i64, now: i64) -> i64 {
    if now >= prev { now } else { prev }
}

/// The stamp a change made at `now` leaves on a session stamped `prev`.
fn later_stamp(prev: i64, now: i64) -> (r: i64)
    ensures
        r == later_of(prev, now),
{
    if now >= prev { now } else { prev }
}

/// The tokens an optional count adds.
pub open spec fn opt_tokens(t: Option<u32>) -> nat {
    match t {
        Some(t) => t as nat,
        None => 0,
    }
}

/// Where the session id's base ends: at its third `_`, or at its end when it
/// has fewer. `cut_from(s, i, seen)` continues a scan at `i` having passed
/// `seen` underscores.
pub open spec fn cut_from(s: Seq<char>, i: int, seen: nat) -> int
    decreases s.len() - i,
{
    if i >= s.len() {
        s.len() as int
    } else if s[i] == '_' && seen == 2 {
        i
    } else if s[i] == '_' {
        cut_from(s, i + 1, seen + 1)
    } else {
        cut_from(s, i + 1, seen)
    }
}

/// The part of a session id that a rename keeps: its first three
/// `_`-separated fields (`session`, the date, the time).
pub open spec fn id_base(id: Seq<char>) -> Seq<char> {
    id.subrange(0, cut_from(id, 0, 0))
}

proof fn lemma_cut_bounds(s: Seq<char>, i: int, seen: nat)
    requires
        0 <= i <= s.len(),
    ensures
        i <= cut_from(s, i, seen) <= s.len(),
    decreases s.len() - i,
{
    if i < s.len() {
        if !(s[i] == '_' && seen == 2) {
            if s[i] == '_' {
                lemma_cut_bounds(s, i + 1, seen + 1);
            } else {
                lemma_cut_bounds(s, i + 1, seen);
            }
        }
    }
}

/// A session rebuilt from stored parts, when they are consistent.
pub open spec fn restored(md: SessionMetadata, ms: Seq<ChatMessage>) -> Option<(SessionMetadata, Seq<ChatMessage>)> {
    if session_wf(md, ms) {
        Some((md, ms))
    } else {
        None
    }
}

/// Copies a transcript.
pub fn copy_messages(ms: &Vec<ChatMessage>) -> (r: Vec<ChatMessage>)
    ensures
        r@ == ms@,
{
    let mut out: Vec<ChatMessage> = Vec::new();
    let mut i: usize = 0;
    while i < ms.len()
        invariant
            i <= ms@.len(),
            out@ == ms@.subrange(0, i as int),
        decreases ms@.len() - i,
    {
        out.push(ms[i].duplicate());
        assert(ms@.subrange(0, i + 1) =~= ms@.subrange(0, i as int).push(ms@[i as int]));
        i += 1;
    }
    assert(ms@.subrange(0, ms@.len() as int) =~= ms@);
    out
}

impl Session {
    /// The session's well-formedness.
    pub open spec fn wf(&self) -> bool {
        session_wf(self.metadata, self.messages@)
    }

    /// Whether one more message with `tokens` fits: its id and the token total
    /// must stay representable.
    pub open spec fn room_for(&self, tokens: Option<u32>) -> bool {
        &&& self.metadata.next_message_id < usize::MAX
        &&& self.metadata.total_tokens + opt_tokens(tokens) <= u64::MAX
    }

    /// An empty session named `session_<stamp>`, created at `now`.
    pub fn start(model_name: String, temperature: u32, stamp: &str, now: i64) -> (r: Session)
        ensures
            r.wf(),
            r.metadata.id@ == "session_"@ + stamp@,
            r.metadata.created_at == now,
            r.metadata.last_modified == now,
            r.metadata.model_name == model_name,
            r.metadata.temperature == temperature,
            r.metadata.label is None,
            r.metadata.next_message_id == 1,
            r.messages@.len() == 0,
    {
        let mut id = String::from_str("session_");
        id.append(stamp);
        Session {
            metadata: SessionMetadata {
                id,
                created_at: now,
                last_modified: now,
                model_name,
                temperature,
                message_count: 0,
                total_tokens: 0,
                label: None,
                next_message_id: 1,
            },
            messages: Vec::new(),
        }
    }

    /// An empty session named after the local time now.
    pub fn new(model_name: String, temperature: u32) -> (r: Session)
        ensures
            r.wf(),
            "session_"@.is_prefix_of(r.metadata.id@),
            r.metadata.model_name == model_name,
            r.metadata.temperature == temperature,
            r.metadata.label is None,
            r.metadata.next_message_id == 1,
            r.messages@.len() == 0,
    {
        let stamp = local_stamp();
        let now = now_millis();
        let r = Session::start(model_name, temperature, stamp.as_str(), now);
        proof {
            reveal_strlit("session_");
            assert(r.metadata.id@.subrange(0, 8) =~= "session_"@);
        }
        r
    }

    /// Whether a message with `tokens` can be added.
    pub fn has_room(&self, tokens: Option<u32>) -> (r: bool)
        ensures
            r == self.room_for(tokens),
    {
        if self.metadata.next_message_id == usize::MAX {
            return false;
        }
        match tokens {
            Some(t) => self.metadata.total_tokens <= u64::MAX - t as u64,
            None => true,
        }
    }

    /// Appends a message stamped `now`; it gets the next id, and the counters
    /// follow. The session's own stamp moves to `now` unless it is later.
    pub fn add_message_at(&mut self, role: Role, content: String, tokens: Option<u32>, now: i64)
        requires
            old(self).wf(),
            old(self).room_for(tokens),
        ensures
            final(self).wf(),
            final(self).messages@ == old(self).messages@.push(
                (ChatMessage { id: old(self).metadata.next_message_id, role, content, timestamp: now, tokens }),
            ),
            final(self).metadata == (SessionMetadata {
                message_count: (old(self).metadata.message_count + 1) as usize,
                total_tokens: (old(self).metadata.total_tokens + opt_tokens(tokens)) as u64,
                last_modified: later_of(old(self).metadata.last_modified, now),
                next_message_id: (old(self).metadata.next_message_id + 1) as usize,
                ..old(self).metadata
            }),
    {
        let id = self.metadata.next_message_id;
        let ghost before = self.messages@;
        self.messages.push(ChatMessage { id, role, content, timestamp: now, tokens });
        assert(self.messages@.drop_last() =~= before);
        self.metadata.message_count = self.messages.len();
        self.metadata.next_message_id = id + 1;
        self.metadata.last_modified = later_stamp(self.metadata.last_modified, now);
        if let Some(t) = tokens {
            self.metadata.total_tokens = self.metadata.total_tokens + t as u64;
        }
    }

    /// Appends a message stamped with the current time.
    pub fn add_message(&mut self, role: Role, content: String, tokens: Option<u32>)
        requires
            old(self).wf(),
            old(self).room_for(tokens),
        ensures
            final(self).wf(),
            final(self).messages@.len() == old(self).messages@.len() + 1,
            final(self).messages@.drop_last() == old(self).messages@,
            final(self).messages@.last().id == old(self).metadata.next_message_id,
            final(self).messages@.last().role == role,
            final(self).messages@.last().content == content,
            final(self).messages@.last().tokens == tokens,
            final(self).metadata.next_message_id == old(self).metadata.next_message_id + 1,
            final(self).metadata.id == old(self).metadata.id,
            final(self).metadata.model_name == old(self).metadata.model_name,
            final(self).metadata.created_at == old(self).metadata.created_at,
            final(self).metadata.temperature == old(self).metadata.temperature,
            final(self).metadata.label == old(self).metadata.label,
            final(self).metadata.last_modified >= old(self).metadata.last_modified,
    {
        let now = now_millis();
        self.add_message_at(role, content, tokens, now);
    }

    /// Where in the transcript the message `id` stands.
    fn index_of(&self, id: usize) -> (r: Option<usize>)
        requires
            self.wf(),
        ensures
            r matches Some(i) ==> i < self.messages@.len() && self.messages@[i as int].id == id,
            r is None ==> !has_id(self.messages@, id as nat),
    {
        let mut i: usize = 0;
        while i < self.messages.len()
            invariant
                i <= self.messages@.len(),
                forall|j: int| 0 <= j < i ==> #[trigger] self.messages@[j].id != id,
            decreases self.messages@.len() - i,
        {
            if self.messages[i].id == id {
                return Some(i);
            }
            i += 1;
        }
        None
    }

    /// The message with id `id`, if the transcript holds one.
    pub fn get_message(&self, id: usize) -> (r: Option<&ChatMessage>)
        requires
            self.wf(),
        ensures
            r matches Some(m) ==> find_id(self.messages@, id as nat) == Some(*m),
            r is None ==> find_id(self.messages@, id as nat) is None,
    {
        proof {
            lemma_find_id(self.messages@, id as nat);
        }
        match self.index_of(id) {
            Some(i) => Some(&self.messages[i]),
            None => None,
        }
    }

    /// Removes the message `id`, stamped `now`. The other messages keep their
    /// ids, and the session's stamp moves to `now` unless it is later.
    /// Without such a message nothing changes.
    pub fn delete_message_at(&mut self, id: usize, now: i64) -> (r: Result<(), SessionError>)
        requires
            old(self).wf(),
        ensures
            final(self).wf(),
            r is Ok <==> has_id(old(self).messages@, id as nat),
            r is Err ==> r == Err::<(), SessionError>(SessionError::NoSuchMessage(id)) && *final(self) == *old(self),
            r is Ok ==> exists|i: int|
                0 <= i < old(self).messages@.len() && #[trigger] old(self).messages@[i].id == id
                    && final(self).messages@ == old(self).messages@.remove(i),
            r is Ok ==> final(self).metadata == (SessionMetadata {
                message_count: (old(self).metadata.message_count - 1) as usize,
                total_tokens: token_sum(final(self).messages@) as u64,
                last_modified: later_of(old(self).metadata.last_modified, now),
                ..old(self).metadata
            }),
    {
        match self.index_of(id) {
            None => Err(SessionError::NoSuchMessage(id)),
            Some(i) => {
                let ghost before = self.messages@;
                let removed = self.messages.remove(i);
                proof {
                    lemma_token_sum_remove(before, i as int);
                    assert forall|a: int, b: int| 0 <= a < b < self.messages@.len() implies
                        #[trigger] self.messages@[a].id < #[trigger] self.messages@[b].id by {
                        let a0 = if a < i { a } else { a + 1 };
                        let b0 = if b < i { b } else { b + 1 };
                        assert(before[a0].id < before[b0].id);
                    }
                    assert forall|j: int| 0 <= j < self.messages@.len() implies
                        1 <= #[trigger] self.messages@[j].id < self.metadata.next_message_id by {
                        let j0 = if j < i { j } else { j + 1 };
                        assert(self.messages@[j] == before[j0]);
                    }
                }
                self.metadata.message_count = self.messages.len();
                let t: u64 = match removed.tokens {
                    Some(t) => t as u64,
                    None => 0,
                };
                self.metadata.total_tokens = self.metadata.total_tokens - t;
                self.metadata.last_modified = later_stamp(self.metadata.last_modified, now);
                Ok(())
            },
        }
    }

    /// Removes the message `id`, stamped with the current time.
    pub fn delete_message(&mut self, id: usize) -> (r: Result<(), SessionError>)
        requires
            old(self).wf(),
        ensures
            final(self).wf(),
            r is Ok <==> has_id(old(self).messages@, id as nat),
            r is Err ==> *final(self) == *old(self),
            r is Ok ==> exists|i: int|
                0 <= i < old(self).messages@.len() && #[trigger] old(self).messages@[i].id == id
                    && final(self).messages@ == old(self).messages@.remove(i),
            final(self).metadata.next_message_id == old(self).metadata.next_message_id,
            final(self).metadata.id == old(self).metadata.id,
            final(self).metadata.model_name == old(self).metadata.model_name,
            final(self).metadata.created_at == old(self).metadata.created_at,
            final(self).metadata.temperature == old(self).metadata.temperature,
            final(self).metadata.label == old(self).metadata.label,
            final(self).metadata.last_modified >= old(self).metadata.last_modified,
    {
        let now = now_millis();
        self.delete_message_at(id, now)
    }

    /// Empties the transcript, stamped `now` (or left at a later stamp). Ids
    /// already handed out stay used.
    pub fn clear_all_at(&mut self, now: i64)
        requires
            old(self).wf(),
        ensures
            final(self).wf(),
            final(self).messages@.len() == 0,
            final(self).metadata == (SessionMetadata {
                message_count: 0,
                total_tokens: 0,
                last_modified: later_of(old(self).metadata.last_modified, now),
                ..old(self).metadata
            }),
    {
        self.messages.clear();
        self.metadata.message_count = 0;
        self.metadata.total_tokens = 0;
        self.metadata.last_modified = later_stamp(self.metadata.last_modified, now);
    }

    /// Empties the transcript, stamped with the current time.
    pub fn clear_all(&mut self)
        requires
            old(self).wf(),
        ensures
            final(self).wf(),
            final(self).messages@.len() == 0,
            final(self).metadata.message_count == 0,
            final(self).metadata.total_tokens == 0,
            final(self).metadata.next_message_id == old(self).metadata.next_message_id,
            final(self).metadata.id == old(self).metadata.id,
            final(self).metadata.model_name == old(self).metadata.model_name,
            final(self).metadata.created_at == old(self).metadata.created_at,
            final(self).metadata.temperature == old(self).metadata.temperature,
            final(self).metadata.label == old(self).metadata.label,
            final(self).metadata.last_modified >= old(self).metadata.last_modified,
    {
        let now = now_millis();
        self.clear_all_at(now);
    }

    /// Labels the session, stamped `now` (or left at a later stamp): the id
    /// becomes its base followed by `_` and the label.
    pub fn rename_at(&mut self, label: String, now: i64)
        requires
            old(self).wf(),
        ensures
            final(self).wf(),
            final(self).messages == old(self).messages,
            final(self).metadata.id@ == id_base(old(self).metadata.id@) + "_"@ + label@,
            final(self).metadata == (SessionMetadata {
                id: final(self).metadata.id,
                label: Some(label),
                last_modified: later_of(old(self).metadata.last_modified, now),
                ..old(self).metadata
            }),
    {
        let cs = chars_of(self.metadata.id.as_str());
        let n = cs.len();
        let mut i: usize = 0;
        let mut seen: usize = 0;
        proof {
            lemma_cut_bounds(cs@, 0, 0);
        }
        while i < n && !(cs[i] == '_' && seen == 2)
            invariant
                n == cs@.len(),
                i <= n,
                seen <= 2,
                cut_from(cs@, 0, 0) == cut_from(cs@, i as int, seen as nat),
            decreases n - i,
        {
            if cs[i] == '_' {
                seen += 1;
            }
            i += 1;
        }
        let mut id = string_of_range(&cs, 0, i);
        push_char(&mut id, '_');
        id.append(label.as_str());
        proof {
            reveal_strlit("_");
            assert("_"@ =~= seq!['_']);
        }
        self.metadata.id = id;
        self.metadata.label = Some(label);
        self.metadata.last_modified = later_stamp(self.metadata.last_modified, now);
    }

    /// Labels the session, stamped with the current time.
    pub fn rename(&mut self, label: String)
        requires
            old(self).wf(),
        ensures
            final(self).wf(),
            final(self).messages == old(self).messages,
            final(self).metadata.id@ == id_base(old(self).metadata.id@) + "_"@ + label@,
            final(self).metadata.label == Some(label),
            final(self).metadata.next_message_id == old(self).metadata.next_message_id,
            final(self).metadata.last_modified >= old(self).metadata.last_modified,
    {
        let now = now_millis();
        self.rename_at(label, now);
    }

    /// The two stored parts of the session: its metadata and its transcript.
    pub fn to_parts(&self) -> (r: (SessionMetadata, Vec<ChatMessage>))
        ensures
            r.0 == self.metadata,
            r.1@ == self.messages@,
    {
        (self.metadata.duplicate(), copy_messages(&self.messages))
    }

    /// Rebuilds a session from its stored parts, checking that the counters
    /// agree with the transcript and that the ids are in order.
    pub fn restore(metadata: SessionMetadata, messages: Vec<ChatMessage>) -> (r: Result<Session, SessionError>)
        ensures
            r is Ok <==> restored(metadata, messages@) is Some,
            r matches Ok(s) ==> s.metadata == metadata && s.messages@ == messages@ && s.wf(),
            r is Err ==> r == Err::<Session, SessionError>(SessionError::Inconsistent),
    {
        if metadata.message_count != messages.len() || metadata.next_message_id == 0 {
            return Err(SessionError::Inconsistent);
        }
        let mut sum: u64 = 0;
        let mut i: usize = 0;
        while i < messages.len()
            invariant
                i <= messages@.len(),
                metadata.next_message_id >= 1,
                sum == token_sum(messages@.subrange(0, i as int)),
                ids_increasing(messages@.subrange(0, i as int)),
                forall|j: int| 0 <= j < i ==> 1 <= #[trigger] messages@[j].id < metadata.next_message_id,
            decreases messages@.len() - i,
        {
            let ghost pre = messages@.subrange(0, i as int);
            let ghost now = messages@.subrange(0, i + 1);
            assert(now.drop_last() =~= pre);
            let m = &messages[i];
            if m.id == 0 || m.id >= metadata.next_message_id {
                return Err(SessionError::Inconsistent);
            }
            if i > 0 && messages[i - 1].id >= m.id {
                assert(!ids_increasing(messages@)) by {
                    assert(messages@[i - 1].id >= messages@[i as int].id);
                }
                return Err(SessionError::Inconsistent);
            }
            let t: u64 = match m.tokens {
                Some(t) => t as u64,
                None => 0,
            };
            if sum > u64::MAX - t {
                proof {
                    let rest = messages@.subrange(i + 1, messages@.len() as int);
                    assert(messages@ =~= now + rest);
                    lemma_token_sum_concat(now, rest);
                }
                return Err(SessionError::Inconsistent);
            }
            sum = sum + t;
            proof {
                assert forall|a: int, b: int| 0 <= a < b < now.len() implies #[trigger] now[a].id < #[trigger] now[b].id by {
                    if b < i {
                        assert(pre[a].id < pre[b].id);
                    } else if a < i - 1 {
                        assert(pre[a].id < pre[i - 1].id);
                    }
                }
            }
            i += 1;
        }
        assert(messages@.subrange(0, messages@.len() as int) =~= messages@);
        if sum != metadata.total_tokens {
            return Err(SessionError::Inconsistent);
        }
        Ok(Session { metadata, messages })
    }
}

/// The largest id among the messages, or 0 when there are none.
pub open spec fn max_id(ms: Seq<ChatMessage>) -> nat
    decreases ms.len(),
{
    if ms.len() == 0 {
        0
    } else if ms.last().id > max_id(ms.drop_last()) {
        ms.last().id as nat
    } else {
        max_id(ms.drop_last())
    }
}

/// Metadata read from a record written before the id counter was stored,
/// where it reads as 0: the counter becomes one past the largest id of the
/// transcript. Metadata with a counter, or where no counter fits, is
/// returned as it is.
pub fn with_id_counter(metadata: SessionMetadata, messages: &Vec<ChatMessage>) -> (r: SessionMetadata)
    ensures
        metadata.next_message_id != 0 || max_id(messages@) >= usize::MAX ==> r == metadata,
        metadata.next_message_id == 0 && max_id(messages@) < usize::MAX ==> r == (SessionMetadata {
            next_message_id: (max_id(messages@) + 1) as usize,
            ..metadata
        }),
{
    if metadata.next_message_id != 0 {
        return metadata;
    }
    let mut top: usize = 0;
    let mut i: usize = 0;
    while i < messages.len()
        invariant
            i <= messages@.len(),
            top == max_id(messages@.subrange(0, i as int)),
        decreases messages@.len() - i,
    {
        assert(messages@.subrange(0, i + 1).drop_last() =~= messages@.subrange(0, i as int));
        if messages[i].id > top {
            top = messages[i].id;
        }
        i += 1;
    }
    assert(messages@.subrange(0, messages@.len() as int) =~= messages@);
    if top == usize::MAX {
        return metadata;
    }
    SessionMetadata { next_message_id: top + 1, ..metadata }
}

/// Storing a well-formed session and reading the stored parts back gives the
/// same metadata and the same ordered transcript, and the counters recomputed
/// from that transcript equal the stored ones.
pub proof fn lemma_store_round_trip(s: Session)
    requires
        s.wf(),
    ensures
        restored(s.metadata, s.messages@) == Some((s.metadata, s.messages@)),
        s.metadata.message_count == s.messages@.len(),
        s.metadata.total_tokens == token_sum(s.messages@),
{
}

/// Deleting one message leaves every other id resolving to the same message
/// as before, and the next message added gets an id that no earlier message
/// ever had.
pub proof fn lemma_delete_keeps_ids(md: SessionMetadata, ms: Seq<ChatMessage>, i: int, other: nat)
    requires
        session_wf(md, ms),
        0 <= i < ms.len(),
        other != ms[i].id,
    ensures
        find_id(ms.remove(i), other) == find_id(ms, other),
        forall|j: int| 0 <= j < ms.len() ==> #[trigger] ms[j].id < md.next_message_id,
{
    let r = ms.remove(i);
    assert(ids_increasing(r)) by {
        assert forall|a: int, b: int| 0 <= a < b < r.len() implies #[trigger] r[a].id < #[trigger] r[b].id by {
            let a0 = if a < i { a } else { a + 1 };
            let b0 = if b < i { b } else { b + 1 };
            assert(ms[a0].id < ms[b0].id);
        }
    }
    lemma_find_id(ms, other);
    lemma_find_id(r, other);
    if has_id(ms, other) {
        let j = choose|j: int| 0 <= j < ms.len() && #[trigger] ms[j].id == other;
        let j2 = if j < i { j } else { j - 1 };
        assert(r[j2] == ms[j]);
    } else {
        assert(!has_id(r, other)) by {
            if has_id(r, other) {
                let j = choose|j: int| 0 <= j < r.len() && #[trigger] r[j].id == other;
                let j0 = if j < i { j } else { j + 1 };
                assert(ms[j0].id == other);
            }
        }
    }
}

/// The directory that holds a session's two records: `<base>/<id>`.
pub fn session_dir(base_dir: &str, session_id: &str) -> (r: String)
    ensures
        r@ == base_dir@ + seq!['/'] + session_id@,
{
    let mut d = String::from_str(base_dir);
    push_char(&mut d, '/');
    d.append(session_id);
    d
}

impl Session {
    /// The file holding the session's metadata record.
    pub fn metadata_path(&self, base_dir: &str) -> (r: String)
        ensures
            r@ == base_dir@ + seq!['/'] + self.metadata.id@ + "/metadata.json"@,
    {
        let mut d = session_dir(base_dir, self.metadata.id.as_str());
        d.append("/metadata.json");
        d
    }

    /// The file holding the session's ordered messages.
    pub fn messages_path(&self, base_dir: &str) -> (r: String)
        ensures
            r@ == base_dir@ + seq!['/'] + self.metadata.id@ + "/messages.json"@,
    {
        let mut d = session_dir(base_dir, self.metadata.id.as_str());
        d.append("/messages.json");
        d
    }
}

/// Stored sessions newest first: last-modified times never increase.
pub open spec fn newest_first(v: Seq<SessionMetadata>) -> bool {
    forall|i: int, j: int| 0 <= i < j < v.len() ==> #[trigger] v[i].last_modified >= #[trigger] v[j].last_modified
}

/// Orders stored sessions by last-modified time, newest first.
pub fn sort_newest_first(v: Vec<SessionMetadata>) -> (r: Vec<SessionMetadata>)
    ensures
        newest_first(r@),
        r@.to_multiset() == v@.to_multiset(),
{
    broadcast use vstd::seq_lib::group_to_multiset_ensures;

    let mut out: Vec<SessionMetadata> = Vec::new();
    let mut rest = v;
    let ghost orig = rest@;
    assert(out@.to_multiset().add(rest@.to_multiset()) =~= orig.to_multiset());
    while rest.len() > 0
        invariant
            newest_first(out@),
            out@.to_multiset().add(rest@.to_multiset()) == orig.to_multiset(),
        decreases rest@.len(),
    {
        let ghost before_rest = rest@;
        let x = rest.pop().unwrap();
        proof {
            vstd::seq_lib::to_multiset_build(rest@, x);
            assert(before_rest =~= rest@.push(x));
        }
        let mut p: usize = 0;
        while p < out.len() && out[p].last_modified >= x.last_modified
            invariant
                p <= out@.len(),
                forall|j: int| 0 <= j < p ==> #[trigger] out@[j].last_modified >= x.last_modified,
            decreases out@.len() - p,
        {
            p += 1;
        }
        let ghost before = out@;
        out.insert(p, x);
        proof {
            vstd::seq_lib::to_multiset_insert(before, p as int, x);
            let t = out@;
            assert forall|i: int, j: int| 0 <= i < j < t.len() implies #[trigger] t[i].last_modified >= #[trigger] t[j].last_modified by {
                if j == p {
                    assert(t[i] == before[i]);
                } else if i == p {
                    assert(t[j] == before[j - 1]);
                    assert(before[p as int].last_modified < x.last_modified);
                    if j - 1 > p {
                        assert(before[p as int].last_modified >= before[j - 1].last_modified);
                    }
                } else {
                    let i0 = if i < p { i } else { i - 1 };
                    let j0 = if j < p { j } else { j - 1 };
                    assert(t[i] == before[i0] && t[j] == before[j0]);
                }
            }
        }
    }
    assert(rest@.to_multiset() =~= vstd::multiset::Multiset::<SessionMetadata>::empty());
    out
}

} // verus!
