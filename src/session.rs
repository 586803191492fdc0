//! The session log: sessions and their turns, with dense per-session
//! sequence numbers and a message count kept equal to the number of turns.
use vstd::prelude::*;
use crate::order::{key_le, key_order, lemma_key_order_total, text_le, ListKey};
use crate::text::{append, owned, same_text};
use vstd::relations::sorted_by;

verus! {

/// A session header.
#[derive(Debug, Clone, PartialEq, Eq)]
pub struct SessionSummary {
    pub id: String,
    pub title: String,
    pub provider: String,
    pub model: String,
    pub created_at: String,
    pub updated_at: String,
    pub message_count: i64,
}

/// A session header with all its turns in ascending sequence order.
#[derive(Debug, Clone, PartialEq, Eq)]
pub struct SessionDetail {
    pub id: String,
    pub title: String,
    pub provider: String,
    pub model: String,
    pub created_at: String,
    pub updated_at: String,
    pub message_count: i64,
    pub messages: Vec<SessionMessage>,
}

/// One stored turn.
#[derive(Debug, Clone, PartialEq, Eq)]
pub struct SessionMessage {
    pub id: String,
    pub session_id: String,
    pub role: String,
    pub content: String,
    pub tool_name: Option<String>,
    pub tool_args: Option<String>,
    pub tool_success: Option<bool>,
    pub timestamp: String,
    pub sequence: i64,
}

/// Why a store operation failed.
#[derive(Debug, Clone, PartialEq, Eq)]
pub enum StoreError {
    /// No session has this id.
    SessionNotFound { id: String },
    /// A fresh id collided with a stored one.
    DuplicateId { id: String },
    /// The system clock could not be read as a UTC time.
    ClockUnavailable,
    /// The operating system's random source failed.
    RandomUnavailable,
}

pub open spec fn store_error_message(e: StoreError) -> Seq<char> {
    match e {
        StoreError::SessionNotFound { id } => "Session not found: "@ + id@,
        StoreError::DuplicateId { id } => "Duplicate id: "@ + id@,
        StoreError::ClockUnavailable => "System clock unavailable"@,
        StoreError::RandomUnavailable => "Random source unavailable"@,
    }
}

impl StoreError {
    /// The error as text, as the host command surface reports it.
    pub fn message(&self) -> (r: String)
        ensures
            r@ == store_error_message(*self),
    {
        match self {
            StoreError::SessionNotFound { id } => {
                let mut m = owned("Session not found: ");
                append(&mut m, id.as_str());
                m
            },
            StoreError::DuplicateId { id } => {
                let mut m = owned("Duplicate id: ");
                append(&mut m, id.as_str());
                m
            },
            StoreError::ClockUnavailable => owned("System clock unavailable"),
            StoreError::RandomUnavailable => owned("Random source unavailable"),
        }
    }
}

/// The number of turns of session `sid` in `ms`.
pub open spec fn count_for(ms: Seq<SessionMessage>, sid: Seq<char>) -> nat
    decreases ms.len(),
{
    if ms.len() == 0 {
        0
    } else {
        count_for(ms.drop_last(), sid) + if ms.last().session_id@ == sid { 1nat } else { 0nat }
    }
}

/// The turns of session `sid` in `ms`, in order.
pub open spec fn turns_of(ms: Seq<SessionMessage>, sid: Seq<char>) -> Seq<SessionMessage>
    decreases ms.len(),
{
    if ms.len() == 0 {
        Seq::empty()
    } else if ms.last().session_id@ == sid {
        turns_of(ms.drop_last(), sid).push(ms.last())
    } else {
        turns_of(ms.drop_last(), sid)
    }
}

/// The turns of `ms` that do not belong to session `sid`, in order.
pub open spec fn turns_without(ms: Seq<SessionMessage>, sid: Seq<char>) -> Seq<SessionMessage>
    decreases ms.len(),
{
    if ms.len() == 0 {
        Seq::empty()
    } else if ms.last().session_id@ == sid {
        turns_without(ms.drop_last(), sid)
    } else {
        turns_without(ms.drop_last(), sid).push(ms.last())
    }
}

/// The sessions of `ss` other than `sid`, in order.
pub open spec fn sessions_without(ss: Seq<SessionSummary>, sid: Seq<char>) -> Seq<SessionSummary>
    decreases ss.len(),
{
    if ss.len() == 0 {
        Seq::empty()
    } else if ss.last().id@ == sid {
        sessions_without(ss.drop_last(), sid)
    } else {
        sessions_without(ss.drop_last(), sid).push(ss.last())
    }
}

/// Each turn's sequence number is one more than the number of earlier turns
/// of its session.
pub open spec fn dense_sequences(ms: Seq<SessionMessage>) -> bool {
    forall|m: int|
        0 <= m < ms.len() ==> (#[trigger] ms[m]).sequence == 1 + count_for(
            ms.subrange(0, m),
            ms[m].session_id@,
        )
}

pub open spec fn has_session(ss: Seq<SessionSummary>, sid: Seq<char>) -> bool {
    exists|j: int| 0 <= j < ss.len() && (#[trigger] ss[j]).id@ == sid
}

pub open spec fn unique_ids(ss: Seq<SessionSummary>) -> bool {
    forall|i: int, j: int|
        0 <= i < ss.len() && 0 <= j < ss.len() && i != j ==> (#[trigger] ss[i]).id@ != (
        #[trigger] ss[j]).id@
}

pub proof fn lemma_count_le(ms: Seq<SessionMessage>, sid: Seq<char>)
    ensures
        count_for(ms, sid) <= ms.len(),
        turns_of(ms, sid).len() == count_for(ms, sid),
    decreases ms.len(),
{
    if ms.len() > 0 {
        lemma_count_le(ms.drop_last(), sid);
    }
}

/// Turns of other sessions are counted alike with or without session `sid`.
pub proof fn lemma_count_without(ms: Seq<SessionMessage>, sid: Seq<char>, other: Seq<char>)
    requires
        other != sid,
    ensures
        count_for(turns_without(ms, sid), other) == count_for(ms, other),
    decreases ms.len(),
{
    if ms.len() > 0 {
        lemma_count_without(ms.drop_last(), sid, other);
        let w = turns_without(ms.drop_last(), sid);
        assert(w.push(ms.last()).drop_last() =~= w);
    }
}

/// In a log with dense sequences, the turns of one session are numbered
/// 1, 2, ... in order.
pub proof fn lemma_turns_numbered(ms: Seq<SessionMessage>, sid: Seq<char>)
    requires
        dense_sequences(ms),
    ensures
        forall|k: int|
            0 <= k < turns_of(ms, sid).len() ==> (#[trigger] turns_of(ms, sid)[k]).sequence == k
                + 1,
    decreases ms.len(),
{
    if ms.len() > 0 {
        let p = ms.drop_last();
        assert forall|m: int| 0 <= m < p.len() implies (#[trigger] p[m]).sequence == 1
            + count_for(p.subrange(0, m), p[m].session_id@) by {
            assert(p.subrange(0, m) =~= ms.subrange(0, m));
            assert(ms[m] == p[m]);
        }
        lemma_turns_numbered(p, sid);
        lemma_count_le(p, sid);
        let n = ms.len() - 1;
        assert(ms.subrange(0, n) =~= p);
        assert(ms[n].sequence == 1 + count_for(p, ms[n].session_id@));
    }
}

/// What a new session header holds.
pub open spec fn new_header(
    s: SessionSummary,
    id: Seq<char>,
    now: Seq<char>,
    provider: Seq<char>,
    model: Seq<char>,
) -> bool {
    &&& s.id@ == id
    &&& s.title@ == "New Session"@
    &&& s.provider@ == provider
    &&& s.model@ == model
    &&& s.created_at@ == now
    &&& s.updated_at@ == now
    &&& s.message_count == 0
}

pub open spec fn opt_str_view(o: Option<&str>) -> Option<Seq<char>> {
    match o {
        Some(s) => Some(s@),
        None => None,
    }
}

pub open spec fn opt_string_view(o: Option<String>) -> Option<Seq<char>> {
    match o {
        Some(s) => Some(s@),
        None => None,
    }
}

/// What a newly stored turn holds.
pub open spec fn new_turn(
    m: SessionMessage,
    id: Seq<char>,
    sid: Seq<char>,
    role: Seq<char>,
    content: Seq<char>,
    tool_name: Option<Seq<char>>,
    tool_args: Option<Seq<char>>,
    tool_success: Option<bool>,
    now: Seq<char>,
    sequence: int,
) -> bool {
    &&& m.id@ == id
    &&& m.session_id@ == sid
    &&& m.role@ == role
    &&& m.content@ == content
    &&& opt_string_view(m.tool_name) == tool_name
    &&& opt_string_view(m.tool_args) == tool_args
    &&& m.tool_success == tool_success
    &&& m.timestamp@ == now
    &&& m.sequence == sequence
}

/// Relies on `getrandom::fill`: fills the buffer from the operating
/// system's random source, or fails.
#[verifier::external_body]
fn random_bytes() -> (r: Option<[u8; 16]>) {
    let mut b = [0u8; 16];
    getrandom::fill(&mut b).ok()?;
    Some(b)
}

/// Relies on `uuid::Builder::from_random_bytes` and the hyphenated text form
/// of a UUID: a version-4 identifier made from the given bytes.
#[verifier::external_body]
fn uuid_text(bytes: [u8; 16]) -> (r: String) {
    uuid::Builder::from_random_bytes(bytes).into_uuid().to_string()
}

/// Relies on `SystemTime::duration_since(UNIX_EPOCH)` on `SystemTime::now`:
/// the whole seconds and nanoseconds since the epoch, `None` when the clock
/// reads before it.
#[verifier::external_body]
fn unix_time() -> (r: Option<(i64, u32)>) {
    let d = std::time::SystemTime::now().duration_since(std::time::UNIX_EPOCH).ok()?;
    Some((i64::try_from(d.as_secs()).ok()?, d.subsec_nanos()))
}

/// Relies on `chrono::DateTime::from_timestamp` and `DateTime::to_rfc3339`:
/// the UTC time as RFC 3339 text, `None` outside chrono's range.
#[verifier::external_body]
fn rfc3339_at(secs: i64, nanos: u32) -> (r: Option<String>) {
    chrono::DateTime::from_timestamp(secs, nanos).map(|d| d.to_rfc3339())
}

/// A fresh random identifier.
fn fresh_id() -> (r: Result<String, StoreError>)
    ensures
        r matches Err(e) ==> e is RandomUnavailable,
{
    match random_bytes() {
        Some(b) => Ok(uuid_text(b)),
        None => Err(StoreError::RandomUnavailable),
    }
}

/// The current UTC time as RFC 3339 text.
fn now_text() -> (r: Result<String, StoreError>)
    ensures
        r matches Err(e) ==> e is ClockUnavailable,
{
    match unix_time() {
        Some((secs, nanos)) => match rfc3339_at(secs, nanos) {
            Some(t) => Ok(t),
            None => Err(StoreError::ClockUnavailable),
        },
        None => Err(StoreError::ClockUnavailable),
    }
}

/// Some stored turn has this id.
pub open spec fn has_turn(ms: Seq<SessionMessage>, id: Seq<char>) -> bool {
    exists|m: int| 0 <= m < ms.len() && (#[trigger] ms[m]).id@ == id
}

/// Sessions and their turns.
pub struct SessionStore {
    sessions: Vec<SessionSummary>,
    messages: Vec<SessionMessage>,
}

impl SessionStore {
    /// Session headers, in order of creation.
    pub closed spec fn sessions_view(&self) -> Seq<SessionSummary> {
        self.sessions@
    }

    /// All turns, in order of insertion.
    pub closed spec fn messages_view(&self) -> Seq<SessionMessage> {
        self.messages@
    }

    /// The store's invariant: session ids are unique, every turn belongs to
    /// a stored session, sequence numbers are dense per session, and each
    /// message count is the number of the session's turns.
    pub open spec fn wf(&self) -> bool {
        let ss = self.sessions_view();
        let ms = self.messages_view();
        &&& unique_ids(ss)
        &&& forall|m: int| 0 <= m < ms.len() ==> has_session(ss, (#[trigger] ms[m]).session_id@)
        &&& dense_sequences(ms)
        &&& forall|j: int|
            0 <= j < ss.len() ==> (#[trigger] ss[j]).message_count == count_for(ms, ss[j].id@)
    }

    /// An empty store.
    pub fn new() -> (r: SessionStore)
        ensures
            r.wf(),
            r.sessions_view().len() == 0,
            r.messages_view().len() == 0,
    {
        SessionStore { sessions: Vec::new(), messages: Vec::new() }
    }

    /// The number of stored turns, over all sessions.
    pub fn turn_count(&self) -> (r: usize)
        ensures
            r == self.messages_view().len(),
    {
        self.messages.len()
    }

    fn find_turn(&self, id: &str) -> (r: bool)
        ensures
            r == has_turn(self.messages@, id@),
    {
        let mut m: usize = 0;
        while m < self.messages.len()
            invariant
                m <= self.messages@.len(),
                forall|i: int| 0 <= i < m ==> (#[trigger] self.messages@[i]).id@ != id@,
            decreases self.messages@.len() - m,
        {
            if same_text(self.messages[m].id.as_str(), id) {
                return true;
            }
            m = m + 1;
        }
        false
    }

    fn find_session(&self, session_id: &str) -> (r: Option<usize>)
        ensures
            match r {
                Some(j) => j < self.sessions@.len() && self.sessions@[j as int].id@
                    == session_id@,
                None => !has_session(self.sessions@, session_id@),
            },
    {
        let mut j: usize = 0;
        while j < self.sessions.len()
            invariant
                j <= self.sessions@.len(),
                forall|i: int| 0 <= i < j ==> (#[trigger] self.sessions@[i]).id@ != session_id@,
            decreases self.sessions@.len() - j,
        {
            if same_text(self.sessions[j].id.as_str(), session_id) {
                return Some(j);
            }
            j = j + 1;
        }
        None
    }

    /// Adds a session with the given id and creation time; fails when the id
    /// is taken.
    pub fn create_session_with(&mut self, id: String, now: String, provider: &str, model: &str) -> (r:
        Result<(), StoreError>)
        requires
            old(self).wf(),
        ensures
            final(self).wf(),
            has_session(old(self).sessions_view(), id@) <==> r is Err,
            r matches Err(e) ==> e matches StoreError::DuplicateId { id: d } && d@ == id@,
            r is Err ==> final(self).sessions_view() == old(self).sessions_view(),
            r is Ok ==> {
                &&& final(self).sessions_view().len() == old(self).sessions_view().len() + 1
                &&& final(self).sessions_view().drop_last() == old(self).sessions_view()
                &&& new_header(final(self).sessions_view().last(), id@, now@, provider@, model@)
            },
            final(self).messages_view() == old(self).messages_view(),
    {
        if self.find_session(id.as_str()).is_some() {
            return Err(StoreError::DuplicateId { id });
        }
        let header = SessionSummary {
            id,
            title: owned("New Session"),
            provider: owned(provider),
            model: owned(model),
            created_at: now.clone(),
            updated_at: now,
            message_count: 0,
        };
        let ghost ss = self.sessions@;
        self.sessions.push(header);
        assert(self.sessions@.drop_last() =~= ss);
        assert forall|m: int| 0 <= m < self.messages@.len() implies has_session(
            self.sessions@,
            (#[trigger] self.messages@[m]).session_id@,
        ) by {
            let j = choose|j: int| 0 <= j < ss.len() && (#[trigger] ss[j]).id@
                == self.messages@[m].session_id@;
            assert(self.sessions@[j] == ss[j]);
        }
        proof {
            assert(count_for(self.messages@, id@) == 0) by {
                lemma_no_turns(self.messages@, ss, id@);
            }
        }
        Ok(())
    }

    /// Creates a session for a provider and model under a fresh id, stamped
    /// with the current time, and returns the id.
    pub fn create_session(&mut self, provider: &str, model: &str) -> (r: Result<String, StoreError>)
        requires
            old(self).wf(),
        ensures
            final(self).wf(),
            final(self).messages_view() == old(self).messages_view(),
            r is Err ==> final(self).sessions_view() == old(self).sessions_view(),
            r matches Err(e) ==> (e matches StoreError::DuplicateId { id } && has_session(
                old(self).sessions_view(),
                id@,
            )) || e is ClockUnavailable || e is RandomUnavailable,
            r matches Ok(id) ==> {
                &&& !has_session(old(self).sessions_view(), id@)
                &&& final(self).sessions_view().len() == old(self).sessions_view().len() + 1
                &&& final(self).sessions_view().drop_last() == old(self).sessions_view()
                &&& new_header(
                    final(self).sessions_view().last(),
                    id@,
                    final(self).sessions_view().last().created_at@,
                    provider@,
                    model@,
                )
            },
    {
        let id = match fresh_id() {
            Ok(id) => id,
            Err(e) => return Err(e),
        };
        let now = match now_text() {
            Ok(t) => t,
            Err(e) => return Err(e),
        };
        let result = self.create_session_with(id.clone(), now, provider, model);
        match result {
            Ok(()) => Ok(id),
            Err(e) => Err(e),
        }
    }
}

impl SessionStore {
    /// Appends a turn to session `session_id` under the given id and time.
    /// Its sequence number is one more than the highest of the session; the
    /// session's message count grows by one and its update time becomes
    /// `now`. Fails when the session does not exist.
    pub fn add_message_with(
        &mut self,
        session_id: &str,
        role: &str,
        content: &str,
        tool_name: Option<&str>,
        tool_args: Option<&str>,
        tool_success: Option<bool>,
        msg_id: String,
        now: String,
    ) -> (r: Result<(), StoreError>)
        requires
            old(self).wf(),
            old(self).messages_view().len() < i64::MAX,
        ensures
            final(self).wf(),
            (has_session(old(self).sessions_view(), session_id@) && !has_turn(
                old(self).messages_view(),
                msg_id@,
            )) <==> r is Ok,
            !has_session(old(self).sessions_view(), session_id@) ==> (r matches Err(e)
                && e matches StoreError::SessionNotFound { id } && id@ == session_id@),
            has_session(old(self).sessions_view(), session_id@) ==> (r matches Err(e)
                ==> (e matches StoreError::DuplicateId { id } && id@ == msg_id@)),
            r is Err ==> final(self).sessions_view() == old(self).sessions_view()
                && final(self).messages_view() == old(self).messages_view(),
            r is Ok ==> {
                let ms = old(self).messages_view();
                &&& final(self).messages_view().drop_last() == ms
                &&& final(self).messages_view().len() == ms.len() + 1
                &&& new_turn(
                    final(self).messages_view().last(),
                    msg_id@,
                    session_id@,
                    role@,
                    content@,
                    opt_str_view(tool_name),
                    opt_str_view(tool_args),
                    tool_success,
                    now@,
                    1 + count_for(ms, session_id@) as int,
                )
                &&& final(self).sessions_view().len() == old(self).sessions_view().len()
                &&& forall|j: int|
                    0 <= j < old(self).sessions_view().len() ==> {
                        let o = #[trigger] old(self).sessions_view()[j];
                        let n = final(self).sessions_view()[j];
                        &&& n.id@ == o.id@
                        &&& n.title@ == o.title@
                        &&& n.provider@ == o.provider@
                        &&& n.model@ == o.model@
                        &&& n.created_at@ == o.created_at@
                        &&& o.id@ == session_id@ ==> n.updated_at@ == now@ && n.message_count
                            == o.message_count + 1
                        &&& o.id@ != session_id@ ==> n.updated_at@ == o.updated_at@
                            && n.message_count == o.message_count
                    }
            },
    {
        let j = match self.find_session(session_id) {
            Some(j) => j,
            None => {
                return Err(StoreError::SessionNotFound { id: owned(session_id) });
            },
        };
        if self.find_turn(msg_id.as_str()) {
            return Err(StoreError::DuplicateId { id: msg_id });
        }
        let ghost ss = self.sessions@;
        let ghost ms = self.messages@;
        let sid = owned(session_id);
        // The highest sequence number of the session so far.
        let mut top: i64 = 0;
        let mut k: usize = 0;
        while k < self.messages.len()
            invariant
                ms == self.messages@,
                ms.len() < i64::MAX,
                dense_sequences(ms),
                k <= ms.len(),
                top == count_for(ms.subrange(0, k as int), session_id@),
            decreases ms.len() - k,
        {
            assert(ms.subrange(0, k + 1).drop_last() =~= ms.subrange(0, k as int));
            proof {
                lemma_count_le(ms.subrange(0, k as int), session_id@);
            }
            if same_text(self.messages[k].session_id.as_str(), session_id) {
                assert(ms[k as int].sequence == 1 + count_for(
                    ms.subrange(0, k as int),
                    ms[k as int].session_id@,
                ));
                if self.messages[k].sequence > top {
                    top = self.messages[k].sequence;
                }
            }
            k = k + 1;
        }
        assert(ms.subrange(0, k as int) =~= ms);
        proof {
            lemma_count_le(ms, session_id@);
        }
        let sequence = top + 1;
        let turn = SessionMessage {
            id: msg_id,
            session_id: sid,
            role: owned(role),
            content: owned(content),
            tool_name: match tool_name {
                Some(t) => Some(owned(t)),
                None => None,
            },
            tool_args: match tool_args {
                Some(t) => Some(owned(t)),
                None => None,
            },
            tool_success,
            timestamp: now.clone(),
            sequence,
        };
        self.messages.push(turn);
        let ghost ms2 = self.messages@;
        assert(ms2.drop_last() =~= ms);
        assert(ms2.subrange(0, ms.len() as int) =~= ms);
        let count = self.sessions[j].message_count;
        assert(count == count_for(ms, session_id@));
        self.sessions[j].message_count = count + 1;
        self.sessions[j].updated_at = now;
        assert forall|m: int| 0 <= m < ms2.len() implies (#[trigger] ms2[m]).sequence == 1
            + count_for(ms2.subrange(0, m), ms2[m].session_id@) by {
            if m < ms.len() {
                assert(ms2.subrange(0, m) =~= ms.subrange(0, m));
                assert(ms2[m] == ms[m]);
            }
        }
        assert forall|m: int| 0 <= m < ms2.len() implies has_session(
            self.sessions@,
            (#[trigger] ms2[m]).session_id@,
        ) by {
            if m < ms.len() {
                assert(ms2[m] == ms[m]);
                let i = choose|i: int| 0 <= i < ss.len() && (#[trigger] ss[i]).id@
                    == ms[m].session_id@;
                assert(self.sessions@[i].id@ == ss[i].id@);
            } else {
                assert(self.sessions@[j as int].id@ == session_id@);
            }
        }
        assert forall|i: int| 0 <= i < self.sessions@.len() implies (
        #[trigger] self.sessions@[i]).message_count == count_for(ms2, self.sessions@[i].id@) by {
            assert(self.sessions@[i].id@ == ss[i].id@);
            if i != j {
                assert(ss[i].id@ != ss[j as int].id@);
            }
        }
        assert(unique_ids(self.sessions@)) by {
            assert forall|a: int, b: int|
                0 <= a < self.sessions@.len() && 0 <= b < self.sessions@.len() && a
                    != b implies (#[trigger] self.sessions@[a]).id@ != (
            #[trigger] self.sessions@[b]).id@ by {
                assert(self.sessions@[a].id@ == ss[a].id@);
                assert(self.sessions@[b].id@ == ss[b].id@);
            }
        }
        Ok(())
    }

    /// Appends a turn to a session under a fresh id, stamped with the
    /// current time, and returns the turn's id.
    pub fn add_message(
        &mut self,
        session_id: &str,
        role: &str,
        content: &str,
        tool_name: Option<&str>,
        tool_args: Option<&str>,
        tool_success: Option<bool>,
    ) -> (r: Result<String, StoreError>)
        requires
            old(self).wf(),
            old(self).messages_view().len() < i64::MAX,
        ensures
            final(self).wf(),
            !has_session(old(self).sessions_view(), session_id@) ==> (r matches Err(e)
                && e matches StoreError::SessionNotFound { id } && id@ == session_id@),
            r matches Err(e) ==> e is SessionNotFound || e is DuplicateId || e is ClockUnavailable
                || e is RandomUnavailable,
            r is Err ==> final(self).sessions_view() == old(self).sessions_view()
                && final(self).messages_view() == old(self).messages_view(),
            r matches Ok(id) ==> {
                let ms = old(self).messages_view();
                let now = final(self).messages_view().last().timestamp@;
                &&& has_session(old(self).sessions_view(), session_id@)
                &&& !has_turn(ms, id@)
                &&& final(self).messages_view().drop_last() == ms
                &&& final(self).messages_view().len() == ms.len() + 1
                &&& new_turn(
                    final(self).messages_view().last(),
                    id@,
                    session_id@,
                    role@,
                    content@,
                    opt_str_view(tool_name),
                    opt_str_view(tool_args),
                    tool_success,
                    now,
                    1 + count_for(ms, session_id@) as int,
                )
                &&& final(self).sessions_view().len() == old(self).sessions_view().len()
                &&& forall|j: int|
                    0 <= j < old(self).sessions_view().len() ==> {
                        let o = #[trigger] old(self).sessions_view()[j];
                        let n = final(self).sessions_view()[j];
                        &&& n.id@ == o.id@
                        &&& n.title@ == o.title@
                        &&& n.provider@ == o.provider@
                        &&& n.model@ == o.model@
                        &&& n.created_at@ == o.created_at@
                        &&& o.id@ == session_id@ ==> n.updated_at@ == now && n.message_count
                            == o.message_count + 1
                        &&& o.id@ != session_id@ ==> n.updated_at@ == o.updated_at@
                            && n.message_count == o.message_count
                    }
            },
    {
        if self.find_session(session_id).is_none() {
            return Err(StoreError::SessionNotFound { id: owned(session_id) });
        }
        let msg_id = match fresh_id() {
            Ok(id) => id,
            Err(e) => return Err(e),
        };
        let now = match now_text() {
            Ok(t) => t,
            Err(e) => return Err(e),
        };
        match self.add_message_with(
            session_id,
            role,
            content,
            tool_name,
            tool_args,
            tool_success,
            msg_id.clone(),
            now,
        ) {
            Ok(()) => Ok(msg_id),
            Err(e) => Err(e),
        }
    }

    /// The session's header and all its turns in ascending sequence order.
    pub fn get_session(&self, session_id: &str) -> (r: Result<SessionDetail, StoreError>)
        requires
            self.wf(),
        ensures
            has_session(self.sessions_view(), session_id@) <==> r is Ok,
            r matches Err(e) ==> e matches StoreError::SessionNotFound { id } && id@
                == session_id@,
            r matches Ok(d) ==> {
                let turns = turns_of(self.messages_view(), session_id@);
                &&& exists|j: int|
                    0 <= j < self.sessions_view().len() && {
                        let s = #[trigger] self.sessions_view()[j];
                        &&& s.id@ == session_id@
                        &&& d.id@ == s.id@
                        &&& d.title@ == s.title@
                        &&& d.provider@ == s.provider@
                        &&& d.model@ == s.model@
                        &&& d.created_at@ == s.created_at@
                        &&& d.updated_at@ == s.updated_at@
                        &&& d.message_count == s.message_count
                    }
                &&& d.messages@.len() == turns.len()
                &&& forall|k: int|
                    0 <= k < turns.len() ==> same_turn(#[trigger] d.messages@[k], turns[k])
            },
    {
        let j = match self.find_session(session_id) {
            Some(j) => j,
            None => {
                return Err(StoreError::SessionNotFound { id: owned(session_id) });
            },
        };
        let ghost ms = self.messages@;
        let mut out: Vec<SessionMessage> = Vec::new();
        let mut k: usize = 0;
        while k < self.messages.len()
            invariant
                ms == self.messages@,
                k <= ms.len(),
                out@.len() == turns_of(ms.subrange(0, k as int), session_id@).len(),
                forall|i: int|
                    0 <= i < out@.len() ==> same_turn(
                        #[trigger] out@[i],
                        turns_of(ms.subrange(0, k as int), session_id@)[i],
                    ),
            decreases ms.len() - k,
        {
            assert(ms.subrange(0, k + 1).drop_last() =~= ms.subrange(0, k as int));
            let m = &self.messages[k];
            if same_text(m.session_id.as_str(), session_id) {
                out.push(copy_turn(m));
            }
            k = k + 1;
        }
        assert(ms.subrange(0, k as int) =~= ms);
        let s = &self.sessions[j];
        Ok(
            SessionDetail {
                id: s.id.clone(),
                title: s.title.clone(),
                provider: s.provider.clone(),
                model: s.model.clone(),
                created_at: s.created_at.clone(),
                updated_at: s.updated_at.clone(),
                message_count: s.message_count,
                messages: out,
            },
        )
    }

    /// Removes the session's turns, then the session. Deleting a session
    /// that does not exist changes nothing.
    pub fn delete_session(&mut self, session_id: &str)
        requires
            old(self).wf(),
        ensures
            final(self).wf(),
            final(self).messages_view() == turns_without(old(self).messages_view(), session_id@),
            final(self).sessions_view() == sessions_without(
                old(self).sessions_view(),
                session_id@,
            ),
            count_for(final(self).messages_view(), session_id@) == 0,
            !has_session(final(self).sessions_view(), session_id@),
    {
        let ghost ms = self.messages@;
        let ghost ss = self.sessions@;
        let mut kept: Vec<SessionMessage> = Vec::new();
        let mut k: usize = 0;
        while k < self.messages.len()
            invariant
                ms == self.messages@,
                k <= ms.len(),
                kept@ == turns_without(ms.subrange(0, k as int), session_id@),
                dense_sequences(ms),
                dense_sequences(kept@),
            decreases ms.len() - k,
        {
            let ghost pre = ms.subrange(0, k as int);
            assert(ms.subrange(0, k + 1).drop_last() =~= pre);
            let ghost before = kept@;
            if !same_text(self.messages[k].session_id.as_str(), session_id) {
                let m = copy_turn(&self.messages[k]);
                proof {
                    lemma_count_without(pre, session_id@, ms[k as int].session_id@);
                }
                kept.push(m);
                assert(kept@.subrange(0, before.len() as int) =~= before);
                assert forall|i: int| 0 <= i < kept@.len() implies (#[trigger] kept@[i]).sequence
                    == 1 + count_for(kept@.subrange(0, i), kept@[i].session_id@) by {
                    if i < before.len() {
                        assert(kept@.subrange(0, i) =~= before.subrange(0, i));
                    }
                }
            }
            k = k + 1;
        }
        assert(ms.subrange(0, k as int) =~= ms);
        let mut rest: Vec<SessionSummary> = Vec::new();
        let mut j: usize = 0;
        while j < self.sessions.len()
            invariant
                ss == self.sessions@,
                j <= ss.len(),
                rest@ == sessions_without(ss.subrange(0, j as int), session_id@),
            decreases ss.len() - j,
        {
            assert(ss.subrange(0, j + 1).drop_last() =~= ss.subrange(0, j as int));
            if !same_text(self.sessions[j].id.as_str(), session_id) {
                rest.push(copy_header(&self.sessions[j]));
            }
            j = j + 1;
        }
        assert(ss.subrange(0, j as int) =~= ss);
        self.messages = kept;
        self.sessions = rest;
        proof {
            lemma_sessions_without(ss, ms, session_id@);
        }
    }

    /// Overwrites the title of the session, if it exists.
    pub fn update_title(&mut self, session_id: &str, title: &str)
        requires
            old(self).wf(),
        ensures
            final(self).wf(),
            final(self).messages_view() == old(self).messages_view(),
            final(self).sessions_view().len() == old(self).sessions_view().len(),
            forall|j: int|
                0 <= j < old(self).sessions_view().len() ==> {
                    let o = #[trigger] old(self).sessions_view()[j];
                    let n = final(self).sessions_view()[j];
                    &&& n.id@ == o.id@
                    &&& n.provider@ == o.provider@
                    &&& n.model@ == o.model@
                    &&& n.created_at@ == o.created_at@
                    &&& n.updated_at@ == o.updated_at@
                    &&& n.message_count == o.message_count
                    &&& n.title@ == if o.id@ == session_id@ {
                        title@
                    } else {
                        o.title@
                    }
                },
    {
        if let Some(j) = self.find_session(session_id) {
            let ghost ss = self.sessions@;
            self.sessions[j].title = owned(title);
            assert forall|m: int| 0 <= m < self.messages@.len() implies has_session(
                self.sessions@,
                (#[trigger] self.messages@[m]).session_id@,
            ) by {
                let i = choose|i: int| 0 <= i < ss.len() && (#[trigger] ss[i]).id@
                    == self.messages@[m].session_id@;
                assert(self.sessions@[i].id@ == ss[i].id@);
            }
            assert(unique_ids(self.sessions@)) by {
                assert forall|a: int, b: int|
                    0 <= a < self.sessions@.len() && 0 <= b < self.sessions@.len() && a
                        != b implies (#[trigger] self.sessions@[a]).id@ != (
                #[trigger] self.sessions@[b]).id@ by {
                    assert(self.sessions@[a].id@ == ss[a].id@);
                    assert(self.sessions@[b].id@ == ss[b].id@);
                }
            }
            assert forall|i: int| 0 <= i < self.sessions@.len() implies (
            #[trigger] self.sessions@[i]).message_count == count_for(
                self.messages@,
                self.sessions@[i].id@,
            ) by {
                assert(self.sessions@[i].id@ == ss[i].id@);
            }
        }
    }
}

/// Two turns with the same values.
pub open spec fn same_turn(a: SessionMessage, b: SessionMessage) -> bool {
    &&& a.id@ == b.id@
    &&& a.session_id@ == b.session_id@
    &&& a.role@ == b.role@
    &&& a.content@ == b.content@
    &&& opt_string_view(a.tool_name) == opt_string_view(b.tool_name)
    &&& opt_string_view(a.tool_args) == opt_string_view(b.tool_args)
    &&& a.tool_success == b.tool_success
    &&& a.timestamp@ == b.timestamp@
    &&& a.sequence == b.sequence
}

fn copy_opt(o: &Option<String>) -> (r: Option<String>)
    ensures
        r == *o,
{
    match o {
        Some(s) => Some(s.clone()),
        None => None,
    }
}

fn copy_turn(m: &SessionMessage) -> (r: SessionMessage)
    ensures
        r == *m,
{
    SessionMessage {
        id: m.id.clone(),
        session_id: m.session_id.clone(),
        role: m.role.clone(),
        content: m.content.clone(),
        tool_name: copy_opt(&m.tool_name),
        tool_args: copy_opt(&m.tool_args),
        tool_success: m.tool_success,
        timestamp: m.timestamp.clone(),
        sequence: m.sequence,
    }
}

fn copy_header(s: &SessionSummary) -> (r: SessionSummary)
    ensures
        r == *s,
{
    SessionSummary {
        id: s.id.clone(),
        title: s.title.clone(),
        provider: s.provider.clone(),
        model: s.model.clone(),
        created_at: s.created_at.clone(),
        updated_at: s.updated_at.clone(),
        message_count: s.message_count,
    }
}

/// Removing a session and its turns keeps the store's invariant.
proof fn lemma_sessions_without(ss: Seq<SessionSummary>, ms: Seq<SessionMessage>, sid: Seq<char>)
    requires
        unique_ids(ss),
        forall|m: int| 0 <= m < ms.len() ==> has_session(ss, (#[trigger] ms[m]).session_id@),
        forall|j: int| 0 <= j < ss.len() ==> (#[trigger] ss[j]).message_count == count_for(
            ms,
            ss[j].id@,
        ),
    ensures
        ({
            let ss2 = sessions_without(ss, sid);
            let ms2 = turns_without(ms, sid);
            &&& unique_ids(ss2)
            &&& !has_session(ss2, sid)
            &&& forall|m: int| 0 <= m < ms2.len() ==> has_session(ss2, (#[trigger] ms2[m]).session_id@)
            &&& forall|j: int|
                0 <= j < ss2.len() ==> (#[trigger] ss2[j]).message_count == count_for(
                    ms2,
                    ss2[j].id@,
                )
            &&& count_for(ms2, sid) == 0
        }),
{
    let ss2 = sessions_without(ss, sid);
    let ms2 = turns_without(ms, sid);
    lemma_sessions_without_members(ss, sid);
    lemma_turns_without_members(ms, sid);
    lemma_count_without_self(ms, sid);
    assert forall|m: int| 0 <= m < ms2.len() implies has_session(
        ss2,
        (#[trigger] ms2[m]).session_id@,
    ) by {
        let i = choose|i: int| 0 <= i < ms.len() && ms2[m] == #[trigger] ms[i];
        assert(ms2[m].session_id@ != sid);
        assert(has_session(ss, ms[i].session_id@));
        let j = choose|j: int| 0 <= j < ss.len() && (#[trigger] ss[j]).id@ == ms[i].session_id@;
        let j2 = choose|j2: int| 0 <= j2 < ss2.len() && #[trigger] ss2[j2] == ss[j];
        assert(ss2[j2].id@ == ms2[m].session_id@);
    }
    assert forall|j2: int| 0 <= j2 < ss2.len() implies (#[trigger] ss2[j2]).message_count
        == count_for(ms2, ss2[j2].id@) by {
        let j = choose|j: int| 0 <= j < ss.len() && ss2[j2] == #[trigger] ss[j];
        lemma_count_without(ms, sid, ss[j].id@);
    }
}

/// The sessions kept by `sessions_without` are the stored sessions of
/// another id, and their ids stay unique.
proof fn lemma_sessions_without_members(ss: Seq<SessionSummary>, sid: Seq<char>)
    ensures
        forall|j2: int|
            #![trigger sessions_without(ss, sid)[j2]]
            0 <= j2 < sessions_without(ss, sid).len() ==> exists|j: int|
                0 <= j < ss.len() && sessions_without(ss, sid)[j2] == #[trigger] ss[j],
        forall|j2: int|
            0 <= j2 < sessions_without(ss, sid).len() ==> (#[trigger] sessions_without(
                ss,
                sid,
            )[j2]).id@ != sid,
        forall|j: int|
            0 <= j < ss.len() && (#[trigger] ss[j]).id@ != sid ==> exists|j2: int|
                0 <= j2 < sessions_without(ss, sid).len() && #[trigger] sessions_without(
                    ss,
                    sid,
                )[j2] == ss[j],
        unique_ids(ss) ==> unique_ids(sessions_without(ss, sid)),
        !has_session(sessions_without(ss, sid), sid),
    decreases ss.len(),
{
    if ss.len() > 0 {
        let p = ss.drop_last();
        let x = ss.last();
        let p2 = sessions_without(p, sid);
        let ss2 = sessions_without(ss, sid);
        lemma_sessions_without_members(p, sid);
        assert forall|j2: int| #![trigger ss2[j2]] 0 <= j2 < ss2.len() implies exists|j: int|
            0 <= j < ss.len() && ss2[j2] == #[trigger] ss[j] by {
            if j2 < p2.len() {
                let j = choose|j: int| 0 <= j < p.len() && p2[j2] == #[trigger] p[j];
                assert(ss[j] == p[j]);
            } else {
                assert(ss[ss.len() - 1] == x);
            }
        }
        assert forall|j: int| 0 <= j < ss.len() && (#[trigger] ss[j]).id@ != sid implies exists|
            j2: int,
        | 0 <= j2 < ss2.len() && #[trigger] ss2[j2] == ss[j] by {
            if j < p.len() {
                assert(p[j] == ss[j]);
                let j2 = choose|j2: int| 0 <= j2 < p2.len() && #[trigger] p2[j2] == p[j];
                assert(ss2[j2] == p2[j2]);
            } else {
                assert(ss2[ss2.len() - 1] == x);
            }
        }
        if unique_ids(ss) {
            assert(unique_ids(p)) by {
                assert forall|a: int, b: int|
                    0 <= a < p.len() && 0 <= b < p.len() && a != b implies (#[trigger] p[a]).id@
                    != (#[trigger] p[b]).id@ by {
                    assert(p[a] == ss[a] && p[b] == ss[b]);
                }
            }
            assert forall|a: int, b: int|
                0 <= a < ss2.len() && 0 <= b < ss2.len() && a != b implies (
            #[trigger] ss2[a]).id@ != (#[trigger] ss2[b]).id@ by {
                if x.id@ != sid {
                    if a < p2.len() && b < p2.len() {
                        assert(ss2[a] == p2[a] && ss2[b] == p2[b]);
                    } else if a < p2.len() {
                        let j = choose|j: int| 0 <= j < p.len() && p2[a] == #[trigger] p[j];
                        assert(ss[j] == p[j]);
                        assert(ss[ss.len() - 1] == x);
                    } else {
                        let j = choose|j: int| 0 <= j < p.len() && p2[b] == #[trigger] p[j];
                        assert(ss[j] == p[j]);
                        assert(ss[ss.len() - 1] == x);
                    }
                }
            }
        }
    }
}

/// The turns kept by `turns_without` are stored turns of other sessions.
proof fn lemma_turns_without_members(ms: Seq<SessionMessage>, sid: Seq<char>)
    ensures
        forall|m2: int|
            #![trigger turns_without(ms, sid)[m2]]
            0 <= m2 < turns_without(ms, sid).len() ==> exists|m: int|
                0 <= m < ms.len() && turns_without(ms, sid)[m2] == #[trigger] ms[m],
        forall|m2: int|
            0 <= m2 < turns_without(ms, sid).len() ==> (#[trigger] turns_without(ms, sid)[
                m2
            ]).session_id@ != sid,
    decreases ms.len(),
{
    if ms.len() > 0 {
        let p = ms.drop_last();
        let p2 = turns_without(p, sid);
        let ms2 = turns_without(ms, sid);
        lemma_turns_without_members(p, sid);
        assert forall|m2: int| #![trigger ms2[m2]] 0 <= m2 < ms2.len() implies exists|m: int|
            0 <= m < ms.len() && ms2[m2] == #[trigger] ms[m] by {
            if m2 < p2.len() {
                let m = choose|m: int| 0 <= m < p.len() && p2[m2] == #[trigger] p[m];
                assert(ms[m] == p[m]);
            } else {
                assert(ms[ms.len() - 1] == ms.last());
            }
        }
        assert forall|m2: int| 0 <= m2 < ms2.len() implies (#[trigger] ms2[m2]).session_id@
            != sid by {
            if m2 < p2.len() {
                assert(ms2[m2] == p2[m2]);
            }
        }
    }
}

proof fn lemma_count_without_self(ms: Seq<SessionMessage>, sid: Seq<char>)
    ensures
        count_for(turns_without(ms, sid), sid) == 0,
    decreases ms.len(),
{
    if ms.len() > 0 {
        lemma_count_without_self(ms.drop_last(), sid);
        let w = turns_without(ms.drop_last(), sid);
        assert(w.push(ms.last()).drop_last() =~= w);
    }
}
/// `s` is one of the headers of `ss`.
pub open spec fn stored(ss: Seq<SessionSummary>, s: SessionSummary) -> bool {
    exists|j: int| 0 <= j < ss.len() && ss[j] == s
}

/// The listing key of a session: update time, then id.
pub open spec fn list_key(s: SessionSummary) -> ListKey {
    (s.updated_at@, s.id@)
}

pub open spec fn keys_of(ss: Seq<SessionSummary>) -> Seq<ListKey> {
    ss.map_values(|s: SessionSummary| list_key(s))
}

/// First position of a page: a negative offset counts as zero.
pub open spec fn page_start(n: int, offset: int) -> int {
    if offset < 0 {
        0
    } else if offset > n {
        n
    } else {
        offset
    }
}

/// End of a page: a negative limit means no limit.
pub open spec fn page_end(n: int, limit: int, offset: int) -> int {
    let st = page_start(n, offset);
    if limit < 0 || st + limit > n {
        n
    } else {
        st + limit
    }
}

fn listed_no_later(a: &SessionSummary, b: &SessionSummary) -> (r: bool)
    ensures
        r == key_le(list_key(*a), list_key(*b)),
{
    if same_text(a.updated_at.as_str(), b.updated_at.as_str()) {
        text_le(a.id.as_str(), b.id.as_str())
    } else {
        text_le(b.updated_at.as_str(), a.updated_at.as_str())
    }
}

impl SessionStore {
    /// One page of session headers, most recently updated first, equal
    /// update times by id: the headers at positions `offset ..
    /// offset + limit` of that order.
    pub fn list_sessions(&self, limit: i64, offset: i64) -> (r: Vec<SessionSummary>)
        requires
            self.wf(),
        ensures
            ({
                let ss = self.sessions_view();
                let sorted = keys_of(ss).sort_by(key_order());
                let st = page_start(ss.len() as int, offset as int);
                let en = page_end(ss.len() as int, limit as int, offset as int);
                &&& keys_of(r@) == sorted.subrange(st, en)
                &&& forall|k: int| 0 <= k < r@.len() ==> stored(ss, #[trigger] r@[k])
            }),
    {
        broadcast use vstd::seq_lib::group_to_multiset_ensures;

        let ghost ss = self.sessions@;
        proof {
            lemma_key_order_total();
        }
        let mut out: Vec<SessionSummary> = Vec::new();
        let mut k: usize = 0;
        assert(keys_of(ss.subrange(0, 0)) =~= keys_of(out@));
        while k < self.sessions.len()
            invariant
                ss == self.sessions@,
                k <= ss.len(),
                vstd::relations::total_ordering(key_order()),
                sorted_by(keys_of(out@), key_order()),
                keys_of(out@).to_multiset() == keys_of(ss.subrange(0, k as int)).to_multiset(),
                forall|q: int| 0 <= q < out@.len() ==> stored(ss, #[trigger] out@[q]),
            decreases ss.len() - k,
        {
            let x = copy_header(&self.sessions[k]);
            let mut p: usize = 0;
            while p < out.len() && listed_no_later(&out[p], &x)
                invariant
                    p <= out@.len(),
                    forall|q: int| 0 <= q < p ==> key_le(list_key(#[trigger] out@[q]), list_key(x)),
                    ss == self.sessions@,
                    k < ss.len(),
                    x == ss[k as int],
                    vstd::relations::total_ordering(key_order()),
                    sorted_by(keys_of(out@), key_order()),
                    keys_of(out@).to_multiset() == keys_of(ss.subrange(0, k as int)).to_multiset(),
                    forall|q: int| 0 <= q < out@.len() ==> stored(ss, #[trigger] out@[q]),
                decreases out@.len() - p,
            {
                p = p + 1;
            }
            let ghost o = out@;
            let ghost ko = keys_of(o);
            let ghost kx = list_key(x);
            proof {
                if p < o.len() {
                    assert(ko[p as int] == list_key(o[p as int]));
                    assert(key_order()(kx, ko[p as int]) || key_order()(ko[p as int], kx));
                    assert(key_order()(kx, ko[p as int]));
                    assert forall|r: int| p <= r < o.len() implies key_le(kx, #[trigger] ko[r]) by {
                        if r > p {
                            assert(key_order()(ko[p as int], ko[r]));
                            assert(key_order()(kx, ko[p as int]) && key_order()(ko[p as int], ko[r]));
                        }
                    }
                }
            }
            out.insert(p, x);
            proof {
                let kn = keys_of(out@);
                assert(kn =~= ko.insert(p as int, kx));
                assert forall|a: int, b: int| 0 <= a < b < kn.len() implies #[trigger] key_order()(
                    kn[a],
                    kn[b],
                ) by {
                    if b < p {
                        assert(key_order()(ko[a], ko[b]));
                    } else if b == p {
                        assert(key_le(list_key(o[a]), kx));
                    } else if a == p {
                        assert(key_le(kx, ko[b - 1]));
                    } else if a < p {
                        assert(key_le(ko[a], kx));
                        assert(key_le(kx, ko[b - 1]));
                        assert(key_order()(ko[a], kx) && key_order()(kx, ko[b - 1]));
                    } else {
                        assert(key_order()(ko[a - 1], ko[b - 1]));
                    }
                }
                vstd::seq_lib::to_multiset_insert(ko, p as int, kx);
                vstd::seq_lib::to_multiset_build(keys_of(ss.subrange(0, k as int)), kx);
                assert(ss.subrange(0, k + 1) =~= ss.subrange(0, k as int).push(ss[k as int]));
                assert(keys_of(ss.subrange(0, k + 1)) =~= keys_of(ss.subrange(0, k as int)).push(
                    kx,
                ));
                assert forall|q: int| 0 <= q < out@.len() implies stored(ss, #[trigger] out@[q]) by {
                    if q < p {
                        assert(out@[q] == o[q]);
                    } else if q == p {
                        assert(out@[q] == ss[k as int]);
                        assert(ss[k as int] == ss[k as int]);
                    } else {
                        assert(out@[q] == o[q - 1]);
                    }
                }
            }
            k = k + 1;
        }
        proof {
            assert(ss.subrange(0, k as int) =~= ss);
            keys_of(ss).lemma_sort_by_ensures(key_order());
            vstd::seq_lib::lemma_sorted_unique(
                keys_of(out@),
                keys_of(ss).sort_by(key_order()),
                key_order(),
            );
            assert(keys_of(out@) == keys_of(ss).sort_by(key_order()));
            vstd::seq_lib::to_multiset_len(keys_of(out@));
            vstd::seq_lib::to_multiset_len(keys_of(ss));
            assert(out@.len() == keys_of(out@).len());
            assert(ss.len() == keys_of(ss).len());
            assert(out@.len() == ss.len());
        }
        let n = out.len();
        let st: usize = if offset < 0 {
            0
        } else if offset as u64 > n as u64 {
            n
        } else {
            offset as usize
        };
        let en: usize = if limit < 0 || limit as u64 > (n - st) as u64 {
            n
        } else {
            st + limit as usize
        };
        assert(st == page_start(ss.len() as int, offset as int));
        assert(en == page_end(ss.len() as int, limit as int, offset as int));
        let mut page: Vec<SessionSummary> = Vec::new();
        let mut q: usize = st;
        while q < en
            invariant
                st <= q <= en <= out@.len(),
                page@ == out@.subrange(st as int, q as int),
                forall|q2: int| 0 <= q2 < out@.len() ==> stored(ss, #[trigger] out@[q2]),
            decreases en - q,
        {
            page.push(copy_header(&out[q]));
            assert(out@.subrange(st as int, q + 1) =~= out@.subrange(st as int, q as int).push(
                out@[q as int],
            ));
            q = q + 1;
        }
        proof {
            assert(keys_of(page@) =~= keys_of(out@).subrange(st as int, en as int));
            assert forall|k: int| 0 <= k < page@.len() implies stored(ss, #[trigger] page@[k]) by {
                assert(page@[k] == out@[st + k]);
                assert(stored(ss, out@[st + k]));
            }
        }
        page
    }
}

/// Sequence density: in a well-formed store the turns of any session, in
/// order, carry the sequence numbers 1, 2, ..., N, where N is the number of
/// its turns.
pub proof fn lemma_sequence_density(store: &SessionStore, sid: Seq<char>)
    requires
        store.wf(),
    ensures
        turns_of(store.messages_view(), sid).len() == count_for(store.messages_view(), sid),
        forall|k: int|
            0 <= k < turns_of(store.messages_view(), sid).len() ==> (#[trigger] turns_of(
                store.messages_view(),
                sid,
            )[k]).sequence == k + 1,
{
    lemma_count_le(store.messages_view(), sid);
    lemma_turns_numbered(store.messages_view(), sid);
}

/// Count consistency: in a well-formed store each session's message count
/// is the number of its stored turns.
pub proof fn lemma_count_consistency(store: &SessionStore)
    requires
        store.wf(),
    ensures
        forall|j: int|
            0 <= j < store.sessions_view().len() ==> (#[trigger] store.sessions_view()[j]).message_count
                == count_for(store.messages_view(), store.sessions_view()[j].id@),
{
}

/// A session that is not stored has no turns in a log whose turns all
/// belong to stored sessions.
proof fn lemma_no_turns(ms: Seq<SessionMessage>, ss: Seq<SessionSummary>, sid: Seq<char>)
    requires
        !has_session(ss, sid),
        forall|m: int| 0 <= m < ms.len() ==> has_session(ss, (#[trigger] ms[m]).session_id@),
    ensures
        count_for(ms, sid) == 0,
    decreases ms.len(),
{
    if ms.len() > 0 {
        let p = ms.drop_last();
        assert forall|m: int| 0 <= m < p.len() implies has_session(
            ss,
            (#[trigger] p[m]).session_id@,
        ) by {
            assert(p[m] == ms[m]);
        }
        lemma_no_turns(p, ss, sid);
        assert(has_session(ss, ms[ms.len() - 1].session_id@));
    }
}

} // verus!
