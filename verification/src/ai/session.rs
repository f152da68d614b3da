//! Chat sessions of a project: their history, settings and proposals, and
//! the manager that keeps them and knows which one is active.

use vstd::prelude::*;

use crate::ai::context_ref::AiContextRef;
use crate::ai::effect::{
    after_failure, apply_all, apply_proposal, ids_of, index_of_intent, intents_from, proposal_applied, queue_applied, ProposalError,
    ProposalStore,
};
use crate::ai::mutator::InMemoryMutator;
use crate::ai::ui_state::{AiAgentKind, AiChatMessage, AiChatRole, AiMaxTokenTier};
use crate::ids::fresh_id;
use crate::text::{chars_of, string_of, trim, trimmed};

verus! {

/// How many model messages a session keeps.
pub const MAX_LLM_HISTORY_MESSAGES: usize = 40;

/// How many session files a project keeps.
pub const MAX_SESSIONS_PER_PROJECT: usize = 50;

/// The focus recorded at the last successful run, to notice a change.
#[derive(Debug, Clone, PartialEq, Eq)]
pub enum StoredLeanFocus {
    Chapter { id: u128, title: String },
    Script { id: u128, title: String },
}

/// The author of a message in the model's history.
#[derive(Debug, Clone, Copy, PartialEq, Eq, Structural)]
pub enum LlmRole {
    System,
    User,
    Assistant,
    Tool,
}

/// One message of the model's history.
#[derive(Debug, Clone, PartialEq, Eq)]
pub struct LlmMessage {
    pub role: LlmRole,
    pub text: String,
}

impl LlmMessage {
    /// A message with the given author and text.
    pub fn new(role: LlmRole, text: String) -> (r: Self)
        ensures
            r.role == role,
            r.text@ == text@,
    {
        LlmMessage { role, text }
    }
}

/// A light view of a session for the session list.
#[derive(Debug, Clone, PartialEq, Eq)]
pub struct AiSessionSummary {
    pub id: u128,
    pub title: String,
    /// Milliseconds since the Unix epoch.
    pub updated_at: i64,
}

/// The last `keep` messages (all of them when there are no more).
pub fn truncate_llm_history<T>(messages: Vec<T>, keep: usize) -> (r: Vec<T>)
    ensures
        messages@.len() > keep ==> r@ == messages@.skip(messages@.len() - keep),
        messages@.len() <= keep ==> r@ == messages@,
{
    let mut messages = messages;
    let n = messages.len();
    if n > keep {
        let tail = messages.split_off(n - keep);
        tail
    } else {
        messages
    }
}

/// A session title made from a message: the trimmed text, cut after 32
/// characters with an ellipsis.
pub open spec fn title_from(text: Seq<char>) -> Seq<char> {
    let t = trimmed(text);
    if t.len() <= 32 {
        t
    } else {
        t.take(32).push('…')
    }
}

/// A session title made from a message.
pub fn truncate_title(text: &str) -> (r: String)
    ensures
        r@ == title_from(text@),
{
    let t = chars_of(&trim(text));
    if t.len() <= 32 {
        return string_of(t.as_slice());
    }
    let mut v: Vec<char> = Vec::new();
    let mut i: usize = 0;
    while i < 32
        invariant
            i <= 32 < t@.len(),
            v@ == t@.take(i as int),
        decreases 32 - i,
    {
        v.push(t[i]);
        i = i + 1;
        assert(v@ =~= t@.take(i as int));
    }
    v.push('…');
    string_of(v.as_slice())
}

/// One chat session that can be saved.
#[derive(Debug)]
pub struct AiSession {
    pub id: u128,
    pub title: String,
    pub agent: AiAgentKind,
    pub max_token_tier: AiMaxTokenTier,
    pub auto_apply: bool,
    pub ui_messages: Vec<AiChatMessage>,
    pub llm_messages: Vec<LlmMessage>,
    pub proposals: ProposalStore,
    /// The focus at the last successful run.
    pub last_lean_focus: Option<StoredLeanFocus>,
    /// Milliseconds since the Unix epoch.
    pub created_at: i64,
    pub updated_at: i64,
}

/// The position of the first user message, if any.
pub open spec fn first_user_message(s: Seq<AiChatMessage>) -> Option<int> {
    if exists|i: int| 0 <= i < s.len() && s[i].role == AiChatRole::User {
        Some(choose|i: int| 0 <= i < s.len() && s[i].role == AiChatRole::User && forall|k: int| 0 <= k < i ==> s[k].role != AiChatRole::User)
    } else {
        None
    }
}

/// A session as created: “新对话”, default agent and tier, proposals
/// queued, empty histories, created and updated at `now`.
pub open spec fn is_fresh_session(s: AiSession, now: i64) -> bool {
    &&& s.title@ == "新对话"@
    &&& s.agent == AiAgentKind::Default
    &&& s.max_token_tier == AiMaxTokenTier::Auto
    &&& !s.auto_apply
    &&& s.ui_messages@.len() == 0
    &&& s.llm_messages@.len() == 0
    &&& s.proposals@.len() == 0
    &&& s.last_lean_focus is None
    &&& s.created_at == now
    &&& s.updated_at == now
}

impl AiSession {
    /// A new session with a fresh id.
    pub fn new(now: i64) -> (r: Self)
        ensures
            is_fresh_session(r, now),
    {
        AiSession {
            id: fresh_id(),
            title: String::from_str("新对话"),
            agent: AiAgentKind::Default,
            max_token_tier: AiMaxTokenTier::Auto,
            auto_apply: false,
            ui_messages: Vec::new(),
            llm_messages: Vec::new(),
            proposals: ProposalStore::default(),
            last_lean_focus: None,
            created_at: now,
            updated_at: now,
        }
    }

    /// Records a change at `now`.
    pub fn touch(&mut self, now: i64)
        ensures
            final(self).updated_at == now,
            final(self).id == old(self).id,
            final(self).title == old(self).title,
            final(self).agent == old(self).agent,
            final(self).max_token_tier == old(self).max_token_tier,
            final(self).auto_apply == old(self).auto_apply,
            final(self).ui_messages == old(self).ui_messages,
            final(self).llm_messages == old(self).llm_messages,
            final(self).proposals == old(self).proposals,
            final(self).last_lean_focus == old(self).last_lean_focus,
            final(self).created_at == old(self).created_at,
    {
        self.updated_at = now;
    }

    /// Titles the session after its first user message, if there is one.
    pub fn refresh_title_from_messages(&mut self)
        ensures
            first_user_message(old(self).ui_messages@) matches Some(i) ==> final(self).title@ == title_from(
                old(self).ui_messages@[i].text@,
            ),
            first_user_message(old(self).ui_messages@) is None ==> final(self).title == old(self).title,
            *final(self) == (AiSession { title: final(self).title, ..*old(self) }),
    {
        let mut i: usize = 0;
        while i < self.ui_messages.len()
            invariant
                i <= self.ui_messages@.len(),
                self.ui_messages@ == old(self).ui_messages@,
                *self == *old(self),
                forall|k: int| 0 <= k < i ==> self.ui_messages@[k].role != AiChatRole::User,
            decreases self.ui_messages.len() - i,
        {
            if self.ui_messages[i].role == AiChatRole::User {
                proof {
                    let s = self.ui_messages@;
                    let w = choose|x: int| 0 <= x < s.len() && s[x].role == AiChatRole::User && forall|k: int| 0 <= k < x ==> s[k].role != AiChatRole::User;
                    if w < i {
                    } else if w > i {
                    }
                }
                let t = truncate_title(&self.ui_messages[i].text);
                self.title = t;
                return;
            }
            i = i + 1;
        }
    }

    /// Whether the model has not been asked anything yet.
    pub fn is_first_llm_turn(&self) -> (r: bool)
        ensures
            r == (self.llm_messages@.len() == 0),
    {
        self.llm_messages.len() == 0
    }
}

/// The ids of the sessions, in order.
pub open spec fn session_ids(s: Seq<AiSession>) -> Seq<u128> {
    s.map_values(|x: AiSession| x.id)
}

/// The position of the first occurrence of `id` in `ids`.
pub open spec fn first_index_of(ids: Seq<u128>, id: u128) -> Option<int> {
    if exists|i: int| 0 <= i < ids.len() && ids[i] == id {
        Some(choose|i: int| 0 <= i < ids.len() && ids[i] == id && forall|k: int| 0 <= k < i ==> ids[k] != id)
    } else {
        None
    }
}

/// The position of the first session with id `id`.
pub open spec fn index_of_session(s: Seq<AiSession>, id: u128) -> Option<int> {
    first_index_of(session_ids(s), id)
}

/// The sessions after storing `x` by its id: it replaces a session with
/// the same id, or joins at the end.
pub open spec fn with_session(s: Seq<AiSession>, x: AiSession) -> Seq<AiSession> {
    match index_of_session(s, x.id) {
        Some(i) => s.update(i, x),
        None => s.push(x),
    }
}

/// The sessions after storing each of `items` in turn.
pub open spec fn loaded_sessions(items: Seq<AiSession>) -> Seq<AiSession>
    decreases items.len(),
{
    if items.len() == 0 {
        Seq::empty()
    } else {
        with_session(loaded_sessions(items.drop_last()), items.last())
    }
}

/// Whether session `i` was updated no earlier than any other.
pub open spec fn is_latest(s: Seq<AiSession>, i: int) -> bool {
    0 <= i < s.len() && forall|k: int| 0 <= k < s.len() ==> s[k].updated_at <= s[i].updated_at
}

proof fn lemma_first_index(ids: Seq<u128>, id: u128, w: int)
    requires
        0 <= w < ids.len(),
        ids[w] == id,
    ensures
        first_index_of(ids, id) matches Some(i) && 0 <= i <= w && ids[i] == id && forall|k: int| 0 <= k < i ==> ids[k] != id,
    decreases w,
{
    if exists|k: int| 0 <= k < w && ids[k] == id {
        let k = choose|k: int| 0 <= k < w && ids[k] == id;
        lemma_first_index(ids, id, k);
    } else {
        assert(0 <= w < ids.len() && ids[w] == id && forall|k: int| 0 <= k < w ==> ids[k] != id);
    }
}

proof fn lemma_with_session(s: Seq<AiSession>, x: AiSession)
    ensures
        index_of_session(s, x.id) matches Some(i) ==> 0 <= i < s.len() && index_of_session(with_session(s, x), x.id) == Some(i),
        index_of_session(s, x.id) is None ==> index_of_session(with_session(s, x), x.id) == Some(s.len() as int),
        index_of_session(s, x.id) is None ==> with_session(s, x).len() == s.len() + 1,
{
    let id = x.id;
    let ids = session_ids(s);
    let t = with_session(s, x);
    let tids = session_ids(t);
    if exists|k: int| 0 <= k < ids.len() && ids[k] == id {
        let k = choose|k: int| 0 <= k < ids.len() && ids[k] == id;
        lemma_first_index(ids, id, k);
        let i = first_index_of(ids, id)->0;
        assert(tids =~= ids);
    } else {
        let n = s.len() as int;
        assert(tids =~= ids.push(id));
        lemma_first_index(tids, id, n);
        let j = first_index_of(tids, id)->0;
        if j < n {
            assert(ids[j] == id);
        }
    }
}

/// A session list entry as plain values: id, title and update time.
pub open spec fn summary_of(s: AiSession) -> (u128, Seq<char>, i64) {
    (s.id, s.title@, s.updated_at)
}

/// The list entries of sessions, in order.
pub open spec fn summaries_of(s: Seq<AiSession>) -> Seq<(u128, Seq<char>, i64)> {
    s.map_values(|x: AiSession| summary_of(x))
}

/// The plain values of list entries.
pub open spec fn summaries_view(v: Seq<AiSessionSummary>) -> Seq<(u128, Seq<char>, i64)> {
    v.map_values(|x: AiSessionSummary| (x.id, x.title@, x.updated_at))
}

/// Number of leading entries updated at `t` or later.
pub open spec fn summary_position(sorted: Seq<(u128, Seq<char>, i64)>, t: i64) -> int
    decreases sorted.len(),
{
    if sorted.len() == 0 || sorted[0].2 < t {
        0
    } else {
        1 + summary_position(sorted.drop_first(), t)
    }
}

/// Stable sort, most recently updated first.
pub open spec fn sort_summaries(s: Seq<(u128, Seq<char>, i64)>) -> Seq<(u128, Seq<char>, i64)>
    decreases s.len(),
{
    if s.len() == 0 {
        Seq::empty()
    } else {
        let sorted = sort_summaries(s.drop_last());
        sorted.insert(summary_position(sorted, s.last().2), s.last())
    }
}

/// Entries ordered most recently updated first.
pub open spec fn newest_first_summaries(s: Seq<(u128, Seq<char>, i64)>) -> bool {
    forall|i: int, j: int| 0 <= i < j < s.len() ==> s[i].2 >= s[j].2
}

proof fn lemma_summary_position(sorted: Seq<(u128, Seq<char>, i64)>, t: i64)
    ensures
        0 <= summary_position(sorted, t) <= sorted.len(),
        newest_first_summaries(sorted) ==> forall|i: int| 0 <= i < summary_position(sorted, t) ==> sorted[i].2 >= t,
        newest_first_summaries(sorted) ==> forall|i: int| summary_position(sorted, t) <= i < sorted.len() ==> sorted[i].2 < t,
    decreases sorted.len(),
{
    if sorted.len() > 0 && sorted[0].2 >= t {
        let rest = sorted.drop_first();
        lemma_summary_position(rest, t);
        if newest_first_summaries(sorted) {
            assert(newest_first_summaries(rest)) by {
                assert forall|i: int, j: int| 0 <= i < j < rest.len() implies rest[i].2 >= rest[j].2 by {
                    assert(rest[i] == sorted[i + 1] && rest[j] == sorted[j + 1]);
                }
            }
            assert forall|i: int| 1 <= i < summary_position(sorted, t) implies sorted[i].2 >= t by {
                assert(sorted[i] == rest[i - 1]);
            }
            assert forall|i: int| summary_position(sorted, t) <= i < sorted.len() implies sorted[i].2 < t by {
                assert(sorted[i] == rest[i - 1]);
            }
        }
    }
}

proof fn lemma_sort_summaries_len(s: Seq<(u128, Seq<char>, i64)>)
    ensures
        sort_summaries(s).len() == s.len(),
    decreases s.len(),
{
    if s.len() > 0 {
        lemma_sort_summaries_len(s.drop_last());
        lemma_summary_position(sort_summaries(s.drop_last()), s.last().2);
    }
}

/// The session list comes out most recently updated first.
pub proof fn lemma_sort_summaries_newest_first(s: Seq<(u128, Seq<char>, i64)>)
    ensures
        newest_first_summaries(sort_summaries(s)),
        sort_summaries(s).len() == s.len(),
    decreases s.len(),
{
    if s.len() > 0 {
        let sorted = sort_summaries(s.drop_last());
        lemma_sort_summaries_newest_first(s.drop_last());
        let t = s.last().2;
        lemma_summary_position(sorted, t);
        let p = summary_position(sorted, t);
        let r = sorted.insert(p, s.last());
        assert forall|i: int, j: int| 0 <= i < j < r.len() implies r[i].2 >= r[j].2 by {
            if j < p {
            } else if j == p {
            } else if i < p {
            } else if i == p {
            } else {
            }
        }
    }
}

/// The list entries of `sessions`, most recently updated first (entries
/// updated at the same time keep their order).
pub fn summaries_newest_first(sessions: &[AiSession]) -> (r: Vec<AiSessionSummary>)
    ensures
        summaries_view(r@) == sort_summaries(summaries_of(sessions@)),
        newest_first_summaries(summaries_view(r@)),
{
    let mut sorted: Vec<AiSessionSummary> = Vec::new();
    let ghost all = summaries_of(sessions@);
    let mut i: usize = 0;
    while i < sessions.len()
        invariant
            i <= sessions@.len(),
            all == summaries_of(sessions@),
            summaries_view(sorted@) == sort_summaries(all.take(i as int)),
        decreases sessions.len() - i,
    {
        let s = &sessions[i];
        let item = AiSessionSummary { id: s.id, title: s.title.clone(), updated_at: s.updated_at };
        proof {
            assert(all.take(i + 1).drop_last() =~= all.take(i as int));
            assert(all.take(i + 1).last() == summary_of(sessions@[i as int]));
            lemma_sort_summaries_len(all.take(i as int));
        }
        let mut p: usize = 0;
        let ghost sv = summaries_view(sorted@);
        assert(sv.skip(0) =~= sv);
        while p < sorted.len() && sorted[p].updated_at >= item.updated_at
            invariant
                p <= sorted@.len(),
                sv == summaries_view(sorted@),
                summary_position(sv, item.updated_at) == p + summary_position(sv.skip(p as int), item.updated_at),
            decreases sorted.len() - p,
        {
            proof {
                assert(sv.skip(p as int).drop_first() =~= sv.skip(p + 1));
                assert(sv.skip(p as int)[0] == sv[p as int]);
            }
            p = p + 1;
        }
        proof {
            if p < sorted@.len() {
                assert(sv.skip(p as int)[0] == sv[p as int]);
            }
            assert(summary_position(sv.skip(p as int), item.updated_at) == 0);
        }
        let ghost iv = (item.id, item.title@, item.updated_at);
        sorted.insert(p, item);
        assert(summaries_view(sorted@) =~= sv.insert(p as int, iv));
        i = i + 1;
    }
    assert(all.take(i as int) =~= all);
    proof {
        lemma_sort_summaries_newest_first(all);
    }
    sorted
}

/// The ids of the sessions beyond the `keep` most recently updated ones
/// (none when there are at most `keep`).
pub fn sessions_to_prune(sessions: &[AiSession], keep: usize) -> (r: Vec<u128>)
    ensures
        sessions@.len() <= keep ==> r@.len() == 0,
        sessions@.len() > keep ==> r@ == sort_summaries(summaries_of(sessions@)).skip(keep as int).map_values(
            |x: (u128, Seq<char>, i64)| x.0,
        ),
{
    let mut out: Vec<u128> = Vec::new();
    if sessions.len() <= keep {
        return out;
    }
    let sorted = summaries_newest_first(sessions);
    let ghost all = sort_summaries(summaries_of(sessions@));
    proof {
        lemma_sort_summaries_len(summaries_of(sessions@));
    }
    let mut i: usize = keep;
    while i < sorted.len()
        invariant
            keep <= i <= sorted@.len(),
            sorted@.len() == all.len(),
            summaries_view(sorted@) == all,
            out@ == all.subrange(keep as int, i as int).map_values(|x: (u128, Seq<char>, i64)| x.0),
        decreases sorted.len() - i,
    {
        out.push(sorted[i].id);
        proof {
            assert(summaries_view(sorted@)[i as int].0 == sorted@[i as int].id);
        }
        i = i + 1;
        assert(out@ =~= all.subrange(keep as int, i as int).map_values(|x: (u128, Seq<char>, i64)| x.0));
    }
    assert(all.subrange(keep as int, i as int) =~= all.skip(keep as int));
    out
}

/// Why a session operation was refused.
#[derive(Debug, Clone, PartialEq, Eq)]
pub enum SessionError {
    /// No session has this id.
    NotFound(u128),
    /// A session title cannot be blank.
    EmptyTitle,
    /// There is no active session.
    NoActive,
    /// There is no active session id.
    NoSession,
    /// The active id names no stored session.
    ActiveMissing,
    /// Applying a proposal failed.
    Proposal(ProposalError),
}

/// The sessions of a project and which one is active, with the panel's
/// transient state.
#[derive(Debug)]
pub struct AiSessionManager {
    sessions: Vec<AiSession>,
    active_id: Option<u128>,
    busy: bool,
    streaming: bool,
    status_message: Option<String>,
    context_refs: Vec<AiContextRef>,
    proposals_expanded: bool,
    /// The documents proposals are applied to when no project folder is
    /// open.
    pub mutator: InMemoryMutator,
    empty_proposals: ProposalStore,
}

impl Default for AiSessionManager {
    /// No sessions, none active, nothing running, proposals expanded.
    fn default() -> (r: Self)
        ensures
            r.sessions_view().len() == 0,
            r.active_view() is None,
            !r.busy_view(),
            !r.streaming_view(),
            r.refs_view().len() == 0,
    {
        AiSessionManager {
            sessions: Vec::new(),
            active_id: None,
            busy: false,
            streaming: false,
            status_message: None,
            context_refs: Vec::new(),
            proposals_expanded: true,
            mutator: InMemoryMutator::new(),
            empty_proposals: ProposalStore::default(),
        }
    }
}

impl AiSessionManager {
    /// The stored sessions.
    pub closed spec fn sessions_view(&self) -> Seq<AiSession> {
        self.sessions@
    }

    /// The id of the active session, if any.
    pub closed spec fn active_view(&self) -> Option<u128> {
        self.active_id
    }

    /// Whether a request is running.
    pub closed spec fn busy_view(&self) -> bool {
        self.busy
    }

    /// Whether an answer is streaming in.
    pub closed spec fn streaming_view(&self) -> bool {
        self.streaming
    }

    /// The references attached to the next request.
    pub closed spec fn refs_view(&self) -> Seq<AiContextRef> {
        self.context_refs@
    }

    /// The position of the active session, if the active id names one.
    pub open spec fn active_index(&self) -> Option<int> {
        match self.active_view() {
            Some(id) => index_of_session(self.sessions_view(), id),
            None => None,
        }
    }

    fn index_of(&self, id: u128) -> (r: Option<usize>)
        ensures
            r matches Some(i) ==> index_of_session(self.sessions_view(), id) == Some(i as int) && i < self.sessions_view().len(),
            r is None ==> index_of_session(self.sessions_view(), id) is None,
    {
        let ghost ids = session_ids(self.sessions@);
        let mut i: usize = 0;
        while i < self.sessions.len()
            invariant
                i <= self.sessions@.len(),
                ids == session_ids(self.sessions@),
                forall|k: int| 0 <= k < i ==> ids[k] != id,
            decreases self.sessions.len() - i,
        {
            if self.sessions[i].id == id {
                proof {
                    assert(ids[i as int] == id);
                    let w = choose|x: int| 0 <= x < ids.len() && ids[x] == id && forall|k: int| 0 <= k < x ==> ids[k] != id;
                    if w < i {
                    } else if w > i {
                    }
                }
                return Some(i);
            }
            i = i + 1;
        }
        None
    }

    fn active_position(&self) -> (r: Option<usize>)
        ensures
            r matches Some(i) ==> self.active_index() == Some(i as int) && i < self.sessions_view().len(),
            r is None ==> self.active_index() is None,
    {
        match self.active_id {
            Some(id) => self.index_of(id),
            None => None,
        }
    }

    fn latest(&self) -> (r: Option<u128>)
        ensures
            self.sessions_view().len() == 0 ==> r is None,
            self.sessions_view().len() > 0 ==> exists|i: int| is_latest(self.sessions_view(), i) && r == Some(self.sessions_view()[i].id),
    {
        if self.sessions.len() == 0 {
            return None;
        }
        let mut best: usize = 0;
        let mut i: usize = 1;
        while i < self.sessions.len()
            invariant
                0 < self.sessions@.len(),
                best < i <= self.sessions@.len(),
                forall|k: int| 0 <= k < i ==> self.sessions@[k].updated_at <= self.sessions@[best as int].updated_at,
            decreases self.sessions.len() - i,
        {
            if self.sessions[i].updated_at >= self.sessions[best].updated_at {
                best = i;
            }
            i = i + 1;
        }
        assert(is_latest(self.sessions_view(), best as int));
        Some(self.sessions[best].id)
    }

    fn store(&mut self, x: AiSession) -> (j: usize)
        ensures
            final(self).sessions_view() == with_session(old(self).sessions_view(), x),
            index_of_session(final(self).sessions_view(), x.id) == Some(j as int),
            j < final(self).sessions_view().len(),
            final(self).sessions_view()[j as int] == x,
            final(self).active_view() == old(self).active_view(),
            final(self).busy_view() == old(self).busy_view(),
            final(self).streaming_view() == old(self).streaming_view(),
            final(self).refs_view() == old(self).refs_view(),
    {
        proof {
            lemma_with_session(self.sessions@, x);
        }
        let n = self.sessions.len();
        match self.index_of(x.id) {
            Some(i) => {
                self.sessions.set(i, x);
                i
            },
            None => {
                self.sessions.push(x);
                n
            },
        }
    }

    /// The active session, if any.
    pub fn active(&self) -> (r: Option<&AiSession>)
        ensures
            r matches Some(s) ==> (self.active_index() matches Some(i) && *s == self.sessions_view()[i]),
            r is None ==> self.active_index() is None,
    {
        match self.active_position() {
            Some(i) => Some(&self.sessions[i]),
            None => None,
        }
    }

    /// The active session, for changes.
    pub fn active_mut(&mut self) -> (r: Option<&mut AiSession>)
        ensures
            old(self).active_index() is None ==> r is None && final(self).sessions_view() == old(self).sessions_view(),
            (old(self).active_index() matches Some(i) ==> (r matches Some(s) && *s == old(self).sessions_view()[i]
                && final(self).sessions_view() == old(self).sessions_view().update(i, *final(s)))),
            final(self).active_view() == old(self).active_view(),
            final(self).refs_view() == old(self).refs_view(),
    {
        match self.active_position() {
            Some(i) => Some(&mut self.sessions[i]),
            None => None,
        }
    }

    /// The id of the active session, if any.
    pub fn active_id(&self) -> (r: Option<u128>)
        ensures
            r == self.active_view(),
    {
        self.active_id
    }

    /// The active session, creating and selecting a fresh one first when
    /// none is active.
    pub fn ensure_active(&mut self, now: i64) -> (r: &mut AiSession)
        ensures
            (old(self).active_index() matches Some(i) ==> *r == old(self).sessions_view()[i]
                && final(self).sessions_view() == old(self).sessions_view().update(i, *final(r))
                && final(self).active_view() == old(self).active_view()),
            old(self).active_index() is None ==> is_fresh_session(*r, now) && final(self).active_view() == Some(r.id),
            old(self).active_index() is None ==> (index_of_session(with_session(old(self).sessions_view(), *r), r.id) matches Some(j)
                && final(self).sessions_view() == with_session(old(self).sessions_view(), *r).update(j, *final(r))),
            final(r).id == r.id ==> (final(self).active_index() matches Some(j) && j < final(self).sessions_view().len()
                && final(self).sessions_view()[j] == *final(r)),
            final(self).refs_view() == old(self).refs_view(),
    {
        let i = match self.active_position() {
            Some(i) => i,
            None => {
                let session = AiSession::new(now);
                let id = session.id;
                let j = self.store(session);
                self.active_id = Some(id);
                j
            },
        };
        let ghost mid = self.sessions@;
        let ghost a = self.active_id;
        assert(self.active_index() == Some(i as int));
        proof {
            assert forall|y: AiSession| y.id == mid[i as int].id implies #[trigger] session_ids(mid.update(i as int, y)) == session_ids(mid) by {
                assert(session_ids(mid.update(i as int, y)) =~= session_ids(mid));
            }
        }
        &mut self.sessions[i]
    }
}

impl AiSessionManager {
    /// The in-memory documents the sessions' proposals are applied to.
    pub closed spec fn mutator_view(&self) -> InMemoryMutator {
        self.mutator
    }
}

/// A proposal result as the session manager reports it.
pub open spec fn session_result(pr: Result<(), ProposalError>) -> Result<(), SessionError> {
    match pr {
        Ok(_) => Ok(()),
        Err(e) => Err(SessionError::Proposal(e)),
    }
}

impl AiSessionManager {
    /// Replaces the sessions with those loaded from disk (a later session
    /// with the same id replaces an earlier one) and selects `active_id`
    /// when it names one of them, else a most recently updated session;
    /// clears the running flags and the attached references.
    pub fn replace_loaded(&mut self, sessions: Vec<AiSession>, active_id: Option<u128>)
        ensures
            final(self).sessions_view() == loaded_sessions(sessions@),
            (active_id matches Some(id) && index_of_session(loaded_sessions(sessions@), id) is Some) ==> final(self).active_view() == active_id,
            !(active_id matches Some(id) && index_of_session(loaded_sessions(sessions@), id) is Some) ==> (
                loaded_sessions(sessions@).len() == 0 ==> final(self).active_view() is None),
            !(active_id matches Some(id) && index_of_session(loaded_sessions(sessions@), id) is Some) ==> (
                loaded_sessions(sessions@).len() > 0 ==> exists|i: int| is_latest(loaded_sessions(sessions@), i)
                    && final(self).active_view() == Some(loaded_sessions(sessions@)[i].id)),
            !final(self).busy_view(),
            !final(self).streaming_view(),
            final(self).refs_view().len() == 0,
    {
        let mut items = sessions;
        let ghost orig = items@;
        self.sessions = Vec::new();
        assert(orig.skip(0) =~= orig);
        let mut taken: usize = 0;
        let total = items.len();
        while items.len() > 0
            invariant
                taken + items@.len() == orig.len(),
                total == orig.len(),
                items@ == orig.skip(taken as int),
                self.sessions@ == loaded_sessions(orig.take(taken as int)),
            decreases items.len(),
        {
            let item = items.remove(0);
            proof {
                assert(orig.take(taken + 1).drop_last() =~= orig.take(taken as int));
                assert(orig.take(taken + 1).last() == item);
                assert(items@ =~= orig.skip(taken + 1));
            }
            self.store(item);
            taken = taken + 1;
        }
        assert(orig.take(orig.len() as int) =~= orig);
        let chosen = match active_id {
            Some(id) => match self.index_of(id) {
                Some(_) => Some(id),
                None => self.latest(),
            },
            None => self.latest(),
        };
        self.active_id = chosen;
        self.busy = false;
        self.streaming = false;
        self.context_refs.clear();
    }

    /// Takes all sessions out of the manager (the active id is kept).
    pub fn take_sessions(&mut self) -> (r: Vec<AiSession>)
        ensures
            r@ == old(self).sessions_view(),
            final(self).sessions_view().len() == 0,
            final(self).active_view() == old(self).active_view(),
            final(self).refs_view() == old(self).refs_view(),
            final(self).busy_view() == old(self).busy_view(),
    {
        let mut out: Vec<AiSession> = Vec::new();
        std::mem::swap(&mut out, &mut self.sessions);
        out
    }

    /// The session list, most recently updated first (sessions updated at
    /// the same time keep their stored order).
    pub fn list_summaries(&self) -> (r: Vec<AiSessionSummary>)
        ensures
            summaries_view(r@) == sort_summaries(summaries_of(self.sessions_view())),
            newest_first_summaries(summaries_view(r@)),
    {
        summaries_newest_first(self.sessions.as_slice())
    }

    /// The title of the active session, or “新对话”.
    pub fn active_title(&self) -> (r: String)
        ensures
            (self.active_index() matches Some(i) ==> r@ == self.sessions_view()[i].title@),
            self.active_index() is None ==> r@ == "新对话"@,
    {
        match self.active() {
            Some(s) => s.title.clone(),
            None => String::from_str("新对话"),
        }
    }

    /// Creates a fresh session, selects it and clears the attached
    /// references; returns its id.
    pub fn create_session(&mut self, now: i64) -> (r: u128)
        ensures
            exists|x: AiSession| is_fresh_session(x, now) && x.id == r && final(self).sessions_view() == with_session(old(self).sessions_view(), x),
            final(self).active_view() == Some(r),
            final(self).refs_view().len() == 0,
    {
        let session = AiSession::new(now);
        let id = session.id;
        let ghost x = session;
        self.store(session);
        self.active_id = Some(id);
        self.context_refs.clear();
        id
    }

    /// Selects the session `id` and clears the attached references; an
    /// unknown id is refused and changes nothing.
    pub fn switch_to(&mut self, id: u128) -> (r: Result<(), SessionError>)
        ensures
            index_of_session(old(self).sessions_view(), id) is Some ==> r is Ok && final(self).active_view() == Some(id)
                && final(self).refs_view().len() == 0 && final(self).sessions_view() == old(self).sessions_view(),
            index_of_session(old(self).sessions_view(), id) is None ==> r == Err::<(), SessionError>(SessionError::NotFound(id))
                && final(self).active_view() == old(self).active_view() && final(self).refs_view() == old(self).refs_view()
                && final(self).sessions_view() == old(self).sessions_view(),
    {
        if self.index_of(id).is_none() {
            return Err(SessionError::NotFound(id));
        }
        self.active_id = Some(id);
        self.context_refs.clear();
        Ok(())
    }

    /// Removes the session `id`; when it was the active one, a most
    /// recently updated remaining session becomes active (none if none
    /// remain).
    pub fn remove_session(&mut self, id: u128) -> (r: Option<AiSession>)
        ensures
            (index_of_session(old(self).sessions_view(), id) matches Some(i) ==> r == Some(old(self).sessions_view()[i])
                && final(self).sessions_view() == old(self).sessions_view().remove(i)),
            index_of_session(old(self).sessions_view(), id) is None ==> r is None && final(self).sessions_view()
                == old(self).sessions_view(),
            old(self).active_view() != Some(id) ==> final(self).active_view() == old(self).active_view(),
            old(self).active_view() == Some(id) && final(self).sessions_view().len() == 0 ==> final(self).active_view() is None,
            old(self).active_view() == Some(id) && final(self).sessions_view().len() > 0 ==> exists|i: int|
                is_latest(final(self).sessions_view(), i) && final(self).active_view() == Some(final(self).sessions_view()[i].id),
    {
        let removed = match self.index_of(id) {
            Some(i) => Some(self.sessions.remove(i)),
            None => None,
        };
        let was_active = match self.active_id {
            Some(a) => a == id,
            None => false,
        };
        if was_active {
            self.active_id = self.latest();
        }
        removed
    }

    /// Renames the active session to the trimmed `title` and records the
    /// change at `now`; a blank title, or no active session, is refused.
    pub fn rename_active(&mut self, title: &str, now: i64) -> (r: Result<(), SessionError>)
        ensures
            crate::text::is_blank(title@) ==> r == Err::<(), SessionError>(SessionError::EmptyTitle) && final(self).sessions_view()
                == old(self).sessions_view(),
            !crate::text::is_blank(title@) && old(self).active_index() is None ==> r == Err::<(), SessionError>(SessionError::NoActive)
                && final(self).sessions_view() == old(self).sessions_view(),
            (!crate::text::is_blank(title@) ==> (old(self).active_index() matches Some(i) ==> r is Ok
                && final(self).sessions_view()[i].title@ == trimmed(title@)
                && final(self).sessions_view()[i].updated_at == now
                && final(self).sessions_view() == old(self).sessions_view().update(
                    i,
                    (AiSession { title: final(self).sessions_view()[i].title, updated_at: now, ..old(self).sessions_view()[i] }),
                ))),
            final(self).active_view() == old(self).active_view(),
    {
        let t = trim(title);
        proof {
            crate::text::lemma_trimmed_empty_iff_blank(title@);
        }
        if chars_of(&t).len() == 0 {
            return Err(SessionError::EmptyTitle);
        }
        match self.active_position() {
            None => Err(SessionError::NoActive),
            Some(i) => {
                let s = &mut self.sessions[i];
                s.title = t;
                s.touch(now);
                Ok(())
            },
        }
    }

    /// The number of sessions.
    pub fn session_count(&self) -> (r: usize)
        ensures
            r == self.sessions_view().len(),
    {
        self.sessions.len()
    }

    /// Whether the active session applies changes at once (no when none
    /// is active).
    pub fn auto_apply(&self) -> (r: bool)
        ensures
            (self.active_index() matches Some(i) ==> r == self.sessions_view()[i].auto_apply),
            self.active_index() is None ==> !r,
    {
        match self.active() {
            Some(s) => s.auto_apply,
            None => false,
        }
    }

    /// The active session's token tier (`Auto` when none is active).
    pub fn max_token_tier(&self) -> (r: AiMaxTokenTier)
        ensures
            (self.active_index() matches Some(i) ==> r == self.sessions_view()[i].max_token_tier),
            self.active_index() is None ==> r == AiMaxTokenTier::Auto,
    {
        match self.active() {
            Some(s) => s.max_token_tier,
            None => AiMaxTokenTier::Auto,
        }
    }

    /// The active session's agent role (`Default` when none is active).
    pub fn agent(&self) -> (r: AiAgentKind)
        ensures
            (self.active_index() matches Some(i) ==> r == self.sessions_view()[i].agent),
            self.active_index() is None ==> r == AiAgentKind::Default,
    {
        match self.active() {
            Some(s) => s.agent,
            None => AiAgentKind::Default,
        }
    }

    /// The active session's chat messages (none when none is active).
    pub fn messages(&self) -> (r: &[AiChatMessage])
        ensures
            (self.active_index() matches Some(i) ==> r@ == self.sessions_view()[i].ui_messages@),
            self.active_index() is None ==> r@.len() == 0,
    {
        match self.active_position() {
            Some(i) => self.sessions[i].ui_messages.as_slice(),
            None => &[],
        }
    }


    /// The active session's model history (none when none is active).
    pub fn llm_messages(&self) -> (r: &[LlmMessage])
        ensures
            (self.active_index() matches Some(i) ==> r@ == self.sessions_view()[i].llm_messages@),
            self.active_index() is None ==> r@.len() == 0,
    {
        match self.active_position() {
            Some(i) => self.sessions[i].llm_messages.as_slice(),
            None => &[],
        }
    }

    /// The active session's proposals (an empty queue when none is
    /// active).
    pub fn proposals(&self) -> (r: &ProposalStore)
        ensures
            (self.active_index() matches Some(i) ==> r@ == self.sessions_view()[i].proposals@),
            self.active_index() is None ==> r@ == self.empty_view(),
    {
        match self.active_position() {
            Some(i) => &self.sessions[i].proposals,
            None => &self.empty_proposals,
        }
    }

    /// The queue shown when no session is active.
    pub closed spec fn empty_view(&self) -> Seq<crate::ai::effect::Proposal> {
        self.empty_proposals@
    }
}

impl AiSessionManager {
    /// The active session's proposals, creating a session first when none
    /// is active.
    pub fn proposals_mut(&mut self, now: i64) -> (r: &mut ProposalStore)
        ensures
            (old(self).active_index() matches Some(i) ==> r@ == old(self).sessions_view()[i].proposals@
                && final(self).active_view() == old(self).active_view()
                && final(self).sessions_view() == old(self).sessions_view().update(
                    i, (AiSession { proposals: *final(r), ..old(self).sessions_view()[i] }))),
            old(self).active_index() is None ==> r@.len() == 0,
            final(self).active_index() matches Some(j) && final(self).sessions_view()[j].proposals == *final(r),
            final(self).refs_view() == old(self).refs_view(),
    {
        let s = self.ensure_active(now);
        &mut s.proposals
    }

    /// Sets whether the active session (created first when none is active)
    /// applies changes at once, and records the change at `now`.
    pub fn set_auto_apply(&mut self, auto_apply: bool, now: i64)
        ensures
            final(self).active_index() matches Some(i) && final(self).sessions_view()[i].auto_apply == auto_apply
                && final(self).sessions_view()[i].updated_at == now,
            old(self).active_index() is Some ==> final(self).active_view() == old(self).active_view(),
            (old(self).active_index() matches Some(i) ==> final(self).sessions_view() == old(self).sessions_view().update(
                i, (AiSession { auto_apply: auto_apply, updated_at: now, ..old(self).sessions_view()[i] }))),
    {
        let s = self.ensure_active(now);
        s.auto_apply = auto_apply;
        s.touch(now);
    }

    /// Sets the active session's token tier (creating a session first when
    /// none is active), recording the change at `now`.
    pub fn set_max_token_tier(&mut self, tier: AiMaxTokenTier, now: i64)
        ensures
            final(self).active_index() matches Some(i) && final(self).sessions_view()[i].max_token_tier == tier
                && final(self).sessions_view()[i].updated_at == now,
            old(self).active_index() is Some ==> final(self).active_view() == old(self).active_view(),
            (old(self).active_index() matches Some(i) ==> final(self).sessions_view() == old(self).sessions_view().update(
                i, (AiSession { max_token_tier: tier, updated_at: now, ..old(self).sessions_view()[i] }))),
    {
        let s = self.ensure_active(now);
        s.max_token_tier = tier;
        s.touch(now);
    }

    /// Sets the active session's agent role (creating a session first when
    /// none is active), recording the change at `now`.
    pub fn set_agent(&mut self, agent: AiAgentKind, now: i64)
        ensures
            final(self).active_index() matches Some(i) && final(self).sessions_view()[i].agent == agent
                && final(self).sessions_view()[i].updated_at == now,
            old(self).active_index() is Some ==> final(self).active_view() == old(self).active_view(),
            (old(self).active_index() matches Some(i) ==> final(self).sessions_view() == old(self).sessions_view().update(
                i, (AiSession { agent: agent, updated_at: now, ..old(self).sessions_view()[i] }))),
    {
        let s = self.ensure_active(now);
        s.agent = agent;
        s.touch(now);
    }

    /// Replaces the active session's model history (creating a session
    /// first when none is active), recording the change at `now`.
    pub fn set_llm_messages(&mut self, messages: Vec<LlmMessage>, now: i64)
        ensures
            final(self).active_index() matches Some(i) && final(self).sessions_view()[i].llm_messages@ == messages@
                && final(self).sessions_view()[i].updated_at == now,
            old(self).active_index() is Some ==> final(self).active_view() == old(self).active_view(),
            (old(self).active_index() matches Some(i) ==> final(self).sessions_view() == old(self).sessions_view().update(
                i, (AiSession { llm_messages: messages, updated_at: now, ..old(self).sessions_view()[i] }))),
    {
        let s = self.ensure_active(now);
        s.llm_messages = messages;
        s.touch(now);
    }

    /// Applies one of the active session's proposals to the in-memory
    /// documents.
    #[verifier::rlimit(40)]
    pub fn apply_proposal_in_memory(&mut self, intent_id: u128) -> (r: Result<(), SessionError>)
        ensures
            old(self).active_view() is None ==> r == Err::<(), SessionError>(SessionError::NoSession),
            old(self).active_view() is Some && old(self).active_index() is None ==> r == Err::<(), SessionError>(
                SessionError::ActiveMissing,
            ),
            final(self).active_view() == old(self).active_view(),
            final(self).sessions_view().len() == old(self).sessions_view().len(),
            old(self).active_index() is None ==> final(self).sessions_view() == old(self).sessions_view()
                && final(self).mutator_view() == old(self).mutator_view(),
            old(self).active_index() matches Some(a) ==> {
                let before = old(self).sessions_view()[a].proposals@;
                let after = final(self).sessions_view()[a].proposals@;
                &&& index_of_intent(before, intent_id) is None ==> r == Err::<(), SessionError>(
                    SessionError::Proposal(ProposalError::NotFound(intent_id)),
                ) && after == before
                &&& index_of_intent(before, intent_id) is None ==> final(self).mutator_view() == old(self).mutator_view()
                &&& index_of_intent(before, intent_id) matches Some(i) ==> exists|pr: Result<(), ProposalError>|
                    #![trigger proposal_applied(before, i, old(self).mutator_view(), pr, after, final(self).mutator_view())]
                    proposal_applied(before, i, old(self).mutator_view(), pr, after, final(self).mutator_view()) && r == session_result(pr)
                &&& index_of_intent(before, intent_id) matches Some(i) ==> (r is Ok ==> after == before.remove(i))
                &&& index_of_intent(before, intent_id) matches Some(i) ==> (r is Err ==> after == before.update(
                    i,
                    after_failure(before[i]),
                ))
                &&& after.len() <= before.len()
                &&& final(self).sessions_view() == old(self).sessions_view().update(
                    a,
                    (AiSession { proposals: final(self).sessions_view()[a].proposals, ..old(self).sessions_view()[a] }),
                )
            },
    {
        if self.active_id.is_none() {
            return Err(SessionError::NoSession);
        }
        match self.active_position() {
            None => Err(SessionError::ActiveMissing),
            Some(i) => {
                let mut s = self.sessions.remove(i);
                let ghost before = s.proposals@;
                let ghost m0 = self.mutator;
                let out = apply_proposal(intent_id, &mut s.proposals, &mut self.mutator);
                let ghost after = s.proposals@;
                self.sessions.insert(i, s);
                proof {
                    assert(self.sessions_view()[i as int].proposals@ == after);
                    assert(old(self).sessions_view()[i as int].proposals@ == before);
                    if let Some(j) = index_of_intent(before, intent_id) {
                        assert(proposal_applied(
                            old(self).sessions_view()[i as int].proposals@,
                            j,
                            old(self).mutator_view(),
                            out,
                            self.sessions_view()[i as int].proposals@,
                            self.mutator_view(),
                        ));
                    }
                }
                match out {
                    Ok(()) => Ok(()),
                    Err(e) => Err(SessionError::Proposal(e)),
                }
            },
        }
    }

    /// Applies all of the active session's proposals to the in-memory
    /// documents; when all succeed, the session's queue ends empty.
    pub fn apply_all_in_memory(&mut self) -> (r: Result<(), SessionError>)
        ensures
            old(self).active_view() is None ==> r == Err::<(), SessionError>(SessionError::NoSession),
            old(self).active_view() is Some && old(self).active_index() is None ==> r == Err::<(), SessionError>(
                SessionError::ActiveMissing,
            ),
            final(self).active_view() == old(self).active_view(),
            final(self).sessions_view().len() == old(self).sessions_view().len(),
            old(self).active_index() matches Some(a) ==> {
                &&& r is Ok <==> final(self).sessions_view()[a].proposals@.len() == 0
                &&& r matches Err(e) ==> (e matches SessionError::Proposal(pe) && pe is Failed)
                &&& final(self).sessions_view()[a].proposals@.len() <= old(self).sessions_view()[a].proposals@.len()
                &&& intents_from(final(self).sessions_view()[a].proposals@, old(self).sessions_view()[a].proposals@)
                &&& ids_of(old(self).sessions_view()[a].proposals@).no_duplicates() ==> exists|pr: Result<(), ProposalError>|
                    #![trigger queue_applied(old(self).sessions_view()[a].proposals@, old(self).mutator_view(), pr, final(self).sessions_view()[a].proposals@, final(self).mutator_view())]
                    queue_applied(
                        old(self).sessions_view()[a].proposals@,
                        old(self).mutator_view(),
                        pr,
                        final(self).sessions_view()[a].proposals@,
                        final(self).mutator_view(),
                    ) && r == session_result(pr)
                &&& final(self).sessions_view() == old(self).sessions_view().update(
                    a,
                    (AiSession { proposals: final(self).sessions_view()[a].proposals, ..old(self).sessions_view()[a] }),
                )
            },
    {
        if self.active_id.is_none() {
            return Err(SessionError::NoSession);
        }
        match self.active_position() {
            None => Err(SessionError::ActiveMissing),
            Some(i) => {
                let mut s = self.sessions.remove(i);
                let ghost before = s.proposals@;
                let ghost m0 = self.mutator;
                let out = apply_all(&mut s.proposals, &mut self.mutator);
                let ghost after = s.proposals@;
                self.sessions.insert(i, s);
                proof {
                    assert(self.sessions_view()[i as int].proposals@ == after);
                    assert(old(self).sessions_view()[i as int].proposals@ == before);
                    if ids_of(before).no_duplicates() {
                        assert(queue_applied(
                            old(self).sessions_view()[i as int].proposals@,
                            old(self).mutator_view(),
                            out,
                            self.sessions_view()[i as int].proposals@,
                            self.mutator_view(),
                        ));
                    }
                }
                match out {
                    Ok(()) => Ok(()),
                    Err(e) => Err(SessionError::Proposal(e)),
                }
            },
        }
    }
}

} // verus!
