//! Sessions kept in memory.

use vstd::prelude::*;
use crate::persistence::{SessionInfo, ThoughtStore};
use crate::types::{ThoughtData, ThoughtView, Timestamp, thoughts_view, copy_thoughts};
use crate::time::now_utc;

verus! {

/// One session held by a [`MemoryThoughtStore`].
pub struct SessionRecord {
    pub id: String,
    pub thoughts: Vec<ThoughtData>,
    pub created_at: Timestamp,
    pub updated_at: Timestamp,
}

/// The content of a stored session.
pub ghost struct StoredSession {
    pub thoughts: Seq<ThoughtView>,
    pub created_at: Timestamp,
    pub updated_at: Timestamp,
}

pub open spec fn record_view(r: SessionRecord) -> StoredSession {
    StoredSession { thoughts: thoughts_view(r.thoughts@), created_at: r.created_at, updated_at: r.updated_at }
}

/// The sessions held by a list of records, keyed by session id (later records win).
pub open spec fn records_map(rs: Seq<SessionRecord>) -> Map<Seq<char>, StoredSession>
    decreases rs.len(),
{
    if rs.len() == 0 {
        Map::empty()
    } else {
        records_map(rs.drop_last()).insert(rs.last().id@, record_view(rs.last()))
    }
}

pub open spec fn ids_distinct(rs: Seq<SessionRecord>) -> bool {
    forall|i: int, j: int| 0 <= i < j < rs.len() ==> #[trigger] rs[i].id@ != #[trigger] rs[j].id@
}

/// `a` is no later than `b`.
pub open spec fn not_after(a: Timestamp, b: Timestamp) -> bool {
    a.secs < b.secs || (a.secs == b.secs && a.nanos <= b.nanos)
}

/// The session an update to `old` leaves under `id` after appending `t` at instant `now`:
/// a new session is created at `now`; an existing one keeps its creation instant.
pub open spec fn session_after_save(m: Map<Seq<char>, StoredSession>, id: Seq<char>, t: ThoughtView, now: Timestamp) -> StoredSession {
    if m.contains_key(id) {
        StoredSession { thoughts: m[id].thoughts.push(t), created_at: m[id].created_at, updated_at: now }
    } else {
        StoredSession { thoughts: seq![t], created_at: now, updated_at: now }
    }
}

/// The thoughts stored under `id` (empty for an unknown session).
pub open spec fn stored_thoughts(m: Map<Seq<char>, StoredSession>, id: Seq<char>) -> Seq<ThoughtView> {
    if m.contains_key(id) { m[id].thoughts } else { Seq::empty() }
}

proof fn lemma_records_map_dom(rs: Seq<SessionRecord>, id: Seq<char>)
    ensures
        records_map(rs).contains_key(id) <==> exists|i: int| 0 <= i < rs.len() && #[trigger] rs[i].id@ == id,
    decreases rs.len(),
{
    if rs.len() > 0 {
        lemma_records_map_dom(rs.drop_last(), id);
        if exists|i: int| 0 <= i < rs.len() && #[trigger] rs[i].id@ == id {
            let i = choose|i: int| 0 <= i < rs.len() && #[trigger] rs[i].id@ == id;
            if i < rs.len() - 1 {
                assert(rs.drop_last()[i].id@ == id);
            }
        }
        if records_map(rs.drop_last()).contains_key(id) {
            let i = choose|i: int| 0 <= i < rs.drop_last().len() && #[trigger] rs.drop_last()[i].id@ == id;
            assert(rs[i].id@ == id);
        }
    }
}

proof fn lemma_records_map_value(rs: Seq<SessionRecord>, i: int)
    requires
        ids_distinct(rs),
        0 <= i < rs.len(),
    ensures
        records_map(rs).contains_key(rs[i].id@),
        records_map(rs)[rs[i].id@] == record_view(rs[i]),
    decreases rs.len(),
{
    if i < rs.len() - 1 {
        lemma_records_map_value(rs.drop_last(), i);
        assert(rs.drop_last()[i] == rs[i]);
        assert(rs[i].id@ != rs.last().id@);
    }
}

proof fn lemma_records_map_update(rs: Seq<SessionRecord>, i: int, r: SessionRecord)
    requires
        ids_distinct(rs),
        0 <= i < rs.len(),
        r.id@ == rs[i].id@,
    ensures
        records_map(rs.update(i, r)) == records_map(rs).insert(r.id@, record_view(r)),
    decreases rs.len(),
{
    if i == rs.len() - 1 {
        assert(rs.update(i, r).drop_last() =~= rs.drop_last());
        assert(records_map(rs.update(i, r)) =~= records_map(rs).insert(r.id@, record_view(r)));
    } else {
        assert(rs.update(i, r).drop_last() =~= rs.drop_last().update(i, r));
        lemma_records_map_update(rs.drop_last(), i, r);
        assert(rs[i].id@ != rs.last().id@);
        assert(rs.update(i, r).last() == rs.last());
        assert(records_map(rs.update(i, r)) =~= records_map(rs).insert(r.id@, record_view(r)));
    }
}

proof fn lemma_records_map_remove(rs: Seq<SessionRecord>, i: int)
    requires
        ids_distinct(rs),
        0 <= i < rs.len(),
    ensures
        records_map(rs.remove(i)) == records_map(rs).remove(rs[i].id@),
    decreases rs.len(),
{
    let id = rs[i].id@;
    if i == rs.len() - 1 {
        assert(rs.remove(i) =~= rs.drop_last());
        lemma_records_map_dom(rs.drop_last(), id);
        assert(!records_map(rs.drop_last()).contains_key(id));
        assert(records_map(rs.remove(i)) =~= records_map(rs).remove(id));
    } else {
        assert(rs.remove(i).drop_last() =~= rs.drop_last().remove(i));
        lemma_records_map_remove(rs.drop_last(), i);
        assert(rs[i].id@ != rs.last().id@);
        assert(rs.remove(i).last() == rs.last());
        assert(records_map(rs.remove(i)) =~= records_map(rs).remove(id));
    }
}

/// The summary of a record.
pub open spec fn info_of(r: SessionRecord) -> SessionInfo {
    SessionInfo { id: r.id, created_at: r.created_at, updated_at: r.updated_at, total_thoughts: r.thoughts@.len() as usize }
}

/// `list` summarizes exactly the sessions of `m`, each once, most recently updated first.
pub open spec fn lists_sessions(m: Map<Seq<char>, StoredSession>, list: Seq<SessionInfo>) -> bool {
    &&& forall|k: int| 0 <= k < list.len() ==> {
        &&& #[trigger] m.contains_key(list[k].id@)
        &&& list[k].created_at == m[list[k].id@].created_at
        &&& list[k].updated_at == m[list[k].id@].updated_at
        &&& list[k].total_thoughts == m[list[k].id@].thoughts.len()
    }
    &&& forall|id: Seq<char>| #[trigger] m.contains_key(id) ==> exists|k: int| 0 <= k < list.len() && list[k].id@ == id
    &&& forall|i: int, j: int| 0 <= i < j < list.len() ==> #[trigger] list[i].id@ != #[trigger] list[j].id@
    &&& forall|i: int, j: int| 0 <= i < j < list.len() ==> not_after(#[trigger] list[j].updated_at, #[trigger] list[i].updated_at)
}

/// Some entry of `list` summarizes `r`.
pub open spec fn listed(list: Seq<SessionInfo>, r: SessionRecord) -> bool {
    exists|k: int| 0 <= k < list.len() && list[k] == info_of(r)
}

/// `info` summarizes one of the first `n` records.
pub open spec fn summarizes_one_of(rs: Seq<SessionRecord>, n: int, info: SessionInfo) -> bool {
    exists|j: int| 0 <= j < n && info == info_of(rs[j])
}

/// Whether `a` is strictly earlier than `b`.
pub fn earlier(a: Timestamp, b: Timestamp) -> (r: bool)
    ensures
        r == !not_after(b, a),
{
    a.secs < b.secs || (a.secs == b.secs && a.nanos < b.nanos)
}

/// Thought sessions held in memory, keyed by session id.
pub struct MemoryThoughtStore {
    sessions: Vec<SessionRecord>,
}

impl View for MemoryThoughtStore {
    type V = Map<Seq<char>, StoredSession>;

    closed spec fn view(&self) -> Map<Seq<char>, StoredSession> {
        records_map(self.sessions@)
    }
}

impl MemoryThoughtStore {
    #[verifier::type_invariant]
    closed spec fn well_formed(&self) -> bool {
        ids_distinct(self.sessions@)
    }

    /// An empty store.
    pub fn new() -> (s: MemoryThoughtStore)
        ensures
            s@ == Map::<Seq<char>, StoredSession>::empty(),
    {
        let s = MemoryThoughtStore { sessions: Vec::new() };
        assert(s@ =~= Map::<Seq<char>, StoredSession>::empty());
        s
    }

    fn find(&self, session_id: &str) -> (r: Option<usize>)
        ensures
            match r {
                Some(k) => k < self.sessions@.len() && self.sessions@[k as int].id@ == session_id@,
                None => forall|k: int| 0 <= k < self.sessions@.len() ==> #[trigger] self.sessions@[k].id@ != session_id@,
            },
    {
        let mut k: usize = 0;
        while k < self.sessions.len()
            invariant
                k <= self.sessions@.len(),
                forall|q: int| 0 <= q < k ==> #[trigger] self.sessions@[q].id@ != session_id@,
            decreases self.sessions@.len() - k,
        {
            if crate::text::str_eq(self.sessions[k].id.as_str(), session_id) {
                return Some(k);
            }
            k = k + 1;
        }
        None
    }

    /// Appends `thought` to the session `session_id` at instant `now`, creating the session
    /// when it is new.
    pub fn save_thought_at(&mut self, session_id: &str, thought: &ThoughtData, now: Timestamp)
        ensures
            final(self)@ == old(self)@.insert(session_id@, session_after_save(old(self)@, session_id@, thought@, now)),
    {
        proof {
            use_type_invariant(&*self);
        }
        let ghost rs = self.sessions@;
        match self.find(session_id) {
            Some(k) => {
                proof {
                    lemma_records_map_value(rs, k as int);
                }
                let mut sessions: Vec<SessionRecord> = Vec::new();
                std::mem::swap(&mut sessions, &mut self.sessions);
                let mut rec = sessions.remove(k);
                let ghost old_rec = rec;
                rec.thoughts.push(thought.duplicate());
                rec.updated_at = now;
                proof {
                    assert(thoughts_view(rec.thoughts@) =~= thoughts_view(old_rec.thoughts@).push(thought@));
                }
                sessions.insert(k, rec);
                proof {
                    assert(sessions@ =~= rs.update(k as int, rec));
                    assert forall|i: int, j: int| 0 <= i < j < rs.len() implies #[trigger] sessions@[i].id@ != #[trigger] sessions@[j].id@ by {
                        assert(rs[i].id@ != rs[j].id@);
                    }
                }
                self.sessions = sessions;
                proof {
                    lemma_records_map_update(rs, k as int, rec);
                    assert(record_view(rec) == session_after_save(records_map(rs), session_id@, thought@, now));
                }
            },
            None => {
                let rec = SessionRecord {
                    id: String::from_str(session_id),
                    thoughts: vec![thought.duplicate()],
                    created_at: now,
                    updated_at: now,
                };
                proof {
                    lemma_records_map_dom(rs, session_id@);
                    assert(thoughts_view(rec.thoughts@) =~= seq![thought@]);
                }
                let mut sessions: Vec<SessionRecord> = Vec::new();
                std::mem::swap(&mut sessions, &mut self.sessions);
                sessions.push(rec);
                proof {
                    assert(sessions@.drop_last() =~= rs);
                    assert forall|i: int, j: int| 0 <= i < j < sessions@.len() implies #[trigger] sessions@[i].id@ != #[trigger] sessions@[j].id@ by {
                        if j < rs.len() {
                            assert(rs[i].id@ != rs[j].id@);
                        } else {
                            assert(rs[i].id@ != session_id@);
                        }
                    }
                }
                self.sessions = sessions;
            },
        }
    }

    /// The thoughts of a session, in the order they were saved (empty for an unknown session).
    pub fn load_thoughts(&self, session_id: &str) -> (r: Vec<ThoughtData>)
        ensures
            thoughts_view(r@) == stored_thoughts(self@, session_id@),
    {
        proof {
            use_type_invariant(self);
        }
        match self.find(session_id) {
            Some(k) => {
                proof {
                    lemma_records_map_value(self.sessions@, k as int);
                }
                copy_thoughts(&self.sessions[k].thoughts)
            },
            None => {
                proof {
                    lemma_records_map_dom(self.sessions@, session_id@);
                }
                let r: Vec<ThoughtData> = Vec::new();
                assert(thoughts_view(r@) =~= Seq::<ThoughtView>::empty());
                r
            },
        }
    }

    /// Summaries of all sessions, most recently updated first (sessions updated at the same
    /// instant in no particular order).
    pub fn session_summaries(&self) -> (r: Vec<SessionInfo>)
        ensures
            lists_sessions(self@, r@),
    {
        proof {
            use_type_invariant(self);
        }
        let ghost rs = self.sessions@;
        let mut result: Vec<SessionInfo> = Vec::new();
        let mut i: usize = 0;
        while i < self.sessions.len()
            invariant
                rs == self.sessions@,
                ids_distinct(rs),
                i <= rs.len(),
                result@.len() == i,
                forall|k: int| 0 <= k < result@.len() ==> #[trigger] summarizes_one_of(rs, i as int, result@[k]),
                forall|j: int| 0 <= j < i ==> #[trigger] listed(result@, rs[j]),
                forall|a: int, b: int| 0 <= a < b < result@.len() ==> #[trigger] result@[a].id@ != #[trigger] result@[b].id@,
                forall|a: int, b: int| 0 <= a < b < result@.len() ==> not_after(#[trigger] result@[b].updated_at, #[trigger] result@[a].updated_at),
            decreases rs.len() - i,
        {
            let rec = &self.sessions[i];
            let info = SessionInfo {
                id: rec.id.clone(),
                created_at: rec.created_at,
                updated_at: rec.updated_at,
                total_thoughts: rec.thoughts.len(),
            };
            assert(info == info_of(rs[i as int]));
            let mut p: usize = 0;
            while p < result.len() && !earlier(result[p].updated_at, info.updated_at)
                invariant
                    p <= result@.len(),
                    forall|q: int| 0 <= q < p ==> not_after(info.updated_at, #[trigger] result@[q].updated_at),
                decreases result@.len() - p,
            {
                p = p + 1;
            }
            let ghost before = result@;
            proof {
                assert forall|k: int| 0 <= k < before.len() implies #[trigger] before[k].id@ != info.id@ by {
                    assert(summarizes_one_of(rs, i as int, before[k]));
                    let j = choose|j: int| 0 <= j < i && before[k] == info_of(rs[j]);
                    assert(rs[j].id@ != rs[i as int].id@);
                }
            }
            result.insert(p, info);
            proof {
                assert(result@ =~= before.insert(p as int, info));
                assert forall|k: int| 0 <= k < result@.len() implies #[trigger] summarizes_one_of(rs, i + 1, result@[k]) by {
                    if k < p {
                        assert(result@[k] == before[k]);
                        assert(summarizes_one_of(rs, i as int, before[k]));
                        let j = choose|j: int| 0 <= j < i && before[k] == info_of(rs[j]);
                        assert(result@[k] == info_of(rs[j]));
                    } else if k > p {
                        assert(result@[k] == before[k - 1]);
                        assert(summarizes_one_of(rs, i as int, before[k - 1]));
                        let j = choose|j: int| 0 <= j < i && before[k - 1] == info_of(rs[j]);
                        assert(result@[k] == info_of(rs[j]));
                    } else {
                        assert(result@[k] == info_of(rs[i as int]));
                    }
                }
                assert forall|j: int| 0 <= j < i + 1 implies #[trigger] listed(result@, rs[j]) by {
                    if j < i {
                        assert(listed(before, rs[j]));
                        let k = choose|k: int| 0 <= k < before.len() && before[k] == info_of(rs[j]);
                        if k < p {
                            assert(result@[k] == info_of(rs[j]));
                        } else {
                            assert(result@[k + 1] == info_of(rs[j]));
                        }
                    } else {
                        assert(result@[p as int] == info_of(rs[j]));
                    }
                }
                assert forall|a: int, b: int| 0 <= a < b < result@.len() implies #[trigger] result@[a].id@ != #[trigger] result@[b].id@ by {
                    let a0 = if a < p { a } else { a - 1 };
                    let b0 = if b < p { b } else { b - 1 };
                    if a != p && b != p {
                        assert(before[a0].id@ != before[b0].id@);
                    } else if a == p {
                        assert(before[b0].id@ != info.id@);
                    } else {
                        assert(before[a0].id@ != info.id@);
                    }
                }
                assert forall|a: int, b: int| 0 <= a < b < result@.len() implies not_after(#[trigger] result@[b].updated_at, #[trigger] result@[a].updated_at) by {
                    let a0 = if a < p { a } else { a - 1 };
                    let b0 = if b < p { b } else { b - 1 };
                    if a != p && b != p {
                        assert(not_after(before[b0].updated_at, before[a0].updated_at));
                    } else if a == p {
                        assert(p < before.len());
                        assert(!not_after(info.updated_at, before[p as int].updated_at));
                        if b0 > p {
                            assert(not_after(before[b0].updated_at, before[p as int].updated_at));
                        }
                    } else {
                        assert(not_after(info.updated_at, before[a0].updated_at));
                    }
                }
            }
            i = i + 1;
        }
        proof {
            let m = records_map(rs);
            assert forall|k: int| 0 <= k < result@.len() implies {
                &&& #[trigger] m.contains_key(result@[k].id@)
                &&& result@[k].created_at == m[result@[k].id@].created_at
                &&& result@[k].updated_at == m[result@[k].id@].updated_at
                &&& result@[k].total_thoughts == m[result@[k].id@].thoughts.len()
            } by {
                assert(summarizes_one_of(rs, rs.len() as int, result@[k]));
                let j = choose|j: int| 0 <= j < rs.len() && result@[k] == info_of(rs[j]);
                lemma_records_map_value(rs, j);
                assert(rs[j].thoughts@.len() == rs[j].thoughts.len());
            }
            assert forall|id: Seq<char>| #[trigger] m.contains_key(id) implies exists|k: int| 0 <= k < result@.len() && result@[k].id@ == id by {
                lemma_records_map_dom(rs, id);
                let j = choose|j: int| 0 <= j < rs.len() && #[trigger] rs[j].id@ == id;
                assert(listed(result@, rs[j]));
                let k = choose|k: int| 0 <= k < result@.len() && result@[k] == info_of(rs[j]);
                assert(result@[k].id@ == id);
            }
        }
        result
    }

    /// Forgets a session.
    pub fn remove_session(&mut self, session_id: &str)
        ensures
            final(self)@ == old(self)@.remove(session_id@),
    {
        proof {
            use_type_invariant(&*self);
        }
        let ghost rs = self.sessions@;
        match self.find(session_id) {
            Some(k) => {
                proof {
                    lemma_records_map_remove(rs, k as int);
                }
                let mut sessions: Vec<SessionRecord> = Vec::new();
                std::mem::swap(&mut sessions, &mut self.sessions);
                sessions.remove(k);
                proof {
                    assert forall|i: int, j: int| 0 <= i < j < rs.len() - 1 implies #[trigger] sessions@[i].id@ != #[trigger] sessions@[j].id@ by {
                        let a = if i < k { i } else { i + 1 };
                        let b = if j < k { j } else { j + 1 };
                        assert(rs[a].id@ != rs[b].id@);
                    }
                }
                self.sessions = sessions;
            },
            None => {
                proof {
                    lemma_records_map_dom(rs, session_id@);
                    assert(records_map(rs) =~= records_map(rs).remove(session_id@));
                }
            },
        }
    }
}

impl ThoughtStore for MemoryThoughtStore {
    /// A load gives back the thoughts stored under the session, in the order they were saved.
    open spec fn loads(&self, sid: Seq<char>, thoughts: Seq<ThoughtView>) -> bool {
        thoughts == stored_thoughts(self@, sid)
    }

    /// A save stamps the session with some clock reading.
    open spec fn saves(&self, sid: Seq<char>, t: ThoughtView, after: Self) -> bool {
        exists|now: Timestamp| after@ == self@.insert(sid, #[trigger] session_after_save(self@, sid, t, now))
    }

    open spec fn deletes(&self, sid: Seq<char>, after: Self) -> bool {
        after@ == self@.remove(sid)
    }

    /// Appends `thought` to the session, stamping the session's update time with the clock.
    fn save_thought(&mut self, session_id: &str, thought: &ThoughtData) -> (r: Result<(), String>)
        ensures
            r is Ok,
            exists|now: Timestamp| final(self)@ == old(self)@.insert(session_id@, #[trigger] session_after_save(old(self)@, session_id@, thought@, now)),
    {
        let now = now_utc();
        self.save_thought_at(session_id, thought, now);
        Ok(())
    }

    fn load_session(&self, session_id: &str) -> (r: Result<Vec<ThoughtData>, String>)
        ensures
            r matches Ok(v) && thoughts_view(v@) == stored_thoughts(self@, session_id@),
    {
        Ok(self.load_thoughts(session_id))
    }

    fn list_sessions(&self) -> (r: Result<Vec<SessionInfo>, String>)
        ensures
            r matches Ok(v) && lists_sessions(self@, v@),
    {
        Ok(self.session_summaries())
    }

    fn delete_session(&mut self, session_id: &str) -> (r: Result<(), String>)
        ensures
            r is Ok,
            final(self)@ == old(self)@.remove(session_id@),
    {
        self.remove_session(session_id);
        Ok(())
    }
}

/// Loading a session after saving a thought to it gives the thoughts it held before,
/// followed by the saved one; every other session reads as before.
pub proof fn lemma_load_after_save(
    m: Map<Seq<char>, StoredSession>,
    id: Seq<char>,
    t: ThoughtView,
    now: Timestamp,
    other: Seq<char>,
)
    ensures
        stored_thoughts(m.insert(id, session_after_save(m, id, t, now)), id) == stored_thoughts(m, id).push(t),
        other != id ==> stored_thoughts(m.insert(id, session_after_save(m, id, t, now)), other) == stored_thoughts(m, other),
{
    if !m.contains_key(id) {
        assert(seq![t] =~= Seq::<ThoughtView>::empty().push(t));
    }
}

/// A session's creation time is set by its first saved thought and kept by later ones;
/// its update time is that of the latest save.
pub proof fn lemma_save_timestamps(m: Map<Seq<char>, StoredSession>, id: Seq<char>, t: ThoughtView, now: Timestamp)
    ensures
        session_after_save(m, id, t, now).updated_at == now,
        m.contains_key(id) ==> session_after_save(m, id, t, now).created_at == m[id].created_at,
        !m.contains_key(id) ==> session_after_save(m, id, t, now).created_at == now,
{
}

/// A deleted session reads as empty, and deleting leaves every other session as it was.
pub proof fn lemma_load_after_delete(m: Map<Seq<char>, StoredSession>, id: Seq<char>, other: Seq<char>)
    ensures
        stored_thoughts(m.remove(id), id) == Seq::<ThoughtView>::empty(),
        other != id ==> stored_thoughts(m.remove(id), other) == stored_thoughts(m, other),
{
}

/// A successful call on a store: a save of a thought to a session, or a deletion of a session.
pub ghost enum StoreOp {
    Save(Seq<char>, ThoughtView),
    Delete(Seq<char>),
}

/// The thoughts that `ops` saved to session `sid` after its last deletion, in save order.
pub open spec fn replay(ops: Seq<StoreOp>, sid: Seq<char>) -> Seq<ThoughtView>
    decreases ops.len(),
{
    if ops.len() == 0 {
        Seq::empty()
    } else {
        let before = replay(ops.drop_last(), sid);
        match ops.last() {
            StoreOp::Save(s, t) => if s == sid { before.push(t) } else { before },
            StoreOp::Delete(s) => if s == sid { Seq::empty() } else { before },
        }
    }
}

/// `after` is the store `before` once `op` has succeeded on it.
pub open spec fn applies(before: MemoryThoughtStore, op: StoreOp, after: MemoryThoughtStore) -> bool {
    match op {
        StoreOp::Save(s, t) => before.saves(s, t, after),
        StoreOp::Delete(s) => before.deletes(s, after),
    }
}

/// Starting from an empty store, after any sequence of successful saves and deletions,
/// loading a session gives back exactly the thoughts saved to it since it was last deleted,
/// in the order they were saved (none for a session never saved or just deleted).
pub proof fn lemma_load_after_operations(states: Seq<MemoryThoughtStore>, ops: Seq<StoreOp>, sid: Seq<char>)
    requires
        states.len() == ops.len() + 1,
        states[0]@ == Map::<Seq<char>, StoredSession>::empty(),
        forall|i: int| 0 <= i < ops.len() ==> #[trigger] applies(states[i], ops[i], states[i + 1]),
    ensures
        states.last().loads(sid, replay(ops, sid)),
    decreases ops.len(),
{
    if ops.len() > 0 {
        let n = ops.len() - 1;
        assert forall|i: int| 0 <= i < ops.drop_last().len() implies
            #[trigger] applies(states.drop_last()[i], ops.drop_last()[i], states.drop_last()[i + 1]) by {
            assert(applies(states[i], ops[i], states[i + 1]));
        }
        lemma_load_after_operations(states.drop_last(), ops.drop_last(), sid);
        assert(applies(states[n], ops[n], states[n + 1]));
        let m = states[n]@;
        match ops.last() {
            StoreOp::Save(s, t) => {
                let now = choose|now: Timestamp| states[n + 1]@ == m.insert(s, #[trigger] session_after_save(m, s, t, now));
                lemma_load_after_save(m, s, t, now, sid);
            },
            StoreOp::Delete(s) => {
                lemma_load_after_delete(m, s, sid);
            },
        }
    } else {
        assert(stored_thoughts(states[0]@, sid) =~= Seq::<ThoughtView>::empty());
    }
}

} // verus!
