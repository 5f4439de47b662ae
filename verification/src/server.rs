//! Session state of the reasoning server: thought history, branches and the active session.

use vstd::prelude::*;
use crate::graph::mermaid::{generate_mermaid, mermaid_text};
use crate::persistence::ThoughtStore;
use crate::text::str_eq;
use crate::time::now_utc;
use crate::types::{
    ThoughtData, ThoughtView, Timestamp, ToolResult, thoughts_view, strs_view, copy_strings,
};

verus! {

/// Branches: each branch identifier with the thoughts recorded under it.
pub open spec fn branches_view(bs: Seq<(String, Vec<ThoughtData>)>) -> Seq<(Seq<char>, Seq<ThoughtView>)> {
    bs.map_values(|e: (String, Vec<ThoughtData>)| (e.0@, thoughts_view(e.1@)))
}

/// Position of the branch `key` (the last one carrying it), or -1 when there is none.
pub open spec fn branch_index(bs: Seq<(Seq<char>, Seq<ThoughtView>)>, key: Seq<char>) -> int
    decreases bs.len(),
{
    if bs.len() == 0 {
        -1
    } else if bs.last().0 == key {
        bs.len() - 1
    } else {
        branch_index(bs.drop_last(), key)
    }
}

/// A thought that names both a branch origin and a branch identifier is appended to that
/// branch, which is created (after the existing ones) when new; other thoughts leave the
/// branches unchanged.
pub open spec fn record_branch(bs: Seq<(Seq<char>, Seq<ThoughtView>)>, t: ThoughtView) -> Seq<(Seq<char>, Seq<ThoughtView>)> {
    if t.branch_from_thought is Some && t.branch_id is Some {
        let key = t.branch_id->0;
        let k = branch_index(bs, key);
        if k >= 0 {
            bs.update(k, (key, bs[k].1.push(t)))
        } else {
            bs.push((key, seq![t]))
        }
    } else {
        bs
    }
}

/// The branches recorded by a thought history.
pub open spec fn branches_of(ts: Seq<ThoughtView>) -> Seq<(Seq<char>, Seq<ThoughtView>)>
    decreases ts.len(),
{
    if ts.len() == 0 {
        Seq::empty()
    } else {
        record_branch(branches_of(ts.drop_last()), ts.last())
    }
}

/// The identifiers of the branches, in order.
pub open spec fn branch_keys(bs: Seq<(Seq<char>, Seq<ThoughtView>)>) -> Seq<Seq<char>> {
    bs.map_values(|e: (Seq<char>, Seq<ThoughtView>)| e.0)
}

/// The thought as recorded: the total estimate raised to the thought number when it is
/// smaller, and the timestamp `now` filled in when absent.
pub open spec fn prepared(t: ThoughtView, now: Timestamp) -> ThoughtView {
    ThoughtView {
        total_thoughts: if t.thought_number > t.total_thoughts { t.thought_number } else { t.total_thoughts },
        timestamp: if t.timestamp is None { Some(now) } else { t.timestamp },
        ..t
    }
}

/// The session a thought goes to: the one it names, else the active one, else a new one.
pub open spec fn resolved_session(named: Option<Seq<char>>, current: Seq<char>, fresh: Seq<char>) -> Seq<char> {
    match named {
        Some(s) => s,
        None => if current.len() > 0 { current } else { fresh },
    }
}

/// A thought naming `named` (or no session) goes to the active session `current`: it names
/// that session, or names none while one is active.
pub open spec fn stays_in_session(named: Option<Seq<char>>, current: Seq<char>) -> bool {
    match named {
        Some(s) => s == current,
        None => current.len() > 0,
    }
}

/// The confidence entries of a history, in order.
pub open spec fn confidence_history(ts: Seq<ThoughtView>) -> Seq<Option<u64>> {
    ts.map_values(|t: ThoughtView| t.confidence_score)
}

proof fn lemma_branch_index(bs: Seq<(Seq<char>, Seq<ThoughtView>)>, key: Seq<char>)
    ensures
        -1 <= branch_index(bs, key) < bs.len(),
        branch_index(bs, key) >= 0 ==> bs[branch_index(bs, key)].0 == key,
        branch_index(bs, key) >= 0 ==> forall|j: int| branch_index(bs, key) < j < bs.len() ==> #[trigger] bs[j].0 != key,
        branch_index(bs, key) == -1 ==> forall|j: int| 0 <= j < bs.len() ==> #[trigger] bs[j].0 != key,
    decreases bs.len(),
{
    if bs.len() > 0 {
        lemma_branch_index(bs.drop_last(), key);
        if bs.last().0 != key {
            assert forall|j: int| branch_index(bs, key) < j < bs.len() implies #[trigger] bs[j].0 != key by {
                if j < bs.len() - 1 {
                    assert(bs.drop_last()[j] == bs[j]);
                }
            }
        }
    }
}

/// No branch identifier occurs twice among the branches a history records.
pub proof fn lemma_branch_keys_distinct(ts: Seq<ThoughtView>)
    ensures
        branch_keys(branches_of(ts)).no_duplicates(),
    decreases ts.len(),
{
    if ts.len() > 0 {
        let bs = branches_of(ts.drop_last());
        lemma_branch_keys_distinct(ts.drop_last());
        lemma_branch_index(bs, ts.last().branch_id.unwrap_or(Seq::empty()));
        let after = record_branch(bs, ts.last());
        assert(after == branches_of(ts));
        if ts.last().branch_from_thought is Some && ts.last().branch_id is Some {
            let key = ts.last().branch_id->0;
            let k = branch_index(bs, key);
            if k >= 0 {
                assert(branch_keys(after) =~= branch_keys(bs));
            } else {
                assert(branch_keys(after) =~= branch_keys(bs).push(key));
                assert forall|i: int, j: int| 0 <= i < j < branch_keys(after).len()
                    implies branch_keys(after)[i] != branch_keys(after)[j] by {
                    if j == bs.len() {
                        assert(bs[i].0 != key);
                    } else {
                        assert(branch_keys(bs)[i] != branch_keys(bs)[j]);
                    }
                }
            }
        }
    }
}

/// Position of the branch `key` in the list.
fn find_branch(bs: &Vec<(String, Vec<ThoughtData>)>, key: &String) -> (r: Option<usize>)
    ensures
        match r {
            Some(i) => i as int == branch_index(branches_view(bs@), key@),
            None => branch_index(branches_view(bs@), key@) == -1,
        },
{
    let ghost bv = branches_view(bs@);
    proof {
        lemma_branch_index(bv, key@);
    }
    let mut k: usize = bs.len();
    while k > 0
        invariant
            k <= bs@.len(),
            bv == branches_view(bs@),
            forall|j: int| k <= j < bs@.len() ==> #[trigger] bv[j].0 != key@,
        decreases k,
    {
        if str_eq(bs[k - 1].0.as_str(), key.as_str()) {
            proof {
                let kk = (k - 1) as int;
                lemma_branch_index(bv, key@);
                assert(bv[kk].0 == key@);
                let b = branch_index(bv, key@);
                assert(-1 <= b < bv.len());
                if b == -1 {
                    assert(bv[kk].0 != key@);
                } else if b > kk {
                    assert(bv[b].0 == key@);
                    assert(bv[b].0 != key@);
                } else if b < kk {
                    assert(bv[kk].0 != key@);
                }
            }
            return Some(k - 1);
        }
        k = k - 1;
    }
    proof {
        let b = branch_index(bv, key@);
        if b >= 0 {
            assert(bv[b].0 != key@);
        }
    }
    None
}

/// Records `t` in the branch list.
pub fn add_to_branches(bs: &mut Vec<(String, Vec<ThoughtData>)>, t: &ThoughtData)
    ensures
        branches_view(final(bs)@) == record_branch(branches_view(old(bs)@), t@),
{
    if t.branch_from_thought.is_none() {
        return;
    }
    let key = match &t.branch_id {
        Some(k) => k,
        None => {
            return;
        },
    };
    let ghost bv = branches_view(bs@);
    proof {
        lemma_branch_index(bv, key@);
    }
    let found = find_branch(bs, key);
    if found.is_some() {
        let idx = found.unwrap();
        let (name, mut list) = bs.remove(idx);
        let ghost old_list = thoughts_view(list@);
        list.push(t.duplicate());
        proof {
            assert(thoughts_view(list@) =~= old_list.push(t@));
        }
        bs.insert(idx, (name, list));
        proof {
            assert(branches_view(bs@) =~= bv.update(idx as int, (key@, bv[idx as int].1.push(t@))));
        }
    } else {
        proof {
            assert(branch_index(bv, key@) == -1);
        }
        let entry = (key.clone(), vec![t.duplicate()]);
        proof {
            assert(thoughts_view(entry.1@) =~= seq![t@]);
        }
        bs.push(entry);
        proof {
            assert(branches_view(bs@) =~= bv.push((key@, seq![t@])));
        }
    }
}

/// The branches recorded by a list of thoughts.
pub fn rebuild_branches(thoughts: &Vec<ThoughtData>) -> (bs: Vec<(String, Vec<ThoughtData>)>)
    ensures
        branches_view(bs@) == branches_of(thoughts_view(thoughts@)),
{
    let ghost tv = thoughts_view(thoughts@);
    let mut bs: Vec<(String, Vec<ThoughtData>)> = Vec::new();
    proof {
        assert(branches_view(bs@) =~= Seq::<(Seq<char>, Seq<ThoughtView>)>::empty());
        assert(tv.take(0) =~= Seq::<ThoughtView>::empty());
    }
    let mut i: usize = 0;
    while i < thoughts.len()
        invariant
            i <= thoughts@.len(),
            tv == thoughts_view(thoughts@),
            branches_view(bs@) == branches_of(tv.take(i as int)),
        decreases thoughts@.len() - i,
    {
        add_to_branches(&mut bs, &thoughts[i]);
        proof {
            assert(tv.take(i + 1).drop_last() =~= tv.take(i as int));
            assert(tv.take(i + 1).last() == thoughts@[i as int]@);
        }
        i = i + 1;
    }
    proof {
        assert(tv.take(thoughts@.len() as int) =~= tv);
    }
    bs
}

/// The identifiers of a branch list.
fn branch_names(bs: &Vec<(String, Vec<ThoughtData>)>) -> (r: Vec<String>)
    ensures
        strs_view(r) == branch_keys(branches_view(bs@)),
{
    let mut r: Vec<String> = Vec::new();
    let mut i: usize = 0;
    while i < bs.len()
        invariant
            i <= bs@.len(),
            r@.len() == i,
            forall|j: int| 0 <= j < i ==> #[trigger] r@[j]@ == bs@[j].0@,
        decreases bs@.len() - i,
    {
        r.push(bs[i].0.clone());
        i = i + 1;
    }
    assert(strs_view(r) =~= branch_keys(branches_view(bs@)));
    r
}

/// The confidence entries of a list of thoughts.
fn confidences(ts: &Vec<ThoughtData>) -> (r: Vec<Option<u64>>)
    ensures
        r@ == confidence_history(thoughts_view(ts@)),
{
    let mut r: Vec<Option<u64>> = Vec::new();
    let mut i: usize = 0;
    while i < ts.len()
        invariant
            i <= ts@.len(),
            r@.len() == i,
            forall|j: int| 0 <= j < i ==> #[trigger] r@[j] == ts@[j].confidence_score,
        decreases ts@.len() - i,
    {
        r.push(ts[i].confidence_score);
        i = i + 1;
    }
    assert(r@ =~= confidence_history(thoughts_view(ts@)));
    r
}

/// The reasoning server: the thoughts of the active session, their branches, and the
/// store that keeps every session.
pub struct SequentialThinkingServer<S> {
    pub store: S,
    pub current_session_id: String,
    pub thought_history: Vec<ThoughtData>,
    pub branches: Vec<(String, Vec<ThoughtData>)>,
    pub disable_thought_logging: bool,
}

impl<S: ThoughtStore> SequentialThinkingServer<S> {
    /// The branches agree with the thought history.
    pub open spec fn consistent(&self) -> bool {
        branches_view(self.branches@) == branches_of(thoughts_view(self.thought_history@))
    }

    /// A server with no active session.
    pub fn new(store: S, disable_thought_logging: bool) -> (s: Self)
        ensures
            s.store == store,
            s.current_session_id@ == Seq::<char>::empty(),
            s.thought_history@.len() == 0,
            s.branches@.len() == 0,
            s.disable_thought_logging == disable_thought_logging,
            s.consistent(),
    {
        let s = SequentialThinkingServer {
            store,
            current_session_id: String::new(),
            thought_history: Vec::new(),
            branches: Vec::new(),
            disable_thought_logging,
        };
        assert(branches_view(s.branches@) =~= branches_of(thoughts_view(s.thought_history@)));
        s
    }

    /// Makes `session_id` the active session with the history `loaded` that the store
    /// answered for it; when the store answered an error, nothing changes and that error is
    /// returned.
    pub fn adopt_session(&mut self, session_id: &str, loaded: Result<Vec<ThoughtData>, String>) -> (r: Result<(), String>)
        ensures
            final(self).store == old(self).store,
            final(self).disable_thought_logging == old(self).disable_thought_logging,
            match loaded {
                Ok(v) => {
                    &&& r is Ok
                    &&& final(self).current_session_id@ == session_id@
                    &&& thoughts_view(final(self).thought_history@) == thoughts_view(v@)
                    &&& final(self).consistent()
                },
                Err(e) => {
                    &&& r == Err::<(), String>(e)
                    &&& final(self).current_session_id@ == old(self).current_session_id@
                    &&& thoughts_view(final(self).thought_history@) == thoughts_view(old(self).thought_history@)
                    &&& branches_view(final(self).branches@) == branches_view(old(self).branches@)
                },
            },
    {
        match loaded {
            Ok(thoughts) => {
                self.branches = rebuild_branches(&thoughts);
                self.thought_history = thoughts;
                self.current_session_id = String::from_str(session_id);
                Ok(())
            },
            Err(e) => Err(e),
        }
    }

    /// Makes `session_id` the active session, with the history the store holds for it.
    /// On an error from the store nothing changes; whether the store succeeds is the store's
    /// own affair (see [`Self::adopt_session`] for what each answer leads to).
    pub fn load_session(&mut self, session_id: &str) -> (r: Result<(), String>)
        ensures
            final(self).store == old(self).store,
            final(self).disable_thought_logging == old(self).disable_thought_logging,
            r is Ok ==> final(self).current_session_id@ == session_id@ && final(self).consistent(),
            r is Ok ==> old(self).store.loads(session_id@, thoughts_view(final(self).thought_history@)),
            r is Err ==> {
                &&& final(self).current_session_id@ == old(self).current_session_id@
                &&& thoughts_view(final(self).thought_history@) == thoughts_view(old(self).thought_history@)
                &&& branches_view(final(self).branches@) == branches_view(old(self).branches@)
            },
    {
        let loaded = self.store.load_session(session_id);
        self.adopt_session(session_id, loaded)
    }

    /// Records the thought `input` in session `sid` once the store has answered `saved` for
    /// saving it. On success the thought is added to its branch (when it names one) and
    /// appended to the history, and the result reports the state after it; when the store
    /// answered an error, nothing changes and that error is returned.
    pub fn record_thought(&mut self, sid: String, input: ThoughtData, saved: Result<(), String>) -> (r: Result<ToolResult, String>)
        ensures
            final(self).store == old(self).store,
            final(self).disable_thought_logging == old(self).disable_thought_logging,
            final(self).current_session_id@ == old(self).current_session_id@,
            old(self).consistent() ==> final(self).consistent(),
            match saved {
                Ok(_) => {
                    let p = input@;
                    let h = thoughts_view(final(self).thought_history@);
                    &&& h == thoughts_view(old(self).thought_history@).push(p)
                    &&& branches_view(final(self).branches@) == record_branch(branches_view(old(self).branches@), p)
                    &&& r matches Ok(res) && {
                        &&& res.thought_number == p.thought_number
                        &&& res.total_thoughts == p.total_thoughts
                        &&& res.next_thought_needed == p.next_thought_needed
                        &&& strs_view(res.branches) == branch_keys(branches_view(final(self).branches@))
                        &&& res.thought_history_length == h.len()
                        &&& res.thought_graph_mermaid@ == mermaid_text(h)
                        &&& res.confidence_history@ == confidence_history(h)
                        &&& strs_view(res.left_to_be_done) == (match p.left_to_be_done { Some(l) => l, None => Seq::empty() })
                        &&& res.session_id@ == sid@
                    }
                },
                Err(e) => {
                    &&& r == Err::<ToolResult, String>(e)
                    &&& thoughts_view(final(self).thought_history@) == thoughts_view(old(self).thought_history@)
                    &&& branches_view(final(self).branches@) == branches_view(old(self).branches@)
                },
            },
    {
        match saved {
            Ok(()) => {},
            Err(e) => {
                return Err(e);
            },
        }
        let ghost h0 = thoughts_view(self.thought_history@);
        let ghost p = input@;
        add_to_branches(&mut self.branches, &input);
        let left_to_be_done = match &input.left_to_be_done {
            Some(l) => copy_strings(l),
            None => {
                let v: Vec<String> = Vec::new();
                assert(strs_view(v) =~= Seq::<Seq<char>>::empty());
                v
            },
        };
        let thought_number = input.thought_number;
        let total_thoughts = input.total_thoughts;
        let next_thought_needed = input.next_thought_needed;
        self.thought_history.push(input);
        proof {
            assert(thoughts_view(self.thought_history@) =~= h0.push(p));
            assert(thoughts_view(self.thought_history@).drop_last() =~= h0);
        }
        let branches = branch_names(&self.branches);
        let confidence_history = confidences(&self.thought_history);
        let thought_graph_mermaid = generate_mermaid(self.thought_history.as_slice());
        Ok(ToolResult {
            thought_number,
            total_thoughts,
            next_thought_needed,
            branches,
            thought_history_length: self.thought_history.len(),
            thought_graph_mermaid,
            confidence_history,
            left_to_be_done,
            session_id: sid,
        })
    }

    /// The Mermaid diagram of the active session.
    pub fn generate_mermaid(&self) -> (r: String)
        ensures
            r@ == mermaid_text(thoughts_view(self.thought_history@)),
    {
        generate_mermaid(self.thought_history.as_slice())
    }

    /// Records a thought, with `now` as the instant stamped on it when it carries none and
    /// `fresh_session_id` as the session it opens when it names none and no session is active.
    ///
    /// The thought goes to the session it names (else the active one); when that differs from
    /// the active session, the session is loaded first. The thought's total estimate is raised
    /// to its number when smaller. It is saved to the store, added to its branch when it names
    /// one, and appended to the history; the result reports the state after it.
    pub fn process_thought_at(&mut self, input: ThoughtData, now: Timestamp, fresh_session_id: String) -> (r: Result<ToolResult, String>)
        ensures
            ({
                let p = prepared(input@, now);
                let sid = resolved_session(input@.session_id, old(self).current_session_id@, fresh_session_id@);
                let h = thoughts_view(final(self).thought_history@);
                &&& r is Ok ==> {
                    &&& final(self).current_session_id@ == sid
                    &&& old(self).store.saves(sid, p, final(self).store)
                    &&& h.len() >= 1
                    &&& h.last() == p
                    &&& sid != old(self).current_session_id@ ==> old(self).store.loads(sid, h.drop_last())
                    &&& sid == old(self).current_session_id@ ==> {
                        &&& h == thoughts_view(old(self).thought_history@).push(p)
                        &&& branches_view(final(self).branches@) == record_branch(branches_view(old(self).branches@), p)
                    }
                    &&& sid != old(self).current_session_id@ ==> final(self).consistent()
                }
                &&& old(self).consistent() ==> final(self).consistent()
                &&& r matches Ok(res) ==> {
                    &&& res.thought_number == p.thought_number
                    &&& res.total_thoughts == p.total_thoughts
                    &&& res.next_thought_needed == p.next_thought_needed
                    &&& strs_view(res.branches) == branch_keys(branches_view(final(self).branches@))
                    &&& res.thought_history_length == h.len()
                    &&& res.thought_graph_mermaid@ == mermaid_text(h)
                    &&& res.confidence_history@ == confidence_history(h)
                    &&& strs_view(res.left_to_be_done) == (match p.left_to_be_done { Some(l) => l, None => Seq::empty() })
                    &&& res.session_id@ == sid
                }
                &&& r is Err && sid == old(self).current_session_id@ ==> {
                    &&& thoughts_view(final(self).thought_history@) == thoughts_view(old(self).thought_history@)
                    &&& branches_view(final(self).branches@) == branches_view(old(self).branches@)
                    &&& final(self).current_session_id@ == old(self).current_session_id@
                }
            }),
    {
        let ghost sid_spec = resolved_session(input@.session_id, self.current_session_id@, fresh_session_id@);
        let sid: String = match &input.session_id {
            Some(s) => s.clone(),
            None => {
                if self.current_session_id.as_str().is_empty() {
                    fresh_session_id
                } else {
                    self.current_session_id.clone()
                }
            },
        };
        assert(sid@ == sid_spec);
        if !str_eq(sid.as_str(), self.current_session_id.as_str()) {
            match self.load_session(sid.as_str()) {
                Ok(()) => {},
                Err(e) => {
                    return Err(e);
                },
            }
        }
        let ghost h0 = thoughts_view(self.thought_history@);
        let ghost b0 = branches_view(self.branches@);
        let mut input = input;
        let ghost given = input@;
        if input.thought_number > input.total_thoughts {
            input.total_thoughts = input.thought_number;
        }
        if input.timestamp.is_none() {
            input.timestamp = Some(now);
        }
        assert(input@ == prepared(given, now));
        let ghost before_save = self.store;
        let saved = self.store.save_thought(sid.as_str(), &input);
        let ghost after_save = self.store;
        let r = self.record_thought(sid, input, saved);
        assert(r is Ok ==> before_save.saves(sid_spec, prepared(given, now), after_save));
        assert(r is Ok ==> thoughts_view(self.thought_history@).drop_last() =~= h0);
        r
    }

    /// Records a thought, stamping it with the current time when it carries no timestamp and
    /// opening a session with a fresh random identifier when it names none and none is active.
    pub fn process_thought(&mut self, input: ThoughtData) -> (r: Result<ToolResult, String>)
        ensures
            r matches Ok(res) ==> {
                &&& res.thought_number == input@.thought_number
                &&& res.total_thoughts == (if input@.thought_number > input@.total_thoughts { input@.thought_number } else { input@.total_thoughts })
                &&& res.next_thought_needed == input@.next_thought_needed
                &&& res.thought_history_length == final(self).thought_history@.len()
                &&& res.session_id@ == final(self).current_session_id@
                &&& input@.session_id matches Some(s) ==> res.session_id@ == s
                &&& (input@.session_id is None && old(self).current_session_id@.len() > 0) ==> res.session_id@ == old(self).current_session_id@
                &&& thoughts_view(final(self).thought_history@).last().timestamp is Some
                &&& res.thought_graph_mermaid@ == mermaid_text(thoughts_view(final(self).thought_history@))
                &&& strs_view(res.branches) == branch_keys(branches_view(final(self).branches@))
                &&& res.confidence_history@ == confidence_history(thoughts_view(final(self).thought_history@))
                &&& strs_view(res.left_to_be_done) == (match input@.left_to_be_done { Some(l) => l, None => Seq::empty() })
            },
            r is Err && stays_in_session(input@.session_id, old(self).current_session_id@) ==> {
                &&& thoughts_view(final(self).thought_history@) == thoughts_view(old(self).thought_history@)
                &&& branches_view(final(self).branches@) == branches_view(old(self).branches@)
                &&& final(self).current_session_id@ == old(self).current_session_id@
            },
            r is Ok ==> exists|now: Timestamp| {
                let p = #[trigger] prepared(input@, now);
                let h = thoughts_view(final(self).thought_history@);
                &&& old(self).store.saves(final(self).current_session_id@, p, final(self).store)
                &&& h.len() >= 1
                &&& h.last() == p
                &&& final(self).current_session_id@ != old(self).current_session_id@
                    ==> old(self).store.loads(final(self).current_session_id@, h.drop_last())
                &&& stays_in_session(input@.session_id, old(self).current_session_id@) ==> {
                    &&& h == thoughts_view(old(self).thought_history@).push(p)
                    &&& branches_view(final(self).branches@) == record_branch(branches_view(old(self).branches@), p)
                }
            },
            old(self).consistent() ==> final(self).consistent(),
    {
        let now = now_utc();
        let fresh = if input.session_id.is_none() && self.current_session_id.as_str().is_empty() {
            new_session_id()
        } else {
            String::new()
        };
        let ghost given = input@;
        let r = self.process_thought_at(input, now, fresh);
        assert(r is Ok ==> thoughts_view(self.thought_history@).last() == prepared(given, now));
        r
    }
}

/// A new random session identifier: `uuid::Uuid::new_v4()` rendered by `to_string` in
/// uuid's hyphenated form, 36 characters with hyphens at positions 8, 13, 18 and 23.
/// The value depends on chance; only its shape is stated.
#[verifier::external_body]
pub(crate) fn new_session_id() -> (s: String)
    ensures
        s@.len() == 36,
        s@[8] == '-' && s@[13] == '-' && s@[18] == '-' && s@[23] == '-',
{
    uuid::Uuid::new_v4().to_string()
}

} // verus!
