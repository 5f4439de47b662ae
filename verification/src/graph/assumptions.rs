//! Assumptions declared by thoughts and how later thoughts verify or refute them.

use vstd::prelude::*;
use crate::text::{
    trim, lowercase, contains_text, remove_all, chars_of, string_of, trim_chars, to_lowercase,
    contains_chars, remove_all_chars,
};
use crate::types::{ThoughtData, ThoughtView, thoughts_view, strs_view};

verus! {

impl ThoughtView {
    /// The assumptions the thought declares (empty when absent).
    pub open spec fn assumption_list(self) -> Seq<Seq<char>> {
        match self.assumptions { Some(a) => a, None => Seq::empty() }
    }

    /// The verification outcomes the thought reports (empty when absent).
    pub open spec fn verification_list(self) -> Seq<Seq<char>> {
        match self.verified_assumptions { Some(v) => v, None => Seq::empty() }
    }
}

/// Every assumption declared in a history, in order.
pub open spec fn all_assumptions(ts: Seq<ThoughtView>) -> Seq<Seq<char>>
    decreases ts.len(),
{
    if ts.len() == 0 { Seq::empty() } else { all_assumptions(ts.drop_last()) + ts.last().assumption_list() }
}

/// Every verification outcome reported in a history, in order.
pub open spec fn all_verifications(ts: Seq<ThoughtView>) -> Seq<Seq<char>>
    decreases ts.len(),
{
    if ts.len() == 0 { Seq::empty() } else { all_verifications(ts.drop_last()) + ts.last().verification_list() }
}

/// The comparable form of an assumption or outcome: trimmed, then lower-cased.
pub open spec fn normalize(s: Seq<char>) -> Seq<char> {
    lowercase(trim(s))
}

/// An outcome that mentions "refuted", "false" or "falsified" refutes an assumption.
pub open spec fn is_refutation(c: Seq<char>) -> bool {
    contains_text(c, "refuted"@) || contains_text(c, "false"@) || contains_text(c, "falsified"@)
}

/// The assumption a refuting outcome names: the outcome without its refutation markers, trimmed.
pub open spec fn refuted_core(c: Seq<char>) -> Seq<char> {
    trim(remove_all(remove_all(remove_all(remove_all(remove_all(remove_all(
        c, "refuted:"@), "refuted"@), "false:"@), "false"@), "falsified:"@), "falsified"@))
}

/// The assumption a confirming outcome names: the outcome without its confirmation markers, trimmed.
pub open spec fn confirmed_core(c: Seq<char>) -> Seq<char> {
    trim(remove_all(remove_all(remove_all(remove_all(c, "verified:"@), "verified"@), "true:"@), "true"@))
}

/// `x` is refuted by the outcome `v`.
pub open spec fn refutes(v: Seq<char>, x: Seq<char>) -> bool {
    is_refutation(normalize(v)) && x == refuted_core(normalize(v))
}

/// `x` is confirmed by the outcome `v`: a non-refuting outcome confirms both its core and itself.
pub open spec fn confirms(v: Seq<char>, x: Seq<char>) -> bool {
    !is_refutation(normalize(v)) && (x == confirmed_core(normalize(v)) || x == normalize(v))
}

/// The normalized assumptions of a history.
pub open spec fn assumed_set(ts: Seq<ThoughtView>) -> Set<Seq<char>> {
    all_assumptions(ts).map_values(|a: Seq<char>| normalize(a)).to_set()
}

/// The assumptions refuted by some outcome among the first `n` of `vs`.
pub open spec fn refuted_by(vs: Seq<Seq<char>>, n: int) -> Set<Seq<char>> {
    Set::new(|x: Seq<char>| exists|i: int| 0 <= i < n && #[trigger] refutes(vs[i], x))
}

/// The assumptions confirmed by some outcome among the first `n` of `vs`.
pub open spec fn confirmed_by(vs: Seq<Seq<char>>, n: int) -> Set<Seq<char>> {
    Set::new(|x: Seq<char>| exists|i: int| 0 <= i < n && #[trigger] confirms(vs[i], x))
}

/// The assumptions a history refutes.
pub open spec fn refuted_set(ts: Seq<ThoughtView>) -> Set<Seq<char>> {
    refuted_by(all_verifications(ts), all_verifications(ts).len() as int)
}

/// The assumptions a history confirms.
pub open spec fn confirmed_set(ts: Seq<ThoughtView>) -> Set<Seq<char>> {
    confirmed_by(all_verifications(ts), all_verifications(ts).len() as int)
}

/// `l` lists the elements of `s`, each once.
pub open spec fn enumerates(l: Seq<Seq<char>>, s: Set<Seq<char>>) -> bool {
    l.no_duplicates() && l.to_set() == s
}

/// The normalized assumptions of a history with the outcomes that confirm or refute them.
pub struct AssumptionFacts {
    pub assumed: Vec<String>,
    pub confirmed: Vec<String>,
    pub refuted: Vec<String>,
}

/// Appends the items of an optional list (none when absent).
fn append_items(r: &mut Vec<String>, items: &Option<Vec<String>>)
    ensures
        strs_view(*final(r)) == strs_view(*old(r)) + (match items {
            Some(l) => strs_view(*l),
            None => Seq::<Seq<char>>::empty(),
        }),
{
    let ghost before = strs_view(*r);
    match items {
        Some(list) => {
            let mut j: usize = 0;
            while j < list.len()
                invariant
                    j <= list@.len(),
                    strs_view(*r) == before + strs_view(*list).take(j as int),
                decreases list@.len() - j,
            {
                let ghost pre = strs_view(*r);
                r.push(list[j].clone());
                assert(strs_view(*r) =~= pre.push(list@[j as int]@));
                assert(strs_view(*list).take(j + 1) =~= strs_view(*list).take(j as int).push(list@[j as int]@));
                assert(strs_view(*r) =~= before + strs_view(*list).take(j + 1));
                j = j + 1;
            }
            assert(strs_view(*list).take(list@.len() as int) =~= strs_view(*list));
        },
        None => {
            assert(before + Seq::<Seq<char>>::empty() =~= before);
        },
    }
}

pub fn flatten_assumptions(thoughts: &[ThoughtData]) -> (r: Vec<String>)
    ensures
        strs_view(r) == all_assumptions(thoughts_view(thoughts@)),
{
    let ghost tv = thoughts_view(thoughts@);
    let mut r: Vec<String> = Vec::new();
    let mut i: usize = 0;
    assert(tv.take(0) =~= Seq::<ThoughtView>::empty());
    assert(strs_view(r) =~= Seq::<Seq<char>>::empty());
    while i < thoughts.len()
        invariant
            i <= thoughts@.len(),
            tv == thoughts_view(thoughts@),
            strs_view(r) == all_assumptions(tv.take(i as int)),
        decreases thoughts@.len() - i,
    {
        append_items(&mut r, &thoughts[i].assumptions);
        proof {
            assert(tv.take(i + 1).drop_last() =~= tv.take(i as int));
            assert(tv.take(i + 1).last() == thoughts@[i as int]@);
        }
        i = i + 1;
    }
    assert(tv.take(thoughts@.len() as int) =~= tv);
    r
}

pub fn flatten_verifications(thoughts: &[ThoughtData]) -> (r: Vec<String>)
    ensures
        strs_view(r) == all_verifications(thoughts_view(thoughts@)),
{
    let ghost tv = thoughts_view(thoughts@);
    let mut r: Vec<String> = Vec::new();
    let mut i: usize = 0;
    assert(tv.take(0) =~= Seq::<ThoughtView>::empty());
    assert(strs_view(r) =~= Seq::<Seq<char>>::empty());
    while i < thoughts.len()
        invariant
            i <= thoughts@.len(),
            tv == thoughts_view(thoughts@),
            strs_view(r) == all_verifications(tv.take(i as int)),
        decreases thoughts@.len() - i,
    {
        append_items(&mut r, &thoughts[i].verified_assumptions);
        proof {
            assert(tv.take(i + 1).drop_last() =~= tv.take(i as int));
            assert(tv.take(i + 1).last() == thoughts@[i as int]@);
        }
        i = i + 1;
    }
    assert(tv.take(thoughts@.len() as int) =~= tv);
    r
}

/// Whether a list holds a string.
pub fn has_string(list: &Vec<String>, x: &String) -> (r: bool)
    ensures
        r == strs_view(*list).contains(x@),
{
    let mut i: usize = 0;
    while i < list.len()
        invariant
            i <= list@.len(),
            forall|j: int| 0 <= j < i ==> #[trigger] list@[j]@ != x@,
        decreases list@.len() - i,
    {
        if list[i] == *x {
            assert(strs_view(*list)[i as int] == x@);
            return true;
        }
        i = i + 1;
    }
    assert forall|j: int| 0 <= j < strs_view(*list).len() implies #[trigger] strs_view(*list)[j] != x@ by {
        assert(list@[j]@ != x@);
    }
    false
}

/// Adds `x` to a duplicate-free list unless it is already there.
pub fn insert_unique(list: &mut Vec<String>, x: String)
    requires
        strs_view(*old(list)).no_duplicates(),
    ensures
        strs_view(*final(list)).no_duplicates(),
        strs_view(*final(list)).to_set() == strs_view(*old(list)).to_set().insert(x@),
{
    let ghost before = strs_view(*list);
    if !has_string(list, &x) {
        list.push(x);
        proof {
            assert(strs_view(*list) =~= before.push(x@));
            assert forall|y: Seq<char>| #[trigger] strs_view(*list).to_set().contains(y) <==> before.to_set().insert(x@).contains(y) by {
                if strs_view(*list).contains(y) {
                    let k = choose|k: int| 0 <= k < strs_view(*list).len() && strs_view(*list)[k] == y;
                    if k < before.len() {
                        assert(before[k] == y);
                    }
                }
                if before.contains(y) {
                    let k = choose|k: int| 0 <= k < before.len() && before[k] == y;
                    assert(strs_view(*list)[k] == y);
                }
                if y == x@ {
                    assert(strs_view(*list)[before.len() as int] == y);
                }
            }
            assert(strs_view(*list).to_set() =~= before.to_set().insert(x@));
        }
    } else {
        assert(before.to_set() =~= before.to_set().insert(x@));
    }
}

fn normalized(s: &String) -> (r: String)
    ensures
        r@ == normalize(s@),
{
    let t = string_of(&trim_chars(&chars_of(s.as_str())));
    to_lowercase(t.as_str())
}

fn refuted_core_exec(c: &Vec<char>) -> (r: String)
    ensures
        r@ == refuted_core(c@),
{
    let a = remove_all_chars(c, &chars_of("refuted:"));
    let b = remove_all_chars(&a, &chars_of("refuted"));
    let d = remove_all_chars(&b, &chars_of("false:"));
    let e = remove_all_chars(&d, &chars_of("false"));
    let f = remove_all_chars(&e, &chars_of("falsified:"));
    let g = remove_all_chars(&f, &chars_of("falsified"));
    string_of(&trim_chars(&g))
}

fn confirmed_core_exec(c: &Vec<char>) -> (r: String)
    ensures
        r@ == confirmed_core(c@),
{
    let a = remove_all_chars(c, &chars_of("verified:"));
    let b = remove_all_chars(&a, &chars_of("verified"));
    let d = remove_all_chars(&b, &chars_of("true:"));
    let e = remove_all_chars(&d, &chars_of("true"));
    string_of(&trim_chars(&e))
}

/// The normalized assumptions of `thoughts`, and the assumptions their outcomes confirm and
/// refute, each listed once.
pub fn assumption_facts(thoughts: &[ThoughtData]) -> (r: AssumptionFacts)
    ensures
        enumerates(strs_view(r.assumed), assumed_set(thoughts_view(thoughts@))),
        enumerates(strs_view(r.confirmed), confirmed_set(thoughts_view(thoughts@))),
        enumerates(strs_view(r.refuted), refuted_set(thoughts_view(thoughts@))),
{
    let ghost tv = thoughts_view(thoughts@);
    let raw = flatten_assumptions(thoughts);
    let ghost na = strs_view(raw).map_values(|a: Seq<char>| normalize(a));
    let mut assumed: Vec<String> = Vec::new();
    let mut k: usize = 0;
    assert(strs_view(assumed) =~= Seq::<Seq<char>>::empty());
    assert(na.take(0).to_set() =~= strs_view(assumed).to_set());
    while k < raw.len()
        invariant
            k <= raw@.len(),
            na == strs_view(raw).map_values(|a: Seq<char>| normalize(a)),
            strs_view(assumed).no_duplicates(),
            strs_view(assumed).to_set() == na.take(k as int).to_set(),
        decreases raw@.len() - k,
    {
        let x = normalized(&raw[k]);
        proof {
            assert(na[k as int] == x@);
            assert(na.take(k + 1) =~= na.take(k as int).push(x@));
            crate::graph::quality::lemma_push_to_set_any(na.take(k as int), x@);
        }
        insert_unique(&mut assumed, x);
        k = k + 1;
    }
    assert(na.take(raw@.len() as int) =~= na);

    let outcomes = flatten_verifications(thoughts);
    let ghost vs = strs_view(outcomes);
    let mut confirmed: Vec<String> = Vec::new();
    let mut refuted: Vec<String> = Vec::new();
    assert(strs_view(confirmed) =~= Seq::<Seq<char>>::empty());
    assert(strs_view(refuted) =~= Seq::<Seq<char>>::empty());
    assert(confirmed_by(vs, 0) =~= Set::empty());
    assert(refuted_by(vs, 0) =~= Set::empty());
    let mut m: usize = 0;
    while m < outcomes.len()
        invariant
            m <= outcomes@.len(),
            vs == strs_view(outcomes),
            strs_view(confirmed).no_duplicates(),
            strs_view(refuted).no_duplicates(),
            strs_view(confirmed).to_set() == confirmed_by(vs, m as int),
            strs_view(refuted).to_set() == refuted_by(vs, m as int),
        decreases outcomes@.len() - m,
    {
        let v = &outcomes[m];
        assert(vs[m as int] == v@);
        let clean = normalized(v);
        let cs = chars_of(clean.as_str());
        let refuting = contains_chars(&cs, &chars_of("refuted"))
            || contains_chars(&cs, &chars_of("false"))
            || contains_chars(&cs, &chars_of("falsified"));
        if refuting {
            let core = refuted_core_exec(&cs);
            proof {
                assert(refuted_by(vs, m + 1) =~= refuted_by(vs, m as int).insert(core@)) by {
                    assert(refutes(vs[m as int], core@));
                }
                assert(confirmed_by(vs, m + 1) =~= confirmed_by(vs, m as int));
            }
            insert_unique(&mut refuted, core);
        } else {
            let core = confirmed_core_exec(&cs);
            proof {
                assert(confirmed_by(vs, m + 1) =~= confirmed_by(vs, m as int).insert(core@).insert(clean@)) by {
                    assert(confirms(vs[m as int], core@));
                    assert(confirms(vs[m as int], clean@));
                }
                assert(refuted_by(vs, m + 1) =~= refuted_by(vs, m as int));
            }
            insert_unique(&mut confirmed, core);
            insert_unique(&mut confirmed, clean);
        }
        m = m + 1;
    }
    AssumptionFacts { assumed, confirmed, refuted }
}

/// The elements of a duplicate-free `list` that `keep` (or `also`) holds, in order, when
/// `wanted` is true; those that neither holds when `wanted` is false.
pub fn select_members(list: &Vec<String>, keep: &Vec<String>, also: &Vec<String>, wanted: bool) -> (r: Vec<String>)
    requires
        strs_view(*list).no_duplicates(),
    ensures
        strs_view(r).no_duplicates(),
        strs_view(r).to_set() == strs_view(*list).to_set().filter(
            |x: Seq<char>| (strs_view(*keep).contains(x) || strs_view(*also).contains(x)) == wanted),
{
    let ghost l = strs_view(*list);
    let ghost pred = |x: Seq<char>| (strs_view(*keep).contains(x) || strs_view(*also).contains(x)) == wanted;
    let mut r: Vec<String> = Vec::new();
    let mut i: usize = 0;
    assert(strs_view(r).to_set() =~= l.take(0).to_set().filter(pred));
    while i < list.len()
        invariant
            i <= list@.len(),
            l == strs_view(*list),
            l.no_duplicates(),
            pred == (|x: Seq<char>| (strs_view(*keep).contains(x) || strs_view(*also).contains(x)) == wanted),
            strs_view(r).no_duplicates(),
            strs_view(r).to_set() == l.take(i as int).to_set().filter(pred),
        decreases list@.len() - i,
    {
        let x = &list[i];
        assert(l[i as int] == x@);
        proof {
            assert(l.take(i + 1) =~= l.take(i as int).push(x@));
            crate::graph::quality::lemma_push_to_set_any(l.take(i as int), x@);
            assert(!l.take(i as int).contains(x@)) by {
                if l.take(i as int).contains(x@) {
                    let j = choose|j: int| 0 <= j < i && l.take(i as int)[j] == x@;
                    assert(l[j] == l[i as int]);
                }
            }
        }
        let member = has_string(keep, x) || has_string(also, x);
        if member == wanted {
            let ghost before = strs_view(r);
            r.push(x.clone());
            proof {
                assert(strs_view(r) =~= before.push(x@));
                crate::graph::quality::lemma_push_to_set_any(before, x@);
                assert(!before.contains(x@)) by {
                    if before.contains(x@) {
                        assert(before.to_set().contains(x@));
                    }
                }
                assert(strs_view(r).to_set() =~= l.take(i + 1).to_set().filter(pred));
            }
        } else {
            proof {
                assert(strs_view(r).to_set() =~= l.take(i + 1).to_set().filter(pred));
            }
        }
        i = i + 1;
    }
    assert(l.take(list@.len() as int) =~= l);
    r
}

/// The message recorded for an assumption that is declared and refuted.
pub open spec fn contradiction_message(a: Seq<char>, assumed_word: Seq<char>) -> Seq<char> {
    "Assumption '"@ + a + assumed_word
}

/// One message per listed assumption: "Assumption '<a>" followed by `tail`.
pub fn contradiction_messages(list: &Vec<String>, tail: &str) -> (r: Vec<String>)
    ensures
        strs_view(r) == strs_view(*list).map_values(|a: Seq<char>| contradiction_message(a, tail@)),
{
    let mut r: Vec<String> = Vec::new();
    let mut i: usize = 0;
    while i < list.len()
        invariant
            i <= list@.len(),
            r@.len() == i,
            forall|j: int| 0 <= j < i ==> #[trigger] r@[j]@ == contradiction_message(list@[j]@, tail@),
        decreases list@.len() - i,
    {
        let mut m = String::from_str("Assumption '");
        crate::text::push_str(&mut m, list[i].as_str());
        crate::text::push_str(&mut m, tail);
        r.push(m);
        i = i + 1;
    }
    assert(strs_view(r) =~= strs_view(*list).map_values(|a: Seq<char>| contradiction_message(a, tail@)));
    r
}

/// The form of an outcome once its "verified:", "refuted:" and "false:" markers are deleted, trimmed.
pub open spec fn loose_core(v: Seq<char>) -> Seq<char> {
    trim(remove_all(remove_all(remove_all(v, "verified:"@), "refuted:"@), "false:"@))
}

/// Texts an outcome accounts for when assumptions are matched verbatim: the outcome itself
/// and its form without markers.
pub open spec fn loosely_checked(vs: Seq<Seq<char>>, n: int) -> Set<Seq<char>> {
    Set::new(|x: Seq<char>| exists|i: int| 0 <= i < n && (x == #[trigger] loose_core(vs[i]) || x == vs[i]))
}

/// Declared assumptions, verbatim, that no outcome accounts for.
pub open spec fn unverified_set(tv: Seq<ThoughtView>) -> Set<Seq<char>> {
    all_assumptions(tv).to_set().filter(
        |x: Seq<char>| !loosely_checked(all_verifications(tv), all_verifications(tv).len() as int).contains(x))
}

/// Declared assumptions, verbatim, that no outcome accounts for, each listed once.
pub fn unverified_assumptions(thoughts: &[ThoughtData]) -> (r: Vec<String>)
    ensures
        enumerates(strs_view(r), unverified_set(thoughts_view(thoughts@))),
{
    let ghost tv = thoughts_view(thoughts@);
    let raw = flatten_assumptions(thoughts);
    let ghost ra = strs_view(raw);
    let mut assumed: Vec<String> = Vec::new();
    assert(strs_view(assumed) =~= Seq::<Seq<char>>::empty());
    assert(ra.take(0).to_set() =~= strs_view(assumed).to_set());
    let mut k: usize = 0;
    while k < raw.len()
        invariant
            k <= raw@.len(),
            ra == strs_view(raw),
            strs_view(assumed).no_duplicates(),
            strs_view(assumed).to_set() == ra.take(k as int).to_set(),
        decreases raw@.len() - k,
    {
        assert(ra[k as int] == raw@[k as int]@);
        proof {
            assert(ra.take(k + 1) =~= ra.take(k as int).push(ra[k as int]));
            crate::graph::quality::lemma_push_to_set_any(ra.take(k as int), ra[k as int]);
        }
        insert_unique(&mut assumed, raw[k].clone());
        k = k + 1;
    }
    assert(ra.take(raw@.len() as int) =~= ra);
    let outcomes = flatten_verifications(thoughts);
    let ghost vs = strs_view(outcomes);
    let mut checked: Vec<String> = Vec::new();
    assert(strs_view(checked) =~= Seq::<Seq<char>>::empty());
    assert(loosely_checked(vs, 0) =~= Set::empty());
    let mut m: usize = 0;
    while m < outcomes.len()
        invariant
            m <= outcomes@.len(),
            vs == strs_view(outcomes),
            strs_view(checked).no_duplicates(),
            strs_view(checked).to_set() == loosely_checked(vs, m as int),
        decreases outcomes@.len() - m,
    {
        let v = &outcomes[m];
        assert(vs[m as int] == v@);
        let cs = chars_of(v.as_str());
        let a = remove_all_chars(&cs, &chars_of("verified:"));
        let b = remove_all_chars(&a, &chars_of("refuted:"));
        let d = remove_all_chars(&b, &chars_of("false:"));
        let core = string_of(&trim_chars(&d));
        proof {
            assert(loosely_checked(vs, m + 1) =~= loosely_checked(vs, m as int).insert(core@).insert(v@)) by {
                assert(core@ == loose_core(vs[m as int]));
            }
        }
        insert_unique(&mut checked, core);
        insert_unique(&mut checked, v.clone());
        m = m + 1;
    }
    let none: Vec<String> = Vec::new();
    assert(strs_view(none) =~= Seq::<Seq<char>>::empty());
    let r = select_members(&assumed, &checked, &none, false);
    assert(strs_view(r).to_set() =~= unverified_set(tv));
    r
}

} // verus!
