//! The experience store: an ordered collection of records with unique ids.
use vstd::prelude::*;
use crate::experience::{experience_id, Experience};
use crate::text::{chars_of, contains_chars, lower_of, seq_contains, to_lower};

verus! {

/// No two records share an id.
pub open spec fn ids_unique(s: Seq<Experience>) -> bool {
    forall|i: int, j: int| 0 <= i < j < s.len() ==> s[i].id@ != s[j].id@
}

/// Some record has this id.
pub open spec fn has_id(s: Seq<Experience>, id: Seq<char>) -> bool {
    exists|i: int| 0 <= i < s.len() && #[trigger] s[i].id@ == id
}

/// The length of the longest id in `s` (0 when `s` is empty).
pub open spec fn longest_id(s: Seq<Experience>) -> nat
    decreases s.len(),
{
    if s.len() == 0 {
        0
    } else {
        let m = longest_id(s.drop_last());
        if s.last().id@.len() > m {
            s.last().id@.len()
        } else {
            m
        }
    }
}

/// The id a new record gets when `base` is what it asks for: `base` itself
/// when no stored record has it, else `base` padded with `+` to one character
/// longer than every stored id.
pub open spec fn fresh_id(s: Seq<Experience>, base: Seq<char>) -> Seq<char> {
    if !has_id(s, base) {
        base
    } else {
        base + Seq::new((longest_id(s) + 1 - base.len()) as nat, |_i: int| '+')
    }
}

/// `after` is `before` with `rec` appended.
pub open spec fn appended(before: Seq<Experience>, after: Seq<Experience>, rec: Experience) -> bool {
    after == before.push(rec)
}

/// Position of the first record of `s` at or after `i` whose id is `id`, or -1.
pub open spec fn find_id_from(s: Seq<Experience>, id: Seq<char>, i: int) -> int
    decreases s.len() - i,
{
    if i < 0 || i >= s.len() {
        -1
    } else if s[i].id@ == id {
        i
    } else {
        find_id_from(s, id, i + 1)
    }
}

/// Position of the record of `s` whose id is `id`, or -1.
pub open spec fn find_id(s: Seq<Experience>, id: Seq<char>) -> int {
    find_id_from(s, id, 0)
}

/// Does `e`'s content contain `q_low` once both are lower-cased?
pub open spec fn matches_query(e: Experience, q_low: Seq<char>) -> bool {
    seq_contains(lower_of(e.content@), q_low)
}

/// The records of `s` whose lower-cased content contains `q_low`, in order.
pub open spec fn matching(s: Seq<Experience>, q_low: Seq<char>) -> Seq<Experience>
    decreases s.len(),
{
    if s.len() == 0 {
        Seq::empty()
    } else {
        let rest = matching(s.drop_last(), q_low);
        if matches_query(s.last(), q_low) {
            rest.push(s.last())
        } else {
            rest
        }
    }
}

proof fn lemma_longest_bounds(s: Seq<Experience>)
    ensures
        forall|i: int| 0 <= i < s.len() ==> #[trigger] s[i].id@.len() <= longest_id(s),
    decreases s.len(),
{
    if s.len() > 0 {
        lemma_longest_bounds(s.drop_last());
        assert forall|i: int| 0 <= i < s.len() implies #[trigger] s[i].id@.len() <= longest_id(s) by {
            if i < s.len() - 1 {
                assert(s[i] == s.drop_last()[i]);
            }
        }
    }
}

proof fn lemma_fresh_id_is_new(s: Seq<Experience>, base: Seq<char>)
    ensures
        !has_id(s, fresh_id(s, base)),
{
    if has_id(s, base) {
        lemma_longest_bounds(s);
        let i = choose|i: int| 0 <= i < s.len() && #[trigger] s[i].id@ == base;
        assert(base.len() <= longest_id(s));
        assert(fresh_id(s, base).len() == longest_id(s) + 1);
    }
}

proof fn lemma_find_from(s: Seq<Experience>, id: Seq<char>, i: int, k: int)
    requires
        0 <= i <= k < s.len(),
        s[k].id@ == id,
        forall|m: int| i <= m < k ==> #[trigger] s[m].id@ != id,
    ensures
        find_id_from(s, id, i) == k,
    decreases k - i,
{
    if i < k {
        lemma_find_from(s, id, i + 1, k);
    }
}

proof fn lemma_find_unique(s: Seq<Experience>, k: int)
    requires
        ids_unique(s),
        0 <= k < s.len(),
    ensures
        find_id(s, s[k].id@) == k,
{
    lemma_find_from(s, s[k].id@, 0, k);
}

/// Number of appends since the last clear, for a history of operations where
/// `true` is an append and `false` a clear.
pub open spec fn appends_since_clear(ops: Seq<bool>) -> nat
    decreases ops.len(),
{
    if ops.len() == 0 {
        0
    } else if ops.last() {
        appends_since_clear(ops.drop_last()) + 1
    } else {
        0
    }
}

/// Starting from an empty store, after any history of appends and clears the
/// store holds as many records as there were appends since the last clear.
/// `states[i + 1]` is the store after operation `ops[i]`; `recs[i]` is what an
/// append returned.
pub proof fn lemma_count_tracks_appends(
    states: Seq<Seq<Experience>>,
    ops: Seq<bool>,
    recs: Seq<Experience>,
)
    requires
        states.len() == ops.len() + 1,
        recs.len() == ops.len(),
        states[0].len() == 0,
        forall|i: int|
            0 <= i < ops.len() ==> (#[trigger] ops[i] ==> appended(states[i], states[i + 1], recs[i])),
        forall|i: int| 0 <= i < ops.len() ==> (!#[trigger] ops[i] ==> states[i + 1].len() == 0),
    ensures
        states.last().len() == appends_since_clear(ops),
    decreases ops.len(),
{
    if ops.len() > 0 {
        let k = ops.len() - 1;
        lemma_count_tracks_appends(states.drop_last(), ops.drop_last(), recs.drop_last());
        assert(states.drop_last().last() == states[k]);
        if ops[k] {
            assert(appended(states[k], states[k + 1], recs[k]));
        }
    }
}

/// A record is found by the id it was stored under, right after it was
/// appended: the lookup lands on the new last position.
pub proof fn lemma_appended_is_found(before: Seq<Experience>, after: Seq<Experience>, rec: Experience)
    requires
        appended(before, after, rec),
        ids_unique(after),
    ensures
        find_id(after, rec.id@) == before.len(),
        after[find_id(after, rec.id@)] == rec,
{
    lemma_find_unique(after, before.len() as int);
}

/// What restoring a snapshot of `exps` yields: the same records, when their
/// ids are unique.
pub open spec fn restored(exps: Seq<Experience>) -> Option<Seq<Experience>> {
    if ids_unique(exps) {
        Some(exps)
    } else {
        None
    }
}

/// Restoring a store's snapshot gives back the same records, ids, contents and
/// order included.
pub proof fn lemma_snapshot_round_trip(m: Memory)
    requires
        m.wf(),
    ensures
        restored(m@) == Some(m@),
{
}

/// After a run of appends, every appended record is present, in the order of
/// the appends, and no two of them share an id.
pub proof fn lemma_appends_all_present(states: Seq<Seq<Experience>>, recs: Seq<Experience>)
    requires
        states.len() == recs.len() + 1,
        forall|i: int| 0 <= i < recs.len() ==> appended(states[i], #[trigger] states[i + 1], recs[i]),
        ids_unique(states.last()),
    ensures
        states.last() == states[0] + recs,
        forall|i: int, j: int| 0 <= i < j < recs.len() ==> recs[i].id@ != recs[j].id@,
        forall|i: int| 0 <= i < recs.len() ==> has_id(states.last(), #[trigger] recs[i].id@),
    decreases recs.len(),
{
    if recs.len() == 0 {
        assert(states.last() =~= states[0] + recs);
    } else {
        let k = recs.len() - 1;
        let pre = states.drop_last();
        assert(appended(states[k], states[k + 1], recs[k]));
        assert forall|i: int, j: int| 0 <= i < j < pre.last().len() implies pre.last()[i].id@
            != pre.last()[j].id@ by {
            assert(pre.last()[i] == states.last()[i]);
            assert(pre.last()[j] == states.last()[j]);
        }
        assert forall|i: int| 0 <= i < recs.drop_last().len() implies appended(
            pre[i],
            #[trigger] pre[i + 1],
            recs.drop_last()[i],
        ) by {
            assert(appended(states[i], states[i + 1], recs[i]));
        }
        lemma_appends_all_present(pre, recs.drop_last());
        assert(states.last() =~= states[0] + recs);
        let n0 = states[0].len();
        assert forall|i: int, j: int| 0 <= i < j < recs.len() implies recs[i].id@
            != recs[j].id@ by {
            assert(states.last()[n0 + i] == recs[i]);
            assert(states.last()[n0 + j] == recs[j]);
        }
        assert forall|i: int| 0 <= i < recs.len() implies has_id(
            states.last(),
            #[trigger] recs[i].id@,
        ) by {
            assert(states.last()[n0 + i] == recs[i]);
        }
    }
}

/// `t.push(l)` holds `e` exactly when `t` does or `e` is `l`.
pub proof fn lemma_push_contains(t: Seq<Experience>, l: Experience, e: Experience)
    ensures
        t.push(l).contains(e) <==> t.contains(e) || e == l,
{
    if t.push(l).contains(e) {
        let i = choose|i: int| 0 <= i < t.push(l).len() && t.push(l)[i] == e;
        if i < t.len() {
            assert(t[i] == e);
        }
    }
    if t.contains(e) {
        let i = choose|i: int| 0 <= i < t.len() && t[i] == e;
        assert(t.push(l)[i] == e);
    }
    if e == l {
        assert(t.push(l)[t.len() as int] == e);
    }
}

/// A record is in `matching(s, q)` exactly when it is in `s` and its
/// lower-cased content contains `q`.
pub proof fn lemma_matching_members(s: Seq<Experience>, q: Seq<char>, e: Experience)
    ensures
        matching(s, q).contains(e) <==> s.contains(e) && matches_query(e, q),
    decreases s.len(),
{
    if s.len() > 0 {
        let t = s.drop_last();
        let l = s.last();
        lemma_matching_members(t, q, e);
        assert(s =~= t.push(l));
        lemma_push_contains(t, l, e);
        lemma_push_contains(matching(t, q), l, e);
    }
}

/// Search ignores case: a record is found by a query exactly when its
/// lower-cased content contains the lower-cased query, so queries that
/// lower-case alike find the same records.
pub proof fn lemma_search_ignores_case(s: Seq<Experience>, q1: Seq<char>, q2: Seq<char>)
    requires
        lower_of(q1) == lower_of(q2),
    ensures
        matching(s, lower_of(q1)) == matching(s, lower_of(q2)),
        forall|e: Experience| #[trigger]
            matching(s, lower_of(q1)).contains(e) <==> s.contains(e) && seq_contains(
                lower_of(e.content@),
                lower_of(q1),
            ),
{
    assert forall|e: Experience| #[trigger]
        matching(s, lower_of(q1)).contains(e) <==> s.contains(e) && seq_contains(
            lower_of(e.content@),
            lower_of(q1),
        ) by {
        lemma_matching_members(s, lower_of(q1), e);
    }
}

/// Records, in insertion order; ids are unique.
pub struct Memory {
    experiences: Vec<Experience>,
}

impl View for Memory {
    type V = Seq<Experience>;

    closed spec fn view(&self) -> Seq<Experience> {
        self.experiences@
    }
}

impl Clone for Memory {
    fn clone(&self) -> (r: Self)
        ensures
            r@ == self@,
    {
        Memory { experiences: copy_records(&self.experiences) }
    }
}

impl Default for Memory {
    fn default() -> (r: Self)
        ensures
            r@ == Seq::<Experience>::empty(),
    {
        Self::new()
    }
}

/// A copy of each record, in order.
fn copy_records(v: &Vec<Experience>) -> (r: Vec<Experience>)
    ensures
        r@ == v@,
{
    let mut r: Vec<Experience> = Vec::new();
    let mut i: usize = 0;
    while i < v.len()
        invariant
            i <= v@.len(),
            r@ == v@.take(i as int),
        decreases v@.len() - i,
    {
        r.push(v[i].clone());
        i = i + 1;
        assert(r@ =~= v@.take(i as int));
    }
    assert(v@.take(i as int) =~= v@);
    r
}

impl Memory {
    /// The store's invariant: ids are unique.
    pub open spec fn wf(&self) -> bool {
        ids_unique(self@)
    }

    /// An empty store.
    pub fn new() -> (r: Memory)
        ensures
            r@ == Seq::<Experience>::empty(),
            r.wf(),
    {
        Memory { experiences: Vec::new() }
    }

    /// A store holding `exps` in order; refused when two of them share an id.
    pub fn from_experiences(exps: Vec<Experience>) -> (r: Result<Memory, String>)
        ensures
            r is Ok <==> ids_unique(exps@),
            r matches Ok(m) ==> m@ == exps@ && m.wf(),
    {
        let n = exps.len();
        let mut i: usize = 0;
        while i < n
            invariant
                n == exps@.len(),
                i <= n,
                forall|a: int, b: int| 0 <= a < b < n && a < i ==> exps@[a].id@ != exps@[b].id@,
            decreases n - i,
        {
            let mut j: usize = i + 1;
            while j < n
                invariant
                    n == exps@.len(),
                    i < n,
                    i < j <= n,
                    forall|a: int, b: int| 0 <= a < b < n && a < i ==> exps@[a].id@ != exps@[b].id@,
                    forall|b: int| i < b < j ==> exps@[i as int].id@ != exps@[b].id@,
                decreases n - j,
            {
                if exps[i].id == exps[j].id {
                    return Err(String::from_str("duplicate experience id"));
                }
                j = j + 1;
            }
            i = i + 1;
        }
        Ok(Memory { experiences: exps })
    }

    /// All records, in insertion order.
    pub fn get_experiences(&self) -> (r: &[Experience])
        ensures
            r@ == self@,
    {
        self.experiences.as_slice()
    }

    /// A copy of all records, in insertion order.
    pub fn list(&self) -> (r: Vec<Experience>)
        ensures
            r@ == self@,
    {
        copy_records(&self.experiences)
    }

    /// Number of stored records.
    pub fn experiences_len(&self) -> (r: usize)
        ensures
            r == self@.len(),
    {
        self.experiences.len()
    }

    /// Is the store empty?
    pub fn is_empty(&self) -> (r: bool)
        ensures
            r == (self@.len() == 0),
    {
        self.experiences.len() == 0
    }

    /// The id a record asking for `base` gets here.
    fn unique_id(&self, base: String) -> (r: String)
        ensures
            r@ == fresh_id(self@, base@),
            !has_id(self@, r@),
    {
        let n = self.experiences.len();
        let mut found = false;
        let mut longest: usize = 0;
        let mut i: usize = 0;
        while i < n
            invariant
                n == self@.len(),
                i <= n,
                found <==> exists|k: int| 0 <= k < i && #[trigger] self@[k].id@ == base@,
                longest == longest_id(self@.take(i as int)),
            decreases n - i,
        {
            let e = &self.experiences[i];
            assert(self@.take(i + 1).drop_last() =~= self@.take(i as int));
            if e.id == base {
                found = true;
            }
            let len = e.id.as_str().unicode_len();
            if len > longest {
                longest = len;
            }
            i = i + 1;
        }
        assert(self@.take(n as int) =~= self@);
        proof {
            lemma_fresh_id_is_new(self@, base@);
        }
        if !found {
            return base;
        }
        proof {
            lemma_longest_bounds(self@);
            let k = choose|k: int| 0 <= k < n && #[trigger] self@[k].id@ == base@;
            assert(self@[k].id@.len() <= longest);
        }
        let base_len = base.as_str().unicode_len();
        let mut r = base;
        let mut k: usize = base_len;
        proof {
            reveal_strlit("+");
        }
        assert(r@ =~= base@ + Seq::new((k - base_len) as nat, |_i: int| '+'));
        while k < longest
            invariant
                base_len == base@.len(),
                base_len <= k <= longest,
                r@ == base@ + Seq::new((k - base_len) as nat, |_i: int| '+'),
            decreases longest - k,
        {
            r.append("+");
            proof {
                reveal_strlit("+");
            }
            k = k + 1;
            assert(r@ =~= base@ + Seq::new((k - base_len) as nat, |_i: int| '+'));
        }
        r.append("+");
        assert(r@ =~= base@ + Seq::new((longest + 1 - base_len) as nat, |_i: int| '+'));
        r
    }

    /// Stores `exp` at the end. Its id is kept unless a stored record already
    /// has it; then it is padded with `+` until no stored id is as long.
    /// Returns the record as stored.
    pub fn remember(&mut self, exp: Experience) -> (stored: Experience)
        requires
            old(self).wf(),
        ensures
            final(self).wf(),
            appended(old(self)@, final(self)@, stored),
            stored.id@ == fresh_id(old(self)@, exp.id@),
            stored.timestamp == exp.timestamp,
            stored.source == exp.source,
            stored.content == exp.content,
            stored.metadata == exp.metadata,
    {
        let Experience { id, timestamp, source, content, metadata } = exp;
        let id = self.unique_id(id);
        let stored = Experience { id, timestamp, source, content, metadata };
        let keep = stored.clone();
        self.experiences.push(stored);
        assert forall|i: int, j: int| 0 <= i < j < self@.len() implies self@[i].id@
            != self@[j].id@ by {
            if j == self@.len() - 1 {
                assert(self@[i] == old(self)@[i]);
            }
        }
        keep
    }

    /// Appends a new record of `content` from `source`, stamped with the
    /// current time, and returns it as stored.
    pub fn append(&mut self, content: &str, source: &str, metadata: Option<String>) -> (stored:
        Experience)
        requires
            old(self).wf(),
        ensures
            final(self).wf(),
            appended(old(self)@, final(self)@, stored),
            stored.id@ == fresh_id(old(self)@, experience_id(stored.timestamp as int, source@)),
            stored.source@ == source@,
            stored.content@ == content@,
            stored.metadata == metadata,
    {
        let exp = match metadata {
            Some(m) => Experience::with_metadata(content, source, m),
            None => Experience::new(content, source),
        };
        self.remember(exp)
    }

    /// The record with id `id`, if any.
    pub fn get_by_id(&self, id: &str) -> (r: Option<&Experience>)
        ensures
            find_id(self@, id@) >= 0 ==> r == Some(&self@[find_id(self@, id@)]),
            find_id(self@, id@) < 0 ==> r is None,
            r is None <==> !has_id(self@, id@),
    {
        let key = String::from_str(id);
        let n = self.experiences.len();
        let mut i: usize = 0;
        while i < n
            invariant
                n == self@.len(),
                key@ == id@,
                i <= n,
                find_id_from(self@, id@, 0) == find_id_from(self@, id@, i as int),
                forall|k: int| 0 <= k < i ==> #[trigger] self@[k].id@ != id@,
            decreases n - i,
        {
            if self.experiences[i].id == key {
                return Some(&self.experiences[i]);
            }
            i = i + 1;
        }
        None
    }

    /// The records whose content contains `query`, compared case-insensitively,
    /// in insertion order. The empty query matches every record.
    pub fn search(&self, query: &str) -> (r: Vec<Experience>)
        ensures
            r@ == matching(self@, lower_of(query@)),
    {
        let q = to_lower(query);
        let qc = chars_of(q.as_str());
        let n = self.experiences.len();
        let mut r: Vec<Experience> = Vec::new();
        let mut i: usize = 0;
        while i < n
            invariant
                n == self@.len(),
                i <= n,
                qc@ == lower_of(query@),
                r@ == matching(self@.take(i as int), lower_of(query@)),
            decreases n - i,
        {
            let e = &self.experiences[i];
            assert(self@.take(i + 1).drop_last() =~= self@.take(i as int));
            let low = to_lower(e.content.as_str());
            let lc = chars_of(low.as_str());
            if contains_chars(&lc, &qc) {
                r.push(e.clone());
            }
            i = i + 1;
        }
        assert(self@.take(n as int) =~= self@);
        r
    }

    /// Removes every record.
    pub fn clear(&mut self)
        ensures
            final(self)@ == Seq::<Experience>::empty(),
            final(self).wf(),
    {
        self.experiences.clear();
    }

    /// Replaces every record with `exps`, which must have unique ids; on a
    /// refusal the store is left as it was.
    pub fn restore_from(&mut self, exps: Vec<Experience>) -> (r: Result<(), String>)
        requires
            old(self).wf(),
        ensures
            final(self).wf(),
            r is Ok <==> ids_unique(exps@),
            r is Ok ==> final(self)@ == exps@,
            r is Err ==> final(self)@ == old(self)@,
    {
        match Memory::from_experiences(exps) {
            Ok(m) => {
                *self = m;
                Ok(())
            },
            Err(e) => Err(e),
        }
    }
}

} // verus!
