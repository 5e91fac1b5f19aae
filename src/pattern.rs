//! The keyword index: for each keyword, how often it occurred and in which
//! records. It is rebuilt from scratch for each analysis pass.
use vstd::prelude::*;
use crate::experience::Experience;
use crate::text::{lower_of, string_views, to_lower, tokenize, tokens};

verus! {

/// A keyword's statistics.
pub struct Pattern {
    pub keyword: String,
    pub frequency: usize,
    pub experience_ids: Vec<String>,
}

/// What a [`Pattern`] holds, as plain values.
pub struct PatternView {
    pub keyword: Seq<char>,
    pub frequency: nat,
    pub experience_ids: Seq<Seq<char>>,
}

impl View for Pattern {
    type V = PatternView;

    open spec fn view(&self) -> PatternView {
        PatternView {
            keyword: self.keyword@,
            frequency: self.frequency as nat,
            experience_ids: string_views(self.experience_ids@),
        }
    }
}

/// A copy of each string, in order.
pub fn copy_strings(v: &Vec<String>) -> (r: Vec<String>)
    ensures
        r@ == v@,
{
    let mut r: Vec<String> = Vec::new();
    let mut i: usize = 0;
    while i < v.len()
        invariant
            i <= v@.len(),
            r@ == v@.take(i as int),
        decreases v@.len() - i,
    {
        r.push(v[i].clone());
        i = i + 1;
        assert(r@ =~= v@.take(i as int));
    }
    assert(v@.take(i as int) =~= v@);
    r
}

impl Clone for Pattern {
    fn clone(&self) -> (r: Self)
        ensures
            r@ == self@,
    {
        Pattern {
            keyword: self.keyword.clone(),
            frequency: self.frequency,
            experience_ids: copy_strings(&self.experience_ids),
        }
    }
}

/// Views of a sequence of patterns.
pub open spec fn pattern_views(v: Seq<Pattern>) -> Seq<PatternView> {
    v.map_values(|p: Pattern| p@)
}

/// One more occurrence. Counts stop at `usize::MAX`, a number of occurrences
/// no text held in memory reaches.
pub open spec fn next_count(n: nat) -> nat {
    if n < usize::MAX {
        n + 1
    } else {
        n
    }
}

/// Position of the first pattern at or after `i` whose keyword is `kw`, or -1.
pub open spec fn find_kw_from(ps: Seq<PatternView>, kw: Seq<char>, i: int) -> int
    decreases ps.len() - i,
{
    if i < 0 || i >= ps.len() {
        -1
    } else if ps[i].keyword == kw {
        i
    } else {
        find_kw_from(ps, kw, i + 1)
    }
}

/// Position of the pattern whose keyword is `kw`, or -1.
pub open spec fn find_kw(ps: Seq<PatternView>, kw: Seq<char>) -> int {
    find_kw_from(ps, kw, 0)
}

/// `p` after one more occurrence in the record with id `id`.
pub open spec fn bump(p: PatternView, id: Seq<char>) -> PatternView {
    PatternView {
        keyword: p.keyword,
        frequency: next_count(p.frequency),
        experience_ids: if p.experience_ids.contains(id) {
            p.experience_ids
        } else {
            p.experience_ids.push(id)
        },
    }
}

/// The index after one occurrence of `tok` in the record with id `id`: a
/// known keyword is bumped in place, a new one is added at the end.
pub open spec fn add_token(ps: Seq<PatternView>, tok: Seq<char>, id: Seq<char>) -> Seq<
    PatternView,
> {
    let k = find_kw(ps, tok);
    if k >= 0 {
        ps.update(k, bump(ps[k], id))
    } else {
        ps.push(PatternView { keyword: tok, frequency: 1, experience_ids: seq![id] })
    }
}

/// The index after the occurrences `toks`, in order, in the record with id `id`.
pub open spec fn add_tokens(ps: Seq<PatternView>, toks: Seq<Seq<char>>, id: Seq<char>) -> Seq<
    PatternView,
>
    decreases toks.len(),
{
    if toks.len() == 0 {
        ps
    } else {
        add_token(add_tokens(ps, toks.drop_last(), id), toks.last(), id)
    }
}

/// The index after analysing record `e`.
pub open spec fn analyzed(ps: Seq<PatternView>, e: Experience) -> Seq<PatternView> {
    add_tokens(ps, tokens(e.content@), e.id@)
}

/// The index after analysing the records `es`, in order.
pub open spec fn analyzed_all(ps: Seq<PatternView>, es: Seq<Experience>) -> Seq<PatternView>
    decreases es.len(),
{
    if es.len() == 0 {
        ps
    } else {
        analyzed(analyzed_all(ps, es.drop_last()), es.last())
    }
}

/// `s` with `p` inserted before the first element of lower frequency.
pub open spec fn insert_desc(s: Seq<PatternView>, p: PatternView) -> Seq<PatternView>
    decreases s.len(),
{
    if s.len() == 0 {
        seq![p]
    } else if s[0].frequency >= p.frequency {
        seq![s[0]] + insert_desc(s.drop_first(), p)
    } else {
        seq![p] + s
    }
}

/// `s` sorted by frequency, highest first; patterns of equal frequency keep
/// their order in `s` (first seen first).
pub open spec fn sort_desc(s: Seq<PatternView>) -> Seq<PatternView>
    decreases s.len(),
{
    if s.len() == 0 {
        s
    } else {
        insert_desc(sort_desc(s.drop_last()), s.last())
    }
}

/// The `n` most frequent patterns of `s`, as [`sort_desc`] orders them.
pub open spec fn top_of(s: Seq<PatternView>, n: nat) -> Seq<PatternView> {
    let m = if n < s.len() {
        n
    } else {
        s.len()
    };
    sort_desc(s).take(m as int)
}

proof fn lemma_insert_desc_at(s: Seq<PatternView>, p: PatternView, pos: int)
    requires
        0 <= pos <= s.len(),
        forall|k: int| 0 <= k < pos ==> #[trigger] s[k].frequency >= p.frequency,
        pos < s.len() ==> s[pos].frequency < p.frequency,
    ensures
        insert_desc(s, p) == s.take(pos) + seq![p] + s.skip(pos),
    decreases s.len(),
{
    if s.len() == 0 {
        assert(s.take(pos) + seq![p] + s.skip(pos) =~= seq![p]);
    } else if pos == 0 {
        assert(s.take(pos) + seq![p] + s.skip(pos) =~= seq![p] + s);
    } else {
        let t = s.drop_first();
        assert forall|k: int| 0 <= k < pos - 1 implies #[trigger] t[k].frequency >= p.frequency by {
            assert(t[k] == s[k + 1]);
        }
        if pos - 1 < t.len() {
            assert(t[pos - 1] == s[pos]);
        }
        lemma_insert_desc_at(t, p, pos - 1);
        assert(s.take(pos) + seq![p] + s.skip(pos) =~= seq![s[0]] + (t.take(pos - 1) + seq![p]
            + t.skip(pos - 1)));
    }
}

proof fn lemma_find_kw_absent(ps: Seq<PatternView>, kw: Seq<char>, i: int)
    requires
        0 <= i <= ps.len(),
        find_kw_from(ps, kw, i) < 0,
    ensures
        forall|k: int| i <= k < ps.len() ==> #[trigger] ps[k].keyword != kw,
    decreases ps.len() - i,
{
    if i < ps.len() {
        lemma_find_kw_absent(ps, kw, i + 1);
    }
}

proof fn lemma_find_kw_present(ps: Seq<PatternView>, kw: Seq<char>, i: int)
    requires
        0 <= i <= ps.len(),
        find_kw_from(ps, kw, i) >= 0,
    ensures
        i <= find_kw_from(ps, kw, i) < ps.len(),
        ps[find_kw_from(ps, kw, i)].keyword == kw,
    decreases ps.len() - i,
{
    if i < ps.len() && ps[i].keyword != kw {
        lemma_find_kw_present(ps, kw, i + 1);
    }
}

/// Keywords are pairwise distinct.
pub open spec fn keywords_unique(ps: Seq<PatternView>) -> bool {
    forall|i: int, j: int| 0 <= i < j < ps.len() ==> ps[i].keyword != ps[j].keyword
}

/// Keyword statistics in the order keywords were first seen.
pub struct PatternRecognizer {
    patterns: Vec<Pattern>,
}

impl View for PatternRecognizer {
    type V = Seq<PatternView>;

    closed spec fn view(&self) -> Seq<PatternView> {
        pattern_views(self.patterns@)
    }
}

impl Default for PatternRecognizer {
    fn default() -> (r: Self)
        ensures
            r@ == Seq::<PatternView>::empty(),
    {
        Self::new()
    }
}

impl PatternRecognizer {
    /// The index's invariant: one pattern per keyword.
    pub open spec fn wf(&self) -> bool {
        keywords_unique(self@)
    }

    /// An empty index.
    pub fn new() -> (r: PatternRecognizer)
        ensures
            r@ == Seq::<PatternView>::empty(),
            r.wf(),
    {
        PatternRecognizer { patterns: Vec::new() }
    }

    /// Counts one occurrence of `tok` in the record with id `id`.
    fn add_token(&mut self, tok: &String, id: &String)
        requires
            old(self).wf(),
        ensures
            final(self)@ == add_token(old(self)@, tok@, id@),
            final(self).wf(),
    {
        let ghost ps = self@;
        let n = self.patterns.len();
        let mut i: usize = 0;
        while i < n && !(self.patterns[i].keyword == *tok)
            invariant
                n == self.patterns@.len(),
                ps == self@,
                i <= n,
                find_kw_from(ps, tok@, 0) == find_kw_from(ps, tok@, i as int),
            decreases n - i,
        {
            assert(ps[i as int] == self.patterns@[i as int]@);
            i = i + 1;
        }
        if i < n {
            assert(ps[i as int] == self.patterns@[i as int]@);
            assert(find_kw(ps, tok@) == i);
            let freq = self.patterns[i].frequency;
            let ids = &self.patterns[i].experience_ids;
            let mut seen = false;
            let mut j: usize = 0;
            while j < ids.len()
                invariant
                    j <= ids@.len(),
                    seen <==> exists|k: int| 0 <= k < j && #[trigger] ids@[k]@ == id@,
                decreases ids@.len() - j,
            {
                if ids[j] == *id {
                    seen = true;
                }
                j = j + 1;
            }
            let mut new_ids = copy_strings(ids);
            if !seen {
                new_ids.push(id.clone());
            }
            let next = if freq < usize::MAX {
                freq + 1
            } else {
                freq
            };
            let p = Pattern {
                keyword: self.patterns[i].keyword.clone(),
                frequency: next,
                experience_ids: new_ids,
            };
            proof {
                let old_ids = string_views(ids@);
                if seen {
                    let k = choose|k: int| 0 <= k < j && #[trigger] ids@[k]@ == id@;
                    assert(old_ids[k] == id@);
                    assert(string_views(p.experience_ids@) =~= old_ids);
                } else {
                    assert(!old_ids.contains(id@)) by {
                        if old_ids.contains(id@) {
                            let k = choose|k: int| 0 <= k < old_ids.len() && old_ids[k] == id@;
                            assert(ids@[k]@ == id@);
                        }
                    }
                    assert(string_views(p.experience_ids@) =~= old_ids.push(id@));
                }
                assert(p@ == bump(ps[i as int], id@));
            }
            self.patterns.set(i, p);
            assert(self@ =~= ps.update(i as int, bump(ps[i as int], id@)));
        } else {
            proof {
                lemma_find_kw_absent(ps, tok@, 0);
            }
            let mut first: Vec<String> = Vec::new();
            first.push(id.clone());
            let p = Pattern { keyword: tok.clone(), frequency: 1, experience_ids: first };
            assert(string_views(first@) =~= seq![id@]);
            self.patterns.push(p);
            assert(self@ =~= ps.push(p@));
        }
    }

    /// Counts each keyword of `exp`'s content: each occurrence raises the
    /// keyword's frequency by one and records `exp`'s id once. Analysing the
    /// same record twice counts its keywords twice.
    pub fn analyze(&mut self, exp: &Experience)
        requires
            old(self).wf(),
        ensures
            final(self)@ == analyzed(old(self)@, *exp),
            final(self).wf(),
    {
        let toks = tokenize(exp.content.as_str());
        let ghost start = self@;
        let n = toks.len();
        let mut i: usize = 0;
        while i < n
            invariant
                n == toks@.len(),
                i <= n,
                self.wf(),
                string_views(toks@) == tokens(exp.content@),
                self@ == add_tokens(start, string_views(toks@).take(i as int), exp.id@),
            decreases n - i,
        {
            assert(string_views(toks@).take(i + 1).drop_last() =~= string_views(toks@).take(
                i as int,
            ));
            assert(string_views(toks@).take(i + 1).last() == toks@[i as int]@);
            self.add_token(&toks[i], &exp.id);
            i = i + 1;
        }
        assert(string_views(toks@).take(n as int) =~= string_views(toks@));
    }

    /// Analyses each record of `exps`, in order.
    pub fn analyze_all(&mut self, exps: &[Experience])
        requires
            old(self).wf(),
        ensures
            final(self)@ == analyzed_all(old(self)@, exps@),
            final(self).wf(),
    {
        let ghost start = self@;
        let n = exps.len();
        let mut i: usize = 0;
        while i < n
            invariant
                n == exps@.len(),
                i <= n,
                self.wf(),
                self@ == analyzed_all(start, exps@.take(i as int)),
            decreases n - i,
        {
            assert(exps@.take(i + 1).drop_last() =~= exps@.take(i as int));
            self.analyze(&exps[i]);
            i = i + 1;
        }
        assert(exps@.take(n as int) =~= exps@);
    }

    /// All patterns, in the order their keywords were first seen.
    pub fn get_patterns(&self) -> (r: &[Pattern])
        ensures
            pattern_views(r@) == self@,
    {
        self.patterns.as_slice()
    }

    /// The pattern of `keyword`, compared after lower-casing it.
    pub fn get_pattern(&self, keyword: &str) -> (r: Option<&Pattern>)
        ensures
            find_kw(self@, lower_of(keyword@)) < 0 ==> r is None,
            find_kw(self@, lower_of(keyword@)) >= 0 ==> (r matches Some(p) && p@ == self@[find_kw(
                self@,
                lower_of(keyword@),
            )]),
    {
        let key = to_lower(keyword);
        let ghost ps = self@;
        let n = self.patterns.len();
        let mut i: usize = 0;
        while i < n
            invariant
                n == self.patterns@.len(),
                ps == self@,
                key@ == lower_of(keyword@),
                i <= n,
                find_kw_from(ps, key@, 0) == find_kw_from(ps, key@, i as int),
            decreases n - i,
        {
            if self.patterns[i].keyword == key {
                return Some(&self.patterns[i]);
            }
            assert(ps[i as int] == self.patterns@[i as int]@);
            i = i + 1;
        }
        None
    }

    /// The `n` most frequent patterns, highest frequency first; patterns of
    /// equal frequency come in the order their keywords were first seen.
    pub fn get_top_patterns(&self, n: usize) -> (r: Vec<Pattern>)
        ensures
            pattern_views(r@) == top_of(self@, n as nat),
    {
        let ghost ps = self@;
        let len = self.patterns.len();
        let mut sorted: Vec<Pattern> = Vec::new();
        let mut i: usize = 0;
        while i < len
            invariant
                len == self.patterns@.len(),
                ps == self@,
                i <= len,
                pattern_views(sorted@) == sort_desc(ps.take(i as int)),
                sorted@.len() == i,
            decreases len - i,
        {
            let p = &self.patterns[i];
            let ghost s = pattern_views(sorted@);
            let mut pos: usize = 0;
            while pos < sorted.len() && sorted[pos].frequency >= p.frequency
                invariant
                    pos <= sorted@.len(),
                    s == pattern_views(sorted@),
                    forall|k: int| 0 <= k < pos ==> #[trigger] s[k].frequency >= p@.frequency,
                decreases sorted@.len() - pos,
            {
                pos = pos + 1;
            }
            proof {
                lemma_insert_desc_at(s, p@, pos as int);
                assert(ps.take(i + 1).drop_last() =~= ps.take(i as int));
                assert(ps.take(i + 1).last() == p@);
            }
            sorted.insert(pos, p.clone());
            assert(pattern_views(sorted@) =~= s.take(pos as int) + seq![p@] + s.skip(pos as int));
            i = i + 1;
        }
        assert(ps.take(len as int) =~= ps);
        let m = if n < len {
            n
        } else {
            len
        };
        sorted.truncate(m);
        assert(pattern_views(sorted@) =~= sort_desc(ps).take(m as int));
        sorted
    }

    /// Discards every pattern.
    pub fn clear(&mut self)
        ensures
            final(self)@ == Seq::<PatternView>::empty(),
            final(self).wf(),
    {
        self.patterns.clear();
        assert(self@ =~= Seq::<PatternView>::empty());
    }
}

} // verus!
