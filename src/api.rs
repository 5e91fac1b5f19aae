//! What the service's read endpoints compute from a snapshot of the store:
//! statistics, a keyword's detail, an interaction summary and a reflection.
//! Each builds its own keyword index over the records it is given.
use vstd::prelude::*;
use crate::experience::{datetime_text, format_datetime, Experience};
use crate::memory::{find_id, Memory};
use crate::pattern::{analyzed_all, find_kw, top_of, PatternRecognizer, PatternView};
use crate::text::{dec_text, decimal, lower_of, string_views};

verus! {

/// One keyword in the statistics.
pub struct PatternInfo {
    pub keyword: String,
    pub frequency: usize,
    pub experience_count: usize,
}

/// Totals and the ten most frequent keywords.
pub struct StatsResponse {
    pub total_experiences: usize,
    pub total_patterns: usize,
    pub top_patterns: Vec<PatternInfo>,
}

/// A keyword's statistics and the contents of the records it occurs in.
pub struct PatternDetailResponse {
    pub keyword: String,
    pub frequency: usize,
    pub experience_ids: Vec<String>,
    pub related_experiences: Vec<String>,
}

/// A summary of an analysis pass over the whole store.
pub struct InteractResponse {
    pub analysis: String,
    pub experience_count: usize,
    pub pattern_summary: Vec<String>,
}

/// One record as a reflection shows it.
pub struct ReflectionItem {
    pub id: String,
    pub timestamp: String,
    pub source: String,
    pub content: String,
}

/// Every record, as a reflection shows it.
pub struct ReflectionResponse {
    pub total_experiences: usize,
    pub experiences: Vec<ReflectionItem>,
}

/// The keyword index over all records of `exps`.
pub open spec fn index_of(exps: Seq<Experience>) -> Seq<PatternView> {
    analyzed_all(Seq::empty(), exps)
}

/// A keyword's entry in the statistics.
pub open spec fn info_matches(i: PatternInfo, p: PatternView) -> bool {
    i.keyword@ == p.keyword && i.frequency == p.frequency && i.experience_count
        == p.experience_ids.len()
}

/// The line a keyword contributes to an interaction summary.
pub open spec fn summary_line(p: PatternView) -> Seq<char> {
    p.keyword + ": "@ + dec_text(p.frequency) + " occurrences"@
}

/// The contents of the records of `s` with the ids `ids`, in the order of
/// `ids`, skipping ids that no record has.
pub open spec fn contents_of(s: Seq<Experience>, ids: Seq<Seq<char>>) -> Seq<Seq<char>>
    decreases ids.len(),
{
    if ids.len() == 0 {
        Seq::empty()
    } else {
        let rest = contents_of(s, ids.drop_last());
        let k = find_id(s, ids.last());
        if k >= 0 {
            rest.push(s[k].content@)
        } else {
            rest
        }
    }
}

/// The keyword index over every record of `mem`.
pub fn index_memory(mem: &Memory) -> (r: PatternRecognizer)
    ensures
        r@ == index_of(mem@),
        r.wf(),
{
    let mut patterns = PatternRecognizer::new();
    patterns.analyze_all(mem.get_experiences());
    patterns
}

/// Totals, and the ten most frequent keywords with their counts.
pub fn stats(mem: &Memory) -> (r: StatsResponse)
    ensures
        r.total_experiences == mem@.len(),
        r.total_patterns == index_of(mem@).len(),
        r.top_patterns@.len() == top_of(index_of(mem@), 10).len(),
        forall|i: int|
            0 <= i < r.top_patterns@.len() ==> info_matches(
                #[trigger] r.top_patterns@[i],
                top_of(index_of(mem@), 10)[i],
            ),
{
    let patterns = index_memory(mem);
    let top = patterns.get_top_patterns(10);
    let ghost tv = top_of(index_of(mem@), 10);
    let mut infos: Vec<PatternInfo> = Vec::new();
    let mut i: usize = 0;
    while i < top.len()
        invariant
            i <= top@.len(),
            crate::pattern::pattern_views(top@) == tv,
            infos@.len() == i,
            forall|k: int| 0 <= k < i ==> info_matches(#[trigger] infos@[k], tv[k]),
        decreases top@.len() - i,
    {
        let p = &top[i];
        assert(tv[i as int] == p@);
        infos.push(
            PatternInfo {
                keyword: p.keyword.clone(),
                frequency: p.frequency,
                experience_count: p.experience_ids.len(),
            },
        );
        i = i + 1;
    }
    StatsResponse {
        total_experiences: mem.experiences_len(),
        total_patterns: patterns.get_patterns().len(),
        top_patterns: infos,
    }
}

/// The detail of `keyword` (compared lower-cased) over the whole store, or
/// `None` when no record holds it.
pub fn pattern_detail(mem: &Memory, keyword: &str) -> (r: Option<PatternDetailResponse>)
    ensures
        find_kw(index_of(mem@), lower_of(keyword@)) < 0 ==> r is None,
        find_kw(index_of(mem@), lower_of(keyword@)) >= 0 ==> (r matches Some(d) && {
            let p = index_of(mem@)[find_kw(index_of(mem@), lower_of(keyword@))];
            &&& d.keyword@ == p.keyword
            &&& d.frequency == p.frequency
            &&& string_views(d.experience_ids@) == p.experience_ids
            &&& string_views(d.related_experiences@) == contents_of(mem@, p.experience_ids)
        }),
{
    let patterns = index_memory(mem);
    match patterns.get_pattern(keyword) {
        None => None,
        Some(p) => {
            let ids = &p.experience_ids;
            let mut related: Vec<String> = Vec::new();
            let mut i: usize = 0;
            while i < ids.len()
                invariant
                    i <= ids@.len(),
                    string_views(related@) == contents_of(mem@, string_views(ids@).take(i as int)),
                decreases ids@.len() - i,
            {
                assert(string_views(ids@).take(i + 1).drop_last() =~= string_views(ids@).take(
                    i as int,
                ));
                assert(string_views(ids@).take(i + 1).last() == ids@[i as int]@);
                if let Some(e) = mem.get_by_id(ids[i].as_str()) {
                    let ghost before = related@;
                    related.push(e.content.clone());
                    assert(string_views(related@) =~= string_views(before).push(e.content@));
                }
                i = i + 1;
            }
            assert(string_views(ids@).take(i as int) =~= string_views(ids@));
            Some(
                PatternDetailResponse {
                    keyword: p.keyword.clone(),
                    frequency: p.frequency,
                    experience_ids: crate::pattern::copy_strings(ids),
                    related_experiences: related,
                },
            )
        },
    }
}

/// `Analyzed <n> experiences`, the number of records, and the five most
/// frequent keywords as `<keyword>: <frequency> occurrences`.
pub fn interact_summary(mem: &Memory) -> (r: InteractResponse)
    ensures
        r.analysis@ == "Analyzed "@ + dec_text(mem@.len()) + " experiences"@,
        r.experience_count == mem@.len(),
        string_views(r.pattern_summary@) == top_of(index_of(mem@), 5).map_values(
            |p: PatternView| summary_line(p),
        ),
{
    let patterns = index_memory(mem);
    let top = patterns.get_top_patterns(5);
    let ghost tv = top_of(index_of(mem@), 5);
    let mut lines: Vec<String> = Vec::new();
    let mut i: usize = 0;
    while i < top.len()
        invariant
            i <= top@.len(),
            crate::pattern::pattern_views(top@) == tv,
            string_views(lines@) == tv.take(i as int).map_values(|p: PatternView| summary_line(p)),
        decreases top@.len() - i,
    {
        let p = &top[i];
        assert(tv[i as int] == p@);
        let mut line = p.keyword.clone();
        line.append(": ");
        let f = decimal(p.frequency as u64);
        line.append(f.as_str());
        line.append(" occurrences");
        let ghost before = lines@;
        lines.push(line);
        assert(string_views(lines@) =~= string_views(before).push(summary_line(p@)));
        assert(tv.take(i + 1).map_values(|p: PatternView| summary_line(p)) =~= tv.take(
            i as int,
        ).map_values(|p: PatternView| summary_line(p)).push(summary_line(p@)));
        i = i + 1;
    }
    assert(tv.take(i as int) =~= tv);
    let n = mem.experiences_len();
    let mut analysis = String::from_str("Analyzed ");
    let n_text = decimal(n as u64);
    analysis.append(n_text.as_str());
    analysis.append(" experiences");
    InteractResponse { analysis, experience_count: n, pattern_summary: lines }
}

/// `Patterns rebuilt. Found <k> unique patterns`, for the index rebuilt over
/// the whole store.
pub fn rebuild_summary(mem: &Memory) -> (r: String)
    ensures
        r@ == "Patterns rebuilt. Found "@ + dec_text(index_of(mem@).len()) + " unique patterns"@,
{
    let mut patterns = PatternRecognizer::new();
    patterns.clear();
    patterns.analyze_all(mem.get_experiences());
    let mut r = String::from_str("Patterns rebuilt. Found ");
    let k = decimal(patterns.get_patterns().len() as u64);
    r.append(k.as_str());
    r.append(" unique patterns");
    r
}

/// Every record with its time rendered as `%Y-%m-%d %H:%M:%S`.
pub fn reflection(mem: &Memory) -> (r: ReflectionResponse)
    ensures
        r.total_experiences == mem@.len(),
        r.experiences@.len() == mem@.len(),
        forall|i: int|
            0 <= i < mem@.len() ==> {
                let item = #[trigger] r.experiences@[i];
                &&& item.id@ == mem@[i].id@
                &&& item.timestamp@ == datetime_text(mem@[i].timestamp as int)
                &&& item.source@ == mem@[i].source@
                &&& item.content@ == mem@[i].content@
            },
{
    let exps = mem.get_experiences();
    let mut items: Vec<ReflectionItem> = Vec::new();
    let mut i: usize = 0;
    while i < exps.len()
        invariant
            exps@ == mem@,
            i <= exps@.len(),
            items@.len() == i,
            forall|k: int|
                0 <= k < i ==> {
                    let item = #[trigger] items@[k];
                    &&& item.id@ == mem@[k].id@
                    &&& item.timestamp@ == datetime_text(mem@[k].timestamp as int)
                    &&& item.source@ == mem@[k].source@
                    &&& item.content@ == mem@[k].content@
                },
        decreases exps@.len() - i,
    {
        let e = &exps[i];
        items.push(
            ReflectionItem {
                id: e.id.clone(),
                timestamp: format_datetime(e.timestamp),
                source: e.source.clone(),
                content: e.content.clone(),
            },
        );
        i = i + 1;
    }
    ReflectionResponse { total_experiences: mem.experiences_len(), experiences: items }
}

} // verus!
