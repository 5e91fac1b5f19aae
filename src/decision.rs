//! Heuristic recommendations scored from the store and the keyword index.
use vstd::prelude::*;
use crate::experience::Experience;
use crate::memory::{matching, Memory};
use crate::pattern::{top_of, PatternRecognizer, PatternView};
use crate::text::{dec_text, decimal, lower_of};

verus! {

/// A scored recommendation. `confidence_percent` is the confidence in
/// hundredths: 50 stands for 0.5.
pub struct Decision {
    pub action: String,
    pub confidence_percent: u32,
    pub reasoning: String,
    pub based_on_experiences: usize,
}

/// What a [`Decision`] holds, as plain values.
pub struct DecisionView {
    pub action: Seq<char>,
    pub confidence_percent: nat,
    pub reasoning: Seq<char>,
    pub based_on_experiences: nat,
}

impl View for Decision {
    type V = DecisionView;

    open spec fn view(&self) -> DecisionView {
        DecisionView {
            action: self.action@,
            confidence_percent: self.confidence_percent as nat,
            reasoning: self.reasoning@,
            based_on_experiences: self.based_on_experiences as nat,
        }
    }
}

/// Confidence, in hundredths, of a decision over `n` records and `k` distinct
/// keywords (the store is not empty).
pub open spec fn learning_confidence(n: nat, k: nat) -> nat {
    if n > 10 && k > 20 {
        90
    } else if n > 5 {
        70
    } else {
        60
    }
}

/// The decision over the records `exps` and the keyword index `ps`.
pub open spec fn decision_of(exps: Seq<Experience>, ps: Seq<PatternView>) -> DecisionView {
    let n = exps.len();
    if n == 0 {
        DecisionView {
            action: "default"@,
            confidence_percent: 50,
            reasoning: "No previous experiences available. Using default behavior."@,
            based_on_experiences: 0,
        }
    } else {
        let top = top_of(ps, 5);
        DecisionView {
            action: "continue_learning"@,
            confidence_percent: learning_confidence(n, ps.len()),
            reasoning: if top.len() > 0 {
                "Based on "@ + dec_text(n) + " experiences and "@ + dec_text(ps.len())
                    + " recognized patterns. Top pattern: '"@ + top[0].keyword + "'"@
            } else {
                "Based on "@ + dec_text(n) + " experiences with limited pattern recognition"@
            },
            based_on_experiences: n,
        }
    }
}

/// Confidence, in hundredths, of an answer backed by `count` matching records:
/// a tenth per record, at most 0.95.
pub open spec fn query_confidence(count: nat) -> nat {
    if count * 10 < 95 {
        count * 10
    } else {
        95
    }
}

/// The decision for `query` when `count` records match it.
pub open spec fn query_decision_of(count: nat, query: Seq<char>) -> DecisionView {
    if count == 0 {
        DecisionView {
            action: "ask_for_clarification"@,
            confidence_percent: 30,
            reasoning: "No relevant experiences found for query: '"@ + query + "'"@,
            based_on_experiences: 0,
        }
    } else {
        DecisionView {
            action: "provide_response"@,
            confidence_percent: query_confidence(count),
            reasoning: "Found "@ + dec_text(count) + " relevant experiences for query: '"@ + query
                + "'"@,
            based_on_experiences: count,
        }
    }
}

/// On an empty store the decision is "default" at exactly 0.5, whatever the
/// keyword index holds.
pub proof fn lemma_empty_store_decides_default(exps: Seq<Experience>, ps: Seq<PatternView>)
    requires
        exps.len() == 0,
    ensures
        decision_of(exps, ps).action == "default"@,
        decision_of(exps, ps).confidence_percent == 50,
        decision_of(exps, ps).based_on_experiences == 0,
{
}

/// A query that matches nothing asks for clarification at exactly 0.3; one
/// that matches ten records or more is answered at exactly 0.95, the cap.
pub proof fn lemma_query_confidence_bounds(count: nat, query: Seq<char>)
    ensures
        count == 0 ==> query_decision_of(count, query).action == "ask_for_clarification"@
            && query_decision_of(count, query).confidence_percent == 30,
        count >= 10 ==> query_decision_of(count, query).action == "provide_response"@
            && query_decision_of(count, query).confidence_percent == 95,
        0 < count < 10 ==> query_decision_of(count, query).confidence_percent == count * 10,
{
}

/// Makes decisions from the store and the keyword index.
pub struct DecisionMaker;

impl DecisionMaker {
    /// On an empty store: "default" at 0.5. Otherwise "continue_learning" at
    /// 0.9 (more than 10 records and more than 20 keywords), 0.7 (more than 5
    /// records) or 0.6, naming the most frequent keyword when there is one.
    pub fn make_decision(mem: &Memory, patterns: &PatternRecognizer) -> (r: Decision)
        ensures
            r@ == decision_of(mem@, patterns@),
    {
        let n = mem.experiences_len();
        if n == 0 {
            return Decision {
                action: String::from_str("default"),
                confidence_percent: 50,
                reasoning: String::from_str(
                    "No previous experiences available. Using default behavior.",
                ),
                based_on_experiences: 0,
            };
        }
        let top = patterns.get_top_patterns(5);
        let total = patterns.get_patterns().len();
        let confidence_percent: u32 = if n > 10 && total > 20 {
            90
        } else if n > 5 {
            70
        } else {
            60
        };
        let mut reasoning = String::from_str("Based on ");
        let n_text = decimal(n as u64);
        reasoning.append(n_text.as_str());
        if top.len() > 0 {
            let total_text = decimal(total as u64);
            reasoning.append(" experiences and ");
            reasoning.append(total_text.as_str());
            reasoning.append(" recognized patterns. Top pattern: '");
            reasoning.append(top[0].keyword.as_str());
            reasoning.append("'");
        } else {
            reasoning.append(" experiences with limited pattern recognition");
        }
        Decision {
            action: String::from_str("continue_learning"),
            confidence_percent,
            reasoning,
            based_on_experiences: n,
        }
    }

    /// "ask_for_clarification" at 0.3 when no record matches `query`,
    /// otherwise "provide_response" at a tenth per matching record, capped at
    /// 0.95.
    pub fn make_decision_for_query(mem: &Memory, query: &str) -> (r: Decision)
        ensures
            r@ == query_decision_of(matching(mem@, lower_of(query@)).len(), query@),
    {
        let relevant = mem.search(query);
        Self::decision_for_count(relevant.len(), query)
    }

    /// The decision for `query` when `count` records match it.
    pub fn decision_for_count(count: usize, query: &str) -> (r: Decision)
        ensures
            r@ == query_decision_of(count as nat, query@),
    {
        if count == 0 {
            let mut reasoning = String::from_str("No relevant experiences found for query: '");
            reasoning.append(query);
            reasoning.append("'");
            Decision {
                action: String::from_str("ask_for_clarification"),
                confidence_percent: 30,
                reasoning,
                based_on_experiences: 0,
            }
        } else {
            let confidence_percent: u32 = if count < 10 {
                (count * 10) as u32
            } else {
                95
            };
            let mut reasoning = String::from_str("Found ");
            let count_text = decimal(count as u64);
            reasoning.append(count_text.as_str());
            reasoning.append(" relevant experiences for query: '");
            reasoning.append(query);
            reasoning.append("'");
            Decision {
                action: String::from_str("provide_response"),
                confidence_percent,
                reasoning,
                based_on_experiences: count,
            }
        }
    }
}

} // verus!
