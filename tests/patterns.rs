use ai_core::decision::DecisionMaker;
use ai_core::experience::Experience;
use ai_core::memory::Memory;
use ai_core::pattern::PatternRecognizer;

#[test]
fn repeated_keyword_counts_twice_one_id() {
    let mut p = PatternRecognizer::new();
    let e = Experience::recorded_at("cat cat dog", "s", 1);
    p.analyze(&e);
    let cat = p.get_pattern("cat").unwrap();
    assert_eq!(cat.frequency, 2);
    assert_eq!(cat.experience_ids, vec![e.id.clone()]);
    let dog = p.get_pattern("dog").unwrap();
    assert_eq!(dog.frequency, 1);
}

#[test]
fn short_tokens_are_dropped() {
    let mut p = PatternRecognizer::new();
    p.analyze(&Experience::recorded_at("a ab abc", "s", 1));
    let all = p.get_patterns();
    assert_eq!(all.len(), 1);
    assert_eq!(all[0].keyword, "abc");
}

#[test]
fn tokens_are_lowercased_and_trimmed() {
    let mut p = PatternRecognizer::new();
    p.analyze(&Experience::recorded_at("(Hello!) WORLD, \"quoted\"", "s", 1));
    let kws: Vec<String> = p.get_patterns().iter().map(|x| x.keyword.clone()).collect();
    assert_eq!(kws, vec!["hello", "world", "quoted"]);
    assert!(p.get_pattern("HELLO").is_some());
}

#[test]
fn inner_punctuation_is_kept() {
    let mut p = PatternRecognizer::new();
    p.analyze(&Experience::recorded_at("e-mail x1y", "s", 1));
    assert!(p.get_pattern("e-mail").is_some());
    assert!(p.get_pattern("x1y").is_some());
}

#[test]
fn analyzing_twice_double_counts() {
    let mut p = PatternRecognizer::new();
    let e = Experience::recorded_at("rust rust", "s", 1);
    p.analyze(&e);
    p.analyze(&e);
    let r = p.get_pattern("rust").unwrap();
    assert_eq!(r.frequency, 4);
    assert_eq!(r.experience_ids.len(), 1);
}

#[test]
fn top_patterns_by_frequency_then_first_seen() {
    let mut p = PatternRecognizer::new();
    p.analyze(&Experience::recorded_at("one two two three three three four", "s", 1));
    let top = p.get_top_patterns(3);
    let kws: Vec<String> = top.iter().map(|x| x.keyword.clone()).collect();
    assert_eq!(kws, vec!["three", "two", "one"]);
    let mut q = PatternRecognizer::new();
    q.analyze(&Experience::recorded_at("zeta alpha beta", "s", 1));
    let kws: Vec<String> = q.get_top_patterns(10).iter().map(|x| x.keyword.clone()).collect();
    assert_eq!(kws, vec!["zeta", "alpha", "beta"]);
}

#[test]
fn clear_discards_patterns() {
    let mut p = PatternRecognizer::new();
    p.analyze(&Experience::recorded_at("something here", "s", 1));
    p.clear();
    assert_eq!(p.get_patterns().len(), 0);
    assert!(p.get_top_patterns(5).is_empty());
}

#[test]
fn decision_on_empty_store_is_default() {
    let m = Memory::new();
    let p = PatternRecognizer::new();
    let d = DecisionMaker::make_decision(&m, &p);
    assert_eq!(d.action, "default");
    assert_eq!(d.confidence_percent, 50);
    assert_eq!(d.based_on_experiences, 0);
    assert_eq!(d.reasoning, "No previous experiences available. Using default behavior.");
}

#[test]
fn decision_thresholds() {
    let mut m = Memory::new();
    m.remember(Experience::recorded_at("apple banana", "s", 1));
    let mut p = PatternRecognizer::new();
    p.analyze_all(m.get_experiences());
    let d = DecisionMaker::make_decision(&m, &p);
    assert_eq!(d.action, "continue_learning");
    assert_eq!(d.confidence_percent, 60);
    assert_eq!(
        d.reasoning,
        "Based on 1 experiences and 2 recognized patterns. Top pattern: 'apple'"
    );
    for i in 0..5 {
        m.remember(Experience::recorded_at("x", "s", 100 + i));
    }
    let d = DecisionMaker::make_decision(&m, &PatternRecognizer::new());
    assert_eq!(d.confidence_percent, 70);
    assert_eq!(d.reasoning, "Based on 6 experiences with limited pattern recognition");
    let mut big = Memory::new();
    let mut text = String::new();
    for i in 0..21 {
        text.push_str(&format!("word{} ", i));
    }
    for i in 0..11 {
        big.remember(Experience::recorded_at(&text, "s", i));
    }
    let mut bp = PatternRecognizer::new();
    bp.analyze_all(big.get_experiences());
    let d = DecisionMaker::make_decision(&big, &bp);
    assert_eq!(d.confidence_percent, 90);
    assert_eq!(d.based_on_experiences, 11);
}

#[test]
fn query_decision_without_matches() {
    let mut m = Memory::new();
    m.remember(Experience::recorded_at("something", "s", 1));
    let d = DecisionMaker::make_decision_for_query(&m, "absent");
    assert_eq!(d.action, "ask_for_clarification");
    assert_eq!(d.confidence_percent, 30);
    assert_eq!(d.reasoning, "No relevant experiences found for query: 'absent'");
    assert_eq!(d.based_on_experiences, 0);
}

#[test]
fn query_decision_confidence_is_capped() {
    let mut m = Memory::new();
    for i in 0..20 {
        m.remember(Experience::recorded_at("match here", "s", i));
    }
    let d = DecisionMaker::make_decision_for_query(&m, "MATCH");
    assert_eq!(d.action, "provide_response");
    assert_eq!(d.confidence_percent, 95);
    assert_eq!(d.based_on_experiences, 20);
    assert_eq!(d.reasoning, "Found 20 relevant experiences for query: 'MATCH'");
    let d3 = DecisionMaker::decision_for_count(3, "q");
    assert_eq!(d3.confidence_percent, 30);
    assert_eq!(d3.action, "provide_response");
    let d9 = DecisionMaker::decision_for_count(9, "q");
    assert_eq!(d9.confidence_percent, 90);
    let d10 = DecisionMaker::decision_for_count(10, "q");
    assert_eq!(d10.confidence_percent, 95);
}
