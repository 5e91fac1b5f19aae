use ai_core::chat::{ChatMessage, ChatProcessor, ChatSession};
use ai_core::experience::Experience;
use ai_core::memory::Memory;
use ai_core::ollama::OllamaClient;
use ai_core::pattern::PatternRecognizer;
use std::sync::Arc;

const GREETING: &str =
    "Halo! Ada yang bisa saya bantu? Saya memiliki akses ke memori dan pengalaman yang tersimpan.";

#[test]
fn empty_store_hello_gets_greeting() {
    let m = Memory::new();
    let proc = ChatProcessor::new();
    let plan = proc.plan_reply("hello", &m);
    assert!(!plan.use_backend);
    assert!(plan.context_ids.is_empty());
    let mut p = PatternRecognizer::new();
    let msg = ChatProcessor::finish_reply(plan, "hello", None, &mut p);
    assert_eq!(msg.role, "assistant");
    assert!(msg.content.contains(GREETING));
    assert_eq!(msg.context_used, Some(vec![]));
}

#[test]
fn default_replies_by_keyword() {
    assert_eq!(ChatProcessor::generate_default_response("HELLO there"), GREETING);
    assert!(ChatProcessor::generate_default_response("what now").starts_with("Saya adalah AI Core"));
    assert_eq!(ChatProcessor::generate_default_response("what is this"), GREETING);
    assert!(ChatProcessor::generate_default_response("how so").starts_with("Saya menggunakan pattern"));
    assert!(ChatProcessor::generate_default_response("thanks!").starts_with("Sama-sama!"));
    assert_eq!(
        ChatProcessor::generate_default_response("xyz"),
        "Saya memahami pertanyaan Anda tentang 'xyz'. Namun, saat ini saya tidak menemukan informasi relevan dalam memori. Silakan tambahkan lebih banyak pengalaman atau berikan konteks yang lebih spesifik."
    );
}

#[test]
fn context_ids_are_the_matching_records() {
    let mut m = Memory::new();
    let a = m.remember(Experience::recorded_at("Rust is fast", "docs", 1));
    m.remember(Experience::recorded_at("Cooking pasta", "notes", 2));
    let c = m.remember(Experience::recorded_at("memory safety in rust", "docs", 3));
    let proc = ChatProcessor::new();
    let plan = proc.plan_reply("Tell me about RUST and safety", &m);
    assert_eq!(plan.context_ids, vec![a.id.clone(), c.id.clone()]);
    assert_eq!(
        plan.context_lines,
        vec!["- Rust is fast (from docs)".to_string(), "- memory safety in rust (from docs)".to_string()]
    );
    let mut p = PatternRecognizer::new();
    let msg = ChatProcessor::finish_reply(plan, "Tell me about RUST and safety", None, &mut p);
    assert_eq!(msg.context_used, Some(vec![a.id, c.id]));
    assert!(msg.content.starts_with("Berdasarkan 2 pengalaman relevan yang saya temukan:\n\n"));
    assert!(msg.content.contains("1. Rust is fast (dari docs)\n"));
    assert!(msg.content.contains("2. memory safety in rust (dari docs)\n"));
    assert!(msg.content.contains("Pola yang terdeteksi: rust, fast, memory"));
    assert!(msg.content.ends_with("\n\nApakah ini menjawab pertanyaan Anda?"));
}

#[test]
fn context_reply_lists_at_most_three() {
    let mut m = Memory::new();
    for i in 0..5 {
        m.remember(Experience::recorded_at(&format!("topic item{}", i), "s", i));
    }
    let exps = m.list();
    let mut p = PatternRecognizer::new();
    let text = ChatProcessor::generate_context_aware_response("topic", &exps, &mut p);
    assert!(text.starts_with("Berdasarkan 5 pengalaman"));
    assert!(text.contains("3. topic item2 (dari s)\n"));
    assert!(!text.contains("4. "));
    assert_eq!(p.get_pattern("topic").unwrap().frequency, 5);
}

#[test]
fn backend_answer_is_used_when_enabled() {
    let mut m = Memory::new();
    m.remember(Experience::recorded_at("rust notes", "s", 1));
    let client = Arc::new(OllamaClient::new("http://localhost:11434".to_string(), "llama2".to_string(), true));
    let proc = ChatProcessor::with_ollama(client);
    let plan = proc.plan_reply("rust", &m);
    assert!(plan.use_backend);
    let mut p = PatternRecognizer::new();
    let msg = ChatProcessor::finish_reply(plan, "rust", Some(Ok("generated".to_string())), &mut p);
    assert_eq!(msg.content, "generated");
    assert!(p.get_patterns().is_empty());
}

#[test]
fn backend_failure_falls_back() {
    let m = Memory::new();
    let client = Arc::new(OllamaClient::new("u".to_string(), "m".to_string(), true));
    let proc = ChatProcessor::with_ollama(client);
    let plan = proc.plan_reply("hi", &m);
    let mut p = PatternRecognizer::new();
    let msg = ChatProcessor::finish_reply(plan, "hi", Some(Err("down".to_string())), &mut p);
    assert_eq!(msg.content, GREETING);
}

#[test]
fn disabled_backend_is_not_asked() {
    let m = Memory::new();
    let client = Arc::new(OllamaClient::new("u".to_string(), "m".to_string(), false));
    let proc = ChatProcessor::with_ollama(client);
    let plan = proc.plan_reply("hello", &m);
    assert!(!plan.use_backend);
    let mut p = PatternRecognizer::new();
    let msg = ChatProcessor::finish_reply(plan, "hello", Some(Ok("ignored".to_string())), &mut p);
    assert_eq!(msg.content, GREETING);
}

#[test]
fn keywords_share_the_index_tokenizer() {
    let kws = ChatProcessor::extract_keywords("Hi, how is THE weather?");
    assert_eq!(kws, vec!["how", "the", "weather"]);
}

#[test]
fn message_ids_and_sessions() {
    let m = ChatMessage::user("hey");
    assert_eq!(m.role, "user");
    assert!(m.id.starts_with("msg_"));
    assert_eq!(m.id.len(), 40);
    let other = ChatMessage::assistant("yo".to_string());
    assert_ne!(m.id, other.id);
    let mut s = ChatSession::new("abc");
    assert_eq!(s.created_at, s.updated_at);
    s.add_message(m);
    s.add_message(other);
    s.add_message(ChatMessage::user("third"));
    let recent = s.get_recent_messages(2);
    assert_eq!(recent.len(), 2);
    assert_eq!(recent[0].content, "yo");
    assert_eq!(recent[1].content, "third");
    assert_eq!(s.get_recent_messages(10).len(), 3);
}
