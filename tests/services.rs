use ai_core::api::{interact_summary, pattern_detail, rebuild_summary, reflection, stats};
use ai_core::chat::{ChatMessage, ChatProcessor, ChatSession};
use ai_core::config::{parse_u16, Config};
use ai_core::document::{DocumentProcessor, JsonValue};
use ai_core::experience::Experience;
use ai_core::export::ChatExporter;
use ai_core::learning::ApiLearningRecord;
use ai_core::memory::Memory;
use ai_core::ollama::OllamaClient;

#[test]
fn test_ollama_client_disabled() {
    let client = OllamaClient::new(
        "http://localhost:11434".to_string(),
        "llama2".to_string(),
        false,
    );
    assert!(!client.is_enabled());
    let result = client.check_enabled();
    assert!(result.is_err());
    assert!(result.unwrap_err().contains("disabled"));
}

#[test]
fn prompt_and_reply_reading() {
    let none: Vec<String> = vec![];
    assert_eq!(
        OllamaClient::build_prompt("q?", &none),
        "No context available.\n\nUser question: q?\n\nPlease provide a helpful response based on the context above."
    );
    let ctx = vec!["- a (from b)".to_string(), "- c (from d)".to_string()];
    assert!(OllamaClient::build_prompt("q", &ctx).starts_with("Context from memory:\n- a (from b)\n- c (from d)\n\nUser question: q"));
    assert_eq!(OllamaClient::read_reply("hi".to_string(), None), Ok("hi".to_string()));
    assert_eq!(OllamaClient::read_reply(String::new(), None), Err("Ollama returned empty response".to_string()));
    assert_eq!(OllamaClient::read_reply("x".to_string(), Some("bad".to_string())), Err("Ollama error: bad".to_string()));
    let c = OllamaClient::new("http://h:1".to_string(), "m".to_string(), true);
    assert_eq!(c.generate_endpoint(), "http://h:1/api/generate");
    assert_eq!(c.tags_endpoint(), "http://h:1/api/tags");
    assert!(c.check_enabled().is_ok());
}

#[test]
fn config_defaults_and_errors() {
    let c = Config::from_vars(Some("tok".to_string()), None, None, None, None, None).unwrap();
    assert_eq!(c.api_host, "127.0.0.1");
    assert_eq!(c.api_port, 3000);
    assert_eq!(c.ollama_url, "http://localhost:11434");
    assert_eq!(c.ollama_model, "llama2");
    assert!(!c.ollama_enabled);
    assert_eq!(c.address(), "127.0.0.1:3000");
    assert_eq!(c.ollama_api_endpoint(), "http://localhost:11434/api/generate");
    let e = Config::from_vars(None, None, None, None, None, None);
    assert_eq!(e.err(), Some("BEARER_TOKEN not set in .env file".to_string()));
    let p = Config::from_vars(Some("t".to_string()), None, Some("70000".to_string()), None, None, None);
    assert_eq!(p.err(), Some("Invalid API_PORT value".to_string()));
    let on = Config::from_vars(Some("t".to_string()), Some("0.0.0.0".to_string()), Some("8080".to_string()), None, None, Some("true".to_string())).unwrap();
    assert!(on.ollama_enabled);
    assert_eq!(on.address(), "0.0.0.0:8080");
    let odd = Config::from_vars(Some("t".to_string()), None, None, None, None, Some("TRUE".to_string())).unwrap();
    assert!(!odd.ollama_enabled);
}

#[test]
fn port_parsing_matches_std() {
    for s in ["0", "+80", "65535", "007", "65536", "", "+", "-1", "8o", " 80", "99999999999"] {
        assert_eq!(parse_u16(s), s.parse::<u16>().ok(), "input {:?}", s);
    }
}

#[test]
fn learning_tags_and_summary() {
    assert_eq!(
        ApiLearningRecord::extract_tags("https://api.example.com/users/42", ""),
        vec!["api.example.com", "users", "42"]
    );
    assert_eq!(
        ApiLearningRecord::extract_tags("https://h.io/search?q=1/x", ""),
        vec!["h.io", "x"]
    );
    assert_eq!(ApiLearningRecord::extract_tags("nohost", ""), Vec::<String>::new());
    assert_eq!(ApiLearningRecord::generate_summary("http://a", 200), "Success - http://a (200)");
    assert_eq!(ApiLearningRecord::generate_summary("http://a", 404), "Client Error - http://a (404)");
    assert_eq!(ApiLearningRecord::generate_summary("http://a", 503), "Server Error - http://a (503)");
    assert_eq!(ApiLearningRecord::generate_summary("http://a", 302), "Unknown - http://a (302)");
    let r = ApiLearningRecord::new("GET".to_string(), "https://x.org/a/b/c".to_string(), None, "ok".to_string(), 201);
    assert!(r.id.starts_with("api_"));
    assert_eq!(r.id.len(), 40);
    assert_eq!(r.tags, vec!["x.org", "a", "b"]);
    assert_eq!(r.summary, "Success - https://x.org/a/b/c (201)");
}

#[test]
fn simulated_request() {
    let p = ChatProcessor::new();
    let bad = p.execute_http_request("GET", "ftp://x", None, None);
    assert_eq!(bad.err(), Some("URL must start with http:// or https://".to_string()));
    let ok = p
        .execute_http_request("POST", "https://x.org", Some("b".to_string()), Some(vec![("k".to_string(), "v".to_string())]))
        .unwrap();
    assert_eq!(ok.status, 200);
    assert!(ok.success);
    assert_eq!(
        ok.body,
        "Simulated POST request to https://x.org\nHeaders: Some([(\"k\", \"v\")])\nBody: Some(\"b\")\n\nNote: In production, this will make actual HTTP requests using reqwest."
    );
}

#[test]
fn documents_of_each_type() {
    let d = DocumentProcessor::new();
    assert_eq!(d.process_document("plain", "txt"), Ok("plain".to_string()));
    assert_eq!(d.process_document("other", "pdf"), Ok("other".to_string()));
    assert_eq!(
        d.process_document("a,b\r\n1,2\n  \n3,4\n", "csv"),
        Ok("CSV Headers: a,b\nRow 1: 1,2\nRow 3: 3,4\n".to_string())
    );
    assert_eq!(
        d.process_document("{\"name\": \"Ann\", \"tags\": [\"x\", \"  \"], \"n\": 3, \"ok\": true, \"z\": null}", "json"),
        Ok("n: 3\nname: Ann\nok: true\ntags: x\nz: ".to_string())
    );
    let bad = d.process_document("{oops", "application/json");
    assert!(bad.unwrap_err().starts_with("Invalid JSON: "));
    let v = JsonValue::Array(vec![JsonValue::Text("a".to_string()), JsonValue::Bool(false)]);
    assert_eq!(DocumentProcessor::extract_from_json(&v), "a\nfalse\n");
}

#[test]
fn api_views_over_store() {
    let mut m = Memory::new();
    let a = m.remember(Experience::recorded_at("apple apple pie", "s", 0));
    m.remember(Experience::recorded_at("apple tart", "t", 60000));
    let s = stats(&m);
    assert_eq!(s.total_experiences, 2);
    assert_eq!(s.total_patterns, 3);
    assert_eq!(s.top_patterns[0].keyword, "apple");
    assert_eq!(s.top_patterns[0].frequency, 3);
    assert_eq!(s.top_patterns[0].experience_count, 2);
    let d = pattern_detail(&m, "PIE").unwrap();
    assert_eq!(d.keyword, "pie");
    assert_eq!(d.experience_ids, vec![a.id.clone()]);
    assert_eq!(d.related_experiences, vec!["apple apple pie".to_string()]);
    assert!(pattern_detail(&m, "none").is_none());
    let i = interact_summary(&m);
    assert_eq!(i.analysis, "Analyzed 2 experiences");
    assert_eq!(i.pattern_summary[0], "apple: 3 occurrences");
    assert_eq!(rebuild_summary(&m), "Patterns rebuilt. Found 3 unique patterns");
    let r = reflection(&m);
    assert_eq!(r.experiences[0].timestamp, "1970-01-01 00:00:00");
    assert_eq!(r.experiences[1].timestamp, "1970-01-01 00:01:00");
}

#[test]
fn exports_render_sessions() {
    let mut s = ChatSession::new("sess");
    s.created_at = 0;
    let mut m = ChatMessage::user("hi there");
    m.timestamp = 3_723_000;
    s.add_message(m);
    let e = ChatExporter::new();
    let txt = e.export_txt(&s);
    assert!(txt.starts_with("Chat Session: sess\nCreated: 1970-01-01 00:00:00\n\n====="));
    assert!(txt.contains("\n[01:02:03] USER\nhi there\n-----"));
    let md = e.export_markdown(&s);
    assert!(md.contains("## \u{1f464} USER (01:02:03)\n\nhi there\n\n"));
    let html = e.export_html(&s);
    assert!(html.starts_with("<!DOCTYPE html>"));
    assert!(html.contains("<div class=\"message user\">\n    <div class=\"role\">USER</div>"));
    assert!(html.ends_with("</body>\n</html>"));
}
