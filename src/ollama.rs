//! The optional text-generation backend, as far as its decisions go: whether
//! it may be asked, the prompt it is given, and how its answer is read. The
//! HTTP exchange itself happens outside the library.
use vstd::prelude::*;
use crate::text::{join_with, joined, string_views};

verus! {

/// Where the generation backend lives and whether it may be used.
pub struct OllamaClient {
    url: String,
    model: String,
    enabled: bool,
}

/// The prompt for `user_input` with the context lines `context`.
pub open spec fn prompt_of(user_input: Seq<char>, context: Seq<Seq<char>>) -> Seq<char> {
    let context_text = if context.len() == 0 {
        "No context available."@
    } else {
        "Context from memory:\n"@ + joined(context, "\n"@)
    };
    context_text + "\n\nUser question: "@ + user_input
        + "\n\nPlease provide a helpful response based on the context above."@
}

impl OllamaClient {
    /// A client for the server at `url` using `model`.
    pub fn new(url: String, model: String, enabled: bool) -> (r: OllamaClient)
        ensures
            r.url() == url@,
            r.model() == model@,
            r.is_enabled() == enabled,
    {
        OllamaClient { url, model, enabled }
    }

    /// The server's base URL.
    pub closed spec fn url(&self) -> Seq<char> {
        self.url@
    }

    /// The model's name.
    pub closed spec fn model(&self) -> Seq<char> {
        self.model@
    }

    /// Whether the backend may be used.
    pub closed spec fn enabled(&self) -> bool {
        self.enabled
    }

    /// Whether the backend may be used.
    #[verifier::when_used_as_spec(enabled)]
    pub fn is_enabled(&self) -> (r: bool)
        ensures
            r == self.enabled(),
    {
        self.enabled
    }

    /// The server's base URL.
    pub fn base_url(&self) -> (r: &String)
        ensures
            r@ == self.url(),
    {
        &self.url
    }

    /// The model's name.
    pub fn model_name(&self) -> (r: &String)
        ensures
            r@ == self.model(),
    {
        &self.model
    }

    /// The URL that generation requests go to.
    pub fn generate_endpoint(&self) -> (r: String)
        ensures
            r@ == self.url() + "/api/generate"@,
    {
        let mut r = self.url.clone();
        r.append("/api/generate");
        r
    }

    /// The URL that lists the installed models.
    pub fn tags_endpoint(&self) -> (r: String)
        ensures
            r@ == self.url() + "/api/tags"@,
    {
        let mut r = self.url.clone();
        r.append("/api/tags");
        r
    }

    /// Refuses when the backend is disabled.
    pub fn check_enabled(&self) -> (r: Result<(), String>)
        ensures
            r is Ok <==> self.enabled(),
            r matches Err(e) ==> e@ == "Ollama is disabled. Set OLLAMA_ENABLED=true in .env"@,
    {
        if self.enabled {
            Ok(())
        } else {
            Err(String::from_str("Ollama is disabled. Set OLLAMA_ENABLED=true in .env"))
        }
    }

    /// The prompt sent for `user_input`, with the retrieved `context` lines.
    pub fn build_prompt(user_input: &str, context: &Vec<String>) -> (r: String)
        ensures
            r@ == prompt_of(user_input@, string_views(context@)),
    {
        let mut r = if context.len() == 0 {
            String::from_str("No context available.")
        } else {
            let mut t = String::from_str("Context from memory:\n");
            let body = join_with(context, "\n");
            t.append(body.as_str());
            t
        };
        r.append("\n\nUser question: ");
        r.append(user_input);
        r.append("\n\nPlease provide a helpful response based on the context above.");
        r
    }

    /// Reads a decoded answer: a reported error, or an empty text, is a
    /// failure; otherwise the text is the reply.
    pub fn read_reply(response: String, error: Option<String>) -> (r: Result<String, String>)
        ensures
            error matches Some(e) ==> (r matches Err(m) && m@ == "Ollama error: "@ + e@),
            error is None && response@.len() == 0 ==> (r matches Err(m) && m@
                == "Ollama returned empty response"@),
            error is None && response@.len() > 0 ==> r == Ok::<String, String>(response),
    {
        match error {
            Some(e) => {
                let mut m = String::from_str("Ollama error: ");
                m.append(e.as_str());
                Err(m)
            },
            None => {
                if response.as_str().is_empty() {
                    Err(String::from_str("Ollama returned empty response"))
                } else {
                    Ok(response)
                }
            },
        }
    }
}

} // verus!
