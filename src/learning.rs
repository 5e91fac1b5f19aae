//! Records of HTTP exchanges the service learns from: their tags, their
//! one-line summaries, and the simulated request that produces them.
use vstd::prelude::*;
use crate::chat::{random_uuid, ChatProcessor};
use crate::experience::now_millis;
use crate::text::{
    char_views, chars_of, dec_text, decimal, has_prefix, pieces, split_on, starts_with_chars,
    string_of,
};

verus! {

/// What `{:?}` renders for optional headers.
pub uninterp spec fn headers_debug_text(h: Option<Seq<(Seq<char>, Seq<char>)>>) -> Seq<char>;

/// What `{:?}` renders for an optional body.
pub uninterp spec fn body_debug_text(b: Option<Seq<char>>) -> Seq<char>;

/// Optional headers as plain values.
pub open spec fn header_views(h: Option<Vec<(String, String)>>) -> Option<
    Seq<(Seq<char>, Seq<char>)>,
> {
    match h {
        Some(v) => Some(v@.map_values(|p: (String, String)| (p.0@, p.1@))),
        None => None,
    }
}

/// Optional body as a plain value.
pub open spec fn body_view(b: Option<String>) -> Option<Seq<char>> {
    match b {
        Some(s) => Some(s@),
        None => None,
    }
}

/// Relies on `Debug` for `Option<Vec<(String, String)>>`: the text depends on
/// the value alone.
#[verifier::external_body]
fn headers_debug(h: &Option<Vec<(String, String)>>) -> (r: String)
    ensures
        r@ == headers_debug_text(header_views(*h)),
{
    format!("{:?}", h)
}

/// Relies on `Debug` for `Option<String>`: the text depends on the value alone.
#[verifier::external_body]
fn body_debug(b: &Option<String>) -> (r: String)
    ensures
        r@ == body_debug_text(body_view(*b)),
{
    format!("{:?}", b)
}

/// The answer to an HTTP request.
pub struct HttpResponse {
    pub status: u16,
    pub body: String,
    pub success: bool,
}

/// The body of the simulated answer.
pub open spec fn simulated_body(
    method: Seq<char>,
    url: Seq<char>,
    body: Option<Seq<char>>,
    headers: Option<Seq<(Seq<char>, Seq<char>)>>,
) -> Seq<char> {
    "Simulated "@ + method + " request to "@ + url + "\nHeaders: "@ + headers_debug_text(headers)
        + "\nBody: "@ + body_debug_text(body)
        + "\n\nNote: In production, this will make actual HTTP requests using reqwest."@
}

/// Is `url` an http or https URL?
pub open spec fn is_http_url(url: Seq<char>) -> bool {
    has_prefix(url, "http://"@) || has_prefix(url, "https://"@)
}

impl ChatProcessor {
    /// Answers a request with a simulated success that echoes it; refuses a
    /// URL that does not start with `http://` or `https://`.
    pub fn execute_http_request(
        &self,
        method: &str,
        url: &str,
        body: Option<String>,
        headers: Option<Vec<(String, String)>>,
    ) -> (r: Result<HttpResponse, String>)
        ensures
            !is_http_url(url@) ==> (r matches Err(e) && e@
                == "URL must start with http:// or https://"@),
            is_http_url(url@) ==> (r matches Ok(resp) && resp.status == 200 && resp.success
                && resp.body@ == simulated_body(
                method@,
                url@,
                body_view(body),
                header_views(headers),
            )),
    {
        let uc = chars_of(url);
        if !starts_with_chars(&uc, &chars_of("http://")) && !starts_with_chars(
            &uc,
            &chars_of("https://"),
        ) {
            return Err(String::from_str("URL must start with http:// or https://"));
        }
        let mut text = String::from_str("Simulated ");
        text.append(method);
        text.append(" request to ");
        text.append(url);
        text.append("\nHeaders: ");
        let h = headers_debug(&headers);
        text.append(h.as_str());
        text.append("\nBody: ");
        let b = body_debug(&body);
        text.append(b.as_str());
        text.append("\n\nNote: In production, this will make actual HTTP requests using reqwest.");
        Ok(HttpResponse { status: 200, body: text, success: true })
    }
}

/// A path piece that becomes a tag: non-empty and without `?`.
pub open spec fn path_tag_ok(p: Seq<char>) -> bool {
    p.len() > 0 && !p.contains('?')
}

/// The tags of `url`: its host (the third `/`-separated piece), then each of
/// the next two pieces that is non-empty and holds no `?`.
pub open spec fn tags_of(url: Seq<char>) -> Seq<Seq<char>> {
    let ps = pieces(url, '/');
    let host: Seq<Seq<char>> = if ps.len() > 2 {
        seq![ps[2]]
    } else {
        Seq::empty()
    };
    let first: Seq<Seq<char>> = if ps.len() > 3 && path_tag_ok(ps[3]) {
        seq![ps[3]]
    } else {
        Seq::empty()
    };
    let second: Seq<Seq<char>> = if ps.len() > 4 && path_tag_ok(ps[4]) {
        seq![ps[4]]
    } else {
        Seq::empty()
    };
    host + first + second
}

/// How a status code reads.
pub open spec fn status_text(code: nat) -> Seq<char> {
    if 200 <= code < 300 {
        "Success"@
    } else if 400 <= code < 500 {
        "Client Error"@
    } else if code >= 500 {
        "Server Error"@
    } else {
        "Unknown"@
    }
}

/// The one-line summary of an exchange with `url` that answered `code`.
pub open spec fn summary_of(url: Seq<char>, code: nat) -> Seq<char> {
    status_text(code) + " - "@ + url + " ("@ + dec_text(code) + ")"@
}

fn tag_ok(p: &Vec<char>) -> (r: bool)
    ensures
        r == path_tag_ok(p@),
{
    if p.len() == 0 {
        return false;
    }
    let mut i: usize = 0;
    while i < p.len()
        invariant
            i <= p@.len(),
            forall|k: int| 0 <= k < i ==> p@[k] != '?',
        decreases p@.len() - i,
    {
        if p[i] == '?' {
            assert(p@.contains('?'));
            return false;
        }
        i = i + 1;
    }
    true
}

/// A record of one HTTP exchange. `learned_at` counts milliseconds since the
/// Unix epoch, UTC.
pub struct ApiLearningRecord {
    pub id: String,
    pub method: String,
    pub url: String,
    pub request_body: Option<String>,
    pub response_body: String,
    pub status_code: u16,
    pub learned_at: i64,
    pub tags: Vec<String>,
    pub summary: String,
}

impl ApiLearningRecord {
    /// A record of an exchange, with a fresh id (`api_` and a random UUID),
    /// the current time, and the tags and summary derived from it.
    pub fn new(
        method: String,
        url: String,
        request_body: Option<String>,
        response_body: String,
        status_code: u16,
    ) -> (r: ApiLearningRecord)
        ensures
            r.id@.len() == 40,
            r.id@.take(4) == "api_"@,
            r.method == method,
            r.url == url,
            r.request_body == request_body,
            r.response_body == response_body,
            r.status_code == status_code,
            crate::text::string_views(r.tags@) == tags_of(url@),
            r.summary@ == summary_of(url@, status_code as nat),
    {
        let mut id = String::from_str("api_");
        let u = random_uuid();
        id.append(u.as_str());
        proof {
            reveal_strlit("api_");
        }
        assert(id@.take(4) =~= "api_"@);
        let tags = Self::extract_tags(url.as_str(), response_body.as_str());
        let summary = Self::generate_summary(url.as_str(), status_code);
        ApiLearningRecord {
            id,
            method,
            url,
            request_body,
            response_body,
            status_code,
            learned_at: now_millis(),
            tags,
            summary,
        }
    }

    /// The tags of `url` (see [`tags_of`]); the response is not consulted.
    pub fn extract_tags(url: &str, _response: &str) -> (r: Vec<String>)
        ensures
            crate::text::string_views(r@) == tags_of(url@),
    {
        let uc = chars_of(url);
        let ps = split_on(&uc, '/');
        let ghost pv = char_views(ps@);
        let mut tags: Vec<String> = Vec::new();
        if ps.len() > 2 {
            tags.push(string_of(ps[2].as_slice()));
        }
        let ghost host = crate::text::string_views(tags@);
        assert(pv.len() > 2 ==> pv[2] == ps@[2]@);
        assert(host =~= (if pv.len() > 2 {
            seq![pv[2]]
        } else {
            Seq::<Seq<char>>::empty()
        }));
        if ps.len() > 3 && tag_ok(&ps[3]) {
            tags.push(string_of(ps[3].as_slice()));
        }
        let ghost upto_first = crate::text::string_views(tags@);
        assert(pv.len() > 3 ==> pv[3] == ps@[3]@);
        assert(upto_first =~= host + (if pv.len() > 3 && path_tag_ok(pv[3]) {
            seq![pv[3]]
        } else {
            Seq::<Seq<char>>::empty()
        }));
        if ps.len() > 4 && tag_ok(&ps[4]) {
            tags.push(string_of(ps[4].as_slice()));
        }
        assert(pv.len() > 4 ==> pv[4] == ps@[4]@);
        assert(crate::text::string_views(tags@) =~= upto_first + (if pv.len() > 4 && path_tag_ok(
            pv[4],
        ) {
            seq![pv[4]]
        } else {
            Seq::<Seq<char>>::empty()
        }));
        tags
    }

    /// `<status text> - <url> (<code>)`.
    pub fn generate_summary(url: &str, status_code: u16) -> (r: String)
        ensures
            r@ == summary_of(url@, status_code as nat),
    {
        let mut r = if status_code >= 200 && status_code < 300 {
            String::from_str("Success")
        } else if status_code >= 400 && status_code < 500 {
            String::from_str("Client Error")
        } else if status_code >= 500 {
            String::from_str("Server Error")
        } else {
            String::from_str("Unknown")
        };
        r.append(" - ");
        r.append(url);
        r.append(" (");
        let code = decimal(status_code as u64);
        r.append(code.as_str());
        r.append(")");
        r
    }
}

} // verus!
