//! Service settings, from the values of their variables.
use vstd::prelude::*;
use crate::text::{chars_of, dec_text, decimal};

verus! {

/// Service settings.
pub struct Config {
    pub bearer_token: String,
    pub api_host: String,
    pub api_port: u16,
    pub ollama_url: String,
    pub ollama_model: String,
    pub ollama_enabled: bool,
}

/// Is `c` an ASCII decimal digit?
pub open spec fn is_digit(c: char) -> bool {
    '0' <= c <= '9'
}

/// The value of an ASCII decimal digit.
pub open spec fn digit_value(c: char) -> nat {
    ((c as u32) - ('0' as u32)) as nat
}

/// The value of a string of decimal digits.
pub open spec fn digits_value(s: Seq<char>) -> nat
    decreases s.len(),
{
    if s.len() == 0 {
        0
    } else {
        digits_value(s.drop_last()) * 10 + digit_value(s.last())
    }
}

/// `s` without one leading `+`, if it has one.
pub open spec fn unsigned_digits(s: Seq<char>) -> Seq<char> {
    if s.len() > 0 && s[0] == '+' {
        s.drop_first()
    } else {
        s
    }
}

/// Is every character of `d` an ASCII digit?
pub open spec fn all_digits(d: Seq<char>) -> bool {
    forall|i: int| 0 <= i < d.len() ==> is_digit(#[trigger] d[i])
}

/// What `u16::from_str` accepts: an optional `+`, then one or more ASCII
/// digits whose value fits in a `u16`.
pub open spec fn parse_u16_spec(s: Seq<char>) -> Option<nat> {
    let d = unsigned_digits(s);
    if d.len() > 0 && all_digits(d) && digits_value(d) <= u16::MAX {
        Some(digits_value(d))
    } else {
        None
    }
}

proof fn lemma_digits_value_grows(s: Seq<char>, i: int)
    requires
        0 <= i <= s.len(),
    ensures
        digits_value(s.take(i)) <= digits_value(s),
    decreases s.len(),
{
    if i < s.len() {
        lemma_digits_value_grows(s.drop_last(), i);
        assert(s.drop_last().take(i) =~= s.take(i));
    } else {
        assert(s.take(i) =~= s);
    }
}

/// Parses a port number the way `u16::from_str` does.
pub fn parse_u16(s: &str) -> (r: Option<u16>)
    ensures
        r matches Some(v) ==> parse_u16_spec(s@) == Some(v as nat),
        r is None ==> parse_u16_spec(s@) is None,
{
    let cs = chars_of(s);
    let n = cs.len();
    let start: usize = if n > 0 && cs[0] == '+' {
        1
    } else {
        0
    };
    let ghost d = unsigned_digits(s@);
    assert(d =~= cs@.subrange(start as int, n as int));
    if start == n {
        return None;
    }
    let mut value: u32 = 0;
    let mut i: usize = start;
    while i < n
        invariant
            cs@ == s@,
            n == cs@.len(),
            start <= i <= n,
            d == cs@.subrange(start as int, n as int),
            d == unsigned_digits(s@),
            forall|k: int| 0 <= k < i - start ==> is_digit(#[trigger] d[k]),
            value == digits_value(d.take(i - start)),
            value <= u16::MAX,
        decreases n - i,
    {
        let c = cs[i];
        assert(d.take(i - start + 1).drop_last() =~= d.take(i - start));
        assert(d[i - start] == c);
        if !('0' <= c && c <= '9') {
            assert(!is_digit(d[i - start]));
            return None;
        }
        let next = value * 10 + ((c as u32) - ('0' as u32));
        assert(d.take(i - start + 1).last() == c);
        assert(next == digits_value(d.take(i - start + 1)));
        if next > 65535 {
            proof {
                lemma_digits_value_grows(d, i - start + 1);
            }
            return None;
        }
        value = next;
        i = i + 1;
    }
    assert(d.take(n - start) =~= d);
    Some(value as u16)
}

impl Config {
    /// Settings from the values of their variables (`None` where a variable is
    /// unset): the bearer token is required; the host defaults to
    /// `127.0.0.1`, the port to 3000, the backend URL to
    /// `http://localhost:11434`, the model to `llama2`; the backend is enabled
    /// only by the value `true`.
    pub fn from_vars(
        bearer_token: Option<String>,
        api_host: Option<String>,
        api_port: Option<String>,
        ollama_url: Option<String>,
        ollama_model: Option<String>,
        ollama_enabled: Option<String>,
    ) -> (r: Result<Config, String>)
        ensures
            bearer_token is None ==> (r matches Err(e) && e@ == "BEARER_TOKEN not set in .env file"@),
            bearer_token is Some && (api_port matches Some(p) && parse_u16_spec(p@) is None) ==> (
            r matches Err(e) && e@ == "Invalid API_PORT value"@),
            bearer_token is Some && !(api_port matches Some(p) && parse_u16_spec(p@) is None) ==> (
            r matches Ok(c) && c.bearer_token == bearer_token->0 && c.api_host@ == (match api_host {
                Some(h) => h@,
                None => "127.0.0.1"@,
            }) && c.api_port as nat == (match api_port {
                Some(p) => parse_u16_spec(p@)->0,
                None => 3000,
            }) && c.ollama_url@ == (match ollama_url {
                Some(u) => u@,
                None => "http://localhost:11434"@,
            }) && c.ollama_model@ == (match ollama_model {
                Some(m) => m@,
                None => "llama2"@,
            }) && c.ollama_enabled == (ollama_enabled matches Some(e) && e@ == "true"@)),
    {
        let bearer_token = match bearer_token {
            Some(t) => t,
            None => {
                return Err(String::from_str("BEARER_TOKEN not set in .env file"));
            },
        };
        let api_host = match api_host {
            Some(h) => h,
            None => String::from_str("127.0.0.1"),
        };
        let api_port: u16 = match api_port {
            Some(p) => match parse_u16(p.as_str()) {
                Some(v) => v,
                None => {
                    return Err(String::from_str("Invalid API_PORT value"));
                },
            },
            None => 3000,
        };
        let ollama_url = match ollama_url {
            Some(u) => u,
            None => String::from_str("http://localhost:11434"),
        };
        let ollama_model = match ollama_model {
            Some(m) => m,
            None => String::from_str("llama2"),
        };
        let true_text = String::from_str("true");
        let ollama_enabled = match ollama_enabled {
            Some(e) => e == true_text,
            None => false,
        };
        Ok(Config { bearer_token, api_host, api_port, ollama_url, ollama_model, ollama_enabled })
    }

    /// The address the service listens on: `<host>:<port>`.
    pub fn address(&self) -> (r: String)
        ensures
            r@ == self.api_host@ + ":"@ + dec_text(self.api_port as nat),
    {
        let mut r = self.api_host.clone();
        r.append(":");
        let port = decimal(self.api_port as u64);
        r.append(port.as_str());
        r
    }

    /// The backend's generation endpoint.
    pub fn ollama_api_endpoint(&self) -> (r: String)
        ensures
            r@ == self.ollama_url@ + "/api/generate"@,
    {
        let mut r = self.ollama_url.clone();
        r.append("/api/generate");
        r
    }
}

} // verus!
