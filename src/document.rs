//! Text extraction from uploaded documents: plain text, CSV and JSON.
use vstd::prelude::*;
use crate::text::{char_views, chars_of, dec_text, decimal, is_space, pieces, space, split_on, string_of};

verus! {

/// A parsed JSON document, as plain values. A number is held as the text
/// serde_json renders for it; an object's members come in serde_json's order.
pub enum JsonValue {
    Null,
    Bool(bool),
    Number(String),
    Text(String),
    Array(Vec<JsonValue>),
    Object(Vec<(String, JsonValue)>),
}

#[verifier::external_type_specification]
#[verifier::external_body]
pub struct ExJsonValue(serde_json::Value);

/// What `serde_json::from_str::<serde_json::Value>` makes of a text: the
/// document, or the parser's error message.
pub uninterp spec fn json_outcome(s: Seq<char>) -> Result<JsonValue, Seq<char>>;

/// A parse outcome with its error message as a plain value.
pub open spec fn outcome_view(r: Result<JsonValue, String>) -> Result<JsonValue, Seq<char>> {
    match r {
        Ok(v) => Ok(v),
        Err(e) => Err(e@),
    }
}

/// Relies on serde_json's `Value` variants: each becomes the matching
/// [`JsonValue`] variant, a number as its `to_string`.
#[verifier::external_body]
fn convert_json(v: serde_json::Value) -> JsonValue {
    match v {
        serde_json::Value::Null => JsonValue::Null,
        serde_json::Value::Bool(b) => JsonValue::Bool(b),
        serde_json::Value::Number(n) => JsonValue::Number(n.to_string()),
        serde_json::Value::String(s) => JsonValue::Text(s),
        serde_json::Value::Array(a) => JsonValue::Array(a.into_iter().map(convert_json).collect()),
        serde_json::Value::Object(o) => JsonValue::Object(
            o.into_iter().map(|(k, x)| (k, convert_json(x))).collect(),
        ),
    }
}

/// Relies on `serde_json::from_str::<serde_json::Value>`: the outcome depends
/// on the text alone.
#[verifier::external_body]
fn parse_json(s: &str) -> (r: Result<JsonValue, String>)
    ensures
        outcome_view(r) == json_outcome(s@),
{
    serde_json::from_str::<serde_json::Value>(s).map(convert_json).map_err(|e| e.to_string())
}

/// Is every character of `s` whitespace?
pub open spec fn all_space(s: Seq<char>) -> bool {
    forall|i: int| 0 <= i < s.len() ==> is_space(#[trigger] s[i])
}

/// The readable text of a JSON value: each non-blank string, number and
/// boolean on a line of its own, each object member's value preceded by
/// `<key>: `, in document order.
pub open spec fn json_text(v: JsonValue) -> Seq<char>
    decreases v,
{
    match v {
        JsonValue::Null => Seq::empty(),
        JsonValue::Bool(b) => (if b {
            "true"@
        } else {
            "false"@
        }) + "\n"@,
        JsonValue::Number(n) => n@ + "\n"@,
        JsonValue::Text(s) => if all_space(s@) {
            Seq::empty()
        } else {
            s@ + "\n"@
        },
        JsonValue::Array(items) => items_text(items@),
        JsonValue::Object(members) => members_text(members@),
    }
}

/// The readable text of the values `s`, in order.
pub open spec fn items_text(s: Seq<JsonValue>) -> Seq<char>
    decreases s,
{
    if s.len() == 0 {
        Seq::empty()
    } else {
        items_text(s.subrange(0, s.len() - 1)) + json_text(s[s.len() - 1])
    }
}

/// The readable text of the object members `s`, in order.
pub open spec fn members_text(s: Seq<(String, JsonValue)>) -> Seq<char>
    decreases s,
{
    if s.len() == 0 {
        Seq::empty()
    } else {
        members_text(s.subrange(0, s.len() - 1)) + s[s.len() - 1].0@ + ": "@ + json_text(
            s[s.len() - 1].1,
        )
    }
}

/// The lines of a text, as `str::lines` yields them: split at `\n`, a `\r`
/// before the `\n` dropped, and no line after a final `\n`.
pub open spec fn lines_of(s: Seq<char>) -> Seq<Seq<char>> {
    let ps = pieces(s, '\n');
    let ended = ps.subrange(0, ps.len() - 1).map_values(|p: Seq<char>| strip_cr(p));
    if ps.last().len() > 0 {
        ended.push(ps.last())
    } else {
        ended
    }
}

/// A line that ended in `\n`, without a `\r` just before it.
pub open spec fn strip_cr(p: Seq<char>) -> Seq<char> {
    if p.len() > 0 && p.last() == '\r' {
        p.drop_last()
    } else {
        p
    }
}

/// The CSV rendering of the lines `ls`: the first as the headers, each later
/// non-blank one as a numbered row.
pub open spec fn csv_text(ls: Seq<Seq<char>>) -> Seq<char>
    decreases ls.len(),
{
    if ls.len() == 0 {
        Seq::empty()
    } else {
        let i = ls.len() - 1;
        let line = ls[i];
        csv_text(ls.drop_last()) + if i == 0 {
            "CSV Headers: "@ + line + "\n"@
        } else if !all_space(line) {
            "Row "@ + dec_text(i as nat) + ": "@ + line + "\n"@
        } else {
            Seq::empty()
        }
    }
}

fn blank(s: &Vec<char>) -> (r: bool)
    ensures
        r == all_space(s@),
{
    let mut i: usize = 0;
    while i < s.len()
        invariant
            i <= s@.len(),
            forall|k: int| 0 <= k < i ==> is_space(#[trigger] s@[k]),
        decreases s@.len() - i,
    {
        if !space(s[i]) {
            return false;
        }
        i = i + 1;
    }
    true
}

/// Extracts readable text from uploaded documents.
pub struct DocumentProcessor;

impl DocumentProcessor {
    /// A processor.
    pub fn new() -> (r: DocumentProcessor) {
        DocumentProcessor
    }

    /// The readable text of a JSON value (see [`json_text`]).
    pub fn extract_from_json(value: &JsonValue) -> (r: String)
        ensures
            r@ == json_text(*value),
        decreases value,
    {
        match value {
            JsonValue::Null => String::new(),
            JsonValue::Bool(b) => {
                let mut r = if *b {
                    String::from_str("true")
                } else {
                    String::from_str("false")
                };
                r.append("\n");
                r
            },
            JsonValue::Number(n) => {
                let mut r = n.clone();
                r.append("\n");
                r
            },
            JsonValue::Text(s) => {
                let cs = chars_of(s.as_str());
                if blank(&cs) {
                    String::new()
                } else {
                    let mut r = s.clone();
                    r.append("\n");
                    r
                }
            },
            JsonValue::Array(items) => {
                let mut r = String::new();
                let mut i: usize = 0;
                while i < items.len()
                    invariant
                        i <= items@.len(),
                        *value == JsonValue::Array(*items),
                        r@ == items_text(items@.subrange(0, i as int)),
                    decreases items@.len() - i,
                {
                    assert(items@.subrange(0, i + 1).subrange(0, i as int) =~= items@.subrange(
                        0,
                        i as int,
                    ));
                    proof {
                        assert(decreases_to!(*value => value->Array_0));
                        assert(decreases_to!(*items => items@));
                        assert(decreases_to!(items@ => items@[i as int]));
                    }
                    let t = Self::extract_from_json(&items[i]);
                    r.append(t.as_str());
                    i = i + 1;
                }
                assert(items@.subrange(0, i as int) =~= items@);
                r
            },
            JsonValue::Object(members) => {
                let mut r = String::new();
                let mut i: usize = 0;
                while i < members.len()
                    invariant
                        i <= members@.len(),
                        *value == JsonValue::Object(*members),
                        r@ == members_text(members@.subrange(0, i as int)),
                    decreases members@.len() - i,
                {
                    assert(members@.subrange(0, i + 1).subrange(0, i as int) =~= members@.subrange(
                        0,
                        i as int,
                    ));
                    proof {
                        assert(decreases_to!(*value => value->Object_0));
                        assert(decreases_to!(*members => members@));
                        assert(decreases_to!(members@ => members@[i as int]));
                        assert(decreases_to!(members@[i as int] => members@[i as int].1));
                    }
                    r.append(members[i].0.as_str());
                    r.append(": ");
                    let t = Self::extract_from_json(&members[i].1);
                    r.append(t.as_str());
                    i = i + 1;
                }
                assert(members@.subrange(0, i as int) =~= members@);
                r
            },
        }
    }

    /// The CSV rendering of `content` (see [`csv_text`]).
    pub fn csv_to_text(content: &str) -> (r: String)
        ensures
            r@ == csv_text(lines_of(content@)),
    {
        let cs = chars_of(content);
        let ps = split_on(&cs, '\n');
        let ghost pv = char_views(ps@);
        let ghost ls = lines_of(content@);
        let last = ps.len() - 1;
        let count = if ps[last].len() > 0 {
            ps.len()
        } else {
            last
        };
        assert(ls.len() == count);
        let mut r = String::new();
        let mut i: usize = 0;
        while i < count
            invariant
                pv == char_views(ps@),
                pv == pieces(content@, '\n'),
                ls == lines_of(content@),
                ls.len() == count,
                count <= ps@.len(),
                last == ps@.len() - 1,
                i <= count,
                r@ == csv_text(ls.take(i as int)),
            decreases count - i,
        {
            let piece = &ps[i];
            let line: Vec<char> = if i < last && piece.len() > 0 && piece[piece.len() - 1] == '\r' {
                let mut l: Vec<char> = Vec::new();
                let mut k: usize = 0;
                while k < piece.len() - 1
                    invariant
                        k <= piece@.len() - 1,
                        l@ == piece@.take(k as int),
                    decreases piece@.len() - 1 - k,
                {
                    l.push(piece[k]);
                    k = k + 1;
                    assert(l@ =~= piece@.take(k as int));
                }
                assert(l@ =~= piece@.drop_last());
                l
            } else {
                let mut l: Vec<char> = Vec::new();
                let mut k: usize = 0;
                while k < piece.len()
                    invariant
                        k <= piece@.len(),
                        l@ == piece@.take(k as int),
                    decreases piece@.len() - k,
                {
                    l.push(piece[k]);
                    k = k + 1;
                    assert(l@ =~= piece@.take(k as int));
                }
                assert(l@ =~= piece@);
                l
            };
            assert(pv[i as int] == piece@);
            assert(line@ == ls[i as int]);
            assert(ls.take(i + 1).drop_last() =~= ls.take(i as int));
            let text = string_of(line.as_slice());
            if i == 0 {
                r.append("CSV Headers: ");
                r.append(text.as_str());
                r.append("\n");
            } else if !blank(&line) {
                r.append("Row ");
                let n = decimal(i as u64);
                r.append(n.as_str());
                r.append(": ");
                r.append(text.as_str());
                r.append("\n");
            }
            i = i + 1;
        }
        assert(ls.take(count as int) =~= ls);
        r
    }

    /// The readable text of an uploaded document of type `filetype`: plain
    /// text as it is, CSV as headers and numbered rows, JSON as its
    /// readable text; any other type as plain text. Fails only on JSON that
    /// does not parse.
    pub fn process_document(&self, content: &str, filetype: &str) -> (r: Result<String, String>)
        ensures
            (filetype@ == "json"@ || filetype@ == "application/json"@) ==> match json_outcome(
                content@,
            ) {
                Ok(v) => r matches Ok(t) && t@ == json_text(v),
                Err(e) => r matches Err(m) && m@ == "Invalid JSON: "@ + e,
            },
            (filetype@ == "csv"@ || filetype@ == "text/csv"@) ==> (r matches Ok(t) && t@
                == csv_text(lines_of(content@))),
            !(filetype@ == "json"@ || filetype@ == "application/json"@ || filetype@ == "csv"@
                || filetype@ == "text/csv"@) ==> (r matches Ok(t) && t@ == content@),
    {
        proof {
            reveal_strlit("json");
            reveal_strlit("application/json");
            reveal_strlit("csv");
            reveal_strlit("text/csv");
            assert("csv"@.len() == 3 && "text/csv"@.len() == 8);
            assert("json"@.len() == 4 && "application/json"@.len() == 16);
        }
        let ft = String::from_str(filetype);
        if ft == String::from_str("json") || ft == String::from_str("application/json") {
            match parse_json(content) {
                Ok(v) => Ok(Self::extract_from_json(&v)),
                Err(e) => {
                    let mut m = String::from_str("Invalid JSON: ");
                    m.append(e.as_str());
                    Err(m)
                },
            }
        } else if ft == String::from_str("csv") || ft == String::from_str("text/csv") {
            Ok(Self::csv_to_text(content))
        } else {
            Ok(String::from_str(content))
        }
    }
}

} // verus!
