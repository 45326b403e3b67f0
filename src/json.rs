use vstd::prelude::*;

verus! {

broadcast use vstd::std_specs::vec::group_vec_axioms;

/// A JSON value as the library reads and writes it. A number keeps the text
/// it is written with.
#[derive(Debug)]
pub enum Json {
    Null,
    Bool(bool),
    Number(String),
    Str(String),
    Array(Vec<Json>),
    Object(Vec<Member>),
}

/// One `"key": value` entry of a JSON object.
#[derive(Debug)]
pub struct Member {
    pub key: String,
    pub value: Json,
}

/// Declares serde_json's value type, which `from_value` takes.
#[verifier::external_type_specification]
#[verifier::external_body]
pub struct ExValue(serde_json::Value);

/// How one character stands inside a JSON string: a quote, a backslash and
/// the control characters are escaped, the short forms where JSON has one,
/// else as `\u00` and two lower-case hex digits; any other character stands
/// as itself.
pub open spec fn char_escaped(c: char) -> Seq<char> {
    if c == '"' {
        "\\\""@
    } else if c == '\\' {
        "\\\\"@
    } else if c == '\u{8}' {
        "\\b"@
    } else if c == '\t' {
        "\\t"@
    } else if c == '\n' {
        "\\n"@
    } else if c == '\u{c}' {
        "\\f"@
    } else if c == '\r' {
        "\\r"@
    } else if (c as u32) < 0x20 {
        "\\u00"@ + seq!["0123456789abcdef"@[(c as int) / 16], "0123456789abcdef"@[(c as int) % 16]]
    } else {
        seq![c]
    }
}

/// The characters of a string with each one escaped.
pub open spec fn escaped(s: Seq<char>) -> Seq<char>
    decreases s.len(),
{
    if s.len() == 0 {
        Seq::empty()
    } else {
        escaped(s.drop_last()) + char_escaped(s.last())
    }
}

/// How serde_json writes a string: between quotes, with its escapes.
pub open spec fn json_quoted(s: Seq<char>) -> Seq<char> {
    "\""@ + escaped(s) + "\""@
}

/// What serde_json reads from a text: `None` where the text is not JSON.
pub uninterp spec fn json_parsed(s: Seq<char>) -> Option<Json>;

/// Relies on serde_json's writer for a `Value::String` (`format_escaped_str`
/// with its `ESCAPE` table and `write_char_escape`): the string between
/// quotes, each character escaped as `char_escaped` says.
#[verifier::external_body]
pub(crate) fn quote(s: &str) -> (r: String)
    ensures
        r@ == json_quoted(s@),
{
    serde_json::Value::String(s.to_owned()).to_string()
}

/// Relies on serde_json::from_str::<Value>: whether the text is JSON, and the
/// value it holds, depend on the text alone.
#[verifier::external_body]
pub(crate) fn parse(text: &str) -> (r: Option<Json>)
    ensures
        r == json_parsed(text@),
{
    serde_json::from_str::<serde_json::Value>(text).ok().map(from_value)
}

/// Moves a value that serde_json produced into the library's model, one
/// variant for one variant; a number keeps serde_json's text of it.
#[verifier::external_body]
fn from_value(v: serde_json::Value) -> Json {
    match v {
        serde_json::Value::Null => Json::Null,
        serde_json::Value::Bool(b) => Json::Bool(b),
        serde_json::Value::Number(n) => Json::Number(n.to_string()),
        serde_json::Value::String(s) => Json::Str(s),
        serde_json::Value::Array(a) => Json::Array(a.into_iter().map(from_value).collect()),
        serde_json::Value::Object(o) => Json::Object(
            o.into_iter().map(|(key, value)| Member { key, value: from_value(value) }).collect(),
        ),
    }
}

/// The compact text of a value: no whitespace, members in their order.
pub open spec fn json_text(j: Json) -> Seq<char>
    decreases j,
{
    match j {
        Json::Null => "null"@,
        Json::Bool(b) => if b { "true"@ } else { "false"@ },
        Json::Number(n) => n@,
        Json::Str(s) => json_quoted(s@),
        Json::Array(items) => "["@ + items_text(items@) + "]"@,
        Json::Object(members) => "{"@ + members_text(members@) + "}"@,
    }
}

/// The texts of the values of `s`, separated by commas.
pub open spec fn items_text(s: Seq<Json>) -> Seq<char>
    decreases s,
{
    if s.len() == 0 {
        Seq::empty()
    } else if s.len() == 1 {
        json_text(s[0])
    } else {
        items_text(s.drop_last()) + ","@ + json_text(s.last())
    }
}

/// The texts of the members of `s`, separated by commas.
pub open spec fn members_text(s: Seq<Member>) -> Seq<char>
    decreases s,
{
    if s.len() == 0 {
        Seq::empty()
    } else if s.len() == 1 {
        json_quoted(s[0].key@) + ":"@ + json_text(s[0].value)
    } else {
        members_text(s.drop_last()) + ","@ + json_quoted(s.last().key@) + ":"@ + json_text(s.last().value)
    }
}

/// Writes a value in compact form.
pub fn render(j: &Json) -> (r: String)
    ensures
        r@ == json_text(*j),
    decreases j,
{
    match j {
        Json::Null => "null".to_owned(),
        Json::Bool(b) => if *b { "true".to_owned() } else { "false".to_owned() },
        Json::Number(n) => n.clone(),
        Json::Str(s) => quote(s.as_str()),
        Json::Array(items) => {
            let mut out = "[".to_owned();
            let ghost start = out@;
            let mut i: usize = 0;
            while i < items.len()
                invariant
                    0 <= i <= items.len(),
                    *j == Json::Array(*items),
                    out@ == start + items_text(items@.subrange(0, i as int)),
                decreases items.len() - i,
            {
                if i > 0 {
                    out.append(",");
                }
                assert(decreases_to!(*j => items[i as int])) by {
                    assert(decreases_to!(*j => (*j)->Array_0));
                    assert(decreases_to!(*items => items[i as int]));
                }
                let part = render(&items[i]);
                out.append(part.as_str());
                let ghost sub = items@.subrange(0, i + 1);
                assert(sub.drop_last() =~= items@.subrange(0, i as int));
                i = i + 1;
            }
            assert(items@.subrange(0, i as int) =~= items@);
            out.append("]");
            out
        },
        Json::Object(members) => {
            let mut out = "{".to_owned();
            let ghost start = out@;
            let mut i: usize = 0;
            while i < members.len()
                invariant
                    0 <= i <= members.len(),
                    *j == Json::Object(*members),
                    out@ == start + members_text(members@.subrange(0, i as int)),
                decreases members.len() - i,
            {
                if i > 0 {
                    out.append(",");
                }
                let key = quote(members[i].key.as_str());
                out.append(key.as_str());
                out.append(":");
                assert(decreases_to!(*j => members[i as int].value)) by {
                    assert(decreases_to!(*j => (*j)->Object_0));
                    assert(decreases_to!(*members => members[i as int]));
                }
                let part = render(&members[i].value);
                out.append(part.as_str());
                let ghost sub = members@.subrange(0, i + 1);
                assert(sub.drop_last() =~= members@.subrange(0, i as int));
                i = i + 1;
            }
            assert(members@.subrange(0, i as int) =~= members@);
            out.append("}");
            out
        },
    }
}

} // verus!
