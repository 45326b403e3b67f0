use vstd::prelude::*;
use crate::api::ChatError;
use crate::json::{json_parsed, json_text, parse, render, Json, Member};

verus! {

/// The value of the first member of `ms` named `key`.
pub open spec fn member_lookup(ms: Seq<Member>, key: Seq<char>) -> Option<Json>
    decreases ms.len(),
{
    if ms.len() == 0 {
        None
    } else if ms[0].key@ == key {
        Some(ms[0].value)
    } else {
        member_lookup(ms.subrange(1, ms.len() as int), key)
    }
}

/// The member `key` of `j`, where `j` is an object that has one.
pub open spec fn field(j: Json, key: Seq<char>) -> Option<Json> {
    match j {
        Json::Object(ms) => member_lookup(ms@, key),
        _ => None,
    }
}

/// The text at `message.content` of one choice.
pub open spec fn choice_content(c: Json) -> Option<Seq<char>> {
    match field(c, "message"@) {
        Some(m) => match field(m, "content"@) {
            Some(Json::Str(s)) => Some(s@),
            _ => None,
        },
        None => None,
    }
}

/// The texts of all choices, in order; `None` if one of them has none.
pub open spec fn choice_contents(s: Seq<Json>) -> Option<Seq<Seq<char>>>
    decreases s.len(),
{
    if s.len() == 0 {
        Some(Seq::empty())
    } else {
        match (choice_contents(s.drop_last()), choice_content(s.last())) {
            (Some(a), Some(c)) => Some(a.push(c)),
            _ => None,
        }
    }
}

/// The completions a decoded reply carries.
pub open spec fn completions(j: Json) -> Option<Seq<Seq<char>>> {
    match field(j, "choices"@) {
        Some(Json::Array(items)) => choice_contents(items@),
        _ => None,
    }
}

/// What a decoded reply means: the reply itself if it holds an `error`
/// member, else the text of each choice, in order.
pub open spec fn value_meaning(j: Json, r: Result<Vec<String>, ChatError>) -> bool {
    if field(j, "error"@) is Some {
        r matches Err(ChatError::Remote(s)) && s@ == json_text(j)
    } else {
        match completions(j) {
            Some(list) => r matches Ok(v) && v@.map_values(|x: String| x@) == list,
            None => r == Err::<Vec<String>, ChatError>(ChatError::Malformed),
        }
    }
}

/// What a reply body means: its text if it is not JSON, else what the value
/// it holds means.
pub open spec fn reply_meaning(body: Seq<char>, r: Result<Vec<String>, ChatError>) -> bool {
    match json_parsed(body) {
        None => r matches Err(ChatError::NotJson(s)) && s@ == body,
        Some(j) => value_meaning(j, r),
    }
}

proof fn lemma_contents_prefix(s: Seq<Json>, k: int)
    requires
        0 <= k <= s.len(),
        choice_contents(s.subrange(0, k)) is None,
    ensures
        choice_contents(s) is None,
    decreases s.len() - k,
{
    if k < s.len() {
        assert(s.subrange(0, k + 1).drop_last() =~= s.subrange(0, k));
        lemma_contents_prefix(s, k + 1);
    } else {
        assert(s.subrange(0, k) =~= s);
    }
}

pub(crate) fn lookup<'a>(j: &'a Json, key: &String) -> (r: Option<&'a Json>)
    ensures
        r matches Some(v) ==> field(*j, key@) == Some(*v),
        r is None ==> field(*j, key@) is None,
{
    match j {
        Json::Object(ms) => {
            let mut i: usize = 0;
            assert(ms@.subrange(0, ms@.len() as int) =~= ms@);
            while i < ms.len()
                invariant
                    0 <= i <= ms.len(),
                    *j == Json::Object(*ms),
                    member_lookup(ms@.subrange(i as int, ms@.len() as int), key@) == member_lookup(ms@, key@),
                decreases ms.len() - i,
            {
                let ghost rest = ms@.subrange(i as int, ms@.len() as int);
                if ms[i].key == *key {
                    return Some(&ms[i].value);
                }
                assert(rest.subrange(1, rest.len() as int) =~= ms@.subrange(i + 1, ms@.len() as int));
                i = i + 1;
            }
            None
        },
        _ => None,
    }
}

fn content_of(c: &Json) -> (r: Option<String>)
    ensures
        r matches Some(s) ==> choice_content(*c) == Some(s@),
        r is None ==> choice_content(*c) is None,
{
    let message_key = "message".to_owned();
    let content_key = "content".to_owned();
    proof {
        reveal_strlit("message");
        reveal_strlit("content");
    }
    match lookup(c, &message_key) {
        Some(m) => match lookup(m, &content_key) {
            Some(Json::Str(s)) => Some(s.clone()),
            _ => None,
        },
        None => None,
    }
}

/// Decodes the body of a reply of the completion service.
pub fn decode_reply(body: &str) -> (r: Result<Vec<String>, ChatError>)
    ensures
        reply_meaning(body@, r),
{
    match parse(body) {
        None => Err(ChatError::NotJson(body.to_owned())),
        Some(j) => decode_value(&j),
    }
}

/// Decodes the value a reply body holds: the reply itself as an error if it
/// has an `error` member, else the text of each choice, in order.
pub fn decode_value(j: &Json) -> (r: Result<Vec<String>, ChatError>)
    ensures
        value_meaning(*j, r),
{
    let error_key = "error".to_owned();
    let choices_key = "choices".to_owned();
    proof {
        reveal_strlit("error");
        reveal_strlit("choices");
    }
    if lookup(j, &error_key).is_some() {
        return Err(ChatError::Remote(render(j)));
    }
    let items = match lookup(j, &choices_key) {
        Some(Json::Array(items)) => items,
        _ => return Err(ChatError::Malformed),
    };
    let mut out: Vec<String> = Vec::new();
    let mut i: usize = 0;
    while i < items.len()
        invariant
            0 <= i <= items.len(),
            field(*j, "error"@) is None,
            field(*j, "choices"@) == Some(Json::Array(*items)),
            choice_contents(items@.subrange(0, i as int)) == Some(out@.map_values(|x: String| x@)),
        decreases items.len() - i,
    {
        let ghost sub = items@.subrange(0, i + 1);
        assert(sub.drop_last() =~= items@.subrange(0, i as int));
        match content_of(&items[i]) {
            Some(c) => {
                let ghost prev = out@.map_values(|x: String| x@);
                out.push(c);
                assert(out@.map_values(|x: String| x@) =~= prev.push(choice_content(items@[i as int]).unwrap()));
            },
            None => {
                proof {
                    lemma_contents_prefix(items@, i + 1);
                }
                return Err(ChatError::Malformed);
            },
        }
        i = i + 1;
    }
    assert(items@.subrange(0, i as int) =~= items@);
    Ok(out)
}

} // verus!
