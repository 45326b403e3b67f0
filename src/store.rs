use vstd::prelude::*;
use crate::api::{Machine, Role};
use crate::json::{json_parsed, json_quoted, json_text, parse, quote, render, Json, Member};
use crate::reply::{field, lookup, member_lookup};
use crate::session::{InputTurn, quiet};

verus! {

/// What is kept of a turn: its role, label and text.
pub open spec fn turn_record(t: InputTurn) -> (Role, Seq<char>, Seq<char>) {
    (t.role, t.label@, t.content@)
}

pub open spec fn turn_records(s: Seq<InputTurn>) -> Seq<(Role, Seq<char>, Seq<char>)> {
    s.map_values(|t: InputTurn| turn_record(t))
}

pub open spec fn role_tag(r: Role) -> Seq<char> {
    match r {
        Role::System => "System"@,
        Role::User => "User"@,
    }
}

pub open spec fn role_of_tag(s: Seq<char>) -> Option<Role> {
    if s == "System"@ {
        Some(Role::System)
    } else if s == "User"@ {
        Some(Role::User)
    } else {
        None
    }
}

/// A stored turn: an object whose `role`, `save_name` and `text` are strings,
/// the role being `System` or `User`.
pub open spec fn stored_turn(j: Json) -> Option<(Role, Seq<char>, Seq<char>)> {
    match (field(j, "role"@), field(j, "save_name"@), field(j, "text"@)) {
        (Some(Json::Str(r)), Some(Json::Str(l)), Some(Json::Str(t))) => match role_of_tag(r@) {
            Some(role) => Some((role, l@, t@)),
            None => None,
        },
        _ => None,
    }
}

pub open spec fn stored_turn_list(s: Seq<Json>) -> Option<Seq<(Role, Seq<char>, Seq<char>)>>
    decreases s.len(),
{
    if s.len() == 0 {
        Some(Seq::empty())
    } else {
        match (stored_turn_list(s.drop_last()), stored_turn(s.last())) {
            (Some(a), Some(t)) => Some(a.push(t)),
            _ => None,
        }
    }
}

/// The turns a stored value holds: an array of stored turns.
pub open spec fn stored_turns(j: Json) -> Option<Seq<(Role, Seq<char>, Seq<char>)>> {
    match j {
        Json::Array(items) => stored_turn_list(items@),
        _ => None,
    }
}

proof fn lemma_stored_prefix(s: Seq<Json>, k: int)
    requires
        0 <= k <= s.len(),
        stored_turn_list(s.subrange(0, k)) is None,
    ensures
        stored_turn_list(s) is None,
    decreases s.len() - k,
{
    if k < s.len() {
        assert(s.subrange(0, k + 1).drop_last() =~= s.subrange(0, k));
        lemma_stored_prefix(s, k + 1);
    } else {
        assert(s.subrange(0, k) =~= s);
    }
}

fn str_json(s: String) -> (r: Json)
    ensures
        r == Json::Str(s),
{
    Json::Str(s)
}

/// The stored form of one turn.
fn turn_to_json(t: &InputTurn) -> (r: Json)
    ensures
        stored_turn(r) == Some(turn_record(*t)),
{
    let role = match t.role {
        Role::System => "System".to_owned(),
        Role::User => "User".to_owned(),
    };
    let k0 = "role".to_owned();
    let k1 = "save_name".to_owned();
    let k2 = "text".to_owned();
    let mut ms: Vec<Member> = Vec::new();
    ms.push(Member { key: k0, value: str_json(role) });
    ms.push(Member { key: k1, value: str_json(t.label.clone()) });
    ms.push(Member { key: k2, value: str_json(t.content.clone()) });
    proof {
        reveal_strlit("role");
        reveal_strlit("save_name");
        reveal_strlit("text");
        reveal_strlit("System");
        reveal_strlit("User");
        let s = ms@;
        assert(s.subrange(1, 3).subrange(1, 2) =~= s.subrange(2, 3));
        assert(s.subrange(2, 3).subrange(1, 1) =~= Seq::<Member>::empty());
        assert(s[0].key@ == "role"@);
        assert(s[0].key@.len() != "save_name"@.len());
        assert(s[0].key@[0] != "text"@[0]);
        assert(s[1].key@ != "text"@);
        assert(s.subrange(1, 3)[0] == s[1]);
        assert(s.subrange(2, 3)[0] == s[2]);
        assert(s.subrange(1, 3)[1] == s[2]);
        assert(s.subrange(1, 3)[0].key@ == "save_name"@);
        assert(s.subrange(2, 3)[0].key@ == "text"@);
        assert(member_lookup(s, "role"@) == Some(s[0].value));
        assert(member_lookup(s.subrange(2, 3), "text"@) == Some(s[2].value));
        assert(member_lookup(s.subrange(1, 3), "text"@) == Some(s[2].value));
        assert(member_lookup(s, "text"@) == Some(s[2].value));
        assert(member_lookup(s.subrange(1, 3), "save_name"@) == Some(s[1].value));
        assert(member_lookup(s, "save_name"@) == Some(s[1].value));
        assert("System"@.len() != "User"@.len());
        assert(role_of_tag(role_tag(t.role)) == Some(t.role));
    }
    Json::Object(ms)
}

/// The stored form of a list of turns: what it holds reads back as the role,
/// label and text of each turn, in order.
pub fn turns_to_json(turns: &Vec<InputTurn>) -> (r: Json)
    ensures
        stored_turns(r) == Some(turn_records(turns@)),
{
    let mut items: Vec<Json> = Vec::new();
    let mut i: usize = 0;
    while i < turns.len()
        invariant
            0 <= i <= turns.len(),
            items@.len() == i,
            stored_turn_list(items@) == Some(turn_records(turns@.subrange(0, i as int))),
        decreases turns.len() - i,
    {
        let ghost before = items@;
        let j = turn_to_json(&turns[i]);
        items.push(j);
        assert(items@.drop_last() =~= before);
        assert(turn_records(turns@.subrange(0, i + 1)) =~= turn_records(turns@.subrange(0, i as int)).push(turn_record(turns@[i as int])));
        i = i + 1;
    }
    assert(turns@.subrange(0, i as int) =~= turns@);
    Json::Array(items)
}

fn turn_from_json(j: &Json) -> (r: Option<InputTurn>)
    ensures
        r matches Some(t) ==> stored_turn(*j) == Some(turn_record(t)) && quiet(t),
        r is None ==> stored_turn(*j) is None,
{
    let role_key = "role".to_owned();
    let label_key = "save_name".to_owned();
    let text_key = "text".to_owned();
    let system = "System".to_owned();
    let user = "User".to_owned();
    proof {
        reveal_strlit("role");
        reveal_strlit("save_name");
        reveal_strlit("text");
        reveal_strlit("System");
        reveal_strlit("User");
    }
    match (lookup(j, &role_key), lookup(j, &label_key), lookup(j, &text_key)) {
        (Some(Json::Str(r)), Some(Json::Str(l)), Some(Json::Str(t))) => {
            let role = if *r == system {
                Role::System
            } else if *r == user {
                Role::User
            } else {
                return None;
            };
            Some(InputTurn {
                role,
                label: l.clone(),
                content: t.clone(),
                delete: false,
                move_up: false,
                move_down: false,
            })
        },
        _ => None,
    }
}

/// Reads a list of turns back from its stored form; `None` where the value
/// is not an array of stored turns. Read turns ask for nothing.
pub fn turns_from_json(j: &Json) -> (r: Option<Vec<InputTurn>>)
    ensures
        r matches Some(v) ==> stored_turns(*j) == Some(turn_records(v@))
            && forall|i: int| 0 <= i < v@.len() ==> quiet(#[trigger] v@[i]),
        r is None ==> stored_turns(*j) is None,
{
    let items = match j {
        Json::Array(items) => items,
        _ => return None,
    };
    let mut out: Vec<InputTurn> = Vec::new();
    let mut i: usize = 0;
    while i < items.len()
        invariant
            0 <= i <= items.len(),
            *j == Json::Array(*items),
            stored_turn_list(items@.subrange(0, i as int)) == Some(turn_records(out@)),
            forall|k: int| 0 <= k < out@.len() ==> quiet(#[trigger] out@[k]),
        decreases items.len() - i,
    {
        let ghost sub = items@.subrange(0, i + 1);
        assert(sub.drop_last() =~= items@.subrange(0, i as int));
        match turn_from_json(&items[i]) {
            Some(t) => {
                let ghost before = out@;
                out.push(t);
                assert(turn_records(out@) =~= turn_records(before).push(turn_record(t)));
            },
            None => {
                proof {
                    lemma_stored_prefix(items@, i + 1);
                }
                return None;
            },
        }
        i = i + 1;
    }
    assert(items@.subrange(0, i as int) =~= items@);
    Some(out)
}

/// The stored text of one turn: an object with exactly its role, label and
/// text, in that order. The request flags are not stored.
pub open spec fn turn_text(t: InputTurn) -> Seq<char> {
    "{\"role\":"@ + json_quoted(role_tag(t.role)) + ",\"save_name\":"@ + json_quoted(t.label@)
        + ",\"text\":"@ + json_quoted(t.content@) + "}"@
}

/// The stored texts of the turns, comma-separated, in order.
pub open spec fn turn_texts(s: Seq<InputTurn>) -> Seq<char>
    decreases s.len(),
{
    if s.len() == 0 {
        Seq::empty()
    } else if s.len() == 1 {
        turn_text(s[0])
    } else {
        turn_texts(s.drop_last()) + ","@ + turn_text(s.last())
    }
}

/// The stored text of a list of turns: a JSON array of their objects.
pub open spec fn turns_text(s: Seq<InputTurn>) -> Seq<char> {
    "["@ + turn_texts(s) + "]"@
}

proof fn lemma_turn_texts_records(a: Seq<InputTurn>, b: Seq<InputTurn>)
    requires
        a.len() == b.len(),
        turn_records(a) == turn_records(b),
    ensures
        turn_texts(a) == turn_texts(b),
    decreases a.len(),
{
    if a.len() > 0 {
        assert(turn_records(a.drop_last()) =~= turn_records(a).drop_last());
        assert(turn_records(b.drop_last()) =~= turn_records(b).drop_last());
        lemma_turn_texts_records(a.drop_last(), b.drop_last());
        assert(turn_records(a)[a.len() - 1] == turn_records(b)[a.len() - 1]);
        assert(turn_text(a.last()) == turn_text(b.last()));
        if a.len() == 1 {
            assert(a[0] == a.last() && b[0] == b.last());
        }
    }
}

/// Two lists of turns that differ only in their request flags are stored as
/// the same text.
pub proof fn lemma_flags_not_stored(a: Seq<InputTurn>, b: Seq<InputTurn>)
    requires
        a.len() == b.len(),
        forall|i: int| 0 <= i < a.len() ==> (#[trigger] a[i]).role == b[i].role
            && a[i].label@ == b[i].label@ && a[i].content@ == b[i].content@,
    ensures
        turns_text(a) == turns_text(b),
{
    assert(turn_records(a) =~= turn_records(b));
    lemma_turn_texts_records(a, b);
}

fn role_tag_str(r: Role) -> (s: &'static str)
    ensures
        s@ == role_tag(r),
{
    match r {
        Role::System => "System",
        Role::User => "User",
    }
}

fn write_turn(out: &mut String, t: &InputTurn)
    ensures
        final(out)@ == old(out)@ + turn_text(*t),
{
    out.append("{\"role\":");
    let role = quote(role_tag_str(t.role));
    out.append(role.as_str());
    out.append(",\"save_name\":");
    let label = quote(t.label.as_str());
    out.append(label.as_str());
    out.append(",\"text\":");
    let text = quote(t.content.as_str());
    out.append(text.as_str());
    out.append("}");
}

/// The text a list of turns is stored as.
pub fn save_turns(turns: &Vec<InputTurn>) -> (r: String)
    ensures
        r@ == turns_text(turns@),
{
    let mut out = "[".to_owned();
    let ghost start = out@;
    let mut i: usize = 0;
    while i < turns.len()
        invariant
            0 <= i <= turns.len(),
            out@ == start + turn_texts(turns@.subrange(0, i as int)),
        decreases turns.len() - i,
    {
        if i > 0 {
            out.append(",");
        }
        write_turn(&mut out, &turns[i]);
        let ghost sub = turns@.subrange(0, i + 1);
        assert(sub.drop_last() =~= turns@.subrange(0, i as int));
        i = i + 1;
    }
    assert(turns@.subrange(0, i as int) =~= turns@);
    out.append("]");
    out
}

/// Reads turns back from their stored text; `None` where it is not JSON or
/// does not hold a list of stored turns.
pub fn load_turns(text: &str) -> (r: Option<Vec<InputTurn>>)
    ensures
        r matches Some(v) ==> json_parsed(text@) matches Some(j) && stored_turns(j) == Some(turn_records(v@))
            && forall|i: int| 0 <= i < v@.len() ==> quiet(#[trigger] v@[i]),
        r is None ==> !(json_parsed(text@) matches Some(j) && stored_turns(j) is Some),
{
    match parse(text) {
        Some(j) => turns_from_json(&j),
        None => None,
    }
}

/// Two lists of turns whose stored records are the same hold, for each turn
/// in order, the same role, label and text.
pub proof fn lemma_records_agree(turns: Seq<InputTurn>, j: Json, back: Seq<InputTurn>)
    requires
        stored_turns(j) == Some(turn_records(turns)),
        stored_turns(j) == Some(turn_records(back)),
    ensures
        back.len() == turns.len(),
        forall|i: int| 0 <= i < turns.len() ==> (#[trigger] back[i]).role == turns[i].role
            && back[i].label@ == turns[i].label@ && back[i].content@ == turns[i].content@,
{
    assert(turn_records(back).len() == turn_records(turns).len());
    assert forall|i: int| 0 <= i < turns.len() implies (#[trigger] back[i]).role == turns[i].role
        && back[i].label@ == turns[i].label@ && back[i].content@ == turns[i].content@ by {
        assert(turn_records(back)[i] == turn_records(turns)[i]);
    }
}

/// The strings a stored value holds: an array of strings.
pub open spec fn stored_string_list(s: Seq<Json>) -> Option<Seq<Seq<char>>>
    decreases s.len(),
{
    if s.len() == 0 {
        Some(Seq::empty())
    } else {
        match (stored_string_list(s.drop_last()), s.last()) {
            (Some(a), Json::Str(t)) => Some(a.push(t@)),
            _ => None,
        }
    }
}

pub open spec fn stored_strings(j: Json) -> Option<Seq<Seq<char>>> {
    match j {
        Json::Array(items) => stored_string_list(items@),
        _ => None,
    }
}

proof fn lemma_strings_prefix(s: Seq<Json>, k: int)
    requires
        0 <= k <= s.len(),
        stored_string_list(s.subrange(0, k)) is None,
    ensures
        stored_string_list(s) is None,
    decreases s.len() - k,
{
    if k < s.len() {
        assert(s.subrange(0, k + 1).drop_last() =~= s.subrange(0, k));
        lemma_strings_prefix(s, k + 1);
    } else {
        assert(s.subrange(0, k) =~= s);
    }
}

/// The stored texts of the strings, quoted, comma-separated, in order.
pub open spec fn string_texts(s: Seq<Seq<char>>) -> Seq<char>
    decreases s.len(),
{
    if s.len() == 0 {
        Seq::empty()
    } else if s.len() == 1 {
        json_quoted(s[0])
    } else {
        string_texts(s.drop_last()) + ","@ + json_quoted(s.last())
    }
}

/// The stored text of a list of results: a JSON array of strings.
pub open spec fn strings_text(s: Seq<Seq<char>>) -> Seq<char> {
    "["@ + string_texts(s) + "]"@
}

/// The text a list of results is stored as.
pub fn save_results(results: &Vec<String>) -> (r: String)
    ensures
        r@ == strings_text(results@.map_values(|x: String| x@)),
{
    let ghost all = results@.map_values(|x: String| x@);
    let mut out = "[".to_owned();
    let ghost start = out@;
    let mut i: usize = 0;
    while i < results.len()
        invariant
            0 <= i <= results.len(),
            all == results@.map_values(|x: String| x@),
            out@ == start + string_texts(all.subrange(0, i as int)),
        decreases results.len() - i,
    {
        if i > 0 {
            out.append(",");
        }
        let q = quote(results[i].as_str());
        out.append(q.as_str());
        let ghost sub = all.subrange(0, i + 1);
        assert(sub.drop_last() =~= all.subrange(0, i as int));
        assert(sub.last() == results@[i as int]@);
        i = i + 1;
    }
    assert(all.subrange(0, i as int) =~= all);
    out.append("]");
    out
}

/// Reads results back from their stored text; `None` where it is not JSON or
/// not an array of strings.
pub fn load_results(text: &str) -> (r: Option<Vec<String>>)
    ensures
        r matches Some(v) ==> json_parsed(text@) matches Some(j) && stored_strings(j) == Some(v@.map_values(|x: String| x@)),
        r is None ==> !(json_parsed(text@) matches Some(j) && stored_strings(j) is Some),
{
    let j = match parse(text) {
        Some(j) => j,
        None => return None,
    };
    let items = match &j {
        Json::Array(items) => items,
        _ => return None,
    };
    let mut out: Vec<String> = Vec::new();
    let mut i: usize = 0;
    while i < items.len()
        invariant
            0 <= i <= items.len(),
            json_parsed(text@) == Some(j),
            j == Json::Array(*items),
            stored_string_list(items@.subrange(0, i as int)) == Some(out@.map_values(|x: String| x@)),
        decreases items.len() - i,
    {
        let ghost sub = items@.subrange(0, i + 1);
        assert(sub.drop_last() =~= items@.subrange(0, i as int));
        match &items[i] {
            Json::Str(t) => {
                let ghost before = out@;
                out.push(t.clone());
                assert(out@.map_values(|x: String| x@) =~= before.map_values(|x: String| x@).push(t@));
            },
            _ => {
                proof {
                    lemma_strings_prefix(items@, i + 1);
                }
                return None;
            },
        }
        i = i + 1;
    }
    assert(items@.subrange(0, i as int) =~= items@);
    Some(out)
}

/// The name a model is stored under.
pub open spec fn machine_tag(m: Machine) -> Seq<char> {
    match m {
        Machine::Gpt35Turbo => "Gpt35Turbo"@,
        Machine::Gpt4 => "Gpt4"@,
        Machine::Gpt4Turbo => "Gpt4Turbo"@,
        Machine::Gpt4O => "Gpt4O"@,
        Machine::Gpt4OMini => "Gpt4OMini"@,
        Machine::GptO1 => "GptO1"@,
        Machine::GptO1Mini => "GptO1Mini"@,
    }
}

fn machine_tag_str(m: Machine) -> (r: &'static str)
    ensures
        r@ == machine_tag(m),
{
    match m {
        Machine::Gpt35Turbo => "Gpt35Turbo",
        Machine::Gpt4 => "Gpt4",
        Machine::Gpt4Turbo => "Gpt4Turbo",
        Machine::Gpt4O => "Gpt4O",
        Machine::Gpt4OMini => "Gpt4OMini",
        Machine::GptO1 => "GptO1",
        Machine::GptO1Mini => "GptO1Mini",
    }
}

/// The text a model is stored as: its name as a JSON string.
pub fn save_model(m: Machine) -> (r: String)
    ensures
        r@ == json_quoted(machine_tag(m)),
{
    quote(machine_tag_str(m))
}

/// Reads a model back from its stored text; `None` where the text is not a
/// JSON string that names one.
pub fn load_model(text: &str) -> (r: Option<Machine>)
    ensures
        r matches Some(m) ==> json_parsed(text@) matches Some(j) && j matches Json::Str(s) && s@ == machine_tag(m),
        r is None ==> !(json_parsed(text@) matches Some(j) && j matches Json::Str(s)
            && exists|m: Machine| s@ == machine_tag(m)),
{
    let j = match parse(text) {
        Some(j) => j,
        None => return None,
    };
    let s = match &j {
        Json::Str(s) => s,
        _ => return None,
    };
    let mut k: usize = 0;
    let all = [Machine::Gpt35Turbo, Machine::Gpt4, Machine::Gpt4Turbo, Machine::Gpt4O, Machine::Gpt4OMini, Machine::GptO1, Machine::GptO1Mini];
    while k < 7
        invariant
            0 <= k <= 7,
            json_parsed(text@) == Some(j),
            j == Json::Str(*s),
            all@ == seq![Machine::Gpt35Turbo, Machine::Gpt4, Machine::Gpt4Turbo, Machine::Gpt4O, Machine::Gpt4OMini, Machine::GptO1, Machine::GptO1Mini],
            forall|q: int| 0 <= q < k ==> s@ != machine_tag(#[trigger] all@[q]),
        decreases 7 - k,
    {
        let m = all[k];
        let tag = machine_tag_str(m).to_owned();
        if *s == tag {
            return Some(m);
        }
        k = k + 1;
    }
    proof {
        assert forall|m: Machine| s@ != machine_tag(m) by {
            match m {
                Machine::Gpt35Turbo => assert(all@[0] == m),
                Machine::Gpt4 => assert(all@[1] == m),
                Machine::Gpt4Turbo => assert(all@[2] == m),
                Machine::Gpt4O => assert(all@[3] == m),
                Machine::Gpt4OMini => assert(all@[4] == m),
                Machine::GptO1 => assert(all@[5] == m),
                Machine::GptO1Mini => assert(all@[6] == m),
            }
        }
    }
    None
}

} // verus!
