use vstd::prelude::*;
use crate::json::{json_quoted, quote};

verus! {

/// Who contributed a turn of the conversation.
#[derive(Debug, Default, Clone, Copy, PartialEq, Eq, Structural)]
pub enum Role {
    System,
    #[default]
    User,
}

pub open spec fn role_name(r: Role) -> Seq<char> {
    match r {
        Role::System => "system"@,
        Role::User => "user"@,
    }
}

impl Role {
    /// The identifier the remote API uses for this role.
    pub fn to_string(&self) -> (r: &'static str)
        ensures
            r@ == role_name(*self),
    {
        match self {
            Role::System => "system",
            Role::User => "user",
        }
    }
}

/// The remote models a request can be sent to.
#[derive(Debug, Default, Clone, Copy, PartialEq, Eq, Structural)]
pub enum Machine {
    #[default]
    Gpt35Turbo,
    Gpt4,
    Gpt4Turbo,
    Gpt4O,
    Gpt4OMini,
    GptO1,
    GptO1Mini,
}

pub open spec fn machine_name(m: Machine) -> Seq<char> {
    match m {
        Machine::Gpt35Turbo => "gpt-3.5-turbo"@,
        Machine::Gpt4 => "gpt-4"@,
        Machine::Gpt4Turbo => "gpt-4-turbo"@,
        Machine::Gpt4O => "gpt-4o"@,
        Machine::Gpt4OMini => "gpt-4o-mini"@,
        Machine::GptO1 => "o1-preview"@,
        Machine::GptO1Mini => "o1-mini"@,
    }
}

pub open spec fn machine_label(m: Machine) -> Seq<char> {
    match m {
        Machine::Gpt35Turbo => "GPT-3.5-TURBO"@,
        Machine::Gpt4 => "GPT-4"@,
        Machine::Gpt4Turbo => "GPT-4-TURBO"@,
        Machine::Gpt4O => "GPT-4O"@,
        Machine::Gpt4OMini => "GPT-4O-Mini"@,
        Machine::GptO1 => "O1"@,
        Machine::GptO1Mini => "O1-Mini"@,
    }
}

impl Machine {
    /// The model identifier the remote API expects.
    pub fn to_string(&self) -> (r: &'static str)
        ensures
            r@ == machine_name(*self),
    {
        match self {
            Machine::Gpt35Turbo => "gpt-3.5-turbo",
            Machine::Gpt4 => "gpt-4",
            Machine::Gpt4Turbo => "gpt-4-turbo",
            Machine::Gpt4O => "gpt-4o",
            Machine::Gpt4OMini => "gpt-4o-mini",
            Machine::GptO1 => "o1-preview",
            Machine::GptO1Mini => "o1-mini",
        }
    }

    /// The label shown for this model in a settings panel.
    pub fn label(&self) -> (r: &'static str)
        ensures
            r@ == machine_label(*self),
    {
        match self {
            Machine::Gpt35Turbo => "GPT-3.5-TURBO",
            Machine::Gpt4 => "GPT-4",
            Machine::Gpt4Turbo => "GPT-4-TURBO",
            Machine::Gpt4O => "GPT-4O",
            Machine::Gpt4OMini => "GPT-4O-Mini",
            Machine::GptO1 => "O1",
            Machine::GptO1Mini => "O1-Mini",
        }
    }
}

/// One role-tagged block of text sent as part of a conversation.
pub struct Message {
    pub role: Role,
    pub content: String,
}

impl Message {
    pub fn system(content: String) -> (r: Message)
        ensures
            r.role == Role::System,
            r.content@ == content@,
    {
        Message { role: Role::System, content }
    }

    pub fn user(content: String) -> (r: Message)
        ensures
            r.role == Role::User,
            r.content@ == content@,
    {
        Message { role: Role::User, content }
    }
}

} // verus!

verus! {

/// Why a request produced no completions.
#[derive(Debug, PartialEq, Eq)]
pub enum ChatError {
    /// The request did not reach the service or its reply could not be read.
    Transport(String),
    /// The reply is not JSON; it is kept as it came.
    NotJson(String),
    /// The service answered with an error; this is the reply's compact text.
    Remote(String),
    /// The reply is JSON without a list of choices that each hold a text.
    Malformed,
}

pub open spec fn malformed_text() -> Seq<char> {
    "the reply holds no list of text choices"@
}

pub open spec fn error_text(e: ChatError) -> Seq<char> {
    match e {
        ChatError::Transport(s) => s@,
        ChatError::NotJson(s) => s@,
        ChatError::Remote(s) => s@,
        ChatError::Malformed => malformed_text(),
    }
}

impl ChatError {
    /// The text shown in place of the completions.
    pub fn message(&self) -> (r: String)
        ensures
            r@ == error_text(*self),
    {
        match self {
            ChatError::Transport(s) => s.clone(),
            ChatError::NotJson(s) => s.clone(),
            ChatError::Remote(s) => s.clone(),
            ChatError::Malformed => "the reply holds no list of text choices".to_owned(),
        }
    }
}

} // verus!

verus! {

/// The largest temperature, in thousandths.
pub const MAX_TEMPERATURE_MILLI: u32 = 2000;

pub open spec fn digit_text(d: int) -> Seq<char> {
    if d == 0 { "0"@ }
    else if d == 1 { "1"@ }
    else if d == 2 { "2"@ }
    else if d == 3 { "3"@ }
    else if d == 4 { "4"@ }
    else if d == 5 { "5"@ }
    else if d == 6 { "6"@ }
    else if d == 7 { "7"@ }
    else if d == 8 { "8"@ }
    else { "9"@ }
}

fn digit(d: u32) -> (r: &'static str)
    requires
        d < 10,
    ensures
        r@ == digit_text(d as int),
{
    if d == 0 { "0" }
    else if d == 1 { "1" }
    else if d == 2 { "2" }
    else if d == 3 { "3" }
    else if d == 4 { "4" }
    else if d == 5 { "5" }
    else if d == 6 { "6" }
    else if d == 7 { "7" }
    else if d == 8 { "8" }
    else { "9" }
}

/// A temperature given in thousandths, written as a decimal number with three
/// fraction digits (`700` is `0.700`).
pub open spec fn temperature_text(milli: int) -> Seq<char> {
    digit_text(milli / 1000) + "."@ + digit_text((milli / 100) % 10)
        + digit_text((milli / 10) % 10) + digit_text(milli % 10)
}

pub fn temperature_string(milli: u32) -> (r: String)
    requires
        milli <= MAX_TEMPERATURE_MILLI,
    ensures
        r@ == temperature_text(milli as int),
{
    let mut out = digit(milli / 1000).to_owned();
    out.append(".");
    out.append(digit((milli / 100) % 10));
    out.append(digit((milli / 10) % 10));
    out.append(digit(milli % 10));
    out
}

/// One message as the request writes it.
pub open spec fn message_text(m: Message) -> Seq<char> {
    "{\"content\":"@ + json_quoted(m.content@) + ",\"role\":"@ + json_quoted(role_name(m.role)) + "}"@
}

/// The messages, comma-separated, in order.
pub open spec fn messages_text(s: Seq<Message>) -> Seq<char>
    decreases s.len(),
{
    if s.len() == 0 {
        Seq::empty()
    } else if s.len() == 1 {
        message_text(s[0])
    } else {
        messages_text(s.drop_last()) + ","@ + message_text(s.last())
    }
}

/// The body of a completion request: the model, the messages in order, one
/// result, no penalties, no token bias, full nucleus sampling and the given
/// temperature.
pub open spec fn request_text(model: Machine, messages: Seq<Message>, milli: int) -> Seq<char> {
    "{\"frequency_penalty\":0.0,\"logit_bias\":null,\"messages\":["@ + messages_text(messages)
        + "],\"model\":"@ + json_quoted(machine_name(model))
        + ",\"n\":1,\"presence_penalty\":0.0,\"temperature\":"@ + temperature_text(milli)
        + ",\"top_p\":1.0}"@
}

/// Writes the JSON body of a completion request.
pub fn request_body(model: Machine, messages: &Vec<Message>, temperature_milli: u32) -> (r: String)
    requires
        temperature_milli <= MAX_TEMPERATURE_MILLI,
    ensures
        r@ == request_text(model, messages@, temperature_milli as int),
{
    let mut out = "{\"frequency_penalty\":0.0,\"logit_bias\":null,\"messages\":[".to_owned();
    let ghost start = out@;
    let mut i: usize = 0;
    while i < messages.len()
        invariant
            0 <= i <= messages.len(),
            out@ == start + messages_text(messages@.subrange(0, i as int)),
        decreases messages.len() - i,
    {
        if i > 0 {
            out.append(",");
        }
        let m = &messages[i];
        out.append("{\"content\":");
        let content = quote(m.content.as_str());
        out.append(content.as_str());
        out.append(",\"role\":");
        let role = quote(m.role.to_string());
        out.append(role.as_str());
        out.append("}");
        let ghost sub = messages@.subrange(0, i + 1);
        assert(sub.drop_last() =~= messages@.subrange(0, i as int));
        i = i + 1;
    }
    assert(messages@.subrange(0, i as int) =~= messages@);
    out.append("],\"model\":");
    let name = quote(model.to_string());
    out.append(name.as_str());
    out.append(",\"n\":1,\"presence_penalty\":0.0,\"temperature\":");
    let t = temperature_string(temperature_milli);
    out.append(t.as_str());
    out.append(",\"top_p\":1.0}");
    out
}

} // verus!

verus! {

pub open spec fn digit_value(c: char) -> Option<int> {
    if '0' <= c && c <= '9' {
        Some(c as int - '0' as int)
    } else {
        None
    }
}

/// The digit at `k` of a fraction, 0 past its end.
pub open spec fn fraction_digit(s: Seq<char>, k: int) -> Option<int> {
    if k < s.len() { digit_value(s[k]) } else { Some(0) }
}

/// A temperature read from its text, in thousandths: one digit, optionally
/// followed by a point and one to three digits, at most 2.
pub open spec fn temperature_value(s: Seq<char>) -> Option<int> {
    if s.len() == 0 || s.len() == 2 || s.len() > 5 || (s.len() > 1 && s[1] != '.') {
        None
    } else {
        match (digit_value(s[0]), fraction_digit(s, 2), fraction_digit(s, 3), fraction_digit(s, 4)) {
            (Some(a), Some(b), Some(c), Some(d)) => {
                let v = a * 1000 + b * 100 + c * 10 + d;
                if v <= MAX_TEMPERATURE_MILLI { Some(v) } else { None }
            },
            _ => None,
        }
    }
}

fn digit_of(c: char) -> (r: Option<u32>)
    ensures
        r matches Some(d) ==> digit_value(c) == Some(d as int) && d < 10,
        r is None ==> digit_value(c) is None,
{
    if '0' <= c && c <= '9' {
        Some((c as u32) - ('0' as u32))
    } else {
        None
    }
}

fn fraction_digit_of(s: &str, len: usize, k: usize) -> (r: Option<u32>)
    requires
        len == s@.len(),
    ensures
        r matches Some(d) ==> fraction_digit(s@, k as int) == Some(d as int) && d < 10,
        r is None ==> fraction_digit(s@, k as int) is None,
{
    if k < len {
        digit_of(s.get_char(k))
    } else {
        Some(0)
    }
}

/// Reads a stored temperature; `None` where the text is not one digit with
/// up to three fraction digits, or the value is above 2.
pub fn parse_temperature(s: &str) -> (r: Option<u32>)
    ensures
        r matches Some(v) ==> temperature_value(s@) == Some(v as int),
        r is None ==> temperature_value(s@) is None,
{
    let len = s.unicode_len();
    if len == 0 || len == 2 || len > 5 {
        return None;
    }
    if len > 1 && s.get_char(1) != '.' {
        return None;
    }
    let a = digit_of(s.get_char(0));
    let b = fraction_digit_of(s, len, 2);
    let c = fraction_digit_of(s, len, 3);
    let d = fraction_digit_of(s, len, 4);
    match (a, b, c, d) {
        (Some(a), Some(b), Some(c), Some(d)) => {
            let v = a * 1000 + b * 100 + c * 10 + d;
            if v <= MAX_TEMPERATURE_MILLI { Some(v) } else { None }
        },
        _ => None,
    }
}

proof fn lemma_digit_text(d: int)
    requires
        0 <= d < 10,
    ensures
        digit_text(d).len() == 1,
        digit_value(digit_text(d)[0]) == Some(d),
{
    reveal_strlit("0");
    reveal_strlit("1");
    reveal_strlit("2");
    reveal_strlit("3");
    reveal_strlit("4");
    reveal_strlit("5");
    reveal_strlit("6");
    reveal_strlit("7");
    reveal_strlit("8");
    reveal_strlit("9");
}

/// A temperature written by `temperature_string` reads back as the same
/// value.
pub proof fn lemma_temperature_round_trip(milli: int)
    requires
        0 <= milli <= MAX_TEMPERATURE_MILLI,
    ensures
        temperature_value(temperature_text(milli)) == Some(milli),
{
    let a = milli / 1000;
    let b = (milli / 100) % 10;
    let c = (milli / 10) % 10;
    let d = milli % 10;
    assert(milli == a * 1000 + b * 100 + c * 10 + d) by (nonlinear_arith)
        requires a == milli / 1000, b == (milli / 100) % 10, c == (milli / 10) % 10, d == milli % 10, 0 <= milli;
    lemma_digit_text(a);
    lemma_digit_text(b);
    lemma_digit_text(c);
    lemma_digit_text(d);
    reveal_strlit(".");
    let t = temperature_text(milli);
    assert(t.len() == 5);
    assert(t[1] == '.');
    assert(digit_value(t[0]) == Some(a));
    assert(digit_value(t[2]) == Some(b));
    assert(digit_value(t[3]) == Some(c));
    assert(digit_value(t[4]) == Some(d));
}

} // verus!
