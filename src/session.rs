use vstd::prelude::*;
use crate::api::{error_text, request_body, request_text, ChatError, Machine, Message, Role, MAX_TEMPERATURE_MILLI};

verus! {

/// One editable turn of the conversation, or a saved template of one.
///
/// `delete`, `move_up` and `move_down` are requests made by the user during a
/// frame; `reconcile_turns` acts on them before the next frame is shown.
#[derive(Debug)]
pub struct InputTurn {
    pub role: Role,
    pub label: String,
    pub content: String,
    pub delete: bool,
    pub move_up: bool,
    pub move_down: bool,
}

/// The turns that are not flagged for deletion, in the order they had.
pub open spec fn remaining(s: Seq<InputTurn>) -> Seq<InputTurn>
    decreases s.len(),
{
    if s.len() == 0 {
        Seq::empty()
    } else if s[0].delete {
        remaining(s.subrange(1, s.len() as int))
    } else {
        seq![s[0]] + remaining(s.subrange(1, s.len() as int))
    }
}

/// A turn with both move requests withdrawn.
pub open spec fn settled(t: InputTurn) -> InputTurn {
    InputTurn { move_up: false, move_down: false, ..t }
}

pub open spec fn settled_all(s: Seq<InputTurn>) -> Seq<InputTurn> {
    s.map_values(|t: InputTurn| settled(t))
}

/// The swaps requested by the turn at index `i`: each entry `k` stands for
/// exchanging positions `k - 1` and `k`.
pub open spec fn swaps_at(s: Seq<InputTurn>, i: int) -> Seq<int> {
    (if s[i].move_up && i != 0 { seq![i] } else { Seq::empty() })
        + (if s[i].move_down && i != s.len() - 1 { seq![i + 1] } else { Seq::empty() })
}

/// The swaps requested by the first `n` turns, in list order.
pub open spec fn swaps_upto(s: Seq<InputTurn>, n: int) -> Seq<int>
    decreases n,
{
    if n <= 0 {
        Seq::empty()
    } else {
        swaps_upto(s, n - 1) + swaps_at(s, n - 1)
    }
}

pub open spec fn swaps(s: Seq<InputTurn>) -> Seq<int> {
    swaps_upto(s, s.len() as int)
}

pub open spec fn swap_adjacent(s: Seq<InputTurn>, k: int) -> Seq<InputTurn> {
    s.update(k - 1, s[k]).update(k, s[k - 1])
}

/// The swaps of `sw` applied to `s` one after another, first to last.
pub open spec fn apply_swaps(s: Seq<InputTurn>, sw: Seq<int>) -> Seq<InputTurn>
    decreases sw.len(),
{
    if sw.len() == 0 {
        s
    } else {
        swap_adjacent(apply_swaps(s, sw.drop_last()), sw.last())
    }
}

/// The turn list after one reconciliation pass.
pub open spec fn reconciled(s: Seq<InputTurn>) -> Seq<InputTurn> {
    let kept = remaining(s);
    apply_swaps(settled_all(kept), swaps(kept))
}

pub open spec fn swaps_in_range(sw: Seq<int>, len: int) -> bool {
    forall|j: int| 0 <= j < sw.len() ==> 1 <= #[trigger] sw[j] < len
}

proof fn lemma_swaps_upto_in_range(s: Seq<InputTurn>, n: int)
    requires
        0 <= n <= s.len(),
    ensures
        swaps_in_range(swaps_upto(s, n), s.len() as int),
    decreases n,
{
    if n > 0 {
        lemma_swaps_upto_in_range(s, n - 1);
        let a = swaps_upto(s, n - 1);
        let b = swaps_at(s, n - 1);
        assert forall|j: int| 0 <= j < (a + b).len() implies 1 <= #[trigger] (a + b)[j] < s.len() by {
            if j >= a.len() {
                assert((a + b)[j] == b[j - a.len()]);
            }
        }
    }
}

proof fn lemma_apply_swaps_len(s: Seq<InputTurn>, sw: Seq<int>)
    requires
        swaps_in_range(sw, s.len() as int),
    ensures
        apply_swaps(s, sw).len() == s.len(),
    decreases sw.len(),
{
    if sw.len() > 0 {
        lemma_apply_swaps_len(s, sw.drop_last());
    }
}


/// A turn that asks for nothing: not flagged for deletion, and no move request.
pub open spec fn quiet(t: InputTurn) -> bool {
    !t.delete && !t.move_up && !t.move_down
}

proof fn lemma_remaining_keeps(s: Seq<InputTurn>, p: spec_fn(InputTurn) -> bool)
    requires
        forall|i: int| 0 <= i < s.len() ==> p(#[trigger] s[i]),
    ensures
        forall|i: int| 0 <= i < remaining(s).len() ==> p(#[trigger] remaining(s)[i]) && !remaining(s)[i].delete,
    decreases s.len(),
{
    if s.len() > 0 {
        let rest = s.subrange(1, s.len() as int);
        assert forall|i: int| 0 <= i < rest.len() implies p(#[trigger] rest[i]) by {
            assert(rest[i] == s[i + 1]);
        }
        lemma_remaining_keeps(rest, p);
        if !s[0].delete {
            let r = remaining(s);
            assert forall|i: int| 0 <= i < r.len() implies p(#[trigger] r[i]) && !r[i].delete by {
                if i > 0 {
                    assert(r[i] == remaining(rest)[i - 1]);
                }
            }
        }
    }
}

proof fn lemma_remaining_identity(s: Seq<InputTurn>)
    requires
        forall|i: int| 0 <= i < s.len() ==> !(#[trigger] s[i]).delete,
    ensures
        remaining(s) == s,
    decreases s.len(),
{
    if s.len() > 0 {
        let rest = s.subrange(1, s.len() as int);
        assert forall|i: int| 0 <= i < rest.len() implies !(#[trigger] rest[i]).delete by {
            assert(rest[i] == s[i + 1]);
        }
        lemma_remaining_identity(rest);
        assert(seq![s[0]] + rest =~= s);
    }
}

proof fn lemma_apply_swaps_keeps(s: Seq<InputTurn>, sw: Seq<int>, p: spec_fn(InputTurn) -> bool)
    requires
        swaps_in_range(sw, s.len() as int),
        forall|i: int| 0 <= i < s.len() ==> p(#[trigger] s[i]),
    ensures
        apply_swaps(s, sw).len() == s.len(),
        forall|i: int| 0 <= i < s.len() ==> p(#[trigger] apply_swaps(s, sw)[i]),
    decreases sw.len(),
{
    if sw.len() > 0 {
        let init = sw.drop_last();
        assert(swaps_in_range(init, s.len() as int)) by {
            assert forall|j: int| 0 <= j < init.len() implies 1 <= #[trigger] init[j] < s.len() by {
                assert(init[j] == sw[j]);
            }
        }
        lemma_apply_swaps_keeps(s, init, p);
        assert(1 <= sw[sw.len() - 1] < s.len());
    }
}

proof fn lemma_no_swaps(s: Seq<InputTurn>, n: int)
    requires
        0 <= n <= s.len(),
        forall|i: int| 0 <= i < s.len() ==> (#[trigger] s[i]).move_up ==> i == 0,
        forall|i: int| 0 <= i < s.len() ==> (#[trigger] s[i]).move_down ==> i == s.len() - 1,
    ensures
        swaps_upto(s, n) == Seq::<int>::empty(),
    decreases n,
{
    if n > 0 {
        lemma_no_swaps(s, n - 1);
        assert(swaps_at(s, n - 1) =~= Seq::<int>::empty()) by {
            let t = s[n - 1];
        }
        assert(swaps_upto(s, n) =~= Seq::<int>::empty());
    }
}

proof fn lemma_settled_identity(s: Seq<InputTurn>)
    requires
        forall|i: int| 0 <= i < s.len() ==> !(#[trigger] s[i]).move_up && !s[i].move_down,
    ensures
        settled_all(s) == s,
{
    assert forall|i: int| 0 <= i < s.len() implies #[trigger] settled_all(s)[i] == s[i] by {
        let t = s[i];
        assert(settled(t) == t);
    }
    assert(settled_all(s) =~= s);
}

/// After a reconciliation pass no turn asks for anything, so a second pass
/// with no new requests leaves the list as it is.
pub proof fn lemma_reconcile_idempotent(s: Seq<InputTurn>)
    ensures
        forall|i: int| 0 <= i < reconciled(s).len() ==> quiet(#[trigger] reconciled(s)[i]),
        reconciled(reconciled(s)) == reconciled(s),
        remaining(remaining(s)) == remaining(s),
{
    let kept = remaining(s);
    lemma_remaining_keeps(s, |t: InputTurn| true);
    lemma_remaining_identity(kept);
    let st = settled_all(kept);
    assert forall|i: int| 0 <= i < st.len() implies quiet(#[trigger] st[i]) by {
        assert(!kept[i].delete);
    }
    lemma_swaps_upto_in_range(kept, kept.len() as int);
    lemma_apply_swaps_keeps(st, swaps(kept), |t: InputTurn| quiet(t));
    let r = reconciled(s);
    assert forall|i: int| 0 <= i < r.len() implies !(#[trigger] r[i]).delete by {
        assert(quiet(r[i]));
    }
    lemma_remaining_identity(r);
    assert forall|i: int| 0 <= i < r.len() implies !(#[trigger] r[i]).move_up && !r[i].move_down by {
        assert(quiet(r[i]));
    }
    lemma_settled_identity(r);
    lemma_no_swaps(r, r.len() as int);
}

/// With no deletion requested, a move up of the first turn and a move down of
/// the last one change nothing but withdraw the requests.
pub proof fn lemma_boundary_moves(s: Seq<InputTurn>)
    requires
        forall|i: int| 0 <= i < s.len() ==> !(#[trigger] s[i]).delete,
        forall|i: int| 0 <= i < s.len() ==> (#[trigger] s[i]).move_up ==> i == 0,
        forall|i: int| 0 <= i < s.len() ==> (#[trigger] s[i]).move_down ==> i == s.len() - 1,
    ensures
        reconciled(s) == settled_all(s),
{
    lemma_remaining_identity(s);
    lemma_no_swaps(s, s.len() as int);
}

/// With no move requested, a pass removes exactly the turns flagged for
/// deletion and keeps the others in their order.
pub proof fn lemma_delete_exact(s: Seq<InputTurn>)
    requires
        forall|i: int| 0 <= i < s.len() ==> !(#[trigger] s[i]).move_up && !s[i].move_down,
    ensures
        reconciled(s) == remaining(s),
        remaining(s) == s.filter(|t: InputTurn| !t.delete),
{
    let kept = remaining(s);
    lemma_remaining_keeps(s, |t: InputTurn| !t.move_up && !t.move_down);
    lemma_settled_identity(kept);
    assert forall|i: int| 0 <= i < kept.len() && (#[trigger] kept[i]).move_up implies i == 0 by {}
    assert forall|i: int| 0 <= i < kept.len() && (#[trigger] kept[i]).move_down implies i == kept.len() - 1 by {}
    lemma_no_swaps(kept, kept.len() as int);
    lemma_remaining_is_filter(s);
}

proof fn lemma_remaining_is_filter(s: Seq<InputTurn>)
    ensures
        remaining(s) == s.filter(|t: InputTurn| !t.delete),
    decreases s.len(),
{
    let pred = |t: InputTurn| !t.delete;
    if s.len() == 0 {
        reveal(Seq::filter);
    } else {
        let rest = s.subrange(1, s.len() as int);
        lemma_remaining_is_filter(rest);
        let head = seq![s[0]];
        assert(head + rest =~= s);
        Seq::filter_distributes_over_add(head, rest, pred);
        reveal_with_fuel(Seq::filter, 2);
        assert(head.drop_last() =~= Seq::<InputTurn>::empty());
    }
}

/// Removes the turns flagged for deletion, keeping the order of the rest.
pub fn prune(turns: &mut Vec<InputTurn>)
    ensures
        final(turns)@ == remaining(old(turns)@),
{
    let mut kept: Vec<InputTurn> = Vec::new();
    while turns.len() > 0
        invariant
            kept@ + remaining(turns@) == remaining(old(turns)@),
        decreases turns.len(),
    {
        let ghost before = turns@;
        let t = turns.remove(0);
        assert(turns@ == before.subrange(1, before.len() as int));
        if !t.delete {
            assert(kept@.push(t) + remaining(turns@) == kept@ + remaining(before));
            kept.push(t);
        }
    }
    assert(turns@ == Seq::<InputTurn>::empty());
    assert(kept@ + Seq::<InputTurn>::empty() == kept@);
    *turns = kept;
}

/// Withdraws every move request and returns the swaps they asked for.
fn settle_moves(turns: &mut Vec<InputTurn>) -> (sw: Vec<usize>)
    ensures
        final(turns)@ == settled_all(old(turns)@),
        sw@.map_values(|k: usize| k as int) == swaps(old(turns)@),
{
    let ghost orig = turns@;
    let length = turns.len();
    let mut done: Vec<InputTurn> = Vec::new();
    let mut sw: Vec<usize> = Vec::new();
    let mut i: usize = 0;
    while turns.len() > 0
        invariant
            length == orig.len(),
            i + turns@.len() == length,
            turns@ == orig.subrange(i as int, length as int),
            done@ == settled_all(orig.subrange(0, i as int)),
            sw@.map_values(|k: usize| k as int) == swaps_upto(orig, i as int),
        decreases turns.len(),
    {
        let ghost before = turns@;
        let ghost sw0 = sw@;
        let mut t = turns.remove(0);
        assert(t == orig[i as int]);
        if t.move_up {
            if i != 0 {
                sw.push(i);
            }
            t.move_up = false;
        }
        if t.move_down {
            if i != length - 1 {
                sw.push(i + 1);
            }
            t.move_down = false;
        }
        assert(t == settled(orig[i as int]));
        done.push(t);
        i = i + 1;
        assert(turns@ =~= orig.subrange(i as int, length as int));
        assert(done@ =~= settled_all(orig.subrange(0, i as int)));
        assert(sw@.map_values(|k: usize| k as int) =~= swaps_upto(orig, i as int));
    }
    assert(orig.subrange(0, i as int) =~= orig);
    *turns = done;
    sw
}

/// Performs the swaps of `sw` in order.
fn perform_swaps(turns: &mut Vec<InputTurn>, sw: &Vec<usize>)
    requires
        swaps_in_range(sw@.map_values(|k: usize| k as int), old(turns)@.len() as int),
    ensures
        final(turns)@ == apply_swaps(old(turns)@, sw@.map_values(|k: usize| k as int)),
{
    let ghost orig = turns@;
    let ghost all = sw@.map_values(|k: usize| k as int);
    let mut j: usize = 0;
    while j < sw.len()
        invariant
            all == sw@.map_values(|k: usize| k as int),
            swaps_in_range(all, orig.len() as int),
            0 <= j <= sw.len(),
            turns@ == apply_swaps(orig, all.subrange(0, j as int)),
            turns@.len() == orig.len(),
        decreases sw.len() - j,
    {
        let k = sw[j];
        assert(all[j as int] == k as int);
        let ghost before = turns@;
        let t = turns.remove(k);
        turns.insert(k - 1, t);
        assert(turns@ =~= swap_adjacent(before, k as int));
        assert(all.subrange(0, j + 1).drop_last() =~= all.subrange(0, j as int));
        j = j + 1;
    }
    assert(all.subrange(0, j as int) =~= all);
}

/// One reconciliation pass over the templates and the turns, run before each
/// frame: flagged templates and turns are removed, then every move request is
/// withdrawn and the moves asked for are made as adjacent swaps, in list
/// order. A move up of the first turn or down of the last one does nothing.
pub fn reconcile_turns(templates: &mut Vec<InputTurn>, turns: &mut Vec<InputTurn>)
    ensures
        final(templates)@ == remaining(old(templates)@),
        final(turns)@ == reconciled(old(turns)@),
{
    prune(templates);
    prune(turns);
    let ghost kept = turns@;
    let sw = settle_moves(turns);
    proof {
        lemma_swaps_upto_in_range(kept, kept.len() as int);
    }
    perform_swaps(turns, &sw);
}

/// A character with Unicode's White_Space property.
pub open spec fn is_white(c: char) -> bool {
    let u = c as u32;
    (0x9 <= u && u <= 0xd) || u == 0x20 || u == 0x85 || u == 0xa0 || u == 0x1680
        || (0x2000 <= u && u <= 0x200a) || u == 0x2028 || u == 0x2029 || u == 0x202f
        || u == 0x205f || u == 0x3000
}

pub open spec fn trim_start(s: Seq<char>) -> Seq<char>
    decreases s.len(),
{
    if s.len() > 0 && is_white(s[0]) {
        trim_start(s.subrange(1, s.len() as int))
    } else {
        s
    }
}

pub open spec fn trim_end(s: Seq<char>) -> Seq<char>
    decreases s.len(),
{
    if s.len() > 0 && is_white(s.last()) {
        trim_end(s.drop_last())
    } else {
        s
    }
}

/// A text without its leading and trailing white space.
pub open spec fn trimmed(s: Seq<char>) -> Seq<char> {
    trim_end(trim_start(s))
}

/// Relies on std's `str::trim`, documented to remove the leading and
/// trailing characters with Unicode's White_Space property.
#[verifier::external_body]
fn trim(s: &str) -> (r: String)
    ensures
        r@ == trimmed(s@),
{
    s.trim().to_owned()
}

/// The settings a request is made with.
pub struct Settings {
    pub model: Machine,
    /// Sampling temperature in thousandths, from 0 to 2000.
    pub temperature_milli: u32,
    pub api_key: String,
}

/// The temperature used where none was chosen, in thousandths.
pub const DEFAULT_TEMPERATURE_MILLI: u32 = 1000;

/// A temperature read back from storage, in thousandths: kept only where it
/// lies in the allowed range.
pub fn checked_temperature(milli: u64) -> (r: Option<u32>)
    ensures
        r == (if milli <= MAX_TEMPERATURE_MILLI as u64 { Some(milli as u32) } else { None::<u32> }),
{
    if milli <= MAX_TEMPERATURE_MILLI as u64 {
        Some(milli as u32)
    } else {
        None
    }
}

/// Everything one completion request is made of.
pub struct Request {
    pub api_key: String,
    pub model: Machine,
    pub messages: Vec<Message>,
    pub temperature_milli: u32,
    /// The JSON body to send.
    pub body: String,
}

/// The working state the user interface edits.
pub struct Session {
    pub turns: Vec<InputTurn>,
    pub templates: Vec<InputTurn>,
    pub settings: Settings,
    /// The completions of the last request, or the one text of its error.
    pub last_results: Vec<String>,
}

/// A turn with no text, the user's role and no request.
pub open spec fn is_blank(t: InputTurn) -> bool {
    t.role == Role::User && t.label@.len() == 0 && t.content@.len() == 0 && quiet(t)
}

/// `c` holds the role, label and text of `t`, and asks for nothing.
pub open spec fn is_copy_of(c: InputTurn, t: InputTurn) -> bool {
    c.role == t.role && c.label@ == t.label@ && c.content@ == t.content@ && quiet(c)
}

/// The message a turn is sent as: its role and text; the label stays behind.
pub open spec fn sends_as(m: Message, t: InputTurn) -> bool {
    m.role == t.role && m.content@ == t.content@
}

/// The results shown after a request came back with `outcome`.
pub open spec fn shown_results(outcome: Result<Vec<String>, ChatError>) -> Seq<Seq<char>> {
    match outcome {
        Ok(v) => v@.map_values(|x: String| x@),
        Err(e) => seq![error_text(e)],
    }
}

pub fn blank_turn() -> (r: InputTurn)
    ensures
        is_blank(r),
{
    InputTurn {
        role: Role::User,
        label: String::new(),
        content: String::new(),
        delete: false,
        move_up: false,
        move_down: false,
    }
}

pub fn copy_turn(t: &InputTurn) -> (r: InputTurn)
    ensures
        is_copy_of(r, *t),
{
    InputTurn {
        role: t.role,
        label: t.label.clone(),
        content: t.content.clone(),
        delete: false,
        move_up: false,
        move_down: false,
    }
}

/// The messages a list of turns is sent as, one for each turn, in order.
pub fn to_messages(turns: &Vec<InputTurn>) -> (r: Vec<Message>)
    ensures
        r@.len() == turns@.len(),
        forall|i: int| 0 <= i < turns@.len() ==> sends_as(#[trigger] r@[i], turns@[i]),
{
    let mut out: Vec<Message> = Vec::new();
    let mut i: usize = 0;
    while i < turns.len()
        invariant
            0 <= i <= turns.len(),
            out@.len() == i,
            forall|k: int| 0 <= k < i ==> sends_as(#[trigger] out@[k], turns@[k]),
        decreases turns.len() - i,
    {
        let t = &turns[i];
        let m = match t.role {
            Role::System => Message::system(t.content.clone()),
            Role::User => Message::user(t.content.clone()),
        };
        out.push(m);
        i = i + 1;
    }
    out
}

impl Session {
    pub open spec fn wf(&self) -> bool {
        self.settings.temperature_milli <= MAX_TEMPERATURE_MILLI
    }

    /// The state used where nothing was stored: one blank turn, no templates,
    /// no results, the first model, temperature 1 and no API key.
    pub fn new() -> (r: Session)
        ensures
            r.wf(),
            r.turns@.len() == 1,
            is_blank(r.turns@[0]),
            r.templates@.len() == 0,
            r.last_results@.len() == 0,
            r.settings.model == Machine::Gpt35Turbo,
            r.settings.temperature_milli == DEFAULT_TEMPERATURE_MILLI,
            r.settings.api_key@.len() == 0,
    {
        let mut turns: Vec<InputTurn> = Vec::new();
        turns.push(blank_turn());
        Session {
            turns,
            templates: Vec::new(),
            settings: Settings {
                model: Machine::Gpt35Turbo,
                temperature_milli: DEFAULT_TEMPERATURE_MILLI,
                api_key: String::new(),
            },
            last_results: Vec::new(),
        }
    }

    /// Runs the reconciliation pass of one frame.
    pub fn reconcile(&mut self)
        ensures
            final(self).templates@ == remaining(old(self).templates@),
            final(self).turns@ == reconciled(old(self).turns@),
            final(self).settings == old(self).settings,
            final(self).last_results == old(self).last_results,
    {
        reconcile_turns(&mut self.templates, &mut self.turns);
    }

    /// Takes a typed API key, without surrounding white space.
    pub fn set_api_key(&mut self, input: &str)
        ensures
            final(self).settings.api_key@ == trimmed(input@),
            final(self).settings.model == old(self).settings.model,
            final(self).settings.temperature_milli == old(self).settings.temperature_milli,
            final(self).turns == old(self).turns,
            final(self).templates == old(self).templates,
            final(self).last_results == old(self).last_results,
    {
        self.settings.api_key = trim(input);
    }

    /// Puts the temperature back to its default.
    pub fn reset_temperature(&mut self)
        ensures
            final(self).settings.temperature_milli == DEFAULT_TEMPERATURE_MILLI,
            final(self).settings.model == old(self).settings.model,
            final(self).settings.api_key == old(self).settings.api_key,
            final(self).turns == old(self).turns,
            final(self).templates == old(self).templates,
            final(self).last_results == old(self).last_results,
    {
        self.settings.temperature_milli = DEFAULT_TEMPERATURE_MILLI;
    }

    /// Appends a blank turn.
    pub fn add_turn(&mut self)
        ensures
            final(self).turns@ == old(self).turns@.push(final(self).turns@.last()),
            is_blank(final(self).turns@.last()),
            final(self).templates == old(self).templates,
            final(self).settings == old(self).settings,
            final(self).last_results == old(self).last_results,
    {
        self.turns.push(blank_turn());
    }

    /// Saves a copy of turn `i` as a template.
    pub fn save_template(&mut self, i: usize)
        requires
            i < old(self).turns@.len(),
        ensures
            final(self).templates@ == old(self).templates@.push(final(self).templates@.last()),
            is_copy_of(final(self).templates@.last(), old(self).turns@[i as int]),
            final(self).turns == old(self).turns,
            final(self).settings == old(self).settings,
            final(self).last_results == old(self).last_results,
    {
        let c = copy_turn(&self.turns[i]);
        self.templates.push(c);
    }

    /// Appends a new turn made from template `i`.
    pub fn load_template(&mut self, i: usize)
        requires
            i < old(self).templates@.len(),
        ensures
            final(self).turns@ == old(self).turns@.push(final(self).turns@.last()),
            is_copy_of(final(self).turns@.last(), old(self).templates@[i as int]),
            final(self).templates == old(self).templates,
            final(self).settings == old(self).settings,
            final(self).last_results == old(self).last_results,
    {
        let c = copy_turn(&self.templates[i]);
        self.turns.push(c);
    }

    /// Takes what a send needs: every turn becomes a message, in order, and
    /// the body is written from them and the current settings. An empty list
    /// of turns still gives a request.
    pub fn prepare_request(&self) -> (r: Request)
        requires
            self.wf(),
        ensures
            r.messages@.len() == self.turns@.len(),
            forall|i: int| 0 <= i < self.turns@.len() ==> sends_as(#[trigger] r.messages@[i], self.turns@[i]),
            r.model == self.settings.model,
            r.temperature_milli == self.settings.temperature_milli,
            r.api_key@ == self.settings.api_key@,
            r.body@ == request_text(r.model, r.messages@, r.temperature_milli as int),
    {
        let messages = to_messages(&self.turns);
        let body = request_body(self.settings.model, &messages, self.settings.temperature_milli);
        Request {
            api_key: self.settings.api_key.clone(),
            model: self.settings.model,
            messages,
            temperature_milli: self.settings.temperature_milli,
            body,
        }
    }

    /// Replaces the shown results with the outcome of a request: its
    /// completions, or the one text of its error.
    pub fn apply_outcome(&mut self, outcome: Result<Vec<String>, ChatError>)
        ensures
            final(self).last_results@.map_values(|x: String| x@) == shown_results(outcome),
            outcome matches Ok(v) ==> final(self).last_results == v,
            final(self).turns == old(self).turns,
            final(self).templates == old(self).templates,
            final(self).settings == old(self).settings,
    {
        match outcome {
            Ok(v) => {
                self.last_results = v;
            },
            Err(e) => {
                let mut one: Vec<String> = Vec::new();
                one.push(e.message());
                self.last_results = one;
                assert(self.last_results@.map_values(|x: String| x@) =~= shown_results(outcome));
            },
        }
    }
}

} // verus!
