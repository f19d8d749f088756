//! The texts the tool-calling step produces around a tool's own output: the
//! outcome record, the short preview shown in the chat, and the messages a
//! model gets back for skipped and unparseable calls.

use vstd::prelude::*;
use crate::agent::trace::join;
use crate::agent::sub_agent::join_strings;
use crate::json::{
    json_bool, json_bool_of, json_items, json_items_of, json_member, json_member_of, json_string, json_string_of,
    json_u64, json_u64_of,
};
use crate::text::{trim, trimmed, utf8_len, utf8_width, chars_of, trim_bounds, string_of, decimal, push_decimal, parse_u64, parse_u64_exec, str_eq, strings_view, is_ws, lemma_trim_blank};

verus! {

/// What a tool returned.
#[derive(Debug, Clone)]
pub struct ToolOutcome {
    pub text: String,
    pub is_error: bool,
}

impl ToolOutcome {
    pub fn ok(text: String) -> (o: ToolOutcome)
        ensures
            o.text == text,
            !o.is_error,
    {
        ToolOutcome { text, is_error: false }
    }

    pub fn failed(text: String) -> (o: ToolOutcome)
        ensures
            o.text == text,
            o.is_error,
    {
        ToolOutcome { text, is_error: true }
    }
}

/// Bytes a preview may take before it is cut.
pub const PREVIEW_BYTES: usize = 200;

/// How many leading characters of `s` fit in `budget` UTF-8 bytes.
pub open spec fn chars_within(s: Seq<char>, budget: int) -> nat
    decreases s.len(),
{
    if s.len() == 0 || utf8_width(s[0]) > budget {
        0
    } else {
        1 + chars_within(s.drop_first(), budget - utf8_width(s[0]))
    }
}

/// The preview of a tool result: trimmed, and when longer than 200 bytes,
/// cut at the last character boundary within them and marked with `…`.
pub open spec fn summarize_spec(result: Seq<char>) -> Seq<char> {
    let t = trim(result);
    if utf8_len(t) <= PREVIEW_BYTES {
        t
    } else {
        t.take(chars_within(t, PREVIEW_BYTES as int) as int) + "\u{2026}"@
    }
}

proof fn lemma_chars_within_bounds(s: Seq<char>, budget: int)
    requires
        budget >= 0,
    ensures
        chars_within(s, budget) <= s.len(),
        utf8_len(s.take(chars_within(s, budget) as int)) <= budget,
        chars_within(s, budget) == s.len() <==> utf8_len(s) <= budget,
    decreases s.len(),
{
    if s.len() == 0 {
        assert(s.take(0).len() == 0);
    } else if utf8_width(s[0]) > budget {
        assert(s.take(0).len() == 0);
        assert(utf8_len(s) >= utf8_width(s[0]));
    } else {
        let rest = s.drop_first();
        lemma_chars_within_bounds(rest, budget - utf8_width(s[0]));
        let k = chars_within(s, budget) as int;
        assert(s.take(k).drop_first() == rest.take(k - 1));
        assert(s.take(k)[0] == s[0]);
    }
}

proof fn lemma_chars_within_step(s: Seq<char>, i: int, budget: int)
    requires
        0 <= i < s.len(),
        utf8_width(s[i]) <= budget,
    ensures
        chars_within(s.skip(i), budget) == 1 + chars_within(s.skip(i + 1), budget - utf8_width(s[i])),
{
    assert(s.skip(i).drop_first() == s.skip(i + 1));
    assert(s.skip(i)[0] == s[i]);
}

fn char_width(c: char) -> (w: usize)
    ensures
        w == utf8_width(c),
{
    let u = c as u32;
    if u < 0x80 {
        1
    } else if u < 0x800 {
        2
    } else if u < 0x10000 {
        3
    } else {
        4
    }
}

/// A short preview of a tool result for the chat: trimmed, and cut at a
/// character boundary with `…` when over 200 bytes.
pub fn summarize_tool_result(result: &str) -> (s: String)
    ensures
        s@ == summarize_spec(result@),
{
    let v = chars_of(result);
    let (a, b) = trim_bounds(&v, 0, v.len());
    assert(v@.subrange(0, v.len() as int) == v@);
    let ghost t = v@.subrange(a as int, b as int);
    let mut i = a;
    let mut used: usize = 0;
    assert(t.skip(0) == t);
    while i < b && used + char_width(v[i]) <= PREVIEW_BYTES
        invariant
            a <= i <= b <= v.len(),
            t == v@.subrange(a as int, b as int),
            used <= PREVIEW_BYTES,
            chars_within(t, PREVIEW_BYTES as int) == (i - a) + chars_within(
                t.skip(i - a),
                PREVIEW_BYTES - used,
            ),
        decreases b - i,
    {
        proof {
            assert(t[i - a] == v@[i as int]);
            lemma_chars_within_step(t, i - a, PREVIEW_BYTES - used);
        }
        used = used + char_width(v[i]);
        i += 1;
    }
    proof {
        if i < b {
            assert(t.skip(i - a)[0] == v@[i as int]);
        }
        assert(chars_within(t.skip(i - a), PREVIEW_BYTES - used) == 0);
        lemma_chars_within_bounds(t, PREVIEW_BYTES as int);
    }
    let mut s = string_of(&v, a, i);
    assert(v@.subrange(a as int, i as int) == t.take(i - a));
    if i < b {
        s.append("\u{2026}");
    } else {
        assert(t.take(i - a) == t);
    }
    s
}

/// A preview never takes more than the 200 bytes plus the 3 of `…`.
pub proof fn lemma_summary_fits(result: Seq<char>)
    ensures
        utf8_len(summarize_spec(result)) <= PREVIEW_BYTES + 3,
{
    let t = trim(result);
    lemma_chars_within_bounds(t, PREVIEW_BYTES as int);
    if utf8_len(t) > PREVIEW_BYTES {
        reveal_strlit("\u{2026}");
        let head = t.take(chars_within(t, PREVIEW_BYTES as int) as int);
        crate::text::lemma_utf8_len_append(head, "\u{2026}"@);
        let e = "\u{2026}"@;
        assert(e.len() == 1);
        assert(e[0] == '\u{2026}');
        assert(utf8_width('\u{2026}') == 3);
        assert(e.drop_first().len() == 0);
        assert(utf8_len(e.drop_first()) == 0);
        assert(utf8_len(e) == 3);
    }
}

/// The `tool_result` for a call dropped by the per-step limit.
pub open spec fn tool_skip_spec(max_tools_per_step: nat, total_calls: nat) -> Seq<char> {
    "Skipped: per-step tool-call limit of "@ + decimal(max_tools_per_step) + " reached ("@
        + decimal(total_calls) + " calls requested). Re-issue this call next step if still needed."@
}

/// The explicit tool_result for a call dropped by the per-step limit — the
/// model must learn it was skipped, not reason from phantom results it
/// assumes came back.
pub fn tool_skip_message(max_tools_per_step: usize, total_calls: usize) -> (s: String)
    ensures
        s@ == tool_skip_spec(max_tools_per_step as nat, total_calls as nat),
{
    let mut s = "Skipped: per-step tool-call limit of ".to_owned();
    push_decimal(&mut s, max_tools_per_step as u64);
    s.append(" reached (");
    push_decimal(&mut s, total_calls as u64);
    s.append(" calls requested). Re-issue this call next step if still needed.");
    s
}

/// The correction handed back after an unparseable `<tool_use>` block: each
/// problem on its own `- ` line, then the exact required shape.
pub open spec fn malformed_feedback_spec(errors: Seq<Seq<char>>) -> Seq<char> {
    "Your previous message contained a tool call that could NOT be parsed, so it was NOT executed:\n- "@
        + join(errors, "\n- "@)
        + "\n\nRe-issue it using exactly this shape, and nothing after </tool_use>:\n<tool_use>\n<name>TOOL_NAME</name>\n<arguments>\n{ \"key\": \"value\" }\n</arguments>\n</tool_use>\n\nThe arguments must be a single valid JSON object. Inside JSON string values, escape every backslash as \\\\ and every double quote as \\\" (e.g. a Windows path: \"C:\\\\Users\\\\Aver\\\\file.png\")."@
}

/// Correction message handed back to the model after it emitted a `<tool_use>`
/// block that couldn't be parsed. Names each concrete problem and restates the
/// exact required shape so the model can re-issue the call.
pub fn malformed_tool_feedback(errors: &[String]) -> (s: String)
    ensures
        s@ == malformed_feedback_spec(errors@.map_values(|e: String| e@)),
{
    let mut s = "Your previous message contained a tool call that could NOT be parsed, so it was NOT executed:\n- ".to_owned();
    let ghost views = errors@.map_values(|e: String| e@);
    let mut i: usize = 0;
    let ghost start = s@;
    while i < errors.len()
        invariant
            i <= errors@.len(),
            views == errors@.map_values(|e: String| e@),
            s@ == start + join(views.take(i as int), "\n- "@),
        decreases errors.len() - i,
    {
        if i > 0 {
            s.append("\n- ");
        }
        s.append(errors[i].as_str());
        proof {
            let t = views.take(i + 1);
            assert(t.drop_last() == views.take(i as int));
            assert(t.last() == errors@[i as int]@);
            if i == 0 {
                assert(join(t, "\n- "@) == t[0]);
            }
        }
        i += 1;
    }
    assert(views.take(errors@.len() as int) == views);
    s.append("\n\nRe-issue it using exactly this shape, and nothing after </tool_use>:\n<tool_use>\n<name>TOOL_NAME</name>\n<arguments>\n{ \"key\": \"value\" }\n</arguments>\n</tool_use>\n\nThe arguments must be a single valid JSON object. Inside JSON string values, escape every backslash as \\\\ and every double quote as \\\" (e.g. a Windows path: \"C:\\\\Users\\\\Aver\\\\file.png\").");
    s
}

/// The reply to a `timer` call in a background turn: a sub-agent's
/// conversation vanishes with its answer, and its timer would be orphaned.
pub const TIMERS_UNAVAILABLE: &'static str = "Timers are not available to background agents.";

/// The reply to listing timers when none is pending.
pub const NO_TIMERS_PENDING: &'static str = "No timers pending in this chat.";

/// The reply to a cancel without a readable id.
pub const TIMER_ID_NEEDED: &'static str = "Cancelling a timer needs its numeric 'id'.";

/// `arguments[key]` as a string: the arguments parse to a JSON object whose
/// member `key` is a string.
pub open spec fn string_arg(arguments: Seq<char>, key: Seq<char>) -> Option<Seq<char>> {
    match json_member_of(arguments, key) {
        Some(m) => json_string_of(m),
        None => None,
    }
}

fn string_arg_exec(arguments: &str, key: &str) -> (r: Option<String>)
    ensures
        r.deep_view() == string_arg(arguments@, key@),
{
    match json_member(arguments, key) {
        Some(m) => json_string(m.as_str()),
        None => None,
    }
}

/// The action a `timer` call names; `set` when it names none.
pub open spec fn timer_action(arguments: Seq<char>) -> Seq<char> {
    match string_arg(arguments, "action"@) {
        Some(a) => a,
        None => "set"@,
    }
}

/// The timer id a call gives: a JSON integer, or a string holding one
/// (models like to send numbers as strings).
pub open spec fn timer_id(arguments: Seq<char>) -> Option<u64> {
    match json_member_of(arguments, "id"@) {
        Some(m) => match json_u64_of(m) {
            Some(n) => Some(n),
            None => match json_string_of(m) {
                Some(t) => parse_u64(trim(t)),
                None => None,
            },
        },
        None => None,
    }
}

fn timer_id_exec(arguments: &str) -> (r: Option<u64>)
    ensures
        r == timer_id(arguments@),
{
    match json_member(arguments, "id") {
        Some(m) => match json_u64(m.as_str()) {
            Some(n) => Some(n),
            None => match json_string(m.as_str()) {
                Some(t) => {
                    let trimmed_text = trimmed(t.as_str());
                    parse_u64_exec(trimmed_text.as_str())
                },
                None => None,
            },
        },
        None => None,
    }
}

/// What a `timer` call asks of the timer store.
#[derive(Debug, Clone, Copy, PartialEq, Eq, Structural)]
pub enum TimerRequest {
    /// Arm a timer from the call's `note`, `wake`, `after` and `at`.
    Arm,
    /// List this chat's pending timers.
    List,
    /// Cancel this chat's timer with this id.
    Cancel(u64),
}

/// The reply to an action the `timer` tool does not have.
pub open spec fn unknown_timer_action_text(action: Seq<char>) -> Seq<char> {
    "Unknown timer action '"@ + action + "'. Use 'set', 'list', or 'cancel'."@
}

/// A failed outcome saying `text`.
pub open spec fn fails_with(r: Result<TimerRequest, ToolOutcome>, text: Seq<char>) -> bool {
    r matches Err(o) && o.is_error && o.text@ == text
}

/// Read a `timer` call before the store is touched: a background turn is
/// refused, a cancel needs a readable id, an unknown action is named back;
/// otherwise what to ask of the store.
pub fn timer_request(arguments: &str, background: bool) -> (r: Result<TimerRequest, ToolOutcome>)
    ensures
        background ==> fails_with(r, TIMERS_UNAVAILABLE@),
        !background && timer_action(arguments@) == "list"@ ==> r == Ok::<TimerRequest, ToolOutcome>(TimerRequest::List),
        !background && timer_action(arguments@) == "set"@ ==> r == Ok::<TimerRequest, ToolOutcome>(TimerRequest::Arm),
        !background && timer_action(arguments@) == "cancel"@ ==> match timer_id(arguments@) {
            Some(id) => r == Ok::<TimerRequest, ToolOutcome>(TimerRequest::Cancel(id)),
            None => fails_with(r, TIMER_ID_NEEDED@),
        },
        !background && timer_action(arguments@) != "list"@ && timer_action(arguments@) != "set"@
            && timer_action(arguments@) != "cancel"@
            ==> fails_with(r, unknown_timer_action_text(timer_action(arguments@))),
{
    if background {
        return Err(ToolOutcome::failed(TIMERS_UNAVAILABLE.to_owned()));
    }
    proof {
        reveal_strlit("list");
        reveal_strlit("set");
        reveal_strlit("cancel");
    }
    let action = match string_arg_exec(arguments, "action") {
        Some(a) => a,
        None => "set".to_owned(),
    };
    assert(action@ == timer_action(arguments@));
    assert("set"@.len() == 3 && "list"@.len() == 4 && "cancel"@.len() == 6);
    if str_eq(action.as_str(), "list") {
        Ok(TimerRequest::List)
    } else if str_eq(action.as_str(), "cancel") {
        match timer_id_exec(arguments) {
            Some(id) => Ok(TimerRequest::Cancel(id)),
            None => Err(ToolOutcome::failed(TIMER_ID_NEEDED.to_owned())),
        }
    } else if str_eq(action.as_str(), "set") {
        Ok(TimerRequest::Arm)
    } else {
        let mut text = "Unknown timer action '".to_owned();
        text.append(action.as_str());
        text.append("'. Use 'set', 'list', or 'cancel'.");
        Err(ToolOutcome::failed(text))
    }
}

/// The reply to listing timers: one line per pending timer (`descriptions`,
/// as the timer store describes them), or a note that none is pending.
pub fn timer_list_reply(descriptions: &[String]) -> (o: ToolOutcome)
    ensures
        !o.is_error,
        descriptions@.len() == 0 ==> o.text@ == NO_TIMERS_PENDING@,
        descriptions@.len() > 0 ==> o.text@ == join(strings_view(descriptions@), "\n"@),
{
    if descriptions.len() == 0 {
        ToolOutcome::ok(NO_TIMERS_PENDING.to_owned())
    } else {
        ToolOutcome::ok(join_strings(descriptions, "\n"))
    }
}

/// The reply to cancelling timer `id`: the cancelled timer's note when the
/// store had it in this chat, else a failure.
pub fn timer_cancel_reply(id: u64, cancelled_note: Option<String>) -> (o: ToolOutcome)
    ensures
        cancelled_note matches Some(note) ==> !o.is_error
            && o.text@ == "Cancelled timer #"@ + decimal(id as nat) + ": "@ + note@,
        cancelled_note is None ==> o.is_error && o.text@ == "No timer #"@ + decimal(id as nat) + " in this chat."@,
{
    match cancelled_note {
        Some(note) => {
            let mut text = "Cancelled timer #".to_owned();
            push_decimal(&mut text, id);
            text.append(": ");
            text.append(note.as_str());
            ToolOutcome::ok(text)
        },
        None => {
            let mut text = "No timer #".to_owned();
            push_decimal(&mut text, id);
            text.append(" in this chat.");
            ToolOutcome::failed(text)
        },
    }
}

/// What the model is told once a timer is armed: the timer as the store
/// describes it, then what happens when it fires. There is no clock in the
/// prompt, so this is where the model learns the absolute time.
pub fn timer_set_message(description: &str, wake: bool) -> (s: String)
    ensures
        s@ == "Timer set — "@ + description@ + "\n"@ + (if wake {
            "It will start a turn here and hand you the note."@
        } else {
            "It will show the note here; you are not resumed."@
        }) + " Timers are lost if the app exits."@,
{
    let mut s = "Timer set — ".to_owned();
    s.append(description);
    s.append("\n");
    if wake {
        s.append("It will start a turn here and hand you the note.");
    } else {
        s.append("It will show the note here; you are not resumed.");
    }
    s.append(" Timers are lost if the app exits.");
    s
}

/// The tool that asks the person a question.
pub const QUESTION_TOOL_NAME: &'static str = "question";

/// The tool that runs a sub-agent.
pub const TASK_TOOL_NAME: &'static str = "task";

/// The tool that arms, lists and cancels this chat's timers.
pub const TIMER_TOOL_NAME: &'static str = "timer";

/// `arguments[key]` as a boolean, when it is one.
pub open spec fn bool_arg(arguments: Seq<char>, key: Seq<char>) -> Option<bool> {
    match json_member_of(arguments, key) {
        Some(m) => json_bool_of(m),
        None => None,
    }
}

/// The strings among the JSON texts `items`, in order; other values are
/// skipped.
pub open spec fn string_items(items: Seq<Seq<char>>) -> Seq<Seq<char>>
    decreases items.len(),
{
    if items.len() == 0 {
        Seq::empty()
    } else {
        let rest = string_items(items.drop_last());
        match json_string_of(items.last()) {
            Some(t) => rest.push(t),
            None => rest,
        }
    }
}

/// The strings of the array `arguments[key]`; empty when there is no such
/// array.
pub open spec fn string_list_arg(arguments: Seq<char>, key: Seq<char>) -> Seq<Seq<char>> {
    match json_member_of(arguments, key) {
        Some(m) => match json_items_of(m) {
            Some(items) => string_items(items),
            None => Seq::empty(),
        },
        None => Seq::empty(),
    }
}

/// The question a `question` call asks.
pub open spec fn question_text(arguments: Seq<char>) -> Seq<char> {
    match string_arg(arguments, "question"@) {
        Some(q) => q,
        None => "(no question)"@,
    }
}

/// The trimmed prompt of a `task` call (empty when it gives none).
pub open spec fn task_prompt(arguments: Seq<char>) -> Seq<char> {
    match string_arg(arguments, "prompt"@) {
        Some(p) => trim(p),
        None => Seq::empty(),
    }
}

/// The label of a `task` call: its description, or a default when that is
/// missing or blank.
pub open spec fn task_label(arguments: Seq<char>) -> Seq<char> {
    match string_arg(arguments, "description"@) {
        Some(d) => if trim(d).len() > 0 { d } else { "sub-agent task"@ },
        None => "sub-agent task"@,
    }
}

/// Where a tool call goes.
#[derive(Debug, Clone)]
pub enum ToolRoute {
    /// Refused at once with this outcome.
    Refuse(ToolOutcome),
    /// Ask the person, then [`question_result`].
    Ask { question: String, options: Vec<String>, allow_custom: bool },
    /// Start a detached sub-agent; answer with [`background_task_started`].
    SpawnBackground { label: String, prompt: String },
    /// Run a sub-agent to its end, then [`sub_agent_result`].
    RunSubAgent { prompt: String },
    /// The timer tool: [`timer_request`].
    Timer,
    /// Any other tool: the approval gate ([`needs_approval`],
    /// [`approval_result`]), then the tool registry or MCP.
    Generic,
}

/// `r` is refused with `text`.
pub open spec fn refused_with(r: ToolRoute, text: Seq<char>) -> bool {
    r matches ToolRoute::Refuse(o) && o.is_error && o.text@ == text
}

/// Where call `name` with `arguments` goes; `auto_approve` marks a
/// background turn, which has no person to ask and may not nest sub-agents.
pub open spec fn routes_as(r: ToolRoute, name: Seq<char>, arguments: Seq<char>, auto_approve: bool) -> bool {
    if name == QUESTION_TOOL_NAME@ {
        if auto_approve {
            refused_with(r, "Cannot ask the user from a background agent."@)
        } else {
            r matches ToolRoute::Ask { question, options, allow_custom } && question@ == question_text(arguments)
                && strings_view(options@) == string_list_arg(arguments, "options"@)
                && allow_custom == (bool_arg(arguments, "allow_custom"@) == Some(true))
        }
    } else if name == TASK_TOOL_NAME@ {
        if auto_approve {
            refused_with(r, "Nested sub-agents are not allowed."@)
        } else if task_prompt(arguments).len() == 0 {
            refused_with(r, "The 'task' tool requires a non-empty 'prompt'."@)
        } else if bool_arg(arguments, "background"@) == Some(true) {
            r matches ToolRoute::SpawnBackground { label, prompt } && label@ == task_label(arguments)
                && prompt@ == task_prompt(arguments)
        } else {
            r matches ToolRoute::RunSubAgent { prompt } && prompt@ == task_prompt(arguments)
        }
    } else if name == TIMER_TOOL_NAME@ {
        r is Timer
    } else {
        r is Generic
    }
}

/// A background `task` is labelled with its description: when the call's
/// `"description"` member is a JSON string holding a non-whitespace
/// character, the spawned sub-agent's label is that string, whatever else
/// the call says.
pub proof fn lemma_background_label_is_the_description(
    r: ToolRoute,
    arguments: Seq<char>,
    member: Seq<char>,
    d: Seq<char>,
    k: int,
)
    requires
        routes_as(r, TASK_TOOL_NAME@, arguments, false),
        r is SpawnBackground,
        json_member_of(arguments, "description"@) == Some(member),
        json_string_of(member) == Some(d),
        0 <= k < d.len(),
        !is_ws(d[k]),
    ensures
        r->SpawnBackground_label@ == d,
{
    reveal_strlit("task");
    reveal_strlit("question");
    assert(TASK_TOOL_NAME@ != QUESTION_TOOL_NAME@) by {
        assert(TASK_TOOL_NAME@.len() != QUESTION_TOOL_NAME@.len());
    }
    lemma_trim_blank(d);
}

/// The stock label "sub-agent task" goes on a background `task` whose
/// `"description"` is missing, is no JSON string, or is blank.
pub proof fn lemma_background_label_without_description(r: ToolRoute, arguments: Seq<char>)
    requires
        routes_as(r, TASK_TOOL_NAME@, arguments, false),
        r is SpawnBackground,
        match json_member_of(arguments, "description"@) {
            None => true,
            Some(member) => match json_string_of(member) {
                None => true,
                Some(d) => forall|k: int| 0 <= k < d.len() ==> is_ws(#[trigger] d[k]),
            },
        },
    ensures
        r->SpawnBackground_label@ == "sub-agent task"@,
{
    reveal_strlit("task");
    reveal_strlit("question");
    assert(TASK_TOOL_NAME@ != QUESTION_TOOL_NAME@) by {
        assert(TASK_TOOL_NAME@.len() != QUESTION_TOOL_NAME@.len());
    }
    match string_arg(arguments, "description"@) {
        Some(d) => lemma_trim_blank(d),
        None => {},
    }
}

fn bool_arg_exec(arguments: &str, key: &str) -> (r: Option<bool>)
    ensures
        r == bool_arg(arguments@, key@),
{
    match json_member(arguments, key) {
        Some(m) => json_bool(m.as_str()),
        None => None,
    }
}

fn string_list_arg_exec(arguments: &str, key: &str) -> (r: Vec<String>)
    ensures
        strings_view(r@) == string_list_arg(arguments@, key@),
{
    let mut out: Vec<String> = Vec::new();
    let member = match json_member(arguments, key) {
        Some(m) => m,
        None => {
            assert(strings_view(out@) =~= Seq::<Seq<char>>::empty());
            return out;
        },
    };
    let items = match json_items(member.as_str()) {
        Some(items) => items,
        None => {
            assert(strings_view(out@) =~= Seq::<Seq<char>>::empty());
            return out;
        },
    };
    let ghost all = items.deep_view();
    let mut i: usize = 0;
    assert(all.take(0) =~= Seq::<Seq<char>>::empty());
    assert(strings_view(out@) =~= Seq::<Seq<char>>::empty());
    while i < items.len()
        invariant
            i <= items@.len(),
            all == items.deep_view(),
            all.len() == items@.len(),
            strings_view(out@) == string_items(all.take(i as int)),
        decreases items.len() - i,
    {
        assert(all[i as int] == items@[i as int]@);
        assert(all.take(i + 1).drop_last() =~= all.take(i as int));
        let ghost before = out@;
        match json_string(items[i].as_str()) {
            Some(t) => {
                out.push(t);
                assert(strings_view(out@) =~= strings_view(before).push(out@[out@.len() - 1]@));
            },
            None => {},
        }
        i += 1;
    }
    assert(all.take(all.len() as int) =~= all);
    out
}

/// Decide where a tool call goes (see [`routes_as`]): a question is asked
/// unless the turn runs in the background; a `task` runs a sub-agent (in
/// the background when asked), refused in a background turn (sub-agents do
/// not nest) and without a prompt; the timer and every other tool go on.
pub fn route_tool_call(name: &str, arguments: &str, auto_approve: bool) -> (r: ToolRoute)
    ensures
        routes_as(r, name@, arguments@, auto_approve),
{
    if str_eq(name, QUESTION_TOOL_NAME) {
        if auto_approve {
            return ToolRoute::Refuse(ToolOutcome::failed("Cannot ask the user from a background agent.".to_owned()));
        }
        let question = match string_arg_exec(arguments, "question") {
            Some(q) => q,
            None => "(no question)".to_owned(),
        };
        let options = string_list_arg_exec(arguments, "options");
        let allow_custom = match bool_arg_exec(arguments, "allow_custom") {
            Some(b) => b,
            None => false,
        };
        ToolRoute::Ask { question, options, allow_custom }
    } else if str_eq(name, TASK_TOOL_NAME) {
        if auto_approve {
            return ToolRoute::Refuse(ToolOutcome::failed("Nested sub-agents are not allowed.".to_owned()));
        }
        let prompt = match string_arg_exec(arguments, "prompt") {
            Some(p) => trimmed(p.as_str()),
            None => String::new(),
        };
        let label = match string_arg_exec(arguments, "description") {
            Some(d) => {
                let t = trimmed(d.as_str());
                let tv = chars_of(t.as_str());
                if tv.len() > 0 { d } else { "sub-agent task".to_owned() }
            },
            None => "sub-agent task".to_owned(),
        };
        let background = match bool_arg_exec(arguments, "background") {
            Some(b) => b,
            None => false,
        };
        let pv = chars_of(prompt.as_str());
        if pv.len() == 0 {
            return ToolRoute::Refuse(ToolOutcome::failed("The 'task' tool requires a non-empty 'prompt'.".to_owned()));
        }
        if background {
            ToolRoute::SpawnBackground { label, prompt }
        } else {
            ToolRoute::RunSubAgent { prompt }
        }
    } else if str_eq(name, TIMER_TOOL_NAME) {
        ToolRoute::Timer
    } else {
        ToolRoute::Generic
    }
}

/// What the model gets back from a question: the person's answer, or a
/// failure when they cancelled or answered nothing.
pub fn question_result(answer: Option<String>) -> (o: ToolOutcome)
    ensures
        (answer matches Some(a) && a@.len() > 0) ==> !o.is_error && o.text@ == "User answered: "@ + answer->0@,
        !(answer matches Some(a) && a@.len() > 0) ==> o.is_error && o.text@ == "User cancelled the question"@,
{
    match answer {
        Some(a) => {
            let v = chars_of(a.as_str());
            if v.len() > 0 {
                let mut t = "User answered: ".to_owned();
                t.append(a.as_str());
                ToolOutcome::ok(t)
            } else {
                ToolOutcome::failed("User cancelled the question".to_owned())
            }
        },
        None => ToolOutcome::failed("User cancelled the question".to_owned()),
    }
}

/// What the model gets back once a background sub-agent was started.
pub fn background_task_started(label: &str) -> (o: ToolOutcome)
    ensures
        !o.is_error,
        o.text@ == "Started background sub-agent: "@ + label@,
{
    let mut t = "Started background sub-agent: ".to_owned();
    t.append(label);
    ToolOutcome::ok(t)
}

/// What the model gets back from a sub-agent run to its end: its final
/// text, or its error.
pub fn sub_agent_result(outcome: Result<String, String>) -> (o: ToolOutcome)
    ensures
        outcome matches Ok(text) ==> !o.is_error && o.text == text,
        outcome matches Err(e) ==> o.is_error && o.text@ == "Sub-agent failed: "@ + e@,
{
    match outcome {
        Ok(text) => ToolOutcome::ok(text),
        Err(e) => {
            let mut t = "Sub-agent failed: ".to_owned();
            t.append(e.as_str());
            ToolOutcome::failed(t)
        },
    }
}

/// Whether a tool call waits for the person's approval: never in a
/// background turn; otherwise unless the registry knows the tool and the
/// tool says it needs none (`requires_approval`: `None` for a tool the
/// registry does not know, any MCP tool among them).
pub fn needs_approval(auto_approve: bool, requires_approval: Option<bool>) -> (b: bool)
    ensures
        b == (!auto_approve && requires_approval != Some(false)),
{
    !auto_approve && match requires_approval {
        Some(r) => r,
        None => true,
    }
}

/// After the approval gate: `None` lets the call run, a denial is answered
/// with a failure.
pub fn approval_result(approved: bool) -> (r: Option<ToolOutcome>)
    ensures
        approved ==> r is None,
        !approved ==> (r matches Some(o) && o.is_error && o.text@ == "Execution denied by user."@),
{
    if approved {
        None
    } else {
        Some(ToolOutcome::failed("Execution denied by user.".to_owned()))
    }
}

/// What a call of MCP tool `name` gets when its server is not connected.
pub fn mcp_tool_unavailable(name: &str) -> (o: ToolOutcome)
    ensures
        o.is_error,
        o.text@ == "MCP tool '"@ + name@ + "' is not available (server not connected)"@,
{
    let mut t = "MCP tool '".to_owned();
    t.append(name);
    t.append("' is not available (server not connected)");
    ToolOutcome::failed(t)
}

/// Whether the call at `index` (from 0) of a step is skipped: the step's
/// calls beyond `max_tools_per_step` are answered with
/// [`tool_skip_message`] instead of run.
pub fn skips_call(index: usize, max_tools_per_step: usize) -> (b: bool)
    ensures
        b == (index >= max_tools_per_step),
{
    index >= max_tools_per_step
}

} // verus!
