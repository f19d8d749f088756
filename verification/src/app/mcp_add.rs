//! State machine and parsing helpers for `/mcp add`: paste a JSON server
//! config, walk a step-by-step wizard, or (from the command line) a quick
//! `<name> <command> [args...]` shortcut.

use vstd::prelude::*;
use crate::app::input::InputState;
use crate::mcp::{ConfigModel, MCPServerConfig, MCPServerStatus, config_model};
use crate::json::{
    json_entries, json_entries_of, json_error, json_error_of, json_items, json_items_of, json_member,
    json_member_of, json_string, json_string_of,
};
use crate::string_map::{StringMap, upsert};
use crate::text::{
    trim, trimmed, decimal, push_decimal, lines, next_line, trim_bounds, copy_range, string_of,
    first_occ, lemma_first_occ_props, find_first, chars_of, words, strings_view, split_words, str_eq,
};

verus! {

/// Short human-readable label for a just-added server's connect outcome.
pub open spec fn status_label_spec(status: MCPServerStatus) -> Seq<char> {
    match status {
        MCPServerStatus::Connected => "connected"@,
        MCPServerStatus::AuthRequired(_) => "requires authorization \u{2014} use /mcp auth"@,
        MCPServerStatus::Error(e) => "failed to connect: "@ + e@,
        MCPServerStatus::Pending | MCPServerStatus::Connecting => "connecting..."@,
        MCPServerStatus::Disabled => "disabled"@,
    }
}

/// Short human-readable label for a just-added server's connect outcome —
/// shown in the `/mcp add` result message.
pub fn status_label(status: &MCPServerStatus) -> (s: String)
    ensures
        s@ == status_label_spec(*status),
{
    match status {
        MCPServerStatus::Connected => "connected".to_owned(),
        MCPServerStatus::AuthRequired(_) => "requires authorization \u{2014} use /mcp auth".to_owned(),
        MCPServerStatus::Error(e) => {
            let mut s = "failed to connect: ".to_owned();
            s.append(e.as_str());
            s
        },
        MCPServerStatus::Pending | MCPServerStatus::Connecting => "connecting...".to_owned(),
        MCPServerStatus::Disabled => "disabled".to_owned(),
    }
}

/// Which entry method the user picked (or is currently walking through).
#[derive(Debug, Clone)]
pub enum McpAddState {
    /// `/mcp add` with no (usable) args: choose paste-JSON vs. the wizard.
    ChooseMethod { selected: usize },
    /// Free-form JSON paste box (multi-line via `InputState`).
    PasteJson { input: InputState, error: Option<String> },
    /// Step-by-step wizard.
    Wizard(Box<WizardState>),
}

impl McpAddState {
    pub fn choose_method() -> (s: McpAddState)
        ensures
            s == (McpAddState::ChooseMethod { selected: 0 }),
    {
        McpAddState::ChooseMethod { selected: 0 }
    }
}

#[derive(Debug, Clone, Copy, PartialEq, Eq, Structural)]
pub enum TransportChoice {
    Stdio,
    Http,
    Sse,
}

pub open spec fn transport_label(t: TransportChoice) -> Seq<char> {
    match t {
        TransportChoice::Stdio => "stdio (local command)"@,
        TransportChoice::Http => "http (remote URL)"@,
        TransportChoice::Sse => "sse (remote URL, streaming)"@,
    }
}

pub open spec fn transport_primary_label(t: TransportChoice) -> Seq<char> {
    match t {
        TransportChoice::Stdio => "Command (e.g. \"npx -y @scope/pkg\")"@,
        TransportChoice::Http | TransportChoice::Sse => "URL"@,
    }
}

pub open spec fn transport_extra_label(t: TransportChoice) -> Seq<char> {
    match t {
        TransportChoice::Stdio => "Env vars, one KEY=VALUE per line (optional)"@,
        TransportChoice::Http | TransportChoice::Sse => "Headers, one \"Name: value\" per line (optional)"@,
    }
}

impl TransportChoice {
    pub fn label(self) -> (s: &'static str)
        ensures
            s@ == transport_label(self),
    {
        match self {
            TransportChoice::Stdio => "stdio (local command)",
            TransportChoice::Http => "http (remote URL)",
            TransportChoice::Sse => "sse (remote URL, streaming)",
        }
    }

    /// Prompt for the wizard's "primary value" step.
    pub fn primary_label(self) -> (s: &'static str)
        ensures
            s@ == transport_primary_label(self),
    {
        match self {
            TransportChoice::Stdio => "Command (e.g. \"npx -y @scope/pkg\")",
            TransportChoice::Http | TransportChoice::Sse => "URL",
        }
    }

    /// Prompt for the wizard's optional "extra" step.
    pub fn extra_label(self) -> (s: &'static str)
        ensures
            s@ == transport_extra_label(self),
    {
        match self {
            TransportChoice::Stdio => "Env vars, one KEY=VALUE per line (optional)",
            TransportChoice::Http | TransportChoice::Sse => "Headers, one \"Name: value\" per line (optional)",
        }
    }
}

#[derive(Debug, Clone, Copy, PartialEq, Eq, Structural)]
pub enum WizardStep {
    Name,
    Transport,
    Primary,
    Extra,
    Confirm,
}

#[derive(Debug, Clone)]
pub struct WizardState {
    pub step: WizardStep,
    pub name: InputState,
    pub transport_selected: usize,
    pub transport: Option<TransportChoice>,
    pub primary: InputState,
    pub extra: InputState,
    pub error: Option<String>,
}

/// An input line that is empty and at rest.
pub open spec fn input_blank(i: InputState) -> bool {
    &&& i@.buffer.len() == 0
    &&& i@.cursor == 0
    &&& i@.anchor is None
    &&& i@.history.len() == 0
    &&& i@.history_index is None
    &&& i@.unsent.len() == 0
}

// ─────────────────────────── line-oriented maps ───────────────────────────

/// `line <n>: <what>`.
pub open spec fn line_error(n: nat, what: Seq<char>) -> Seq<char> {
    "line "@ + decimal(n) + ": "@ + what
}

/// Read `KEY<sep>VALUE` lines into `acc`, `n` being the number of lines
/// before `ls`. Blank lines are skipped; a line without `sep`, or with
/// nothing before it, is an error naming the line. Key and value are the
/// trimmed text before and after the first `sep`; a later line for the same
/// key replaces its value.
pub open spec fn parse_pairs(
    ls: Seq<Seq<char>>,
    sep: char,
    missing: Seq<char>,
    empty_key: Seq<char>,
    n: nat,
    acc: Seq<(Seq<char>, Seq<char>)>,
) -> Result<Seq<(Seq<char>, Seq<char>)>, Seq<char>>
    decreases ls.len(),
{
    if ls.len() == 0 {
        Ok(acc)
    } else {
        let line = trim(ls[0]);
        if line.len() == 0 {
            parse_pairs(ls.drop_first(), sep, missing, empty_key, n + 1, acc)
        } else {
            match first_occ(line, seq![sep], 0) {
                None => Err(line_error(n + 1, missing)),
                Some(p) => {
                    let k = trim(line.take(p));
                    if k.len() == 0 {
                        Err(line_error(n + 1, empty_key))
                    } else {
                        parse_pairs(
                            ls.drop_first(),
                            sep,
                            missing,
                            empty_key,
                            n + 1,
                            upsert(acc, k, trim(line.skip(p + 1))),
                        )
                    }
                },
            }
        }
    }
}

pub open spec fn env_lines_spec(text: Seq<char>) -> Result<Seq<(Seq<char>, Seq<char>)>, Seq<char>> {
    parse_pairs(lines(text), '=', "expected KEY=VALUE"@, "empty key"@, 0, Seq::empty())
}

pub open spec fn header_lines_spec(text: Seq<char>) -> Result<Seq<(Seq<char>, Seq<char>)>, Seq<char>> {
    parse_pairs(lines(text), ':', "expected \"Name: value\""@, "empty header name"@, 0, Seq::empty())
}

fn line_error_exec(n: usize, what: &str) -> (s: String)
    ensures
        s@ == line_error(n as nat, what@),
{
    let mut s = "line ".to_owned();
    push_decimal(&mut s, n as u64);
    s.append(": ");
    s.append(what);
    s
}

/// One step of [`parse_pairs`]: the line `v[start..end]`, numbered `n + 1`.
fn read_pair_line(
    v: &Vec<char>,
    start: usize,
    end: usize,
    sep: char,
    missing: &str,
    empty_key: &str,
    n: usize,
    map: &mut StringMap,
) -> (r: Result<(), String>)
    requires
        start <= end <= v.len(),
        n < usize::MAX,
        old(map).wf(),
    ensures
        final(map).wf(),
        ({
            let line = trim(v@.subrange(start as int, end as int));
            &&& line.len() == 0 ==> r is Ok && final(map)@ == old(map)@
            &&& line.len() > 0 ==> match first_occ(line, seq![sep], 0) {
                None => r is Err && r->Err_0@ == line_error((n + 1) as nat, missing@),
                Some(p) => {
                    let k = trim(line.take(p));
                    if k.len() == 0 {
                        r is Err && r->Err_0@ == line_error((n + 1) as nat, empty_key@)
                    } else {
                        r is Ok && final(map)@ == upsert(old(map)@, k, trim(line.skip(p + 1)))
                    }
                },
            }
        }),
{
    let (a, b) = trim_bounds(v, start, end);
    if a == b {
        return Ok(());
    }
    let t = copy_range(v, a, b);
    let mut sepv: Vec<char> = Vec::new();
    sepv.push(sep);
    assert(sepv@ == seq![sep]);
    let found = find_first(&t, &sepv, 0);
    proof {
        lemma_first_occ_props(t@, sepv@, 0);
    }
    let p = match found {
        Some(p) => p,
        None => {
            return Err(line_error_exec(n + 1, missing));
        },
    };
    let tl = t.len();
    let (ka, kb) = trim_bounds(&t, 0, p);
    assert(t@.subrange(0, p as int) == t@.take(p as int));
    if ka == kb {
        return Err(line_error_exec(n + 1, empty_key));
    }
    let key = string_of(&t, ka, kb);
    let (va, vb) = trim_bounds(&t, p + 1, tl);
    assert(t@.subrange(p + 1, tl as int) == t@.skip(p + 1));
    let value = string_of(&t, va, vb);
    map.insert(key, value);
    Ok(())
}

fn parse_pairs_exec(text: &str, sep: char, missing: &str, empty_key: &str) -> (r: Result<StringMap, String>)
    ensures
        match r {
            Ok(m) => m.wf() && parse_pairs(lines(text@), sep, missing@, empty_key@, 0, Seq::empty())
                == Ok::<Seq<(Seq<char>, Seq<char>)>, Seq<char>>(m@),
            Err(e) => parse_pairs(lines(text@), sep, missing@, empty_key@, 0, Seq::empty())
                == Err::<Seq<(Seq<char>, Seq<char>)>, Seq<char>>(e@),
        },
{
    let v = chars_of(text);
    let mut map = StringMap::new();
    let mut start: usize = 0;
    let mut n: usize = 0;
    assert(v@.skip(0) == v@);
    while start < v.len()
        invariant
            n <= start <= v.len(),
            v@ == text@,
            map.wf(),
            parse_pairs(lines(v@), sep, missing@, empty_key@, 0, Seq::empty()) == parse_pairs(
                lines(v@.skip(start as int)),
                sep,
                missing@,
                empty_key@,
                n as nat,
                map@,
            ),
        decreases v.len() - start,
    {
        let (end, next) = next_line(&v, start);
        let ghost ls = lines(v@.skip(start as int));
        let ghost rest = lines(v@.skip(next as int));
        proof {
            let line = v@.subrange(start as int, end as int);
            assert(ls[0] == line);
            assert(ls.drop_first() == rest);
        }
        match read_pair_line(&v, start, end, sep, missing, empty_key, n, &mut map) {
            Ok(()) => {},
            Err(e) => {
                return Err(e);
            },
        }
        start = next;
        n = n + 1;
    }
    proof {
        assert(v@.skip(start as int).len() == 0);
        assert(lines(v@.skip(start as int)) == Seq::<Seq<char>>::empty());
    }
    Ok(map)
}

/// Split a shell-like command line into `(command, args)` by whitespace —
/// deliberately simple, no quoting support: covers the overwhelming
/// majority of MCP install snippets (`npx -y @scope/pkg`, `uvx some-tool`).
pub fn split_command_line(line: &str) -> (r: Result<(String, Vec<String>), String>)
    ensures
        match r {
            Ok((command, args)) => words(line@).len() > 0 && command@ == words(line@)[0]
                && strings_view(args@) == words(line@).drop_first(),
            Err(e) => words(line@).len() == 0 && e@ == "command is empty"@,
        },
{
    let parts = split_words(line);
    if parts.len() == 0 {
        return Err("command is empty".to_owned());
    }
    let mut command = String::new();
    let mut args: Vec<String> = Vec::new();
    let mut i: usize = 0;
    while i < parts.len()
        invariant
            i <= parts.len(),
            parts.len() > 0,
            strings_view(parts@) == words(line@),
            i > 0 ==> command@ == words(line@)[0],
            i > 0 ==> strings_view(args@) == words(line@).subrange(1, i as int),
            i == 0 ==> args@.len() == 0,
        decreases parts.len() - i,
    {
        let ghost before = args@;
        if i == 0 {
            command = parts[0].clone();
        } else {
            args.push(parts[i].clone());
            proof {
                assert(strings_view(args@) == strings_view(before).push(parts@[i as int]@));
                assert(words(line@).subrange(1, i + 1) == words(line@).subrange(1, i as int).push(
                    words(line@)[i as int],
                ));
            }
        }
        proof {
            if i == 0 {
                assert(strings_view(args@) == words(line@).subrange(1, 1));
            }
        }
        i += 1;
    }
    assert(words(line@).subrange(1, parts.len() as int) == words(line@).drop_first());
    Ok((command, args))
}

/// Parse `KEY=VALUE` lines (blank lines ignored) into an env map for a
/// stdio server. Empty input is a valid, empty map — env is optional.
pub fn parse_env_lines(text: &str) -> (r: Result<StringMap, String>)
    ensures
        match r {
            Ok(m) => m.wf() && env_lines_spec(text@) == Ok::<Seq<(Seq<char>, Seq<char>)>, Seq<char>>(m@),
            Err(e) => env_lines_spec(text@) == Err::<Seq<(Seq<char>, Seq<char>)>, Seq<char>>(e@),
        },
{
    parse_pairs_exec(text, '=', "expected KEY=VALUE", "empty key")
}

/// Parse `Name: value` lines (blank lines ignored) into a headers map for
/// an http/sse server. Empty input is a valid, empty map.
pub fn parse_header_lines(text: &str) -> (r: Result<StringMap, String>)
    ensures
        match r {
            Ok(m) => m.wf() && header_lines_spec(text@) == Ok::<Seq<(Seq<char>, Seq<char>)>, Seq<char>>(m@),
            Err(e) => header_lines_spec(text@) == Err::<Seq<(Seq<char>, Seq<char>)>, Seq<char>>(e@),
        },
{
    parse_pairs_exec(text, ':', "expected \"Name: value\"", "empty header name")
}

/// A stdio server's environment: none when no variable was given.
pub open spec fn env_holds(env: Option<StringMap>, es: Seq<(Seq<char>, Seq<char>)>) -> bool {
    match env {
        None => es.len() == 0,
        Some(m) => es.len() > 0 && m@ == es && m.wf(),
    }
}

/// `e` adds a stdio server `name` that runs `command` with `args`, no
/// environment and no working directory.
pub open spec fn is_stdio_entry(
    e: (String, MCPServerConfig),
    name: Seq<char>,
    command: Seq<char>,
    args: Seq<Seq<char>>,
) -> bool {
    &&& e.0@ == name
    &&& e.1 matches MCPServerConfig::Stdio { command: c, args: a, env, cwd }
    &&& c@ == command
    &&& strings_view(a@) == args
    &&& env is None
    &&& cwd is None
}

/// The server config the wizard's answers describe, or why there is none.
pub open spec fn wizard_config_ok(
    transport: Option<TransportChoice>,
    primary: Seq<char>,
    extra: Seq<char>,
    r: Result<MCPServerConfig, String>,
) -> bool {
    match transport {
        None => r is Err && r->Err_0@ == "no transport selected"@,
        Some(TransportChoice::Stdio) => {
            let ws = words(trim(primary));
            if ws.len() == 0 {
                r is Err && r->Err_0@ == "command is empty"@
            } else {
                match env_lines_spec(extra) {
                    Err(e) => r is Err && r->Err_0@ == e,
                    Ok(es) => r matches Ok(MCPServerConfig::Stdio { command, args, env, cwd }) && command@
                        == ws[0] && strings_view(args@) == ws.drop_first() && cwd is None && env_holds(
                        env,
                        es,
                    ),
                }
            }
        },
        Some(TransportChoice::Http) => match header_lines_spec(extra) {
            Err(e) => r is Err && r->Err_0@ == e,
            Ok(es) => r matches Ok(MCPServerConfig::Http { url, headers }) && url@ == trim(primary)
                && headers@ == es && headers.wf(),
        },
        Some(TransportChoice::Sse) => match header_lines_spec(extra) {
            Err(e) => r is Err && r->Err_0@ == e,
            Ok(es) => r matches Ok(MCPServerConfig::Sse { url, headers }) && url@ == trim(primary)
                && headers@ == es && headers.wf(),
        },
    }
}

impl WizardState {
    pub fn new() -> (w: WizardState)
        ensures
            w.step == WizardStep::Name,
            input_blank(w.name),
            w.transport_selected == 0,
            w.transport is None,
            input_blank(w.primary),
            input_blank(w.extra),
            w.error is None,
    {
        WizardState {
            step: WizardStep::Name,
            name: InputState::default(),
            transport_selected: 0,
            transport: None,
            primary: InputState::default(),
            extra: InputState::default(),
            error: None,
        }
    }

    /// Build the final `MCPServerConfig` from the fields collected so far.
    /// Every field was already validated when the user advanced past its
    /// step, so this should only fail if that validation and this parsing
    /// somehow disagree — kept fallible rather than assumed-infallible.
    pub fn build_config(&self) -> (r: Result<MCPServerConfig, String>)
        ensures
            wizard_config_ok(self.transport, self.primary.buffer@, self.extra.buffer@, r),
    {
        let transport = match self.transport {
            Some(t) => t,
            None => {
                return Err("no transport selected".to_owned());
            },
        };
        match transport {
            TransportChoice::Stdio => {
                let line = trimmed(self.primary.buffer.as_str());
                let (command, args) = match split_command_line(line.as_str()) {
                    Ok(pair) => pair,
                    Err(e) => {
                        return Err(e);
                    },
                };
                let env = match parse_env_lines(self.extra.buffer.as_str()) {
                    Ok(m) => m,
                    Err(e) => {
                        return Err(e);
                    },
                };
                let env = if env.is_empty() { None } else { Some(env) };
                Ok(MCPServerConfig::Stdio { command, args, env, cwd: None })
            },
            TransportChoice::Http => {
                let headers = match parse_header_lines(self.extra.buffer.as_str()) {
                    Ok(m) => m,
                    Err(e) => {
                        return Err(e);
                    },
                };
                Ok(MCPServerConfig::Http { url: trimmed(self.primary.buffer.as_str()), headers })
            },
            TransportChoice::Sse => {
                let headers = match parse_header_lines(self.extra.buffer.as_str()) {
                    Ok(m) => m,
                    Err(e) => {
                        return Err(e);
                    },
                };
                Ok(MCPServerConfig::Sse { url: trimmed(self.primary.buffer.as_str()), headers })
            },
        }
    }
}

// ─────────────────────────── pasted JSON ───────────────────────────

/// The JSON text `m` is `null`.
pub open spec fn is_json_null(m: Seq<char>) -> bool {
    m == "null"@
}

/// An optional string field of the JSON object `text`: absent or `null`
/// gives `None`; any other non-string value is an error.
pub open spec fn opt_string_field(text: Seq<char>, key: Seq<char>) -> Result<Option<Seq<char>>, Seq<char>> {
    match json_member_of(text, key) {
        None => Ok(None),
        Some(m) => if is_json_null(m) {
            Ok(None)
        } else {
            match json_string_of(m) {
                Some(v) => Ok(Some(v)),
                None => Err("invalid type for `"@ + key + "`: expected a string"@),
            }
        },
    }
}

/// A required string field of the JSON object `text`.
pub open spec fn required_field(text: Seq<char>, key: Seq<char>) -> Result<Seq<char>, Seq<char>> {
    match opt_string_field(text, key) {
        Err(e) => Err(e),
        Ok(None) => Err("missing field `"@ + key + "`"@),
        Ok(Some(v)) => Ok(v),
    }
}

/// The strings the JSON texts `items` stand for; `None` when one is no
/// string.
pub open spec fn decoded_strings(items: Seq<Seq<char>>) -> Option<Seq<Seq<char>>>
    decreases items.len(),
{
    if items.len() == 0 {
        Some(Seq::empty())
    } else {
        match (decoded_strings(items.drop_last()), json_string_of(items.last())) {
            (Some(r), Some(v)) => Some(r.push(v)),
            _ => None,
        }
    }
}

/// A list-of-strings field: absent or `null` gives the empty list.
pub open spec fn list_field(text: Seq<char>, key: Seq<char>) -> Result<Seq<Seq<char>>, Seq<char>> {
    match json_member_of(text, key) {
        None => Ok(Seq::empty()),
        Some(m) => if is_json_null(m) {
            Ok(Seq::empty())
        } else {
            match json_items_of(m) {
                None => Err("invalid type for `"@ + key + "`: expected a sequence"@),
                Some(items) => match decoded_strings(items) {
                    Some(v) => Ok(v),
                    None => Err("invalid type in `"@ + key + "`: expected a string"@),
                },
            }
        },
    }
}

/// The (key, string) pairs the (key, JSON text) members `es` stand for;
/// `None` when a value is no string.
pub open spec fn decoded_entries(es: Seq<(Seq<char>, Seq<char>)>) -> Option<Seq<(Seq<char>, Seq<char>)>>
    decreases es.len(),
{
    if es.len() == 0 {
        Some(Seq::empty())
    } else {
        match (decoded_entries(es.drop_last()), json_string_of(es.last().1)) {
            (Some(r), Some(v)) => Some(r.push((es.last().0, v))),
            _ => None,
        }
    }
}

/// The entries of a map built by setting each pair of `es` in turn.
pub open spec fn upsert_all(es: Seq<(Seq<char>, Seq<char>)>) -> Seq<(Seq<char>, Seq<char>)>
    decreases es.len(),
{
    if es.len() == 0 {
        Seq::empty()
    } else {
        upsert(upsert_all(es.drop_last()), es.last().0, es.last().1)
    }
}

/// A string-to-string map field: absent or `null` gives `None`.
pub open spec fn map_field(text: Seq<char>, key: Seq<char>) -> Result<Option<Seq<(Seq<char>, Seq<char>)>>, Seq<char>> {
    match json_member_of(text, key) {
        None => Ok(None),
        Some(m) => if is_json_null(m) {
            Ok(None)
        } else {
            match json_entries_of(m) {
                None => Err("invalid type for `"@ + key + "`: expected a map"@),
                Some(es) => match decoded_entries(es) {
                    Some(d) => Ok(Some(upsert_all(d))),
                    None => Err("invalid type in `"@ + key + "`: expected a string"@),
                },
            }
        },
    }
}

/// The entries of an optional map, empty when there is none.
pub open spec fn or_empty(m: Option<Seq<(Seq<char>, Seq<char>)>>) -> Seq<(Seq<char>, Seq<char>)> {
    match m {
        Some(es) => es,
        None => Seq::empty(),
    }
}

/// The remote config of a server object `text` reached by `url`.
pub open spec fn remote_config(text: Seq<char>, sse: bool) -> Result<ConfigModel, Seq<char>> {
    match required_field(text, "url"@) {
        Err(e) => Err(e),
        Ok(url) => match map_field(text, "headers"@) {
            Err(e) => Err(e),
            Ok(h) => if sse {
                Ok(ConfigModel::Sse { url, headers: or_empty(h) })
            } else {
                Ok(ConfigModel::Http { url, headers: or_empty(h) })
            },
        },
    }
}

/// The server configuration a JSON object `text` describes, tagged by its
/// `"transport"`: `stdio` (`command`, `args`, `env`, `cwd`), `http` or
/// `sse` (`url`, `headers`); other members are ignored.
pub open spec fn config_spec(text: Seq<char>) -> Result<ConfigModel, Seq<char>> {
    if json_entries_of(text) is None {
        Err("invalid type: expected a map"@)
    } else {
        match required_field(text, "transport"@) {
            Err(e) => Err(e),
            Ok(t) => if t == "stdio"@ {
                match required_field(text, "command"@) {
                    Err(e) => Err(e),
                    Ok(command) => match list_field(text, "args"@) {
                        Err(e) => Err(e),
                        Ok(args) => match map_field(text, "env"@) {
                            Err(e) => Err(e),
                            Ok(env) => match opt_string_field(text, "cwd"@) {
                                Err(e) => Err(e),
                                Ok(cwd) => Ok(ConfigModel::Stdio { command, args, env, cwd }),
                            },
                        },
                    },
                }
            } else if t == "http"@ {
                remote_config(text, false)
            } else if t == "sse"@ {
                remote_config(text, true)
            } else {
                Err("unknown variant `"@ + t + "`, expected one of `stdio`, `http`, `sse`"@)
            },
        }
    }
}

/// The model of a config result.
pub open spec fn config_result(r: Result<MCPServerConfig, String>) -> Result<ConfigModel, Seq<char>> {
    match r {
        Ok(c) => Ok(config_model(c)),
        Err(e) => Err(e@),
    }
}

/// The models of named configs.
pub open spec fn entry_models(es: Seq<(String, MCPServerConfig)>) -> Seq<(Seq<char>, ConfigModel)> {
    es.map_values(|e: (String, MCPServerConfig)| (e.0@, config_model(e.1)))
}

/// The model of a named-configs result.
pub open spec fn entries_result(r: Result<Vec<(String, MCPServerConfig)>, String>) -> Result<Seq<(Seq<char>, ConfigModel)>, Seq<char>> {
    match r {
        Ok(v) => Ok(entry_models(v@)),
        Err(e) => Err(e@),
    }
}

/// The servers of a `"mcpServers"` object's members `es`, in order; the
/// first server that is no valid config fails them all, named.
pub open spec fn servers_spec(es: Seq<(Seq<char>, Seq<char>)>) -> Result<Seq<(Seq<char>, ConfigModel)>, Seq<char>>
    decreases es.len(),
{
    if es.len() == 0 {
        Ok(Seq::empty())
    } else {
        match servers_spec(es.drop_last()) {
            Err(e) => Err(e),
            Ok(r) => match config_spec(es.last().1) {
                Err(e) => Err("server '"@ + es.last().0 + "': "@ + e),
                Ok(c) => Ok(r.push((es.last().0, c))),
            },
        }
    }
}

/// What a pasted server-config JSON blob adds: every entry of a
/// `{"mcpServers": {...}}` wrapper, or the one bare object carrying its own
/// `"name"` next to the config fields.
pub open spec fn pasted_json_spec(raw: Seq<char>) -> Result<Seq<(Seq<char>, ConfigModel)>, Seq<char>> {
    let t = trim(raw);
    if t.len() == 0 {
        Err("empty input"@)
    } else {
        match json_error_of(t) {
            Some(e) => Err("invalid JSON: "@ + e),
            None => {
                let servers = match json_member_of(t, "mcpServers"@) {
                    Some(m) => json_entries_of(m),
                    None => None,
                };
                match servers {
                    Some(es) => if es.len() == 0 {
                        Err("\"mcpServers\" object is empty"@)
                    } else {
                        servers_spec(es)
                    },
                    None => {
                        let name = match json_member_of(t, "name"@) {
                            Some(m) => json_string_of(m),
                            None => None,
                        };
                        match name {
                            None => Err("expected a top-level \"mcpServers\" object, or a \"name\" field"@),
                            Some(n) => match config_spec(t) {
                                Err(e) => Err("invalid server config: "@ + e),
                                Ok(c) => Ok(seq![(n, c)]),
                            },
                        }
                    },
                }
            },
        }
    }
}

fn is_null_text(m: &str) -> (b: bool)
    ensures
        b == is_json_null(m@),
{
    str_eq(m, "null")
}

fn field_error(prefix: &str, key: &str, suffix: &str) -> (e: String)
    ensures
        e@ == prefix@ + key@ + suffix@,
{
    let mut e = prefix.to_owned();
    e.append(key);
    e.append(suffix);
    e
}

fn opt_string_field_exec(text: &str, key: &str) -> (r: Result<Option<String>, String>)
    ensures
        (match r {
            Ok(o) => Ok(o.deep_view()),
            Err(e) => Err(e@),
        }) == opt_string_field(text@, key@),
{
    match json_member(text, key) {
        None => Ok(None),
        Some(m) => if is_null_text(m.as_str()) {
            Ok(None)
        } else {
            match json_string(m.as_str()) {
                Some(v) => Ok(Some(v)),
                None => Err(field_error("invalid type for `", key, "`: expected a string")),
            }
        },
    }
}

fn required_field_exec(text: &str, key: &str) -> (r: Result<String, String>)
    ensures
        (match r {
            Ok(v) => Ok(v@),
            Err(e) => Err(e@),
        }) == required_field(text@, key@),
{
    match opt_string_field_exec(text, key) {
        Err(e) => Err(e),
        Ok(None) => Err(field_error("missing field `", key, "`")),
        Ok(Some(v)) => Ok(v),
    }
}

fn list_field_exec(text: &str, key: &str) -> (r: Result<Vec<String>, String>)
    ensures
        (match r {
            Ok(v) => Ok(strings_view(v@)),
            Err(e) => Err(e@),
        }) == list_field(text@, key@),
{
    let m = match json_member(text, key) {
        None => {
            let v: Vec<String> = Vec::new();
            assert(strings_view(v@) =~= Seq::<Seq<char>>::empty());
            return Ok(v);
        },
        Some(m) => m,
    };
    if is_null_text(m.as_str()) {
        let v: Vec<String> = Vec::new();
        assert(strings_view(v@) =~= Seq::<Seq<char>>::empty());
        return Ok(v);
    }
    let items = match json_items(m.as_str()) {
        None => {
            return Err(field_error("invalid type for `", key, "`: expected a sequence"));
        },
        Some(items) => items,
    };
    let ghost all = items.deep_view();
    let mut out: Vec<String> = Vec::new();
    let mut i: usize = 0;
    assert(all.take(0) =~= Seq::<Seq<char>>::empty());
    assert(strings_view(out@) =~= Seq::<Seq<char>>::empty());
    while i < items.len()
        invariant
            i <= items@.len(),
            all == items.deep_view(),
            all.len() == items@.len(),
            json_member_of(text@, key@) == Some(m@),
            !is_json_null(m@),
            json_items_of(m@) == Some(all),
            decoded_strings(all.take(i as int)) == Some(strings_view(out@)),
        decreases items.len() - i,
    {
        assert(all[i as int] == items@[i as int]@);
        assert(all.take(i + 1).drop_last() =~= all.take(i as int));
        match json_string(items[i].as_str()) {
            Some(v) => {
                let ghost before = out@;
                out.push(v);
                assert(strings_view(out@) =~= strings_view(before).push(out@[out@.len() - 1]@));
            },
            None => {
                assert(decoded_strings(all.take(i + 1)) is None);
                proof { lemma_decoded_strings_stays_none(all, i as int + 1); }
                assert(all.take(all.len() as int) =~= all);
                return Err(field_error("invalid type in `", key, "`: expected a string"));
            },
        }
        i += 1;
    }
    assert(all.take(all.len() as int) =~= all);
    Ok(out)
}

proof fn lemma_decoded_strings_stays_none(s: Seq<Seq<char>>, k: int)
    requires
        0 <= k <= s.len(),
        decoded_strings(s.take(k)) is None,
    ensures
        decoded_strings(s) is None,
    decreases s.len() - k,
{
    if k < s.len() {
        assert(s.take(k + 1).drop_last() =~= s.take(k));
        lemma_decoded_strings_stays_none(s, k + 1);
    } else {
        assert(s.take(k) =~= s);
    }
}

proof fn lemma_decoded_entries_stays_none(s: Seq<(Seq<char>, Seq<char>)>, k: int)
    requires
        0 <= k <= s.len(),
        decoded_entries(s.take(k)) is None,
    ensures
        decoded_entries(s) is None,
    decreases s.len() - k,
{
    if k < s.len() {
        assert(s.take(k + 1).drop_last() =~= s.take(k));
        lemma_decoded_entries_stays_none(s, k + 1);
    } else {
        assert(s.take(k) =~= s);
    }
}

fn map_field_exec(text: &str, key: &str) -> (r: Result<Option<StringMap>, String>)
    ensures
        (match r {
            Ok(Some(m)) => Ok(Some(m@)),
            Ok(None) => Ok(None),
            Err(e) => Err(e@),
        }) == map_field(text@, key@),
{
    let m = match json_member(text, key) {
        None => {
            return Ok(None);
        },
        Some(m) => m,
    };
    if is_null_text(m.as_str()) {
        return Ok(None);
    }
    let es = match json_entries(m.as_str()) {
        None => {
            return Err(field_error("invalid type for `", key, "`: expected a map"));
        },
        Some(es) => es,
    };
    let ghost all = es.deep_view();
    let ghost mut decoded: Seq<(Seq<char>, Seq<char>)> = Seq::empty();
    let mut out = StringMap::new();
    let mut i: usize = 0;
    assert(all.take(0) =~= Seq::<(Seq<char>, Seq<char>)>::empty());
    while i < es.len()
        invariant
            i <= es@.len(),
            all == es.deep_view(),
            all.len() == es@.len(),
            json_member_of(text@, key@) == Some(m@),
            !is_json_null(m@),
            json_entries_of(m@) == Some(all),
            decoded_entries(all.take(i as int)) == Some(decoded),
            out@ == upsert_all(decoded),
        decreases es.len() - i,
    {
        assert(all[i as int] == (es@[i as int].0@, es@[i as int].1@));
        assert(all.take(i + 1).drop_last() =~= all.take(i as int));
        match json_string(es[i].1.as_str()) {
            Some(v) => {
                let ghost d0 = decoded;
                proof { decoded = decoded.push((es@[i as int].0@, v@)); }
                assert(decoded.drop_last() =~= d0);
                out.insert(es[i].0.clone(), v);
            },
            None => {
                proof { lemma_decoded_entries_stays_none(all, i as int + 1); }
                return Err(field_error("invalid type in `", key, "`: expected a string"));
            },
        }
        i += 1;
    }
    assert(all.take(all.len() as int) =~= all);
    Ok(Some(out))
}

fn remote_config_exec(text: &str, sse: bool) -> (r: Result<MCPServerConfig, String>)
    ensures
        config_result(r) == remote_config(text@, sse),
{
    let url = match required_field_exec(text, "url") {
        Err(e) => {
            return Err(e);
        },
        Ok(u) => u,
    };
    let headers = match map_field_exec(text, "headers") {
        Err(e) => {
            return Err(e);
        },
        Ok(Some(h)) => h,
        Ok(None) => StringMap::new(),
    };
    if sse {
        Ok(MCPServerConfig::Sse { url, headers })
    } else {
        Ok(MCPServerConfig::Http { url, headers })
    }
}

/// Read the server configuration the JSON object `text` describes (see
/// [`config_spec`]).
pub fn config_from_json(text: &str) -> (r: Result<MCPServerConfig, String>)
    ensures
        config_result(r) == config_spec(text@),
{
    if json_entries(text).is_none() {
        return Err("invalid type: expected a map".to_owned());
    }
    let transport = match required_field_exec(text, "transport") {
        Err(e) => {
            return Err(e);
        },
        Ok(t) => t,
    };
    if str_eq(transport.as_str(), "stdio") {
        let command = match required_field_exec(text, "command") {
            Err(e) => {
                return Err(e);
            },
            Ok(c) => c,
        };
        let args = match list_field_exec(text, "args") {
            Err(e) => {
                return Err(e);
            },
            Ok(a) => a,
        };
        let env = match map_field_exec(text, "env") {
            Err(e) => {
                return Err(e);
            },
            Ok(m) => m,
        };
        let cwd = match opt_string_field_exec(text, "cwd") {
            Err(e) => {
                return Err(e);
            },
            Ok(d) => d,
        };
        let c = MCPServerConfig::Stdio { command, args, env, cwd };
        assert(config_model(c) == (ConfigModel::Stdio {
            command: config_spec(text@)->Ok_0->command,
            args: config_spec(text@)->Ok_0->args,
            env: config_spec(text@)->Ok_0->env,
            cwd: config_spec(text@)->Ok_0->cwd,
        }));
        Ok(c)
    } else if str_eq(transport.as_str(), "http") {
        remote_config_exec(text, false)
    } else if str_eq(transport.as_str(), "sse") {
        remote_config_exec(text, true)
    } else {
        let mut e = "unknown variant `".to_owned();
        e.append(transport.as_str());
        e.append("`, expected one of `stdio`, `http`, `sse`");
        Err(e)
    }
}

fn servers_exec(es: &Vec<(String, String)>) -> (r: Result<Vec<(String, MCPServerConfig)>, String>)
    ensures
        entries_result(r) == servers_spec(es.deep_view()),
{
    let ghost all = es.deep_view();
    let mut out: Vec<(String, MCPServerConfig)> = Vec::new();
    let mut i: usize = 0;
    assert(all.take(0) =~= Seq::<(Seq<char>, Seq<char>)>::empty());
    assert(entry_models(out@) =~= Seq::<(Seq<char>, ConfigModel)>::empty());
    while i < es.len()
        invariant
            i <= es@.len(),
            all == es.deep_view(),
            all.len() == es@.len(),
            servers_spec(all.take(i as int)) == Ok::<Seq<(Seq<char>, ConfigModel)>, Seq<char>>(entry_models(out@)),
        decreases es.len() - i,
    {
        assert(all[i as int] == (es@[i as int].0@, es@[i as int].1@));
        assert(all.take(i + 1).drop_last() =~= all.take(i as int));
        match config_from_json(es[i].1.as_str()) {
            Ok(c) => {
                let ghost before = out@;
                out.push((es[i].0.clone(), c));
                assert(entry_models(out@) =~= entry_models(before).push((es@[i as int].0@, config_model(out@[out@.len() - 1].1))));
            },
            Err(e) => {
                let mut msg = "server '".to_owned();
                msg.append(es[i].0.as_str());
                msg.append("': ");
                msg.append(e.as_str());
                proof { lemma_servers_error_stays(all, i as int + 1, msg@); }
                return Err(msg);
            },
        }
        i += 1;
    }
    assert(all.take(all.len() as int) =~= all);
    Ok(out)
}

proof fn lemma_servers_error_stays(s: Seq<(Seq<char>, Seq<char>)>, k: int, e: Seq<char>)
    requires
        0 <= k <= s.len(),
        servers_spec(s.take(k)) == Err::<Seq<(Seq<char>, ConfigModel)>, Seq<char>>(e),
    ensures
        servers_spec(s) == Err::<Seq<(Seq<char>, ConfigModel)>, Seq<char>>(e),
    decreases s.len() - k,
{
    if k < s.len() {
        assert(s.take(k + 1).drop_last() =~= s.take(k));
        lemma_servers_error_stays(s, k + 1, e);
    } else {
        assert(s.take(k) =~= s);
    }
}

/// Parse a pasted server-config JSON blob (see [`pasted_json_spec`]):
/// either the wrapper `{"mcpServers": {"name": {...}}}`, adding every
/// entry, or a single bare object with an explicit `"name"` next to the
/// usual config fields.
pub fn parse_pasted_json(raw: &str) -> (r: Result<Vec<(String, MCPServerConfig)>, String>)
    ensures
        entries_result(r) == pasted_json_spec(raw@),
{
    let t = trimmed(raw);
    let tv = chars_of(t.as_str());
    if tv.len() == 0 {
        return Err("empty input".to_owned());
    }
    match json_error(t.as_str()) {
        Some(e) => {
            let mut msg = "invalid JSON: ".to_owned();
            msg.append(e.as_str());
            return Err(msg);
        },
        None => {},
    }
    let servers = match json_member(t.as_str(), "mcpServers") {
        Some(m) => json_entries(m.as_str()),
        None => None,
    };
    match servers {
        Some(es) => {
            if es.len() == 0 {
                return Err("\"mcpServers\" object is empty".to_owned());
            }
            servers_exec(&es)
        },
        None => {
            let name = match json_member(t.as_str(), "name") {
                Some(m) => json_string(m.as_str()),
                None => None,
            };
            match name {
                None => Err("expected a top-level \"mcpServers\" object, or a \"name\" field".to_owned()),
                Some(n) => match config_from_json(t.as_str()) {
                    Err(e) => {
                        let mut msg = "invalid server config: ".to_owned();
                        msg.append(e.as_str());
                        Err(msg)
                    },
                    Ok(c) => {
                        let mut out: Vec<(String, MCPServerConfig)> = Vec::new();
                        out.push((n, c));
                        assert(entry_models(out@) =~= seq![(out@[0].0@, config_model(out@[0].1))]);
                        Ok(out)
                    },
                },
            }
        },
    }
}

// ─────────────────────────── quick add ───────────────────────────

pub open spec fn looks_like_json(t: Seq<char>) -> bool {
    t.len() > 0 && t[0] == '{'
}

/// `r` is what `/mcp add <raw>`'s quick syntax gives: for JSON, what
/// [`pasted_json_spec`] says; otherwise one stdio server from
/// `<name> <command> [args...]`, or the error for too few words.
pub open spec fn quick_add_outcome(raw: Seq<char>, r: Result<Vec<(String, MCPServerConfig)>, String>) -> bool {
    if looks_like_json(trim(raw)) {
        entries_result(r) == pasted_json_spec(trim(raw))
    } else {
        let ws = words(trim(raw));
        &&& ws.len() == 0 ==> r is Err && r->Err_0@
            == "expected \"<name> <command> [args...]\" or a JSON config"@
        &&& ws.len() == 1 ==> r is Err && r->Err_0@
            == "missing command \u{2014} expected \"<name> <command> [args...]\""@
        &&& ws.len() >= 2 ==> (r matches Ok(es) && es@.len() == 1
            && is_stdio_entry(es@[0], ws[0], ws[1], ws.skip(2)))
    }
}

/// Parse `/mcp add <args>`'s quick inline syntax: the JSON shapes
/// [`parse_pasted_json`] accepts (when `args` looks like JSON), or
/// `<name> <command> [args...]` for a fast stdio add — by far the most
/// common case (`npx -y @scope/pkg`, no env/headers).
pub fn parse_quick_add(raw: &str) -> (r: Result<Vec<(String, MCPServerConfig)>, String>)
    ensures
        quick_add_outcome(raw@, r),
{
    let t = trimmed(raw);
    let tc = chars_of(t.as_str());
    if tc.len() > 0 && tc[0] == '{' {
        return parse_pasted_json(t.as_str());
    }
    let parts = split_words(t.as_str());
    if parts.len() == 0 {
        return Err("expected \"<name> <command> [args...]\" or a JSON config".to_owned());
    }
    if parts.len() == 1 {
        return Err("missing command \u{2014} expected \"<name> <command> [args...]\"".to_owned());
    }
    let name = parts[0].clone();
    let command = parts[1].clone();
    let mut args: Vec<String> = Vec::new();
    let mut i: usize = 2;
    while i < parts.len()
        invariant
            2 <= i <= parts.len(),
            strings_view(parts@) == words(t@),
            strings_view(args@) == words(t@).subrange(2, i as int),
        decreases parts.len() - i,
    {
        let ghost before = args@;
        args.push(parts[i].clone());
        proof {
            assert(strings_view(args@) == strings_view(before).push(parts@[i as int]@));
            assert(words(t@).subrange(2, i + 1) == words(t@).subrange(2, i as int).push(words(t@)[i as int]));
        }
        i += 1;
    }
    assert(words(t@).subrange(2, parts.len() as int) == words(t@).skip(2));
    let mut entries: Vec<(String, MCPServerConfig)> = Vec::new();
    entries.push((name, MCPServerConfig::Stdio { command, args, env: None, cwd: None }));
    Ok(entries)
}

/// The chat note when `/mcp add` starts adding `count` servers.
pub fn adding_servers_note(count: usize) -> (s: String)
    ensures
        s@ == "Adding "@ + decimal(count as nat) + " MCP server(s)..."@,
{
    let mut s = "Adding ".to_owned();
    push_decimal(&mut s, count as u64);
    s.append(" MCP server(s)...");
    s
}

/// The chat note when `/mcp add <raw>` is not a quick config (`reason`
/// says why); the method-choice dialog opens after it.
pub fn quick_add_failed_note(raw: &str, reason: &str) -> (s: String)
    ensures
        s@ == "Couldn't parse \"/mcp add "@ + raw@ + "\" as a quick config ("@ + reason@
            + ") \u{2014} pick a method:"@,
{
    let mut s = "Couldn't parse \"/mcp add ".to_owned();
    s.append(raw);
    s.append("\" as a quick config (");
    s.append(reason);
    s.append(") \u{2014} pick a method:");
    s
}

/// What `/mcp add <raw>` does: add the servers of a quick config, with
/// the note that announces them, or report why it is none and open the
/// method-choice dialog.
#[derive(Debug)]
pub enum McpAddCommand {
    Add { entries: Vec<(String, MCPServerConfig)>, note: String },
    ChooseMethod { note: String },
}

/// Decide `/mcp add <raw>`: the quick config's servers and the
/// "Adding N MCP server(s)..." note when [`parse_quick_add`] reads one,
/// else the note naming its error, before the method-choice dialog.
pub fn mcp_add_command(raw: &str) -> (c: McpAddCommand)
    ensures
        match c {
            McpAddCommand::Add { entries, note } => quick_add_outcome(raw@, Ok(entries))
                && note@ == "Adding "@ + decimal(entries@.len()) + " MCP server(s)..."@,
            McpAddCommand::ChooseMethod { note } => exists|reason: String|
                #[trigger] quick_add_outcome(raw@, Err(reason))
                    && note@ == "Couldn't parse \"/mcp add "@ + raw@ + "\" as a quick config ("@
                    + reason@ + ") \u{2014} pick a method:"@,
        },
{
    match parse_quick_add(raw) {
        Ok(entries) => {
            let note = adding_servers_note(entries.len());
            McpAddCommand::Add { entries, note }
        },
        Err(reason) => {
            let note = quick_add_failed_note(raw, reason.as_str());
            McpAddCommand::ChooseMethod { note }
        },
    }
}

/// The note after `/mcp ttl` set the MCP cache lifetime to `ttl` seconds.
pub fn cache_ttl_note(ttl: u64) -> (s: String)
    ensures
        s@ == "MCP cache TTL set to "@ + decimal(ttl as nat) + "s"@,
{
    let mut s = "MCP cache TTL set to ".to_owned();
    push_decimal(&mut s, ttl);
    s.append("s");
    s
}

} // verus!
