//! State and logic for the `/providers` panel and its add-wizard: listing
//! the built-in DeepSeek provider alongside the user-managed
//! OpenAI-compatible entries, and collecting a new entry via the
//! step-by-step wizard or the quick `<name> <base_url> [model] [api_key]`
//! command form.

use vstd::prelude::*;
use crate::app::input::InputState;
use crate::app::mcp_add::input_blank;
use crate::config::{Config, ProviderEntry, BUILTIN_PROVIDER_NAME, active_index};
use crate::text::{trim, trimmed, words, split_words, str_eq, chars_of, string_of};

verus! {

/// Live state of the `/providers` full-screen panel.
#[derive(Debug, Clone)]
pub struct ProvidersViewState {
    pub selected: usize,
    pub status_message: String,
}

impl Default for ProvidersViewState {
    fn default() -> (s: ProvidersViewState)
        ensures
            s.selected == 0,
            s.status_message@.len() == 0,
    {
        ProvidersViewState { selected: 0, status_message: String::new() }
    }
}

impl ProvidersViewState {
    /// `/providers` opens the panel on its first row with no status line.
    pub fn reopen(&mut self)
        ensures
            final(self).selected == 0,
            final(self).status_message@.len() == 0,
    {
        self.selected = 0;
        self.status_message = String::new();
    }
}

/// One row of the panel: the built-in DeepSeek provider first, then every
/// config entry in order.
#[derive(Debug, Clone)]
pub struct ProviderRow {
    pub name: String,
    pub detail: String,
    pub active: bool,
    pub builtin: bool,
}

/// The built-in provider's row detail: its model and whether a token is set.
pub open spec fn builtin_detail(c: Config) -> Seq<char> {
    "built-in DeepSeek web \u{b7} "@ + c.provider.model@ + " \u{b7} "@ + if c.provider.token@.len() == 0 {
        "no token"@
    } else {
        "token set"@
    }
}

/// A user entry's row detail: URL, model and whether a key is set.
pub open spec fn entry_detail(e: ProviderEntry) -> Seq<char> {
    e.base_url@ + " \u{b7} "@ + e.model@ + if e.api_key is Some {
        " \u{b7} key set"@
    } else {
        Seq::empty()
    }
}

/// The panel rows for `c`: the built-in provider, active unless the active
/// name picks a user entry; then each entry, active when it bears the name
/// of the entry in use.
pub open spec fn rows_ok(c: Config, rows: Seq<ProviderRow>) -> bool {
    &&& rows.len() == c.providers@.len() + 1
    &&& rows[0].name@ == BUILTIN_PROVIDER_NAME@
    &&& rows[0].detail@ == builtin_detail(c)
    &&& rows[0].active == (active_index(c) is None)
    &&& rows[0].builtin
    &&& forall|j: int|
        0 <= j < c.providers@.len() ==> {
            let row = #[trigger] rows[j + 1];
            &&& row.name@ == c.providers@[j].name@
            &&& row.detail@ == entry_detail(c.providers@[j])
            &&& row.active == (active_index(c) matches Some(k) && c.providers@[k].name@
                == c.providers@[j].name@)
            &&& !row.builtin
        }
}

pub fn provider_rows(config: &Config) -> (rows: Vec<ProviderRow>)
    ensures
        rows_ok(*config, rows@),
{
    let custom_active = config.active_provider_entry();
    let mut detail = "built-in DeepSeek web \u{b7} ".to_owned();
    detail.append(config.provider.model.as_str());
    detail.append(" \u{b7} ");
    if config.provider.token.as_str().unicode_len() == 0 {
        detail.append("no token");
    } else {
        detail.append("token set");
    }
    let mut rows: Vec<ProviderRow> = Vec::new();
    rows.push(
        ProviderRow {
            name: BUILTIN_PROVIDER_NAME.to_owned(),
            detail,
            active: custom_active.is_none(),
            builtin: true,
        },
    );
    let mut i: usize = 0;
    while i < config.providers.len()
        invariant
            i <= config.providers.len(),
            rows@.len() == i + 1,
            match active_index(*config) {
                Some(k) => custom_active == Some(&config.providers@[k]),
                None => custom_active is None,
            },
            rows@[0].name@ == BUILTIN_PROVIDER_NAME@,
            rows@[0].detail@ == builtin_detail(*config),
            rows@[0].active == (active_index(*config) is None),
            rows@[0].builtin,
            forall|j: int|
                0 <= j < i ==> {
                    let row = #[trigger] rows@[j + 1];
                    &&& row.name@ == config.providers@[j].name@
                    &&& row.detail@ == entry_detail(config.providers@[j])
                    &&& row.active == (active_index(*config) matches Some(k)
                        && config.providers@[k].name@ == config.providers@[j].name@)
                    &&& !row.builtin
                },
        decreases config.providers.len() - i,
    {
        let entry = &config.providers[i];
        let mut d = entry.base_url.clone();
        d.append(" \u{b7} ");
        d.append(entry.model.as_str());
        if entry.api_key.is_some() {
            d.append(" \u{b7} key set");
        }
        let active = match custom_active {
            Some(a) => a.name == entry.name,
            None => false,
        };
        let ghost before = rows@;
        rows.push(ProviderRow { name: entry.name.clone(), detail: d, active, builtin: false });
        proof {
            assert forall|j: int| 0 <= j <= i implies ({
                let row = #[trigger] rows@[j + 1];
                &&& row.name@ == config.providers@[j].name@
                &&& row.detail@ == entry_detail(config.providers@[j])
                &&& row.active == (active_index(*config) matches Some(k)
                    && config.providers@[k].name@ == config.providers@[j].name@)
                &&& !row.builtin
            }) by {
                if j < i {
                    assert(rows@[j + 1] == before[j + 1]);
                }
            }
        }
        i += 1;
    }
    rows
}

#[derive(Debug, Clone, Copy, PartialEq, Eq, Structural)]
pub enum ProviderWizardStep {
    Name,
    BaseUrl,
    ApiKey,
    Model,
    Confirm,
}

pub open spec fn step_number(s: ProviderWizardStep) -> usize {
    match s {
        ProviderWizardStep::Name => 1,
        ProviderWizardStep::BaseUrl => 2,
        ProviderWizardStep::ApiKey => 3,
        ProviderWizardStep::Model => 4,
        ProviderWizardStep::Confirm => 5,
    }
}

pub open spec fn step_label(s: ProviderWizardStep) -> Seq<char> {
    match s {
        ProviderWizardStep::Name => "Name"@,
        ProviderWizardStep::BaseUrl => "Base URL (usually ends with /v1)"@,
        ProviderWizardStep::ApiKey => "API key (blank = none)"@,
        ProviderWizardStep::Model => "Model id"@,
        ProviderWizardStep::Confirm => "Confirm"@,
    }
}

impl ProviderWizardStep {
    pub fn number(self) -> (n: usize)
        ensures
            n == step_number(self),
    {
        match self {
            ProviderWizardStep::Name => 1,
            ProviderWizardStep::BaseUrl => 2,
            ProviderWizardStep::ApiKey => 3,
            ProviderWizardStep::Model => 4,
            ProviderWizardStep::Confirm => 5,
        }
    }

    pub fn label(self) -> (s: &'static str)
        ensures
            s@ == step_label(self),
    {
        match self {
            ProviderWizardStep::Name => "Name",
            ProviderWizardStep::BaseUrl => "Base URL (usually ends with /v1)",
            ProviderWizardStep::ApiKey => "API key (blank = none)",
            ProviderWizardStep::Model => "Model id",
            ProviderWizardStep::Confirm => "Confirm",
        }
    }
}

/// The wizard numbers its steps one to five, each once.
pub proof fn lemma_step_numbers(a: ProviderWizardStep, b: ProviderWizardStep)
    ensures
        1 <= step_number(a) <= 5,
        step_number(a) == step_number(b) ==> a == b,
{
}

// ─────────────────────────── validation ───────────────────────────

/// Whether a user entry is already called `name`.
pub open spec fn name_taken(ps: Seq<ProviderEntry>, name: Seq<char>) -> bool {
    exists|i: int| 0 <= i < ps.len() && ps[i].name@ == name
}

/// Why `name` cannot name a new entry, if it cannot.
pub open spec fn name_check(name: Seq<char>, ps: Seq<ProviderEntry>) -> Result<(), Seq<char>> {
    if name.len() == 0 {
        Err("name can't be empty"@)
    } else if name == BUILTIN_PROVIDER_NAME@ {
        Err("'"@ + BUILTIN_PROVIDER_NAME@ + "' is the built-in provider"@)
    } else if name_taken(ps, name) {
        Err("'"@ + name + "' already exists"@)
    } else {
        Ok(())
    }
}

pub fn validate_name(name: &str, config: &Config) -> (r: Result<(), String>)
    ensures
        match r {
            Ok(()) => name_check(name@, config.providers@) is Ok,
            Err(e) => name_check(name@, config.providers@) == Err::<(), Seq<char>>(e@),
        },
{
    if name.unicode_len() == 0 {
        return Err("name can't be empty".to_owned());
    }
    if str_eq(name, BUILTIN_PROVIDER_NAME) {
        let mut e = "'".to_owned();
        e.append(BUILTIN_PROVIDER_NAME);
        e.append("' is the built-in provider");
        return Err(e);
    }
    let mut i: usize = 0;
    while i < config.providers.len()
        invariant
            i <= config.providers.len(),
            name@.len() != 0,
            name@ != BUILTIN_PROVIDER_NAME@,
            forall|j: int| 0 <= j < i ==> config.providers@[j].name@ != name@,
        decreases config.providers.len() - i,
    {
        if str_eq(config.providers[i].name.as_str(), name) {
            assert(config.providers@[i as int].name@ == name@);
            assert(name_taken(config.providers@, name@));
            let mut e = "'".to_owned();
            e.append(name);
            e.append("' already exists");
            return Err(e);
        }
        i += 1;
    }
    Ok(())
}

/// What `reqwest::Url::parse` makes of `text`: the scheme of the URL
/// (`Url::scheme`) on success, the text of its `ParseError` otherwise.
pub uninterp spec fn url_scheme_of(text: Seq<char>) -> Result<Seq<char>, Seq<char>>;

/// `reqwest::Url::parse` (the `url` crate's WHATWG parser), reduced to what
/// base-URL validation reads: the parsed URL's scheme, or the `Display` text
/// of the parse error. Both are given the name `url_scheme_of`; the parsing
/// rules behind them are not restated.
#[verifier::external_body]
pub(crate) fn parse_url_scheme(text: &str) -> (r: Result<String, String>)
    ensures
        match r {
            Ok(s) => url_scheme_of(text@) == Ok::<Seq<char>, Seq<char>>(s@),
            Err(e) => url_scheme_of(text@) == Err::<Seq<char>, Seq<char>>(e@),
        },
{
    match reqwest::Url::parse(text) {
        Ok(url) => Ok(url.scheme().to_string()),
        Err(error) => Err(error.to_string()),
    }
}

/// `s` without its trailing `'/'` characters.
pub open spec fn strip_trailing_slashes(s: Seq<char>) -> Seq<char>
    decreases s.len(),
{
    if s.len() > 0 && s.last() == '/' {
        strip_trailing_slashes(s.drop_last())
    } else {
        s
    }
}

/// The base URL `url` once its parse came out as `parsed`: accepted with
/// trailing slashes dropped when the scheme is `http` or `https`.
pub open spec fn checked_base_url(url: Seq<char>, parsed: Result<Seq<char>, Seq<char>>) -> Result<
    Seq<char>,
    Seq<char>,
> {
    match parsed {
        Err(e) => Err("invalid URL: "@ + e),
        Ok(scheme) => if scheme == "http"@ || scheme == "https"@ {
            Ok(strip_trailing_slashes(url))
        } else {
            Err("unsupported URL scheme: "@ + scheme)
        },
    }
}

/// Base-URL validation of `url`.
pub open spec fn base_url_spec(url: Seq<char>) -> Result<Seq<char>, Seq<char>> {
    if url.len() == 0 {
        Err("base URL can't be empty"@)
    } else {
        checked_base_url(url, url_scheme_of(url))
    }
}

pub open spec fn result_view(r: Result<String, String>) -> Result<Seq<char>, Seq<char>> {
    match r {
        Ok(s) => Ok(s@),
        Err(e) => Err(e@),
    }
}

/// Accept or reject the base URL `url` given what the URL parser made of it
/// (`parsed`: its scheme, or the parse error's text).
pub fn check_parsed_base_url(url: &str, parsed: Result<String, String>) -> (r: Result<String, String>)
    ensures
        result_view(r) == checked_base_url(url@, result_view(parsed)),
{
    match parsed {
        Err(e) => {
            let mut m = "invalid URL: ".to_owned();
            m.append(e.as_str());
            Err(m)
        },
        Ok(scheme) => {
            if str_eq(scheme.as_str(), "http") || str_eq(scheme.as_str(), "https") {
                let v = chars_of(url);
                let mut end = v.len();
                assert(v@.subrange(0, v.len() as int) == v@);
                while end > 0 && v[end - 1] == '/'
                    invariant
                        end <= v.len(),
                        strip_trailing_slashes(v@) == strip_trailing_slashes(v@.subrange(0, end as int)),
                    decreases end,
                {
                    assert(v@.subrange(0, end as int).drop_last() == v@.subrange(0, end - 1));
                    end -= 1;
                }
                Ok(string_of(&v, 0, end))
            } else {
                let mut m = "unsupported URL scheme: ".to_owned();
                m.append(scheme.as_str());
                Err(m)
            }
        },
    }
}

/// Normalized (trailing-slash-trimmed) base URL, or a human-readable error.
pub fn validate_base_url(url: &str) -> (r: Result<String, String>)
    ensures
        result_view(r) == base_url_spec(url@),
{
    if url.unicode_len() == 0 {
        return Err("base URL can't be empty".to_owned());
    }
    let parsed = parse_url_scheme(url);
    check_parsed_base_url(url, parsed)
}

/// The row of the provider in use: the entry the active name picks (one
/// below it, the built-in row being first), or the built-in row.
pub open spec fn active_row(c: Config) -> int {
    match active_index(c) {
        Some(k) => k + 1,
        None => 0,
    }
}

/// With entry names unique (as adding entries keeps them), the panel marks
/// exactly one row active: the provider in use, falling back to the
/// built-in one when the active name is stale.
pub proof fn lemma_one_active_row(c: Config, rows: Seq<ProviderRow>)
    requires
        rows_ok(c, rows),
        forall|i: int, j: int|
            0 <= i < j < c.providers@.len() ==> c.providers@[i].name@ != c.providers@[j].name@,
    ensures
        0 <= active_row(c) < rows.len(),
        rows[active_row(c)].active,
        forall|j: int| 0 <= j < rows.len() && rows[j].active ==> j == active_row(c),
{
    crate::config::lemma_first_named(c.providers@, match c.active_provider {
        Some(a) => a@,
        None => Seq::empty(),
    });
    if let Some(k) = active_index(c) {
        let row = rows[k + 1];
        assert(row == rows[(k) + 1]);
    }
    assert forall|j: int| 0 <= j < rows.len() && rows[j].active implies j == active_row(c) by {
        if j > 0 {
            let row = rows[(j - 1) + 1];
        }
    }
}

/// An accepted base URL never ends with a slash.
pub proof fn lemma_stripped_url_has_no_trailing_slash(s: Seq<char>)
    ensures
        strip_trailing_slashes(s).len() == 0 || strip_trailing_slashes(s).last() != '/',
        strip_trailing_slashes(s).len() <= s.len(),
        strip_trailing_slashes(s) == s.take(strip_trailing_slashes(s).len() as int),
    decreases s.len(),
{
    if s.len() > 0 && s.last() == '/' {
        lemma_stripped_url_has_no_trailing_slash(s.drop_last());
        let t = strip_trailing_slashes(s.drop_last());
        assert(s.drop_last().take(t.len() as int) == s.take(t.len() as int));
    } else {
        assert(s.take(s.len() as int) == s);
    }
}

/// The `/providers add` wizard: four text steps + confirm. All fields are
/// single-line.
#[derive(Debug, Clone)]
pub struct ProviderAddState {
    pub step: ProviderWizardStep,
    pub name: InputState,
    pub base_url: InputState,
    pub api_key: InputState,
    pub model: InputState,
    pub error: Option<String>,
}

/// The entry the wizard's answers describe, or why there is none: name,
/// base URL and model are trimmed and must be valid; a blank key means none.
pub open spec fn wizard_entry_ok(
    name: Seq<char>,
    base_url: Seq<char>,
    api_key: Seq<char>,
    model: Seq<char>,
    ps: Seq<ProviderEntry>,
    r: Result<ProviderEntry, String>,
) -> bool {
    match name_check(trim(name), ps) {
        Err(e) => r is Err && r->Err_0@ == e,
        Ok(()) => match base_url_spec(trim(base_url)) {
            Err(e) => r is Err && r->Err_0@ == e,
            Ok(url) => if trim(model).len() == 0 {
                r is Err && r->Err_0@ == "model can't be empty"@
            } else {
                &&& r is Ok
                &&& r->Ok_0.name@ == trim(name)
                &&& r->Ok_0.base_url@ == url
                &&& r->Ok_0.model@ == trim(model)
                &&& trim(api_key).len() == 0 ==> r->Ok_0.api_key is None
                &&& trim(api_key).len() > 0 ==> (r->Ok_0.api_key matches Some(k) && k@ == trim(
                    api_key,
                ))
            },
        },
    }
}

impl ProviderAddState {
    pub fn new() -> (s: ProviderAddState)
        ensures
            s.step == ProviderWizardStep::Name,
            input_blank(s.name),
            input_blank(s.base_url),
            input_blank(s.api_key),
            input_blank(s.model),
            s.error is None,
    {
        ProviderAddState {
            step: ProviderWizardStep::Name,
            name: InputState::default(),
            base_url: InputState::default(),
            api_key: InputState::default(),
            model: InputState::default(),
            error: None,
        }
    }

    /// Build the final entry from the collected fields. Steps validate on
    /// advance, so failures here mean the two validations disagree — kept
    /// fallible rather than assumed-infallible.
    pub fn build_entry(&self, config: &Config) -> (r: Result<ProviderEntry, String>)
        ensures
            wizard_entry_ok(
                self.name.buffer@,
                self.base_url.buffer@,
                self.api_key.buffer@,
                self.model.buffer@,
                config.providers@,
                r,
            ),
    {
        let name = trimmed(self.name.buffer.as_str());
        match validate_name(name.as_str(), config) {
            Ok(()) => {},
            Err(e) => {
                return Err(e);
            },
        }
        let url = trimmed(self.base_url.buffer.as_str());
        let base_url = match validate_base_url(url.as_str()) {
            Ok(u) => u,
            Err(e) => {
                return Err(e);
            },
        };
        let model = trimmed(self.model.buffer.as_str());
        if model.as_str().unicode_len() == 0 {
            return Err("model can't be empty".to_owned());
        }
        let key = trimmed(self.api_key.buffer.as_str());
        let api_key = if key.as_str().unicode_len() == 0 { None } else { Some(key) };
        Ok(ProviderEntry { name, base_url, api_key, model })
    }
}

/// The entry the quick form `<name> <base_url> [model] [api_key]` describes,
/// or why there is none. The model defaults to `"default"`.
pub open spec fn quick_add_ok(raw: Seq<char>, ps: Seq<ProviderEntry>, r: Result<ProviderEntry, String>) -> bool {
    let ws = words(raw);
    if ws.len() == 0 {
        r is Err && r->Err_0@ == "expected: <name> <base_url> [model] [api_key]"@
    } else if ws.len() == 1 {
        r is Err && r->Err_0@ == "expected a base URL after the name"@
    } else if ws.len() > 4 {
        r is Err && r->Err_0@ == "too many arguments \u{2014} expected: <name> <base_url> [model] [api_key]"@
    } else {
        match name_check(ws[0], ps) {
            Err(e) => r is Err && r->Err_0@ == e,
            Ok(()) => match base_url_spec(ws[1]) {
                Err(e) => r is Err && r->Err_0@ == e,
                Ok(url) => {
                    &&& r is Ok
                    &&& r->Ok_0.name@ == ws[0]
                    &&& r->Ok_0.base_url@ == url
                    &&& r->Ok_0.model@ == if ws.len() >= 3 {
                        ws[2]
                    } else {
                        "default"@
                    }
                    &&& ws.len() == 4 ==> (r->Ok_0.api_key matches Some(k) && k@ == ws[3])
                    &&& ws.len() < 4 ==> r->Ok_0.api_key is None
                },
            },
        }
    }
}

/// Parse the quick command form: `<name> <base_url> [model] [api_key]`.
/// Model defaults to `"default"` (fine for LM Studio, which serves its
/// loaded model regardless; Ollama needs a real model id — use the wizard
/// or pass it explicitly).
pub fn parse_quick_add(raw: &str, config: &Config) -> (r: Result<ProviderEntry, String>)
    ensures
        quick_add_ok(raw@, config.providers@, r),
{
    let tokens = split_words(raw);
    let ghost ws = words(raw@);
    assert(tokens.len() == ws.len());
    if tokens.len() == 0 {
        return Err("expected: <name> <base_url> [model] [api_key]".to_owned());
    }
    if tokens.len() == 1 {
        return Err("expected a base URL after the name".to_owned());
    }
    if tokens.len() > 4 {
        return Err("too many arguments \u{2014} expected: <name> <base_url> [model] [api_key]".to_owned());
    }
    assert(tokens@[0]@ == ws[0] && tokens@[1]@ == ws[1]);
    match validate_name(tokens[0].as_str(), config) {
        Ok(()) => {},
        Err(e) => {
            return Err(e);
        },
    }
    let base_url = match validate_base_url(tokens[1].as_str()) {
        Ok(u) => u,
        Err(e) => {
            return Err(e);
        },
    };
    let model = if tokens.len() >= 3 {
        assert(tokens@[2]@ == ws[2]);
        tokens[2].clone()
    } else {
        "default".to_owned()
    };
    let api_key = if tokens.len() == 4 {
        assert(tokens@[3]@ == ws[3]);
        Some(tokens[3].clone())
    } else {
        None
    };
    Ok(ProviderEntry { name: tokens[0].clone(), base_url, api_key, model })
}

} // verus!
