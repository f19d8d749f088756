//! Keys of the MCP management screen (server list and details) and of the
//! `/mcp auth` picker. A key moves the selection, opens or closes the
//! details, or names the slow operation to start (toggle, reconnect,
//! remove, OAuth) with the status line to show meanwhile; running the
//! operation against the MCP manager and reporting back is the app's.

use vstd::prelude::*;
use crate::app::list::KeyCode;
use crate::mcp::MCPServerConfig;

verus! {

/// One configured server as the panel lists it.
#[derive(Debug, Clone)]
pub struct ServerRow {
    pub name: String,
    pub enabled: bool,
    pub status: String,
    /// The server waits for an OAuth login.
    pub needs_auth: bool,
}

/// The MCP panel: its server list, the selected row, the server whose
/// details are open and their scroll, and its own status line.
#[derive(Debug)]
pub struct McpPanel {
    pub active: bool,
    /// The panel is the `/mcp auth` picker: only servers that need a login
    /// are listed.
    pub auth_mode: bool,
    pub servers: Vec<ServerRow>,
    pub selected: usize,
    pub details_server: Option<String>,
    pub scroll_offset: usize,
    pub status_message: String,
}

/// What a key on the panel asks the app to do.
#[derive(Debug, Clone, PartialEq, Eq)]
pub enum McpPanelAction {
    Nothing,
    /// Leave the panel for the chat.
    Close,
    /// Enable or disable the server, off the event loop.
    Toggle { name: String, was_enabled: bool },
    /// Reconnect the server, off the event loop.
    Reconnect { name: String },
    /// Remove the server, then hand the result to [`McpPanel::removed`].
    Remove { name: String },
    /// Start the OAuth login of the server; see [`McpPanel::authorization_start`].
    Authorize { name: String },
}

/// `Up` or `k`.
pub open spec fn is_up(code: KeyCode) -> bool {
    code == KeyCode::Up || code == KeyCode::Char('k')
}

/// `Down` or `j`.
pub open spec fn is_down(code: KeyCode) -> bool {
    code == KeyCode::Down || code == KeyCode::Char('j')
}

/// `Esc` or `q`.
pub open spec fn is_leave(code: KeyCode) -> bool {
    code == KeyCode::Esc || code == KeyCode::Char('q')
}

/// One less, stopping at 0.
pub open spec fn dec(n: usize) -> usize {
    if n > 0 { (n - 1) as usize } else { 0 }
}

/// The last row of a list of `n`, 0 for an empty one.
pub open spec fn last_row(n: nat) -> usize {
    if n > 0 { (n - 1) as usize } else { 0 }
}

/// The positions of the servers that need a login, in list order: the
/// rows the `/mcp auth` picker shows.
pub open spec fn auth_rows(servers: Seq<ServerRow>) -> Seq<usize>
    decreases servers.len(),
{
    if servers.len() == 0 {
        Seq::empty()
    } else {
        let rest = auth_rows(servers.drop_last());
        if servers.last().needs_auth {
            rest.push((servers.len() - 1) as usize)
        } else {
            rest
        }
    }
}

/// `f` is `o` with only the selection changed, to `selected`.
pub open spec fn selection_moved(o: McpPanel, f: McpPanel, selected: usize) -> bool {
    f == McpPanel { selected, ..o }
}

/// `f` is `o` with only the status line changed, to `status`.
pub open spec fn status_set(o: McpPanel, f: McpPanel, status: Seq<char>) -> bool {
    f.status_message@ == status && f == McpPanel { status_message: f.status_message, ..o }
}

/// What a key does on the server list (not the auth picker): `f` is the
/// panel after it and `a` what the app is to start.
pub open spec fn list_key_done(o: McpPanel, f: McpPanel, code: KeyCode, a: McpPanelAction) -> bool {
    let details = o.details_server is Some;
    let n = o.servers@.len();
    let has_row = (o.selected as int) < n;
    let row = o.servers@[o.selected as int];
    if is_leave(code) {
        a == McpPanelAction::Close && f == McpPanel { active: false, details_server: None, ..o }
    } else if is_up(code) && !details {
        a == McpPanelAction::Nothing && selection_moved(o, f, dec(o.selected))
    } else if is_down(code) && !details {
        a == McpPanelAction::Nothing && selection_moved(
            o,
            f,
            if o.selected < last_row(n) { (o.selected + 1) as usize } else { last_row(n) },
        )
    } else if code == KeyCode::Enter {
        a == McpPanelAction::Nothing && if details {
            f == McpPanel { details_server: None, ..o }
        } else if has_row {
            f == McpPanel { details_server: Some(row.name), scroll_offset: 0, ..o }
        } else {
            f == o
        }
    } else if code == KeyCode::Char(' ') && !details && has_row {
        a == (McpPanelAction::Toggle { name: row.name, was_enabled: row.enabled }) && status_set(
            o,
            f,
            (if row.enabled { "Disabling "@ } else { "Enabling "@ }) + row.name@ + "..."@,
        )
    } else if code == KeyCode::Char('r') && !details && has_row {
        a == (McpPanelAction::Reconnect { name: row.name }) && status_set(o, f, "Reconnecting "@ + row.name@ + "..."@)
    } else if code == KeyCode::Char('d') && !details && has_row {
        a == (McpPanelAction::Remove { name: row.name }) && f == o
    } else if is_up(code) && details {
        a == McpPanelAction::Nothing && f == McpPanel { scroll_offset: dec(o.scroll_offset), ..o }
    } else if is_down(code) && details {
        a == McpPanelAction::Nothing && f == McpPanel { scroll_offset: (o.scroll_offset + 1) as usize, ..o }
    } else {
        a == McpPanelAction::Nothing && f == o
    }
}

/// What a key does on the `/mcp auth` picker, whose rows are
/// `auth_rows(o.servers)`.
pub open spec fn auth_key_done(o: McpPanel, f: McpPanel, code: KeyCode, a: McpPanelAction) -> bool {
    let rows = auth_rows(o.servers@);
    if is_leave(code) {
        a == McpPanelAction::Close && f == McpPanel { active: false, auth_mode: false, ..o }
    } else if is_up(code) {
        a == McpPanelAction::Nothing && selection_moved(o, f, dec(o.selected))
    } else if is_down(code) {
        a == McpPanelAction::Nothing && selection_moved(
            o,
            f,
            if o.selected + 1 < last_row(rows.len()) { (o.selected + 1) as usize } else { last_row(rows.len()) },
        )
    } else if code == KeyCode::Enter && (o.selected as int) < rows.len() {
        a == (McpPanelAction::Authorize { name: o.servers@[rows[o.selected as int] as int].name }) && f == o
    } else {
        a == McpPanelAction::Nothing && f == o
    }
}

proof fn lemma_auth_rows(servers: Seq<ServerRow>)
    ensures
        forall|i: int| 0 <= i < auth_rows(servers).len() ==> (#[trigger] auth_rows(servers)[i] as int) < servers.len(),
        auth_rows(servers).len() <= servers.len(),
    decreases servers.len(),
{
    if servers.len() > 0 {
        lemma_auth_rows(servers.drop_last());
    }
}

impl McpPanel {
    /// The rows the `/mcp auth` picker shows: the positions of the servers
    /// that need a login.
    pub fn visible_indices(&self) -> (rows: Vec<usize>)
        ensures
            rows@ == auth_rows(self.servers@),
    {
        let mut rows: Vec<usize> = Vec::new();
        let mut i: usize = 0;
        assert(self.servers@.take(0) =~= Seq::<ServerRow>::empty());
        while i < self.servers.len()
            invariant
                i <= self.servers@.len(),
                rows@ == auth_rows(self.servers@.take(i as int)),
            decreases self.servers.len() - i,
        {
            assert(self.servers@.take(i + 1).drop_last() =~= self.servers@.take(i as int));
            if self.servers[i].needs_auth {
                rows.push(i);
            }
            i += 1;
        }
        assert(self.servers@.take(self.servers@.len() as int) =~= self.servers@);
        rows
    }

    /// Handle `code` on the panel: the server list, or the auth picker when
    /// `auth_mode` is on.
    pub fn key(&mut self, code: KeyCode) -> (a: McpPanelAction)
        requires
            old(self).selected < usize::MAX,
            old(self).scroll_offset < usize::MAX,
        ensures
            !old(self).auth_mode ==> list_key_done(*old(self), *final(self), code, a),
            old(self).auth_mode ==> auth_key_done(*old(self), *final(self), code, a),
    {
        if self.auth_mode {
            self.auth_key(code)
        } else {
            self.list_key(code)
        }
    }

    fn list_key(&mut self, code: KeyCode) -> (a: McpPanelAction)
        requires
            old(self).scroll_offset < usize::MAX,
        ensures
            list_key_done(*old(self), *final(self), code, a),
    {
        let details = self.details_server.is_some();
        let n = self.servers.len();
        let has_row = self.selected < n;
        let up = code == KeyCode::Up || code == KeyCode::Char('k');
        let down = code == KeyCode::Down || code == KeyCode::Char('j');
        if code == KeyCode::Esc || code == KeyCode::Char('q') {
            self.active = false;
            self.details_server = None;
            McpPanelAction::Close
        } else if up && !details {
            self.selected = if self.selected > 0 { self.selected - 1 } else { 0 };
            McpPanelAction::Nothing
        } else if down && !details {
            let max = if n > 0 { n - 1 } else { 0 };
            self.selected = if self.selected < max { self.selected + 1 } else { max };
            McpPanelAction::Nothing
        } else if code == KeyCode::Enter {
            if details {
                self.details_server = None;
            } else if has_row {
                self.details_server = Some(self.servers[self.selected].name.clone());
                self.scroll_offset = 0;
            }
            McpPanelAction::Nothing
        } else if code == KeyCode::Char(' ') && !details && has_row {
            let name = self.servers[self.selected].name.clone();
            let was_enabled = self.servers[self.selected].enabled;
            let mut s = if was_enabled { "Disabling ".to_owned() } else { "Enabling ".to_owned() };
            s.append(name.as_str());
            s.append("...");
            self.status_message = s;
            McpPanelAction::Toggle { name, was_enabled }
        } else if code == KeyCode::Char('r') && !details && has_row {
            let name = self.servers[self.selected].name.clone();
            let mut s = "Reconnecting ".to_owned();
            s.append(name.as_str());
            s.append("...");
            self.status_message = s;
            McpPanelAction::Reconnect { name }
        } else if code == KeyCode::Char('d') && !details && has_row {
            McpPanelAction::Remove { name: self.servers[self.selected].name.clone() }
        } else if up && details {
            self.scroll_offset = if self.scroll_offset > 0 { self.scroll_offset - 1 } else { 0 };
            McpPanelAction::Nothing
        } else if down && details {
            self.scroll_offset = self.scroll_offset + 1;
            McpPanelAction::Nothing
        } else {
            McpPanelAction::Nothing
        }
    }

    fn auth_key(&mut self, code: KeyCode) -> (a: McpPanelAction)
        requires
            old(self).selected < usize::MAX,
        ensures
            auth_key_done(*old(self), *final(self), code, a),
    {
        let rows = self.visible_indices();
        proof { lemma_auth_rows(self.servers@); }
        match code {
            KeyCode::Esc | KeyCode::Char('q') => {
                self.active = false;
                self.auth_mode = false;
                McpPanelAction::Close
            },
            KeyCode::Up | KeyCode::Char('k') => {
                self.selected = if self.selected > 0 { self.selected - 1 } else { 0 };
                McpPanelAction::Nothing
            },
            KeyCode::Down | KeyCode::Char('j') => {
                let max = if rows.len() > 0 { rows.len() - 1 } else { 0 };
                self.selected = if self.selected + 1 < max { self.selected + 1 } else { max };
                McpPanelAction::Nothing
            },
            KeyCode::Enter => {
                if self.selected < rows.len() {
                    let idx = rows[self.selected];
                    McpPanelAction::Authorize { name: self.servers[idx].name.clone() }
                } else {
                    McpPanelAction::Nothing
                }
            },
            _ => McpPanelAction::Nothing,
        }
    }

    /// Open the panel as the `/mcp auth` picker, on its first row with no
    /// details open.
    pub fn open_auth(&mut self)
        ensures
            *final(self) == (McpPanel {
                active: true,
                auth_mode: true,
                details_server: None,
                selected: 0,
                scroll_offset: 0,
                ..*old(self)
            }),
    {
        self.active = true;
        self.auth_mode = true;
        self.details_server = None;
        self.selected = 0;
        self.scroll_offset = 0;
    }

    /// After the app removed server `name` (`error` when it could not):
    /// the status line says how it went, the list is the manager's fresh
    /// one and the selection is pulled back onto it.
    pub fn removed(&mut self, name: &str, error: Option<String>, servers: Vec<ServerRow>)
        ensures
            error matches Some(e) ==> final(self).status_message@ == "Remove failed: "@ + e@,
            error is None ==> final(self).status_message@ == name@ + " removed"@,
            final(self).servers@ == servers@,
            final(self).selected == if old(self).selected < last_row(servers@.len()) {
                old(self).selected
            } else {
                last_row(servers@.len())
            },
            final(self).active == old(self).active,
            final(self).auth_mode == old(self).auth_mode,
            final(self).details_server == old(self).details_server,
            final(self).scroll_offset == old(self).scroll_offset,
    {
        match error {
            Some(e) => {
                let mut s = "Remove failed: ".to_owned();
                s.append(e.as_str());
                self.status_message = s;
            },
            None => {
                let mut s = name.to_owned();
                s.append(" removed");
                self.status_message = s;
            },
        }
        let n = servers.len();
        self.servers = servers;
        let max = if n > 0 { n - 1 } else { 0 };
        if self.selected > max {
            self.selected = max;
        }
    }

    /// Start the login of server `name`, whose configuration the manager
    /// still holds for OAuth (`config`; `None` when it no longer needs a
    /// login). Returns the base URL to run the flow against; the status
    /// line says what happens.
    pub fn authorization_start(&mut self, name: &str, config: Option<&MCPServerConfig>) -> (url: Option<String>)
        ensures
            config is None ==> url is None && final(self).status_message@ == name@
                + " no longer requires authorization"@,
            config matches Some(c) && c is Stdio ==> url is None
                && final(self).status_message@ == "stdio servers don't use OAuth"@,
            config matches Some(MCPServerConfig::Http { url: u, .. }) ==> url == Some(*u)
                && final(self).status_message@ == "Opening browser for "@ + name@ + "..."@,
            config matches Some(MCPServerConfig::Sse { url: u, .. }) ==> url == Some(*u)
                && final(self).status_message@ == "Opening browser for "@ + name@ + "..."@,
            *final(self) == (McpPanel { status_message: final(self).status_message, ..*old(self) }),
    {
        let base = match config {
            None => {
                let mut s = name.to_owned();
                s.append(" no longer requires authorization");
                self.status_message = s;
                return None;
            },
            Some(MCPServerConfig::Stdio { .. }) => {
                self.status_message = "stdio servers don't use OAuth".to_owned();
                return None;
            },
            Some(MCPServerConfig::Http { url, .. }) => url.clone(),
            Some(MCPServerConfig::Sse { url, .. }) => url.clone(),
        };
        let mut s = "Opening browser for ".to_owned();
        s.append(name);
        s.append("...");
        self.status_message = s;
        Some(base)
    }
}

/// The message reported when a toggle of server `name` finished
/// (`error` when it failed).
pub fn toggle_done_message(name: &str, was_enabled: bool, error: Option<String>) -> (m: String)
    ensures
        error matches Some(e) ==> m@ == "Toggle failed: "@ + e@,
        error is None ==> m@ == name@ + (if was_enabled { " disabled"@ } else { " enabled"@ }),
{
    match error {
        Some(e) => {
            let mut m = "Toggle failed: ".to_owned();
            m.append(e.as_str());
            m
        },
        None => {
            let mut m = name.to_owned();
            if was_enabled {
                m.append(" disabled");
            } else {
                m.append(" enabled");
            }
            m
        },
    }
}

/// The message reported when a reconnect of server `name` finished
/// (`error` when it failed).
pub fn reconnect_done_message(name: &str, error: Option<String>) -> (m: String)
    ensures
        error matches Some(e) ==> m@ == "Reconnect failed: "@ + e@,
        error is None ==> m@ == name@ + " reconnected"@,
{
    match error {
        Some(e) => {
            let mut m = "Reconnect failed: ".to_owned();
            m.append(e.as_str());
            m
        },
        None => {
            let mut m = name.to_owned();
            m.append(" reconnected");
            m
        },
    }
}

} // verus!
