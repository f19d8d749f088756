//! Bracketed paste: a whole pasted chunk goes into the text field that has
//! focus, as if typed. Single-line fields (names, URLs, a token, a search
//! query) drop embedded newlines; the multi-line ones (the `/mcp add` JSON
//! box, the wizard's env/header step) keep them. Carriage returns never
//! survive.

use vstd::prelude::*;
use crate::app::keys::{lemma_sanitize_len, sanitize, sanitize_spec};
use crate::app::mcp_add::{McpAddState, WizardStep};
use crate::app::providers::{ProviderAddState, ProviderWizardStep};
use crate::app::search::{SearchFocus, SearchViewState};

verus! {

impl McpAddState {
    /// Paste `text` into the field that has focus.
    pub fn paste(&mut self, text: &str)
        requires
            *old(self) matches McpAddState::PasteJson { input, .. } ==> input@.without_selection().cursor
                + text@.len() < usize::MAX,
            *old(self) matches McpAddState::Wizard(w) ==> {
                &&& w.name@.without_selection().cursor + text@.len() < usize::MAX
                &&& w.primary@.without_selection().cursor + text@.len() < usize::MAX
                &&& w.extra@.without_selection().cursor + text@.len() < usize::MAX
            },
        ensures
            match *old(self) {
                McpAddState::PasteJson { input, error } => (*final(self) matches McpAddState::PasteJson {
                    input: after,
                    error: e,
                } && after@ == input@.insert_text(sanitize_spec(text@, true)) && e == error),
                McpAddState::Wizard(w) => (*final(self) matches McpAddState::Wizard(v) && {
                    &&& v.step == w.step
                    &&& v.transport_selected == w.transport_selected
                    &&& v.transport == w.transport
                    &&& v.error == w.error
                    &&& v.name@ == if w.step == WizardStep::Name {
                        w.name@.insert_text(sanitize_spec(text@, false))
                    } else {
                        w.name@
                    }
                    &&& v.primary@ == if w.step == WizardStep::Primary {
                        w.primary@.insert_text(sanitize_spec(text@, false))
                    } else {
                        w.primary@
                    }
                    &&& v.extra@ == if w.step == WizardStep::Extra {
                        w.extra@.insert_text(sanitize_spec(text@, true))
                    } else {
                        w.extra@
                    }
                }),
                McpAddState::ChooseMethod { .. } => *final(self) == *old(self),
            },
    {
        match self {
            McpAddState::PasteJson { input, .. } => {
                let clean = sanitize(text, true);
                proof { lemma_sanitize_len(text@, true); }
                input.insert_str(clean.as_str());
            },
            McpAddState::Wizard(w) => {
                match w.step {
                    WizardStep::Name => {
                        let clean = sanitize(text, false);
                        proof { lemma_sanitize_len(text@, false); }
                        w.name.insert_str(clean.as_str());
                    },
                    WizardStep::Primary => {
                        let clean = sanitize(text, false);
                        proof { lemma_sanitize_len(text@, false); }
                        w.primary.insert_str(clean.as_str());
                    },
                    WizardStep::Extra => {
                        let clean = sanitize(text, true);
                        proof { lemma_sanitize_len(text@, true); }
                        w.extra.insert_str(clean.as_str());
                    },
                    WizardStep::Transport | WizardStep::Confirm => {},
                }
            },
            McpAddState::ChooseMethod { .. } => {},
        }
    }
}


impl ProviderAddState {
    /// Paste `text` into the field of the current step; every field here is
    /// single-line.
    pub fn paste(&mut self, text: &str)
        requires
            old(self).name@.without_selection().cursor + text@.len() < usize::MAX,
            old(self).base_url@.without_selection().cursor + text@.len() < usize::MAX,
            old(self).api_key@.without_selection().cursor + text@.len() < usize::MAX,
            old(self).model@.without_selection().cursor + text@.len() < usize::MAX,
        ensures
            final(self).step == old(self).step,
            final(self).error == old(self).error,
            final(self).name@ == if old(self).step == ProviderWizardStep::Name {
                old(self).name@.insert_text(sanitize_spec(text@, false))
            } else {
                old(self).name@
            },
            final(self).base_url@ == if old(self).step == ProviderWizardStep::BaseUrl {
                old(self).base_url@.insert_text(sanitize_spec(text@, false))
            } else {
                old(self).base_url@
            },
            final(self).api_key@ == if old(self).step == ProviderWizardStep::ApiKey {
                old(self).api_key@.insert_text(sanitize_spec(text@, false))
            } else {
                old(self).api_key@
            },
            final(self).model@ == if old(self).step == ProviderWizardStep::Model {
                old(self).model@.insert_text(sanitize_spec(text@, false))
            } else {
                old(self).model@
            },
    {
        let clean = sanitize(text, false);
        proof { lemma_sanitize_len(text@, false); }
        match self.step {
            ProviderWizardStep::Name => self.name.insert_str(clean.as_str()),
            ProviderWizardStep::BaseUrl => self.base_url.insert_str(clean.as_str()),
            ProviderWizardStep::ApiKey => self.api_key.insert_str(clean.as_str()),
            ProviderWizardStep::Model => self.model.insert_str(clean.as_str()),
            ProviderWizardStep::Confirm => {},
        }
    }
}

impl SearchViewState {
    /// Paste `text` into the query, when the query has focus.
    pub fn paste(&mut self, text: &str)
        requires
            old(self).query@.without_selection().cursor + text@.len() < usize::MAX,
        ensures
            final(self).query@ == if old(self).focus == SearchFocus::Query {
                old(self).query@.insert_text(sanitize_spec(text@, false))
            } else {
                old(self).query@
            },
            final(self).focus == old(self).focus,
            final(self).sort == old(self).sort,
            final(self).role_filter == old(self).role_filter,
            final(self).unique_sessions == old(self).unique_sessions,
            final(self).matches@ == old(self).matches@,
    {
        if self.focus == SearchFocus::Query {
            let clean = sanitize(text, false);
            proof { lemma_sanitize_len(text@, false); }
            self.query.insert_str(clean.as_str());
        }
    }
}

} // verus!
