//! The part of the user configuration the provider panel reads and edits:
//! the built-in provider's settings and the user-added OpenAI-compatible
//! providers.

use vstd::prelude::*;

verus! {

/// Name of the built-in provider; user entries may not take it.
pub const BUILTIN_PROVIDER_NAME: &'static str = "deepseek";

/// Settings of the built-in provider.
#[derive(Debug, Clone, PartialEq)]
pub struct BuiltinProviderConfig {
    pub model: String,
    pub token: String,
}

/// A user-added OpenAI-compatible provider.
#[derive(Debug, Clone, PartialEq)]
pub struct ProviderEntry {
    pub name: String,
    pub base_url: String,
    pub api_key: Option<String>,
    pub model: String,
}

impl ProviderEntry {
    /// A copy of this entry, field for field.
    pub fn duplicate(&self) -> (e: ProviderEntry)
        ensures
            e == *self,
    {
        let api_key = match &self.api_key {
            Some(k) => Some(k.clone()),
            None => None,
        };
        ProviderEntry {
            name: self.name.clone(),
            base_url: self.base_url.clone(),
            api_key,
            model: self.model.clone(),
        }
    }
}

#[derive(Debug, Clone)]
pub struct Config {
    pub provider: BuiltinProviderConfig,
    pub providers: Vec<ProviderEntry>,
    /// The user entry in use, by name; `None` selects the built-in provider.
    pub active_provider: Option<String>,
}

/// The first entry of `ps` named `name`.
pub open spec fn first_named(ps: Seq<ProviderEntry>, name: Seq<char>) -> Option<int>
    decreases ps.len(),
{
    if ps.len() == 0 {
        None
    } else if ps[0].name@ == name {
        Some(0)
    } else {
        match first_named(ps.drop_first(), name) {
            Some(i) => Some(i + 1),
            None => None,
        }
    }
}

pub proof fn lemma_first_named(ps: Seq<ProviderEntry>, name: Seq<char>)
    ensures
        first_named(ps, name) matches Some(i) ==> 0 <= i < ps.len() && ps[i].name@ == name
            && forall|j: int| 0 <= j < i ==> ps[j].name@ != name,
        first_named(ps, name) is None ==> forall|j: int| 0 <= j < ps.len() ==> ps[j].name@ != name,
    decreases ps.len(),
{
    if ps.len() > 0 && ps[0].name@ != name {
        lemma_first_named(ps.drop_first(), name);
        assert forall|j: int| 1 <= j < ps.len() implies ps.drop_first()[j - 1] == ps[j] by {}
    }
}

/// Index of the entry in use, if the active name names one.
pub open spec fn active_index(c: Config) -> Option<int> {
    match c.active_provider {
        Some(a) => first_named(c.providers@, a@),
        None => None,
    }
}

impl Default for Config {
    fn default() -> (c: Config)
        ensures
            c.provider.model@.len() == 0,
            c.provider.token@.len() == 0,
            c.providers@.len() == 0,
            c.active_provider is None,
    {
        Config {
            provider: BuiltinProviderConfig { model: String::new(), token: String::new() },
            providers: Vec::new(),
            active_provider: None,
        }
    }
}

impl Config {
    /// The user entry in use; `None` when the built-in provider is, including
    /// when the active name matches no entry.
    pub fn active_provider_entry(&self) -> (r: Option<&ProviderEntry>)
        ensures
            match active_index(*self) {
                Some(i) => r == Some(&self.providers@[i]),
                None => r is None,
            },
    {
        let active = match &self.active_provider {
            Some(a) => a,
            None => {
                return None;
            },
        };
        proof {
            lemma_first_named(self.providers@, active@);
        }
        let mut i: usize = 0;
        while i < self.providers.len()
            invariant
                i <= self.providers.len(),
                self.active_provider == Some(*active),
                forall|j: int| 0 <= j < i ==> self.providers@[j].name@ != active@,
            decreases self.providers.len() - i,
        {
            if self.providers[i].name == *active {
                proof {
                    lemma_first_named(self.providers@, active@);
                    if let Some(k) = first_named(self.providers@, active@) {
                        if k < i {
                        } else if k > i {
                            assert(self.providers@[i as int].name@ == active@);
                        }
                    }
                }
                return Some(&self.providers[i]);
            }
            i += 1;
        }
        None
    }
}

} // verus!
