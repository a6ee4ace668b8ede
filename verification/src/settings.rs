//! The settings snapshot the engine reads at submit time: model, token and
//! temperature parameters, and the list of named API keys with the selected
//! one. The engine treats a `Settings` value as immutable; loading and saving
//! it is the surrounding application's business.

use vstd::prelude::*;

verus! {

/// The upstream chat-completion vendor; each has its own request shape.
#[derive(Clone, Copy, Debug, PartialEq, Eq, Structural)]
pub enum Provider {
    OpenAI,
    Anthropic,
}

/// The display name of a provider.
pub open spec fn provider_name(p: Provider) -> Seq<char> {
    match p {
        Provider::OpenAI => "OpenAI"@,
        Provider::Anthropic => "Anthropic"@,
    }
}

impl Provider {
    /// The provider's display name.
    pub fn to_string(&self) -> (r: String)
        ensures
            r@ == provider_name(*self),
    {
        match *self {
            Provider::OpenAI => String::from_str("OpenAI"),
            Provider::Anthropic => String::from_str("Anthropic"),
        }
    }
}

/// One named API key, bound to the provider it authenticates with.
#[derive(Clone, Debug)]
pub struct APIKey {
    pub name: String,
    pub key: String,
    pub provider: Provider,
}

/// The settings snapshot consumed at submit time. The temperature is kept in
/// tenths (7 stands for 0.7) so that the engine needs no floating point; the
/// request body renders it with one decimal digit.
#[derive(Clone, Debug)]
pub struct Settings {
    pub temperature_tenths: u32,
    pub max_tokens: u32,
    pub model: String,
    pub api_key: Option<usize>,
    pub api_keys: Vec<APIKey>,
}

/// The key the settings select, if the selection index is present and in
/// range.
pub open spec fn spec_selected_key(s: Settings) -> Option<APIKey> {
    match s.api_key {
        Some(i) => {
            if i < s.api_keys@.len() {
                Some(s.api_keys@[i as int])
            } else {
                None
            }
        },
        None => None,
    }
}

/// Whether some key in the list carries the given name.
pub open spec fn has_key_named(s: Settings, name: Seq<char>) -> bool {
    exists|i: int| 0 <= i < s.api_keys@.len() && s.api_keys@[i].name@ == name
}

impl Settings {
    /// The selected API key, or `None` when no key is selected or the
    /// selection index is out of range.
    pub fn selected_key(&self) -> (r: Option<&APIKey>)
        ensures
            match r {
                Some(k) => spec_selected_key(*self) == Some(*k),
                None => spec_selected_key(*self) is None,
            },
    {
        match self.api_key {
            Some(i) => {
                if i < self.api_keys.len() {
                    Some(&self.api_keys[i])
                } else {
                    None
                }
            },
            None => None,
        }
    }

    /// Adds a key to the list unless one with the same name already exists;
    /// reports whether the key was added.
    pub fn add_api_key(&mut self, k: APIKey) -> (added: bool)
        ensures
            added == !has_key_named(*old(self), k.name@),
            added ==> final(self).api_keys@ == old(self).api_keys@.push(k),
            !added ==> final(self).api_keys@ == old(self).api_keys@,
            final(self).temperature_tenths == old(self).temperature_tenths,
            final(self).max_tokens == old(self).max_tokens,
            final(self).model == old(self).model,
            final(self).api_key == old(self).api_key,
    {
        let mut i: usize = 0;
        while i < self.api_keys.len()
            invariant
                i <= self.api_keys@.len(),
                forall|j: int| 0 <= j < i ==> self.api_keys@[j].name@ != k.name@,
            decreases self.api_keys@.len() - i,
        {
            if self.api_keys[i].name == k.name {
                return false;
            }
            i = i + 1;
        }
        self.api_keys.push(k);
        true
    }

    /// Removes the first key carrying the given name; reports whether one
    /// was found.
    pub fn remove_api_key(&mut self, name: &String) -> (removed: bool)
        ensures
            removed == has_key_named(*old(self), name@),
            !removed ==> final(self).api_keys@ == old(self).api_keys@,
            removed ==> final(self).api_keys@ == old(self).api_keys@.remove(
                first_key_index(old(self).api_keys@, name@),
            ),
            final(self).temperature_tenths == old(self).temperature_tenths,
            final(self).max_tokens == old(self).max_tokens,
            final(self).model == old(self).model,
            final(self).api_key == old(self).api_key,
    {
        let mut i: usize = 0;
        while i < self.api_keys.len()
            invariant
                *self == *old(self),
                i <= self.api_keys@.len(),
                forall|j: int| 0 <= j < i ==> (#[trigger] self.api_keys@[j]).name@ != name@,
            decreases self.api_keys@.len() - i,
        {
            if self.api_keys[i].name == *name {
                proof {
                    lemma_first_key_index(self.api_keys@, name@, i as int);
                    assert(old(self).api_keys@[i as int].name@ == name@);
                }
                self.api_keys.remove(i);
                return true;
            }
            i = i + 1;
        }
        proof {
            if has_key_named(*old(self), name@) {
                let j = choose|j: int|
                    0 <= j < old(self).api_keys@.len() && old(self).api_keys@[j].name@ == name@;
                assert(self.api_keys@[j].name@ != name@);
            }
        }
        false
    }
}

/// The position of the first key carrying the given name (meaningful only
/// when one exists).
pub open spec fn first_key_index(keys: Seq<APIKey>, name: Seq<char>) -> int
    decreases keys.len(),
{
    if keys.len() == 0 {
        0
    } else if keys.first().name@ == name {
        0
    } else {
        1 + first_key_index(keys.drop_first(), name)
    }
}

proof fn lemma_first_key_index(keys: Seq<APIKey>, name: Seq<char>, i: int)
    requires
        0 <= i < keys.len(),
        keys[i].name@ == name,
        forall|j: int| 0 <= j < i ==> (#[trigger] keys[j]).name@ != name,
    ensures
        first_key_index(keys, name) == i,
    decreases i,
{
    if i > 0 {
        assert(keys.first().name@ != name);
        lemma_first_key_index(keys.drop_first(), name, i - 1);
    }
}

impl Default for Settings {
    /// The settings a fresh installation starts from: temperature 1.0,
    /// 1024 tokens, no model text and no keys.
    fn default() -> (r: Self)
        ensures
            r.temperature_tenths == 10,
            r.max_tokens == 1024,
            r.model@ == Seq::<char>::empty(),
            r.api_key is None,
            r.api_keys@ == Seq::<APIKey>::empty(),
    {
        Settings {
            temperature_tenths: 10,
            max_tokens: 1024,
            model: String::new(),
            api_key: None,
            api_keys: Vec::new(),
        }
    }
}

} // verus!
