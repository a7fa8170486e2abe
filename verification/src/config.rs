//! The immutable configuration handed to the bus at construction.
//!
//! A [`Config`] is a bag of key/value options, built once and never
//! mutated afterwards. Looking up a missing key yields an absent result
//! rather than an error, so the bus never fails on an unset option.
//! When the same key is supplied more than once, the entry supplied last
//! wins, as with repeated insertion into a map.

use vstd::prelude::*;

verus! {

/// A loosely-typed option value: a boolean, an integer, a string, an
/// explicit null, or a nested structured value that the bus itself never
/// inspects.
#[derive(Debug, Clone)]
pub enum ConfigValue {
    /// An explicitly absent value.
    Null,
    /// A boolean option, as consulted by dispatch decisions.
    Flag(bool),
    /// An integer option.
    Number(i64),
    /// A string option.
    Text(String),
    /// A nested structured value; opaque to the bus.
    Structured(serde_json::Value),
}

/// One key/value pair of a configuration.
#[derive(Debug, Clone)]
pub struct ConfigEntry {
    /// The option's name.
    pub key: String,
    /// The option's value.
    pub value: ConfigValue,
}

/// An immutable mapping from option name to [`ConfigValue`].
pub struct Config {
    entries: Vec<ConfigEntry>,
}

/// The mapping that a sequence of entries denotes: each entry inserted in
/// order, so a later entry for the same key overrides an earlier one.
pub open spec fn options_of(s: Seq<ConfigEntry>) -> Map<Seq<char>, ConfigValue>
    decreases s.len(),
{
    if s.len() == 0 {
        Map::empty()
    } else {
        options_of(s.drop_last()).insert(s.last().key@, s.last().value)
    }
}

/// If `i` is the last position of key `k` in `s`, the denoted mapping
/// takes `k` to the value stored at `i`.
proof fn lemma_options_of_found(s: Seq<ConfigEntry>, k: Seq<char>, i: int)
    requires
        0 <= i < s.len(),
        s[i].key@ == k,
        forall|j: int| i < j < s.len() ==> s[j].key@ != k,
    ensures
        options_of(s).contains_key(k),
        options_of(s)[k] == s[i].value,
    decreases s.len(),
{
    if i < s.len() - 1 {
        lemma_options_of_found(s.drop_last(), k, i);
    }
}

/// A key that no entry of `s` carries is absent from the denoted mapping.
proof fn lemma_options_of_absent(s: Seq<ConfigEntry>, k: Seq<char>)
    requires
        forall|j: int| 0 <= j < s.len() ==> s[j].key@ != k,
    ensures
        !options_of(s).contains_key(k),
    decreases s.len(),
{
    if s.len() > 0 {
        lemma_options_of_absent(s.drop_last(), k);
    }
}

impl Config {
    /// The entries this configuration was built from, in the order they
    /// were supplied.
    pub closed spec fn entry_seq(self) -> Seq<ConfigEntry> {
        self.entries@
    }

    /// The mapping this configuration holds.
    pub open spec fn options(self) -> Map<Seq<char>, ConfigValue> {
        options_of(self.entry_seq())
    }

    /// What a boolean option resolves to: the stored flag when the key is
    /// present and holds one, the caller's default otherwise.
    pub open spec fn spec_flag(self, key: Seq<char>, default: bool) -> bool {
        if self.options().contains_key(key) {
            match self.options()[key] {
                ConfigValue::Flag(b) => b,
                _ => default,
            }
        } else {
            default
        }
    }

    /// Builds a configuration from the supplied entries; a later entry for
    /// the same key overrides an earlier one.
    pub fn new(entries: Vec<ConfigEntry>) -> (c: Config)
        ensures
            c.entry_seq() == entries@,
            c.options() == options_of(entries@),
    {
        Config { entries }
    }

    /// The empty configuration: every lookup misses.
    pub fn empty() -> (c: Config)
        ensures
            c.options() == Map::<Seq<char>, ConfigValue>::empty(),
    {
        Config { entries: Vec::new() }
    }

    /// The entries this configuration was built from, in the order they
    /// were supplied.
    pub fn entries(&self) -> (r: &Vec<ConfigEntry>)
        ensures
            r@ == self.entry_seq(),
    {
        &self.entries
    }

    /// Looks an option up by key. Returns the value supplied last for that
    /// key, or `None` when the key was never supplied.
    pub fn get(&self, key: &str) -> (r: Option<&ConfigValue>)
        ensures
            match r {
                Some(v) => self.options().contains_key(key@) && *v == self.options()[key@],
                None => !self.options().contains_key(key@),
            },
    {
        let wanted: String = key.to_owned();
        let n = self.entries.len();
        let mut i: usize = n;
        while i > 0
            invariant
                i <= n,
                n == self.entries@.len(),
                wanted@ == key@,
                forall|j: int| i <= j < n ==> self.entries@[j].key@ != key@,
            decreases i,
        {
            i = i - 1;
            if self.entries[i].key == wanted {
                proof {
                    lemma_options_of_found(self.entries@, key@, i as int);
                }
                return Some(&self.entries[i].value);
            }
        }
        proof {
            lemma_options_of_absent(self.entries@, key@);
        }
        None
    }

    /// Resolves a boolean option: the stored flag when `key` is present
    /// and holds one, `default` otherwise.
    pub fn flag(&self, key: &str, default: bool) -> (b: bool)
        ensures
            b == self.spec_flag(key@, default),
    {
        match self.get(key) {
            Some(ConfigValue::Flag(x)) => *x,
            _ => default,
        }
    }
}

} // verus!
