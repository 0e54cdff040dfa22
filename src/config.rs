use vstd::prelude::*;

use crate::text::same_text;

verus! {

/// The setting stored under `key` in a list of entries, where a later entry
/// overrides an earlier one.
pub open spec fn lookup_entries(entries: Seq<(String, String)>, key: Seq<char>) -> Option<
    Seq<char>,
>
    decreases entries.len(),
{
    if entries.len() == 0 {
        None
    } else if entries.last().0@ == key {
        Some(entries.last().1@)
    } else {
        lookup_entries(entries.drop_last(), key)
    }
}

/// A flat map from setting names to setting values. It is kept as a list of
/// entries: the standard hash map accepts `String` keys, but its specification
/// gives nothing for them (`String` has no key model), so no lookup in it
/// could be proved.
pub struct ProviderConfig {
    entries: Vec<(String, String)>,
}

impl ProviderConfig {
    /// The value stored under `key`, if any.
    pub closed spec fn setting(&self, key: Seq<char>) -> Option<Seq<char>> {
        lookup_entries(self.entries@, key)
    }

    pub fn new() -> (r: ProviderConfig)
        ensures
            forall|k: Seq<char>| r.setting(k) is None,
    {
        ProviderConfig { entries: Vec::new() }
    }

    /// Stores `value` under `key`, replacing what was stored there.
    pub fn insert(&mut self, key: String, value: String)
        ensures
            final(self).setting(key@) == Some(value@),
            forall|k: Seq<char>| k != key@ ==> final(self).setting(k) == old(self).setting(k),
    {
        let ghost before = self.entries@;
        self.entries.push((key, value));
        assert(self.entries@.drop_last() == before);
    }

    /// The value stored under `key`, if any.
    pub fn get(&self, key: &str) -> (r: Option<&String>)
        ensures
            r matches Some(v) ==> self.setting(key@) == Some(v@),
            r is None ==> self.setting(key@) is None,
    {
        let mut i = self.entries.len();
        assert(self.entries@.take(i as int) == self.entries@);
        while i > 0
            invariant
                i <= self.entries.len(),
                lookup_entries(self.entries@, key@) == lookup_entries(
                    self.entries@.take(i as int),
                    key@,
                ),
            decreases i,
        {
            let ghost prefix = self.entries@.take(i as int);
            assert(prefix.drop_last() == self.entries@.take(i - 1));
            assert(prefix.last() == self.entries@[i - 1]);
            if same_text(self.entries[i - 1].0.as_str(), key) {
                return Some(&self.entries[i - 1].1);
            }
            i = i - 1;
        }
        None
    }
}

} // verus!
