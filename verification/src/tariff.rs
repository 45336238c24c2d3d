//! The tariff table: which delay is configured for which country.
//!
//! Country codes are compared in upper case. A code is brought to upper case
//! when it is entered and when it is looked up, so that `us`, `Us` and `US` are
//! one entry.

use std::time::Duration;
use vstd::hash_map::StringHashMap;
use vstd::prelude::*;

verus! {

/// The upper-case form of a string, as `str::to_uppercase` of the standard
/// library gives it.
pub uninterp spec fn uppercase(s: Seq<char>) -> Seq<char>;

/// Calls `str::to_uppercase`. The standard library defines the result by the
/// Unicode upper-case mapping of each character; the contract only gives it
/// the name [`uppercase`], which says that equal strings have equal results.
#[verifier::external_body]
fn to_uppercase(s: &str) -> (r: String)
    ensures
        r@ == uppercase(s@),
{
    s.to_uppercase()
}

/// The delay that `table` holds under `key`, if it holds one.
pub open spec fn delay_in(table: Map<Seq<char>, Duration>, key: Seq<char>) -> Option<Duration> {
    if table.contains_key(key) {
        Some(table[key])
    } else {
        None
    }
}

/// A table from country codes in upper case to delays.
pub struct TariffTable {
    entries: StringHashMap<Duration>,
}

impl View for TariffTable {
    type V = Map<Seq<char>, Duration>;

    closed spec fn view(&self) -> Map<Seq<char>, Duration> {
        self.entries@
    }
}

impl TariffTable {
    /// The empty table.
    pub fn new() -> (r: Self)
        ensures
            r@ == Map::<Seq<char>, Duration>::empty(),
    {
        TariffTable { entries: StringHashMap::new() }
    }

    /// The table with `delay` under `key`, in place of what it held there.
    /// `key` is taken as it is.
    pub fn insert_key(self, key: String, delay: Duration) -> (r: Self)
        ensures
            r@ == self@.insert(key@, delay),
    {
        let mut entries = self.entries;
        entries.insert(key, delay);
        TariffTable { entries }
    }

    /// The table with `delay` for the country `code`, in place of what it held
    /// for that country. `code` may be in any case.
    pub fn insert(self, code: &str, delay: Duration) -> (r: Self)
        ensures
            r@ == self@.insert(uppercase(code@), delay),
    {
        self.insert_key(to_uppercase(code), delay)
    }

    /// The delay under `key`, taken as it is.
    pub fn lookup_key(&self, key: &str) -> (r: Option<Duration>)
        ensures
            r == delay_in(self@, key@),
    {
        match self.entries.get(key) {
            Some(delay) => Some(*delay),
            None => None,
        }
    }

    /// The delay for the country `code`, which may be in any case.
    pub fn lookup(&self, code: &str) -> (r: Option<Duration>)
        ensures
            r == delay_in(self@, uppercase(code@)),
    {
        let key = to_uppercase(code);
        self.lookup_key(key.as_str())
    }
}

} // verus!
