//! The icon cache: what the icon lookup has answered for each application
//! identifier, kept so that no identifier is looked up twice.

use vstd::prelude::*;

verus! {

/// What a cache holds: for each application identifier that was looked up,
/// the path of its icon, or that it has none.
pub type Icons = Map<Seq<char>, Option<Seq<char>>>;

/// The map that a list of entries stands for: of two entries with one key
/// the later one counts.
pub open spec fn entries_map(entries: Seq<(Seq<char>, Option<Seq<char>>)>) -> Icons
    decreases entries.len(),
{
    if entries.len() == 0 {
        Map::empty()
    } else {
        entries_map(entries.drop_last()).insert(entries.last().0, entries.last().1)
    }
}

/// What is kept of a lookup's outcome: the icon's path if one was found;
/// nothing if none was found or the lookup failed.
pub open spec fn settled<E>(outcome: Result<Option<String>, E>) -> Option<Seq<char>> {
    match outcome {
        Ok(icon) => icon.deep_view(),
        Err(_) => None,
    }
}

/// The cache after `value` was offered for `key`: an entry that is there
/// stays as it is, and only a missing one is written.
pub open spec fn remembered(cache: Icons, key: Seq<char>, value: Option<Seq<char>>) -> Icons {
    if cache.contains_key(key) {
        cache
    } else {
        cache.insert(key, value)
    }
}

/// What is kept of a lookup's outcome.
pub fn settle<E>(outcome: Result<Option<String>, E>) -> (kept: Option<String>)
    ensures
        kept.deep_view() == settled(outcome),
{
    match outcome {
        Ok(icon) => icon,
        Err(_) => None,
    }
}

/// Remembers, for each application identifier that was asked for, the path
/// of its icon, or that it has none. The entries are held in the order in
/// which they were written.
#[derive(Debug)]
pub struct IconCache {
    entries: Vec<(String, Option<String>)>,
}

impl View for IconCache {
    type V = Icons;

    closed spec fn view(&self) -> Icons {
        entries_map(self.entries.deep_view())
    }
}

impl IconCache {
    /// A cache that has seen no identifier.
    pub fn new() -> (cache: IconCache)
        ensures
            cache@ == Icons::empty(),
    {
        IconCache { entries: Vec::new() }
    }

    /// The place of the entry for `key`, if the cache has one.
    fn position(&self, key: &String) -> (found: Option<usize>)
        ensures
            found.is_some() == self@.contains_key(key@),
            found matches Some(i) ==> i < self.entries.len() && self.entries[i as int].1.deep_view()
                == self@[key@],
    {
        let ghost all = self.entries.deep_view();
        let mut i: usize = self.entries.len();
        proof {
            assert(all.take(i as int) =~= all);
        }
        while i > 0
            invariant
                i <= self.entries.len(),
                all == self.entries.deep_view(),
                entries_map(all).contains_key(key@) == entries_map(all.take(i as int)).contains_key(
                    key@,
                ),
                entries_map(all).contains_key(key@) ==> entries_map(all)[key@] == entries_map(
                    all.take(i as int),
                )[key@],
            decreases i,
        {
            i -= 1;
            proof {
                assert(all.take(i + 1).drop_last() =~= all.take(i as int));
            }
            if self.entries[i].0 == *key {
                return Some(i);
            }
        }
        None
    }

    /// Writes an entry, and returns what it holds.
    fn write(&mut self, key: String, value: Option<String>) -> (icon: &Option<String>)
        ensures
            final(self)@ == old(self)@.insert(key@, value.deep_view()),
            icon.deep_view() == value.deep_view(),
    {
        let ghost before = self.entries.deep_view();
        self.entries.push((key, value));
        proof {
            assert(self.entries.deep_view().drop_last() =~= before);
        }
        let last = self.entries.len() - 1;
        &self.entries[last].1
    }

    /// What the cache holds for an application identifier: nothing if the
    /// identifier was never looked up, else the remembered answer.
    pub fn lookup(&self, app_id: &str) -> (found: Option<&Option<String>>)
        ensures
            found.is_some() == self@.contains_key(app_id@),
            found matches Some(icon) ==> icon.deep_view() == self@[app_id@],
    {
        let key = app_id.to_owned();
        match self.position(&key) {
            Some(i) => Some(&self.entries[i].1),
            None => None,
        }
    }

    /// Takes the outcome of a lookup for `app_id` into the cache, unless the
    /// cache has an answer for it already, and returns what the cache then
    /// holds for `app_id`. A failed lookup is remembered as "no icon".
    pub fn record<E>(&mut self, app_id: &str, outcome: Result<Option<String>, E>) -> (icon: &Option<
        String,
    >)
        ensures
            final(self)@ == remembered(old(self)@, app_id@, settled(outcome)),
            icon.deep_view() == final(self)@[app_id@],
    {
        let key = app_id.to_owned();
        match self.position(&key) {
            Some(i) => &self.entries[i].1,
            None => self.write(key, settle(outcome)),
        }
    }

    /// The icon of an application. The first request for an identifier asks
    /// `resolver` and remembers the answer, a failure as "no icon"; every
    /// later request for it is answered from the cache, whatever `resolver`
    /// would say then.
    pub fn get_icon<E, F: Fn(&str) -> Result<Option<String>, E>>(
        &mut self,
        app_id: &str,
        resolver: &F,
    ) -> (icon: &Option<String>)
        requires
            call_requires(*resolver, (app_id,)),
        ensures
            old(self)@.contains_key(app_id@) ==> final(self)@ == old(self)@,
            !old(self)@.contains_key(app_id@) ==> exists|outcome: Result<Option<String>, E>|
                call_ensures(*resolver, (app_id,), outcome) && final(self)@ == old(self)@.insert(
                    app_id@,
                    settled(outcome),
                ),
            final(self)@ == remembered(old(self)@, app_id@, icon.deep_view()),
            icon.deep_view() == final(self)@[app_id@],
    {
        let key = app_id.to_owned();
        match self.position(&key) {
            Some(i) => &self.entries[i].1,
            None => {
                let outcome = resolver(app_id);
                self.write(key, settle(outcome))
            },
        }
    }
}

} // verus!
