//! The records in memory: an ordered sequence in which no site occurs twice.

use vstd::prelude::*;
use crate::entry::{Entry, EntryView};
use crate::error::VaultError;

verus! {

/// The password that a new record gets when none is given.
pub const DEFAULT_PASSWORD: &'static str = "default_password";

/// The username that a new record gets when only a password is assigned.
pub const DEFAULT_USERNAME: &'static str = "default_username";

/// The record at position `i` is the one for `site`.
pub open spec fn holds_at(records: Seq<EntryView>, site: Seq<char>, i: int) -> bool {
    0 <= i < records.len() && records[i].site == site
}

/// Some record is the one for `site`.
pub open spec fn has_site(records: Seq<EntryView>, site: Seq<char>) -> bool {
    exists|i: int| holds_at(records, site, i)
}

/// The position of the record for `site`, where there is one.
pub open spec fn site_index(records: Seq<EntryView>, site: Seq<char>) -> int {
    choose|i: int| holds_at(records, site, i)
}

/// No two records share a site.
pub open spec fn unique_sites(records: Seq<EntryView>) -> bool {
    forall|i: int, j: int|
        #![trigger records[i], records[j]]
        0 <= i < j < records.len() ==> records[i].site != records[j].site
}

/// What every store satisfies: sites are unique and none is empty.
pub open spec fn valid_records(records: Seq<EntryView>) -> bool {
    &&& unique_sites(records)
    &&& forall|i: int| 0 <= i < records.len() ==> (#[trigger] records[i]).site.len() > 0
}

/// The characters of an optional string.
pub open spec fn text_of(text: Option<&str>) -> Option<Seq<char>> {
    match text {
        Some(t) => Some(t@),
        None => None,
    }
}

/// The records after an upsert: the record for `site` gets the new username
/// and, where one is given, the new password; without such a record a new one
/// is appended, with the default password where none is given.
pub open spec fn upserted(
    records: Seq<EntryView>,
    site: Seq<char>,
    username: Seq<char>,
    password: Option<Seq<char>>,
) -> Seq<EntryView> {
    if has_site(records, site) {
        let i = site_index(records, site);
        records.update(
            i,
            EntryView {
                site,
                username,
                password: match password {
                    Some(p) => p,
                    None => records[i].password,
                },
            },
        )
    } else {
        records.push(
            EntryView {
                site,
                username,
                password: match password {
                    Some(p) => p,
                    None => DEFAULT_PASSWORD@,
                },
            },
        )
    }
}

/// The records without the one for `site`.
pub open spec fn removed(records: Seq<EntryView>, site: Seq<char>) -> Seq<EntryView> {
    if has_site(records, site) {
        records.remove(site_index(records, site))
    } else {
        records
    }
}

/// The records after the one for `site` got a new username and password.
pub open spec fn edited(
    records: Seq<EntryView>,
    site: Seq<char>,
    username: Seq<char>,
    password: Seq<char>,
) -> Seq<EntryView> {
    if has_site(records, site) {
        records.update(site_index(records, site), EntryView { site, username, password })
    } else {
        records
    }
}

/// The record for `site`, if there is one.
pub open spec fn found(records: Seq<EntryView>, site: Seq<char>) -> Option<EntryView> {
    if has_site(records, site) {
        Some(records[site_index(records, site)])
    } else {
        None
    }
}

/// The records after `site` got the password: an existing record keeps its
/// username, a new one is appended with the default username.
pub open spec fn password_assigned(
    records: Seq<EntryView>,
    site: Seq<char>,
    password: Seq<char>,
) -> Seq<EntryView> {
    if has_site(records, site) {
        let i = site_index(records, site);
        records.update(i, EntryView { site, username: records[i].username, password })
    } else {
        records.push(EntryView { site, username: DEFAULT_USERNAME@, password })
    }
}

/// With unique sites, the record for a site stands at one position only.
pub proof fn lemma_site_index_unique(records: Seq<EntryView>, site: Seq<char>, i: int)
    requires
        unique_sites(records),
        holds_at(records, site, i),
    ensures
        has_site(records, site),
        site_index(records, site) == i,
{
    let j = site_index(records, site);
    assert(holds_at(records, site, j));
    if i < j {
        assert(records[i].site != records[j].site);
    } else if j < i {
        assert(records[j].site != records[i].site);
    }
}

/// Which of its two branches an upsert took.
#[derive(Clone, Copy, Debug, PartialEq, Eq, Structural)]
pub enum Upsert {
    /// No record had the site; one was appended.
    Added,
    /// The record for the site was overwritten in place.
    Updated,
}

/// The records of one vault, in the order in which they were added.
pub struct RecordStore {
    entries: Vec<Entry>,
}

impl View for RecordStore {
    type V = Seq<EntryView>;

    closed spec fn view(&self) -> Seq<EntryView> {
        self.entries.deep_view()
    }
}

/// The position of the record for `site` in `entries`, if there is one.
fn position(entries: &Vec<Entry>, site: &str) -> (at: Option<usize>)
    ensures
        match at {
            Some(i) => holds_at(entries.deep_view(), site@, i as int),
            None => !has_site(entries.deep_view(), site@),
        },
{
    let wanted = site.to_owned();
    let mut i: usize = 0;
    while i < entries.len()
        invariant
            0 <= i <= entries.len(),
            wanted@ == site@,
            forall|k: int| 0 <= k < i ==> !holds_at(entries.deep_view(), site@, k),
        decreases entries.len() - i,
    {
        if entries[i].site == wanted {
            return Some(i);
        }
        i += 1;
    }
    None
}

/// Whether no two of `entries` share a site and no site is empty.
fn check_entries(entries: &Vec<Entry>) -> (valid: bool)
    ensures
        valid == valid_records(entries.deep_view()),
{
    let ghost records = entries.deep_view();
    let mut j: usize = 0;
    while j < entries.len()
        invariant
            0 <= j <= entries.len(),
            records == entries.deep_view(),
            forall|a: int, b: int|
                #![trigger records[a], records[b]]
                0 <= a < b < j ==> records[a].site != records[b].site,
            forall|a: int| 0 <= a < j ==> (#[trigger] records[a]).site.len() > 0,
        decreases entries.len() - j,
    {
        if entries[j].site.as_str().is_empty() {
            assert(records[j as int].site.len() == 0);
            return false;
        }
        let mut i: usize = 0;
        while i < j
            invariant
                0 <= i <= j < entries.len(),
                records == entries.deep_view(),
                forall|a: int| 0 <= a < i ==> (#[trigger] records[a]).site != records[j as int].site,
            decreases j - i,
        {
            if entries[i].site == entries[j].site {
                assert(records[i as int].site == records[j as int].site);
                return false;
            }
            i += 1;
        }
        j += 1;
    }
    true
}

impl RecordStore {
    /// Holds of every store at all times.
    #[verifier::type_invariant]
    pub open spec fn well_formed(self) -> bool {
        valid_records(self@)
    }

    /// A store without records.
    pub fn new() -> (store: Self)
        ensures
            store@ == Seq::<EntryView>::empty(),
    {
        RecordStore { entries: Vec::new() }
    }

    /// A store that holds `entries` in their order. They are accepted exactly
    /// when no two share a site and no site is empty.
    pub fn from_entries(entries: Vec<Entry>) -> (made: Result<Self, VaultError>)
        ensures
            match made {
                Ok(store) => valid_records(entries.deep_view()) && store@ == entries.deep_view(),
                Err(e) => e == VaultError::InvalidArgument && !valid_records(entries.deep_view()),
            },
    {
        if check_entries(&entries) {
            Ok(RecordStore { entries })
        } else {
            Err(VaultError::InvalidArgument)
        }
    }

    /// The records in their order.
    pub fn list(&self) -> (entries: &Vec<Entry>)
        ensures
            entries.deep_view() == self@,
            valid_records(self@),
    {
        proof {
            use_type_invariant(self);
        }
        &self.entries
    }

    /// The number of records.
    pub fn len(&self) -> (n: usize)
        ensures
            n == self@.len(),
    {
        self.entries.len()
    }

    /// Gives the record for `site` the username and, where one is given, the
    /// password; without such a record, appends one. An empty site is refused.
    pub fn upsert(&mut self, site: &str, username: &str, password: Option<&str>) -> (done: Result<
        Upsert,
        VaultError,
    >)
        ensures
            valid_records(final(self)@),
            match done {
                Ok(branch) => {
                    &&& site@.len() > 0
                    &&& final(self)@ == upserted(old(self)@, site@, username@, text_of(password))
                    &&& branch == Upsert::Updated <==> has_site(old(self)@, site@)
                    &&& final(self)@.len() == if branch == Upsert::Updated {
                        old(self)@.len()
                    } else {
                        old(self)@.len() + 1
                    }
                },
                Err(e) => {
                    &&& e == VaultError::InvalidArgument
                    &&& site@.len() == 0
                    &&& final(self)@ == old(self)@
                },
            },
    {
        proof {
            use_type_invariant(&*self);
        }
        if site.is_empty() {
            return Err(VaultError::InvalidArgument);
        }
        let mut entries: Vec<Entry> = Vec::new();
        std::mem::swap(&mut entries, &mut self.entries);
        let ghost before = entries.deep_view();
        let branch = match position(&entries, site) {
            Some(i) => {
                proof {
                    lemma_site_index_unique(before, site@, i as int);
                }
                let password = match password {
                    Some(p) => p.to_owned(),
                    None => entries[i].password.clone(),
                };
                entries.set(i, Entry { site: site.to_owned(), username: username.to_owned(), password });
                Upsert::Updated
            },
            None => {
                let password = match password {
                    Some(p) => p.to_owned(),
                    None => DEFAULT_PASSWORD.to_owned(),
                };
                entries.push(Entry { site: site.to_owned(), username: username.to_owned(), password });
                proof {
                    lemma_push_keeps_valid(before, entries.deep_view()[before.len() as int]);
                }
                Upsert::Added
            },
        };
        assert(entries.deep_view() =~= upserted(before, site@, username@, text_of(password)));
        self.entries = entries;
        Ok(branch)
    }

    /// Deletes the record for `site`. Without such a record nothing changes.
    pub fn remove(&mut self, site: &str) -> (done: Result<(), VaultError>)
        ensures
            valid_records(final(self)@),
            final(self)@ == removed(old(self)@, site@),
            !has_site(final(self)@, site@),
            match done {
                Ok(_) => has_site(old(self)@, site@) && final(self)@.len() + 1 == old(self)@.len(),
                Err(e) => e == VaultError::NotFound && !has_site(old(self)@, site@),
            },
    {
        proof {
            use_type_invariant(&*self);
            lemma_remove_is_idempotent(self@, site@);
        }
        let mut entries: Vec<Entry> = Vec::new();
        std::mem::swap(&mut entries, &mut self.entries);
        let ghost before = entries.deep_view();
        let done = match position(&entries, site) {
            Some(i) => {
                proof {
                    lemma_site_index_unique(before, site@, i as int);
                    lemma_remove_keeps_valid(before, i as int);
                }
                entries.remove(i);
                assert(entries.deep_view() =~= before.remove(i as int));
                Ok(())
            },
            None => Err(VaultError::NotFound),
        };
        self.entries = entries;
        done
    }

    /// Overwrites username and password of the record for `site`. Without such
    /// a record nothing changes.
    pub fn edit(&mut self, site: &str, username: &str, password: &str) -> (done: Result<
        (),
        VaultError,
    >)
        ensures
            valid_records(final(self)@),
            final(self)@ == edited(old(self)@, site@, username@, password@),
            match done {
                Ok(_) => has_site(old(self)@, site@),
                Err(e) => e == VaultError::NotFound && !has_site(old(self)@, site@),
            },
    {
        proof {
            use_type_invariant(&*self);
        }
        let mut entries: Vec<Entry> = Vec::new();
        std::mem::swap(&mut entries, &mut self.entries);
        let ghost before = entries.deep_view();
        let done = match position(&entries, site) {
            Some(i) => {
                proof {
                    lemma_site_index_unique(before, site@, i as int);
                }
                entries.set(
                    i,
                    Entry {
                        site: site.to_owned(),
                        username: username.to_owned(),
                        password: password.to_owned(),
                    },
                );
                assert(entries.deep_view() =~= edited(before, site@, username@, password@));
                Ok(())
            },
            None => Err(VaultError::NotFound),
        };
        self.entries = entries;
        done
    }

    /// The record for `site`.
    pub fn find(&self, site: &str) -> (hit: Result<&Entry, VaultError>)
        ensures
            match hit {
                Ok(entry) => found(self@, site@) == Some(entry@),
                Err(e) => e == VaultError::NotFound && found(self@, site@) is None,
            },
    {
        proof {
            use_type_invariant(self);
        }
        match position(&self.entries, site) {
            Some(i) => {
                proof {
                    lemma_site_index_unique(self@, site@, i as int);
                }
                Ok(&self.entries[i])
            },
            None => Err(VaultError::NotFound),
        }
    }

    /// Gives the record for `site` the password and leaves its username;
    /// without such a record, appends one with the default username. An empty
    /// site is refused.
    pub fn assign_password(&mut self, site: &str, password: &str) -> (done: Result<
        Upsert,
        VaultError,
    >)
        ensures
            valid_records(final(self)@),
            match done {
                Ok(branch) => {
                    &&& site@.len() > 0
                    &&& final(self)@ == password_assigned(old(self)@, site@, password@)
                    &&& branch == Upsert::Updated <==> has_site(old(self)@, site@)
                },
                Err(e) => {
                    &&& e == VaultError::InvalidArgument
                    &&& site@.len() == 0
                    &&& final(self)@ == old(self)@
                },
            },
    {
        proof {
            use_type_invariant(&*self);
        }
        if site.is_empty() {
            return Err(VaultError::InvalidArgument);
        }
        let mut entries: Vec<Entry> = Vec::new();
        std::mem::swap(&mut entries, &mut self.entries);
        let ghost before = entries.deep_view();
        let branch = match position(&entries, site) {
            Some(i) => {
                proof {
                    lemma_site_index_unique(before, site@, i as int);
                }
                let username = entries[i].username.clone();
                entries.set(i, Entry { site: site.to_owned(), username, password: password.to_owned() });
                Upsert::Updated
            },
            None => {
                entries.push(
                    Entry {
                        site: site.to_owned(),
                        username: DEFAULT_USERNAME.to_owned(),
                        password: password.to_owned(),
                    },
                );
                proof {
                    lemma_push_keeps_valid(before, entries.deep_view()[before.len() as int]);
                }
                Upsert::Added
            },
        };
        assert(entries.deep_view() =~= password_assigned(before, site@, password@));
        self.entries = entries;
        Ok(branch)
    }
}

/// Taking one record out keeps the records valid.
pub proof fn lemma_remove_keeps_valid(records: Seq<EntryView>, i: int)
    requires
        valid_records(records),
        0 <= i < records.len(),
    ensures
        valid_records(records.remove(i)),
{
    let after = records.remove(i);
    assert forall|a: int, b: int| 0 <= a < b < after.len() implies after[a].site != after[b].site by {
        let a0 = if a < i { a } else { a + 1 };
        let b0 = if b < i { b } else { b + 1 };
        assert(records[a0].site != records[b0].site);
    }
    assert forall|a: int| 0 <= a < after.len() implies (#[trigger] after[a]).site.len() > 0 by {
        let a0 = if a < i { a } else { a + 1 };
        assert(records[a0].site.len() > 0);
    }
}

/// An upsert keeps the sites unique. On a site that is already there it keeps
/// the number of records; on a new site it adds one record.
pub proof fn lemma_upsert_keeps_unique(
    records: Seq<EntryView>,
    site: Seq<char>,
    username: Seq<char>,
    password: Option<Seq<char>>,
)
    requires
        unique_sites(records),
    ensures
        unique_sites(upserted(records, site, username, password)),
        has_site(upserted(records, site, username, password), site),
        has_site(records, site) ==> upserted(records, site, username, password).len()
            == records.len(),
        !has_site(records, site) ==> upserted(records, site, username, password).len()
            == records.len() + 1,
{
    let after = upserted(records, site, username, password);
    if has_site(records, site) {
        let k = site_index(records, site);
        assert(holds_at(records, site, k));
        assert(holds_at(after, site, k));
        assert forall|i: int, j: int| 0 <= i < j < after.len() implies after[i].site
            != after[j].site by {
            assert(records[i].site != records[j].site);
        }
    } else {
        assert(holds_at(after, site, records.len() as int));
        assert forall|i: int, j: int| 0 <= i < j < after.len() implies after[i].site
            != after[j].site by {
            if j == records.len() {
                assert(!holds_at(records, site, i));
            } else {
                assert(records[i].site != records[j].site);
            }
        }
    }
}

/// After an upsert with a password, the record for the site holds exactly
/// what was given.
pub proof fn lemma_upsert_then_find(
    records: Seq<EntryView>,
    site: Seq<char>,
    username: Seq<char>,
    password: Seq<char>,
)
    requires
        unique_sites(records),
    ensures
        found(upserted(records, site, username, Some(password)), site) == Some(
            EntryView { site, username, password },
        ),
{
    let after = upserted(records, site, username, Some(password));
    lemma_upsert_keeps_unique(records, site, username, Some(password));
    let k = if has_site(records, site) {
        site_index(records, site)
    } else {
        records.len() as int
    };
    if has_site(records, site) {
        assert(holds_at(records, site, k));
    }
    assert(holds_at(after, site, k));
    lemma_site_index_unique(after, site, k);
}

/// After a record was removed, its site is gone: removing it once more finds
/// nothing and leaves the records as they are.
pub proof fn lemma_remove_is_idempotent(records: Seq<EntryView>, site: Seq<char>)
    requires
        unique_sites(records),
    ensures
        !has_site(removed(records, site), site),
        removed(removed(records, site), site) == removed(records, site),
{
    let after = removed(records, site);
    if has_site(records, site) {
        let i = site_index(records, site);
        assert(holds_at(records, site, i));
        assert forall|k: int| !holds_at(after, site, k) by {
            if holds_at(after, site, k) {
                let k0 = if k < i { k } else { k + 1 };
                assert(records[k0].site == site);
                if k0 < i {
                    assert(records[k0].site != records[i].site);
                } else {
                    assert(records[i].site != records[k0].site);
                }
            }
        }
    }
}

/// Appending a record with a new, non-empty site keeps the records valid.
pub proof fn lemma_push_keeps_valid(records: Seq<EntryView>, entry: EntryView)
    requires
        valid_records(records),
        !has_site(records, entry.site),
        entry.site.len() > 0,
    ensures
        valid_records(records.push(entry)),
{
    let after = records.push(entry);
    assert forall|i: int, j: int| 0 <= i < j < after.len() implies after[i].site != after[j].site by {
        if j == records.len() {
            assert(!holds_at(records, entry.site, i));
        } else {
            assert(records[i].site != records[j].site);
        }
    }
}

} // verus!
