//! The password store: passwords keyed by the site they are for and the
//! user name.

use vstd::prelude::*;

use crate::codec::encode_entries;
use crate::error::Error;
use crate::outside::{bincode_decode_entries, bincode_deserialize_entries, bincode_serialize_entries};

verus! {

/// What an entry holds, seen as plain values: ((site, user), password).
pub open spec fn entry_view(e: ((String, String), String)) -> ((Seq<char>, Seq<char>), Seq<char>) {
    ((e.0.0@, e.0.1@), e.1@)
}

/// The entries of a vector, seen as plain values.
pub open spec fn entries_view(v: Seq<((String, String), String)>) -> Seq<((Seq<char>, Seq<char>), Seq<char>)> {
    v.map_values(|e: ((String, String), String)| entry_view(e))
}

/// No (site, user) pair occurs twice.
pub open spec fn keys_unique(s: Seq<((Seq<char>, Seq<char>), Seq<char>)>) -> bool {
    forall|i: int, j: int| 0 <= i < j < s.len() ==> s[i].0 != s[j].0
}

/// The map that inserting the entries one after the other, in order,
/// builds: a later entry for a key replaces an earlier one.
pub open spec fn entries_to_map(s: Seq<((Seq<char>, Seq<char>), Seq<char>)>) -> Map<(Seq<char>, Seq<char>), Seq<char>>
    decreases s.len(),
{
    if s.len() == 0 {
        Map::empty()
    } else {
        entries_to_map(s.drop_last()).insert(s.last().0, s.last().1)
    }
}

/// A key is in the map exactly when some entry has it.
pub proof fn lemma_entries_to_map_dom(s: Seq<((Seq<char>, Seq<char>), Seq<char>)>, k: (Seq<char>, Seq<char>))
    ensures
        entries_to_map(s).dom().contains(k) <==> exists|i: int| 0 <= i < s.len() && s[i].0 == k,
    decreases s.len(),
{
    if s.len() > 0 {
        lemma_entries_to_map_dom(s.drop_last(), k);
        if entries_to_map(s.drop_last()).dom().contains(k) {
            let i = choose|i: int| 0 <= i < s.drop_last().len() && s.drop_last()[i].0 == k;
            assert(s[i].0 == k);
        }
        if exists|i: int| 0 <= i < s.len() && s[i].0 == k {
            let i = choose|i: int| 0 <= i < s.len() && s[i].0 == k;
            if i < s.len() - 1 {
                assert(s.drop_last()[i].0 == k);
            }
        }
    }
}

/// With no key twice, the map gives each entry's key that entry's password.
pub proof fn lemma_entries_to_map_value(s: Seq<((Seq<char>, Seq<char>), Seq<char>)>, i: int)
    requires
        keys_unique(s),
        0 <= i < s.len(),
    ensures
        entries_to_map(s).dom().contains(s[i].0),
        entries_to_map(s)[s[i].0] == s[i].1,
    decreases s.len(),
{
    if i < s.len() - 1 {
        assert(keys_unique(s.drop_last()));
        lemma_entries_to_map_value(s.drop_last(), i);
        assert(s.drop_last()[i] == s[i]);
        assert(s[i].0 != s[s.len() - 1].0);
    }
}

/// Replacing the password of an entry is inserting its key with the new
/// password into the map.
pub proof fn lemma_entries_to_map_update(
    s: Seq<((Seq<char>, Seq<char>), Seq<char>)>,
    i: int,
    v: Seq<char>,
)
    requires
        keys_unique(s),
        0 <= i < s.len(),
    ensures
        entries_to_map(s.update(i, (s[i].0, v))) == entries_to_map(s).insert(s[i].0, v),
    decreases s.len(),
{
    let t = s.update(i, (s[i].0, v));
    if i == s.len() - 1 {
        assert(t.drop_last() =~= s.drop_last());
        assert(entries_to_map(t) =~= entries_to_map(s).insert(s[i].0, v));
    } else {
        assert(keys_unique(s.drop_last()));
        lemma_entries_to_map_update(s.drop_last(), i, v);
        assert(t.drop_last() =~= s.drop_last().update(i, (s[i].0, v)));
        assert(s[i].0 != s.last().0);
        assert(entries_to_map(t) =~= entries_to_map(s).insert(s[i].0, v));
    }
}

/// An in-memory password store and the file it is kept in.
pub struct PassMan {
    dfile: String,
    data: Vec<((String, String), String)>,
}

impl PassMan {
    /// The stored entries, as plain values, in the order they are kept.
    pub closed spec fn entries(&self) -> Seq<((Seq<char>, Seq<char>), Seq<char>)> {
        entries_view(self.data@)
    }

    /// The path of the data file.
    pub closed spec fn file(&self) -> Seq<char> {
        self.dfile@
    }

    #[verifier::type_invariant]
    closed spec fn inv(&self) -> bool {
        keys_unique(entries_view(self.data@))
    }

    /// An empty store kept in the file `filename`.
    pub fn empty(filename: &str) -> (r: PassMan)
        ensures
            r@ == Map::<(Seq<char>, Seq<char>), Seq<char>>::empty(),
            r.entries() == Seq::<((Seq<char>, Seq<char>), Seq<char>)>::empty(),
            r.file() == filename@,
    {
        let r = PassMan { dfile: filename.to_owned(), data: Vec::new() };
        assert(r.entries() =~= Seq::<((Seq<char>, Seq<char>), Seq<char>)>::empty());
        r
    }

    /// A store kept in the file `filename` that holds the entries inserted
    /// one after the other: a later entry for a key replaces an earlier one.
    pub fn from_entries(filename: &str, entries: Vec<((String, String), String)>) -> (r: PassMan)
        ensures
            r@ == entries_to_map(entries_view(entries@)),
            r.file() == filename@,
    {
        let mut r = PassMan::empty(filename);
        let mut i: usize = 0;
        while i < entries.len()
            invariant
                i <= entries@.len(),
                r@ == entries_to_map(entries_view(entries@).take(i as int)),
                r.file() == filename@,
            decreases entries@.len() - i,
        {
            proof {
                assert(entries_view(entries@).take(i as int) =~= entries_view(entries@).take(i + 1).drop_last());
            }
            r.save_or_update(entries[i].0.0.as_str(), entries[i].0.1.as_str(), entries[i].1.as_str());
            i = i + 1;
        }
        proof {
            assert(entries_view(entries@).take(i as int) =~= entries_view(entries@));
        }
        r
    }

    /// Create a new Passman from the data file `filename`, given its
    /// contents, or `None` where there is no file. Contents must be a
    /// bincode encoding of a password map.
    pub fn new(filename: &str, contents: Option<Vec<u8>>) -> (r: PassMan)
        requires
            contents matches Some(b) ==> bincode_decode_entries(b@) is Some,
        ensures
            contents is None ==> r@ == Map::<(Seq<char>, Seq<char>), Seq<char>>::empty(),
            contents matches Some(b) ==> r@ == entries_to_map(bincode_decode_entries(b@).unwrap()),
            r.file() == filename@,
    {
        match contents {
            None => PassMan::empty(filename),
            Some(bytes) => match bincode_deserialize_entries(bytes.as_slice()) {
                Ok(entries) => PassMan::from_entries(filename, entries),
                Err(_) => {
                    proof { assert(false); }
                    PassMan::empty(filename)
                },
            },
        }
    }

    /// Create a new Passman from the data file `filename`, given its
    /// contents, or `None` where there is no file; the `Serialization`
    /// error where the contents are not a bincode encoding of a password
    /// map.
    pub fn try_new(filename: &str, contents: Option<Vec<u8>>) -> (r: Result<PassMan, Error>)
        ensures
            contents is None ==> (r matches Ok(p) && p@ == Map::<(Seq<char>, Seq<char>), Seq<char>>::empty()),
            contents matches Some(b) ==> (r is Ok <==> bincode_decode_entries(b@) is Some),
            contents matches Some(b) ==> (r matches Ok(p) ==> p@ == entries_to_map(bincode_decode_entries(b@).unwrap())),
            r matches Ok(p) ==> p.file() == filename@,
            r matches Err(e) ==> e.kind is Serialization,
    {
        match contents {
            None => Ok(PassMan::new(filename, None)),
            Some(bytes) => match bincode_deserialize_entries(bytes.as_slice()) {
                Ok(_) => Ok(PassMan::new(filename, Some(bytes))),
                Err(e) => Err(Error::from(e)),
            },
        }
    }

    /// Save the object that is in memory to the data file: the bytes to
    /// write there.
    /// Note that without writing them, nothing will be saved in the file
    pub fn save(&self) -> (r: Result<Vec<u8>, Error>)
        ensures
            r is Ok,
            r matches Ok(b) ==> b@ == encode_entries(self.entries()),
            r matches Ok(b) ==> bincode_decode_entries(b@) == Some(self.entries()),
    {
        match bincode_serialize_entries(&self.data) {
            Ok(bytes) => Ok(bytes),
            Err(e) => Err(Error::from(e)),
        }
    }

    /// The path of the data file.
    pub fn data_file(&self) -> (r: &str)
        ensures
            r@ == self.file(),
    {
        self.dfile.as_str()
    }

    /// Where the entry for (`f`, `u`) stands, if there is one.
    fn find(&self, f: &String, u: &String) -> (r: Option<usize>)
        ensures
            r matches Some(i) ==> i < self.entries().len() && self.entries()[i as int].0 == (f@, u@),
            r is None ==> forall|j: int| 0 <= j < self.entries().len() ==> self.entries()[j].0 != (f@, u@),
    {
        let mut i: usize = 0;
        while i < self.data.len()
            invariant
                i <= self.data@.len(),
                forall|j: int| 0 <= j < i ==> self.entries()[j].0 != (f@, u@),
            decreases self.data@.len() - i,
        {
            if self.data[i].0.0 == *f && self.data[i].0.1 == *u {
                return Some(i);
            }
            i = i + 1;
        }
        None
    }

    /// Save a new user-password in the data file or update existing
    pub fn save_or_update(&mut self, for_what: &str, user: &str, pass: &str)
        ensures
            final(self)@ == old(self)@.insert((for_what@, user@), pass@),
            final(self).file() == old(self).file(),
    {
        proof { use_type_invariant(&*self); }
        let f = for_what.to_owned();
        let u = user.to_owned();
        let p = pass.to_owned();
        let ghost entries_before = self.entries();
        let found = self.find(&f, &u);
        let mut data: Vec<((String, String), String)> = Vec::new();
        std::mem::swap(&mut data, &mut self.data);
        let ghost before = entries_view(data@);
        assert(before == entries_before);
        match found {
            Some(i) => {
                data.set(i, ((f, u), p));
                proof {
                    lemma_entries_to_map_update(before, i as int, pass@);
                    assert(entries_view(data@) =~= before.update(i as int, (before[i as int].0, pass@)));
                    assert forall|a: int, b: int| 0 <= a < b < entries_view(data@).len() implies
                        entries_view(data@)[a].0 != entries_view(data@)[b].0 by {
                        assert(entries_view(data@)[a].0 == before[a].0);
                        assert(entries_view(data@)[b].0 == before[b].0);
                    }
                }
            },
            None => {
                data.push(((f, u), p));
                proof {
                    assert(entries_view(data@).drop_last() =~= before);
                    assert forall|a: int, b: int| 0 <= a < b < entries_view(data@).len() implies
                        entries_view(data@)[a].0 != entries_view(data@)[b].0 by {
                        assert(entries_view(data@)[a] == before[a]);
                        if b < before.len() {
                            assert(entries_view(data@)[b] == before[b]);
                        } else {
                            assert(entries_view(data@)[b].0 == (for_what@, user@));
                            assert(before[a].0 != (for_what@, user@));
                        }
                    }
                }
            },
        }
        self.data = data;
    }

    /// Get a password for a specific user on a website if it exists
    pub fn get(&self, for_what: &str, user: &str) -> (r: Option<String>)
        ensures
            r is Some <==> self@.dom().contains((for_what@, user@)),
            r matches Some(p) ==> p@ == self@[(for_what@, user@)],
    {
        proof { use_type_invariant(self); }
        let f = for_what.to_owned();
        let u = user.to_owned();
        proof { lemma_entries_to_map_dom(self.entries(), (for_what@, user@)); }
        match self.find(&f, &u) {
            Some(i) => {
                proof { lemma_entries_to_map_value(self.entries(), i as int); }
                Some(self.data[i].1.clone())
            },
            None => None,
        }
    }
}

impl View for PassMan {
    type V = Map<(Seq<char>, Seq<char>), Seq<char>>;

    /// The passwords, keyed by (site, user).
    closed spec fn view(&self) -> Map<(Seq<char>, Seq<char>), Seq<char>> {
        entries_to_map(self.entries())
    }
}

/// What a read gives back of a write: after `save_or_update` for a
/// (site, user) key, `get` of that key gives the password written, and
/// `get` of any other key gives what it gave before.
pub proof fn law_get_after_save_or_update(
    before: PassMan,
    after: PassMan,
    key: (Seq<char>, Seq<char>),
    pass: Seq<char>,
    other: (Seq<char>, Seq<char>),
)
    requires
        after@ == before@.insert(key, pass),
    ensures
        after@.dom().contains(key),
        after@[key] == pass,
        other != key ==> (after@.dom().contains(other) <==> before@.dom().contains(other)),
        other != key && before@.dom().contains(other) ==> after@[other] == before@[other],
{
}

/// What is saved is loaded back: the bytes that `save` gives for a store
/// are read by `new` as a store with the same passwords.
pub proof fn law_new_after_save(saved: PassMan, bytes: Seq<u8>)
    requires
        bincode_decode_entries(bytes) == Some(saved.entries()),
    ensures
        bincode_decode_entries(bytes) is Some,
        entries_to_map(bincode_decode_entries(bytes).unwrap()) == saved@,
{
}

/// The map after inserting each (key, password) of `updates` in turn into
/// `m`.
pub open spec fn insert_all(
    m: Map<(Seq<char>, Seq<char>), Seq<char>>,
    updates: Seq<((Seq<char>, Seq<char>), Seq<char>)>,
) -> Map<(Seq<char>, Seq<char>), Seq<char>>
    decreases updates.len(),
{
    if updates.len() == 0 {
        m
    } else {
        insert_all(m, updates.drop_last()).insert(updates.last().0, updates.last().1)
    }
}

/// After the updates, a key holds the password of the last update for it.
proof fn lemma_insert_all_last(
    m: Map<(Seq<char>, Seq<char>), Seq<char>>,
    updates: Seq<((Seq<char>, Seq<char>), Seq<char>)>,
    j: int,
)
    requires
        0 <= j < updates.len(),
        forall|l: int| j < l < updates.len() ==> updates[l].0 != updates[j].0,
    ensures
        insert_all(m, updates).dom().contains(updates[j].0),
        insert_all(m, updates)[updates[j].0] == updates[j].1,
    decreases updates.len(),
{
    let n = updates.len() - 1;
    if j < n {
        let us = updates.drop_last();
        assert(updates[n].0 != updates[j].0);
        assert forall|l: int| j < l < us.len() implies us[l].0 != us[j].0 by {
            assert(us[l] == updates[l]);
        }
        lemma_insert_all_last(m, us, j);
    }
}

/// After updates that do not name a key, the key holds what it held.
proof fn lemma_insert_all_untouched(
    m: Map<(Seq<char>, Seq<char>), Seq<char>>,
    updates: Seq<((Seq<char>, Seq<char>), Seq<char>)>,
    key: (Seq<char>, Seq<char>),
)
    requires
        forall|l: int| 0 <= l < updates.len() ==> updates[l].0 != key,
    ensures
        insert_all(m, updates).dom().contains(key) <==> m.dom().contains(key),
        m.dom().contains(key) ==> insert_all(m, updates)[key] == m[key],
    decreases updates.len(),
{
    if updates.len() > 0 {
        let us = updates.drop_last();
        assert(updates[updates.len() - 1].0 != key);
        assert forall|l: int| 0 <= l < us.len() implies us[l].0 != key by {
            assert(us[l] == updates[l]);
        }
        lemma_insert_all_untouched(m, us, key);
    }
}

/// A run of stores, each the one before with the next update inserted,
/// ends in `insert_all` of the first.
proof fn lemma_views_insert_all(
    views: Seq<Map<(Seq<char>, Seq<char>), Seq<char>>>,
    updates: Seq<((Seq<char>, Seq<char>), Seq<char>)>,
)
    requires
        views.len() == updates.len() + 1,
        forall|i: int| 0 <= i < updates.len() ==> #[trigger] views[i + 1] == views[i].insert(updates[i].0, updates[i].1),
    ensures
        views.last() == insert_all(views[0], updates),
    decreases updates.len(),
{
    if updates.len() > 0 {
        let n = updates.len() - 1;
        let vs = views.drop_last();
        let us = updates.drop_last();
        assert forall|i: int| 0 <= i < us.len() implies #[trigger] vs[i + 1] == vs[i].insert(us[i].0, us[i].1) by {
            assert(views[i + 1] == views[i].insert(updates[i].0, updates[i].1));
        }
        lemma_views_insert_all(vs, us);
        assert(views[n + 1] == views[n].insert(updates[n].0, updates[n].1));
    }
}

/// The last write wins: take stores whose maps are `views`, each the one
/// before after `save_or_update` with the next (key, password) of
/// `updates`. Then the last store's map is `insert_all` of the first; `get`
/// of the key of an update gives the password of the last update for that
/// key, and a key that no update names keeps what the first store held
/// for it.
pub proof fn law_get_after_save_or_update_sequence(
    views: Seq<Map<(Seq<char>, Seq<char>), Seq<char>>>,
    updates: Seq<((Seq<char>, Seq<char>), Seq<char>)>,
    key: (Seq<char>, Seq<char>),
)
    requires
        views.len() == updates.len() + 1,
        forall|i: int| 0 <= i < updates.len() ==> #[trigger] views[i + 1] == views[i].insert(updates[i].0, updates[i].1),
    ensures
        views.last() == insert_all(views[0], updates),
        forall|j: int|
            0 <= j < updates.len() && #[trigger] updates[j].0 == key
                && (forall|l: int| j < l < updates.len() ==> updates[l].0 != key)
                ==> views.last().dom().contains(key) && views.last()[key] == updates[j].1,
        (forall|l: int| 0 <= l < updates.len() ==> updates[l].0 != key) ==> (
            (views.last().dom().contains(key) <==> views[0].dom().contains(key))
            && (views[0].dom().contains(key) ==> views.last()[key] == views[0][key])),
{
    lemma_views_insert_all(views, updates);
    assert forall|j: int|
        0 <= j < updates.len() && #[trigger] updates[j].0 == key
            && (forall|l: int| j < l < updates.len() ==> updates[l].0 != key)
        implies views.last().dom().contains(key) && views.last()[key] == updates[j].1 by {
        lemma_insert_all_last(views[0], updates, j);
    }
    if forall|l: int| 0 <= l < updates.len() ==> updates[l].0 != key {
        lemma_insert_all_untouched(views[0], updates, key);
    }
}

} // verus!
