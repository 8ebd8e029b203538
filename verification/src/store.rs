//! The in-memory key store.
//!
//! The store maps a key identifier to a secret key record and, separately,
//! to a public key record.  Its mathematical view is a pair of maps from
//! identifier to record; insertion under an existing identifier replaces
//! the prior record (last-writer-wins), and public records keep their
//! insertion order for listing.

use vstd::prelude::*;
use crate::records::{PublicKeyRecord, SecretKeyRecord};

verus! {

/// A record that is stored under a key identifier.
pub trait Keyed {
    /// The identifier this record is stored under.
    spec fn skey(&self) -> Seq<char>;
}

impl Keyed for SecretKeyRecord {
    open spec fn skey(&self) -> Seq<char> {
        self.key_id@
    }
}

impl Keyed for PublicKeyRecord {
    open spec fn skey(&self) -> Seq<char> {
        self.key_id@
    }
}

/// The map that a sequence of keyed records denotes; a later record under
/// the same identifier wins.
pub open spec fn assoc_map<T: Keyed>(s: Seq<T>) -> Map<Seq<char>, T>
    decreases s.len(),
{
    if s.len() == 0 {
        Map::empty()
    } else {
        assoc_map(s.drop_last()).insert(s.last().skey(), s.last())
    }
}

/// No two records of the sequence share an identifier.
pub open spec fn distinct_keys<T: Keyed>(s: Seq<T>) -> bool {
    forall|i: int, j: int| 0 <= i < j < s.len() ==> s[i].skey() != s[j].skey()
}

/// An identifier is in the denoted map exactly when some record of the
/// sequence carries it.
pub proof fn lemma_assoc_contains<T: Keyed>(s: Seq<T>, k: Seq<char>)
    ensures
        assoc_map(s).contains_key(k) <==> exists|i: int| 0 <= i < s.len() && s[i].skey() == k,
    decreases s.len(),
{
    if s.len() > 0 {
        lemma_assoc_contains(s.drop_last(), k);
        if assoc_map(s).contains_key(k) {
            if s.last().skey() == k {
                assert(s[s.len() - 1].skey() == k);
            } else {
                let i = choose|i: int| 0 <= i < s.drop_last().len() && s.drop_last()[i].skey() == k;
                assert(s[i].skey() == k);
            }
        }
        if exists|i: int| 0 <= i < s.len() && s[i].skey() == k {
            let i = choose|i: int| 0 <= i < s.len() && s[i].skey() == k;
            if i < s.len() - 1 {
                assert(s.drop_last()[i].skey() == k);
            }
        }
    }
}

/// With distinct identifiers, the denoted map sends each record's
/// identifier to that record.
pub proof fn lemma_assoc_at<T: Keyed>(s: Seq<T>, i: int)
    requires
        distinct_keys(s),
        0 <= i < s.len(),
    ensures
        assoc_map(s).contains_key(s[i].skey()),
        assoc_map(s)[s[i].skey()] == s[i],
    decreases s.len(),
{
    if i < s.len() - 1 {
        assert(s.drop_last()[i] == s[i]);
        lemma_assoc_at(s.drop_last(), i);
        assert(s[i].skey() != s.last().skey());
    }
}

/// Replacing the record at a position by one under the same identifier
/// denotes insertion into the map.
pub proof fn lemma_assoc_update<T: Keyed>(s: Seq<T>, i: int, r: T)
    requires
        distinct_keys(s),
        0 <= i < s.len(),
        r.skey() == s[i].skey(),
    ensures
        assoc_map(s.update(i, r)) == assoc_map(s).insert(r.skey(), r),
    decreases s.len(),
{
    let t = s.update(i, r);
    if i == s.len() - 1 {
        assert(t.drop_last() =~= s.drop_last());
        assert(t.last() == r);
        assert(assoc_map(t) =~= assoc_map(s).insert(r.skey(), r));
    } else {
        assert(t.drop_last() =~= s.drop_last().update(i, r));
        assert(t.last() == s.last());
        assert(s.drop_last()[i] == s[i]);
        lemma_assoc_update(s.drop_last(), i, r);
        assert(r.skey() != s.last().skey());
        assert(assoc_map(t) =~= assoc_map(s).insert(r.skey(), r));
    }
}

/// The concurrency-safe in-memory repository of key records.
///
/// Each exported operation is atomic with respect to the others at the
/// granularity of a single map operation; the surrounding application
/// provides the mutual exclusion for shared use.
pub struct KeyStore {
    secrets: Vec<SecretKeyRecord>,
    publics: Vec<PublicKeyRecord>,
}

impl KeyStore {
    /// Well-formed: no identifier occurs twice on either side.
    pub closed spec fn wf(self) -> bool {
        distinct_keys(self.secrets@) && distinct_keys(self.publics@)
    }

    /// The map of secret records.
    pub closed spec fn secrets_map(self) -> Map<Seq<char>, SecretKeyRecord> {
        assoc_map(self.secrets@)
    }

    /// The map of public records.
    pub closed spec fn publics_map(self) -> Map<Seq<char>, PublicKeyRecord> {
        assoc_map(self.publics@)
    }

    /// The public records in insertion order.
    pub closed spec fn publics_seq(self) -> Seq<PublicKeyRecord> {
        self.publics@
    }

    /// An empty store.
    pub fn new() -> (s: KeyStore)
        ensures
            s.wf(),
            s.secrets_map() == Map::<Seq<char>, SecretKeyRecord>::empty(),
            s.publics_map() == Map::<Seq<char>, PublicKeyRecord>::empty(),
            s.publics_seq() == Seq::<PublicKeyRecord>::empty(),
    {
        KeyStore { secrets: Vec::new(), publics: Vec::new() }
    }

    /// Stores a secret record under its identifier; a record already held
    /// under that identifier is replaced.
    pub fn put_secret(&mut self, rec: SecretKeyRecord)
        requires
            old(self).wf(),
        ensures
            final(self).wf(),
            final(self).secrets_map() == old(self).secrets_map().insert(rec.key_id@, rec),
            final(self).publics_map() == old(self).publics_map(),
            final(self).publics_seq() == old(self).publics_seq(),
    {
        let n = self.secrets.len();
        let mut i: usize = 0;
        while i < n
            invariant
                n == self.secrets.len(),
                i <= n,
                self.wf(),
                *self == *old(self),
                forall|j: int| 0 <= j < i ==> self.secrets@[j].skey() != rec.key_id@,
            decreases n - i,
        {
            if self.secrets[i].key_id == rec.key_id {
                proof {
                    lemma_assoc_update(self.secrets@, i as int, rec);
                }
                let ghost olds = self.secrets@;
                self.secrets[i] = rec;
                proof {
                    assert(self.secrets@ =~= olds.update(i as int, self.secrets@[i as int]));
                }
                return ;
            }
            i = i + 1;
        }
        proof {
            assert(self.secrets@.push(rec).drop_last() =~= self.secrets@);
        }
        self.secrets.push(rec);
    }

    /// Stores a public record under its identifier; a record already held
    /// under that identifier is replaced in place, keeping its position in
    /// the listing order; a new identifier is appended.
    pub fn put_public(&mut self, rec: PublicKeyRecord)
        requires
            old(self).wf(),
        ensures
            final(self).wf(),
            final(self).publics_map() == old(self).publics_map().insert(rec.key_id@, rec),
            final(self).secrets_map() == old(self).secrets_map(),
            !old(self).publics_map().contains_key(rec.key_id@) ==> final(self).publics_seq()
                == old(self).publics_seq().push(rec),
            old(self).publics_map().contains_key(rec.key_id@) ==> exists|i: int|
                #![auto]
                {
                    &&& 0 <= i < old(self).publics_seq().len()
                    &&& old(self).publics_seq()[i].key_id@ == rec.key_id@
                    &&& final(self).publics_seq() == old(self).publics_seq().update(i, rec)
                },
    {
        let n = self.publics.len();
        let mut i: usize = 0;
        while i < n
            invariant
                n == self.publics.len(),
                i <= n,
                self.wf(),
                *self == *old(self),
                forall|j: int| 0 <= j < i ==> self.publics@[j].skey() != rec.key_id@,
            decreases n - i,
        {
            if self.publics[i].key_id == rec.key_id {
                proof {
                    lemma_assoc_update(self.publics@, i as int, rec);
                    lemma_assoc_at(self.publics@, i as int);
                }
                let ghost olds = self.publics@;
                self.publics[i] = rec;
                proof {
                    assert(self.publics@ =~= olds.update(i as int, self.publics@[i as int]));
                    assert(olds[i as int].key_id@ == rec.key_id@ && self.publics@ == olds.update(
                        i as int,
                        rec,
                    ));
                    assert(olds == old(self).publics_seq());
                    assert(exists|j: int|
                        #![auto]
                        {
                            &&& 0 <= j < old(self).publics_seq().len()
                            &&& old(self).publics_seq()[j].key_id@ == rec.key_id@
                            &&& self.publics@ == old(self).publics_seq().update(j, rec)
                        }) by {
                        let j = i as int;
                        assert(0 <= j && j < old(self).publics_seq().len());
                        assert(old(self).publics_seq()[j].key_id@ == rec.key_id@);
                        assert(self.publics@ == old(self).publics_seq().update(j, rec));
                    }
                }
                return ;
            }
            i = i + 1;
        }
        proof {
            assert(self.publics@.push(rec).drop_last() =~= self.publics@);
            lemma_assoc_contains(self.publics@, rec.key_id@);
        }
        self.publics.push(rec);
    }

    /// Looks up the secret record under an identifier.  A miss is not an
    /// error at this layer.
    pub fn get_secret(&self, key_id: &String) -> (r: Option<&SecretKeyRecord>)
        requires
            self.wf(),
        ensures
            match r {
                Some(rec) => {
                    &&& self.secrets_map().contains_key(key_id@)
                    &&& *rec == self.secrets_map()[key_id@]
                    &&& rec.key_id@ == key_id@
                },
                None => !self.secrets_map().contains_key(key_id@),
            },
    {
        let n = self.secrets.len();
        let mut i: usize = 0;
        while i < n
            invariant
                n == self.secrets.len(),
                i <= n,
                self.wf(),
                forall|j: int| 0 <= j < i ==> self.secrets@[j].skey() != key_id@,
            decreases n - i,
        {
            if self.secrets[i].key_id == *key_id {
                proof {
                    lemma_assoc_at(self.secrets@, i as int);
                }
                return Some(&self.secrets[i]);
            }
            i = i + 1;
        }
        proof {
            lemma_assoc_contains(self.secrets@, key_id@);
        }
        None
    }

    /// Looks up the public record under an identifier.  A miss is not an
    /// error at this layer.
    pub fn get_public(&self, key_id: &String) -> (r: Option<&PublicKeyRecord>)
        requires
            self.wf(),
        ensures
            match r {
                Some(rec) => {
                    &&& self.publics_map().contains_key(key_id@)
                    &&& *rec == self.publics_map()[key_id@]
                    &&& rec.key_id@ == key_id@
                },
                None => !self.publics_map().contains_key(key_id@),
            },
    {
        let n = self.publics.len();
        let mut i: usize = 0;
        while i < n
            invariant
                n == self.publics.len(),
                i <= n,
                self.wf(),
                forall|j: int| 0 <= j < i ==> self.publics@[j].skey() != key_id@,
            decreases n - i,
        {
            if self.publics[i].key_id == *key_id {
                proof {
                    lemma_assoc_at(self.publics@, i as int);
                }
                return Some(&self.publics[i]);
            }
            i = i + 1;
        }
        proof {
            lemma_assoc_contains(self.publics@, key_id@);
        }
        None
    }

    /// Every listed public record is the one the map holds under its
    /// identifier: the listing and the map views agree.
    pub proof fn lemma_listed_records_are_mapped(self)
        requires
            self.wf(),
        ensures
            forall|i: int|
                0 <= i < self.publics_seq().len() ==> {
                    let rec = #[trigger] self.publics_seq()[i];
                    self.publics_map().contains_key(rec.key_id@) && self.publics_map()[rec.key_id@]
                        == rec
                },
    {
        assert forall|i: int| 0 <= i < self.publics_seq().len() implies {
            let rec = #[trigger] self.publics_seq()[i];
            self.publics_map().contains_key(rec.key_id@) && self.publics_map()[rec.key_id@] == rec
        } by {
            lemma_assoc_at(self.publics@, i);
        }
    }

    /// The listing is complete and duplicate-free: listed identifiers are
    /// pairwise distinct, and an identifier is listed exactly when the map
    /// holds a record under it.
    pub proof fn lemma_listing_matches_map(self)
        requires
            self.wf(),
        ensures
            forall|i: int, j: int|
                0 <= i < j < self.publics_seq().len() ==> (#[trigger] self.publics_seq()[i]).key_id@
                    != (#[trigger] self.publics_seq()[j]).key_id@,
            forall|k: Seq<char>| #[trigger]
                self.publics_map().contains_key(k) <==> exists|i: int|
                    0 <= i < self.publics_seq().len() && (#[trigger] self.publics_seq()[i]).key_id@
                        == k,
    {
        assert forall|i: int, j: int| 0 <= i < j < self.publics_seq().len() implies (#[trigger] self
            .publics_seq()[i]).key_id@ != (#[trigger] self.publics_seq()[j]).key_id@ by {
            assert(self.publics@[i].skey() != self.publics@[j].skey());
        }
        assert forall|k: Seq<char>|
            #[trigger] self.publics_map().contains_key(k) <==> exists|i: int|
                0 <= i < self.publics_seq().len() && (#[trigger] self.publics_seq()[i]).key_id@
                    == k by {
            lemma_assoc_contains(self.publics@, k);
            if self.publics_map().contains_key(k) {
                let i = choose|i: int| 0 <= i < self.publics@.len() && self.publics@[i].skey() == k;
                assert(0 <= i < self.publics_seq().len() && self.publics_seq()[i].key_id@ == k);
            }
            if exists|i: int|
                0 <= i < self.publics_seq().len() && (#[trigger] self.publics_seq()[i]).key_id@
                    == k {
                let i = choose|i: int|
                    0 <= i < self.publics_seq().len() && (#[trigger] self.publics_seq()[i]).key_id@
                        == k;
                assert(self.publics@[i].skey() == k);
            }
        }
    }

    /// The public records, in insertion order.
    pub fn list_public(&self) -> (r: &Vec<PublicKeyRecord>)
        ensures
            r@ == self.publics_seq(),
    {
        &self.publics
    }
}

} // verus!
