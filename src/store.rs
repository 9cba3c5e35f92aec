//! The medication store: the last known attributes of each medication, by name.

use vstd::prelude::*;
use vstd::map::*;
use crate::text::str_eq;

verus! {

/// The last known attributes of one medication.
pub struct MedicationRecord {
    pub dosage: String,
    pub dosage_observations: String,
    pub posologia: String,
    pub posology_observations: String,
}

/// The mathematical model of a [`MedicationRecord`].
pub struct RecordModel {
    pub dosage: Seq<char>,
    pub dosage_observations: Seq<char>,
    pub posologia: Seq<char>,
    pub posology_observations: Seq<char>,
}

impl View for MedicationRecord {
    type V = RecordModel;

    open spec fn view(&self) -> RecordModel {
        RecordModel {
            dosage: self.dosage@,
            dosage_observations: self.dosage_observations@,
            posologia: self.posologia@,
            posology_observations: self.posology_observations@,
        }
    }
}

impl MedicationRecord {
    /// A field-by-field copy.
    pub fn copied(&self) -> (r: MedicationRecord)
        ensures
            r@ == self@,
    {
        MedicationRecord {
            dosage: self.dosage.clone(),
            dosage_observations: self.dosage_observations.clone(),
            posologia: self.posologia.clone(),
            posology_observations: self.posology_observations.clone(),
        }
    }
}

/// The map that a list of entries spells, a later entry winning over an
/// earlier one of the same name.
pub open spec fn map_of(e: Seq<(String, MedicationRecord)>) -> Map<Seq<char>, RecordModel>
    decreases e.len(),
{
    if e.len() == 0 {
        Map::empty()
    } else {
        map_of(e.drop_last()).insert(e.last().0@, e.last().1@)
    }
}

/// No two entries share a name.
pub open spec fn names_unique(e: Seq<(String, MedicationRecord)>) -> bool {
    forall|i: int, j: int| 0 <= i < j < e.len() ==> e[i].0@ != e[j].0@
}

proof fn lemma_map_of_at(e: Seq<(String, MedicationRecord)>, i: int)
    requires
        names_unique(e),
        0 <= i < e.len(),
    ensures
        map_of(e).contains_key(e[i].0@),
        map_of(e)[e[i].0@] == e[i].1@,
    decreases e.len(),
{
    if i < e.len() - 1 {
        lemma_map_of_at(e.drop_last(), i);
    }
}

proof fn lemma_map_of_absent(e: Seq<(String, MedicationRecord)>, k: Seq<char>)
    requires
        forall|i: int| 0 <= i < e.len() ==> e[i].0@ != k,
    ensures
        !map_of(e).contains_key(k),
    decreases e.len(),
{
    if e.len() > 0 {
        lemma_map_of_absent(e.drop_last(), k);
    }
}

proof fn lemma_map_of_update(e: Seq<(String, MedicationRecord)>, i: int, x: (String, MedicationRecord))
    requires
        names_unique(e),
        0 <= i < e.len(),
        x.0@ == e[i].0@,
    ensures
        map_of(e.update(i, x)) == map_of(e).insert(x.0@, x.1@),
    decreases e.len(),
{
    let u = e.update(i, x);
    if i == e.len() - 1 {
        assert(u.drop_last() =~= e.drop_last());
        assert_maps_equal!(map_of(u), map_of(e).insert(x.0@, x.1@));
    } else {
        assert(u.drop_last() =~= e.drop_last().update(i, x));
        lemma_map_of_update(e.drop_last(), i, x);
        assert_maps_equal!(map_of(u), map_of(e).insert(x.0@, x.1@));
    }
}

/// Medication records by medication name; names are compared as written.
pub struct MedicationStore {
    entries: Vec<(String, MedicationRecord)>,
}

impl View for MedicationStore {
    type V = Map<Seq<char>, RecordModel>;

    closed spec fn view(&self) -> Map<Seq<char>, RecordModel> {
        map_of(self.entries@)
    }
}

impl MedicationStore {
    /// The store's internal invariant: each name has one entry.
    pub closed spec fn wf(&self) -> bool {
        names_unique(self.entries@)
    }

    /// An empty store.
    pub fn new() -> (r: MedicationStore)
        ensures
            r.wf(),
            r@ == Map::<Seq<char>, RecordModel>::empty(),
    {
        MedicationStore { entries: Vec::new() }
    }

    fn find(&self, name: &str) -> (r: Option<usize>)
        ensures
            match r {
                Some(i) => i < self.entries@.len() && self.entries@[i as int].0@ == name@,
                None => forall|i: int| 0 <= i < self.entries@.len() ==> self.entries@[i].0@ != name@,
            },
    {
        let mut i: usize = 0;
        while i < self.entries.len()
            invariant
                i <= self.entries@.len(),
                forall|j: int| 0 <= j < i ==> self.entries@[j].0@ != name@,
            decreases self.entries.len() - i,
        {
            if str_eq(self.entries[i].0.as_str(), name) {
                return Some(i);
            }
            i = i + 1;
        }
        None
    }

    /// The record stored under `name`, if any.
    pub fn get(&self, name: &str) -> (r: Option<&MedicationRecord>)
        requires
            self.wf(),
        ensures
            match r {
                Some(rec) => self@.contains_key(name@) && self@[name@] == rec@,
                None => !self@.contains_key(name@),
            },
    {
        match self.find(name) {
            Some(i) => {
                proof {
                    lemma_map_of_at(self.entries@, i as int);
                }
                Some(&self.entries[i].1)
            },
            None => {
                proof {
                    lemma_map_of_absent(self.entries@, name@);
                }
                None
            },
        }
    }

    /// Stores `rec` under `name`, replacing any earlier record of that name.
    pub fn insert(&mut self, name: String, rec: MedicationRecord)
        requires
            old(self).wf(),
        ensures
            final(self).wf(),
            final(self)@ == old(self)@.insert(name@, rec@),
    {
        match self.find(name.as_str()) {
            Some(i) => {
                let ghost e = self.entries@;
                let ghost x = (name, rec);
                proof {
                    lemma_map_of_update(e, i as int, x);
                }
                self.entries.set(i, (name, rec));
                assert(self.entries@ =~= e.update(i as int, x));
            },
            None => {
                let ghost e = self.entries@;
                self.entries.push((name, rec));
                assert(self.entries@.drop_last() =~= e);
            },
        }
    }

    /// The number of medications stored.
    pub fn len(&self) -> (r: usize)
        requires
            self.wf(),
        ensures
            r as nat == self@.len(),
    {
        proof {
            lemma_map_len(self.entries@);
        }
        self.entries.len()
    }

    /// The stored names and records, each name once.
    pub fn entries(&self) -> (r: &Vec<(String, MedicationRecord)>)
        ensures
            map_of(r@) == self@,
            names_unique(r@) == self.wf(),
    {
        &self.entries
    }
}

proof fn lemma_map_len(e: Seq<(String, MedicationRecord)>)
    requires
        names_unique(e),
    ensures
        map_of(e).len() == e.len(),
        map_of(e).dom().finite(),
    decreases e.len(),
{
    if e.len() > 0 {
        lemma_map_len(e.drop_last());
        lemma_map_of_absent(e.drop_last(), e.last().0@);
    }
}

} // verus!
