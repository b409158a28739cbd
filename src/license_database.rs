use vstd::prelude::*;
use crate::license::License;
use crate::models::NewCopyleftStrength;
use crate::text::{lower_of, to_lower, same_text};

verus! {

/// Why a license dataset could not be loaded.
#[derive(Debug, Clone, PartialEq, Eq)]
pub enum LicenseDatabaseError {
    FileReadError(String),
    JsonParseError(String),
}

impl LicenseDatabaseError {
    /// Text of the error for a reader.
    pub fn message(&self) -> (r: String)
        ensures
            r@ == match self {
                LicenseDatabaseError::FileReadError(m) => "Failed to read license file: "@ + m@,
                LicenseDatabaseError::JsonParseError(m) => "Failed to parse JSON: "@ + m@,
            },
    {
        let (mut r, m) = match self {
            LicenseDatabaseError::FileReadError(m) => (String::from_str("Failed to read license file: "), m),
            LicenseDatabaseError::JsonParseError(m) => (String::from_str("Failed to parse JSON: "), m),
        };
        r.append(m.as_str());
        r
    }
}

/// A license record: its identifier, display name and category.
#[derive(Debug, Clone)]
pub struct NewLicense {
    pub id: String,
    pub name: String,
    pub copyleft_strength: NewCopyleftStrength,
}

/// What a license record holds.
pub struct LicenseView {
    pub id: Seq<char>,
    pub name: Seq<char>,
    pub strength: NewCopyleftStrength,
}

impl View for NewLicense {
    type V = LicenseView;

    open spec fn view(&self) -> LicenseView {
        LicenseView { id: self.id@, name: self.name@, strength: self.copyleft_strength }
    }
}

/// Two records are the same license when their identifiers agree.
impl PartialEq for NewLicense {
    fn eq(&self, other: &NewLicense) -> (r: bool) {
        same_text(self.id.as_str(), other.id.as_str())
    }
}

impl Eq for NewLicense {}

impl vstd::std_specs::cmp::PartialEqSpecImpl for NewLicense {
    open spec fn obeys_eq_spec() -> bool {
        true
    }

    open spec fn eq_spec(&self, other: &NewLicense) -> bool {
        self.id@ == other.id@
    }
}

impl NewLicense {
    /// A copy of the record.
    pub fn duplicate(&self) -> (r: NewLicense)
        ensures
            r@ == self@,
    {
        NewLicense { id: self.id.clone(), name: self.name.clone(), copyleft_strength: self.copyleft_strength }
    }
}

/// Category named by a dataset label; an unknown label means no stated license.
pub open spec fn category_of_label(label: Seq<char>) -> NewCopyleftStrength {
    if label == "Copyleft"@ {
        NewCopyleftStrength::Copyleft
    } else if label == "Copyleft Limited"@ {
        NewCopyleftStrength::CopyleftLimited
    } else if label == "Permissive"@ {
        NewCopyleftStrength::Permissive
    } else if label == "Commercial"@ {
        NewCopyleftStrength::Commercial
    } else if label == "Proprietary Free"@ {
        NewCopyleftStrength::ProprietaryFree
    } else if label == "Public Domain"@ {
        NewCopyleftStrength::PublicDomain
    } else if label == "Free Restricted"@ {
        NewCopyleftStrength::FreeRestricted
    } else if label == "Source-available"@ {
        NewCopyleftStrength::SourceAvailable
    } else if label == "Patent License"@ {
        NewCopyleftStrength::PatentLicense
    } else {
        NewCopyleftStrength::UnstatedLicense
    }
}

/// Maps a dataset category label to its category, by exact match.
pub fn category_from_label(label: &str) -> (r: NewCopyleftStrength)
    ensures
        r == category_of_label(label@),
{
    if same_text(label, "Copyleft") {
        NewCopyleftStrength::Copyleft
    } else if same_text(label, "Copyleft Limited") {
        NewCopyleftStrength::CopyleftLimited
    } else if same_text(label, "Permissive") {
        NewCopyleftStrength::Permissive
    } else if same_text(label, "Commercial") {
        NewCopyleftStrength::Commercial
    } else if same_text(label, "Proprietary Free") {
        NewCopyleftStrength::ProprietaryFree
    } else if same_text(label, "Public Domain") {
        NewCopyleftStrength::PublicDomain
    } else if same_text(label, "Free Restricted") {
        NewCopyleftStrength::FreeRestricted
    } else if same_text(label, "Source-available") {
        NewCopyleftStrength::SourceAvailable
    } else if same_text(label, "Patent License") {
        NewCopyleftStrength::PatentLicense
    } else {
        NewCopyleftStrength::UnstatedLicense
    }
}

/// The record that a dataset entry describes: named by its alternate
/// identifier where it has one.
pub open spec fn record_of_entry(key: Seq<char>, alternate: Option<Seq<char>>, label: Seq<char>) -> LicenseView {
    LicenseView {
        id: key,
        name: match alternate {
            Some(a) => a,
            None => key,
        },
        strength: category_of_label(label),
    }
}

impl NewLicense {
    /// The record for a dataset entry.
    pub fn from_entry(entry: &License) -> (r: NewLicense)
        ensures
            r@ == record_of_entry(
                entry.license_key@,
                match entry.spdx_license_key {
                    Some(a) => Some(a@),
                    None => None,
                },
                entry.category@,
            ),
    {
        let name = match &entry.spdx_license_key {
            Some(a) => a.clone(),
            None => entry.license_key.clone(),
        };
        NewLicense {
            id: entry.license_key.clone(),
            name,
            copyleft_strength: category_from_label(entry.category.as_str()),
        }
    }
}

/// A table of license records by key; it is filled once and then only read.
#[derive(Debug)]
pub struct LicenseDatabase {
    keys: Vec<String>,
    records: Vec<NewLicense>,
}

impl View for LicenseDatabase {
    type V = Map<Seq<char>, LicenseView>;

    closed spec fn view(&self) -> Map<Seq<char>, LicenseView> {
        Map::new(
            |k: Seq<char>| exists|i: int| 0 <= i < self.keys.len() && self.keys@[i]@ == k,
            |k: Seq<char>| self.records@[choose|i: int| 0 <= i < self.keys.len() && self.keys@[i]@ == k]@,
        )
    }
}

impl LicenseDatabase {
    /// Keys are unique and each has its record.
    pub closed spec fn wf(&self) -> bool {
        &&& self.keys.len() == self.records.len()
        &&& forall|i: int, j: int|
            0 <= i < j < self.keys.len() ==> self.keys@[i]@ != self.keys@[j]@
    }

    /// An empty table: every identifier is unknown.
    pub fn new() -> (r: LicenseDatabase)
        ensures
            r.wf(),
            r@ == Map::<Seq<char>, LicenseView>::empty(),
    {
        let r = LicenseDatabase { keys: Vec::new(), records: Vec::new() };
        assert(r@ =~= Map::<Seq<char>, LicenseView>::empty());
        r
    }

    /// Position of `key`, if it is there.
    fn position(&self, key: &str) -> (r: Option<usize>)
        requires
            self.wf(),
        ensures
            match r {
                Some(i) => i < self.keys.len() && self.keys@[i as int]@ == key@,
                None => forall|i: int| 0 <= i < self.keys.len() ==> self.keys@[i]@ != key@,
            },
    {
        let mut i: usize = 0;
        while i < self.keys.len()
            invariant
                i <= self.keys.len(),
                forall|j: int| 0 <= j < i ==> self.keys@[j]@ != key@,
            decreases self.keys.len() - i,
        {
            if same_text(self.keys[i].as_str(), key) {
                return Some(i);
            }
            i = i + 1;
        }
        None
    }

    /// The key at `i` maps to the record at `i`.
    proof fn lemma_view_at(&self, i: int)
        requires
            self.wf(),
            0 <= i < self.keys.len(),
        ensures
            self@.contains_key(self.keys@[i]@),
            self@[self.keys@[i]@] == self.records@[i]@,
    {
        let k = self.keys@[i]@;
        let j = choose|j: int| 0 <= j < self.keys.len() && self.keys@[j]@ == k;
        assert(j == i);
    }

    /// Stores `record` under `key`, replacing what was stored there.
    pub fn insert(&mut self, key: String, record: NewLicense)
        requires
            old(self).wf(),
        ensures
            final(self).wf(),
            final(self)@ == old(self)@.insert(key@, record@),
    {
        match self.position(key.as_str()) {
            Some(i) => {
                self.records.set(i, record);
                proof {
                    assert forall|k: Seq<char>| #[trigger] self@.contains_key(k) implies
                        self@[k] == old(self)@.insert(key@, record@)[k] by {
                        let j = choose|j: int| 0 <= j < self.keys.len() && self.keys@[j]@ == k;
                        old(self).lemma_view_at(j);
                        self.lemma_view_at(j);
                    }
                    assert forall|k: Seq<char>| old(self)@.insert(key@, record@).contains_key(k) implies
                        #[trigger] self@.contains_key(k) by {
                        if k != key@ {
                            let j = choose|j: int| 0 <= j < old(self).keys.len() && old(self).keys@[j]@ == k;
                            self.lemma_view_at(j);
                        } else {
                            self.lemma_view_at(i as int);
                        }
                    }
                    assert(self@ =~= old(self)@.insert(key@, record@));
                }
            },
            None => {
                self.keys.push(key);
                self.records.push(record);
                proof {
                    let n = old(self).keys.len() as int;
                    assert forall|k: Seq<char>| #[trigger] self@.contains_key(k) implies
                        self@[k] == old(self)@.insert(key@, record@)[k] by {
                        let j = choose|j: int| 0 <= j < self.keys.len() && self.keys@[j]@ == k;
                        self.lemma_view_at(j);
                        if j < n {
                            old(self).lemma_view_at(j);
                        }
                    }
                    assert forall|k: Seq<char>| old(self)@.insert(key@, record@).contains_key(k) implies
                        #[trigger] self@.contains_key(k) by {
                        if k != key@ {
                            let j = choose|j: int| 0 <= j < old(self).keys.len() && old(self).keys@[j]@ == k;
                            self.lemma_view_at(j);
                        } else {
                            self.lemma_view_at(n);
                        }
                    }
                    assert(self@ =~= old(self)@.insert(key@, record@));
                }
            },
        }
    }

    /// The record stored under exactly `key`.
    pub fn get(&self, key: &str) -> (r: Option<NewLicense>)
        requires
            self.wf(),
        ensures
            match r {
                Some(rec) => self@.contains_key(key@) && rec@ == self@[key@],
                None => !self@.contains_key(key@),
            },
    {
        match self.position(key) {
            Some(i) => {
                proof {
                    self.lemma_view_at(i as int);
                }
                Some(self.records[i].duplicate())
            },
            None => None,
        }
    }

    /// The record for a license identifier, matched without regard to case.
    pub fn lookup(&self, id: &str) -> (r: Option<NewLicense>)
        requires
            self.wf(),
        ensures
            match r {
                Some(rec) => self@.contains_key(lower_of(id@)) && rec@ == self@[lower_of(id@)],
                None => !self@.contains_key(lower_of(id@)),
            },
    {
        let key = to_lower(id);
        self.get(key.as_str())
    }

    /// Adds the record of a dataset entry, under its lower-case key.
    pub fn add_entry(&mut self, entry: &License)
        requires
            old(self).wf(),
        ensures
            final(self).wf(),
            final(self)@ == old(self)@.insert(
                lower_of(entry.license_key@),
                record_of_entry(
                    entry.license_key@,
                    match entry.spdx_license_key {
                        Some(a) => Some(a@),
                        None => None,
                    },
                    entry.category@,
                ),
            ),
    {
        let key = to_lower(entry.license_key.as_str());
        let record = NewLicense::from_entry(entry);
        self.insert(key, record);
    }

    /// A table of all the entries; a later entry under the same key replaces
    /// an earlier one.
    pub fn from_entries(entries: &Vec<License>) -> (r: LicenseDatabase)
        ensures
            r.wf(),
            r@ == entries_table(entries@),
    {
        let mut db = LicenseDatabase::new();
        let mut i: usize = 0;
        while i < entries.len()
            invariant
                i <= entries.len(),
                db.wf(),
                db@ == entries_table(entries@.take(i as int)),
            decreases entries.len() - i,
        {
            assert(entries@.take(i + 1).drop_last() == entries@.take(i as int));
            db.add_entry(&entries[i]);
            i = i + 1;
        }
        assert(entries@.take(entries.len() as int) == entries@);
        db
    }
}

/// The table that a sequence of dataset entries makes, in order.
pub open spec fn entries_table(entries: Seq<License>) -> Map<Seq<char>, LicenseView>
    decreases entries.len(),
{
    if entries.len() == 0 {
        Map::empty()
    } else {
        let e = entries.last();
        entries_table(entries.drop_last()).insert(
            lower_of(e.license_key@),
            record_of_entry(
                e.license_key@,
                match e.spdx_license_key {
                    Some(a) => Some(a@),
                    None => None,
                },
                e.category@,
            ),
        )
    }
}

} // verus!
