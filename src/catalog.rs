use vstd::prelude::*;

verus! {

/// A device record as a mathematical value.
pub ghost struct RecordModel {
    pub id: Seq<char>,
    pub target_mac: Seq<char>,
    pub description: Seq<char>,
    pub secret: Seq<char>,
}

/// One registered device: the id it connects under, the MAC address that a
/// wake command addresses, a display description and the wake secret.
#[derive(Clone, Debug, PartialEq, Eq)]
pub struct DeviceRecord {
    pub id: String,
    pub target_mac: String,
    pub description: String,
    pub secret: String,
}

impl View for DeviceRecord {
    type V = RecordModel;

    open spec fn view(&self) -> RecordModel {
        RecordModel {
            id: self.id@,
            target_mac: self.target_mac@,
            description: self.description@,
            secret: self.secret@,
        }
    }
}

impl DeviceRecord {
    pub fn new(id: String, target_mac: String, description: String, secret: String) -> (r:
        DeviceRecord)
        ensures
            r.id@ == id@,
            r.target_mac@ == target_mac@,
            r.description@ == description@,
            r.secret@ == secret@,
    {
        DeviceRecord { id, target_mac, description, secret }
    }

    /// A field-by-field copy of the record.
    pub fn duplicate(&self) -> (r: DeviceRecord)
        ensures
            r@ == self@,
    {
        DeviceRecord {
            id: self.id.clone(),
            target_mac: self.target_mac.clone(),
            description: self.description.clone(),
            secret: self.secret.clone(),
        }
    }
}

/// Outcome of checking a secret against the catalog.
#[derive(Clone, Copy, Debug, PartialEq, Eq, Structural)]
pub enum AuthResult {
    /// No record has the id.
    Unknown,
    /// A record has the id, but its secret differs.
    Denied,
    /// The secret equals the record's secret exactly.
    Granted,
}

/// The views of a sequence of records.
pub open spec fn models(v: Seq<DeviceRecord>) -> Seq<RecordModel> {
    v.map_values(|r: DeviceRecord| r@)
}

/// `s` lists the records of `m`, each exactly once, in some order.
pub open spec fn is_listing(s: Seq<RecordModel>, m: Map<Seq<char>, RecordModel>) -> bool {
    &&& forall|i: int| 0 <= i < s.len() ==> m.contains_key(#[trigger] s[i].id) && m[s[i].id] == s[i]
    &&& forall|k: Seq<char>| #[trigger] m.contains_key(k) ==> exists|i: int| 0 <= i < s.len() && s[i].id == k
    &&& forall|i: int, j: int| 0 <= i < s.len() && 0 <= j < s.len() && i != j ==> s[i].id != s[j].id
}

/// The answer that authentication owes for `id` and `secret` against `m`.
pub open spec fn auth_spec(m: Map<Seq<char>, RecordModel>, id: Seq<char>, secret: Seq<char>) -> AuthResult {
    if !m.contains_key(id) {
        AuthResult::Unknown
    } else if m[id].secret == secret {
        AuthResult::Granted
    } else {
        AuthResult::Denied
    }
}

/// Upserting a record and then looking up its id gives back that record,
/// unchanged, whatever the catalog held before.
pub proof fn lemma_upsert_then_lookup(m: Map<Seq<char>, RecordModel>, r: RecordModel)
    ensures
        m.insert(r.id, r).contains_key(r.id),
        m.insert(r.id, r)[r.id] == r,
{
}

/// Upserting the same record twice leaves the catalog as one upsert does, and
/// every listing of it then holds exactly one record with that id.
pub proof fn lemma_upsert_twice_lists_once(
    m: Map<Seq<char>, RecordModel>,
    r: RecordModel,
    s: Seq<RecordModel>,
)
    requires
        is_listing(s, m.insert(r.id, r).insert(r.id, r)),
    ensures
        m.insert(r.id, r).insert(r.id, r) == m.insert(r.id, r),
        exists|i: int|
            0 <= i < s.len() && s[i] == r && forall|j: int|
                0 <= j < s.len() && #[trigger] s[j].id == r.id ==> j == i,
{
    let m2 = m.insert(r.id, r).insert(r.id, r);
    assert(m2 =~= m.insert(r.id, r));
    assert(m2.contains_key(r.id));
    let i = choose|i: int| 0 <= i < s.len() && s[i].id == r.id;
    assert(s[i] == r);
}

/// For a record with secret `secret`: that secret is granted, the secret with
/// one more character appended is denied, and an id with no record is unknown
/// whatever the secret.
pub proof fn lemma_auth_correct(
    m: Map<Seq<char>, RecordModel>,
    id: Seq<char>,
    secret: Seq<char>,
    absent: Seq<char>,
    any: Seq<char>,
    extra: char,
)
    requires
        m.contains_key(id),
        m[id].secret == secret,
        !m.contains_key(absent),
    ensures
        auth_spec(m, id, secret) == AuthResult::Granted,
        auth_spec(m, id, secret.push(extra)) == AuthResult::Denied,
        auth_spec(m, absent, any) == AuthResult::Unknown,
{
    assert(secret.push(extra).len() != secret.len());
}

/// The device catalog: at most one record per id.
pub struct DeviceCatalog {
    records: Vec<DeviceRecord>,
    model: Ghost<Map<Seq<char>, RecordModel>>,
}

impl View for DeviceCatalog {
    type V = Map<Seq<char>, RecordModel>;

    closed spec fn view(&self) -> Map<Seq<char>, RecordModel> {
        self.model@
    }
}

impl DeviceCatalog {
    pub closed spec fn wf(&self) -> bool {
        is_listing(models(self.records@), self.model@)
    }

    /// An empty catalog.
    pub fn new() -> (r: DeviceCatalog)
        ensures
            r.wf(),
            r@ == Map::<Seq<char>, RecordModel>::empty(),
    {
        DeviceCatalog { records: Vec::new(), model: Ghost(Map::empty()) }
    }

    /// The position of the record with `id`, if there is one.
    fn find(&self, id: &String) -> (r: Option<usize>)
        requires
            self.wf(),
        ensures
            match r {
                Some(i) => i < self.records@.len() && self.records@[i as int].id@ == id@,
                None => !self@.contains_key(id@),
            },
    {
        let mut i: usize = 0;
        while i < self.records.len()
            invariant
                self.wf(),
                i <= self.records@.len(),
                forall|j: int| 0 <= j < i ==> (#[trigger] self.records@[j]).id@ != id@,
            decreases self.records.len() - i,
        {
            if self.records[i].id == *id {
                return Some(i);
            }
            i += 1;
        }
        proof {
            if self.model@.contains_key(id@) {
                let k = choose|k: int|
                    0 <= k < models(self.records@).len() && models(self.records@)[k].id == id@;
                assert(self.records@[k].id@ == id@);
            }
        }
        None
    }

    /// Inserts `record`, replacing any record with the same id.
    pub fn upsert(&mut self, record: DeviceRecord)
        requires
            old(self).wf(),
        ensures
            final(self).wf(),
            final(self)@ == old(self)@.insert(record.id@, record@),
    {
        let ghost old_models = models(self.records@);
        let ghost old_map = self.model@;
        let ghost m = record@;
        match self.find(&record.id) {
            Some(i) => {
                proof {
                    self.lemma_entry(i as int);
                }
                self.records[i] = record;
                self.model = Ghost(old_map.insert(m.id, m));
                let ghost s = models(self.records@);
                assert(s =~= old_models.update(i as int, m));
                assert(old_models[i as int].id == m.id);
                assert forall|k: Seq<char>| #[trigger] self.model@.contains_key(k) implies exists|
                    j: int,
                | 0 <= j < s.len() && s[j].id == k by {
                    if k != m.id {
                        assert(old_map.contains_key(k));
                        let j = choose|j: int| 0 <= j < old_models.len() && old_models[j].id == k;
                        assert(s[j].id == k);
                    } else {
                        assert(s[i as int].id == k);
                    }
                }
            },
            None => {
                let ghost n = self.records@.len();
                self.records.push(record);
                self.model = Ghost(old_map.insert(m.id, m));
                let ghost s = models(self.records@);
                assert(s =~= old_models.push(m));
                assert(s[n as int].id == m.id);
                assert forall|j: int| 0 <= j < n implies #[trigger] s[j].id != m.id by {
                    assert(old_map.contains_key(old_models[j].id));
                }
                assert forall|k: Seq<char>| #[trigger] self.model@.contains_key(k) implies exists|
                    j: int,
                | 0 <= j < s.len() && s[j].id == k by {
                    if k != m.id {
                        assert(old_map.contains_key(k));
                        let j = choose|j: int| 0 <= j < old_models.len() && old_models[j].id == k;
                        assert(s[j].id == k);
                    } else {
                        assert(s[n as int].id == k);
                    }
                }
            },
        }
    }

    proof fn lemma_entry(&self, i: int)
        requires
            self.wf(),
            0 <= i < self.records@.len(),
        ensures
            self@.contains_key(self.records@[i].id@),
            self@[self.records@[i].id@] == self.records@[i]@,
            models(self.records@)[i] == self.records@[i]@,
    {
        assert(models(self.records@)[i] == self.records@[i]@);
        assert(self.model@.contains_key(models(self.records@)[i].id));
    }

    /// Copies of all records, each exactly once, in unspecified order.
    pub fn list_all(&self) -> (r: Vec<DeviceRecord>)
        requires
            self.wf(),
        ensures
            is_listing(models(r@), self@),
    {
        let mut out: Vec<DeviceRecord> = Vec::new();
        let mut i: usize = 0;
        while i < self.records.len()
            invariant
                self.wf(),
                i <= self.records@.len(),
                out@.len() == i,
                forall|j: int| 0 <= j < i ==> (#[trigger] out@[j])@ == self.records@[j]@,
            decreases self.records.len() - i,
        {
            out.push(self.records[i].duplicate());
            i += 1;
        }
        assert(models(out@) =~= models(self.records@));
        out
    }

    /// The record with `id`, if any.
    pub fn lookup(&self, id: &String) -> (r: Option<DeviceRecord>)
        requires
            self.wf(),
        ensures
            match r {
                Some(x) => self@.contains_key(id@) && self@[id@] == x@,
                None => !self@.contains_key(id@),
            },
    {
        match self.find(id) {
            Some(i) => {
                proof {
                    self.lemma_entry(i as int);
                }
                Some(self.records[i].duplicate())
            },
            None => None,
        }
    }

    /// Checks `secret` against the record with `id`, byte for byte.
    pub fn authenticate(&self, id: &String, secret: &String) -> (r: AuthResult)
        requires
            self.wf(),
        ensures
            r == auth_spec(self@, id@, secret@),
    {
        match self.find(id) {
            Some(i) => {
                proof {
                    self.lemma_entry(i as int);
                }
                if self.records[i].secret == *secret {
                    AuthResult::Granted
                } else {
                    AuthResult::Denied
                }
            },
            None => AuthResult::Unknown,
        }
    }
}

} // verus!
