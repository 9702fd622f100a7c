use vstd::prelude::*;
use vstd::slice::slice_to_vec;
use crate::archive::{archive_table, csv_records, zip_entry};
use crate::codec::{content_fingerprint, decode_hex, fingerprint_of, hex_decoded, is_hex_text};
use crate::matcher::{match_pattern, pattern_matches, PatternType};
use crate::text::{str_eq, text_of};

verus! {

/// A known threat: its identity, classification and the pattern that detects it.
pub struct Signature {
    pub id: String,
    pub name: String,
    pub threat_type: String,
    pub risk_level: String,
    pub pattern: Vec<u8>,
    pub pattern_type: PatternType,
    pub target: String,
    pub subplatform: Option<String>,
}

/// The mathematical value of a `Signature`.
pub struct SignatureModel {
    pub id: Seq<char>,
    pub name: Seq<char>,
    pub threat_type: Seq<char>,
    pub risk_level: Seq<char>,
    pub pattern: Seq<u8>,
    pub pattern_type: PatternType,
    pub target: Seq<char>,
    pub subplatform: Option<Seq<char>>,
}

pub open spec fn opt_text(o: Option<String>) -> Option<Seq<char>> {
    match o {
        Some(s) => Some(s@),
        None => None,
    }
}

impl View for Signature {
    type V = SignatureModel;

    open spec fn view(&self) -> SignatureModel {
        SignatureModel {
            id: self.id@,
            name: self.name@,
            threat_type: self.threat_type@,
            risk_level: self.risk_level@,
            pattern: self.pattern@,
            pattern_type: self.pattern_type,
            target: self.target@,
            subplatform: opt_text(self.subplatform),
        }
    }
}

impl Signature {
    /// A copy of this signature with equal contents.
    pub fn duplicate(&self) -> (r: Signature)
        ensures
            r@ == self@,
    {
        let subplatform = match &self.subplatform {
            Some(s) => Some(s.clone()),
            None => None,
        };
        Signature {
            id: self.id.clone(),
            name: self.name.clone(),
            threat_type: self.threat_type.clone(),
            risk_level: self.risk_level.clone(),
            pattern: slice_to_vec(self.pattern.as_slice()),
            pattern_type: self.pattern_type,
            target: self.target.clone(),
            subplatform,
        }
    }
}

/// Why a signature record was refused.
#[derive(Debug, Clone, Copy, PartialEq, Eq, Structural)]
pub enum StoreError {
    /// A record lacks a required field or its pattern is not hexadecimal.
    FormatError,
}

/// The pattern type that a record's tag names; unknown tags mean exact bytes.
pub open spec fn pattern_type_of(tag: Seq<char>) -> PatternType {
    if tag == "bytecode"@ {
        PatternType::ByteSequence
    } else if tag == "extended"@ {
        PatternType::ExtendedByteSequence
    } else if tag == "logical"@ {
        PatternType::LogicalExpression
    } else if tag == "regex"@ {
        PatternType::Regex
    } else if tag == "pe"@ {
        PatternType::PEHeader
    } else if tag == "hash"@ {
        PatternType::Hash
    } else {
        PatternType::ByteSequence
    }
}

/// The texts of a record's columns.
pub open spec fn fields_of(f: Seq<String>) -> Seq<Seq<char>> {
    f.map_values(|s: String| s@)
}

/// The texts of a table of records.
pub open spec fn table_of(records: Seq<Vec<String>>) -> Seq<Seq<Seq<char>>> {
    records.map_values(|r: Vec<String>| fields_of(r@))
}

/// A record can be parsed: it has the seven required columns and a hex pattern.
pub open spec fn record_ok(f: Seq<Seq<char>>) -> bool {
    f.len() >= 7 && is_hex_text(f[4])
}

/// Every record of a table can be parsed.
pub open spec fn table_ok(t: Seq<Seq<Seq<char>>>) -> bool {
    forall|i: int| 0 <= i < t.len() ==> record_ok(#[trigger] t[i])
}

/// The signature that a well-formed record describes, column by column.
pub open spec fn record_model(f: Seq<Seq<char>>) -> SignatureModel {
    SignatureModel {
        id: f[0],
        name: f[1],
        threat_type: f[2],
        risk_level: f[3],
        pattern: hex_decoded(f[4]),
        pattern_type: pattern_type_of(f[5]),
        target: f[6],
        subplatform: if f.len() > 7 {
            Some(f[7])
        } else {
            None
        },
    }
}

/// The records of a table that can be parsed, in order.
pub open spec fn good_records(t: Seq<Seq<Seq<char>>>) -> Seq<Seq<Seq<char>>> {
    t.filter(|f: Seq<Seq<char>>| record_ok(f))
}

/// The signatures that a table of well-formed records describes.
pub open spec fn table_models(t: Seq<Seq<Seq<char>>>) -> Seq<SignatureModel> {
    t.map_values(|f: Seq<Seq<char>>| record_model(f))
}

/// Whether some signature of `s` has the id `id`.
pub open spec fn has_id(s: Seq<SignatureModel>, id: Seq<char>) -> bool {
    exists|i: int| 0 <= i < s.len() && #[trigger] s[i].id == id
}

/// No two signatures share an id.
pub open spec fn unique_ids(s: Seq<SignatureModel>) -> bool {
    forall|i: int, j: int| 0 <= i < s.len() && 0 <= j < s.len() && i != j ==> s[i].id != s[j].id
}

/// Insert-or-replace by id: a signature with the same id is replaced in place,
/// otherwise the new one is appended.
pub open spec fn upsert(s: Seq<SignatureModel>, sig: SignatureModel) -> Seq<SignatureModel> {
    if has_id(s, sig.id) {
        let i = choose|i: int| 0 <= i < s.len() && #[trigger] s[i].id == sig.id;
        s.update(i, sig)
    } else {
        s.push(sig)
    }
}

/// Upserts each signature of `batch` in order.
pub open spec fn upsert_all(s: Seq<SignatureModel>, batch: Seq<SignatureModel>) -> Seq<SignatureModel>
    decreases batch.len(),
{
    if batch.len() == 0 {
        s
    } else {
        upsert(upsert_all(s, batch.drop_last()), batch.last())
    }
}

/// The sum of the pattern lengths of `s`.
pub open spec fn total_pattern_bytes(s: Seq<SignatureModel>) -> nat
    decreases s.len(),
{
    if s.len() == 0 {
        0
    } else {
        total_pattern_bytes(s.drop_last()) + s.last().pattern.len()
    }
}

/// The memory footprint as recorded: the pattern total, saturated at `u64::MAX`.
pub open spec fn footprint(s: Seq<SignatureModel>) -> u64 {
    if total_pattern_bytes(s) <= u64::MAX {
        total_pattern_bytes(s) as u64
    } else {
        u64::MAX
    }
}

/// The index of the first signature, from `start` on, whose pattern matches `data`.
pub open spec fn first_pattern_match(s: Seq<SignatureModel>, data: Seq<u8>, start: int) -> Option<int>
    decreases s.len() - start,
{
    if start < 0 || start >= s.len() {
        None
    } else if pattern_matches(data, s[start].pattern, s[start].pattern_type) {
        Some(start)
    } else {
        first_pattern_match(s, data, start + 1)
    }
}

/// What a store with signatures `s` detects in `data` whose fingerprint is `fp`:
/// the signature whose id is the fingerprint, else the first whose pattern
/// matches, else nothing.
pub open spec fn detection(s: Seq<SignatureModel>, data: Seq<u8>, fp: Seq<char>) -> Option<SignatureModel> {
    if has_id(s, fp) {
        Some(s[choose|i: int| 0 <= i < s.len() && #[trigger] s[i].id == fp])
    } else {
        match first_pattern_match(s, data, 0) {
            Some(i) => Some(s[i]),
            None => None,
        }
    }
}

/// Upserting into a sequence with unique ids keeps them unique.
pub proof fn lemma_upsert_unique(s: Seq<SignatureModel>, sig: SignatureModel)
    requires
        unique_ids(s),
    ensures
        unique_ids(upsert(s, sig)),
        has_id(upsert(s, sig), sig.id),
{
    if has_id(s, sig.id) {
        let i = choose|i: int| 0 <= i < s.len() && #[trigger] s[i].id == sig.id;
        let r = s.update(i, sig);
        assert(r[i].id == sig.id);
    } else {
        let r = s.push(sig);
        assert(r[s.len() as int].id == sig.id);
    }
}

/// Upserting a signature whose id is at index `k` replaces exactly that entry.
proof fn lemma_upsert_at(s: Seq<SignatureModel>, sig: SignatureModel, k: int)
    requires
        unique_ids(s),
        0 <= k < s.len(),
        s[k].id == sig.id,
    ensures
        upsert(s, sig) == s.update(k, sig),
{
    assert(has_id(s, sig.id));
    let i = choose|i: int| 0 <= i < s.len() && #[trigger] s[i].id == sig.id;
    assert(i == k);
}

/// The fingerprint rule picks the one signature whose id is the fingerprint.
proof fn lemma_detection_by_id(s: Seq<SignatureModel>, data: Seq<u8>, fp: Seq<char>, k: int)
    requires
        unique_ids(s),
        0 <= k < s.len(),
        s[k].id == fp,
    ensures
        detection(s, data, fp) == Some(s[k]),
{
    assert(has_id(s, fp));
    let i = choose|i: int| 0 <= i < s.len() && #[trigger] s[i].id == fp;
    assert(i == k);
}

proof fn lemma_first_match_in_range(s: Seq<SignatureModel>, data: Seq<u8>, start: int)
    ensures
        first_pattern_match(s, data, start) matches Some(i) ==> start <= i < s.len(),
    decreases s.len() - start,
{
    if 0 <= start < s.len() && !pattern_matches(data, s[start].pattern, s[start].pattern_type) {
        lemma_first_match_in_range(s, data, start + 1);
    }
}

/// What the store detects is one of its signatures.
pub proof fn lemma_detection_is_loaded(s: Seq<SignatureModel>, data: Seq<u8>, fp: Seq<char>)
    ensures
        detection(s, data, fp) matches Some(m) ==> has_id(s, m.id),
{
    if !has_id(s, fp) {
        lemma_first_match_in_range(s, data, 0);
        if let Some(i) = first_pattern_match(s, data, 0) {
            assert(s[i].id == s[i].id);
        }
    }
}

/// Loading a signature whose id is already present leaves one entry with that
/// id, holding the later signature.
pub proof fn lemma_upsert_idempotent_id(s: Seq<SignatureModel>, a: SignatureModel, b: SignatureModel)
    requires
        unique_ids(s),
        a.id == b.id,
    ensures
        unique_ids(upsert(upsert(s, a), b)),
        exists|i: int|
            0 <= i < upsert(upsert(s, a), b).len() && #[trigger] upsert(upsert(s, a), b)[i] == b,
        forall|i: int|
            0 <= i < upsert(upsert(s, a), b).len() && #[trigger] upsert(upsert(s, a), b)[i].id == b.id
                ==> upsert(upsert(s, a), b)[i] == b,
        upsert(upsert(s, a), b).len() == upsert(s, a).len(),
{
    lemma_upsert_unique(s, a);
    let t = upsert(s, a);
    let k = choose|i: int| 0 <= i < t.len() && #[trigger] t[i].id == a.id;
    lemma_upsert_at(t, b, k);
    lemma_upsert_unique(t, b);
    let r = upsert(t, b);
    assert(r[k] == b);
}

/// A signature archive is a file whose name ends in `.cvd`.
pub open spec fn is_archive_name(name: Seq<char>) -> bool {
    name.len() >= 4 && name.subrange(name.len() - 4, name.len() as int) == ".cvd"@
}

/// Whether a directory entry of this name is loaded as a signature archive.
pub fn is_signature_archive(name: &str) -> (r: bool)
    ensures
        r == is_archive_name(name@),
{
    let n: usize = name.unicode_len();
    if n < 4 {
        return false;
    }
    str_eq(name.substring_char(n - 4, n), ".cvd")
}

pub fn parse_pattern_type(tag: &str) -> (r: PatternType)
    ensures
        r == pattern_type_of(tag@),
{
    if str_eq(tag, "bytecode") {
        PatternType::ByteSequence
    } else if str_eq(tag, "extended") {
        PatternType::ExtendedByteSequence
    } else if str_eq(tag, "logical") {
        PatternType::LogicalExpression
    } else if str_eq(tag, "regex") {
        PatternType::Regex
    } else if str_eq(tag, "pe") {
        PatternType::PEHeader
    } else if str_eq(tag, "hash") {
        PatternType::Hash
    } else {
        PatternType::ByteSequence
    }
}

/// Parses one tabular record: id, name, threat type, risk level, hex pattern,
/// pattern-type tag, target and an optional subplatform.
pub fn parse_record(fields: &Vec<String>) -> (r: Result<Signature, StoreError>)
    ensures
        r.is_ok() == record_ok(fields_of(fields@)),
        r.is_ok() ==> r.unwrap()@ == record_model(fields_of(fields@)),
        r.is_err() ==> r == Err::<Signature, StoreError>(StoreError::FormatError),
{
    if fields.len() < 7 {
        return Err(StoreError::FormatError);
    }
    let pattern = match decode_hex(fields[4].as_str()) {
        Some(p) => p,
        None => return Err(StoreError::FormatError),
    };
    let subplatform = if fields.len() > 7 {
        Some(fields[7].clone())
    } else {
        None
    };
    Ok(Signature {
        id: fields[0].clone(),
        name: fields[1].clone(),
        threat_type: fields[2].clone(),
        risk_level: fields[3].clone(),
        pattern,
        pattern_type: parse_pattern_type(fields[5].as_str()),
        target: fields[6].clone(),
        subplatform,
    })
}

/// The signature store: signatures keyed by id, with version, last-update
/// time and the total size of all patterns.
pub struct SignatureDatabase {
    signatures: Vec<Signature>,
    memory_usage: u64,
    last_update: Option<u64>,
    version: String,
}

impl SignatureDatabase {
    /// The signatures held, in the order in which their ids were first loaded.
    pub closed spec fn models(&self) -> Seq<SignatureModel> {
        self.signatures@.map_values(|s: Signature| s@)
    }

    pub closed spec fn spec_memory_usage(&self) -> u64 {
        self.memory_usage
    }

    pub closed spec fn spec_last_update(&self) -> Option<u64> {
        self.last_update
    }

    pub closed spec fn spec_version(&self) -> Seq<char> {
        self.version@
    }

    /// Ids are unique and the recorded footprint is that of the patterns held.
    pub closed spec fn wf(&self) -> bool {
        unique_ids(self.models()) && self.memory_usage == footprint(self.models())
    }

    /// An empty store at version "0.0.0".
    pub fn new() -> (r: Self)
        ensures
            r.wf(),
            r.models() == Seq::<SignatureModel>::empty(),
            r.spec_memory_usage() == 0,
            r.spec_last_update() is None,
            r.spec_version() == "0.0.0"@,
    {
        let r = SignatureDatabase {
            signatures: Vec::new(),
            memory_usage: 0,
            last_update: None,
            version: text_of("0.0.0"),
        };
        assert(r.models() =~= Seq::<SignatureModel>::empty());
        r
    }

    /// The sum of all pattern lengths, saturated at `u64::MAX`.
    fn calculate_memory_usage(&self) -> (r: u64)
        ensures
            r == footprint(self.models()),
    {
        let mut acc: u64 = 0;
        let mut i: usize = 0;
        while i < self.signatures.len()
            invariant
                i <= self.signatures@.len(),
                acc == footprint(self.models().subrange(0, i as int)),
            decreases self.signatures@.len() - i,
        {
            let ghost m = self.models();
            assert(m.subrange(0, i + 1).drop_last() =~= m.subrange(0, i as int));
            let len: usize = self.signatures[i].pattern.len();
            acc = acc.saturating_add(len as u64);
            i = i + 1;
        }
        assert(self.models().subrange(0, i as int) =~= self.models());
        acc
    }

    /// Upserts one signature by id.
    fn upsert_one(&mut self, sig: Signature)
        requires
            unique_ids(old(self).models()),
        ensures
            unique_ids(final(self).models()),
            final(self).models() == upsert(old(self).models(), sig@),
            final(self).memory_usage == old(self).memory_usage,
            final(self).last_update == old(self).last_update,
            final(self).version == old(self).version,
    {
        let ghost m = self.models();
        proof {
            lemma_upsert_unique(m, sig@);
        }
        let mut i: usize = 0;
        while i < self.signatures.len()
            invariant
                i <= self.signatures@.len(),
                m == self.models(),
                m == old(self).models(),
                unique_ids(m),
                unique_ids(upsert(m, sig@)),
                self.memory_usage == old(self).memory_usage,
                self.last_update == old(self).last_update,
                self.version == old(self).version,
                forall|t: int| 0 <= t < i ==> #[trigger] m[t].id != sig.id@,
            decreases self.signatures@.len() - i,
        {
            if self.signatures[i].id == sig.id {
                proof {
                    lemma_upsert_at(m, sig@, i as int);
                }
                self.signatures.set(i, sig);
                assert(self.models() =~= m.update(i as int, sig@));
                return;
            }
            i = i + 1;
        }
        assert(!has_id(m, sig.id@));
        self.signatures.push(sig);
        assert(self.models() =~= m.push(sig@));
    }

    /// Upserts every signature of a batch in order, then records the footprint.
    pub fn update_signatures(&mut self, new_signatures: Vec<Signature>) -> (r: Result<(), StoreError>)
        requires
            old(self).wf(),
        ensures
            r.is_ok(),
            final(self).wf(),
            final(self).models() == upsert_all(
                old(self).models(),
                new_signatures@.map_values(|s: Signature| s@),
            ),
            final(self).spec_memory_usage() == footprint(final(self).models()),
            final(self).spec_last_update() == old(self).spec_last_update(),
            final(self).spec_version() == old(self).spec_version(),
    {
        let ghost start = self.models();
        let ghost batch = new_signatures@.map_values(|s: Signature| s@);
        let mut rest = new_signatures;
        let mut i: usize = 0;
        let total: usize = rest.len();
        // Signatures are taken by value from the back, so they are moved once
        // into a reversed queue and then popped from it in batch order.
        let mut queue: Vec<Signature> = Vec::new();
        while rest.len() > 0
            invariant
                queue@.len() + rest@.len() == total,
                total == batch.len(),
                batch == rest@.map_values(|s: Signature| s@) + queue@.reverse().map_values(|s: Signature| s@),
            decreases rest@.len(),
        {
            let s = rest.pop().unwrap();
            proof {
                let qv = queue@.reverse().map_values(|s: Signature| s@);
                assert(rest@.push(s).map_values(|s: Signature| s@) =~= rest@.map_values(|s: Signature| s@).push(s@));
                assert(queue@.push(s).reverse().map_values(|s: Signature| s@) =~= seq![s@] + qv);
            }
            queue.push(s);
        }
        assert(rest@.map_values(|s: Signature| s@) =~= Seq::<SignatureModel>::empty());
        assert(batch =~= queue@.reverse().map_values(|s: Signature| s@));
        while queue.len() > 0
            invariant
                unique_ids(self.models()),
                i <= total,
                total == batch.len(),
                queue@.len() + i == total,
                forall|t: int| 0 <= t < queue@.len() ==> #[trigger] queue@[t]@ == batch[total - 1 - t],
                self.models() == upsert_all(start, batch.subrange(0, i as int)),
                self.last_update == old(self).last_update,
                self.version == old(self).version,
            decreases queue@.len(),
        {
            let s = queue.pop().unwrap();
            proof {
                assert(batch.subrange(0, i + 1).drop_last() =~= batch.subrange(0, i as int));
            }
            self.upsert_one(s);
            i = i + 1;
        }
        assert(batch.subrange(0, i as int) =~= batch);
        self.memory_usage = self.calculate_memory_usage();
        Ok(())
    }

    /// Parses every record and upserts, in order, those that parse. A record
    /// that cannot be parsed is skipped, and then the load reports
    /// `FormatError`; the other records are loaded all the same.
    pub fn load_records(&mut self, records: &Vec<Vec<String>>) -> (r: Result<(), StoreError>)
        requires
            old(self).wf(),
        ensures
            final(self).wf(),
            r.is_ok() == table_ok(table_of(records@)),
            r.is_err() ==> r == Err::<(), StoreError>(StoreError::FormatError),
            final(self).models() == upsert_all(old(self).models(), table_models(good_records(table_of(records@)))),
            final(self).spec_memory_usage() == footprint(final(self).models()),
            final(self).spec_last_update() == old(self).spec_last_update(),
            final(self).spec_version() == old(self).spec_version(),
    {
        let ghost table = table_of(records@);
        let mut parsed: Vec<Signature> = Vec::new();
        let mut all_ok = true;
        let mut i: usize = 0;
        while i < records.len()
            invariant
                self.wf(),
                *self == *old(self),
                table == table_of(records@),
                i <= records@.len(),
                all_ok == table_ok(table.subrange(0, i as int)),
                parsed@.map_values(|s: Signature| s@) == table_models(good_records(table.subrange(0, i as int))),
            decreases records@.len() - i,
        {
            let ghost before = parsed@;
            assert(table[i as int] == fields_of(records@[i as int]@));
            let ok = match parse_record(&records[i]) {
                Ok(sig) => {
                    parsed.push(sig);
                    true
                },
                Err(_) => false,
            };
            proof {
                reveal(Seq::filter);
                let sub = table.subrange(0, i + 1);
                assert(sub.drop_last() =~= table.subrange(0, i as int));
                assert(sub.last() == table[i as int]);
                if ok {
                    assert(parsed@.map_values(|s: Signature| s@) =~= before.map_values(|s: Signature| s@).push(
                        record_model(table[i as int]),
                    ));
                    assert(table_models(good_records(sub)) =~= table_models(good_records(table.subrange(0, i as int))).push(
                        record_model(table[i as int]),
                    ));
                } else {
                    assert(parsed@ == before);
                    assert(good_records(sub) == good_records(table.subrange(0, i as int)));
                }
                if all_ok && ok {
                    assert forall|t: int| 0 <= t < sub.len() implies record_ok(#[trigger] sub[t]) by {
                        if t < i {
                            assert(sub[t] == table.subrange(0, i as int)[t]);
                        }
                    }
                } else if !ok {
                    assert(!record_ok(sub[i as int]));
                } else {
                    let t = choose|t: int| 0 <= t < i && !record_ok(#[trigger] table.subrange(0, i as int)[t]);
                    assert(sub[t] == table.subrange(0, i as int)[t]);
                }
            }
            all_ok = all_ok && ok;
            i = i + 1;
        }
        assert(table.subrange(0, i as int) =~= table);
        let _ = self.update_signatures(parsed);
        if all_ok {
            Ok(())
        } else {
            Err(StoreError::FormatError)
        }
    }

    /// Loads a signature archive held in memory: the records of its `main.cvd`
    /// entry, as `load_records` does. An archive that cannot be read leaves the
    /// store as it was.
    pub fn load_from_cvd(&mut self, archive: &[u8]) -> (r: Result<(), StoreError>)
        requires
            old(self).wf(),
        ensures
            final(self).wf(),
            r.is_ok() == (archive_table(archive@) is Some && table_ok(archive_table(archive@)->Some_0)),
            r.is_err() ==> r == Err::<(), StoreError>(StoreError::FormatError),
            archive_table(archive@) is None ==> *final(self) == *old(self),
            archive_table(archive@) is Some ==> final(self).models() == upsert_all(
                old(self).models(),
                table_models(good_records(archive_table(archive@)->Some_0)),
            ),
            final(self).spec_memory_usage() == footprint(final(self).models()),
            final(self).spec_last_update() == old(self).spec_last_update(),
            final(self).spec_version() == old(self).spec_version(),
    {
        let text = match zip_entry(archive, "main.cvd") {
            Some(t) => t,
            None => return Err(StoreError::FormatError),
        };
        let records = match csv_records(text.as_slice()) {
            Some(t) => t,
            None => return Err(StoreError::FormatError),
        };
        self.load_records(&records)
    }

    /// The signature with the given id, if one is loaded.
    pub fn lookup_by_id(&self, id: &str) -> (r: Option<Signature>)
        requires
            self.wf(),
        ensures
            r.is_some() == has_id(self.models(), id@),
            r.is_some() ==> r.unwrap()@.id == id@ && exists|i: int|
                0 <= i < self.models().len() && #[trigger] self.models()[i] == r.unwrap()@,
    {
        let mut i: usize = 0;
        while i < self.signatures.len()
            invariant
                i <= self.signatures@.len(),
                forall|t: int| 0 <= t < i ==> #[trigger] self.models()[t].id != id@,
            decreases self.signatures@.len() - i,
        {
            if str_eq(self.signatures[i].id.as_str(), id) {
                let r = self.signatures[i].duplicate();
                assert(self.models()[i as int].id == id@);
                assert(self.models()[i as int] == r@);
                return Some(r);
            }
            i = i + 1;
        }
        None
    }

    /// The signature whose id equals a whole-content fingerprint, if any.
    pub fn lookup_by_content_hash(&self, hash: &str) -> (r: Option<Signature>)
        requires
            self.wf(),
        ensures
            r.is_some() == has_id(self.models(), hash@),
            r.is_some() ==> r.unwrap()@.id == hash@ && exists|i: int|
                0 <= i < self.models().len() && #[trigger] self.models()[i] == r.unwrap()@,
    {
        self.lookup_by_id(hash)
    }

    /// What the store detects in `data`, given the content's fingerprint `fp`.
    pub fn detect_with_fingerprint(&self, data: &[u8], fp: &str) -> (r: Option<Signature>)
        requires
            self.wf(),
        ensures
            match r {
                Some(s) => detection(self.models(), data@, fp@) == Some(s@),
                None => detection(self.models(), data@, fp@) is None,
            },
    {
        let n: usize = self.signatures.len();
        let mut i: usize = 0;
        while i < n
            invariant
                self.wf(),
                n == self.signatures@.len(),
                i <= n,
                forall|t: int| 0 <= t < i ==> #[trigger] self.models()[t].id != fp@,
            decreases n - i,
        {
            if str_eq(self.signatures[i].id.as_str(), fp) {
                proof {
                    lemma_detection_by_id(self.models(), data@, fp@, i as int);
                }
                return Some(self.signatures[i].duplicate());
            }
            i = i + 1;
        }
        assert(!has_id(self.models(), fp@));
        let mut j: usize = 0;
        while j < n
            invariant
                self.wf(),
                n == self.signatures@.len(),
                j <= n,
                !has_id(self.models(), fp@),
                first_pattern_match(self.models(), data@, 0) == first_pattern_match(
                    self.models(),
                    data@,
                    j as int,
                ),
            decreases n - j,
        {
            let s = &self.signatures[j];
            if match_pattern(data, s.pattern.as_slice(), s.pattern_type) {
                return Some(s.duplicate());
            }
            j = j + 1;
        }
        None
    }

    /// What the store detects in the given content, fingerprinted by CRC-32.
    pub fn scan_bytes(&self, data: &[u8]) -> (r: Option<Signature>)
        requires
            self.wf(),
        ensures
            match r {
                Some(s) => detection(self.models(), data@, fingerprint_of(data@)) == Some(s@),
                None => detection(self.models(), data@, fingerprint_of(data@)) is None,
            },
    {
        let fp = content_fingerprint(data);
        self.detect_with_fingerprint(data, fp.as_str())
    }

    /// The ids of the signatures of one threat type, in store order.
    pub fn ids_by_threat_type(&self, threat_type: &str) -> (r: Vec<String>)
        ensures
            r@.map_values(|s: String| s@) == self.models().filter(
                |m: SignatureModel| m.threat_type == threat_type@,
            ).map_values(|m: SignatureModel| m.id),
    {
        let mut r: Vec<String> = Vec::new();
        let mut i: usize = 0;
        while i < self.signatures.len()
            invariant
                i <= self.signatures@.len(),
                r@.map_values(|s: String| s@) == self.models().subrange(0, i as int).filter(
                    |m: SignatureModel| m.threat_type == threat_type@,
                ).map_values(|m: SignatureModel| m.id),
            decreases self.signatures@.len() - i,
        {
            let ghost m = self.models();
            let ghost before = r@;
            let hit = str_eq(self.signatures[i].threat_type.as_str(), threat_type);
            if hit {
                r.push(self.signatures[i].id.clone());
            }
            proof {
                reveal(Seq::filter);
                let pred = |m: SignatureModel| m.threat_type == threat_type@;
                let sub = m.subrange(0, i + 1);
                assert(sub.drop_last() =~= m.subrange(0, i as int));
                assert(sub.last() == m[i as int]);
                assert(pred(m[i as int]) == hit);
                if hit {
                    assert(r@.map_values(|s: String| s@) =~= before.map_values(|s: String| s@).push(m[i as int].id));
                    assert(sub.filter(pred) == m.subrange(0, i as int).filter(pred).push(m[i as int]));
                } else {
                    assert(r@ == before);
                    assert(sub.filter(pred) == m.subrange(0, i as int).filter(pred));
                }
                assert(r@.map_values(|s: String| s@) =~= sub.filter(
                    |m: SignatureModel| m.threat_type == threat_type@,
                ).map_values(|m: SignatureModel| m.id));
            }
            i = i + 1;
        }
        assert(self.models().subrange(0, i as int) =~= self.models());
        r
    }

    pub fn get_memory_usage(&self) -> (r: u64)
        ensures
            r == self.spec_memory_usage(),
    {
        self.memory_usage
    }

    pub fn get_signature_count(&self) -> (r: usize)
        ensures
            r == self.models().len(),
    {
        self.signatures.len()
    }

    pub fn get_last_update(&self) -> (r: Option<u64>)
        ensures
            r == self.spec_last_update(),
    {
        self.last_update
    }

    pub fn set_last_update(&mut self, time: u64)
        ensures
            final(self).spec_last_update() == Some(time),
            final(self).models() == old(self).models(),
            final(self).spec_version() == old(self).spec_version(),
            final(self).spec_memory_usage() == old(self).spec_memory_usage(),
            old(self).wf() ==> final(self).wf(),
    {
        self.last_update = Some(time);
    }

    pub fn get_version(&self) -> (r: String)
        ensures
            r@ == self.spec_version(),
    {
        self.version.clone()
    }

    pub fn set_version(&mut self, version: String)
        ensures
            final(self).spec_version() == version@,
            final(self).models() == old(self).models(),
            final(self).spec_last_update() == old(self).spec_last_update(),
            final(self).spec_memory_usage() == old(self).spec_memory_usage(),
            old(self).wf() ==> final(self).wf(),
    {
        self.version = version;
    }
}

/// A snapshot of the scanner's state for status queries.
pub struct ScannerStatus {
    pub running: bool,
    pub signature_count: usize,
    pub memory_usage_bytes: u64,
    pub last_scan: Option<u64>,
    pub database_version: String,
}

impl ScannerStatus {
    /// The status of a scanner over `db`.
    pub fn of_database(db: &SignatureDatabase, running: bool, last_scan: Option<u64>) -> (r: Self)
        ensures
            r.running == running,
            r.signature_count == db.models().len(),
            r.memory_usage_bytes == db.spec_memory_usage(),
            r.last_scan == last_scan,
            r.database_version@ == db.spec_version(),
    {
        ScannerStatus {
            running,
            signature_count: db.get_signature_count(),
            memory_usage_bytes: db.get_memory_usage(),
            last_scan,
            database_version: db.get_version(),
        }
    }
}

} // verus!
