use vstd::prelude::*;
use std::sync::Arc;
use crate::cache::{after_get, after_put, ScanCache};
use crate::codec::fingerprint_of;
use crate::paths::{is_excluded, should_exclude};
use crate::store::{detection, has_id, lemma_detection_is_loaded, Signature, SignatureDatabase, SignatureModel};
use crate::text::str_eq;

verus! {

/// How many path verdicts the scan cache of an engine keeps.
pub const CACHE_CAPACITY: usize = 10000;

/// Which roots a scan walks.
#[derive(Debug, Clone, Copy, PartialEq, Eq, Structural)]
pub enum ScanMode {
    /// The configured quick-scan paths.
    Quick,
    /// The top-level entries of the root filesystem.
    Full,
    /// The caller's paths.
    Custom,
}

/// What one scan does; fixed for the duration of the scan.
pub struct ScanOptions {
    pub scan_mode: ScanMode,
    pub custom_paths: Vec<String>,
    pub exclude_paths: Vec<String>,
    pub exclude_extensions: Vec<String>,
    pub max_file_size: u64,
    pub thread_count: usize,
    pub quick_scan_paths: Vec<String>,
}

/// Threat category of a detection.
#[derive(Debug, Clone, Copy, PartialEq, Eq, Structural)]
pub enum ThreatType {
    Virus,
    Trojan,
    Worm,
    Ransomware,
    Rootkit,
    Adware,
    Spyware,
    HackTool,
    PUA,
    Unknown,
}

/// Severity of a detection.
#[derive(Debug, Clone, Copy, PartialEq, Eq, Structural)]
pub enum RiskLevel {
    Low,
    Medium,
    High,
    Critical,
}

/// The lower-case form of a text, as `str::to_lowercase` gives it.
pub uninterp spec fn lower_of(s: Seq<char>) -> Seq<char>;

/// Relies on str::to_lowercase: the result depends on the characters alone.
#[verifier::external_body]
fn lowercase(s: &str) -> (r: String)
    ensures
        r@ == lower_of(s@),
{
    s.to_lowercase()
}

/// The threat type that a lower-case name stands for; other names are `Unknown`.
pub open spec fn threat_type_named(l: Seq<char>) -> ThreatType {
    if l == "virus"@ {
        ThreatType::Virus
    } else if l == "trojan"@ {
        ThreatType::Trojan
    } else if l == "worm"@ {
        ThreatType::Worm
    } else if l == "ransomware"@ {
        ThreatType::Ransomware
    } else if l == "rootkit"@ {
        ThreatType::Rootkit
    } else if l == "adware"@ {
        ThreatType::Adware
    } else if l == "spyware"@ {
        ThreatType::Spyware
    } else if l == "hacktool"@ {
        ThreatType::HackTool
    } else if l == "pua"@ {
        ThreatType::PUA
    } else {
        ThreatType::Unknown
    }
}

/// The risk level that a lower-case name stands for; other names are `Low`.
pub open spec fn risk_level_named(l: Seq<char>) -> RiskLevel {
    if l == "critical"@ {
        RiskLevel::Critical
    } else if l == "high"@ {
        RiskLevel::High
    } else if l == "medium"@ {
        RiskLevel::Medium
    } else {
        RiskLevel::Low
    }
}

impl ThreatType {
    /// Classifies an already lower-case name.
    pub fn from_lowercase(l: &str) -> (r: ThreatType)
        ensures
            r == threat_type_named(l@),
    {
        if str_eq(l, "virus") {
            ThreatType::Virus
        } else if str_eq(l, "trojan") {
            ThreatType::Trojan
        } else if str_eq(l, "worm") {
            ThreatType::Worm
        } else if str_eq(l, "ransomware") {
            ThreatType::Ransomware
        } else if str_eq(l, "rootkit") {
            ThreatType::Rootkit
        } else if str_eq(l, "adware") {
            ThreatType::Adware
        } else if str_eq(l, "spyware") {
            ThreatType::Spyware
        } else if str_eq(l, "hacktool") {
            ThreatType::HackTool
        } else if str_eq(l, "pua") {
            ThreatType::PUA
        } else {
            ThreatType::Unknown
        }
    }

    /// Classifies a name regardless of case.
    pub fn from_name(s: &str) -> (r: ThreatType)
        ensures
            r == threat_type_named(lower_of(s@)),
    {
        let l = lowercase(s);
        ThreatType::from_lowercase(l.as_str())
    }
}

impl RiskLevel {
    /// Classifies an already lower-case name.
    pub fn from_lowercase(l: &str) -> (r: RiskLevel)
        ensures
            r == risk_level_named(l@),
    {
        if str_eq(l, "critical") {
            RiskLevel::Critical
        } else if str_eq(l, "high") {
            RiskLevel::High
        } else if str_eq(l, "medium") {
            RiskLevel::Medium
        } else {
            RiskLevel::Low
        }
    }

    /// Classifies a name regardless of case.
    pub fn from_name(s: &str) -> (r: RiskLevel)
        ensures
            r == risk_level_named(lower_of(s@)),
    {
        let l = lowercase(s);
        RiskLevel::from_lowercase(l.as_str())
    }
}

/// Facts about a detected file.
pub struct FileInfo {
    pub size: u64,
    pub permissions: String,
    pub created: Option<u64>,
    pub modified: Option<u64>,
    pub accessed: Option<u64>,
}

/// One detection: a file and the signature that matched it.
pub struct ScanResult {
    pub file_path: String,
    pub threat_type: ThreatType,
    pub risk_level: RiskLevel,
    pub signature_id: String,
    pub file_info: FileInfo,
}

/// `r` reports signature `sig` for the file at `path` of `size` bytes.
pub open spec fn reports(r: ScanResult, path: Seq<char>, sig: SignatureModel, size: u64) -> bool {
    &&& r.file_path@ == path
    &&& r.signature_id@ == sig.id
    &&& r.threat_type == threat_type_named(lower_of(sig.threat_type))
    &&& r.risk_level == risk_level_named(lower_of(sig.risk_level))
    &&& r.file_info.size == size
}

/// `x + d`, held at `usize::MAX`.
pub open spec fn bump(x: usize, d: int) -> usize {
    if x + d <= usize::MAX {
        (x + d) as usize
    } else {
        usize::MAX
    }
}

fn add_capped(x: usize, d: u64) -> (r: usize)
    ensures
        r == bump(x, d as int),
{
    if d > (usize::MAX - x) as u64 {
        usize::MAX
    } else {
        x + d as usize
    }
}

/// Counters of one scan.
pub struct ScanStats {
    pub files_scanned: usize,
    pub threats_found: usize,
    pub bytes_scanned: usize,
    pub errors: usize,
}

impl ScanStats {
    /// All counters at zero.
    pub fn new() -> (r: Self)
        ensures
            r.files_scanned == 0,
            r.threats_found == 0,
            r.bytes_scanned == 0,
            r.errors == 0,
    {
        ScanStats { files_scanned: 0, threats_found: 0, bytes_scanned: 0, errors: 0 }
    }

    pub fn get_files_scanned(&self) -> (r: usize)
        ensures
            r == self.files_scanned,
    {
        self.files_scanned
    }

    pub fn get_threats_found(&self) -> (r: usize)
        ensures
            r == self.threats_found,
    {
        self.threats_found
    }

    pub fn get_bytes_scanned(&self) -> (r: usize)
        ensures
            r == self.bytes_scanned,
    {
        self.bytes_scanned
    }

    pub fn get_errors(&self) -> (r: usize)
        ensures
            r == self.errors,
    {
        self.errors
    }

    /// Bytes scanned per second over `elapsed_secs`; zero when no time passed.
    pub fn speed_bytes_per_s(&self, elapsed_secs: u64) -> (r: u64)
        ensures
            elapsed_secs == 0 ==> r == 0,
            elapsed_secs > 0 ==> r == self.bytes_scanned as int / elapsed_secs as int,
    {
        if elapsed_secs == 0 {
            0
        } else {
            (self.bytes_scanned as u64) / elapsed_secs
        }
    }
}

/// What the walker should do next with a candidate entry.
#[derive(Debug, Clone, Copy, PartialEq, Eq, Structural)]
pub enum FileStep {
    /// Not scanned: not a regular file, excluded, or too large.
    Skipped,
    /// Reported from the cache without reading the file.
    Detected,
    /// The file's content is needed: read it and hand it to `finish_file`.
    NeedsContent,
    /// Already reported in this scan: nothing more is done with it.
    AlreadyReported,
}

/// Some result of `rs` is of the file at `path`.
pub open spec fn already_reported(rs: Seq<ScanResult>, path: Seq<char>) -> bool {
    exists|k: int| 0 <= k < rs.len() && #[trigger] rs[k].file_path@ == path
}

/// No two results are of the same file.
pub open spec fn one_result_per_file(rs: Seq<ScanResult>) -> bool {
    forall|i: int, j: int| 0 <= i < rs.len() && 0 <= j < rs.len() && i != j ==> rs[i].file_path@ != rs[j].file_path@
}

/// A candidate entry is scanned: a regular file, not excluded, within the size limit.
pub open spec fn qualifies(o: ScanOptions, path: Seq<char>, is_file: bool, size: u64) -> bool {
    is_file && !is_excluded(path, o.exclude_paths@, o.exclude_extensions@) && size <= o.max_file_size
}

/// The views of a list of texts.
pub open spec fn texts(v: Seq<String>) -> Seq<Seq<char>> {
    v.map_values(|s: String| s@)
}

fn copy_texts(v: &Vec<String>) -> (r: Vec<String>)
    ensures
        texts(r@) == texts(v@),
{
    let mut r: Vec<String> = Vec::new();
    let mut i: usize = 0;
    while i < v.len()
        invariant
            i <= v@.len(),
            r@.len() == i,
            forall|j: int| 0 <= j < i ==> #[trigger] r@[j]@ == v@[j]@,
        decreases v@.len() - i,
    {
        r.push(v[i].clone());
        i = i + 1;
    }
    assert(texts(r@) =~= texts(v@));
    r
}

/// The roots of a full scan: the top-level entries that the policy does not exclude.
pub open spec fn full_roots(top: Seq<String>, o: ScanOptions) -> Seq<Seq<char>> {
    texts(top).filter(|p: Seq<char>| !is_excluded(p, o.exclude_paths@, o.exclude_extensions@))
}

/// The scanner: exclusion policy, cached verdicts and detection over a shared
/// signature store, with the results and counters of the current scan.
pub struct ScannerEngine {
    signature_db: Arc<SignatureDatabase>,
    options: ScanOptions,
    cache: ScanCache,
    stats: ScanStats,
    results: Vec<ScanResult>,
}

impl ScannerEngine {
    pub closed spec fn db(&self) -> SignatureDatabase {
        *self.signature_db
    }

    pub closed spec fn spec_options(&self) -> ScanOptions {
        self.options
    }

    pub closed spec fn spec_cache(&self) -> ScanCache {
        self.cache
    }

    pub closed spec fn spec_stats(&self) -> ScanStats {
        self.stats
    }

    pub closed spec fn spec_results(&self) -> Seq<ScanResult> {
        self.results@
    }

    /// The store and cache are well formed, every result is of a file that the
    /// options let through, and no file has two results.
    pub closed spec fn wf(&self) -> bool {
        &&& self.db().wf()
        &&& self.cache.wf()
        &&& one_result_per_file(self.results@)
        &&& forall|k: int| 0 <= k < self.results@.len() ==> qualifies(
            self.options,
            (#[trigger] self.results@[k]).file_path@,
            true,
            self.results@[k].file_info.size,
        )
    }

    /// An engine over `signature_db` with an empty cache, no results and zero counters.
    pub fn new(signature_db: Arc<SignatureDatabase>, options: ScanOptions) -> (r: Self)
        requires
            signature_db.wf(),
        ensures
            r.wf(),
            r.db() == *signature_db,
            r.spec_options() == options,
            r.spec_results().len() == 0,
            r.spec_cache().entries().len() == 0,
            r.spec_cache().capacity() == CACHE_CAPACITY,
            r.spec_stats() == (ScanStats { files_scanned: 0, threats_found: 0, bytes_scanned: 0, errors: 0 }),
    {
        ScannerEngine {
            signature_db,
            options,
            cache: ScanCache::new(CACHE_CAPACITY),
            stats: ScanStats::new(),
            results: Vec::new(),
        }
    }

    /// The roots to walk: the quick-scan paths, the caller's paths, or (for a
    /// full scan) the given top-level entries that are not excluded.
    pub fn get_scan_paths(&self, top_level: &Vec<String>) -> (r: Vec<String>)
        ensures
            self.spec_options().scan_mode == ScanMode::Quick ==> texts(r@) == texts(self.spec_options().quick_scan_paths@),
            self.spec_options().scan_mode == ScanMode::Custom ==> texts(r@) == texts(self.spec_options().custom_paths@),
            self.spec_options().scan_mode == ScanMode::Full ==> texts(r@) == full_roots(top_level@, self.spec_options()),
    {
        match self.options.scan_mode {
            ScanMode::Quick => copy_texts(&self.options.quick_scan_paths),
            ScanMode::Custom => copy_texts(&self.options.custom_paths),
            ScanMode::Full => {
                let mut r: Vec<String> = Vec::new();
                let mut i: usize = 0;
                while i < top_level.len()
                    invariant
                        i <= top_level@.len(),
                        texts(r@) == full_roots(top_level@.subrange(0, i as int), self.options),
                    decreases top_level@.len() - i,
                {
                    let ghost pred = |p: Seq<char>| !is_excluded(p, self.options.exclude_paths@, self.options.exclude_extensions@);
                    let ghost before = r@;
                    let ex = should_exclude(top_level[i].as_str(), &self.options.exclude_paths, &self.options.exclude_extensions);
                    if !ex {
                        r.push(top_level[i].clone());
                    }
                    proof {
                        reveal(Seq::filter);
                        let sub = texts(top_level@.subrange(0, i + 1));
                        assert(sub.drop_last() =~= texts(top_level@.subrange(0, i as int)));
                        assert(sub.last() == top_level@[i as int]@);
                        if !ex {
                            assert(texts(r@) =~= texts(before).push(top_level@[i as int]@));
                        } else {
                            assert(r@ == before);
                        }
                        assert(texts(r@) == sub.filter(pred));
                    }
                    i = i + 1;
                }
                assert(top_level@.subrange(0, i as int) =~= top_level@);
                r
            },
        }
    }

    /// Whether a candidate entry is scanned at all.
    pub fn should_scan(&self, path: &str, is_file: bool, size: u64) -> (r: bool)
        ensures
            r == qualifies(self.spec_options(), path@, is_file, size),
    {
        is_file && size <= self.options.max_file_size && !should_exclude(
            path,
            &self.options.exclude_paths,
            &self.options.exclude_extensions,
        )
    }

    fn report(&mut self, path: &String, sig: &Signature, size: u64)
        requires
            old(self).wf(),
            qualifies(old(self).options, path@, true, size),
            !already_reported(old(self).results@, path@),
        ensures
            final(self).wf(),
            final(self).results@ == old(self).results@.push(final(self).results@.last()),
            reports(final(self).results@.last(), path@, sig@, size),
            final(self).stats == (ScanStats { threats_found: bump(old(self).stats.threats_found, 1), ..old(self).stats }),
            final(self).signature_db == old(self).signature_db,
            final(self).options == old(self).options,
            final(self).cache == old(self).cache,
    {
        let result = ScanResult {
            file_path: path.clone(),
            threat_type: ThreatType::from_name(sig.threat_type.as_str()),
            risk_level: RiskLevel::from_name(sig.risk_level.as_str()),
            signature_id: sig.id.clone(),
            file_info: FileInfo {
                size,
                permissions: String::new(),
                created: None,
                modified: None,
                accessed: None,
            },
        };
        self.stats.threats_found = add_capped(self.stats.threats_found, 1);
        self.results.push(result);
        assert(forall|k: int| 0 <= k < old(self).results@.len() ==> self.results@[k] == old(self).results@[k]);
        assert forall|k: int| 0 <= k < old(self).results@.len() implies self.results@[k].file_path@ != path@ by {
            if self.results@[k].file_path@ == path@ {
                assert(old(self).results@[k].file_path@ == path@);
            }
        }
    }

    /// Whether this scan has already reported the file at `path`.
    pub fn is_reported(&self, path: &str) -> (r: bool)
        ensures
            r == already_reported(self.spec_results(), path@),
    {
        let mut k: usize = 0;
        while k < self.results.len()
            invariant
                k <= self.results@.len(),
                forall|j: int| 0 <= j < k ==> #[trigger] self.results@[j].file_path@ != path@,
            decreases self.results@.len() - k,
        {
            if str_eq(self.results[k].file_path.as_str(), path) {
                return true;
            }
            k = k + 1;
        }
        false
    }

    /// Starts a new scan: results and counters are cleared, while the store,
    /// the options and the cached verdicts are kept.
    pub fn start_new_scan(&mut self)
        requires
            old(self).wf(),
        ensures
            final(self).wf(),
            final(self).spec_results().len() == 0,
            final(self).spec_stats() == (ScanStats { files_scanned: 0, threats_found: 0, bytes_scanned: 0, errors: 0 }),
            final(self).spec_cache() == old(self).spec_cache(),
            final(self).db() == old(self).db(),
            final(self).spec_options() == old(self).spec_options(),
    {
        self.results = Vec::new();
        self.stats = ScanStats::new();
    }

    /// First step for a candidate entry. An entry that qualifies and has not
    /// been reported in this scan is counted; a cached verdict whose signature
    /// is still loaded is reported at once (whatever the file now holds),
    /// otherwise its content is asked for.
    pub fn begin_file(&mut self, path: &String, is_file: bool, size: u64) -> (r: FileStep)
        requires
            old(self).wf(),
        ensures
            final(self).wf(),
            final(self).db() == old(self).db(),
            final(self).spec_options() == old(self).spec_options(),
            begin_outcome(*old(self), *final(self), path@, is_file, size, r),
    {
        if !self.should_scan(path.as_str(), is_file, size) {
            return FileStep::Skipped;
        }
        if self.is_reported(path.as_str()) {
            return FileStep::AlreadyReported;
        }
        self.stats.files_scanned = add_capped(self.stats.files_scanned, 1);
        self.stats.bytes_scanned = add_capped(self.stats.bytes_scanned, size);
        match self.cache.get(path) {
            Some(id) => {
                match self.signature_db.lookup_by_id(id.as_str()) {
                    Some(sig) => {
                        self.report(path, &sig, size);
                        FileStep::Detected
                    },
                    None => FileStep::NeedsContent,
                }
            },
            None => FileStep::NeedsContent,
        }
    }

    /// Second step: match the content of a file that `begin_file` asked for.
    /// On a detection the verdict is cached for the path and reported; a file
    /// already reported in this scan is left alone.
    pub fn finish_file(&mut self, path: &String, size: u64, data: &[u8]) -> (r: bool)
        requires
            old(self).wf(),
        ensures
            final(self).wf(),
            final(self).db() == old(self).db(),
            final(self).spec_options() == old(self).spec_options(),
            finish_outcome(*old(self), *final(self), path@, size, data@, r),
    {
        if !self.should_scan(path.as_str(), true, size) || self.is_reported(path.as_str()) {
            return false;
        }
        match self.signature_db.scan_bytes(data) {
            Some(sig) => {
                self.cache.put(path.clone(), sig.id.clone());
                self.report(path, &sig, size);
                true
            },
            None => false,
        }
    }

    /// Counts an entry that could not be walked or read.
    pub fn record_error(&mut self)
        ensures
            final(self).spec_stats() == (ScanStats { errors: bump(old(self).spec_stats().errors, 1), ..old(self).spec_stats() }),
            final(self).spec_results() == old(self).spec_results(),
            final(self).spec_cache() == old(self).spec_cache(),
            final(self).db() == old(self).db(),
            final(self).spec_options() == old(self).spec_options(),
            old(self).wf() ==> final(self).wf(),
    {
        self.stats.errors = add_capped(self.stats.errors, 1);
    }

    pub fn get_stats(&self) -> (r: &ScanStats)
        ensures
            *r == self.spec_stats(),
    {
        &self.stats
    }

    pub fn get_options(&self) -> (r: &ScanOptions)
        ensures
            *r == self.spec_options(),
    {
        &self.options
    }

    /// The detections of the scan so far.
    pub fn results(&self) -> (r: &Vec<ScanResult>)
        ensures
            r@ == self.spec_results(),
    {
        &self.results
    }
}

/// The outcome of `begin_file` on engine `e`, leaving `f`: an entry that does
/// not qualify, or was already reported in this scan, changes nothing; any
/// other is counted, and a cached verdict whose signature is still loaded is
/// reported without reading the file.
pub open spec fn begin_outcome(e: ScannerEngine, f: ScannerEngine, path: Seq<char>, is_file: bool, size: u64, r: FileStep) -> bool {
    if !qualifies(e.spec_options(), path, is_file, size) {
        r == FileStep::Skipped && f == e
    } else if already_reported(e.spec_results(), path) {
        r == FileStep::AlreadyReported && f == e
    } else {
        &&& f.spec_stats().files_scanned == bump(e.spec_stats().files_scanned, 1)
        &&& f.spec_stats().bytes_scanned == bump(e.spec_stats().bytes_scanned, size as int)
        &&& f.spec_stats().errors == e.spec_stats().errors
        &&& f.spec_cache().entries() == after_get(e.spec_cache().entries(), path)
        &&& f.spec_cache().capacity() == e.spec_cache().capacity()
        &&& if e.spec_cache().lookup(path) is Some && has_id(e.db().models(), e.spec_cache().lookup(path).unwrap()) {
            &&& r == FileStep::Detected
            &&& f.spec_stats().threats_found == bump(e.spec_stats().threats_found, 1)
            &&& f.spec_results() == e.spec_results().push(f.spec_results().last())
            &&& exists|i: int|
                0 <= i < e.db().models().len() && #[trigger] e.db().models()[i].id == e.spec_cache().lookup(path).unwrap()
                    && reports(f.spec_results().last(), path, e.db().models()[i], size)
        } else {
            &&& r == FileStep::NeedsContent
            &&& f.spec_stats().threats_found == e.spec_stats().threats_found
            &&& f.spec_results() == e.spec_results()
        }
    }
}

/// The outcome of `finish_file` on engine `e`, leaving `f`: a detection is
/// counted, reported and cached for the path; otherwise, and for a file
/// already reported in this scan, nothing changes.
pub open spec fn finish_outcome(e: ScannerEngine, f: ScannerEngine, path: Seq<char>, size: u64, data: Seq<u8>, r: bool) -> bool {
    if !qualifies(e.spec_options(), path, true, size) || already_reported(e.spec_results(), path) {
        !r && f == e
    } else {
        match detection(e.db().models(), data, fingerprint_of(data)) {
            Some(sig) => {
                &&& r
                &&& f.spec_stats() == (ScanStats { threats_found: bump(e.spec_stats().threats_found, 1), ..e.spec_stats() })
                &&& f.spec_results() == e.spec_results().push(f.spec_results().last())
                &&& reports(f.spec_results().last(), path, sig, size)
                &&& f.spec_cache().entries() == after_put(e.spec_cache().entries(), e.spec_cache().capacity(), path, sig.id)
                &&& f.spec_cache().lookup(path) == Some(sig.id)
                &&& f.spec_cache().capacity() == e.spec_cache().capacity()
            },
            None => !r && f == e,
        }
    }
}

/// A scan reports no file that the exclusion policy removes, whatever its content.
pub proof fn lemma_no_result_for_excluded(e: ScannerEngine, k: int)
    requires
        e.wf(),
        0 <= k < e.spec_results().len(),
    ensures
        !is_excluded(
            e.spec_results()[k].file_path@,
            e.spec_options().exclude_paths@,
            e.spec_options().exclude_extensions@,
        ),
        e.spec_results()[k].file_info.size <= e.spec_options().max_file_size,
{
}

/// A scan holds at most one result per file.
pub proof fn lemma_one_result_per_file(e: ScannerEngine, i: int, j: int)
    requires
        e.wf(),
        0 <= i < e.spec_results().len(),
        0 <= j < e.spec_results().len(),
        i != j,
    ensures
        e.spec_results()[i].file_path@ != e.spec_results()[j].file_path@,
{
}

/// Once a file's content has been detected, the next scan of the same path
/// (the cache kept, the store the same) reports the same signature from the
/// cache, whatever the file holds by then.
pub proof fn lemma_cached_verdict_persists(
    e: ScannerEngine,
    f: ScannerEngine,
    n: ScannerEngine,
    g: ScannerEngine,
    path: Seq<char>,
    size: u64,
    data: Seq<u8>,
    later_size: u64,
    step: FileStep,
)
    requires
        e.wf(),
        finish_outcome(e, f, path, size, data, true),
        f.db() == e.db(),
        f.spec_options() == e.spec_options(),
        qualifies(e.spec_options(), path, true, later_size),
        n.spec_results().len() == 0,
        n.spec_cache() == f.spec_cache(),
        n.db() == f.db(),
        n.spec_options() == f.spec_options(),
        begin_outcome(n, g, path, true, later_size, step),
    ensures
        step == FileStep::Detected,
        g.spec_results().last().signature_id@ == detection(e.db().models(), data, fingerprint_of(data))->Some_0.id,
        g.spec_results().last().file_path@ == path,
{
    lemma_detection_is_loaded(e.db().models(), data, fingerprint_of(data));
}

} // verus!
