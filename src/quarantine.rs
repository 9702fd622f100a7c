use vstd::prelude::*;
use vstd::slice::slice_to_vec;
use aes::Aes256;
use ctr::cipher::{KeyIvInit, StreamCipher};
use hmac::{Hmac, Mac};
use sha2::Sha256;
use vstd::string::StringExecFns;
use crate::paths::{file_name_of, find_last, last_index_of, lemma_after_last_index, lemma_last_index_append, lemma_last_index_bounds};
use crate::text::text_of;
use crate::utils::{stamp_text, timestamp_text};
use chrono::{Datelike, Timelike};

verus! {

/// Length of the integrity tag that closes an encrypted artifact.
pub const TAG_LEN: usize = 32;

/// Length of an encryption key.
pub const KEY_LEN: usize = 32;

/// Why a quarantine operation failed.
#[derive(Debug, Clone, Copy, PartialEq, Eq, Structural)]
pub enum QuarantineError {
    /// The file cannot be read, written or removed, or has no file name.
    IoError,
    /// A quarantine artifact's name does not carry an original name.
    FormatError,
    /// The key is unusable or the integrity tag does not verify.
    CryptoError,
}

/// The AES-256-CTR keystream (zero nonce) for `key`, for `len` bytes.
pub uninterp spec fn aes256_ctr_keystream(key: Seq<u8>, len: nat) -> Seq<u8>;

/// The HMAC-SHA256 of `data` under `key`.
pub uninterp spec fn hmac_sha256(key: Seq<u8>, data: Seq<u8>) -> [u8; 32];

/// Bytewise exclusive or of `a` with the first bytes of `k`.
pub open spec fn xor_bytes(a: Seq<u8>, k: Seq<u8>) -> Seq<u8> {
    Seq::new(a.len(), |i: int| a[i] ^ k[i])
}

/// Stream encryption (and decryption) under `key`.
pub open spec fn ctr_apply(key: Seq<u8>, data: Seq<u8>) -> Seq<u8> {
    xor_bytes(data, aes256_ctr_keystream(key, data.len()))
}

/// The tag of `data` under `key`, as bytes.
pub open spec fn tag_of(key: Seq<u8>, data: Seq<u8>) -> Seq<u8> {
    hmac_sha256(key, data)@
}

/// An encrypted artifact: the ciphertext followed by its tag.
pub open spec fn sealed(key: Seq<u8>, plain: Seq<u8>) -> Seq<u8> {
    ctr_apply(key, plain) + tag_of(key, ctr_apply(key, plain))
}

/// What opening an artifact gives: the plaintext when the key has the right
/// length, the artifact holds a tag, and the tag verifies; nothing otherwise.
pub open spec fn opened(key: Seq<u8>, artifact: Seq<u8>) -> Option<Seq<u8>> {
    if key.len() != KEY_LEN || artifact.len() < TAG_LEN {
        None
    } else {
        let c = artifact.subrange(0, artifact.len() - TAG_LEN);
        if artifact.subrange(artifact.len() - TAG_LEN, artifact.len() as int) == tag_of(key, c) {
            Some(ctr_apply(key, c))
        } else {
            None
        }
    }
}

/// Relies on ctr::Ctr128BE<aes::Aes256> with a zero nonce: refuses a key that
/// is not 32 bytes, else XORs the data with the keystream of that key.
#[verifier::external_body]
fn aes256_ctr(key: &[u8], data: &[u8]) -> (r: Option<Vec<u8>>)
    ensures
        r.is_some() == (key@.len() == KEY_LEN),
        r.is_some() ==> r.unwrap()@ == xor_bytes(data@, aes256_ctr_keystream(key@, data@.len())),
{
    let mut cipher = match ctr::Ctr128BE::<Aes256>::new_from_slices(key, &[0u8; 16]) {
        Ok(c) => c,
        Err(_) => return None,
    };
    let mut buf = data.to_vec();
    cipher.apply_keystream(&mut buf);
    Some(buf)
}

/// Relies on hmac::Hmac<sha2::Sha256>: accepts a key of any length and gives
/// the 32-byte tag of the data.
#[verifier::external_body]
fn hmac_tag(key: &[u8], data: &[u8]) -> (r: [u8; 32])
    ensures
        r == hmac_sha256(key@, data@),
{
    let mut mac = <Hmac<Sha256> as Mac>::new_from_slice(key).unwrap();
    mac.update(data);
    mac.finalize().into_bytes().into()
}

/// Relies on hmac::Hmac<sha2::Sha256> and `Mac::verify_slice`: whether `tag`
/// is the 32-byte tag of the data, compared in constant time.
#[verifier::external_body]
fn hmac_verify(key: &[u8], data: &[u8], tag: &[u8]) -> (r: bool)
    ensures
        r == (tag@ == hmac_sha256(key@, data@)@),
{
    let mut mac = <Hmac<Sha256> as Mac>::new_from_slice(key).unwrap();
    mac.update(data);
    mac.verify_slice(tag).is_ok()
}

proof fn lemma_xor_twice(a: Seq<u8>, k: Seq<u8>)
    ensures
        xor_bytes(xor_bytes(a, k), k) == a,
{
    assert forall|i: int| 0 <= i < a.len() implies #[trigger] xor_bytes(xor_bytes(a, k), k)[i] == a[i] by {
        let x = a[i];
        let y = k[i];
        assert((x ^ y) ^ y == x) by (bit_vector);
    }
    assert(xor_bytes(xor_bytes(a, k), k) =~= a);
}

/// Opening what was sealed under a key of the right length gives back the
/// plaintext.
pub proof fn lemma_seal_open(key: Seq<u8>, plain: Seq<u8>)
    requires
        key.len() == KEY_LEN,
    ensures
        opened(key, sealed(key, plain)) == Some(plain),
{
    let c = ctr_apply(key, plain);
    let a = sealed(key, plain);
    let t = hmac_sha256(key, c);
    assert(t@.len() == 32) by {
        vstd::array::array_len_matches_n(&t);
    }
    assert(a.subrange(0, a.len() - TAG_LEN) =~= c);
    assert(a.subrange(a.len() - TAG_LEN, a.len() as int) =~= tag_of(key, c));
    lemma_xor_twice(plain, aes256_ctr_keystream(key, plain.len()));
}

/// Changing any byte of the tag of a sealed artifact makes it fail to open.
pub proof fn lemma_tag_flip_rejected(key: Seq<u8>, plain: Seq<u8>, i: int, b: u8)
    requires
        key.len() == KEY_LEN,
        plain.len() <= i < sealed(key, plain).len(),
        sealed(key, plain)[i] != b,
    ensures
        opened(key, sealed(key, plain).update(i, b)) is None,
{
    let c = ctr_apply(key, plain);
    let a = sealed(key, plain);
    let t = hmac_sha256(key, c);
    assert(t@.len() == 32) by {
        vstd::array::array_len_matches_n(&t);
    }
    let f = a.update(i, b);
    assert(f.subrange(0, f.len() - TAG_LEN) =~= c);
    let ft = f.subrange(f.len() - TAG_LEN, f.len() as int);
    assert(ft[i - plain.len()] == b);
    assert(tag_of(key, c)[i - plain.len()] == a[i]);
}

/// Encrypts `plain` under `key` and appends the tag of the ciphertext.
pub fn seal(key: &[u8], plain: &[u8]) -> (r: Result<Vec<u8>, QuarantineError>)
    ensures
        match r {
            Ok(a) => key@.len() == KEY_LEN && a@ == sealed(key@, plain@),
            Err(e) => key@.len() != KEY_LEN && e == QuarantineError::CryptoError,
        },
{
    let mut c = match aes256_ctr(key, plain) {
        Some(c) => c,
        None => return Err(QuarantineError::CryptoError),
    };
    let t = hmac_tag(key, c.as_slice());
    let ghost c0 = c@;
    let mut k: usize = 0;
    while k < TAG_LEN
        invariant
            k <= TAG_LEN,
            t@.len() == TAG_LEN,
            c@ == c0 + t@.subrange(0, k as int),
        decreases TAG_LEN - k,
    {
        c.push(t[k]);
        assert(c0 + t@.subrange(0, k + 1) =~= (c0 + t@.subrange(0, k as int)).push(t@[k as int]));
        k = k + 1;
    }
    assert(t@.subrange(0, TAG_LEN as int) =~= t@);
    Ok(c)
}

/// Verifies the tag of an artifact and decrypts it; no plaintext comes out of
/// an artifact whose tag does not verify.
pub fn open(key: &[u8], artifact: &[u8]) -> (r: Result<Vec<u8>, QuarantineError>)
    ensures
        match r {
            Ok(p) => opened(key@, artifact@) == Some(p@),
            Err(e) => opened(key@, artifact@) is None && e == QuarantineError::CryptoError,
        },
{
    if key.len() != KEY_LEN || artifact.len() < TAG_LEN {
        return Err(QuarantineError::CryptoError);
    }
    let total: usize = artifact.len();
    let n: usize = total - TAG_LEN;
    let c = slice_to_vec(vstd::slice::slice_subrange(artifact, 0, n));
    let tag = vstd::slice::slice_subrange(artifact, n, total);
    if !hmac_verify(key, c.as_slice(), tag) {
        return Err(QuarantineError::CryptoError);
    }
    match aes256_ctr(key, c.as_slice()) {
        Some(p) => Ok(p),
        None => Err(QuarantineError::CryptoError),
    }
}

/// The index of the first occurrence of `c` in `s`, or -1.
pub open spec fn first_index_of(s: Seq<char>, c: char) -> int
    decreases s.len(),
{
    if s.len() == 0 {
        -1
    } else if s[0] == c {
        0
    } else if first_index_of(s.drop_first(), c) < 0 {
        -1
    } else {
        first_index_of(s.drop_first(), c) + 1
    }
}

proof fn lemma_first_index_bounds(s: Seq<char>, c: char)
    ensures
        -1 <= first_index_of(s, c) < s.len(),
        first_index_of(s, c) >= 0 ==> s[first_index_of(s, c)] == c,
        forall|j: int| 0 <= j < first_index_of(s, c) || (first_index_of(s, c) < 0 && 0 <= j < s.len()) ==> s[j] != c,
    decreases s.len(),
{
    if s.len() > 0 && s[0] != c {
        lemma_first_index_bounds(s.drop_first(), c);
        assert forall|j: int| 0 < j < s.len() implies s[j] == s.drop_first()[j - 1] by {}
    }
}

/// The name of a quarantine artifact: the time stamp, `_`, the original name.
pub open spec fn quarantine_name(timestamp: Seq<char>, name: Seq<char>) -> Seq<char> {
    timestamp + "_"@ + name
}

/// `name` inside directory `dir`.
pub open spec fn join_path(dir: Seq<char>, name: Seq<char>) -> Seq<char> {
    if dir.len() == 0 || dir.last() == '/' {
        dir + name
    } else {
        dir + "/"@ + name
    }
}

/// The original file name that an artifact name carries: what follows its
/// first `_`.
pub open spec fn original_name_of(artifact_name: Seq<char>) -> Option<Seq<char>> {
    let i = first_index_of(artifact_name, '_');
    if i < 0 {
        None
    } else {
        Some(artifact_name.subrange(i + 1, artifact_name.len() as int))
    }
}

/// A path with a file-name component.
pub open spec fn has_file_name(path: Seq<char>) -> bool {
    file_name_of(path).len() > 0 && file_name_of(path) != ".."@
}

/// Relies on chrono::Local::now read through `Datelike` and `Timelike`: the
/// local year, month (1 to 12), day (1 to 31), hour (0 to 23), minute and
/// second (0 to 59) now.
#[verifier::external_body]
fn local_now() -> (r: (i32, u32, u32, u32, u32, u32))
    ensures
        1 <= r.1 <= 12,
        1 <= r.2 <= 31,
        r.3 <= 23,
        r.4 <= 59,
        r.5 <= 59,
{
    let now = chrono::Local::now();
    (now.year(), now.month(), now.day(), now.hour(), now.minute(), now.second())
}

fn join(dir: &str, name: &str) -> (r: String)
    ensures
        r@ == join_path(dir@, name@),
{
    let n: usize = dir.unicode_len();
    if n == 0 || dir.get_char(n - 1) == '/' {
        text_of(dir).concat(name)
    } else {
        text_of(dir).concat("/").concat(name)
    }
}

/// Isolates flagged files under a quarantine directory, encrypting them when
/// a key is configured, and recovers them.
pub struct QuarantineManager {
    pub quarantine_dir: String,
    pub encryption_key: Option<Vec<u8>>,
}

/// The outcome of quarantining the file at `path` holding `content` at time
/// `ts` with manager `m`: the artifact's path and bytes, or the error.
pub open spec fn quarantine_outcome(
    m: QuarantineManager,
    path: Seq<char>,
    ts: Seq<char>,
    content: Seq<u8>,
    r: Result<(String, Vec<u8>), QuarantineError>,
) -> bool {
    if !has_file_name(path) {
        r == Err::<(String, Vec<u8>), QuarantineError>(QuarantineError::IoError)
    } else {
        match m.encryption_key {
            Some(k) => if k@.len() != KEY_LEN {
                r == Err::<(String, Vec<u8>), QuarantineError>(QuarantineError::CryptoError)
            } else {
                r is Ok && r->Ok_0.0@ == join_path(m.quarantine_dir@, quarantine_name(ts, file_name_of(path)))
                    && r->Ok_0.1@ == sealed(k@, content)
            },
            None => r is Ok && r->Ok_0.0@ == join_path(m.quarantine_dir@, quarantine_name(ts, file_name_of(path)))
                && r->Ok_0.1@ == content,
        }
    }
}

/// The outcome of restoring an artifact at `path` holding `artifact` with
/// manager `m`: the original file name and bytes, or the error.
pub open spec fn restore_outcome(
    m: QuarantineManager,
    path: Seq<char>,
    artifact: Seq<u8>,
    r: Result<(String, Vec<u8>), QuarantineError>,
) -> bool {
    if !has_file_name(path) {
        r == Err::<(String, Vec<u8>), QuarantineError>(QuarantineError::IoError)
    } else {
        match original_name_of(file_name_of(path)) {
            None => r == Err::<(String, Vec<u8>), QuarantineError>(QuarantineError::FormatError),
            Some(name) => match m.encryption_key {
                Some(k) => match opened(k@, artifact) {
                    Some(p) => r is Ok && r->Ok_0.0@ == name && r->Ok_0.1@ == p,
                    None => r == Err::<(String, Vec<u8>), QuarantineError>(QuarantineError::CryptoError),
                },
                None => r is Ok && r->Ok_0.0@ == name && r->Ok_0.1@ == artifact,
            },
        }
    }
}

impl QuarantineManager {
    pub fn new(quarantine_dir: String, encryption_key: Option<Vec<u8>>) -> (r: Self)
        ensures
            r.quarantine_dir == quarantine_dir,
            r.encryption_key == encryption_key,
    {
        QuarantineManager { quarantine_dir, encryption_key }
    }

    /// The file name of `path`, if it has one.
    fn file_name<'a>(path: &'a str) -> (r: Option<&'a str>)
        ensures
            r is Some == has_file_name(path@),
            r is Some ==> r->Some_0@ == file_name_of(path@),
    {
        let n: usize = path.unicode_len();
        proof {
            crate::paths::lemma_last_index_bounds(path@, '/');
        }
        let start: usize = match find_last(path, '/') {
            Some(i) => i + 1,
            None => 0,
        };
        let name = path.substring_char(start, n);
        let len: usize = name.unicode_len();
        if len == 0 {
            return None;
        }
        proof {
            reveal_strlit("..");
        }
        if len == 2 && name.get_char(0) == '.' && name.get_char(1) == '.' {
            assert(name@ =~= ".."@);
            return None;
        }
        proof {
            if name@ == ".."@ {
                assert(name@[0] == '.' && name@[1] == '.');
            }
        }
        Some(name)
    }

    /// The artifact for the file at `file_path` holding `content`, stamped
    /// `timestamp`: its path in the quarantine directory and its bytes.
    pub fn plan_quarantine_at(&self, file_path: &str, timestamp: &str, content: &[u8]) -> (r: Result<(String, Vec<u8>), QuarantineError>)
        ensures
            quarantine_outcome(*self, file_path@, timestamp@, content@, r),
    {
        let name = match QuarantineManager::file_name(file_path) {
            Some(n) => n,
            None => return Err(QuarantineError::IoError),
        };
        let qname = text_of(timestamp).concat("_").concat(name);
        assert(qname@ == quarantine_name(timestamp@, name@));
        let dest = join(self.quarantine_dir.as_str(), qname.as_str());
        match &self.encryption_key {
            Some(k) => match seal(k.as_slice(), content) {
                Ok(a) => Ok((dest, a)),
                Err(e) => Err(e),
            },
            None => Ok((dest, slice_to_vec(content))),
        }
    }

    /// The artifact for the file at `file_path` holding `content`, stamped
    /// with the local time now as `YYYYMMDD_HHMMSS`.
    pub fn plan_quarantine(&self, file_path: &str, content: &[u8]) -> (r: Result<(String, Vec<u8>), QuarantineError>)
        ensures
            exists|y: int, mo: nat, d: nat, h: nat, mi: nat, s: nat|
                1 <= mo <= 12 && 1 <= d <= 31 && h <= 23 && mi <= 59 && s <= 59
                    && #[trigger] quarantine_outcome(*self, file_path@, stamp_text(y, mo, d, h, mi, s), content@, r),
    {
        let (y, mo, d, h, mi, s) = local_now();
        let ts = timestamp_text(y, mo, d, h, mi, s);
        let r = self.plan_quarantine_at(file_path, ts.as_str(), content);
        assert(quarantine_outcome(*self, file_path@, stamp_text(y as int, mo as nat, d as nat, h as nat, mi as nat, s as nat), content@, r));
        r
    }

    /// The original name and bytes of the artifact at `quarantine_path`
    /// holding `artifact`; an encrypted artifact must verify first.
    pub fn plan_restore(&self, quarantine_path: &str, artifact: &[u8]) -> (r: Result<(String, Vec<u8>), QuarantineError>)
        ensures
            restore_outcome(*self, quarantine_path@, artifact@, r),
    {
        let name = match QuarantineManager::file_name(quarantine_path) {
            Some(n) => n,
            None => return Err(QuarantineError::IoError),
        };
        let len: usize = name.unicode_len();
        proof {
            lemma_first_index_bounds(name@, '_');
        }
        let mut i: usize = 0;
        let mut found = false;
        while i < len && !found
            invariant
                len == name@.len(),
                i <= len,
                found ==> i < len && name@[i as int] == '_',
                forall|j: int| 0 <= j < i ==> name@[j] != '_',
            decreases len - i, if found { 0int } else { 1int },
        {
            if name.get_char(i) == '_' {
                found = true;
            } else {
                i = i + 1;
            }
        }
        let ghost f = first_index_of(name@, '_');
        if !found {
            assert(f < 0) by {
                if f >= 0 {
                    assert(name@[f] == '_');
                }
            }
            return Err(QuarantineError::FormatError);
        }
        assert(f == i) by {
            if f < 0 {
                assert(name@[i as int] != '_');
            } else if f < i {
                assert(name@[f] == '_');
            } else if f > i {
                assert(name@[i as int] != '_');
            }
        }
        let original = text_of(name.substring_char(i + 1, len));
        match &self.encryption_key {
            Some(k) => match open(k.as_slice(), artifact) {
                Ok(p) => Ok((original, p)),
                Err(e) => Err(e),
            },
            None => Ok((original, slice_to_vec(artifact))),
        }
    }
}

/// The file name of an artifact placed in `dir` is its quarantine name, and it
/// carries an original name.
proof fn lemma_artifact_name(dir: Seq<char>, ts: Seq<char>, path: Seq<char>)
    requires
        has_file_name(path),
        forall|j: int| 0 <= j < ts.len() ==> ts[j] != '/',
    ensures
        file_name_of(join_path(dir, quarantine_name(ts, file_name_of(path))))
            == quarantine_name(ts, file_name_of(path)),
        has_file_name(join_path(dir, quarantine_name(ts, file_name_of(path)))),
        original_name_of(quarantine_name(ts, file_name_of(path))) is Some,
{
    reveal_strlit("_");
    reveal_strlit("/");
    reveal_strlit("..");
    let name = file_name_of(path);
    let q = quarantine_name(ts, name);
    lemma_last_index_bounds(path, '/');
    lemma_after_last_index(path, '/');
    let l = last_index_of(path, '/');
    assert forall|j: int| 0 <= j < name.len() implies name[j] != '/' by {
        assert(name[j] == path[l + 1 + j]);
    }
    assert forall|j: int| 0 <= j < q.len() implies q[j] != '/' by {
        if j < ts.len() {
            assert(q[j] == ts[j]);
        } else if j == ts.len() {
            assert(q[j] == '_');
        } else {
            assert(q[j] == name[j - ts.len() - 1]);
        }
    }
    assert(q[ts.len() as int] == '_');
    let dirp = if dir.len() == 0 || dir.last() == '/' { dir } else { dir + "/"@ };
    assert(join_path(dir, q) == dirp + q);
    lemma_last_index_append(dirp, q, '/');
    if dirp.len() > 0 {
        assert(dirp.last() == '/');
        assert(last_index_of(dirp, '/') == dirp.len() - 1);
    }
    assert((dirp + q).subrange(dirp.len() as int, (dirp + q).len() as int) =~= q);
    if q == ".."@ {
        assert(q[ts.len() as int] == '.');
    }
    lemma_first_index_bounds(q, '_');
}

/// Restoring the artifact that quarantining a file produced gives back the
/// file's content, with no key or with a key of the right length.
pub proof fn lemma_quarantine_round_trip(
    m: QuarantineManager,
    path: Seq<char>,
    ts: Seq<char>,
    content: Seq<u8>,
    quarantined: Result<(String, Vec<u8>), QuarantineError>,
    restored: Result<(String, Vec<u8>), QuarantineError>,
)
    requires
        has_file_name(path),
        forall|j: int| 0 <= j < ts.len() ==> ts[j] != '/',
        m.encryption_key is None || m.encryption_key->Some_0@.len() == KEY_LEN,
        quarantine_outcome(m, path, ts, content, quarantined),
        restore_outcome(m, quarantined->Ok_0.0@, quarantined->Ok_0.1@, restored),
    ensures
        quarantined is Ok,
        restored is Ok,
        restored->Ok_0.1@ == content,
{
    lemma_artifact_name(m.quarantine_dir@, ts, path);
    if let Some(k) = m.encryption_key {
        lemma_seal_open(k@, content);
    }
}

} // verus!
