//! The assessment cache: a versioned map from project identity to a cached
//! AI assessment, gated by a content hash of the project manifest. A cached
//! value is served only while the stored hash equals the hash of the current
//! manifest bytes; any other case is a miss.

use sha2::Digest;
use vstd::prelude::*;

verus! {

use vstd::string::{StringExecFns, StringSliceAdditionalSpecFns};
use crate::text::str_eq;
use crate::types::{clone_assessment, AssessmentModel, RiskAssessment};

/// One stored cache entry: the manifest hash it is valid for, the cached
/// assessment, and when it was written (epoch milliseconds).
#[derive(Debug, Clone)]
pub struct CacheEntry {
    pub hash: String,
    pub assessment: RiskAssessment,
    pub updated_at: i64,
}

/// The mathematical content of a cache entry.
pub ghost struct CacheEntryModel {
    pub hash: Seq<char>,
    pub assessment: AssessmentModel,
    pub updated_at: i64,
}

impl View for CacheEntry {
    type V = CacheEntryModel;

    open spec fn view(&self) -> CacheEntryModel {
        CacheEntryModel {
            hash: self.hash@,
            assessment: self.assessment@,
            updated_at: self.updated_at,
        }
    }
}

/// The entry list read as a map from project identity to entry, later pairs
/// winning.
pub open spec fn entries_map(s: Seq<(String, CacheEntry)>) -> Map<Seq<char>, CacheEntryModel>
    decreases s.len(),
{
    if s.len() == 0 {
        Map::empty()
    } else {
        entries_map(s.drop_last()).insert(s.last().0@, s.last().1@)
    }
}

/// The keys of the entry list are pairwise distinct.
pub open spec fn unique_keys(s: Seq<(String, CacheEntry)>) -> bool {
    forall|i: int, j: int| 0 <= i < j < s.len() ==> s[i].0@ != s[j].0@
}

/// The persistent cache document: a format version and the entries, keyed by
/// project identity.
#[derive(Debug, Clone)]
pub struct CacheFile {
    pub version: u8,
    pub entries: Vec<(String, CacheEntry)>,
}

impl View for CacheFile {
    type V = Map<Seq<char>, CacheEntryModel>;

    open spec fn view(&self) -> Map<Seq<char>, CacheEntryModel> {
        entries_map(self.entries@)
    }
}

impl CacheFile {
    /// A well-formed cache file has one entry per project identity.
    pub open spec fn wf(self) -> bool {
        unique_keys(self.entries@)
    }
}

impl Default for CacheFile {
    /// An empty cache at format version 1.
    fn default() -> (r: CacheFile)
        ensures
            r.version == 1,
            r@ == Map::<Seq<char>, CacheEntryModel>::empty(),
            r.wf(),
    {
        CacheFile { version: 1, entries: Vec::new() }
    }
}

proof fn lemma_entries_map_index(s: Seq<(String, CacheEntry)>, i: int)
    requires
        unique_keys(s),
        0 <= i < s.len(),
    ensures
        entries_map(s).contains_key(s[i].0@),
        entries_map(s)[s[i].0@] == s[i].1@,
    decreases s.len(),
{
    if i == s.len() - 1 {
    } else {
        assert(s.drop_last()[i] == s[i]);
        lemma_entries_map_index(s.drop_last(), i);
        assert(s[i].0@ != s.last().0@);
    }
}

proof fn lemma_entries_map_no_key(s: Seq<(String, CacheEntry)>, k: Seq<char>)
    requires
        forall|i: int| 0 <= i < s.len() ==> s[i].0@ != k,
    ensures
        !entries_map(s).contains_key(k),
    decreases s.len(),
{
    if s.len() > 0 {
        assert(forall|i: int| 0 <= i < s.drop_last().len() ==> s.drop_last()[i] == s[i]);
        lemma_entries_map_no_key(s.drop_last(), k);
    }
}

proof fn lemma_entries_map_remove_insert(
    s: Seq<(String, CacheEntry)>,
    i: int,
    k: Seq<char>,
    v: CacheEntryModel,
)
    requires
        unique_keys(s),
        0 <= i < s.len(),
        s[i].0@ == k,
    ensures
        entries_map(s).insert(k, v) =~= entries_map(s.remove(i)).insert(k, v),
    decreases s.len(),
{
    if i == s.len() - 1 {
        assert(s.remove(i) =~= s.drop_last());
    } else {
        let d = s.drop_last();
        assert(d[i] == s[i]);
        lemma_entries_map_remove_insert(d, i, k, v);
        assert(s.remove(i).drop_last() =~= d.remove(i));
        assert(s.remove(i).last() == s.last());
        assert(s.last().0@ != k);
        assert(entries_map(s).insert(k, v) =~= entries_map(d).insert(k, v).insert(
            s.last().0@,
            s.last().1@,
        ));
        assert(entries_map(s.remove(i)).insert(k, v) =~= entries_map(d.remove(i)).insert(
            k,
            v,
        ).insert(s.last().0@, s.last().1@));
    }
}

/// Relies on std::time::SystemTime::now: the current wall-clock time, read
/// as milliseconds since the Unix epoch.
#[verifier::external_body]
fn now_unix_millis() -> i64 {
    std::time::SystemTime::now().duration_since(std::time::UNIX_EPOCH).unwrap_or_default()
        .as_millis() as i64
}

/// The result of looking a project up in the cache model: the stored
/// assessment when the identity is present with exactly the given hash.
pub open spec fn spec_lookup(
    m: Map<Seq<char>, CacheEntryModel>,
    key: Seq<char>,
    hash: Seq<char>,
) -> Option<AssessmentModel> {
    if m.contains_key(key) && m[key].hash == hash {
        Option::Some(m[key].assessment)
    } else {
        Option::None
    }
}

/// The cache model after storing an assessment for a project identity.
pub open spec fn spec_store(
    m: Map<Seq<char>, CacheEntryModel>,
    key: Seq<char>,
    hash: Seq<char>,
    assessment: AssessmentModel,
    updated_at: i64,
) -> Map<Seq<char>, CacheEntryModel> {
    m.insert(key, CacheEntryModel { hash, assessment, updated_at })
}

/// Look a project up: its stored assessment comes back only when an entry
/// for `key` exists and its stored hash equals `hash`; any other case is a
/// miss.
pub fn get_cached_assessment(cache: &CacheFile, key: &str, hash: &str) -> (r: Option<
    RiskAssessment,
>)
    requires
        cache.wf(),
    ensures
        r is Some <==> spec_lookup(cache@, key@, hash@) is Some,
        r is Some ==> r->0@ == spec_lookup(cache@, key@, hash@)->0,
{
    let n = cache.entries.len();
    let mut i: usize = 0;
    while i < n
        invariant
            cache.wf(),
            n == cache.entries@.len(),
            i <= n,
            forall|k: int| 0 <= k < i ==> cache.entries@[k].0@ != key@,
        decreases n - i,
    {
        let entry = &cache.entries[i];
        if str_eq(entry.0.as_str(), key) {
            proof {
                lemma_entries_map_index(cache.entries@, i as int);
            }
            if str_eq(entry.1.hash.as_str(), hash) {
                return Option::Some(clone_assessment(&entry.1.assessment));
            }
            return Option::None;
        }
        i = i + 1;
    }
    proof {
        lemma_entries_map_no_key(cache.entries@, key@);
    }
    Option::None
}

/// Store an assessment for a project identity, overwriting any prior entry
/// for it, with the current time as the write stamp.
#[verifier::loop_isolation(false)]
pub fn set_cached_assessment(cache: &mut CacheFile, key: &str, hash: &str,
    assessment: RiskAssessment)
    requires
        old(cache).wf(),
    ensures
        final(cache).wf(),
        final(cache).version == old(cache).version,
        exists|t: i64|
            final(cache)@ == spec_store(old(cache)@, key@, hash@, assessment@, t),
{
    let updated_at = now_unix_millis();
    let ghost model = CacheEntryModel { hash: hash@, assessment: assessment@, updated_at };
    let entry = CacheEntry { hash: String::from_str(hash), assessment, updated_at };
    let ghost orig = cache.entries@;
    let n = cache.entries.len();
    let mut i: usize = 0;
    while i < n
        invariant
            cache.entries@ == orig,
            cache.version == old(cache).version,
            unique_keys(orig),
            n == orig.len(),
            i <= n,
            forall|k: int| 0 <= k < i ==> orig[k].0@ != key@,
        decreases n - i,
    {
        if str_eq(cache.entries[i].0.as_str(), key) {
            let ghost shorter = orig.remove(i as int);
            proof {
                lemma_entries_map_remove_insert(orig, i as int, key@, model);
                assert(forall|a: int| 0 <= a < i ==> shorter[a] == orig[a]);
                assert(forall|a: int|
                    i <= a < shorter.len() ==> shorter[a] == orig[a + 1]);
                assert(unique_keys(shorter));
                assert(forall|a: int| 0 <= a < shorter.len() ==> shorter[a].0@ != key@);
            }
            let _ = cache.entries.remove(i);
            cache.entries.push((String::from_str(key), entry));
            proof {
                let now_entries = cache.entries@;
                assert(now_entries.drop_last() =~= shorter);
                assert(now_entries.last().0@ == key@);
                assert(now_entries.last().1@ == model);
                assert(entries_map(now_entries) == entries_map(shorter).insert(key@, model));
                assert(entries_map(now_entries) =~= entries_map(orig).insert(key@, model));
                assert(final(cache)@ == spec_store(old(cache)@, key@, hash@, assessment@,
                    updated_at));
                assert(forall|a: int, b: int|
                    0 <= a < b < now_entries.len() ==> now_entries[a].0@ != now_entries[b].0@);
            }
            return ;
        }
        i = i + 1;
    }
    proof {
        lemma_entries_map_no_key(orig, key@);
    }
    cache.entries.push((String::from_str(key), entry));
    proof {
        let now_entries = cache.entries@;
        assert(now_entries.drop_last() =~= orig);
        assert(now_entries.last().0@ == key@);
        assert(now_entries.last().1@ == model);
        assert(entries_map(now_entries) == entries_map(orig).insert(key@, model));
        assert(final(cache)@ == spec_store(old(cache)@, key@, hash@, assessment@, updated_at));
        assert(forall|a: int| 0 <= a < orig.len() ==> now_entries[a] == orig[a]);
        assert(forall|a: int, b: int|
            0 <= a < b < now_entries.len() ==> now_entries[a].0@ != now_entries[b].0@);
    }
}

/// Storing then looking up with the identical hash returns the stored
/// assessment; looking up with any other hash misses.
pub proof fn law_cache_round_trip(
    m: Map<Seq<char>, CacheEntryModel>,
    key: Seq<char>,
    hash: Seq<char>,
    assessment: AssessmentModel,
    updated_at: i64,
)
    ensures
        spec_lookup(spec_store(m, key, hash, assessment, updated_at), key, hash)
            == Option::Some(assessment),
        forall|other: Seq<char>|
            other != hash ==> spec_lookup(
                spec_store(m, key, hash, assessment, updated_at),
                key,
                other,
            ) is None,
{
}

/// The digest that sha2's SHA-256 computes: a function of the input bytes
/// alone.
pub uninterp spec fn spec_sha256_of(data: Seq<u8>) -> Seq<u8>;

/// Relies on sha2::Sha256::digest: a 32-byte digest of the input bytes,
/// depending on them alone.
#[verifier::external_body]
fn sha256_digest(data: &[u8]) -> (r: Vec<u8>)
    ensures
        r@ == spec_sha256_of(data@),
        r@.len() == 32,
{
    sha2::Sha256::digest(data).to_vec()
}

/// The lowercase hex digit of a nibble.
pub open spec fn hex_digit(n: u8) -> char
    recommends
        n < 16,
{
    if n < 10 {
        ((n + 48) as char)
    } else {
        ((n + 87) as char)
    }
}

/// Bytes written as lowercase hex: two digits per byte, high nibble first.
pub open spec fn spec_hex_of(data: Seq<u8>) -> Seq<char>
    decreases data.len(),
{
    if data.len() == 0 {
        Seq::empty()
    } else {
        spec_hex_of(data.drop_last()) + seq![
            hex_digit(data.last() / 16),
            hex_digit(data.last() % 16),
        ]
    }
}

/// Relies on hex::encode: each byte becomes two lowercase hex digits, high
/// nibble first.
#[verifier::external_body]
fn hex_encode(data: &Vec<u8>) -> (r: String)
    ensures
        r@ == spec_hex_of(data@),
{
    hex::encode(data)
}

/// The lowercase hex form of the SHA-256 digest of the given bytes.
pub fn hash_bytes(data: &[u8]) -> (r: String)
    ensures
        r@ == spec_hex_of(spec_sha256_of(data@)),
{
    let digest = sha256_digest(data);
    hex_encode(&digest)
}

/// The name of the cache file kept next to the scanned root.
pub open spec fn spec_local_cache_name() -> Seq<char> {
    ".devclean-cache.json"@
}

/// The workspace-local cache path: the cache file name under the root.
pub fn root_cache_path(root: &str) -> (r: String)
    ensures
        r@ == root@ + "/"@ + spec_local_cache_name(),
{
    let mut r = String::from_str(root);
    r.append("/");
    r.append(".devclean-cache.json");
    r
}

/// The preferred location of the persistent cache for a scanned root.
pub fn cache_path(root: &str) -> (r: String)
    ensures
        r@ == root@ + "/"@ + spec_local_cache_name(),
{
    root_cache_path(root)
}

/// Relies on dirs::data_dir: the per-user application data directory, if the
/// platform defines one.
#[verifier::external_body]
pub(crate) fn data_dir_path() -> Option<String> {
    dirs::data_dir().map(|p| p.to_string_lossy().to_string())
}

/// The fallback cache path under the application data directory: the file is
/// named by hashing the root path, so distinct roots get distinct files.
pub fn app_cache_path(root: &str) -> (r: Option<String>)
    ensures
        r is Some ==> exists|base: Seq<char>|
            r->0@ == base + "/devclean-ai/cache/cache-"@ + spec_hex_of(
                spec_sha256_of(root.spec_bytes()),
            ) + ".json"@,
{
    match data_dir_path() {
        Option::None => Option::None,
        Option::Some(base) => {
            let digest = hash_bytes(root.as_bytes());
            let mut r = base;
            let ghost base_view = r@;
            r.append("/devclean-ai/cache/cache-");
            r.append(digest.as_str());
            r.append(".json");
            proof {
                assert(r@ == base_view + "/devclean-ai/cache/cache-"@ + spec_hex_of(
                    spec_sha256_of(root.spec_bytes()),
                ) + ".json"@);
            }
            Option::Some(r)
        },
    }
}

} // verus!
