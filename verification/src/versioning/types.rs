//! Every mutable entity is versioned: versions are append-only,
//! content-addressed and encrypted; old versions are never deleted or
//! overwritten.

use vstd::prelude::*;
use vstd::bytes::{spec_u64_to_le_bytes, u64_to_le_bytes};
use vstd::utf8::encode_utf8;
use crate::codec::{hex_lower, sha256, sha256_digest, to_hex};

verus! {

/// A UTC instant: whole seconds since the Unix epoch and the nanoseconds
/// within that second (above 999,999,999 only during a leap second). It
/// stands for `chrono::DateTime<Utc>`, whose order is the lexicographic order
/// of the pair.
#[derive(Clone, Copy, Debug, PartialEq, Eq, Structural)]
pub struct Timestamp {
    pub secs: i64,
    pub nanos: u32,
}

impl Timestamp {
    /// Strictly earlier.
    pub open spec fn earlier(self, other: Timestamp) -> bool {
        self.secs < other.secs || (self.secs == other.secs && self.nanos < other.nanos)
    }

    /// Whether `self` is strictly earlier than `other`.
    pub fn is_before(&self, other: &Timestamp) -> (r: bool)
        ensures
            r == self.earlier(*other),
    {
        self.secs < other.secs || (self.secs == other.secs && self.nanos < other.nanos)
    }
}

/// The current UTC time (`chrono::Utc::now()`), as seconds and nanoseconds.
///
/// Trusted: nothing is stated of the value; it is the clock's.
#[verifier::external_body]
pub fn utc_now() -> (t: Timestamp) {
    let now = chrono::Utc::now();
    Timestamp { secs: now.timestamp(), nanos: now.timestamp_subsec_nanos() }
}

/// RFC 3339 text that `DateTime::<Utc>::from_timestamp(secs, nanos)` followed
/// by `to_rfc3339()` gives, or `None` where the instant is out of range.
pub uninterp spec fn rfc3339_text(secs: i64, nanos: u32) -> Option<Seq<char>>;

/// `DateTime::from_timestamp(secs, nanos).map(|d| d.to_rfc3339())`.
///
/// Trusted: the result is `rfc3339_text` of the two numbers.
#[verifier::external_body]
pub fn timestamp_to_rfc3339(t: Timestamp) -> (r: Option<String>)
    ensures
        match r {
            Some(s) => rfc3339_text(t.secs, t.nanos) == Some(s@),
            None => rfc3339_text(t.secs, t.nanos) is None,
        },
{
    chrono::DateTime::from_timestamp(t.secs, t.nanos).map(|d| d.to_rfc3339())
}

/// The kind of a versioned entity.
#[derive(Clone, Copy, Debug, PartialEq, Eq, Structural)]
pub enum EntityType {
    Holdings,
    Position,
    DecisionEntry,
    CalibrationRecord,
    KnowledgeChunk,
    KnowledgeAnnotation,
    Configuration,
    StressTestConfig,
    MonteCarloConfig,
    CarrySnapshot,
}

impl EntityType {
    /// The variant's name, as `{:?}` writes it.
    pub open spec fn name_spec(self) -> Seq<char> {
        match self {
            EntityType::Holdings => "Holdings"@,
            EntityType::Position => "Position"@,
            EntityType::DecisionEntry => "DecisionEntry"@,
            EntityType::CalibrationRecord => "CalibrationRecord"@,
            EntityType::KnowledgeChunk => "KnowledgeChunk"@,
            EntityType::KnowledgeAnnotation => "KnowledgeAnnotation"@,
            EntityType::Configuration => "Configuration"@,
            EntityType::StressTestConfig => "StressTestConfig"@,
            EntityType::MonteCarloConfig => "MonteCarloConfig"@,
            EntityType::CarrySnapshot => "CarrySnapshot"@,
        }
    }

    /// The variant's name, as `{:?}` writes it.
    pub fn debug_name(&self) -> (s: String)
        ensures
            s@ == self.name_spec(),
    {
        let n = match self {
            EntityType::Holdings => "Holdings",
            EntityType::Position => "Position",
            EntityType::DecisionEntry => "DecisionEntry",
            EntityType::CalibrationRecord => "CalibrationRecord",
            EntityType::KnowledgeChunk => "KnowledgeChunk",
            EntityType::KnowledgeAnnotation => "KnowledgeAnnotation",
            EntityType::Configuration => "Configuration",
            EntityType::StressTestConfig => "StressTestConfig",
            EntityType::MonteCarloConfig => "MonteCarloConfig",
            EntityType::CarrySnapshot => "CarrySnapshot",
        };
        n.to_owned()
    }
}

/// Who or what created a version.
#[derive(Debug)]
pub enum VersionAuthor {
    User,
    System,
    DataFeed(String),
}

/// Mathematical value of a `VersionAuthor`.
pub enum AuthorModel {
    User,
    System,
    DataFeed(Seq<char>),
}

impl View for VersionAuthor {
    type V = AuthorModel;

    open spec fn view(&self) -> AuthorModel {
        match self {
            VersionAuthor::User => AuthorModel::User,
            VersionAuthor::System => AuthorModel::System,
            VersionAuthor::DataFeed(s) => AuthorModel::DataFeed(s@),
        }
    }
}

impl VersionAuthor {
    /// A copy of this author.
    pub fn duplicate(&self) -> (r: VersionAuthor)
        ensures
            r@ == self@,
    {
        match self {
            VersionAuthor::User => VersionAuthor::User,
            VersionAuthor::System => VersionAuthor::System,
            VersionAuthor::DataFeed(s) => VersionAuthor::DataFeed(s.clone()),
        }
    }
}

/// Plaintext metadata (not sensitive; used for querying without decryption).
#[derive(Debug)]
pub struct VersionMetadata {
    pub change_summary: Option<String>,
    pub content_size_bytes: u64,
    pub tags: Vec<String>,
}

/// One version of an entity.
#[derive(Debug)]
pub struct VersionedRecord {
    /// Content-addressed id: SHA-256 of entity id, version and content, in hex.
    pub version_hash: String,
    /// Stable identifier of the entity.
    pub entity_id: String,
    pub entity_type: EntityType,
    /// Version number, counting from 1 for each entity.
    pub version: u64,
    pub author: VersionAuthor,
    /// When this version was created (UTC).
    pub created_at: Timestamp,
    /// Encrypted content (ciphertext).
    pub content_encrypted: Vec<u8>,
    /// Nonce used for AES-256-GCM encryption.
    pub nonce: Vec<u8>,
    pub metadata: VersionMetadata,
    /// Hash of the previous version of the entity.
    pub parent_hash: Option<String>,
}

/// Mathematical value of a `VersionedRecord`.
pub struct RecordModel {
    pub version_hash: Seq<char>,
    pub entity_id: Seq<char>,
    pub entity_type: EntityType,
    pub version: u64,
    pub author: AuthorModel,
    pub created_at: Timestamp,
    pub content_encrypted: Seq<u8>,
    pub nonce: Seq<u8>,
    pub change_summary: Option<Seq<char>>,
    pub content_size_bytes: u64,
    pub tags: Seq<Seq<char>>,
    pub parent_hash: Option<Seq<char>>,
}

/// View of an optional string.
pub open spec fn opt_view(s: Option<String>) -> Option<Seq<char>> {
    match s {
        Some(t) => Some(t@),
        None => None,
    }
}

/// View of a list of strings.
pub open spec fn strings_view(v: Seq<String>) -> Seq<Seq<char>> {
    v.map_values(|s: String| s@)
}

impl View for VersionedRecord {
    type V = RecordModel;

    open spec fn view(&self) -> RecordModel {
        RecordModel {
            version_hash: self.version_hash@,
            entity_id: self.entity_id@,
            entity_type: self.entity_type,
            version: self.version,
            author: self.author@,
            created_at: self.created_at,
            content_encrypted: self.content_encrypted@,
            nonce: self.nonce@,
            change_summary: opt_view(self.metadata.change_summary),
            content_size_bytes: self.metadata.content_size_bytes,
            tags: strings_view(self.metadata.tags@),
            parent_hash: opt_view(self.parent_hash),
        }
    }
}

/// A copy of an optional string.
pub fn copy_opt_string(s: &Option<String>) -> (r: Option<String>)
    ensures
        opt_view(r) == opt_view(*s),
{
    match s {
        Some(t) => Some(t.clone()),
        None => None,
    }
}

/// A copy of a list of strings.
pub fn copy_strings(v: &Vec<String>) -> (r: Vec<String>)
    ensures
        strings_view(r@) == strings_view(v@),
{
    let mut r: Vec<String> = Vec::new();
    let mut i: usize = 0;
    while i < v.len()
        invariant
            i <= v.len(),
            strings_view(r@) == strings_view(v@.take(i as int)),
        decreases v.len() - i,
    {
        r.push(v[i].clone());
        proof {
            assert(strings_view(v@.take(i + 1)) =~= strings_view(v@.take(i as int)).push(v@[i as int]@));
            assert(strings_view(r@) =~= strings_view(v@.take(i as int)).push(v@[i as int]@));
        }
        i += 1;
    }
    proof {
        assert(v@.take(i as int) =~= v@);
    }
    r
}

/// A copy of a byte vector.
pub fn copy_bytes(v: &Vec<u8>) -> (r: Vec<u8>)
    ensures
        r@ == v@,
{
    let mut r: Vec<u8> = Vec::new();
    let mut i: usize = 0;
    while i < v.len()
        invariant
            i <= v.len(),
            r@ == v@.take(i as int),
        decreases v.len() - i,
    {
        r.push(v[i]);
        proof {
            assert(v@.take(i + 1) =~= v@.take(i as int).push(v@[i as int]));
        }
        i += 1;
    }
    proof {
        assert(v@.take(i as int) =~= v@);
    }
    r
}

/// Appends `src` to `dst`.
pub fn append_bytes(dst: &mut Vec<u8>, src: &[u8])
    ensures
        final(dst)@ == old(dst)@ + src@,
{
    let mut i: usize = 0;
    while i < src.len()
        invariant
            i <= src@.len(),
            dst@ == old(dst)@ + src@.take(i as int),
        decreases src@.len() - i,
    {
        dst.push(src[i]);
        proof {
            assert(src@.take(i + 1) =~= src@.take(i as int).push(src@[i as int]));
        }
        i += 1;
    }
    proof {
        assert(src@.take(i as int) =~= src@);
    }
}

/// The content-addressed hash of a version: lowercase hex of
/// SHA-256(UTF-8 entity id ‖ little-endian version ‖ content).
pub open spec fn version_hash_of(entity_id: Seq<char>, version: u64, content: Seq<u8>) -> Seq<char> {
    hex_lower(sha256_digest(encode_utf8(entity_id) + spec_u64_to_le_bytes(version) + content))
}

impl VersionedRecord {
    /// Computes the content-addressed hash that makes each version
    /// tamper-evident.
    pub fn compute_hash(entity_id: &str, version: u64, content: &[u8]) -> (h: String)
        ensures
            h@ == version_hash_of(entity_id@, version, content@),
    {
        let mut data: Vec<u8> = Vec::new();
        append_bytes(&mut data, entity_id.as_bytes());
        let v = u64_to_le_bytes(version);
        append_bytes(&mut data, v.as_slice());
        append_bytes(&mut data, content);
        let digest = sha256(data.as_slice());
        proof {
            assert(data@ =~= encode_utf8(entity_id@) + spec_u64_to_le_bytes(version) + content@);
        }
        to_hex(digest.as_slice())
    }

    /// Whether the stored hash matches the hash recomputed from entity id,
    /// version and content.
    pub open spec fn integrity_holds(self) -> bool {
        self.version_hash@ == version_hash_of(self.entity_id@, self.version, self.content_encrypted@)
    }

    /// Verifies the integrity of this version record.
    pub fn verify_integrity(&self) -> (ok: bool)
        ensures
            ok == self.integrity_holds(),
    {
        let expected = Self::compute_hash(self.entity_id.as_str(), self.version, self.content_encrypted.as_slice());
        self.version_hash == expected
    }

    /// A copy of this record.
    pub fn duplicate(&self) -> (r: VersionedRecord)
        ensures
            r@ == self@,
    {
        VersionedRecord {
            version_hash: self.version_hash.clone(),
            entity_id: self.entity_id.clone(),
            entity_type: self.entity_type,
            version: self.version,
            author: self.author.duplicate(),
            created_at: self.created_at,
            content_encrypted: copy_bytes(&self.content_encrypted),
            nonce: copy_bytes(&self.nonce),
            metadata: VersionMetadata {
                change_summary: copy_opt_string(&self.metadata.change_summary),
                content_size_bytes: self.metadata.content_size_bytes,
                tags: copy_strings(&self.metadata.tags),
            },
            parent_hash: copy_opt_string(&self.parent_hash),
        }
    }
}

/// A query over the version history of one entity.
pub struct VersionQuery {
    pub entity_id: String,
    pub entity_type: Option<EntityType>,
    pub since: Option<Timestamp>,
    pub until: Option<Timestamp>,
    pub limit: Option<usize>,
    pub latest_only: bool,
}

/// A point-in-time snapshot request.
pub struct SnapshotQuery {
    pub as_of: Timestamp,
    pub entity_types: Vec<EntityType>,
    pub entity_ids: Vec<String>,
}

} // verus!
