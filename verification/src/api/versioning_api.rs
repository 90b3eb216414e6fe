//! API of the versioning system. All content is encrypted client-side before
//! it reaches these endpoints.

use vstd::prelude::*;
use crate::codec::{base64_decode, base64_decoded, base64_encode, base64_encoded};
use crate::text::{join, str_eq};
use crate::versioning::store::{
    VersionStore, VersionStoreError, appended, next_record, query_result, records_view,
    chain_verifies,
};
use crate::versioning::types::{
    copy_opt_string, copy_strings, opt_view, rfc3339_text, strings_view, timestamp_to_rfc3339,
    EntityType, Timestamp, VersionAuthor, VersionQuery, VersionedRecord, version_hash_of, AuthorModel,
};

verus! {

pub struct AppendVersionRequest {
    pub entity_id: String,
    pub entity_type: String,
    pub content_encrypted_b64: String,
    pub nonce_b64: String,
    pub change_summary: Option<String>,
    pub tags: Vec<String>,
}

pub struct AppendVersionResponse {
    pub version_hash: String,
    pub version: u64,
}

pub struct GetHistoryRequest {
    pub entity_id: String,
    pub limit: Option<usize>,
    pub latest_only: Option<bool>,
}

/// A version as returned to clients.
pub struct VersionRecord {
    pub version_hash: String,
    pub entity_id: String,
    pub entity_type: String,
    pub version: u64,
    pub created_at: String,
    pub change_summary: Option<String>,
    pub tags: Vec<String>,
    pub content_encrypted_b64: String,
    pub nonce_b64: String,
    pub parent_hash: Option<String>,
}

pub struct GetHistoryResponse {
    pub entity_id: String,
    pub total_versions: usize,
    pub versions: Vec<VersionRecord>,
}

pub struct SnapshotRequest {
    pub as_of: String,
    pub entity_types: Vec<String>,
}

pub struct SnapshotResponse {
    pub as_of: String,
    pub entities: Vec<VersionRecord>,
}

pub struct IntegrityResponse {
    pub entity_id: String,
    pub chain_valid: bool,
    pub total_versions: usize,
}

/// Error body of the versioning endpoints.
pub struct ApiError {
    pub error: String,
    pub code: String,
}

/// An HTTP status with an error body.
pub type ApiFailure = (u16, ApiError);

/// Whether `f` is a 400 with this message and code.
pub open spec fn is_bad_request(f: ApiFailure, msg: Seq<char>, code: Seq<char>) -> bool {
    f.0 == 400 && f.1.error@ == msg && f.1.code@ == code
}

/// A 400 response for a validation failure.
pub fn bad_request(msg: String, code: &str) -> (r: ApiFailure)
    ensures
        is_bad_request(r, msg@, code@),
{
    (400, ApiError { error: msg, code: code.to_owned() })
}

/// A 500 response for a store failure.
pub fn internal_error(e: VersionStoreError) -> (r: ApiFailure)
    ensures
        r.0 == 500,
        r.1.error@ == e.message_spec(),
        r.1.code@ == "STORE_ERROR"@,
{
    (500, ApiError { error: e.message(), code: "STORE_ERROR".to_owned() })
}

/// The entity type with this wire name (`snake_case`), if any.
pub open spec fn entity_type_named(s: Seq<char>) -> Option<EntityType> {
    if s == "holdings"@ {
        Some(EntityType::Holdings)
    } else if s == "position"@ {
        Some(EntityType::Position)
    } else if s == "decision_entry"@ {
        Some(EntityType::DecisionEntry)
    } else if s == "calibration_record"@ {
        Some(EntityType::CalibrationRecord)
    } else if s == "knowledge_chunk"@ {
        Some(EntityType::KnowledgeChunk)
    } else if s == "knowledge_annotation"@ {
        Some(EntityType::KnowledgeAnnotation)
    } else if s == "configuration"@ {
        Some(EntityType::Configuration)
    } else if s == "stress_test_config"@ {
        Some(EntityType::StressTestConfig)
    } else if s == "monte_carlo_config"@ {
        Some(EntityType::MonteCarloConfig)
    } else if s == "carry_snapshot"@ {
        Some(EntityType::CarrySnapshot)
    } else {
        None
    }
}

/// Parses a wire entity type into the enum.
pub fn parse_entity_type(s: &str) -> (r: Result<EntityType, ApiFailure>)
    ensures
        match entity_type_named(s@) {
            Some(t) => r matches Ok(u) && u == t,
            None => r matches Err(f) && is_bad_request(f, "Unknown entity type: '"@ + s@ + "'"@, "INVALID_ENTITY_TYPE"@),
        },
{
    if str_eq(s, "holdings") {
        Ok(EntityType::Holdings)
    } else if str_eq(s, "position") {
        Ok(EntityType::Position)
    } else if str_eq(s, "decision_entry") {
        Ok(EntityType::DecisionEntry)
    } else if str_eq(s, "calibration_record") {
        Ok(EntityType::CalibrationRecord)
    } else if str_eq(s, "knowledge_chunk") {
        Ok(EntityType::KnowledgeChunk)
    } else if str_eq(s, "knowledge_annotation") {
        Ok(EntityType::KnowledgeAnnotation)
    } else if str_eq(s, "configuration") {
        Ok(EntityType::Configuration)
    } else if str_eq(s, "stress_test_config") {
        Ok(EntityType::StressTestConfig)
    } else if str_eq(s, "monte_carlo_config") {
        Ok(EntityType::MonteCarloConfig)
    } else if str_eq(s, "carry_snapshot") {
        Ok(EntityType::CarrySnapshot)
    } else {
        let m = join(join("Unknown entity type: '", s).as_str(), "'");
        Err(bad_request(m, "INVALID_ENTITY_TYPE"))
    }
}

/// Whether `v` is the wire form of the version `r`: ciphertext and nonce in
/// base64, the type by its variant name, the creation time in RFC 3339
/// (empty for an instant outside the calendar's range).
pub open spec fn api_record_of(v: VersionRecord, r: crate::versioning::types::RecordModel) -> bool {
    &&& v.version_hash@ == r.version_hash
    &&& v.entity_id@ == r.entity_id
    &&& v.entity_type@ == r.entity_type.name_spec()
    &&& v.version == r.version
    &&& v.created_at@ == match rfc3339_text(r.created_at.secs, r.created_at.nanos) {
        Some(t) => t,
        None => Seq::empty(),
    }
    &&& opt_view(v.change_summary) == r.change_summary
    &&& strings_view(v.tags@) == r.tags
    &&& v.content_encrypted_b64@ == base64_encoded(r.content_encrypted)
    &&& v.nonce_b64@ == base64_encoded(r.nonce)
    &&& opt_view(v.parent_hash) == r.parent_hash
}

/// Converts a stored version to its wire form.
pub fn to_api_record(r: &VersionedRecord) -> (v: VersionRecord)
    ensures
        api_record_of(v, r@),
{
    let created_at = match timestamp_to_rfc3339(r.created_at) {
        Some(t) => t,
        None => String::new(),
    };
    VersionRecord {
        version_hash: r.version_hash.clone(),
        entity_id: r.entity_id.clone(),
        entity_type: r.entity_type.debug_name(),
        version: r.version,
        created_at,
        change_summary: copy_opt_string(&r.metadata.change_summary),
        tags: copy_strings(&r.metadata.tags),
        content_encrypted_b64: base64_encode(r.content_encrypted.as_slice()),
        nonce_b64: base64_encode(r.nonce.as_slice()),
        parent_hash: copy_opt_string(&r.parent_hash),
    }
}

/// Appends the requested version to the store: the entity id, content and
/// nonce must be non-empty, the type known and both blobs base64. Returns
/// the new version's hash and number.
pub fn append_version(store: &mut VersionStore, input: AppendVersionRequest) -> (r: Result<AppendVersionResponse, ApiFailure>)
    requires
        old(store).history(input.entity_id@).len() < u64::MAX,
    ensures
        final(store).wf(),
        input.entity_id@.len() == 0 ==> (r matches Err(f) && is_bad_request(f, "entity_id must not be empty"@, "EMPTY_ENTITY_ID"@)),
        input.entity_id@.len() > 0 && input.content_encrypted_b64@.len() == 0 ==> (r matches Err(f) && is_bad_request(
            f,
            "content_encrypted_b64 must not be empty"@,
            "EMPTY_CONTENT"@,
        )),
        input.entity_id@.len() > 0 && input.content_encrypted_b64@.len() > 0 && input.nonce_b64@.len() == 0 ==> (
        r matches Err(f) && is_bad_request(f, "nonce_b64 must not be empty"@, "EMPTY_NONCE"@)),
        input.entity_id@.len() > 0 && input.content_encrypted_b64@.len() > 0 && input.nonce_b64@.len() > 0
            && entity_type_named(input.entity_type@) is None ==> (r matches Err(f) && is_bad_request(
            f,
            "Unknown entity type: '"@ + input.entity_type@ + "'"@,
            "INVALID_ENTITY_TYPE"@,
        )),
        r is Err ==> final(store)@ == old(store)@,
        input.entity_id@.len() > 0 && input.content_encrypted_b64@.len() > 0 && input.nonce_b64@.len() > 0
            && entity_type_named(input.entity_type@) is Some ==> match (
            base64_decoded(input.content_encrypted_b64@),
            base64_decoded(input.nonce_b64@),
        ) {
            (Some(content), Some(nonce)) => r matches Ok(resp) && {
                let n = old(store).history(input.entity_id@).len();
                &&& resp.version == n + 1
                &&& resp.version_hash@ == version_hash_of(input.entity_id@, (n + 1) as u64, content)
                &&& crate::versioning::store::appended_at_some_time(
                    old(store)@,
                    final(store)@,
                    input.entity_id@,
                    entity_type_named(input.entity_type@)->0,
                    content,
                    nonce,
                    AuthorModel::User,
                    opt_view(input.change_summary),
                    strings_view(input.tags@),
                )
            },
            (None, _) => r matches Err(f) && f.0 == 400 && f.1.code@ == "INVALID_BASE64"@
                && "Invalid content base64: "@.is_prefix_of(f.1.error@),
            (Some(_), None) => r matches Err(f) && f.0 == 400 && f.1.code@ == "INVALID_BASE64"@
                && "Invalid nonce base64: "@.is_prefix_of(f.1.error@),
        },
{
    proof {
        use_type_invariant(&*store);
    }
    if input.entity_id.as_str().is_empty() {
        return Err(bad_request("entity_id must not be empty".to_owned(), "EMPTY_ENTITY_ID"));
    }
    if input.content_encrypted_b64.as_str().is_empty() {
        return Err(bad_request("content_encrypted_b64 must not be empty".to_owned(), "EMPTY_CONTENT"));
    }
    if input.nonce_b64.as_str().is_empty() {
        return Err(bad_request("nonce_b64 must not be empty".to_owned(), "EMPTY_NONCE"));
    }
    let entity_type = parse_entity_type(input.entity_type.as_str())?;
    let content = match base64_decode(input.content_encrypted_b64.as_str()) {
        Ok(c) => c,
        Err(e) => {
            let m = join("Invalid content base64: ", e.as_str());
            proof {
                assert(m@.subrange(0, "Invalid content base64: "@.len() as int) =~= "Invalid content base64: "@);
            }
            return Err(bad_request(m, "INVALID_BASE64"));
        },
    };
    let nonce = match base64_decode(input.nonce_b64.as_str()) {
        Ok(n) => n,
        Err(e) => {
            let m = join("Invalid nonce base64: ", e.as_str());
            proof {
                assert(m@.subrange(0, "Invalid nonce base64: "@.len() as int) =~= "Invalid nonce base64: "@);
            }
            return Err(bad_request(m, "INVALID_BASE64"));
        },
    };
    let ghost summary = opt_view(input.change_summary);
    let ghost tag_views = strings_view(input.tags@);
    let ghost old_store = store@;
    let ghost n = store.history(input.entity_id@).len();
    let version_hash = match store.append(
        input.entity_id.as_str(),
        entity_type,
        content,
        nonce,
        VersionAuthor::User,
        input.change_summary,
        input.tags,
    ) {
        Ok(h) => h,
        Err(e) => return Err(internal_error(e)),
    };
    let latest = match store.get_latest(input.entity_id.as_str()) {
        Ok(l) => l,
        Err(e) => return Err(internal_error(e)),
    };
    proof {
        let at = choose|at: Timestamp|
            #![trigger next_record(old_store, input.entity_id@, entity_type, content@, nonce@, AuthorModel::User, summary, tag_views, at)]
            store@ == appended(old_store, input.entity_id@, next_record(old_store, input.entity_id@, entity_type,
                content@, nonce@, AuthorModel::User, summary, tag_views, at));
        let rec = next_record(old_store, input.entity_id@, entity_type, content@, nonce@,
            AuthorModel::User, summary, tag_views, at);
        crate::versioning::store::lemma_appended_history(old_store, input.entity_id@, rec, input.entity_id@);
    }
    let version = match latest {
        Some(r) => r.version,
        None => 1,
    };
    Ok(AppendVersionResponse { version_hash, version })
}

/// The version history of the requested entity, as the store's query
/// selects it.
pub fn get_history(store: &VersionStore, input: GetHistoryRequest) -> (r: Result<GetHistoryResponse, ApiFailure>)
    ensures
        input.entity_id@.len() == 0 ==> (r matches Err(f) && is_bad_request(f, "entity_id must not be empty"@, "EMPTY_ENTITY_ID"@)),
        input.entity_id@.len() > 0 ==> (r matches Ok(resp) && {
            let sel = query_result(
                store.history(input.entity_id@),
                None,
                None,
                input.limit,
                input.latest_only == Some(true),
            );
            &&& resp.entity_id@ == input.entity_id@
            &&& resp.total_versions == sel.len()
            &&& resp.versions@.len() == sel.len()
            &&& forall|i: int| 0 <= i < sel.len() ==> api_record_of(#[trigger] resp.versions@[i], sel[i])
        }),
{
    if input.entity_id.as_str().is_empty() {
        return Err(bad_request("entity_id must not be empty".to_owned(), "EMPTY_ENTITY_ID"));
    }
    let latest_only = match input.latest_only {
        Some(b) => b,
        None => false,
    };
    let query = VersionQuery {
        entity_id: input.entity_id.clone(),
        entity_type: None,
        since: None,
        until: None,
        limit: input.limit,
        latest_only,
    };
    let records = match store.query(&query) {
        Ok(v) => v,
        Err(e) => return Err(internal_error(e)),
    };
    let total = records.len();
    let mut versions: Vec<VersionRecord> = Vec::new();
    let mut i: usize = 0;
    while i < records.len()
        invariant
            i <= records@.len(),
            versions@.len() == i,
            forall|j: int| 0 <= j < i ==> api_record_of(#[trigger] versions@[j], records@[j]@),
        decreases records@.len() - i,
    {
        versions.push(to_api_record(&records[i]));
        i += 1;
    }
    proof {
        assert(input.latest_only == Some(true) <==> latest_only);
        let sel = records_view(records@);
        assert forall|j: int| 0 <= j < sel.len() implies api_record_of(#[trigger] versions@[j], sel[j]) by {
            assert(sel[j] == records@[j]@);
        }
    }
    Ok(GetHistoryResponse { entity_id: input.entity_id, total_versions: total, versions })
}

/// A point-in-time snapshot; not implemented yet, so always empty.
pub fn get_snapshot(input: SnapshotRequest) -> (r: SnapshotResponse)
    ensures
        r.as_of@ == input.as_of@,
        r.entities@.len() == 0,
{
    SnapshotResponse { as_of: input.as_of, entities: Vec::new() }
}

/// Verifies the hash chain of an entity and counts its versions.
pub fn verify_integrity(store: &VersionStore, entity_id: String) -> (r: Result<IntegrityResponse, ApiFailure>)
    ensures
        entity_id@.len() == 0 ==> (r matches Err(f) && is_bad_request(f, "entity_id must not be empty"@, "EMPTY_ENTITY_ID"@)),
        entity_id@.len() > 0 ==> (r matches Ok(resp) && {
            &&& resp.entity_id@ == entity_id@
            &&& resp.chain_valid == chain_verifies(store.history(entity_id@))
            &&& resp.total_versions == store.history(entity_id@).len()
        }),
        entity_id@.len() > 0 ==> (r matches Ok(resp) && resp.chain_valid),
{
    if entity_id.as_str().is_empty() {
        return Err(bad_request("entity_id must not be empty".to_owned(), "EMPTY_ENTITY_ID"));
    }
    let chain_valid = match store.verify_chain(entity_id.as_str()) {
        Ok(b) => b,
        Err(e) => return Err(internal_error(e)),
    };
    let query = VersionQuery {
        entity_id: entity_id.clone(),
        entity_type: None,
        since: None,
        until: None,
        limit: None,
        latest_only: false,
    };
    let records = match store.query(&query) {
        Ok(v) => v,
        Err(e) => return Err(internal_error(e)),
    };
    proof {
        crate::versioning::store::lemma_window_all(store.history(entity_id@));
        assert(records_view(records@).len() == records@.len());
    }
    Ok(IntegrityResponse { entity_id, chain_valid, total_versions: records.len() })
}

} // verus!
