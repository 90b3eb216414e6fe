//! Holdings and portfolio CRUD endpoints. Every sensitive field is a
//! client-side AES-256-GCM ciphertext blob: the engine checks structure and
//! persists ciphertext. Base64 is used on the wire and decoded to raw bytes
//! before storage.

use vstd::prelude::*;
use crate::codec::{base64_decode, base64_decoded, base64_encode, base64_encoded};
use crate::storage::db::{blank, is_blank, Holding, NewHolding, Portfolio, StorageError};
use crate::text::join;
use crate::versioning::types::opt_view;

verus! {

/// Standard error response body for holdings/portfolio endpoints.
pub struct HoldingsErrorResponse {
    pub error: String,
    pub code: String,
}

/// An HTTP status with an error body.
pub type HoldingsFailure = (u16, HoldingsErrorResponse);

/// Whether `f` is a 400 response with this message and code.
pub open spec fn is_bad_request(f: HoldingsFailure, msg: Seq<char>, code: Seq<char>) -> bool {
    f.0 == 400 && f.1.error@ == msg && f.1.code@ == code
}

/// HTTP status and code of a storage error: 404 `NOT_FOUND`, 400
/// `VALIDATION_ERROR` or `INVALID_ACCOUNT_TYPE`, 500 `STORAGE_ERROR`
/// otherwise.
pub open spec fn storage_status(e: &StorageError) -> (u16, Seq<char>) {
    match e {
        StorageError::NotFound { .. } => (404, "NOT_FOUND"@),
        StorageError::Validation(_) => (400, "VALIDATION_ERROR"@),
        StorageError::InvalidAccountType(_) => (400, "INVALID_ACCOUNT_TYPE"@),
        _ => (500, "STORAGE_ERROR"@),
    }
}

/// Maps a storage error to an HTTP status and an error body.
pub fn storage_error_response(e: StorageError) -> (r: HoldingsFailure)
    ensures
        r.0 == storage_status(&e).0,
        r.1.code@ == storage_status(&e).1,
        r.1.error@ == e.message_spec(),
{
    let (status, code): (u16, &str) = match &e {
        StorageError::NotFound { .. } => (404, "NOT_FOUND"),
        StorageError::Validation(_) => (400, "VALIDATION_ERROR"),
        StorageError::InvalidAccountType(_) => (400, "INVALID_ACCOUNT_TYPE"),
        StorageError::Sqlite(_)
        | StorageError::OpenFailed { .. }
        | StorageError::PoolPoisoned
        | StorageError::PoolExhausted => (500, "STORAGE_ERROR"),
    };
    (status, HoldingsErrorResponse { error: e.message(), code: code.to_owned() })
}

/// A 400 response for a request-level validation failure.
pub fn bad_request(msg: String, code: &str) -> (r: HoldingsFailure)
    ensures
        is_bad_request(r, msg@, code@),
{
    (400, HoldingsErrorResponse { error: msg, code: code.to_owned() })
}

/// Decodes a required base64 field, or gives a 400.
pub fn decode_required(value: &str, field: &str) -> (r: Result<Vec<u8>, HoldingsFailure>)
    ensures
        value@.len() == 0 ==> (r matches Err(f) && is_bad_request(f, field@ + " must not be empty"@, "EMPTY_FIELD"@)),
        value@.len() > 0 ==> match base64_decoded(value@) {
            Some(bytes) => r matches Ok(v) && v@ == bytes,
            None => r matches Err(f) && f.0 == 400 && f.1.code@ == "INVALID_BASE64"@
                && (field@ + " is not valid base64: "@).is_prefix_of(f.1.error@),
        },
{
    if value.is_empty() {
        return Err(bad_request(join(field, " must not be empty"), "EMPTY_FIELD"));
    }
    match base64_decode(value) {
        Ok(v) => Ok(v),
        Err(e) => {
            let prefix = join(field, " is not valid base64: ");
            let m = join(prefix.as_str(), e.as_str());
            proof {
                assert(m@.subrange(0, prefix@.len() as int) =~= prefix@);
            }
            Err(bad_request(m, "INVALID_BASE64"))
        },
    }
}

/// A holding as returned to clients: encrypted fields base64-encoded.
pub struct HoldingResponse {
    pub id: String,
    pub portfolio_id: String,
    pub account_id: Option<String>,
    pub symbol_encrypted_b64: String,
    pub symbol_nonce_b64: String,
    pub payload_encrypted_b64: String,
    pub payload_nonce_b64: String,
    pub created_at: String,
    pub updated_at: String,
}

/// Whether `w` is the wire form of the stored holding `h`: the same ids and
/// timestamps, and each blob in base64.
pub open spec fn holding_wire(w: HoldingResponse, h: Holding) -> bool {
    &&& w.id@ == h.id@
    &&& w.portfolio_id@ == h.portfolio_id@
    &&& opt_view(w.account_id) == opt_view(h.account_id)
    &&& w.symbol_encrypted_b64@ == base64_encoded(h.symbol_encrypted@)
    &&& w.symbol_nonce_b64@ == base64_encoded(h.symbol_nonce@)
    &&& w.payload_encrypted_b64@ == base64_encoded(h.payload_encrypted@)
    &&& w.payload_nonce_b64@ == base64_encoded(h.payload_nonce@)
    &&& w.created_at@ == h.created_at@
    &&& w.updated_at@ == h.updated_at@
}

impl HoldingResponse {
    /// The wire form of a stored holding.
    pub fn from_holding(h: Holding) -> (r: HoldingResponse)
        ensures
            holding_wire(r, h),
    {
        HoldingResponse {
            symbol_encrypted_b64: base64_encode(h.symbol_encrypted.as_slice()),
            symbol_nonce_b64: base64_encode(h.symbol_nonce.as_slice()),
            payload_encrypted_b64: base64_encode(h.payload_encrypted.as_slice()),
            payload_nonce_b64: base64_encode(h.payload_nonce.as_slice()),
            id: h.id,
            portfolio_id: h.portfolio_id,
            account_id: h.account_id,
            created_at: h.created_at,
            updated_at: h.updated_at,
        }
    }
}

/// A portfolio as returned to clients.
pub struct PortfolioResponse {
    pub id: String,
    pub name_encrypted_b64: String,
    pub name_nonce_b64: String,
    pub created_at: String,
}

impl PortfolioResponse {
    /// The wire form of a stored portfolio.
    pub fn from_portfolio(p: Portfolio) -> (r: PortfolioResponse)
        ensures
            r.id@ == p.id@,
            r.name_encrypted_b64@ == base64_encoded(p.name_encrypted@),
            r.name_nonce_b64@ == base64_encoded(p.name_nonce@),
            r.created_at@ == p.created_at@,
    {
        PortfolioResponse {
            name_encrypted_b64: base64_encode(p.name_encrypted.as_slice()),
            name_nonce_b64: base64_encode(p.name_nonce.as_slice()),
            id: p.id,
            created_at: p.created_at,
        }
    }
}

/// Query parameters for listing holdings.
pub struct ListHoldingsQuery {
    pub portfolio_id: String,
    pub account_id: Option<String>,
}

impl ListHoldingsQuery {
    /// A listing needs a non-blank portfolio id.
    pub fn check(&self) -> (r: Result<(), HoldingsFailure>)
        ensures
            is_blank(self.portfolio_id@) ==> (r matches Err(f) && is_bad_request(
                f,
                "portfolio_id query param is required"@,
                "MISSING_PORTFOLIO_ID"@,
            )),
            !is_blank(self.portfolio_id@) ==> r is Ok,
    {
        if blank(self.portfolio_id.as_str()) {
            return Err(bad_request("portfolio_id query param is required".to_owned(), "MISSING_PORTFOLIO_ID"));
        }
        Ok(())
    }
}

/// Response wrapper for a list of holdings.
pub struct ListHoldingsResponse {
    pub portfolio_id: String,
    pub count: usize,
    pub holdings: Vec<HoldingResponse>,
}

/// The listing response for a portfolio's holdings, in the order given.
pub fn list_holdings_response(portfolio_id: String, rows: Vec<Holding>) -> (r: ListHoldingsResponse)
    ensures
        r.portfolio_id@ == portfolio_id@,
        r.count == rows@.len(),
        r.holdings@.len() == rows@.len(),
        forall|i: int| 0 <= i < rows@.len() ==> holding_wire(#[trigger] r.holdings@[i], rows@[i]),
{
    let ghost original = rows@;
    let mut rows = rows;
    let mut rev: Vec<HoldingResponse> = Vec::new();
    // Converts from the back so that each row can be moved out.
    while rows.len() > 0
        invariant
            rows@ == original.take(rows@.len() as int),
            rows@.len() + rev@.len() == original.len(),
            forall|j: int| 0 <= j < rev@.len() ==> holding_wire(
                #[trigger] rev@[j],
                original[original.len() - 1 - j],
            ),
        decreases rows@.len(),
    {
        let h = rows.pop().unwrap();
        proof {
            assert(original.take(rows@.len() as int) =~= original.take(rows@.len() + 1int).drop_last());
        }
        rev.push(HoldingResponse::from_holding(h));
    }
    let mut out: Vec<HoldingResponse> = Vec::new();
    while rev.len() > 0
        invariant
            rev@.len() + out@.len() == original.len(),
            forall|j: int| 0 <= j < rev@.len() ==> holding_wire(
                #[trigger] rev@[j],
                original[original.len() - 1 - j],
            ),
            forall|i: int| 0 <= i < out@.len() ==> holding_wire(#[trigger] out@[i], original[i]),
        decreases rev@.len(),
    {
        let ghost j = rev@.len() - 1;
        let x = rev.pop().unwrap();
        proof {
            assert(original.len() - 1 - j == out@.len());
        }
        out.push(x);
    }
    let count = out.len();
    ListHoldingsResponse { portfolio_id, count, holdings: out }
}

/// Request body to create a holding; all financial content is ciphertext
/// (base64).
pub struct CreateHoldingRequest {
    pub portfolio_id: String,
    pub account_id: Option<String>,
    pub symbol_encrypted_b64: String,
    pub symbol_nonce_b64: String,
    pub payload_encrypted_b64: String,
    pub payload_nonce_b64: String,
}

/// The four base64 fields of a request, decoded, when all are present and
/// valid.
pub open spec fn decoded_four(a: Seq<char>, b: Seq<char>, c: Seq<char>, d: Seq<char>)
    -> Option<(Seq<u8>, Seq<u8>, Seq<u8>, Seq<u8>)> {
    if a.len() > 0 && b.len() > 0 && c.len() > 0 && d.len() > 0 {
        match (base64_decoded(a), base64_decoded(b), base64_decoded(c), base64_decoded(d)) {
            (Some(x), Some(y), Some(z), Some(w)) => Some((x, y, z, w)),
            _ => None,
        }
    } else {
        None
    }
}

/// The four fields of a request decode together exactly when each is
/// non-empty base64, and then each decoded blob is the decoding of the field
/// in the same position: the symbol ciphertext, the symbol nonce, the
/// payload ciphertext and the payload nonce.
pub proof fn lemma_decoded_four_fields(a: Seq<char>, b: Seq<char>, c: Seq<char>, d: Seq<char>)
    ensures
        decoded_four(a, b, c, d) is Some <==> (a.len() > 0 && b.len() > 0 && c.len() > 0 && d.len() > 0
            && base64_decoded(a) is Some && base64_decoded(b) is Some && base64_decoded(c) is Some
            && base64_decoded(d) is Some),
        decoded_four(a, b, c, d) matches Some((w, x, y, z)) ==> base64_decoded(a) == Some(w)
            && base64_decoded(b) == Some(x) && base64_decoded(c) == Some(y) && base64_decoded(d) == Some(z),
{
}

impl CreateHoldingRequest {
    /// The holding the request asks to insert: a non-blank portfolio id and
    /// the four decoded blobs; 400 otherwise.
    pub fn into_new_holding(self) -> (r: Result<NewHolding, HoldingsFailure>)
        ensures
            is_blank(self.portfolio_id@) ==> (r matches Err(f) && is_bad_request(
                f,
                "portfolio_id must not be empty"@,
                "EMPTY_PORTFOLIO_ID"@,
            )),
            !is_blank(self.portfolio_id@) ==> match decoded_four(
                self.symbol_encrypted_b64@,
                self.symbol_nonce_b64@,
                self.payload_encrypted_b64@,
                self.payload_nonce_b64@,
            ) {
                Some((a, b, c, d)) => r matches Ok(n) && {
                    &&& n.portfolio_id@ == self.portfolio_id@
                    &&& opt_view(n.account_id) == opt_view(self.account_id)
                    &&& n.symbol_encrypted@ == a
                    &&& n.symbol_nonce@ == b
                    &&& n.payload_encrypted@ == c
                    &&& n.payload_nonce@ == d
                },
                None => r matches Err(f) && f.0 == 400,
            },
            r matches Ok(n) ==> n.portfolio_id@ == self.portfolio_id@,
            r matches Ok(n) ==> base64_decoded(self.symbol_encrypted_b64@) == Some(n.symbol_encrypted@),
            r matches Ok(n) ==> base64_decoded(self.symbol_nonce_b64@) == Some(n.symbol_nonce@),
            r matches Ok(n) ==> base64_decoded(self.payload_encrypted_b64@) == Some(n.payload_encrypted@),
            r matches Ok(n) ==> base64_decoded(self.payload_nonce_b64@) == Some(n.payload_nonce@),
    {
        if blank(self.portfolio_id.as_str()) {
            return Err(bad_request("portfolio_id must not be empty".to_owned(), "EMPTY_PORTFOLIO_ID"));
        }
        let symbol_encrypted = decode_required(self.symbol_encrypted_b64.as_str(), "symbol_encrypted_b64")?;
        let symbol_nonce = decode_required(self.symbol_nonce_b64.as_str(), "symbol_nonce_b64")?;
        let payload_encrypted = decode_required(self.payload_encrypted_b64.as_str(), "payload_encrypted_b64")?;
        let payload_nonce = decode_required(self.payload_nonce_b64.as_str(), "payload_nonce_b64")?;
        Ok(NewHolding {
            portfolio_id: self.portfolio_id,
            account_id: self.account_id,
            symbol_encrypted,
            symbol_nonce,
            payload_encrypted,
            payload_nonce,
        })
    }
}

/// Response after creating a holding.
pub struct CreateHoldingResponse {
    pub id: String,
}

/// Request body to update a holding's encrypted symbol and payload.
pub struct UpdateHoldingRequest {
    pub symbol_encrypted_b64: String,
    pub symbol_nonce_b64: String,
    pub payload_encrypted_b64: String,
    pub payload_nonce_b64: String,
}

/// A holding id from the path must not be blank.
pub fn check_holding_id(id: &str) -> (r: Result<(), HoldingsFailure>)
    ensures
        is_blank(id@) ==> (r matches Err(f) && is_bad_request(f, "holding id must not be empty"@, "EMPTY_ID"@)),
        !is_blank(id@) ==> r is Ok,
{
    if blank(id) {
        return Err(bad_request("holding id must not be empty".to_owned(), "EMPTY_ID"));
    }
    Ok(())
}

impl UpdateHoldingRequest {
    /// The four blobs of the update, decoded; 400 when one is empty or not
    /// base64.
    pub fn decode(&self) -> (r: Result<(Vec<u8>, Vec<u8>, Vec<u8>, Vec<u8>), HoldingsFailure>)
        ensures
            match decoded_four(
                self.symbol_encrypted_b64@,
                self.symbol_nonce_b64@,
                self.payload_encrypted_b64@,
                self.payload_nonce_b64@,
            ) {
                Some((a, b, c, d)) => r matches Ok((w, x, y, z)) && w@ == a && x@ == b && y@ == c && z@ == d,
                None => r matches Err(f) && f.0 == 400,
            },
            r matches Ok((w, x, y, z)) ==> base64_decoded(self.symbol_encrypted_b64@) == Some(w@)
                && base64_decoded(self.symbol_nonce_b64@) == Some(x@)
                && base64_decoded(self.payload_encrypted_b64@) == Some(y@)
                && base64_decoded(self.payload_nonce_b64@) == Some(z@),
    {
        let symbol_encrypted = decode_required(self.symbol_encrypted_b64.as_str(), "symbol_encrypted_b64")?;
        let symbol_nonce = decode_required(self.symbol_nonce_b64.as_str(), "symbol_nonce_b64")?;
        let payload_encrypted = decode_required(self.payload_encrypted_b64.as_str(), "payload_encrypted_b64")?;
        let payload_nonce = decode_required(self.payload_nonce_b64.as_str(), "payload_nonce_b64")?;
        Ok((symbol_encrypted, symbol_nonce, payload_encrypted, payload_nonce))
    }
}

/// Acknowledgement of an update or delete.
pub struct AckResponse {
    pub id: String,
    pub status: &'static str,
}

/// Response wrapper for a list of portfolios.
pub struct ListPortfoliosResponse {
    pub count: usize,
    pub portfolios: Vec<PortfolioResponse>,
}

/// Whether `w` is the wire form of the stored portfolio `p`.
pub open spec fn portfolio_wire(w: PortfolioResponse, p: Portfolio) -> bool {
    &&& w.id@ == p.id@
    &&& w.name_encrypted_b64@ == base64_encoded(p.name_encrypted@)
    &&& w.name_nonce_b64@ == base64_encoded(p.name_nonce@)
    &&& w.created_at@ == p.created_at@
}

/// The listing response for the stored portfolios, in the order given.
pub fn list_portfolios_response(rows: Vec<Portfolio>) -> (r: ListPortfoliosResponse)
    ensures
        r.count == rows@.len(),
        r.portfolios@.len() == rows@.len(),
        forall|i: int| 0 <= i < rows@.len() ==> portfolio_wire(#[trigger] r.portfolios@[i], rows@[i]),
{
    let ghost original = rows@;
    let mut rows = rows;
    let mut rev: Vec<PortfolioResponse> = Vec::new();
    // Converts from the back so that each row can be moved out.
    while rows.len() > 0
        invariant
            rows@ == original.take(rows@.len() as int),
            rows@.len() + rev@.len() == original.len(),
            forall|j: int| 0 <= j < rev@.len() ==> portfolio_wire(
                #[trigger] rev@[j],
                original[original.len() - 1 - j],
            ),
        decreases rows@.len(),
    {
        let p = rows.pop().unwrap();
        proof {
            assert(original.take(rows@.len() as int) =~= original.take(rows@.len() + 1int).drop_last());
        }
        rev.push(PortfolioResponse::from_portfolio(p));
    }
    let mut out: Vec<PortfolioResponse> = Vec::new();
    while rev.len() > 0
        invariant
            rev@.len() + out@.len() == original.len(),
            forall|j: int| 0 <= j < rev@.len() ==> portfolio_wire(
                #[trigger] rev@[j],
                original[original.len() - 1 - j],
            ),
            forall|i: int| 0 <= i < out@.len() ==> portfolio_wire(#[trigger] out@[i], original[i]),
        decreases rev@.len(),
    {
        let ghost j = rev@.len() - 1;
        let x = rev.pop().unwrap();
        proof {
            assert(original.len() - 1 - j == out@.len());
        }
        out.push(x);
    }
    let count = out.len();
    ListPortfoliosResponse { count, portfolios: out }
}

/// Request body to create a portfolio; the name is ciphertext.
pub struct CreatePortfolioRequest {
    pub name_encrypted_b64: String,
    pub name_nonce_b64: String,
}

impl CreatePortfolioRequest {
    /// The name ciphertext and nonce, decoded; 400 when one is empty or not
    /// base64.
    pub fn decode(&self) -> (r: Result<(Vec<u8>, Vec<u8>), HoldingsFailure>)
        ensures
            self.name_encrypted_b64@.len() > 0 && self.name_nonce_b64@.len() > 0 ==> match (
                base64_decoded(self.name_encrypted_b64@),
                base64_decoded(self.name_nonce_b64@),
            ) {
                (Some(a), Some(b)) => r matches Ok((x, y)) && x@ == a && y@ == b,
                _ => r matches Err(f) && f.0 == 400,
            },
            self.name_encrypted_b64@.len() == 0 || self.name_nonce_b64@.len() == 0 ==> (r matches Err(f) && f.0 == 400),
    {
        let name_encrypted = decode_required(self.name_encrypted_b64.as_str(), "name_encrypted_b64")?;
        let name_nonce = decode_required(self.name_nonce_b64.as_str(), "name_nonce_b64")?;
        Ok((name_encrypted, name_nonce))
    }
}

/// Response after creating a portfolio.
pub struct CreatePortfolioResponse {
    pub id: String,
}

} // verus!
