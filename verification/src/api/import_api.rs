//! CSV / broker-statement import: a review step that parses an uploaded file
//! into holdings without saving anything, and a confirm step that accepts
//! only client-side-encrypted holdings for persistence.

use vstd::prelude::*;
use crate::codec::{base64_decode, base64_decoded};
use crate::storage::db::{is_blank, blank, NewHolding};
use crate::text::{
    chars_of, decimal, join, lines_of, lower_all, lower_chars, split_fields, split_on,
    string_from_chars, text_lines, trim, trim_chars, upper_all, upper_chars, usize_to_decimal,
    views,
};

verus! {

/// Maximum accepted upload size: 10 MB.
pub const MAX_FILE_BYTES: usize = 10 * 1024 * 1024;

/// Standard error response body for import endpoints.
pub struct ImportErrorResponse {
    pub error: String,
    pub code: String,
}

/// Import-specific errors, each mapped to an HTTP status code.
#[derive(Debug)]
pub enum ImportError {
    /// No file part was found in the multipart body.
    NoFile,
    /// The multipart body could not be read.
    MalformedMultipart(String),
    /// File exceeded `MAX_FILE_BYTES`.
    TooLarge { size: usize },
    /// Unsupported file extension / content type.
    UnsupportedType { detail: String },
    /// File decoded but contained no parseable holdings.
    ParseFailed(String),
    /// A confirm request referenced a portfolio that does not exist.
    PortfolioNotFound(String),
    /// Generic validation failure (empty fields, bad base64, etc.).
    Validation(String),
    /// Persistence failed.
    Storage(String),
}

impl ImportError {
    /// The HTTP status of this error.
    pub open spec fn status_spec(&self) -> u16 {
        match self {
            ImportError::ParseFailed(_) => 422,
            ImportError::Storage(_) => 500,
            _ => 400,
        }
    }

    /// The machine-readable code of this error.
    pub open spec fn code_spec(&self) -> Seq<char> {
        match self {
            ImportError::NoFile => "NO_FILE"@,
            ImportError::MalformedMultipart(_) => "MALFORMED_MULTIPART"@,
            ImportError::TooLarge { .. } => "FILE_TOO_LARGE"@,
            ImportError::UnsupportedType { .. } => "UNSUPPORTED_TYPE"@,
            ImportError::ParseFailed(_) => "PARSE_FAILED"@,
            ImportError::PortfolioNotFound(_) => "PORTFOLIO_NOT_FOUND"@,
            ImportError::Validation(_) => "VALIDATION_ERROR"@,
            ImportError::Storage(_) => "STORAGE_ERROR"@,
        }
    }

    /// The human-readable message of this error.
    pub open spec fn message_spec(&self) -> Seq<char> {
        match self {
            ImportError::NoFile => "No 'file' part found in upload"@,
            ImportError::MalformedMultipart(m) => "Malformed multipart body: "@ + m@,
            ImportError::TooLarge { size } => "File is "@ + decimal(*size as nat) + " bytes; maximum allowed is "@
                + decimal(MAX_FILE_BYTES as nat) + " bytes"@,
            ImportError::UnsupportedType { detail } => "Unsupported file type: "@ + detail@
                + ". Expected .csv, .ofx, or .qfx"@,
            ImportError::ParseFailed(m) => "Could not parse file: "@ + m@,
            ImportError::PortfolioNotFound(id) => "Portfolio not found: "@ + id@,
            ImportError::Validation(m) => "Validation failed: "@ + m@,
            ImportError::Storage(m) => "Storage error: "@ + m@,
        }
    }

    /// HTTP status code: 422 for unparseable files, 500 for storage
    /// failures, 400 otherwise.
    pub fn status_code(&self) -> (s: u16)
        ensures
            s == self.status_spec(),
    {
        match self {
            ImportError::NoFile
            | ImportError::MalformedMultipart(_)
            | ImportError::TooLarge { .. }
            | ImportError::UnsupportedType { .. }
            | ImportError::Validation(_)
            | ImportError::PortfolioNotFound(_) => 400,
            ImportError::ParseFailed(_) => 422,
            ImportError::Storage(_) => 500,
        }
    }

    /// Machine-readable error code.
    pub fn code(&self) -> (c: &'static str)
        ensures
            c@ == self.code_spec(),
    {
        match self {
            ImportError::NoFile => "NO_FILE",
            ImportError::MalformedMultipart(_) => "MALFORMED_MULTIPART",
            ImportError::TooLarge { .. } => "FILE_TOO_LARGE",
            ImportError::UnsupportedType { .. } => "UNSUPPORTED_TYPE",
            ImportError::ParseFailed(_) => "PARSE_FAILED",
            ImportError::PortfolioNotFound(_) => "PORTFOLIO_NOT_FOUND",
            ImportError::Validation(_) => "VALIDATION_ERROR",
            ImportError::Storage(_) => "STORAGE_ERROR",
        }
    }

    /// Human-readable error message.
    pub fn message(&self) -> (m: String)
        ensures
            m@ == self.message_spec(),
    {
        match self {
            ImportError::NoFile => "No 'file' part found in upload".to_owned(),
            ImportError::MalformedMultipart(m) => join("Malformed multipart body: ", m.as_str()),
            ImportError::TooLarge { size } => {
                let a = join("File is ", usize_to_decimal(*size).as_str());
                let b = join(a.as_str(), " bytes; maximum allowed is ");
                let c = join(b.as_str(), usize_to_decimal(MAX_FILE_BYTES).as_str());
                join(c.as_str(), " bytes")
            },
            ImportError::UnsupportedType { detail } => {
                let a = join("Unsupported file type: ", detail.as_str());
                join(a.as_str(), ". Expected .csv, .ofx, or .qfx")
            },
            ImportError::ParseFailed(m) => join("Could not parse file: ", m.as_str()),
            ImportError::PortfolioNotFound(id) => join("Portfolio not found: ", id.as_str()),
            ImportError::Validation(m) => join("Validation failed: ", m.as_str()),
            ImportError::Storage(m) => join("Storage error: ", m.as_str()),
        }
    }

    /// The response body for this error.
    pub fn to_response(&self) -> (r: ImportErrorResponse)
        ensures
            r.error@ == self.message_spec(),
            r.code@ == self.code_spec(),
    {
        ImportErrorResponse { error: self.message(), code: self.code().to_owned() }
    }
}

/// Whether `s` ends with `suffix`.
pub open spec fn ends_with(s: Seq<char>, suffix: Seq<char>) -> bool {
    s.len() >= suffix.len() && s.subrange(s.len() - suffix.len(), s.len() as int) == suffix
}

fn ends_with_exec(s: &Vec<char>, suffix: &str) -> (b: bool)
    ensures
        b == ends_with(s@, suffix@),
{
    let suf = chars_of(suffix);
    if suf.len() > s.len() {
        return false;
    }
    let off = s.len() - suf.len();
    let mut i: usize = 0;
    while i < suf.len()
        invariant
            i <= suf.len(),
            off + suf.len() == s.len(),
            suf@ == suffix@,
            forall|k: int| 0 <= k < i ==> s@[off + k] == suf@[k],
        decreases suf.len() - i,
    {
        if s[off + i] != suf[i] {
            proof {
                assert(s@.subrange(off as int, s.len() as int)[i as int] != suffix@[i as int]);
            }
            return false;
        }
        i += 1;
    }
    proof {
        assert(s@.subrange(off as int, s.len() as int) =~= suffix@);
    }
    true
}

/// Whether an upload's file name has an accepted extension (`.csv`, `.ofx`
/// or `.qfx`, ignoring ASCII case).
pub open spec fn accepted_extension(filename: Seq<char>) -> bool {
    let lower = lower_all(filename);
    ends_with(lower, ".csv"@) || ends_with(lower, ".ofx"@) || ends_with(lower, ".qfx"@)
}

/// The checks an upload must pass before it is parsed: an accepted
/// extension, at most `MAX_FILE_BYTES` bytes, and not empty.
pub fn check_upload(filename: &str, size: usize) -> (r: Result<(), ImportError>)
    ensures
        !accepted_extension(filename@) ==> (r matches Err(ImportError::UnsupportedType { detail })
            && detail@ == filename@),
        accepted_extension(filename@) && size > MAX_FILE_BYTES ==> (r matches Err(ImportError::TooLarge { size: s })
            && s == size),
        accepted_extension(filename@) && size == 0 ==> (r matches Err(ImportError::ParseFailed(m))
            && m@ == "file is empty"@),
        accepted_extension(filename@) && 0 < size <= MAX_FILE_BYTES ==> r is Ok,
{
    let lower = lower_chars(&chars_of(filename));
    if !(ends_with_exec(&lower, ".csv") || ends_with_exec(&lower, ".ofx") || ends_with_exec(&lower, ".qfx")) {
        return Err(ImportError::UnsupportedType { detail: filename.to_owned() });
    }
    if size > MAX_FILE_BYTES {
        return Err(ImportError::TooLarge { size });
    }
    if size == 0 {
        return Err(ImportError::ParseFailed("file is empty".to_owned()));
    }
    Ok(())
}

// --- Confirm step ---

/// One encrypted holding to persist.
pub struct ConfirmHolding {
    pub symbol_encrypted_b64: String,
    pub symbol_nonce_b64: String,
    pub payload_encrypted_b64: String,
    pub payload_nonce_b64: String,
    pub account_id: Option<String>,
}

/// Request body for the confirm step.
pub struct ConfirmImportRequest {
    pub portfolio_id: String,
    pub holdings: Vec<ConfirmHolding>,
}

/// Response from the confirm step.
pub struct ConfirmImportResponse {
    pub portfolio_id: String,
    pub saved: usize,
    pub holding_ids: Vec<String>,
}

/// A `Validation` error with the given message.
pub open spec fn is_validation_error(e: ImportError, msg: Seq<char>) -> bool {
    e matches ImportError::Validation(m) && m@ == msg
}

/// The checks a confirm request must pass before the database is consulted:
/// a non-blank portfolio id and at least one holding.
pub fn check_confirm_request(req: &ConfirmImportRequest) -> (r: Result<(), ImportError>)
    ensures
        is_blank(req.portfolio_id@) ==> r is Err && is_validation_error(r->Err_0, "portfolio_id must not be empty"@),
        !is_blank(req.portfolio_id@) && req.holdings@.len() == 0 ==> r is Err && is_validation_error(
            r->Err_0,
            "holdings must not be empty"@,
        ),
        !is_blank(req.portfolio_id@) && req.holdings@.len() > 0 ==> r is Ok,
{
    if blank(req.portfolio_id.as_str()) {
        return Err(ImportError::Validation("portfolio_id must not be empty".to_owned()));
    }
    if req.holdings.len() == 0 {
        return Err(ImportError::Validation("holdings must not be empty".to_owned()));
    }
    Ok(())
}

/// Holdings can only be confirmed into an existing portfolio.
pub fn require_confirm_portfolio(exists: bool, portfolio_id: &str) -> (r: Result<(), ImportError>)
    ensures
        exists ==> r is Ok,
        !exists ==> (r matches Err(ImportError::PortfolioNotFound(id)) && id@ == portfolio_id@),
{
    if !exists {
        return Err(ImportError::PortfolioNotFound(portfolio_id.to_owned()));
    }
    Ok(())
}

/// The prefix `holding[index].field` of messages about one field.
pub open spec fn field_label(index: usize, field: Seq<char>) -> Seq<char> {
    "holding["@ + decimal(index as nat) + "]."@ + field
}

/// Decodes one base64 field of the `index`-th confirmed holding.
pub fn decode_b64(value: &str, index: usize, field: &str) -> (r: Result<Vec<u8>, ImportError>)
    ensures
        value@.len() == 0 ==> r is Err && is_validation_error(
            r->Err_0,
            field_label(index, field@) + " must not be empty"@,
        ),
        value@.len() > 0 ==> match base64_decoded(value@) {
            Some(bytes) => r matches Ok(v) && v@ == bytes,
            None => r matches Err(ImportError::Validation(m))
                && (field_label(index, field@) + " is not valid base64: "@).is_prefix_of(m@),
        },
{
    let label = join(join(join("holding[", usize_to_decimal(index).as_str()).as_str(), "].").as_str(), field);
    if value.is_empty() {
        return Err(ImportError::Validation(join(label.as_str(), " must not be empty")));
    }
    match base64_decode(value) {
        Ok(v) => Ok(v),
        Err(e) => {
            let prefix = join(label.as_str(), " is not valid base64: ");
            let m = join(prefix.as_str(), e.as_str());
            proof {
                assert(prefix@.is_prefix_of(m@)) by {
                    assert(m@.subrange(0, prefix@.len() as int) =~= prefix@);
                }
            }
            Err(ImportError::Validation(m))
        },
    }
}

/// The base64 fields of a confirmed holding, decoded.
pub open spec fn confirmed_blobs(h: &ConfirmHolding) -> Option<(Seq<u8>, Seq<u8>, Seq<u8>, Seq<u8>)> {
    if h.symbol_encrypted_b64@.len() > 0 && h.symbol_nonce_b64@.len() > 0
        && h.payload_encrypted_b64@.len() > 0 && h.payload_nonce_b64@.len() > 0 {
        match (
            base64_decoded(h.symbol_encrypted_b64@),
            base64_decoded(h.symbol_nonce_b64@),
            base64_decoded(h.payload_encrypted_b64@),
            base64_decoded(h.payload_nonce_b64@),
        ) {
            (Some(a), Some(b), Some(c), Some(d)) => Some((a, b, c, d)),
            _ => None,
        }
    } else {
        None
    }
}

/// A confirmed holding's blobs decode exactly when each of its four fields
/// is non-empty base64, and then each blob is the decoding of the field of
/// the same name.
pub proof fn lemma_confirmed_blobs_fields(h: &ConfirmHolding)
    ensures
        confirmed_blobs(h) is Some <==> (h.symbol_encrypted_b64@.len() > 0 && h.symbol_nonce_b64@.len() > 0
            && h.payload_encrypted_b64@.len() > 0 && h.payload_nonce_b64@.len() > 0
            && base64_decoded(h.symbol_encrypted_b64@) is Some && base64_decoded(h.symbol_nonce_b64@) is Some
            && base64_decoded(h.payload_encrypted_b64@) is Some && base64_decoded(h.payload_nonce_b64@) is Some),
        confirmed_blobs(h) matches Some((se, sn, pe, pn)) ==> base64_decoded(h.symbol_encrypted_b64@) == Some(se)
            && base64_decoded(h.symbol_nonce_b64@) == Some(sn)
            && base64_decoded(h.payload_encrypted_b64@) == Some(pe)
            && base64_decoded(h.payload_nonce_b64@) == Some(pn),
{
}

impl ConfirmHolding {
    /// The holding to insert for the `index`-th confirmed holding under
    /// `portfolio_id`: its four base64 fields decoded, in order.
    pub fn to_new_holding(&self, index: usize, portfolio_id: &str) -> (r: Result<NewHolding, ImportError>)
        ensures
            match confirmed_blobs(self) {
                Some((a, b, c, d)) => r matches Ok(n) && {
                    &&& n.portfolio_id@ == portfolio_id@
                    &&& crate::versioning::types::opt_view(n.account_id) == crate::versioning::types::opt_view(self.account_id)
                    &&& n.symbol_encrypted@ == a
                    &&& n.symbol_nonce@ == b
                    &&& n.payload_encrypted@ == c
                    &&& n.payload_nonce@ == d
                },
                None => r matches Err(ImportError::Validation(_)),
            },
            r matches Ok(n) ==> n.portfolio_id@ == portfolio_id@,
            r matches Ok(n) ==> base64_decoded(self.symbol_encrypted_b64@) == Some(n.symbol_encrypted@),
            r matches Ok(n) ==> base64_decoded(self.symbol_nonce_b64@) == Some(n.symbol_nonce@),
            r matches Ok(n) ==> base64_decoded(self.payload_encrypted_b64@) == Some(n.payload_encrypted@),
            r matches Ok(n) ==> base64_decoded(self.payload_nonce_b64@) == Some(n.payload_nonce@),
    {
        let symbol_encrypted = decode_b64(self.symbol_encrypted_b64.as_str(), index, "symbol_encrypted_b64")?;
        let symbol_nonce = decode_b64(self.symbol_nonce_b64.as_str(), index, "symbol_nonce_b64")?;
        let payload_encrypted = decode_b64(self.payload_encrypted_b64.as_str(), index, "payload_encrypted_b64")?;
        let payload_nonce = decode_b64(self.payload_nonce_b64.as_str(), index, "payload_nonce_b64")?;
        Ok(NewHolding {
            portfolio_id: portfolio_id.to_owned(),
            account_id: crate::versioning::types::copy_opt_string(&self.account_id),
            symbol_encrypted,
            symbol_nonce,
            payload_encrypted,
            payload_nonce,
        })
    }
}


// --- Review step: parsing a generic CSV ---

/// An ASCII letter or digit.
pub open spec fn is_ascii_alnum(c: char) -> bool {
    ('a' <= c && c <= 'z') || ('A' <= c && c <= 'Z') || ('0' <= c && c <= '9')
}

/// The ASCII letters and digits of `s`, in order.
pub open spec fn keep_alnum(s: Seq<char>) -> Seq<char>
    decreases s.len(),
{
    if s.len() == 0 {
        s
    } else {
        let r = keep_alnum(s.drop_last());
        if is_ascii_alnum(s.last()) {
            r.push(s.last())
        } else {
            r
        }
    }
}

/// A header cell normalized to lowercase ASCII letters and digits only.
pub open spec fn normalized_header(h: Seq<char>) -> Seq<char> {
    keep_alnum(lower_all(trim(h)))
}

proof fn lemma_keep_alnum(s: Seq<char>)
    ensures
        forall|i: int| 0 <= i < keep_alnum(s).len() ==> is_ascii_alnum(#[trigger] keep_alnum(s)[i])
            && s.contains(keep_alnum(s)[i]),
        (forall|i: int| 0 <= i < s.len() ==> is_ascii_alnum(#[trigger] s[i])) ==> keep_alnum(s) == s,
    decreases s.len(),
{
    if s.len() > 0 {
        let d = s.drop_last();
        lemma_keep_alnum(d);
        let k = keep_alnum(s);
        let k0 = keep_alnum(d);
        assert forall|i: int| 0 <= i < k.len() implies is_ascii_alnum(#[trigger] k[i]) && s.contains(k[i]) by {
            if i < k0.len() {
                assert(k[i] == k0[i]);
                let j = choose|j: int| 0 <= j < d.len() && d[j] == k0[i];
                assert(s[j] == d[j]);
            } else {
                assert(s[s.len() - 1] == s.last());
            }
        }
        if forall|i: int| 0 <= i < s.len() ==> is_ascii_alnum(#[trigger] s[i]) {
            assert forall|i: int| 0 <= i < d.len() implies is_ascii_alnum(#[trigger] d[i]) by {
                assert(d[i] == s[i]);
            }
            assert(is_ascii_alnum(s[s.len() - 1]));
            assert(d.push(s.last()) =~= s);
        }
    }
}

/// A normalized header holds only lowercase ASCII letters and digits, and a
/// header that already is such a name (with no spaces around it) is its own
/// normalization, so the synonyms match headers in any ASCII case and with
/// any punctuation or spacing.
pub proof fn lemma_normalized_header(h: Seq<char>)
    ensures
        forall|i: int| 0 <= i < normalized_header(h).len() ==> {
            let c = #[trigger] normalized_header(h)[i];
            ('a' <= c && c <= 'z') || ('0' <= c && c <= '9')
        },
        (forall|i: int| 0 <= i < h.len() ==> {
            let c = #[trigger] h[i];
            ('a' <= c && c <= 'z') || ('0' <= c && c <= '9')
        }) ==> normalized_header(h) == h,
{
    let t = trim(h);
    let l = lower_all(t);
    lemma_keep_alnum(l);
    let n = normalized_header(h);
    assert forall|i: int| 0 <= i < n.len() implies {
        let c = #[trigger] n[i];
        ('a' <= c && c <= 'z') || ('0' <= c && c <= '9')
    } by {
        let j = choose|j: int| 0 <= j < l.len() && l[j] == n[i];
        assert(l[j] == crate::text::lower(t[j]));
    }
    if forall|i: int| 0 <= i < h.len() ==> {
        let c = #[trigger] h[i];
        ('a' <= c && c <= 'z') || ('0' <= c && c <= '9')
    } {
        if h.len() > 0 {
            assert(!crate::text::is_ws(h[0]));
            assert(crate::text::trim_start(h) == h);
            assert(!crate::text::is_ws(h.last()));
            assert(crate::text::trim_end(h) == h);
        }
        assert(t == h);
        assert(l =~= h);
        assert forall|i: int| 0 <= i < l.len() implies is_ascii_alnum(#[trigger] l[i]) by {
            assert(l[i] == h[i]);
        }
    }
}

/// Normalizes a header cell to lowercase alphanumerics only.
pub fn normalize_header(h: &str) -> (r: String)
    ensures
        r@ == normalized_header(h@),
{
    let lowered = lower_chars(&trim_chars(&chars_of(h)));
    let mut out: Vec<char> = Vec::new();
    let mut i: usize = 0;
    while i < lowered.len()
        invariant
            i <= lowered.len(),
            out@ == keep_alnum(lowered@.take(i as int)),
        decreases lowered.len() - i,
    {
        let c = lowered[i];
        proof {
            assert(lowered@.take(i + 1).drop_last() =~= lowered@.take(i as int));
        }
        if ('a' <= c && c <= 'z') || ('A' <= c && c <= 'Z') || ('0' <= c && c <= '9') {
            out.push(c);
        }
        i += 1;
    }
    proof {
        assert(lowered@.take(i as int) =~= lowered@);
    }
    string_from_chars(&out)
}

/// Header synonyms of the symbol column.
pub open spec fn symbol_synonyms() -> Seq<Seq<char>> {
    seq!["symbol"@, "ticker"@, "instrument"@, "security"@, "stocksymbol"@]
}

/// Header synonyms of the quantity column.
pub open spec fn quantity_synonyms() -> Seq<Seq<char>> {
    seq!["quantity"@, "qty"@, "shares"@, "units"@, "position"@, "amount"@, "openquantity"@]
}

/// Header synonyms of the market value column.
pub open spec fn market_value_synonyms() -> Seq<Seq<char>> {
    seq![
        "marketvalue"@, "value"@, "currentvalue"@, "positionvalue"@, "marketvaluebase"@,
        "totalvalue"@, "mktvalue"@, "currentmarketvalue"@,
    ]
}

/// Header synonyms of the cost basis column.
pub open spec fn cost_basis_synonyms() -> Seq<Seq<char>> {
    seq!["costbasis"@, "cost"@, "bookvalue"@, "totalcost"@, "averagecost"@, "acb"@]
}

/// Header synonyms of the currency column.
pub open spec fn currency_synonyms() -> Seq<Seq<char>> {
    seq!["currency"@, "ccy"@, "curr"@]
}

/// Header synonyms of the yield column.
pub open spec fn yield_synonyms() -> Seq<Seq<char>> {
    seq!["yield"@, "yieldpct"@, "dividendyield"@, "divyield"@]
}

/// The first position, from `i` on, of a header that is one of `syns`.
pub open spec fn first_match_from(headers: Seq<Seq<char>>, syns: Seq<Seq<char>>, i: int) -> Option<usize>
    decreases headers.len() - i,
{
    if i < 0 || i >= headers.len() {
        None
    } else if syns.contains(headers[i]) {
        Some(i as usize)
    } else {
        first_match_from(headers, syns, i + 1)
    }
}

/// The first position of a header that is one of `syns`.
pub open spec fn first_match(headers: Seq<Seq<char>>, syns: Seq<Seq<char>>) -> Option<usize> {
    first_match_from(headers, syns, 0)
}

/// Whether `c` is the position of the first header that is one of `syns`
/// (`None` when no header is).
pub open spec fn resolves_first(c: Option<usize>, headers: Seq<Seq<char>>, syns: Seq<Seq<char>>) -> bool {
    match c {
        Some(k) => k < headers.len() && syns.contains(headers[k as int])
            && forall|j: int| 0 <= j < k ==> !syns.contains(#[trigger] headers[j]),
        None => forall|j: int| 0 <= j < headers.len() ==> !syns.contains(#[trigger] headers[j]),
    }
}

proof fn lemma_first_match_from(headers: Seq<Seq<char>>, syns: Seq<Seq<char>>, i: int)
    requires
        0 <= i <= headers.len() <= usize::MAX,
        forall|j: int| 0 <= j < i ==> !syns.contains(#[trigger] headers[j]),
    ensures
        resolves_first(first_match_from(headers, syns, i), headers, syns),
    decreases headers.len() - i,
{
    if i < headers.len() && !syns.contains(headers[i]) {
        lemma_first_match_from(headers, syns, i + 1);
    }
}

/// How header cells resolve the columns: each column is the first header
/// that is one of its synonyms, and the synonyms are exactly these:
/// symbol, ticker, instrument, security, stocksymbol for the symbol;
/// quantity, qty, shares, units, position, amount, openquantity for the
/// quantity; marketvalue, value, currentvalue, positionvalue,
/// marketvaluebase, totalvalue, mktvalue, currentmarketvalue for the market
/// value; costbasis, cost, bookvalue, totalcost, averagecost, acb for the
/// cost basis; currency, ccy, curr for the currency; yield, yieldpct,
/// dividendyield, divyield for the yield. (Positions are `usize`, so the
/// header row is one that fits in memory.)
pub proof fn lemma_column_resolution(headers: Seq<Seq<char>>)
    requires
        headers.len() <= usize::MAX,
    ensures
        resolves_first(
            column_map_of(headers).symbol,
            headers,
            seq!["symbol"@, "ticker"@, "instrument"@, "security"@, "stocksymbol"@],
        ),
        resolves_first(
            column_map_of(headers).quantity,
            headers,
            seq!["quantity"@, "qty"@, "shares"@, "units"@, "position"@, "amount"@, "openquantity"@],
        ),
        resolves_first(
            column_map_of(headers).market_value,
            headers,
            seq![
                "marketvalue"@, "value"@, "currentvalue"@, "positionvalue"@, "marketvaluebase"@,
                "totalvalue"@, "mktvalue"@, "currentmarketvalue"@,
            ],
        ),
        resolves_first(
            column_map_of(headers).cost_basis,
            headers,
            seq!["costbasis"@, "cost"@, "bookvalue"@, "totalcost"@, "averagecost"@, "acb"@],
        ),
        resolves_first(column_map_of(headers).currency, headers, seq!["currency"@, "ccy"@, "curr"@]),
        resolves_first(
            column_map_of(headers).yield_pct,
            headers,
            seq!["yield"@, "yieldpct"@, "dividendyield"@, "divyield"@],
        ),
{
    lemma_first_match_from(headers, symbol_synonyms(), 0);
    lemma_first_match_from(headers, quantity_synonyms(), 0);
    lemma_first_match_from(headers, market_value_synonyms(), 0);
    lemma_first_match_from(headers, cost_basis_synonyms(), 0);
    lemma_first_match_from(headers, currency_synonyms(), 0);
    lemma_first_match_from(headers, yield_synonyms(), 0);
}

/// Header synonym to column index resolution.
#[derive(Clone, Copy, Debug, PartialEq, Eq, Structural)]
pub struct ColumnMap {
    pub symbol: Option<usize>,
    pub quantity: Option<usize>,
    pub market_value: Option<usize>,
    pub cost_basis: Option<usize>,
    pub currency: Option<usize>,
    pub yield_pct: Option<usize>,
}

/// The columns that normalized headers resolve to.
pub open spec fn column_map_of(headers: Seq<Seq<char>>) -> ColumnMap {
    ColumnMap {
        symbol: first_match(headers, symbol_synonyms()),
        quantity: first_match(headers, quantity_synonyms()),
        market_value: first_match(headers, market_value_synonyms()),
        cost_basis: first_match(headers, cost_basis_synonyms()),
        currency: first_match(headers, currency_synonyms()),
        yield_pct: first_match(headers, yield_synonyms()),
    }
}

/// Views of a list of strings.
pub open spec fn string_views(v: Seq<String>) -> Seq<Seq<char>> {
    v.map_values(|s: String| s@)
}

fn is_synonym(h: &String, syns: &[&str]) -> (b: bool)
    ensures
        b == syns@.map_values(|s: &str| s@).contains(h@),
{
    let mut i: usize = 0;
    while i < syns.len()
        invariant
            i <= syns@.len(),
            forall|k: int| 0 <= k < i ==> syns@[k]@ != h@,
        decreases syns@.len() - i,
    {
        if crate::text::str_eq(h.as_str(), syns[i]) {
            proof {
                assert(syns@.map_values(|s: &str| s@)[i as int] == h@);
            }
            return true;
        }
        i += 1;
    }
    proof {
        if syns@.map_values(|s: &str| s@).contains(h@) {
            let ss = syns@.map_values(|s: &str| s@);
            let k = choose|k: int| 0 <= k < ss.len() && #[trigger] ss[k] == h@;
            assert(syns@[k]@ == h@);
        }
    }
    false
}

fn find_column(headers: &[String], syns: &[&str]) -> (r: Option<usize>)
    ensures
        r == first_match(string_views(headers@), syns@.map_values(|s: &str| s@)),
{
    let ghost hs = string_views(headers@);
    let ghost ss = syns@.map_values(|s: &str| s@);
    let mut i: usize = 0;
    while i < headers.len()
        invariant
            i <= headers@.len(),
            hs == string_views(headers@),
            ss == syns@.map_values(|s: &str| s@),
            first_match(hs, ss) == first_match_from(hs, ss, i as int),
        decreases headers@.len() - i,
    {
        if is_synonym(&headers[i], syns) {
            return Some(i);
        }
        i += 1;
    }
    None
}

impl ColumnMap {
    /// Resolves each column from the normalized header cells: the first
    /// header that is one of the column's synonyms.
    pub fn from_headers(headers: &[String]) -> (m: ColumnMap)
        ensures
            m == column_map_of(string_views(headers@)),
    {
        let symbol_syns = ["symbol", "ticker", "instrument", "security", "stocksymbol"];
        let quantity_syns = ["quantity", "qty", "shares", "units", "position", "amount", "openquantity"];
        let market_value_syns = [
            "marketvalue", "value", "currentvalue", "positionvalue", "marketvaluebase", "totalvalue",
            "mktvalue", "currentmarketvalue",
        ];
        let cost_basis_syns = ["costbasis", "cost", "bookvalue", "totalcost", "averagecost", "acb"];
        let currency_syns = ["currency", "ccy", "curr"];
        let yield_syns = ["yield", "yieldpct", "dividendyield", "divyield"];
        proof {
            assert(symbol_syns@.map_values(|s: &str| s@) =~= symbol_synonyms());
            assert(quantity_syns@.map_values(|s: &str| s@) =~= quantity_synonyms());
            assert(market_value_syns@.map_values(|s: &str| s@) =~= market_value_synonyms());
            assert(cost_basis_syns@.map_values(|s: &str| s@) =~= cost_basis_synonyms());
            assert(currency_syns@.map_values(|s: &str| s@) =~= currency_synonyms());
            assert(yield_syns@.map_values(|s: &str| s@) =~= yield_synonyms());
        }
        let symbol = find_column(headers, &symbol_syns);
        let quantity = find_column(headers, &quantity_syns);
        let market_value = find_column(headers, &market_value_syns);
        let cost_basis = find_column(headers, &cost_basis_syns);
        let currency = find_column(headers, &currency_syns);
        let yield_pct = find_column(headers, &yield_syns);
        ColumnMap { symbol, quantity, market_value, cost_basis, currency, yield_pct }
    }
}


/// A character kept in a numeric cell: a digit, `.`, `-` or `+`.
pub open spec fn is_numeric_char(c: char) -> bool {
    ('0' <= c && c <= '9') || c == '.' || c == '-' || c == '+'
}

/// The numeric characters of `s`, in order.
pub open spec fn keep_numeric(s: Seq<char>) -> Seq<char>
    decreases s.len(),
{
    if s.len() == 0 {
        s
    } else {
        let r = keep_numeric(s.drop_last());
        if is_numeric_char(s.last()) {
            r.push(s.last())
        } else {
            r
        }
    }
}

/// A cell that stands for "no value": `N/A`, `NA`, `-` or `--` in any ASCII
/// case.
pub open spec fn is_missing_marker(s: Seq<char>) -> bool {
    let u = upper_all(s);
    u == "N/A"@ || u == "NA"@ || u == "-"@ || u == "--"@
}

/// The number text a cell holds: whether it is written in accounting
/// parentheses (negative), and its digits, points and signs with currency
/// symbols, separators and percent signs removed. `None` for a blank cell, a
/// missing-value marker, or a cell with no numeric character.
pub open spec fn numeric_text(raw: Seq<char>) -> Option<(bool, Seq<char>)> {
    let s = trim(raw);
    if s.len() == 0 || is_missing_marker(s) {
        None
    } else {
        let paren = s[0] == '(' && s.last() == ')';
        let body = if paren {
            s.subrange(1, s.len() - 1)
        } else {
            s
        };
        let cleaned = keep_numeric(body);
        if cleaned.len() == 0 {
            None
        } else {
            Some((paren, cleaned))
        }
    }
}

/// The number text of a cell; the number itself is `digits` read as a
/// decimal, negated when `negative`.
#[derive(Debug)]
pub struct NumericText {
    pub negative: bool,
    pub digits: String,
}

/// View of an optional number text.
pub open spec fn numeric_view(n: Option<NumericText>) -> Option<(bool, Seq<char>)> {
    match n {
        Some(t) => Some((t.negative, t.digits@)),
        None => None,
    }
}

fn equals_literal(s: &Vec<char>, lit: &str) -> (b: bool)
    ensures
        b == (s@ == lit@),
{
    let t = string_from_chars(s);
    crate::text::str_eq(t.as_str(), lit)
}

/// Extracts the number text of a cell (the text part of a best-effort
/// numeric parse).
pub fn numeric_cell(raw: &Vec<char>) -> (r: Option<NumericText>)
    ensures
        numeric_view(r) == numeric_text(raw@),
{
    let s = trim_chars(raw);
    if s.len() == 0 {
        return None;
    }
    let u = upper_chars(&s);
    if equals_literal(&u, "N/A") || equals_literal(&u, "NA") || equals_literal(&u, "-") || equals_literal(&u, "--") {
        return None;
    }
    let n = s.len();
    let paren = s[0] == '(' && s[n - 1] == ')';
    let (start, end): (usize, usize) = if paren {
        (1, n - 1)
    } else {
        (0, n)
    };
    proof {
        if paren {
            assert(n >= 2);
        }
    }
    let ghost body = if paren {
        s@.subrange(1, n - 1)
    } else {
        s@
    };
    let mut out: Vec<char> = Vec::new();
    let mut i: usize = start;
    while i < end
        invariant
            start <= i <= end <= n,
            n == s.len(),
            body == s@.subrange(start as int, end as int),
            out@ == keep_numeric(s@.subrange(start as int, i as int)),
        decreases end - i,
    {
        let c = s[i];
        proof {
            assert(s@.subrange(start as int, i + 1).drop_last() =~= s@.subrange(start as int, i as int));
        }
        if ('0' <= c && c <= '9') || c == '.' || c == '-' || c == '+' {
            out.push(c);
        }
        i += 1;
    }
    proof {
        if !paren {
            assert(s@.subrange(0, n as int) =~= s@);
        }
    }
    if out.len() == 0 {
        return None;
    }
    Some(NumericText { negative: paren, digits: string_from_chars(&out) })
}

/// One data row of an uploaded CSV, as text: its row number (the header is
/// row 1, blank lines are not counted), its symbol and currency, and the
/// number text of each numeric column.
#[derive(Debug)]
pub struct CsvRow {
    pub row_num: usize,
    pub symbol: String,
    pub quantity: Option<NumericText>,
    pub market_value: Option<NumericText>,
    pub cost_basis: Option<NumericText>,
    pub yield_pct: Option<NumericText>,
    pub currency: String,
}

/// The field at a resolved column, if the column exists and the row has it.
pub open spec fn cell_at(fields: Seq<Seq<char>>, col: Option<usize>) -> Option<Seq<char>> {
    match col {
        Some(i) => if i < fields.len() {
            Some(fields[i as int])
        } else {
            None
        },
        None => None,
    }
}

/// The number text at a resolved column.
pub open spec fn numeric_at(fields: Seq<Seq<char>>, col: Option<usize>) -> Option<(bool, Seq<char>)> {
    match cell_at(fields, col) {
        Some(f) => numeric_text(f),
        None => None,
    }
}

/// The symbol of a row: its symbol cell trimmed and uppercased (empty when
/// the row has no such cell).
pub open spec fn symbol_at(fields: Seq<Seq<char>>, col: Option<usize>) -> Seq<char> {
    match cell_at(fields, col) {
        Some(f) => upper_all(trim(f)),
        None => Seq::empty(),
    }
}

/// The currency of a row: its currency cell trimmed and uppercased, `USD`
/// when absent or blank.
pub open spec fn currency_at(fields: Seq<Seq<char>>, col: Option<usize>) -> Seq<char> {
    match cell_at(fields, col) {
        Some(f) => if upper_all(trim(f)).len() > 0 {
            upper_all(trim(f))
        } else {
            "USD"@
        },
        None => "USD"@,
    }
}

/// Whether `row` is what the line with fields `fields` and number `n` reads
/// as under the column map `col`.
pub open spec fn row_reads(row: CsvRow, col: ColumnMap, n: int, fields: Seq<Seq<char>>) -> bool {
    &&& row.row_num == n
    &&& row.symbol@ == symbol_at(fields, col.symbol)
    &&& numeric_view(row.quantity) == numeric_at(fields, col.quantity)
    &&& numeric_view(row.market_value) == numeric_at(fields, col.market_value)
    &&& numeric_view(row.cost_basis) == numeric_at(fields, col.cost_basis)
    &&& numeric_view(row.yield_pct) == numeric_at(fields, col.yield_pct)
    &&& row.currency@ == currency_at(fields, col.currency)
}

/// Lines that are not blank, in order.
pub open spec fn nonblank_lines(ls: Seq<Seq<char>>) -> Seq<Seq<char>>
    decreases ls.len(),
{
    if ls.len() == 0 {
        ls
    } else {
        let r = nonblank_lines(ls.drop_last());
        if is_blank(ls.last()) {
            r
        } else {
            r.push(ls.last())
        }
    }
}

/// Normalized header names of a header line.
pub open spec fn header_names(line: Seq<char>) -> Seq<Seq<char>> {
    split_fields(line, ',').map_values(|h: Seq<char>| normalized_header(h))
}

/// A `ParseFailed` error with the given message.
pub open spec fn is_parse_failure(r: Result<Vec<CsvRow>, ImportError>, msg: Seq<char>) -> bool {
    r matches Err(ImportError::ParseFailed(m)) && m@ == msg
}

fn char_is_ws_free(l: &Vec<char>) -> (b: bool)
    ensures
        b == !is_blank(l@),
{
    let mut i: usize = 0;
    while i < l.len()
        invariant
            i <= l.len(),
            forall|k: int| 0 <= k < i ==> crate::text::is_ws(#[trigger] l@[k]),
        decreases l.len() - i,
    {
        if !crate::text::is_whitespace(l[i]) {
            return true;
        }
        i += 1;
    }
    false
}

fn field_string(fields: &Vec<Vec<char>>, col: Option<usize>) -> (r: Option<&Vec<char>>)
    ensures
        match r {
            Some(f) => cell_at(views(fields@), col) == Some(f@),
            None => cell_at(views(fields@), col) is None,
        },
{
    match col {
        Some(i) => if i < fields.len() {
            Some(&fields[i])
        } else {
            None
        },
        None => None,
    }
}

fn numeric_field(fields: &Vec<Vec<char>>, col: Option<usize>) -> (r: Option<NumericText>)
    ensures
        numeric_view(r) == numeric_at(views(fields@), col),
{
    match field_string(fields, col) {
        Some(f) => numeric_cell(f),
        None => None,
    }
}

/// Reads the rows of an uploaded CSV text: the first non-blank line is the
/// header, whose normalized cells resolve the columns; every later non-blank
/// line is a row. Fails when there is no header, no symbol column, or
/// neither a market value nor a quantity column.
pub fn scan_csv(text: &str) -> (r: Result<Vec<CsvRow>, ImportError>)
    ensures
        ({
            let ls = nonblank_lines(text_lines(text@));
            if ls.len() == 0 {
                is_parse_failure(r, "file has no header row"@)
            } else {
                let col = column_map_of(header_names(ls[0]));
                if col.symbol is None {
                    is_parse_failure(r, "could not find a symbol/ticker column"@)
                } else if col.market_value is None && col.quantity is None {
                    is_parse_failure(r, "could not find a market value or quantity column"@)
                } else {
                    r matches Ok(rows) && rows@.len() == ls.len() - 1 && forall|i: int|
                        0 <= i < rows@.len() ==> row_reads(
                            #[trigger] rows@[i],
                            col,
                            i + 2,
                            split_fields(ls[i + 1], ','),
                        )
                }
            }
        }),
{
    let chars = chars_of(text);
    let all_lines = lines_of(&chars);
    let ghost all = views(all_lines@);
    let mut lines: Vec<Vec<char>> = Vec::new();
    let mut i: usize = 0;
    while i < all_lines.len()
        invariant
            i <= all_lines.len(),
            all == views(all_lines@),
            views(lines@) == nonblank_lines(all.take(i as int)),
        decreases all_lines.len() - i,
    {
        proof {
            assert(all.take(i + 1).drop_last() =~= all.take(i as int));
        }
        if char_is_ws_free(&all_lines[i]) {
            let ghost before = views(lines@);
            lines.push(all_lines[i].clone());
            proof {
                assert(views(lines@) =~= before.push(all[i as int]));
            }
        }
        i += 1;
    }
    proof {
        assert(all.take(i as int) =~= all);
    }
    let ghost ls = views(lines@);
    if lines.len() == 0 {
        return Err(ImportError::ParseFailed("file has no header row".to_owned()));
    }
    let header_cells = split_on(&lines[0], ',');
    let mut headers: Vec<String> = Vec::new();
    let mut h: usize = 0;
    while h < header_cells.len()
        invariant
            h <= header_cells.len(),
            string_views(headers@) == views(header_cells@).take(h as int).map_values(
                |x: Seq<char>| normalized_header(x),
            ),
        decreases header_cells.len() - h,
    {
        let name = normalize_header(string_from_chars(&header_cells[h]).as_str());
        let ghost before = string_views(headers@);
        headers.push(name);
        proof {
            assert(string_views(headers@) =~= before.push(normalized_header(header_cells@[h as int]@)));
            assert(views(header_cells@).take(h + 1).map_values(|x: Seq<char>| normalized_header(x))
                =~= views(header_cells@).take(h as int).map_values(|x: Seq<char>| normalized_header(x)).push(
                normalized_header(header_cells@[h as int]@),
            ));
        }
        h += 1;
    }
    proof {
        assert(views(header_cells@).take(h as int) =~= views(header_cells@));
        assert(string_views(headers@) =~= header_names(ls[0]));
    }
    let col = ColumnMap::from_headers(headers.as_slice());
    if col.symbol.is_none() {
        return Err(ImportError::ParseFailed("could not find a symbol/ticker column".to_owned()));
    }
    if col.market_value.is_none() && col.quantity.is_none() {
        return Err(ImportError::ParseFailed("could not find a market value or quantity column".to_owned()));
    }
    let mut rows: Vec<CsvRow> = Vec::new();
    let mut k: usize = 1;
    while k < lines.len()
        invariant
            1 <= k <= lines.len(),
            ls == views(lines@),
            col == column_map_of(header_names(ls[0])),
            rows@.len() == k - 1,
            forall|i: int| 0 <= i < rows@.len() ==> row_reads(#[trigger] rows@[i], col, i + 2, split_fields(ls[i + 1], ',')),
        decreases lines.len() - k,
    {
        let fields = split_on(&lines[k], ',');
        let symbol = match field_string(&fields, col.symbol) {
            Some(f) => string_from_chars(&upper_chars(&trim_chars(f))),
            None => string_from_chars(&Vec::new()),
        };
        let currency = match field_string(&fields, col.currency) {
            Some(f) => {
                let u = upper_chars(&trim_chars(f));
                if u.len() > 0 {
                    string_from_chars(&u)
                } else {
                    "USD".to_owned()
                }
            },
            None => "USD".to_owned(),
        };
        let row = CsvRow {
            row_num: k + 1,
            symbol,
            quantity: numeric_field(&fields, col.quantity),
            market_value: numeric_field(&fields, col.market_value),
            cost_basis: numeric_field(&fields, col.cost_basis),
            yield_pct: numeric_field(&fields, col.yield_pct),
            currency,
        };
        proof {
            assert(views(fields@) == split_fields(ls[k as int], ','));
            assert(row_reads(row, col, k + 1, split_fields(ls[k as int], ',')));
        }
        rows.push(row);
        k += 1;
    }
    Ok(rows)
}


/// How a floating-point number compares: not a number, infinite, or
/// finite; and whether it is below zero (`-0.0` is not).
#[derive(Clone, Copy, Debug, PartialEq, Eq, Structural)]
pub enum NumClass {
    Nan,
    Infinite { negative: bool },
    Finite { negative: bool },
}

impl NumClass {
    /// NaN or infinite.
    pub open spec fn not_finite(self) -> bool {
        !(self is Finite)
    }

    /// Below zero.
    pub open spec fn below_zero(self) -> bool {
        match self {
            NumClass::Nan => false,
            NumClass::Infinite { negative } => negative,
            NumClass::Finite { negative } => negative,
        }
    }
}

/// The classes of a row's parsed numbers (`None` where a cell is absent or
/// its text does not parse as a number).
#[derive(Clone, Copy, Debug, PartialEq, Eq, Structural)]
pub struct RowNumbers {
    pub quantity: Option<NumClass>,
    pub market_value: Option<NumClass>,
    pub cost_basis: Option<NumClass>,
}

/// What the review makes of one row.
pub enum RowVerdict {
    /// The row is skipped, with this error message.
    Skip(Seq<char>),
    /// The row is imported; `warning` is set when its cost basis is dropped.
    Keep { warning: Option<Seq<char>> },
}

/// `Row <n> (<symbol>): ` — the prefix of messages about a row with a symbol.
pub open spec fn row_prefix(n: usize, symbol: Seq<char>) -> Seq<char> {
    "Row "@ + decimal(n as nat) + " ("@ + symbol + "): "@
}

/// The verdict on a row with number `n`, symbol `symbol` and number classes
/// `nums`: rows without a symbol, with a NaN/infinite or negative quantity or
/// market value, or with neither are skipped; a negative cost basis is
/// dropped with a warning.
pub open spec fn row_verdict(n: usize, symbol: Seq<char>, nums: RowNumbers) -> RowVerdict {
    let p = row_prefix(n, symbol);
    if symbol.len() == 0 {
        RowVerdict::Skip("Row "@ + decimal(n as nat) + ": empty symbol; row skipped"@)
    } else if nums.quantity matches Some(q) && q.not_finite() {
        RowVerdict::Skip(p + "quantity is NaN/Inf; row skipped"@)
    } else if nums.quantity matches Some(q) && q.below_zero() {
        RowVerdict::Skip(p + "negative quantity; row skipped"@)
    } else if nums.market_value matches Some(v) && v.not_finite() {
        RowVerdict::Skip(p + "market_value is NaN/Inf; row skipped"@)
    } else if nums.market_value matches Some(v) && v.below_zero() {
        RowVerdict::Skip(p + "negative market_value; row skipped"@)
    } else if nums.quantity is None && nums.market_value is None {
        RowVerdict::Skip(p + "no quantity or market_value; row skipped"@)
    } else if nums.cost_basis matches Some(c) && c.below_zero() {
        RowVerdict::Keep { warning: Some(p + "negative cost_basis; treated as unknown"@) }
    } else {
        RowVerdict::Keep { warning: None }
    }
}

/// A row kept by the review: its index among the scanned rows, and whether
/// its cost basis is kept.
#[derive(Clone, Copy, Debug, PartialEq, Eq, Structural)]
pub struct ReviewedRow {
    pub index: usize,
    pub keep_cost_basis: bool,
}

/// The outcome of reviewing the rows of a file.
#[derive(Debug)]
pub struct Review {
    pub accepted: Vec<ReviewedRow>,
    pub errors: Vec<String>,
    pub warnings: Vec<String>,
    pub rows_total: usize,
}

/// The kept rows, the error messages and the warnings after reviewing the
/// first `k` rows, each list in row order.
pub open spec fn review_upto(rows: Seq<CsvRow>, nums: Seq<RowNumbers>, k: int)
    -> (Seq<ReviewedRow>, Seq<Seq<char>>, Seq<Seq<char>>)
    decreases k,
{
    if k <= 0 {
        (Seq::empty(), Seq::empty(), Seq::empty())
    } else {
        let (acc, errs, warns) = review_upto(rows, nums, k - 1);
        let i = k - 1;
        match row_verdict(rows[i].row_num, rows[i].symbol@, nums[i]) {
            RowVerdict::Skip(m) => (acc, errs.push(m), warns),
            RowVerdict::Keep { warning } => match warning {
                Some(w) => (acc.push(ReviewedRow { index: i as usize, keep_cost_basis: false }), errs, warns.push(w)),
                None => (acc.push(ReviewedRow { index: i as usize, keep_cost_basis: true }), errs, warns),
            },
        }
    }
}

/// Whether a row passes the review: it has a symbol, its quantity and
/// market value are finite and not negative where present, and at least one
/// of the two is present.
pub open spec fn row_passes(symbol: Seq<char>, nums: RowNumbers) -> bool {
    &&& symbol.len() > 0
    &&& (nums.quantity matches Some(q) ==> !q.not_finite() && !q.below_zero())
    &&& (nums.market_value matches Some(v) ==> !v.not_finite() && !v.below_zero())
    &&& (nums.quantity is Some || nums.market_value is Some)
}

/// Reviewing rows accounts for every one of them: each row is either kept or
/// reported as an error; the kept rows are exactly the rows that pass, in
/// row order; a warning is only given for a kept row.
pub proof fn lemma_review_accounts_for_rows(rows: Seq<CsvRow>, nums: Seq<RowNumbers>, k: int)
    requires
        0 <= k <= rows.len(),
        rows.len() == nums.len(),
        rows.len() <= usize::MAX,
    ensures
        ({
            let (acc, errs, warns) = review_upto(rows, nums, k);
            &&& acc.len() + errs.len() == k
            &&& warns.len() <= acc.len()
            &&& forall|j: int| 0 <= j < acc.len() ==> 0 <= (#[trigger] acc[j]).index < k
            &&& forall|j: int| 0 <= j < acc.len() ==> row_passes(
                rows[(#[trigger] acc[j]).index as int].symbol@,
                nums[acc[j].index as int],
            )
            &&& forall|i: int, j: int| 0 <= i < j < acc.len() ==> (#[trigger] acc[i]).index < (#[trigger] acc[j]).index
            &&& forall|i: int| 0 <= i < k && row_passes(#[trigger] rows[i].symbol@, nums[i]) ==> exists|j: int|
                0 <= j < acc.len() && (#[trigger] acc[j]).index == i
        }),
    decreases k,
{
    if k > 0 {
        lemma_review_accounts_for_rows(rows, nums, k - 1);
        let (acc0, errs0, warns0) = review_upto(rows, nums, k - 1);
        let (acc, errs, warns) = review_upto(rows, nums, k);
        let i = k - 1;
        let v = row_verdict(rows[i].row_num, rows[i].symbol@, nums[i]);
        assert(v is Keep <==> row_passes(rows[i].symbol@, nums[i]));
        if v is Keep {
            assert(acc.last().index == i);
            assert forall|m: int| 0 <= m < k && row_passes(#[trigger] rows[m].symbol@, nums[m]) implies exists|j: int|
                0 <= j < acc.len() && (#[trigger] acc[j]).index == m by {
                if m < i {
                    let j = choose|j: int| 0 <= j < acc0.len() && (#[trigger] acc0[j]).index == m;
                    assert(acc[j] == acc0[j]);
                } else {
                    assert(acc[acc.len() - 1].index == m);
                }
            }
        } else {
            assert forall|m: int| 0 <= m < k && row_passes(#[trigger] rows[m].symbol@, nums[m]) implies exists|j: int|
                0 <= j < acc.len() && (#[trigger] acc[j]).index == m by {
                let j = choose|j: int| 0 <= j < acc0.len() && (#[trigger] acc0[j]).index == m;
            }
        }
    }
}

fn verdict(n: usize, symbol: &String, nums: RowNumbers) -> (r: Result<Option<String>, String>)
    ensures
        match row_verdict(n, symbol@, nums) {
            RowVerdict::Skip(m) => r matches Err(e) && e@ == m,
            RowVerdict::Keep { warning } => r matches Ok(w) && match warning {
                Some(wm) => w matches Some(x) && x@ == wm,
                None => w is None,
            },
        },
{
    let num = usize_to_decimal(n);
    if symbol.as_str().is_empty() {
        let a = join("Row ", num.as_str());
        return Err(join(a.as_str(), ": empty symbol; row skipped"));
    }
    let prefix = join(join(join(join("Row ", num.as_str()).as_str(), " (").as_str(), symbol.as_str()).as_str(), "): ");
    let q_bad = match nums.quantity {
        Some(NumClass::Finite { .. }) => false,
        Some(_) => true,
        None => false,
    };
    if q_bad {
        return Err(join(prefix.as_str(), "quantity is NaN/Inf; row skipped"));
    }
    let q_neg = match nums.quantity {
        Some(NumClass::Finite { negative }) => negative,
        _ => false,
    };
    if q_neg {
        return Err(join(prefix.as_str(), "negative quantity; row skipped"));
    }
    let v_bad = match nums.market_value {
        Some(NumClass::Finite { .. }) => false,
        Some(_) => true,
        None => false,
    };
    if v_bad {
        return Err(join(prefix.as_str(), "market_value is NaN/Inf; row skipped"));
    }
    let v_neg = match nums.market_value {
        Some(NumClass::Finite { negative }) => negative,
        _ => false,
    };
    if v_neg {
        return Err(join(prefix.as_str(), "negative market_value; row skipped"));
    }
    if nums.quantity.is_none() && nums.market_value.is_none() {
        return Err(join(prefix.as_str(), "no quantity or market_value; row skipped"));
    }
    let c_neg = match nums.cost_basis {
        Some(NumClass::Nan) => false,
        Some(NumClass::Infinite { negative }) => negative,
        Some(NumClass::Finite { negative }) => negative,
        None => false,
    };
    if c_neg {
        return Ok(Some(join(prefix.as_str(), "negative cost_basis; treated as unknown")));
    }
    Ok(None)
}

/// Reviews scanned rows against the classes of their parsed numbers
/// (`nums[i]` for `rows[i]`): keeps the rows that pass validation, collects
/// an error per skipped row and a warning per dropped cost basis. Fails when
/// no row is kept.
pub fn review_rows(rows: &Vec<CsvRow>, nums: &Vec<RowNumbers>) -> (r: Result<Review, ImportError>)
    requires
        rows@.len() == nums@.len(),
    ensures
        ({
            let (acc, errs, warns) = review_upto(rows@, nums@, rows@.len() as int);
            if acc.len() == 0 {
                r matches Err(ImportError::ParseFailed(m)) && m@ == "no valid holdings found in file"@
            } else {
                r matches Ok(rv) && {
                    &&& rv.accepted@ == acc
                    &&& string_views(rv.errors@) == errs
                    &&& string_views(rv.warnings@) == warns
                    &&& rv.rows_total == rows@.len()
                }
            }
        }),
{
    let mut accepted: Vec<ReviewedRow> = Vec::new();
    let mut errors: Vec<String> = Vec::new();
    let mut warnings: Vec<String> = Vec::new();
    let mut i: usize = 0;
    while i < rows.len()
        invariant
            i <= rows@.len(),
            rows@.len() == nums@.len(),
            (accepted@, string_views(errors@), string_views(warnings@)) == review_upto(rows@, nums@, i as int),
        decreases rows@.len() - i,
    {
        let row = &rows[i];
        let ghost e0 = string_views(errors@);
        let ghost w0 = string_views(warnings@);
        match verdict(row.row_num, &row.symbol, nums[i]) {
            Err(m) => {
                errors.push(m);
                proof {
                    assert(string_views(errors@) =~= e0.push(m@));
                }
            },
            Ok(Some(w)) => {
                accepted.push(ReviewedRow { index: i, keep_cost_basis: false });
                warnings.push(w);
                proof {
                    assert(string_views(warnings@) =~= w0.push(w@));
                }
            },
            Ok(None) => {
                accepted.push(ReviewedRow { index: i, keep_cost_basis: true });
            },
        }
        i += 1;
    }
    if accepted.len() == 0 {
        return Err(ImportError::ParseFailed("no valid holdings found in file".to_owned()));
    }
    Ok(Review { accepted, errors, warnings, rows_total: rows.len() })
}

} // verus!
