//! Records of the encrypted store and the checks made before each write.

use vstd::prelude::*;
use crate::text::{join, chars_of, is_whitespace, lower_all, lower_chars, string_from_chars, trim, trim_chars, is_ws};

verus! {

/// Default number of pooled connections.
pub const DEFAULT_POOL_SIZE: usize = 4;

/// Busy-wait timeout (ms) before SQLite reports the database busy.
pub const BUSY_TIMEOUT_MS: u32 = 5_000;

/// Errors that can occur in the storage layer.
#[derive(Debug)]
pub enum StorageError {
    /// The underlying SQLite driver returned an error.
    Sqlite(String),
    /// A connection could not be opened or the on-disk path is invalid.
    OpenFailed { path: String, source_msg: String },
    /// The connection pool lock was poisoned.
    PoolPoisoned,
    /// The connection pool was momentarily exhausted.
    PoolExhausted,
    /// A requested entity (holding/portfolio/account) does not exist.
    NotFound { entity: &'static str, id: String },
    /// A field failed validation before reaching the database.
    Validation(String),
    /// An account type string did not match a known variant.
    InvalidAccountType(String),
}

impl StorageError {
    /// The human-readable message of this error.
    pub open spec fn message_spec(&self) -> Seq<char> {
        match self {
            StorageError::Sqlite(m) => "SQLite error: "@ + m@,
            StorageError::OpenFailed { path, source_msg } => "Failed to open database at '"@ + path@ + "': "@
                + source_msg@,
            StorageError::PoolPoisoned => "Connection pool lock poisoned"@,
            StorageError::PoolExhausted => "No available connection in pool"@,
            StorageError::NotFound { entity, id } => entity@ + " not found: "@ + id@,
            StorageError::Validation(m) => "Validation failed: "@ + m@,
            StorageError::InvalidAccountType(t) => "Invalid account type: '"@ + t@ + "'"@,
        }
    }

    /// Human-readable error message.
    pub fn message(&self) -> (m: String)
        ensures
            m@ == self.message_spec(),
    {
        match self {
            StorageError::Sqlite(m) => join("SQLite error: ", m.as_str()),
            StorageError::OpenFailed { path, source_msg } => {
                let a = join("Failed to open database at '", path.as_str());
                let b = join(a.as_str(), "': ");
                join(b.as_str(), source_msg.as_str())
            },
            StorageError::PoolPoisoned => "Connection pool lock poisoned".to_owned(),
            StorageError::PoolExhausted => "No available connection in pool".to_owned(),
            StorageError::NotFound { entity, id } => {
                let a = join(entity, " not found: ");
                join(a.as_str(), id.as_str())
            },
            StorageError::Validation(m) => join("Validation failed: ", m.as_str()),
            StorageError::InvalidAccountType(t) => {
                let a = join("Invalid account type: '", t.as_str());
                join(a.as_str(), "'")
            },
        }
    }
}

/// Registered account types.
#[derive(Debug, Clone, Copy, PartialEq, Eq, Structural)]
pub enum AccountType {
    /// Registered Retirement Savings Plan (Canada).
    Rrsp,
    /// Tax-Free Savings Account (Canada).
    Tfsa,
    /// Locked-In Retirement Account (Canada).
    Lira,
    /// Ordinary taxable / non-registered cash account.
    Taxable,
    /// Margin (leveraged) account.
    Margin,
}

impl AccountType {
    /// Canonical lowercase name used for persistence.
    pub open spec fn name(self) -> Seq<char> {
        match self {
            AccountType::Rrsp => "rrsp"@,
            AccountType::Tfsa => "tfsa"@,
            AccountType::Lira => "lira"@,
            AccountType::Taxable => "taxable"@,
            AccountType::Margin => "margin"@,
        }
    }

    /// The account type whose canonical name is `s`, if any.
    pub open spec fn from_name(s: Seq<char>) -> Option<AccountType> {
        if s == "rrsp"@ {
            Some(AccountType::Rrsp)
        } else if s == "tfsa"@ {
            Some(AccountType::Tfsa)
        } else if s == "lira"@ {
            Some(AccountType::Lira)
        } else if s == "taxable"@ {
            Some(AccountType::Taxable)
        } else if s == "margin"@ {
            Some(AccountType::Margin)
        } else {
            None
        }
    }

    /// Canonical lowercase string for persistence.
    pub fn as_str(&self) -> (s: &'static str)
        ensures
            s@ == self.name(),
    {
        match self {
            AccountType::Rrsp => "rrsp",
            AccountType::Tfsa => "tfsa",
            AccountType::Lira => "lira",
            AccountType::Taxable => "taxable",
            AccountType::Margin => "margin",
        }
    }

    /// Parses a stored or user-supplied account type: surrounding white
    /// space is ignored and letters are compared without regard to ASCII case.
    pub fn parse(s: &str) -> (r: Result<Self, StorageError>)
        ensures
            match AccountType::from_name(lower_all(trim(s@))) {
                Some(t) => r == Ok::<AccountType, StorageError>(t),
                None => r matches Err(StorageError::InvalidAccountType(other))
                    && other@ == lower_all(trim(s@)),
            },
    {
        let chars = chars_of(s);
        let trimmed = trim_chars(&chars);
        let lowered = lower_chars(&trimmed);
        let norm = string_from_chars(&lowered);
        let n = norm.as_str();
        if crate::text::str_eq(n, "rrsp") {
            Ok(AccountType::Rrsp)
        } else if crate::text::str_eq(n, "tfsa") {
            Ok(AccountType::Tfsa)
        } else if crate::text::str_eq(n, "lira") {
            Ok(AccountType::Lira)
        } else if crate::text::str_eq(n, "taxable") {
            Ok(AccountType::Taxable)
        } else if crate::text::str_eq(n, "margin") {
            Ok(AccountType::Margin)
        } else {
            Err(StorageError::InvalidAccountType(norm))
        }
    }
}

/// `parse` gives back every account type from its canonical name.
pub proof fn lemma_account_type_roundtrip(t: AccountType)
    ensures
        AccountType::from_name(lower_all(trim(t.name()))) == Some(t),
{
    reveal_strlit("rrsp");
    reveal_strlit("tfsa");
    reveal_strlit("lira");
    reveal_strlit("taxable");
    reveal_strlit("margin");
    let s = t.name();
    assert(!is_ws(s[0]));
    assert(crate::text::trim_start(s) == s);
    assert(!is_ws(s.last()));
    assert(crate::text::trim_end(s) == s);
    assert(lower_all(s) =~= s);
}

/// An account row. `name` and `broker` are encrypted client-side.
#[derive(Debug, Clone)]
pub struct Account {
    pub id: String,
    pub name_encrypted: Vec<u8>,
    pub name_nonce: Vec<u8>,
    pub account_type: AccountType,
    pub broker_encrypted: Vec<u8>,
    pub broker_nonce: Vec<u8>,
    pub created_at: String,
}

/// A portfolio row. `name` is encrypted client-side.
#[derive(Debug, Clone)]
pub struct Portfolio {
    pub id: String,
    pub name_encrypted: Vec<u8>,
    pub name_nonce: Vec<u8>,
    pub created_at: String,
}

/// A holding row. Every financially-sensitive field is an encrypted blob.
#[derive(Debug, Clone)]
pub struct Holding {
    pub id: String,
    pub portfolio_id: String,
    pub account_id: Option<String>,
    pub symbol_encrypted: Vec<u8>,
    pub symbol_nonce: Vec<u8>,
    pub payload_encrypted: Vec<u8>,
    pub payload_nonce: Vec<u8>,
    pub created_at: String,
    pub updated_at: String,
}

/// Parameters for inserting a new holding.
#[derive(Debug, Clone)]
pub struct NewHolding {
    pub portfolio_id: String,
    pub account_id: Option<String>,
    pub symbol_encrypted: Vec<u8>,
    pub symbol_nonce: Vec<u8>,
    pub payload_encrypted: Vec<u8>,
    pub payload_nonce: Vec<u8>,
}

/// Whether `s` is empty or all white space (`s.trim().is_empty()`).
pub open spec fn is_blank(s: Seq<char>) -> bool {
    forall|i: int| 0 <= i < s.len() ==> is_ws(#[trigger] s[i])
}

/// Whether a string slice is empty or all white space.
pub fn blank(s: &str) -> (b: bool)
    ensures
        b == is_blank(s@),
{
    let chars = chars_of(s);
    let mut i: usize = 0;
    while i < chars.len()
        invariant
            i <= chars.len(),
            chars@ == s@,
            forall|k: int| 0 <= k < i ==> is_ws(#[trigger] s@[k]),
        decreases chars.len() - i,
    {
        if !is_whitespace(chars[i]) {
            return false;
        }
        i += 1;
    }
    true
}

/// A `Validation` error with the given message.
pub open spec fn is_validation(r: Result<(), StorageError>, msg: Seq<char>) -> bool {
    r matches Err(StorageError::Validation(m)) && m@ == msg
}

/// A pool needs at least one connection.
pub fn check_pool_size(pool_size: usize) -> (r: Result<(), StorageError>)
    ensures
        pool_size == 0 ==> is_validation(r, "pool_size must be at least 1"@),
        pool_size > 0 ==> r is Ok,
{
    if pool_size == 0 {
        return Err(StorageError::Validation("pool_size must be at least 1".to_owned()));
    }
    Ok(())
}

/// An account needs non-empty encrypted blobs: the name ciphertext and
/// nonce (checked first), then the broker ciphertext and nonce.
pub fn check_account_blobs(
    name_encrypted: &[u8],
    name_nonce: &[u8],
    broker_encrypted: &[u8],
    broker_nonce: &[u8],
) -> (r: Result<(), StorageError>)
    ensures
        name_encrypted@.len() == 0 || name_nonce@.len() == 0 ==> is_validation(
            r,
            "account name ciphertext and nonce must not be empty"@,
        ),
        name_encrypted@.len() > 0 && name_nonce@.len() > 0 && (broker_encrypted@.len() == 0
            || broker_nonce@.len() == 0) ==> is_validation(
            r,
            "account broker ciphertext and nonce must not be empty"@,
        ),
        name_encrypted@.len() > 0 && name_nonce@.len() > 0 && broker_encrypted@.len() > 0
            && broker_nonce@.len() > 0 ==> r is Ok,
{
    if name_encrypted.len() == 0 || name_nonce.len() == 0 {
        return Err(StorageError::Validation("account name ciphertext and nonce must not be empty".to_owned()));
    }
    if broker_encrypted.len() == 0 || broker_nonce.len() == 0 {
        return Err(StorageError::Validation("account broker ciphertext and nonce must not be empty".to_owned()));
    }
    Ok(())
}

/// A portfolio needs a non-empty name ciphertext and nonce.
pub fn check_portfolio_name(name_encrypted: &[u8], name_nonce: &[u8]) -> (r: Result<(), StorageError>)
    ensures
        name_encrypted@.len() == 0 || name_nonce@.len() == 0 ==> is_validation(
            r,
            "portfolio name ciphertext and nonce must not be empty"@,
        ),
        name_encrypted@.len() > 0 && name_nonce@.len() > 0 ==> r is Ok,
{
    if name_encrypted.len() == 0 || name_nonce.len() == 0 {
        return Err(StorageError::Validation("portfolio name ciphertext and nonce must not be empty".to_owned()));
    }
    Ok(())
}

/// The checks a new holding must pass before the database is asked whether
/// its portfolio exists: a non-blank portfolio id, then non-empty symbol and
/// payload ciphertexts.
pub fn check_new_holding(h: &NewHolding) -> (r: Result<(), StorageError>)
    ensures
        is_blank(h.portfolio_id@) ==> is_validation(r, "portfolio_id must not be empty"@),
        !is_blank(h.portfolio_id@) && (h.symbol_encrypted@.len() == 0 || h.payload_encrypted@.len() == 0)
            ==> is_validation(r, "symbol and payload ciphertext must not be empty"@),
        !is_blank(h.portfolio_id@) && h.symbol_encrypted@.len() > 0 && h.payload_encrypted@.len() > 0
            ==> r is Ok,
{
    if blank(h.portfolio_id.as_str()) {
        return Err(StorageError::Validation("portfolio_id must not be empty".to_owned()));
    }
    if h.symbol_encrypted.len() == 0 || h.payload_encrypted.len() == 0 {
        return Err(StorageError::Validation("symbol and payload ciphertext must not be empty".to_owned()));
    }
    Ok(())
}

/// An update needs non-empty symbol and payload ciphertexts.
pub fn check_holding_update(symbol_encrypted: &[u8], payload_encrypted: &[u8]) -> (r: Result<(), StorageError>)
    ensures
        symbol_encrypted@.len() == 0 || payload_encrypted@.len() == 0 ==> is_validation(
            r,
            "symbol and payload ciphertext must not be empty"@,
        ),
        symbol_encrypted@.len() > 0 && payload_encrypted@.len() > 0 ==> r is Ok,
{
    if symbol_encrypted.len() == 0 || payload_encrypted.len() == 0 {
        return Err(StorageError::Validation("symbol and payload ciphertext must not be empty".to_owned()));
    }
    Ok(())
}

/// A snapshot needs a non-blank `as_of` timestamp.
pub fn check_snapshot_time(as_of: &str) -> (r: Result<(), StorageError>)
    ensures
        is_blank(as_of@) ==> is_validation(r, "as_of timestamp must not be empty"@),
        !is_blank(as_of@) ==> r is Ok,
{
    if blank(as_of) {
        return Err(StorageError::Validation("as_of timestamp must not be empty".to_owned()));
    }
    Ok(())
}

/// A holding can only be inserted into an existing portfolio.
pub fn require_portfolio(exists: bool, portfolio_id: &str) -> (r: Result<(), StorageError>)
    ensures
        exists ==> r is Ok,
        !exists ==> (r matches Err(StorageError::NotFound { entity, id })
            && entity@ == "portfolio"@ && id@ == portfolio_id@),
{
    if !exists {
        return Err(StorageError::NotFound { entity: "portfolio", id: portfolio_id.to_owned() });
    }
    Ok(())
}

/// An update or delete that touched no row names a holding that does not
/// exist.
pub fn require_affected(affected: usize, holding_id: &str) -> (r: Result<(), StorageError>)
    ensures
        affected > 0 ==> r is Ok,
        affected == 0 ==> (r matches Err(StorageError::NotFound { entity, id })
            && entity@ == "holding"@ && id@ == holding_id@),
{
    if affected == 0 {
        return Err(StorageError::NotFound { entity: "holding", id: holding_id.to_owned() });
    }
    Ok(())
}

} // verus!
