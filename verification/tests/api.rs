use base64::engine::general_purpose::STANDARD as B64;
use base64::Engine as _;
use pae_engine::api::crypto_api::{self, DecryptRequest, EncryptRequest, DeriveKeyRequest};
use pae_engine::api::holdings_api::{
    decode_required, list_holdings_response, list_portfolios_response, storage_error_response, CreateHoldingRequest,
    HoldingResponse, ListHoldingsQuery,
};
use pae_engine::api::import_api::NumClass;
use pae_engine::api::portfolio::{
    check_correlation_request, check_custom_shocks, check_monte_carlo_request, check_stress_request,
    validate_holdings, HoldingFacts,
};
use pae_engine::api::versioning_api::{self, AppendVersionRequest, GetHistoryRequest};
use pae_engine::crypto::vault::CryptoError;
use pae_engine::storage::db::{Holding, Portfolio, StorageError};
use pae_engine::versioning::store::VersionStore;

fn holding(id: &str) -> Holding {
    Holding {
        id: id.to_string(),
        portfolio_id: "p1".to_string(),
        account_id: None,
        symbol_encrypted: b"enc".to_vec(),
        symbol_nonce: b"non".to_vec(),
        payload_encrypted: b"pay".to_vec(),
        payload_nonce: b"pn".to_vec(),
        created_at: "2026-01-01T00:00:00+00:00".to_string(),
        updated_at: "2026-01-01T00:00:00+00:00".to_string(),
    }
}

#[test]
fn test_holding_response_roundtrip_encodes_base64() {
    let resp = HoldingResponse::from_holding(holding("h1"));
    assert_eq!(resp.symbol_encrypted_b64, B64.encode(b"enc"));
    assert_eq!(resp.payload_encrypted_b64, B64.encode(b"pay"));
}

#[test]
fn test_decode_required_rejects_empty_and_bad_base64() {
    assert!(decode_required("", "f").is_err());
    assert!(decode_required("not valid base64!!!", "f").is_err());
    assert!(decode_required(&B64.encode(b"ok"), "f").is_ok());
}

#[test]
fn test_storage_error_status_mapping() {
    let (s, _) = storage_error_response(StorageError::NotFound { entity: "holding", id: "x".to_string() });
    assert_eq!(s, 404);
    let (s, _) = storage_error_response(StorageError::Validation("bad".to_string()));
    assert_eq!(s, 400);
    let (s, _) = storage_error_response(StorageError::Sqlite("boom".to_string()));
    assert_eq!(s, 500);
}

#[test]
fn storage_error_bodies() {
    let (_, body) = storage_error_response(StorageError::NotFound { entity: "holding", id: "x".to_string() });
    assert_eq!(body.code, "NOT_FOUND");
    assert_eq!(body.error, "holding not found: x");
    let (s, body) = storage_error_response(StorageError::InvalidAccountType("zz".into()));
    assert_eq!(s, 400);
    assert_eq!(body.code, "INVALID_ACCOUNT_TYPE");
    let (_, body) = storage_error_response(StorageError::OpenFailed { path: "/x".into(), source_msg: "denied".into() });
    assert_eq!(body.error, "Failed to open database at '/x': denied");
}

#[test]
fn list_response_keeps_order_and_count() {
    let r = list_holdings_response("p1".to_string(), vec![holding("a"), holding("b"), holding("c")]);
    assert_eq!(r.count, 3);
    assert_eq!(r.holdings.iter().map(|h| h.id.as_str()).collect::<Vec<_>>(), vec!["a", "b", "c"]);
    let mut h = holding("d");
    h.account_id = Some("acct".to_string());
    let r = list_holdings_response("p1".to_string(), vec![h]);
    let w = &r.holdings[0];
    assert_eq!(w.account_id.as_deref(), Some("acct"));
    assert_eq!(w.symbol_nonce_b64, B64.encode(b"non"));
    assert_eq!(w.payload_nonce_b64, B64.encode(b"pn"));
    assert_eq!(w.portfolio_id, "p1");
    assert_eq!(w.created_at, "2026-01-01T00:00:00+00:00");
}

#[test]
fn list_portfolios_response_encodes_in_order() {
    let p = |id: &str, name: &[u8]| Portfolio {
        id: id.to_string(),
        name_encrypted: name.to_vec(),
        name_nonce: b"n".to_vec(),
        created_at: "2024-01-01T00:00:00+00:00".to_string(),
    };
    let r = list_portfolios_response(vec![p("x", b"one"), p("y", b"two")]);
    assert_eq!(r.count, 2);
    assert_eq!(r.portfolios[0].id, "x");
    assert_eq!(r.portfolios[1].id, "y");
    assert_eq!(r.portfolios[0].name_encrypted_b64, B64.encode(b"one"));
    assert_eq!(r.portfolios[1].name_nonce_b64, "bg==");
    assert_eq!(list_portfolios_response(vec![]).count, 0);
}

#[test]
fn create_holding_request_checks() {
    let req = CreateHoldingRequest {
        portfolio_id: " ".into(),
        account_id: None,
        symbol_encrypted_b64: B64.encode(b"s"),
        symbol_nonce_b64: B64.encode(b"n"),
        payload_encrypted_b64: B64.encode(b"p"),
        payload_nonce_b64: B64.encode(b"q"),
    };
    let (s, body) = req.into_new_holding().err().unwrap();
    assert_eq!(s, 400);
    assert_eq!(body.code, "EMPTY_PORTFOLIO_ID");
    let req = CreateHoldingRequest {
        portfolio_id: "p".into(),
        account_id: None,
        symbol_encrypted_b64: B64.encode(b"s"),
        symbol_nonce_b64: "".into(),
        payload_encrypted_b64: B64.encode(b"p"),
        payload_nonce_b64: B64.encode(b"q"),
    };
    let (_, body) = req.into_new_holding().err().unwrap();
    assert_eq!(body.code, "EMPTY_FIELD");
    assert_eq!(body.error, "symbol_nonce_b64 must not be empty");
    let q = ListHoldingsQuery { portfolio_id: "".into(), account_id: None };
    assert_eq!(q.check().err().unwrap().1.code, "MISSING_PORTFOLIO_ID");
}

#[test]
fn crypto_handlers_map_errors() {
    let (s, body) = crypto_api::derive_key(DeriveKeyRequest { passphrase: "".into(), salt: None }).err().unwrap();
    assert_eq!(s, 400);
    assert_eq!(body.code, "INVALID_INPUT");
    assert_eq!(body.error, "Passphrase must not be empty");
    let key = B64.encode([9u8; 32]);
    let enc = crypto_api::encrypt(EncryptRequest { plaintext: "hi".into(), key_b64: key.clone() }).ok().unwrap();
    let dec = crypto_api::decrypt(DecryptRequest {
        ciphertext_b64: enc.ciphertext_b64.clone(),
        nonce_b64: enc.nonce_b64.clone(),
        key_b64: key,
    })
    .ok()
    .unwrap();
    assert_eq!(dec.plaintext, "hi");
    let (s, body) = crypto_api::decrypt(DecryptRequest {
        ciphertext_b64: enc.ciphertext_b64,
        nonce_b64: enc.nonce_b64,
        key_b64: B64.encode([1u8; 32]),
    })
    .err()
    .unwrap();
    assert_eq!(s, 422);
    assert_eq!(body.code, "DECRYPTION_FAILED");
    let (s, body) = crypto_api::crypto_err(CryptoError::InvalidUtf8);
    assert_eq!(s, 500);
    assert_eq!(body.code, "CRYPTO_ERROR");
    let (s, body) = crypto_api::crypto_err(CryptoError::HashingFailed("x".into()));
    assert_eq!((s, body.code.as_str()), (422, "CRYPTO_ERROR"));
    let (s, body) = crypto_api::crypto_err(CryptoError::EncryptionFailed("x".into()));
    assert_eq!((s, body.code.as_str()), (422, "CRYPTO_ERROR"));
    let (s, body) = crypto_api::crypto_err(CryptoError::InvalidParams("x".into()));
    assert_eq!((s, body.code.as_str()), (500, "CRYPTO_ERROR"));
    let (s, body) = crypto_api::encrypt(EncryptRequest { plaintext: "hi".into(), key_b64: "%%".into() }).err().unwrap();
    assert_eq!((s, body.code.as_str()), (400, "INVALID_INPUT"));
    let (s, _) = crypto_api::encrypt(EncryptRequest { plaintext: "hi".into(), key_b64: B64.encode([1u8; 16]) }).err().unwrap();
    assert_eq!(s, 400);
    let (s, body) = crypto_api::derive_key(DeriveKeyRequest { passphrase: "pw".into(), salt: Some("a b".into()) }).err().unwrap();
    assert_eq!((s, body.code.as_str()), (400, "INVALID_INPUT"));
}

#[test]
fn portfolio_request_checks() {
    let (s, e) = check_stress_request("", false).err().unwrap();
    assert_eq!(s, 400);
    assert_eq!(e.code, "MISSING_SCENARIO");
    assert!(check_stress_request("", true).is_ok());
    assert_eq!(check_correlation_request(1, None).err().unwrap().1.code, "INSUFFICIENT_HOLDINGS");
    assert_eq!(check_correlation_request(2, Some(0)).err().unwrap().1.code, "INVALID_WINDOW");
    let (s, e) = check_correlation_request(2, Some(1)).err().unwrap();
    assert_eq!(s, 400);
    assert_eq!(e.error, "window_days must be between 2 and 10000");
    assert_eq!(check_correlation_request(2, Some(20_000)).err().unwrap().1.code, "INVALID_WINDOW");
    assert!(check_correlation_request(2, Some(2)).is_ok());
    assert!(check_correlation_request(2, Some(10_000)).is_ok());
    assert!(check_correlation_request(2, None).is_ok());
    assert_eq!(check_monte_carlo_request(true, Some(0), None).err().unwrap().1.code, "INVALID_NUM_SIMULATIONS");
    assert_eq!(check_monte_carlo_request(true, Some(1_000_001), Some(0)).err().unwrap().1.code, "INVALID_NUM_SIMULATIONS");
    assert_eq!(check_monte_carlo_request(true, None, Some(601)).err().unwrap().1.code, "INVALID_HORIZON");
    assert!(check_monte_carlo_request(true, Some(1_000_000), Some(600)).is_ok());
    let (s, e) = check_monte_carlo_request(false, Some(0), None).err().unwrap();
    assert_eq!(s, 400);
    assert_eq!(e.error, "initial_value must be a positive finite number");
    assert_eq!(e.code, "INVALID_INITIAL_VALUE");
}

#[test]
fn versioning_handlers() {
    let mut store = VersionStore::new();
    let req = AppendVersionRequest {
        entity_id: "e1".into(),
        entity_type: "decision_entry".into(),
        content_encrypted_b64: B64.encode(b"c1"),
        nonce_b64: B64.encode(b"n1"),
        change_summary: Some("first".into()),
        tags: vec!["t".into()],
    };
    let r = versioning_api::append_version(&mut store, req).ok().unwrap();
    assert_eq!(r.version, 1);
    let req = AppendVersionRequest {
        entity_id: "e1".into(),
        entity_type: "decision_entry".into(),
        content_encrypted_b64: B64.encode(b"c2"),
        nonce_b64: B64.encode(b"n2"),
        change_summary: None,
        tags: vec![],
    };
    let r2 = versioning_api::append_version(&mut store, req).ok().unwrap();
    assert_eq!(r2.version, 2);
    let bad = AppendVersionRequest {
        entity_id: "e1".into(),
        entity_type: "nope".into(),
        content_encrypted_b64: "x".into(),
        nonce_b64: "y".into(),
        change_summary: None,
        tags: vec![],
    };
    let (s, e) = versioning_api::append_version(&mut store, bad).err().unwrap();
    assert_eq!(s, 400);
    assert_eq!(e.error, "Unknown entity type: 'nope'");
    let bad_nonce = AppendVersionRequest {
        entity_id: "e1".into(),
        entity_type: "position".into(),
        content_encrypted_b64: B64.encode(b"c"),
        nonce_b64: "!!".into(),
        change_summary: None,
        tags: vec![],
    };
    let (s, e) = versioning_api::append_version(&mut store, bad_nonce).err().unwrap();
    assert_eq!((s, e.code.as_str()), (400, "INVALID_BASE64"));
    assert!(e.error.starts_with("Invalid nonce base64: "));
    let h = versioning_api::get_history(&store, GetHistoryRequest { entity_id: "e1".into(), limit: None, latest_only: None })
        .ok()
        .unwrap();
    assert_eq!(h.total_versions, 2);
    assert_eq!(h.versions[0].entity_type, "DecisionEntry");
    assert_eq!(h.versions[0].content_encrypted_b64, B64.encode(b"c1"));
    assert_eq!(h.versions[1].parent_hash.as_deref(), Some(r.version_hash.as_str()));
    assert!(h.versions[0].created_at.ends_with("+00:00"));
    let latest = versioning_api::get_history(&store, GetHistoryRequest { entity_id: "e1".into(), limit: None, latest_only: Some(true) })
        .ok()
        .unwrap();
    assert_eq!(latest.total_versions, 1);
    assert_eq!(latest.versions[0].version, 2);
    let i = versioning_api::verify_integrity(&store, "e1".into()).ok().unwrap();
    assert!(i.chain_valid);
    assert_eq!(i.total_versions, 2);
    assert_eq!(versioning_api::verify_integrity(&store, "".into()).err().unwrap().1.code, "EMPTY_ENTITY_ID");
}

fn facts(symbol: &str, market_value: NumClass, text: &str, returns_len: usize, bad: Option<usize>) -> HoldingFacts {
    HoldingFacts {
        symbol: symbol.to_string(),
        weight: NumClass::Finite { negative: false },
        weight_text: "0.5".to_string(),
        market_value,
        market_value_text: text.to_string(),
        returns_len,
        first_bad_return: bad,
    }
}

fn fin(negative: bool) -> NumClass {
    NumClass::Finite { negative }
}

#[test]
fn holdings_validation_reports_first_fault() {
    let err = |v: Vec<HoldingFacts>, total_not_positive: bool| {
        let (s, e) = validate_holdings(&v, total_not_positive).err().unwrap();
        assert_eq!(s, if e.code == "ZERO_TOTAL_VALUE" { 422 } else { 400 });
        (e.error, e.code)
    };
    assert_eq!(err(vec![], false), ("Holdings array must not be empty".to_string(), "EMPTY_HOLDINGS".to_string()));
    assert_eq!(
        err(vec![facts("AAPL", fin(false), "1", 3, None), facts("", fin(false), "1", 3, None)], false),
        ("Holding at index 1 has an empty symbol".to_string(), "EMPTY_SYMBOL".to_string())
    );
    assert_eq!(
        err(vec![facts("AAPL", fin(true), "-5.5", 3, None)], false),
        ("Holding 'AAPL' has negative market_value: -5.5".to_string(), "NEGATIVE_MARKET_VALUE".to_string())
    );
    assert_eq!(
        err(vec![facts("AAPL", NumClass::Infinite { negative: true }, "-inf", 3, None)], false).1,
        "NEGATIVE_MARKET_VALUE"
    );
    assert_eq!(
        err(vec![facts("AAPL", NumClass::Nan, "NaN", 3, None)], false),
        ("Holding 'AAPL' has non-finite market_value".to_string(), "INVALID_MARKET_VALUE".to_string())
    );
    assert_eq!(
        err(vec![facts("MSFT", fin(false), "2", 0, None)], false),
        ("Holding 'MSFT' has no return data".to_string(), "EMPTY_RETURNS".to_string())
    );
    assert_eq!(
        err(vec![facts("MSFT", fin(false), "2", 4, Some(2))], false),
        ("Holding 'MSFT' return at index 2 is non-finite".to_string(), "INVALID_RETURN".to_string())
    );
    assert_eq!(
        err(vec![facts("MSFT", fin(false), "0", 4, None)], true),
        ("Total portfolio market value must be positive".to_string(), "ZERO_TOTAL_VALUE".to_string())
    );
    // the first faulty holding is reported, not a later one
    assert_eq!(
        err(vec![facts("A", fin(false), "1", 0, None), facts("", fin(true), "-1", 0, None)], true).1,
        "EMPTY_RETURNS"
    );
    assert!(validate_holdings(&vec![facts("A", fin(false), "1", 2, None), facts("B", fin(false), "0", 1, None)], false).is_ok());
    // all market values zero: 422
    let (s, _) = validate_holdings(&vec![facts("A", fin(false), "0", 1, None)], true).err().unwrap();
    assert_eq!(s, 422);
    // weights: negative, then NaN or infinite
    let mut w = facts("A", fin(false), "100", 1, None);
    w.weight = fin(true);
    w.weight_text = "-1".to_string();
    assert_eq!(err(vec![w], false), ("Holding 'A' has negative weight: -1".to_string(), "NEGATIVE_WEIGHT".to_string()));
    let mut w = facts("A", fin(false), "100", 1, None);
    w.weight = NumClass::Nan;
    assert_eq!(err(vec![w], false), ("Holding 'A' has non-finite weight".to_string(), "INVALID_WEIGHT".to_string()));
    let mut w = facts("A", fin(true), "-100", 1, None);
    w.weight = NumClass::Infinite { negative: false };
    assert_eq!(err(vec![w], false).1, "INVALID_WEIGHT");
}

#[test]
fn custom_shocks_must_be_finite() {
    let classes = vec!["equity".to_string(), "commodity".to_string(), "preferred".to_string()];
    assert!(check_custom_shocks(&classes, &vec![true, true, true]).is_ok());
    let (s, e) = check_custom_shocks(&classes, &vec![true, false, false]).err().unwrap();
    assert_eq!(s, 400);
    assert_eq!(e.error, "Shock for 'commodity' has non-finite value");
    assert_eq!(e.code, "INVALID_SHOCK");
    assert!(check_custom_shocks(&vec![], &vec![]).is_ok());
}
