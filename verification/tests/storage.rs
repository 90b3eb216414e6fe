use pae_engine::storage::db::{
    check_account_blobs, check_holding_update, check_new_holding, check_pool_size, check_snapshot_time, require_affected,
    require_portfolio, AccountType, NewHolding, StorageError,
};

#[test]
fn test_account_type_roundtrip() {
    for t in [
        AccountType::Rrsp,
        AccountType::Tfsa,
        AccountType::Lira,
        AccountType::Taxable,
        AccountType::Margin,
    ] {
        assert_eq!(AccountType::parse(t.as_str()).unwrap(), t);
    }
    assert!(matches!(
        AccountType::parse("crypto").unwrap_err(),
        StorageError::InvalidAccountType(_)
    ));
    assert_eq!(AccountType::parse("TFSA").unwrap(), AccountType::Tfsa);
}

#[test]
fn account_type_parse_trims_and_reports_normalized_text() {
    assert_eq!(AccountType::parse("  Margin\t").unwrap(), AccountType::Margin);
    match AccountType::parse("  Crypto ").unwrap_err() {
        StorageError::InvalidAccountType(s) => assert_eq!(s, "crypto"),
        other => panic!("unexpected {other:?}"),
    }
    let e = AccountType::parse("x").unwrap_err();
    assert_eq!(e.message(), "Invalid account type: 'x'");
}

fn new_holding(portfolio_id: &str) -> NewHolding {
    NewHolding {
        portfolio_id: portfolio_id.to_string(),
        account_id: None,
        symbol_encrypted: b"enc-AAPL".to_vec(),
        symbol_nonce: b"sym-nonce-12".to_vec(),
        payload_encrypted: b"enc-payload".to_vec(),
        payload_nonce: b"pay-nonce-12".to_vec(),
    }
}

#[test]
fn new_holding_checks_in_order() {
    assert!(check_new_holding(&new_holding("p1")).is_ok());
    match check_new_holding(&new_holding("  ")).unwrap_err() {
        StorageError::Validation(m) => assert_eq!(m, "portfolio_id must not be empty"),
        other => panic!("unexpected {other:?}"),
    }
    let mut h = new_holding("p1");
    h.payload_encrypted = vec![];
    match check_new_holding(&h).unwrap_err() {
        StorageError::Validation(m) => assert_eq!(m, "symbol and payload ciphertext must not be empty"),
        other => panic!("unexpected {other:?}"),
    }
}

#[test]
fn missing_rows_are_not_found() {
    match require_affected(0, "nope").unwrap_err() {
        StorageError::NotFound { entity, id } => {
            assert_eq!(entity, "holding");
            assert_eq!(id, "nope");
        }
        other => panic!("unexpected {other:?}"),
    }
    assert!(require_affected(1, "h").is_ok());
    match require_portfolio(false, "does-not-exist").unwrap_err() {
        StorageError::NotFound { entity, .. } => assert_eq!(entity, "portfolio"),
        other => panic!("unexpected {other:?}"),
    }
    let e = require_portfolio(false, "p9").unwrap_err();
    assert_eq!(e.message(), "portfolio not found: p9");
}

#[test]
fn pool_update_and_snapshot_checks() {
    assert!(matches!(check_pool_size(0).unwrap_err(), StorageError::Validation(_)));
    assert!(check_pool_size(4).is_ok());
    assert!(check_holding_update(b"a", b"c").is_ok());
    assert!(matches!(check_holding_update(b"", b"c").unwrap_err(), StorageError::Validation(_)));
    assert!(matches!(check_snapshot_time(" ").unwrap_err(), StorageError::Validation(_)));
    assert!(check_snapshot_time("2000-01-01T00:00:00+00:00").is_ok());
}

#[test]
fn account_needs_every_blob() {
    let msg = |r: Result<(), StorageError>| match r {
        Err(StorageError::Validation(m)) => m,
        _ => panic!("expected a validation error"),
    };
    assert_eq!(msg(check_account_blobs(b"", b"n", b"b", b"n")), "account name ciphertext and nonce must not be empty");
    assert_eq!(
        msg(check_account_blobs(b"enc-acct", b"nonce", b"", b"")),
        "account broker ciphertext and nonce must not be empty"
    );
    assert_eq!(msg(check_account_blobs(b"enc-acct", b"nonce", b"b", b"")), "account broker ciphertext and nonce must not be empty");
    assert!(check_account_blobs(b"enc-acct", b"nonce", b"enc-broker", b"nonce").is_ok());
}
