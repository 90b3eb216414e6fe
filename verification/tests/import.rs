use base64::engine::general_purpose::STANDARD as B64;
use base64::Engine as _;
use pae_engine::api::import_api::{
    check_confirm_request, check_upload, decode_b64, normalize_header, numeric_cell, review_rows,
    scan_csv, ColumnMap, ConfirmHolding, ConfirmImportRequest, CsvRow, ImportError, NumClass,
    NumericText, RowNumbers, MAX_FILE_BYTES,
};

/// The number a numeric text reads as.
fn number_of(t: &NumericText) -> Option<f64> {
    t.digits.parse::<f64>().ok().map(|v| if t.negative { -v } else { v })
}

fn parse_num(raw: &str) -> Option<f64> {
    numeric_cell(&raw.chars().collect()).and_then(|t| number_of(&t))
}

fn class_of(v: Option<f64>) -> Option<NumClass> {
    v.map(|x| {
        if x.is_nan() {
            NumClass::Nan
        } else if x.is_infinite() {
            NumClass::Infinite { negative: x < 0.0 }
        } else {
            NumClass::Finite { negative: x < 0.0 }
        }
    })
}

struct Parsed {
    symbol: String,
    market_value: f64,
}

struct Preview {
    holdings: Vec<Parsed>,
    errors: Vec<String>,
    warnings: Vec<String>,
    rows_total: usize,
    rows_imported: usize,
}

/// Scans, classifies the numbers, and reviews a CSV text.
fn parse_csv_for_review(_filename: &str, text: &str) -> Result<Preview, ImportError> {
    let rows: Vec<CsvRow> = scan_csv(text)?;
    let nums: Vec<RowNumbers> = rows
        .iter()
        .map(|r| RowNumbers {
            quantity: class_of(r.quantity.as_ref().and_then(number_of)),
            market_value: class_of(r.market_value.as_ref().and_then(number_of)),
            cost_basis: class_of(r.cost_basis.as_ref().and_then(number_of)),
        })
        .collect();
    let review = review_rows(&rows, &nums)?;
    let holdings: Vec<Parsed> = review
        .accepted
        .iter()
        .map(|a| {
            let r = &rows[a.index];
            Parsed {
                symbol: r.symbol.clone(),
                market_value: r.market_value.as_ref().and_then(number_of).unwrap_or(0.0),
            }
        })
        .collect();
    Ok(Preview {
        rows_imported: holdings.len(),
        holdings,
        errors: review.errors,
        warnings: review.warnings,
        rows_total: review.rows_total,
    })
}

#[test]
fn test_parse_num_variants() {
    assert_eq!(parse_num("1,850.50"), Some(1850.50));
    assert_eq!(parse_num("$1,500"), Some(1500.0));
    assert_eq!(parse_num("(500.00)"), Some(-500.0));
    assert_eq!(parse_num("N/A"), None);
    assert_eq!(parse_num(""), None);
    assert_eq!(parse_num("12.5%"), Some(12.5));
}

#[test]
fn test_normalize_header() {
    assert_eq!(normalize_header(" Current Market Value "), "currentmarketvalue");
    assert_eq!(normalize_header("Open_Quantity"), "openquantity");
}

#[test]
fn test_parse_csv_for_review_generic() {
    let csv = "symbol,quantity,market_value,currency\nAAPL,100,18500.50,USD\nKO,120,7200,USD\n";
    let preview = parse_csv_for_review("x.csv", csv).unwrap();
    assert_eq!(preview.rows_imported, 2);
    assert_eq!(preview.holdings[0].symbol, "AAPL");
    assert_eq!(preview.holdings[0].market_value, 18500.50);
}

#[test]
fn test_parse_csv_rejects_negative_and_empty() {
    let csv = "symbol,quantity,market_value\n,5,100\nNEG,-3,500\nGOOD,10,1000\n";
    let preview = parse_csv_for_review("x.csv", csv).unwrap();
    assert_eq!(preview.rows_imported, 1);
    assert_eq!(preview.holdings[0].symbol, "GOOD");
    assert_eq!(preview.errors.len(), 2);
}

#[test]
fn test_parse_csv_no_symbol_column_fails() {
    let csv = "quantity,market_value\n10,100\n";
    assert!(parse_csv_for_review("x.csv", csv).is_err());
}

#[test]
fn review_messages_name_rows_and_symbols() {
    let csv = "Ticker,Qty,Cost\r\n\r\n,5,1\n  msft ,-3,1\nibm,,2\nok,1,(4)\n";
    let preview = parse_csv_for_review("x.csv", csv).unwrap();
    assert_eq!(
        preview.errors,
        vec![
            "Row 2: empty symbol; row skipped".to_string(),
            "Row 3 (MSFT): negative quantity; row skipped".to_string(),
            "Row 4 (IBM): no quantity or market_value; row skipped".to_string(),
        ]
    );
    assert_eq!(preview.warnings, vec!["Row 5 (OK): negative cost_basis; treated as unknown".to_string()]);
    // every row is either kept or reported
    assert_eq!(preview.rows_total, 4);
    assert_eq!(preview.rows_imported + preview.errors.len(), preview.rows_total);
    assert_eq!(preview.rows_imported, 1);
}

#[test]
fn scan_reads_rows_and_defaults_currency() {
    let rows = scan_csv("Symbol,Market Value,Currency,Yield\naapl,\"1\",,3%\nko,$5, cad ,N/A\n").unwrap();
    assert_eq!(rows.len(), 2);
    assert_eq!(rows[0].row_num, 2);
    assert_eq!(rows[0].currency, "USD");
    assert_eq!(rows[1].currency, "CAD");
    assert_eq!(rows[1].symbol, "KO");
    assert!(rows[1].yield_pct.is_none());
    assert_eq!(rows[0].yield_pct.as_ref().unwrap().digits, "3");
    assert!(rows[0].quantity.is_none());
}

#[test]
fn scan_failures() {
    match scan_csv("\n  \n").unwrap_err() {
        ImportError::ParseFailed(m) => assert_eq!(m, "file has no header row"),
        e => panic!("unexpected {e:?}"),
    }
    match scan_csv("symbol,currency\nA,USD\n").unwrap_err() {
        ImportError::ParseFailed(m) => assert_eq!(m, "could not find a market value or quantity column"),
        e => panic!("unexpected {e:?}"),
    }
    match parse_csv_for_review("x.csv", "symbol,qty\n,1\n").err().unwrap() {
        ImportError::ParseFailed(m) => assert_eq!(m, "no valid holdings found in file"),
        e => panic!("unexpected {e:?}"),
    }
}

#[test]
fn nan_and_infinite_numbers_are_skipped() {
    let rows = scan_csv("symbol,quantity\nA,1\n").unwrap();
    let nums = vec![RowNumbers { quantity: Some(NumClass::Nan), market_value: None, cost_basis: None }];
    match review_rows(&rows, &nums).err().unwrap() {
        ImportError::ParseFailed(_) => {}
        e => panic!("unexpected {e:?}"),
    }
    let big = format!("symbol,market_value\nA,{}\n", "9".repeat(400));
    let p = parse_csv_for_review("x.csv", &format!("{big}B,1\n")).unwrap();
    assert_eq!(p.errors, vec!["Row 2 (A): market_value is NaN/Inf; row skipped".to_string()]);
}

#[test]
fn column_map_takes_first_synonym() {
    let headers: Vec<String> = ["cost", "ticker", "symbol", "value", "units", "ccy", "divyield"]
        .iter()
        .map(|s| s.to_string())
        .collect();
    let m = ColumnMap::from_headers(&headers);
    assert_eq!(m.symbol, Some(1));
    assert_eq!(m.market_value, Some(3));
    assert_eq!(m.quantity, Some(4));
    assert_eq!(m.cost_basis, Some(0));
    assert_eq!(m.currency, Some(5));
    assert_eq!(m.yield_pct, Some(6));
    assert_eq!(ColumnMap::from_headers(&[]).symbol, None);
}

#[test]
fn upload_checks() {
    assert!(check_upload("Statement.CSV", 10).is_ok());
    assert!(check_upload("a.qfx", 1).is_ok());
    assert!(matches!(check_upload("a.pdf", 10).unwrap_err(), ImportError::UnsupportedType { .. }));
    let e = check_upload("a.ofx", MAX_FILE_BYTES + 1).unwrap_err();
    assert_eq!(e.status_code(), 400);
    assert_eq!(e.code(), "FILE_TOO_LARGE");
    assert_eq!(e.message(), "File is 10485761 bytes; maximum allowed is 10485760 bytes");
    let e = check_upload("a.csv", 0).unwrap_err();
    assert_eq!(e.status_code(), 422);
    assert_eq!(e.message(), "Could not parse file: file is empty");
}

#[test]
fn error_messages_and_codes() {
    let e = ImportError::UnsupportedType { detail: "x.pdf".to_string() };
    assert_eq!(e.message(), "Unsupported file type: x.pdf. Expected .csv, .ofx, or .qfx");
    assert_eq!(ImportError::Storage("disk".into()).status_code(), 500);
    assert_eq!(ImportError::NoFile.message(), "No 'file' part found in upload");
    let r = ImportError::PortfolioNotFound("p".into()).to_response();
    assert_eq!(r.code, "PORTFOLIO_NOT_FOUND");
    assert_eq!(r.error, "Portfolio not found: p");
}

#[test]
fn confirm_decoding() {
    assert_eq!(decode_b64(&B64.encode(b"ok"), 0, "f").unwrap(), b"ok".to_vec());
    match decode_b64("", 3, "symbol_nonce_b64").unwrap_err() {
        ImportError::Validation(m) => assert_eq!(m, "holding[3].symbol_nonce_b64 must not be empty"),
        e => panic!("unexpected {e:?}"),
    }
    match decode_b64("!!", 0, "f").unwrap_err() {
        ImportError::Validation(m) => assert!(m.starts_with("holding[0].f is not valid base64: ")),
        e => panic!("unexpected {e:?}"),
    }
    let h = ConfirmHolding {
        symbol_encrypted_b64: B64.encode(b"s"),
        symbol_nonce_b64: B64.encode(b"n"),
        payload_encrypted_b64: B64.encode(b"p"),
        payload_nonce_b64: B64.encode(b"q"),
        account_id: Some("acct".into()),
    };
    let n = h.to_new_holding(0, "pid").unwrap();
    assert_eq!(n.portfolio_id, "pid");
    assert_eq!(n.payload_encrypted, b"p".to_vec());
    assert_eq!(n.account_id.as_deref(), Some("acct"));
    let req = ConfirmImportRequest { portfolio_id: " ".into(), holdings: vec![] };
    assert!(matches!(check_confirm_request(&req).unwrap_err(), ImportError::Validation(_)));
    let req = ConfirmImportRequest { portfolio_id: "p".into(), holdings: vec![] };
    match check_confirm_request(&req).unwrap_err() {
        ImportError::Validation(m) => assert_eq!(m, "holdings must not be empty"),
        e => panic!("unexpected {e:?}"),
    }
}
