use betl::amount::{format_amount, parse_amount};
use betl::bank_statement::{
    deserialize_date, normalize, ExcelBankStatement, RevolutBankStatement, RevolutTransaction,
    Transaction,
};
use betl::banks::{find_header, parse_config, Bank, BankConfig};
use betl::date::{parse_date, Date};
use betl::grid::{Grid, RawCell};
use betl::render::{build_transaction_string, find_category, render_transactions, Mappings};
use betl::BetlError;

fn d(y: i32, m: u8, day: u8) -> Date {
    Date::new(y, m, day).expect("valid date")
}

fn text(s: &str) -> RawCell {
    RawCell::Text(String::from(s))
}

fn text_row(fields: &[&str]) -> Vec<RawCell> {
    fields.iter().map(|f| text(f)).collect()
}

fn string_row(fields: &[&str]) -> Vec<String> {
    fields.iter().map(|f| String::from(*f)).collect()
}

fn tx(desc: &str, cents: i64) -> Transaction {
    Transaction {
        operation_date: Some(d(2023, 2, 1)),
        value_date: Some(d(2023, 2, 2)),
        description: String::from(desc),
        amount: cents,
    }
}

#[test]
fn amount_parses_plain_and_signed_values() {
    assert_eq!(parse_amount("-3.50"), Some(-350));
    assert_eq!(parse_amount("3.50"), Some(350));
    assert_eq!(parse_amount("+3.50"), Some(350));
    assert_eq!(parse_amount("100.00"), Some(10000));
    assert_eq!(parse_amount("12"), Some(1200));
    assert_eq!(parse_amount("0.5"), Some(50));
    assert_eq!(parse_amount("-0.05"), Some(-5));
}

#[test]
fn amount_rejects_non_numeric_text() {
    assert_eq!(parse_amount(""), None);
    assert_eq!(parse_amount("abc"), None);
    assert_eq!(parse_amount("-"), None);
    assert_eq!(parse_amount("3.505"), None);
    assert_eq!(parse_amount("3."), None);
    assert_eq!(parse_amount("3,50"), None);
    assert_eq!(parse_amount("1 2"), None);
    assert_eq!(parse_amount("99999999999999999999999999"), None);
}

#[test]
fn amount_formats_with_two_decimals() {
    assert_eq!(format_amount(-350), "-3.50");
    assert_eq!(format_amount(0), "0.00");
    assert_eq!(format_amount(1234), "12.34");
    assert_eq!(format_amount(-5), "-0.05");
    assert_eq!(format_amount(10000), "100.00");
}

#[test]
fn date_constructor_checks_the_calendar() {
    assert!(Date::new(2024, 2, 29).is_some());
    assert!(Date::new(2023, 2, 29).is_none());
    assert!(Date::new(1900, 2, 29).is_none());
    assert!(Date::new(2000, 2, 29).is_some());
    assert!(Date::new(2023, 13, 1).is_none());
    assert!(Date::new(2023, 0, 1).is_none());
    assert!(Date::new(10000, 1, 1).is_none());
    assert!(Date::new(-1, 1, 1).is_none());
}

#[test]
fn date_formats_zero_padded() {
    assert_eq!(d(2023, 2, 1).format_ymd(), "2023-02-01");
    assert_eq!(d(33, 12, 3).format_ymd(), "0033-12-03");
    assert_eq!(d(0, 1, 1).format_ymd(), "0000-01-01");
}

#[test]
fn date_parsing_follows_the_bank_pattern() {
    assert_eq!(parse_date("01/02/2023", "%d/%m/%Y"), Some(d(2023, 2, 1)));
    assert_eq!(parse_date("31/12/2020", "%d/%m/%Y"), Some(d(2020, 12, 31)));
    assert_eq!(parse_date("31/02/2020", "%d/%m/%Y"), None);
    assert_eq!(parse_date("2023-02-01", "%d/%m/%Y"), None);
    assert_eq!(
        parse_date("2023-02-01 10:30:00", "%Y-%m-%d %H:%M:%S"),
        Some(d(2023, 2, 1))
    );
}

#[test]
fn date_decode_is_total() {
    let default = d(2000, 1, 1);
    // A native date cell is taken as it stands.
    assert_eq!(
        deserialize_date(&RawCell::Date(d(2021, 5, 7)), default),
        d(2021, 5, 7)
    );
    // A parsable text cell yields the parsed date.
    assert_eq!(deserialize_date(&text("05/01/2023"), default), d(2023, 1, 5));
    // Malformed text, numbers, booleans, errors and empty cells all fall
    // back to the default date, never failing.
    assert_eq!(deserialize_date(&text("garbage"), default), default);
    assert_eq!(deserialize_date(&text("99/99/9999"), default), default);
    assert_eq!(deserialize_date(&RawCell::Number(1234), default), default);
    assert_eq!(deserialize_date(&RawCell::Bool(true), default), default);
    assert_eq!(deserialize_date(&RawCell::Error, default), default);
    assert_eq!(deserialize_date(&RawCell::Empty, default), default);
}

#[test]
fn registry_resolves_each_bank() {
    let c = parse_config(&Bank::Bankia, Some("MyFile")).unwrap();
    assert_eq!(c.skip_row_num, 2);
    assert_eq!(c.sheet_name, "MyFile");
    assert_eq!(c.base_account, "Assets:Emergency fund");
    assert_eq!(c.headers.len(), 6);

    let c = parse_config(&Bank::Santander, None).unwrap();
    assert_eq!(c.skip_row_num, 7);
    assert_eq!(c.sheet_name, "Movimientos");
    assert_eq!(c.base_account, "Assets:Checking");
    assert_eq!(
        c.headers,
        vec!["operation_date", "value_date", "description", "amount", "total"]
    );

    let c = parse_config(&Bank::Santander, Some("Other")).unwrap();
    assert_eq!(c.sheet_name, "Other");

    let c = parse_config(&Bank::Revolut, Some("R")).unwrap();
    assert_eq!(c.skip_row_num, 0);
    assert_eq!(c.base_account, "Assets:Revolut");
    assert_eq!(c.headers.len(), 10);

    let c = parse_config(&Bank::EvoBank, Some("Movimientos")).unwrap();
    assert_eq!(c.skip_row_num, 1);
    assert_eq!(c.base_account, "Assets:EvoBank");

    let c = parse_config(&Bank::Bankinter, Some("Movimientos")).unwrap();
    assert_eq!(c.skip_row_num, 8);
    assert_eq!(c.base_account, "Assets:Bankinter");
}

#[test]
fn registry_demands_a_sheet_name_where_mandated() {
    assert_eq!(parse_config(&Bank::Bankia, None), Err(BetlError::Configuration));
    assert_eq!(parse_config(&Bank::Revolut, None), Err(BetlError::Configuration));
    assert_eq!(parse_config(&Bank::EvoBank, None), Err(BetlError::Configuration));
    assert_eq!(parse_config(&Bank::Bankinter, None), Err(BetlError::Configuration));
    assert!(parse_config(&Bank::Santander, None).is_ok());
}

#[test]
fn header_lookup_finds_the_first_occurrence() {
    let hs = string_row(&["a", "b", "a", "c"]);
    assert_eq!(find_header(&hs, "a"), Some(0));
    assert_eq!(find_header(&hs, "c"), Some(3));
    assert_eq!(find_header(&hs, "z"), None);
}

#[test]
fn alignment_always_injects_the_canonical_headers() {
    let config = parse_config(&Bank::Bankia, Some("S")).unwrap();
    // The header slot row holds arbitrary junk, which is relabeled, never
    // validated against.
    let grid = Grid {
        rows: vec![
            text_row(&["junk"]),
            text_row(&["more", "junk"]),
            text_row(&["old", "header", "row"]),
            text_row(&["01/02/2023", "02/02/2023", "x", "y", "1.00", "2.00"]),
        ],
    };
    let aligned = ExcelBankStatement::modify_headers(grid, &config);
    let expected: Vec<RawCell> = config.headers.iter().map(|h| text(h)).collect();
    assert_eq!(aligned.rows[0], expected);
    assert_eq!(aligned.rows.len(), 2);

    // Even a grid too short for any data keeps the canonical header row.
    let empty = Grid { rows: vec![] };
    let aligned = ExcelBankStatement::modify_headers(empty, &config);
    assert_eq!(aligned.rows.len(), 1);
    assert_eq!(aligned.rows[0], expected);
}

#[test]
fn skipping_rows_drops_the_leading_rows() {
    let grid = Grid {
        rows: vec![text_row(&["a"]), text_row(&["b"]), text_row(&["c"])],
    };
    let g = ExcelBankStatement::skip_rows(grid, 2);
    assert_eq!(g.rows, vec![text_row(&["c"])]);
    let grid = Grid { rows: vec![text_row(&["a"])] };
    let g = ExcelBankStatement::skip_rows(grid, 5);
    assert_eq!(g.rows.len(), 0);
}

fn santander_like_config() -> BankConfig {
    BankConfig {
        skip_row_num: 2,
        headers: string_row(&["operation_date", "value_date", "description", "amount", "total"]),
        sheet_name: String::from("S"),
        base_account: String::from("Assets:Checking"),
    }
}

#[test]
fn grid_round_trip_decodes_and_renders() {
    let config = santander_like_config();
    let grid = Grid {
        rows: vec![
            text_row(&["junk"]),
            text_row(&["junk"]),
            text_row(&["old", "headers", "here"]),
            text_row(&["01/02/2023", "02/02/2023", "Coffee shop", "-3.50", "100.00"]),
        ],
    };
    let ts =
        ExcelBankStatement::parse_transactions(grid, &config, false, d(2000, 1, 1)).unwrap();
    assert_eq!(ts.len(), 1);
    assert_eq!(ts[0].operation_date, Some(d(2023, 2, 1)));
    assert_eq!(ts[0].value_date, Some(d(2023, 2, 2)));
    assert_eq!(ts[0].description, "Coffee shop");
    assert_eq!(ts[0].amount, -350);

    let out = render_transactions(&ts, None, &config.base_account, "\u{20ac}").unwrap();
    assert!(out.starts_with("2023-02-01 * Coffee shop"));
    assert!(out.contains("Assets:Checking"));
    assert!(out.contains("-3.50\u{20ac}"));
}

#[test]
fn grid_decode_fails_on_a_non_numeric_amount() {
    let config = santander_like_config();
    let grid = Grid {
        rows: vec![
            text_row(&["junk"]),
            text_row(&["junk"]),
            text_row(&["slot"]),
            text_row(&["01/02/2023", "02/02/2023", "Good", "-3.50", ""]),
            text_row(&["01/02/2023", "02/02/2023", "Bad", "not a number", ""]),
        ],
    };
    let r = ExcelBankStatement::parse_transactions(grid, &config, false, d(2000, 1, 1));
    assert_eq!(r, Err(BetlError::Decode(1)));
}

#[test]
fn grid_decode_accepts_native_dates_and_numeric_amounts() {
    let config = santander_like_config();
    let grid = Grid {
        rows: vec![
            text_row(&["junk"]),
            text_row(&["junk"]),
            text_row(&["slot"]),
            vec![
                RawCell::Date(d(2022, 3, 4)),
                RawCell::Empty,
                RawCell::Number(7),
                RawCell::Number(-1234),
                RawCell::Empty,
            ],
        ],
    };
    let default = d(2001, 6, 7);
    let ts = ExcelBankStatement::parse_transactions(grid, &config, false, default).unwrap();
    assert_eq!(ts[0].operation_date, Some(d(2022, 3, 4)));
    // The empty value-date cell falls back to the default date.
    assert_eq!(ts[0].value_date, Some(default));
    // A non-text description decodes as empty text.
    assert_eq!(ts[0].description, "");
    assert_eq!(ts[0].amount, -1234);
}

#[test]
fn normalize_reverses_on_request_only() {
    let ts = vec![tx("a", 1), tx("b", 2), tx("c", 3)];
    let kept = normalize(ts.clone(), false);
    assert_eq!(kept, ts);
    let rev = normalize(ts.clone(), true);
    assert_eq!(rev[0].description, "c");
    assert_eq!(rev[2].description, "a");
    // Reversal is an involution.
    let back = normalize(normalize(ts.clone(), true), true);
    assert_eq!(back, ts);
}

fn revolut_headers_row() -> Vec<String> {
    string_row(&[
        "Type",
        "Product",
        "Started Date",
        "Completed Date",
        "Description",
        "Amount",
        "Fee",
        "Currency",
        "State",
        "Balance",
    ])
}

#[test]
fn delimited_decode_reads_by_field_name() {
    let headers = revolut_headers_row();
    let rows = vec![
        string_row(&[
            "CARD_PAYMENT",
            "Current",
            "2023-02-01 10:30:00",
            "2023-02-02 11:00:00",
            "Groceries",
            "-12.34",
            "0.00",
            "EUR",
            "COMPLETED",
            "87.66",
        ]),
        string_row(&[
            "TOPUP",
            "Current",
            "2023-02-03 09:00:00",
            "2023-02-03 09:00:00",
            "Top up",
            "100.00",
            "0.00",
            "EUR",
            "COMPLETED",
            "187.66",
        ]),
    ];
    let ts =
        RevolutBankStatement::parse_transactions(&headers, &rows, false, d(2000, 1, 1)).unwrap();
    assert_eq!(ts.len(), 2);
    assert_eq!(ts[0].operation_date, Some(d(2023, 2, 1)));
    assert_eq!(ts[0].value_date, Some(d(2023, 2, 2)));
    assert_eq!(ts[0].description, "Groceries");
    assert_eq!(ts[0].amount, -1234);
    assert_eq!(ts[1].amount, 10000);

    let rev =
        RevolutBankStatement::parse_transactions(&headers, &rows, true, d(2000, 1, 1)).unwrap();
    assert_eq!(rev[0].description, "Top up");
    assert_eq!(rev[1].description, "Groceries");
}

#[test]
fn delimited_decode_needs_the_field_columns() {
    let headers = string_row(&["Type", "Product", "Description", "Amount"]);
    let rows = vec![string_row(&["a", "b", "c", "1.00"])];
    let r = RevolutBankStatement::parse_transactions(&headers, &rows, false, d(2000, 1, 1));
    assert_eq!(r, Err(BetlError::SourceUnreadable));
}

#[test]
fn delimited_decode_fails_on_a_non_numeric_amount() {
    let headers = revolut_headers_row();
    let rows = vec![
        string_row(&["t", "p", "2023-02-01 10:30:00", "2023-02-01 10:30:00", "ok", "1.00", "", "", "", ""]),
        string_row(&["t", "p", "2023-02-01 10:30:00", "2023-02-01 10:30:00", "bad", "x", "", "", "", ""]),
    ];
    let r = RevolutBankStatement::parse_transactions(&headers, &rows, false, d(2000, 1, 1));
    assert_eq!(r, Err(BetlError::Decode(1)));
}

#[test]
fn delimited_conversion_defaults_malformed_dates() {
    let default = d(2000, 1, 1);
    let rec = RevolutTransaction {
        transaction_type: String::from("t"),
        product: String::from("p"),
        operation_date: String::from("not a date"),
        value_date: String::from("2023-05-06 01:02:03"),
        description: String::from("D"),
        amount: String::from("2.00"),
        fee: String::new(),
        currency: String::new(),
        state: String::new(),
        balance: String::new(),
    };
    let t = RevolutBankStatement::convert(&rec, default).unwrap();
    assert_eq!(t.operation_date, Some(default));
    assert_eq!(t.value_date, Some(d(2023, 5, 6)));
    assert_eq!(t.amount, 200);
}

fn maps(pairs: &[(&str, &str)]) -> Mappings {
    Mappings {
        mappings: pairs
            .iter()
            .map(|(p, l)| (String::from(*p), String::from(*l)))
            .collect(),
    }
}

#[test]
fn first_matching_mapping_wins() {
    let m = maps(&[("^A", "cat1"), ("A.*", "cat2")]);
    let block = build_transaction_string(&tx("ABC", -350), Some(&m), "Assets:Checking", "\u{20ac}")
        .unwrap();
    assert!(block.contains("cat1"));
    assert!(!block.contains("cat2"));
}

#[test]
fn category_match_is_a_substring_search() {
    let m = maps(&[("B", "found")]);
    assert_eq!(find_category(&m, "ABC").unwrap(), Some(String::from("found")));
    let m = maps(&[("^B", "found")]);
    assert_eq!(find_category(&m, "ABC").unwrap(), None);
}

#[test]
fn invalid_pattern_aborts_rendering() {
    let m = maps(&[("(", "broken")]);
    let r = build_transaction_string(&tx("ABC", 100), Some(&m), "Assets:Checking", "\u{20ac}");
    assert_eq!(r, Err(BetlError::Pattern(String::from("("))));
    let r = render_transactions(&vec![tx("ABC", 100)], Some(&m), "Assets:Checking", "\u{20ac}");
    assert_eq!(r, Err(BetlError::Pattern(String::from("("))));
}

#[test]
fn invalid_pattern_past_the_first_match_is_never_reached() {
    let m = maps(&[("^A", "cat1"), ("(", "broken")]);
    let block = build_transaction_string(&tx("ABC", 100), Some(&m), "Assets:Checking", "\u{20ac}")
        .unwrap();
    assert!(block.contains("cat1"));
}

#[test]
fn absent_mappings_render_without_category_lines() {
    let ts = vec![tx("Coffee shop", -350), tx("Salary", 200000)];
    let out = render_transactions(&ts, None, "Assets:Checking", "\u{20ac}").unwrap();
    assert_eq!(
        out,
        "2023-02-01 * Coffee shop\n    Assets:Checking               -3.50\u{20ac}\n\n\
         2023-02-01 * Salary\n    Assets:Checking               2000.00\u{20ac}\n\n"
    );
}

#[test]
fn no_matching_mapping_renders_without_a_category_line() {
    let m = maps(&[("^Z", "never")]);
    let block = build_transaction_string(&tx("Coffee shop", -350), Some(&m), "Acct", "\u{20ac}")
        .unwrap();
    assert_eq!(block, "2023-02-01 * Coffee shop\n    Acct               -3.50\u{20ac}\n\n");
}

#[test]
fn rendered_blocks_are_separated_by_one_blank_line() {
    let m = maps(&[("Coffee", "Expenses:Coffee")]);
    let ts = vec![tx("Coffee shop", -350)];
    let out = render_transactions(&ts, Some(&m), "Assets:Checking", "\u{20ac}").unwrap();
    assert_eq!(
        out,
        "2023-02-01 * Coffee shop\n    Assets:Checking               -3.50\u{20ac}\n    Expenses:Coffee\n\n"
    );
}
