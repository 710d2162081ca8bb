use investec_buckets::bank::{
    balance_path, format_date, interpret_api_response, next_day, sync_window, sync_window_today,
    today_utc, transactions_path, ACCOUNTS_PATH, BASE_URL,
};
use investec_buckets::search::{
    format_search_results, search_url, summarize_search, GoogleSearchResponse, SearchItem,
};
use investec_buckets::text::{fmt_cents, parse_u16};

#[test]
fn api_paths_match_the_bank() {
    assert_eq!(BASE_URL, "https://openapi.investec.com");
    assert_eq!(ACCOUNTS_PATH, "za/pb/v1/accounts");
    assert_eq!(balance_path("abc123"), "za/pb/v1/accounts/abc123/balance");
    assert_eq!(
        transactions_path("abc123"),
        "za/pb/v1/accounts/abc123/transactions"
    );
}

#[test]
fn api_response_decision_on_status() {
    assert_eq!(
        interpret_api_response(200, "{\"data\":{}}".to_string()).unwrap(),
        "{\"data\":{}}"
    );
    let err = interpret_api_response(401, "invalid_client".to_string()).unwrap_err();
    assert_eq!(err.status, 401);
    assert_eq!(err.body, "invalid_client");
    assert!(interpret_api_response(500, String::new()).is_err());
}

#[test]
fn dates_format_zero_padded() {
    assert_eq!(format_date(2025, 9, 11), "2025-09-11");
    assert_eq!(format_date(998, 12, 1), "0998-12-01");
}

#[test]
fn next_day_handles_month_and_year_ends() {
    assert_eq!(next_day(2025, 9, 11), (2025, 9, 12));
    assert_eq!(next_day(2025, 9, 30), (2025, 10, 1));
    assert_eq!(next_day(2023, 12, 31), (2024, 1, 1));
    assert_eq!(next_day(2024, 2, 28), (2024, 2, 29));
    assert_eq!(next_day(2023, 2, 28), (2023, 3, 1));
    assert_eq!(next_day(2100, 2, 28), (2100, 3, 1));
    assert_eq!(next_day(2000, 2, 28), (2000, 2, 29));
}

#[test]
fn sync_window_is_today_to_tomorrow() {
    let (from, to) = sync_window(2025, 9, 11);
    assert_eq!(from, "2025-09-11");
    assert_eq!(to, "2025-09-12");
    let (from, to) = sync_window(2024, 12, 31);
    assert_eq!(from, "2024-12-31");
    assert_eq!(to, "2025-01-01");
}

#[test]
fn todays_window_is_well_formed() {
    let (_, m, d) = today_utc();
    assert!((1..=12).contains(&m));
    assert!((1..=31).contains(&d));
    let w = sync_window_today().unwrap();
    assert_eq!(w.0.len(), 10);
    assert_eq!(w.1.len(), 10);
    assert_eq!(&w.0[4..5], "-");
}

#[test]
fn amounts_render_with_two_decimals() {
    assert_eq!(fmt_cents(-550), "-5.50");
    assert_eq!(fmt_cents(-100), "-1.00");
    assert_eq!(fmt_cents(-5), "-0.05");
    assert_eq!(fmt_cents(0), "0.00");
    assert_eq!(fmt_cents(1234), "12.34");
    assert_eq!(fmt_cents(100000), "1000.00");
}

#[test]
fn ports_parse_like_std() {
    assert_eq!(parse_u16("11434"), Some(11434));
    assert_eq!(parse_u16("+80"), Some(80));
    assert_eq!(parse_u16("0"), Some(0));
    assert_eq!(parse_u16("65535"), Some(65535));
    assert_eq!(parse_u16("65536"), None);
    assert_eq!(parse_u16(""), None);
    assert_eq!(parse_u16("+"), None);
    assert_eq!(parse_u16("12a"), None);
    assert_eq!(parse_u16("-1"), None);
    assert_eq!(parse_u16(" 1"), None);
}

#[test]
fn search_url_percent_encodes_the_query() {
    let url = search_url("KEY", "ENGINE", "what is starbucks business");
    assert_eq!(
        url,
        "https://www.googleapis.com/customsearch/v1?key=KEY&cx=ENGINE&q=what%20is%20starbucks%20business&num=3"
    );
}

fn item(title: &str, link: &str, snippet: Option<&str>) -> SearchItem {
    SearchItem {
        title: title.to_string(),
        link: link.to_string(),
        snippet: snippet.map(|s| s.to_string()),
        html_snippet: None,
        display_link: None,
    }
}

#[test]
fn search_results_format_ranked_entries() {
    let items = vec![
        item("First", "https://one.example", Some("a snippet")),
        item("Second", "https://two.example", None),
    ];
    let expected = "1. First\n   a snippet\n   https://one.example\n\n\
                    2. Second\n   https://two.example\n\n";
    assert_eq!(format_search_results(&items), expected);
}

#[test]
fn search_summary_sentinels() {
    let no_items = GoogleSearchResponse { items: None };
    assert_eq!(
        summarize_search(&Some(no_items), "mystery xyz"),
        "No relevant information found for: mystery xyz"
    );
    let empty = GoogleSearchResponse {
        items: Some(vec![]),
    };
    assert_eq!(
        summarize_search(&Some(empty), "mystery xyz"),
        "No relevant information found for: mystery xyz"
    );
    assert_eq!(
        summarize_search(&None, "mystery xyz"),
        "Search completed for: mystery xyz"
    );
    let with = GoogleSearchResponse {
        items: Some(vec![item("First", "https://one.example", None)]),
    };
    assert_eq!(
        summarize_search(&Some(with), "mystery xyz"),
        "1. First\n   https://one.example\n\n"
    );
}
