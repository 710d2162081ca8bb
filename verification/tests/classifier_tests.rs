use investec_buckets::classifier::{AttemptOutcome, BucketClassifier, Strategy};
use investec_buckets::config::{
    BucketsConfig, Config, DatabaseConfig, GeminiConfig, GoogleSearchConfig, InvestecConfig,
    OllamaConfig,
};
use investec_buckets::models::Transaction;

fn create_test_config() -> Config {
    Config {
        investec: InvestecConfig {
            x_api_key: "test".to_string(),
            client_id: "test".to_string(),
            client_secret: "test".to_string(),
        },
        google_search: GoogleSearchConfig {
            api_key: Some("test".to_string()),
            engine_id: Some("test".to_string()),
        },
        gemini: GeminiConfig {
            api_key: Some("test".to_string()),
            model: Some("test".to_string()),
        },
        ollama: OllamaConfig {
            model: Some("test".to_string()),
            host: None,
            port: None,
        },
        city: Some("cape town".to_string()),
        database: DatabaseConfig {
            url: "sqlite://test.db".to_string(),
        },
        buckets: BucketsConfig {
            categories: vec![
                "Food".to_string(),
                "Transportation".to_string(),
                "Entertainment".to_string(),
                "Bills & Utilities".to_string(),
                "Healthcare".to_string(),
                "Income".to_string(),
                "Transfers".to_string(),
                "Other".to_string(),
            ],
        },
    }
}

fn tx(description: &str, amount_cents: i64, uuid: Option<&str>) -> Transaction {
    Transaction {
        account_id: "acc-1".to_string(),
        type_: "DEBIT".to_string(),
        transaction_type: None,
        status: "POSTED".to_string(),
        description: description.to_string(),
        card_number: None,
        posted_order: None,
        posting_date: None,
        value_date: None,
        action_date: None,
        transaction_date: None,
        amount_cents,
        running_balance_cents: None,
        uuid: uuid.map(|u| u.to_string()),
    }
}

#[test]
fn test_find_best_bucket_match_exact() {
    let config = create_test_config();
    let classifier = BucketClassifier::new(Some("test".to_string()), &config);

    assert_eq!(classifier.find_best_bucket_match("Food").unwrap(), "Food");
}

#[test]
fn test_find_best_bucket_match_partial() {
    let config = create_test_config();
    let classifier = BucketClassifier::new(Some("test".to_string()), &config);

    assert_eq!(
        classifier
            .find_best_bucket_match("This is a food transaction")
            .unwrap(),
        "Food"
    );
}

#[test]
fn test_find_best_bucket_match_default() {
    let config = create_test_config();
    let classifier = BucketClassifier::new(Some("test".to_string()), &config);

    assert_eq!(
        classifier
            .find_best_bucket_match("Unknown category")
            .unwrap(),
        "Other"
    );
}

#[test]
fn match_prefers_earliest_configured_bucket() {
    let mut config = create_test_config();
    config.buckets.categories = vec![
        "Transportation".to_string(),
        "Food".to_string(),
        "Other".to_string(),
    ];
    let classifier = BucketClassifier::new(Some("test".to_string()), &config);
    assert_eq!(
        classifier
            .find_best_bucket_match("This looks like Food to me but could be Transportation")
            .unwrap(),
        "Transportation"
    );
}

#[test]
fn match_is_case_insensitive() {
    let config = create_test_config();
    let classifier = BucketClassifier::new(Some("test".to_string()), &config);
    assert_eq!(classifier.find_best_bucket_match("FOOD").unwrap(), "Food");
    assert_eq!(
        classifier.find_best_bucket_match("INCOME received").unwrap(),
        "Income"
    );
}

#[test]
fn match_word_pass_after_substring_pass() {
    let mut config = create_test_config();
    config.buckets.categories = vec![
        "Bills & Utilities".to_string(),
        "Other".to_string(),
    ];
    let classifier = BucketClassifier::new(Some("test".to_string()), &config);
    // No bucket name is a substring, but "utilities" is a shared word.
    assert_eq!(
        classifier
            .find_best_bucket_match("utilities probably")
            .unwrap(),
        "Bills & Utilities"
    );
}

#[test]
fn match_determinism_same_inputs_same_result() {
    let config = create_test_config();
    let classifier = BucketClassifier::new(Some("test".to_string()), &config);
    let a = classifier
        .find_best_bucket_match("some food reply")
        .unwrap();
    let b = classifier
        .find_best_bucket_match("some food reply")
        .unwrap();
    assert_eq!(a, b);
}

#[test]
fn classify_returns_configured_bucket_or_other() {
    let config = create_test_config();
    let classifier = BucketClassifier::new(Some("test".to_string()), &config);
    let outcomes = vec![
        AttemptOutcome::Failed,
        AttemptOutcome::Reply("I don't know".to_string()),
    ];
    let bucket = classifier.classify_from_attempts(&outcomes);
    assert_eq!(bucket, "Other");
    assert!(classifier.buckets.contains(&bucket));
}

#[test]
fn fallback_second_strategy_wins_when_first_returns_other() {
    let config = create_test_config();
    let classifier = BucketClassifier::new(Some("test".to_string()), &config);
    let outcomes = vec![
        AttemptOutcome::Reply("Other".to_string()),
        AttemptOutcome::Reply("Food".to_string()),
    ];
    assert_eq!(classifier.classify_from_attempts(&outcomes), "Food");
}

#[test]
fn fallback_first_strategy_short_circuits() {
    let config = create_test_config();
    let classifier = BucketClassifier::new(Some("test".to_string()), &config);
    // The first reply already resolves, so nothing later can change the answer.
    let step = classifier.classify_step(&AttemptOutcome::Reply("Food".to_string()));
    assert_eq!(step.unwrap(), "Food");
    let outcomes = vec![
        AttemptOutcome::Reply("Food".to_string()),
        AttemptOutcome::Reply("Transportation".to_string()),
    ];
    assert_eq!(classifier.classify_from_attempts(&outcomes), "Food");
}

#[test]
fn fallback_errors_are_swallowed() {
    let config = create_test_config();
    let classifier = BucketClassifier::new(Some("test".to_string()), &config);
    let outcomes = vec![
        AttemptOutcome::Failed,
        AttemptOutcome::Reply("Food".to_string()),
    ];
    assert_eq!(classifier.classify_from_attempts(&outcomes), "Food");
}

#[test]
fn strategies_follow_configured_capabilities() {
    let config = create_test_config();
    let all = BucketClassifier::new(Some("test".to_string()), &config);
    assert_eq!(
        all.strategies(),
        vec![
            Strategy::LlmABuiltinSearch,
            Strategy::LlmBWithExternalSearch,
            Strategy::LlmBOnly
        ]
    );

    let mut ollama_only = create_test_config();
    ollama_only.gemini.api_key = None;
    ollama_only.gemini.model = None;
    ollama_only.google_search.api_key = None;
    ollama_only.google_search.engine_id = None;
    let c = BucketClassifier::new(Some("test".to_string()), &ollama_only);
    assert_eq!(c.strategies(), vec![Strategy::LlmBOnly]);

    let c_none = BucketClassifier::new(None, &ollama_only);
    assert_eq!(c_none.strategies(), vec![]);
}

#[test]
fn search_query_lowercases_and_appends_city() {
    let config = create_test_config();
    let classifier = BucketClassifier::new(Some("test".to_string()), &config);
    assert_eq!(
        classifier.generate_search_query("STARBUCKS Coffee"),
        "what is starbucks coffee business in cape town"
    );

    let mut no_city = create_test_config();
    no_city.city = None;
    let classifier = BucketClassifier::new(Some("test".to_string()), &no_city);
    assert_eq!(
        classifier.generate_search_query("STARBUCKS Coffee"),
        "what is starbucks coffee business"
    );
}

#[test]
fn classification_prompt_without_context() {
    let mut config = create_test_config();
    config.buckets.categories = vec!["Food".to_string(), "Other".to_string()];
    let classifier = BucketClassifier::new(Some("test".to_string()), &config);
    let t = tx("STARBUCKS COFFEE", -550, Some("a"));
    let expected = "Classify this transaction into one of these buckets: Food, Other\n\n\
                    Transaction: STARBUCKS COFFEE\n\
                    Amount: -5.50\n\n\
                    IMPORTANT: You MUST perform a web search to get current information about what this transaction represents.\n\
                    Use the search results to understand the business/merchant and make an informed classification.\n\
                    Return only the bucket name, nothing else:";
    assert_eq!(classifier.create_classification_prompt(&t, None), expected);
}

#[test]
fn classification_prompt_with_context() {
    let mut config = create_test_config();
    config.buckets.categories = vec!["Food".to_string(), "Other".to_string()];
    let classifier = BucketClassifier::new(Some("test".to_string()), &config);
    let t = tx("STARBUCKS COFFEE", -550, Some("a"));
    let expected = "Classify this transaction into one of these buckets: Food, Other\n\n\
                    Transaction: STARBUCKS COFFEE\n\
                    Amount: -5.50\n\n\
                    Search results for context:\nsome context\n\n\
                    Based on the transaction description and search results, which bucket does this belong to?\n\
                    Return only the bucket name, nothing else:";
    assert_eq!(
        classifier.create_classification_prompt(&t, Some("some context")),
        expected
    );
}

#[test]
fn ollama_only_prompt_shape() {
    let mut config = create_test_config();
    config.buckets.categories = vec!["Food".to_string(), "Other".to_string()];
    let classifier = BucketClassifier::new(Some("test".to_string()), &config);
    let t = tx("MYSTERY XYZ", -100, Some("b"));
    let expected = "Classify this transaction: 'MYSTERY XYZ'\n\
                    Amount: -1.00\n\n\
                    Buckets: Food, Other\n\n\
                    Based on the description, which bucket does this belong to?\n\
                    Return only the bucket name:";
    assert_eq!(classifier.create_ollama_only_prompt(&t), expected);
}

#[test]
fn process_response_rejects_terminal_bucket() {
    let config = create_test_config();
    let classifier = BucketClassifier::new(Some("test".to_string()), &config);
    let err = match classifier.process_classification_response("no idea at all") {
        Err(e) => e,
        Ok(b) => panic!("unexpected bucket {}", b),
    };
    assert_eq!(err.message(), "Classification returned 'Other' bucket");
    assert_eq!(
        classifier
            .process_classification_response("clearly food")
            .unwrap(),
        "Food"
    );
}
