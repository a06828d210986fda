use jupiter::input_sanitizer::{DatabaseInputValidator, InputSanitizer, ValidationError};

const SQL_INJECTION_PAYLOADS: &[&str] = &[
    "'; DROP TABLE weather_reports;--",
    "' OR '1'='1",
    "'; DELETE FROM weather_reports WHERE '1'='1';--",
    "' UNION SELECT * FROM users--",
    "admin'--",
    "' OR 1=1--",
    "'; EXEC xp_cmdshell('cmd.exe');--",
    "\\'; DROP TABLE weather_reports;--",
    "1' AND 1=1 UNION ALL SELECT 1,NULL,'<script>alert(\"XSS\")</script>',table_name FROM information_schema.tables WHERE 2>1--",
    "' OR EXISTS(SELECT * FROM weather_reports WHERE oid LIKE '%",
];

const VALID_COLUMNS: &[&str] = &["id", "timestamp", "temperature", "humidity", "oid"];

fn validate_oid_parameter_safety(oid: &str) -> bool {
    !InputSanitizer::validate_oid(oid)
}

fn validate_combo_oid_safety(oid: &str) -> bool {
    DatabaseInputValidator::validate_query_params(Some(oid), None, None, None, VALID_COLUMNS).is_err()
}

fn is_valid_order_column(column: &str) -> bool {
    InputSanitizer::validate_order_column(column, VALID_COLUMNS)
}

fn validate_oid_escaping(oid: &str) -> bool {
    let escaped = InputSanitizer::escape_string(oid);
    let chars: Vec<char> = escaped.chars().collect();
    let mut i = 0;
    while i < chars.len() {
        if chars[i] == '\\' {
            i += 2;
        } else if chars[i] == '\'' || chars[i] == '"' {
            return false;
        } else {
            i += 1;
        }
    }
    true
}

fn build_secure_query_with_oid(_oid: &str) -> String {
    format!("SELECT * FROM weather_reports WHERE oid = $1")
}

fn generate_fuzz_inputs(count: usize) -> Vec<String> {
    let mut inputs = Vec::new();
    inputs.push(String::new());
    inputs.push("a".repeat(1000));
    inputs.push("\0\0\0".to_string());
    inputs.push("🔥💀☠️".to_string());
    for i in 0..count - 4 {
        inputs.push(format!("fuzz_test_{}", i));
    }
    inputs
}

fn test_oid_safety(input: &str) -> bool {
    let accepted = InputSanitizer::validate_oid(input);
    let plain = input.chars().all(|c| c.is_alphanumeric() || c == '_' || c == '-');
    accepted == (!input.is_empty() && input.len() <= 255 && plain)
}

#[test]
fn test_validate_oid() {
    assert!(InputSanitizer::validate_oid("abc123"));
    assert!(InputSanitizer::validate_oid("test_oid_123"));
    assert!(InputSanitizer::validate_oid("uuid-1234-5678"));

    assert!(!InputSanitizer::validate_oid(""));
    assert!(!InputSanitizer::validate_oid("a".repeat(256).as_str()));
    assert!(!InputSanitizer::validate_oid("test'; DROP TABLE--"));
    assert!(!InputSanitizer::validate_oid("test/*comment*/"));
}

#[test]
fn test_check_for_sql_keywords() {
    assert!(InputSanitizer::check_for_sql_keywords("normal_text"));
    assert!(InputSanitizer::check_for_sql_keywords("user123"));

    assert!(!InputSanitizer::check_for_sql_keywords("DROP TABLE users"));
    assert!(!InputSanitizer::check_for_sql_keywords("'; DELETE FROM--"));
    assert!(!InputSanitizer::check_for_sql_keywords("UNION SELECT * FROM"));
}

#[test]
fn test_validate_limit() {
    assert!(InputSanitizer::validate_limit(10).is_ok());
    assert!(InputSanitizer::validate_limit(100).is_ok());
    assert!(InputSanitizer::validate_limit(1000).is_ok());

    assert!(InputSanitizer::validate_limit(0).is_err());
    assert!(InputSanitizer::validate_limit(1001).is_err());
}

#[test]
fn test_escape_string() {
    assert_eq!(InputSanitizer::escape_string("normal"), "normal");
    assert_eq!(InputSanitizer::escape_string("test'quote"), "test\\'quote");
    assert_eq!(InputSanitizer::escape_string("test\"quote"), "test\\\"quote");
    assert_eq!(InputSanitizer::escape_string("test\nline"), "test\\nline");
}

#[test]
fn test_homebrew_select_by_oid_prevents_injection() {
    for payload in SQL_INJECTION_PAYLOADS {
        let result = validate_oid_parameter_safety(payload);
        assert!(result, "Failed to safely handle payload: {}", payload);
    }
}

#[test]
fn test_combo_select_by_oid_prevents_injection() {
    for payload in SQL_INJECTION_PAYLOADS {
        let result = validate_combo_oid_safety(payload);
        assert!(result, "Combo provider failed to handle payload: {}", payload);
    }
}

#[test]
fn test_order_by_whitelist_validation() {
    let valid_columns = vec!["id", "timestamp", "temperature", "humidity", "oid"];
    let invalid_columns = vec![
        "id; DROP TABLE--",
        "timestamp UNION SELECT * FROM users",
        "(SELECT * FROM passwords)",
    ];

    for col in valid_columns {
        assert!(is_valid_order_column(col), "Valid column rejected: {}", col);
    }

    for col in invalid_columns {
        assert!(!is_valid_order_column(col), "Invalid column accepted: {}", col);
    }
}

#[test]
fn test_special_characters_in_oid() {
    let special_oids = vec![
        "test'oid",
        "test\"oid",
        "test;oid",
        "test--oid",
        "test/*comment*/oid",
        "test\\oid",
    ];

    for oid in special_oids {
        let result = validate_oid_escaping(oid);
        assert!(result, "Failed to handle special character in: {}", oid);
    }
}

#[test]
fn test_parameterized_query_construction() {
    let query = build_secure_query_with_oid("test_oid");
    assert!(query.contains("$1"), "Query should use parameter placeholder");
    assert!(!query.contains("test_oid"), "Query should not contain literal value");
}

#[test]
fn test_fuzz_oid_parameter() {
    let fuzz_inputs = generate_fuzz_inputs(100);

    for input in fuzz_inputs {
        let result = test_oid_safety(&input);
        assert!(result, "Fuzz input caused issue: {:?}", input);
    }
}

#[test]
fn escape_string_handles_every_special_character() {
    assert_eq!(InputSanitizer::escape_string("a\\b"), "a\\\\b");
    assert_eq!(InputSanitizer::escape_string("a\0b"), "a\\0b");
    assert_eq!(InputSanitizer::escape_string("a\rb"), "a\\rb");
    assert_eq!(InputSanitizer::escape_string("a\x1ab"), "a\\Zb");
    assert_eq!(InputSanitizer::escape_string(""), "");
}

#[test]
fn validate_oid_counts_bytes() {
    assert!(InputSanitizer::validate_oid("a".repeat(255).as_str()));
    // 128 two-byte letters: 128 characters but 256 bytes
    assert!(!InputSanitizer::validate_oid("é".repeat(128).as_str()));
    assert!(InputSanitizer::validate_oid("é".repeat(127).as_str()));
}

#[test]
fn keywords_are_found_after_upper_casing() {
    assert!(!InputSanitizer::check_for_sql_keywords("drop table"));
    assert!(!InputSanitizer::check_for_sql_keywords("select"));
    assert!(!InputSanitizer::check_for_sql_keywords("dropped"));
    assert!(InputSanitizer::check_for_sql_keywords("weather_42"));
    assert!(InputSanitizer::upper_text_is_clean("DROPPED".replace("DROP", "DRO P").as_str()));
    assert!(!InputSanitizer::upper_text_is_clean("A--B"));
}

#[test]
fn validate_offset_bounds() {
    assert_eq!(InputSanitizer::validate_offset(0).unwrap(), 0);
    assert_eq!(InputSanitizer::validate_offset(100000).unwrap(), 100000);
    match InputSanitizer::validate_offset(100001) {
        Err(ValidationError::InvalidOffset(m)) => assert_eq!(m, "Offset cannot exceed 100000"),
        other => panic!("unexpected {:?}", other),
    }
}

#[test]
fn validate_limit_messages() {
    match InputSanitizer::validate_limit(0) {
        Err(ValidationError::InvalidLimit(m)) => assert_eq!(m, "Limit must be greater than 0"),
        other => panic!("unexpected {:?}", other),
    }
    match InputSanitizer::validate_limit(1001) {
        Err(e) => assert_eq!(e.message(), "Invalid limit: Limit cannot exceed 1000"),
        Ok(_) => panic!("limit accepted"),
    }
}

#[test]
fn sanitize_numeric_parses_decimal_integers() {
    assert_eq!(InputSanitizer::sanitize_numeric("42").unwrap(), 42);
    assert_eq!(InputSanitizer::sanitize_numeric("-17").unwrap(), -17);
    assert_eq!(InputSanitizer::sanitize_numeric("+5").unwrap(), 5);
    assert_eq!(InputSanitizer::sanitize_numeric("-9223372036854775808").unwrap(), i64::MIN);
    assert!(InputSanitizer::sanitize_numeric("9223372036854775808").is_err());
    assert!(InputSanitizer::sanitize_numeric("").is_err());
    assert!(InputSanitizer::sanitize_numeric(" 1").is_err());
    match InputSanitizer::sanitize_numeric("abc") {
        Err(ValidationError::InvalidNumeric(m)) => assert_eq!(m, "'abc' is not a valid number"),
        other => panic!("unexpected {:?}", other),
    }
}

#[test]
fn query_params_report_the_first_failure() {
    let ok = DatabaseInputValidator::validate_query_params(
        Some("abc_123"),
        Some("timestamp"),
        Some(10),
        Some(0),
        VALID_COLUMNS,
    );
    assert!(ok.is_ok());
    assert!(DatabaseInputValidator::validate_query_params(None, None, None, None, &[]).is_ok());

    match DatabaseInputValidator::validate_query_params(Some("bad oid"), Some("nope"), None, None, VALID_COLUMNS) {
        Err(ValidationError::InvalidOid(m)) => assert_eq!(m, "Invalid OID format: bad oid"),
        other => panic!("unexpected {:?}", other),
    }
    match DatabaseInputValidator::validate_query_params(Some("drop_it"), None, None, None, VALID_COLUMNS) {
        Err(ValidationError::SqlInjectionDetected(m)) => {
            assert_eq!(m, "Suspicious input detected in OID: drop_it")
        }
        other => panic!("unexpected {:?}", other),
    }
    match DatabaseInputValidator::validate_query_params(None, Some("nope"), Some(0), None, VALID_COLUMNS) {
        Err(ValidationError::InvalidColumn(m)) => assert_eq!(m, "Invalid order column: nope"),
        other => panic!("unexpected {:?}", other),
    }
    match DatabaseInputValidator::validate_query_params(None, None, Some(0), Some(200000), VALID_COLUMNS) {
        Err(ValidationError::InvalidLimit(_)) => {}
        other => panic!("unexpected {:?}", other),
    }
    match DatabaseInputValidator::validate_query_params(None, None, Some(5), Some(200000), VALID_COLUMNS) {
        Err(ValidationError::InvalidOffset(_)) => {}
        other => panic!("unexpected {:?}", other),
    }
}

#[test]
fn validation_error_messages() {
    assert_eq!(ValidationError::InvalidOid("x".to_string()).message(), "Invalid OID: x");
    assert_eq!(ValidationError::InvalidColumn("x".to_string()).message(), "Invalid column: x");
    assert_eq!(ValidationError::InvalidOffset("x".to_string()).message(), "Invalid offset: x");
    assert_eq!(
        ValidationError::InvalidNumeric("x".to_string()).message(),
        "Invalid numeric value: x"
    );
    assert_eq!(
        ValidationError::SqlInjectionDetected("x".to_string()).message(),
        "SQL injection attempt detected: x"
    );
}
