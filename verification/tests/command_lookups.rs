use flexpart_gpu::config::{
    extract_timestamp, get_first, parse_optional_string, parse_optional_u32, parse_optional_u64,
    parse_required_u32, ConfigError,
};
use flexpart_gpu::namelist::parse_assignments;

fn map(text: &str) -> flexpart_gpu::namelist::ConfigMap {
    parse_assignments(&text.chars().collect::<Vec<char>>()).expect("assignments")
}

#[test]
fn first_present_key_wins() {
    let m = map("b=2, c=3");
    assert_eq!(get_first(&m, &["a", "c", "b"]).map(String::as_str), Some("3"));
    assert_eq!(get_first(&m, &["x"]), None);
    assert_eq!(parse_optional_string(&map("n=' id '"), &["n"]), Some("id".to_string()));
}

#[test]
fn unsigned_values_are_parsed_exactly() {
    let m = map("a=+42, b=4294967296, c=18446744073709551615, d=1e3, e=-1");
    assert_eq!(parse_optional_u64(&m, "ctx", &["a"]).ok(), Some(Some(42)));
    assert_eq!(parse_optional_u64(&m, "ctx", &["c"]).ok(), Some(Some(u64::MAX)));
    assert_eq!(parse_optional_u64(&m, "ctx", &["z"]).ok(), Some(None));
    assert_eq!(parse_optional_u32(&m, "ctx", &["a"]).ok(), Some(Some(42)));
    match parse_optional_u32(&m, "ctx", &["b"]) {
        Err(ConfigError::InvalidValue { context, key, value, message }) => {
            assert_eq!(context, "ctx");
            assert_eq!(key, "b");
            assert_eq!(value, "4294967296");
            assert_eq!(message, "expected unsigned integer");
        }
        _ => panic!("u32 overflow must be refused"),
    }
    assert!(parse_optional_u64(&m, "ctx", &["d"]).is_err());
    assert!(parse_optional_u64(&m, "ctx", &["e"]).is_err());
    match parse_required_u32(&m, "grid", &["nx", "cols"]) {
        Err(ConfigError::MissingKey { context, key }) => {
            assert_eq!(context, "grid");
            assert_eq!(key, "nx");
        }
        _ => panic!("missing key must be refused"),
    }
}

#[test]
fn date_and_time_keys_combine() {
    let m = map("ibdate=20240101, ibtime=0630");
    assert_eq!(
        extract_timestamp(&m, "c", &["start"], Some(("ibdate", "ibtime"))).ok(),
        Some("20240101063000".to_string())
    );
    let d = map("ibdate=20240101");
    assert_eq!(
        extract_timestamp(&d, "c", &["start"], Some(("ibdate", "ibtime"))).ok(),
        Some("20240101000000".to_string())
    );
    match extract_timestamp(&d, "c", &["start"], None) {
        Err(e) => assert_eq!(e.to_message(), "missing key `start` in c"),
        Ok(_) => panic!("no direct key and no pair"),
    }
}

#[test]
fn error_messages_follow_the_documented_format() {
    assert_eq!(
        ConfigError::MissingPath { path: "/x".to_string() }.to_message(),
        "missing configuration path: /x"
    );
    assert_eq!(
        ConfigError::ReadFile { path: "/x".to_string(), message: "denied".to_string() }
            .to_message(),
        "failed to read `/x`: denied"
    );
    assert_eq!(
        ConfigError::Validation { message: "m".to_string() }.to_message(),
        "validation error: m"
    );
}
