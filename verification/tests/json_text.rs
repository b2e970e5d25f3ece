use e2e_test_framework::json::{parse_json, to_bytes, to_value};

#[test]
fn different_values_have_different_texts() {
    let values = [
        "null", "true", "false", "0", "1", "-1", "1.0", "-1.0", "0.0", "-0.0", "0.1", "1e16", "1e300",
        "18446744073709551615", "18446744073709551616", "9007199254740993.0",
        "0.30000000000000004", "0.3", "5e-324", "\"\"", "\"1\"", "\"null\"", "\"\\\"\"", "\"\\\\\"",
        "\"\\n\"", "\"\\\\n\"", "[]", "[[]]", "[1]", "[1,1]", "[\"1\"]", "[\"1,1\"]", "{}",
        "{\"a\":1}", "{\"a\":\"1\"}", "{\"a\":1,\"b\":2}", "{\"a\":{\"b\":2}}", "{\"a\\\":1\":1}",
    ];
    let mut texts: Vec<Vec<u8>> = Vec::new();
    for text in values {
        let json = parse_json(text).unwrap();
        let bytes = to_bytes(&json);
        assert!(!bytes.contains(&b'\n'), "{text}");
        assert!(!texts.contains(&bytes), "{text}");
        let read = parse_json(std::str::from_utf8(&bytes).unwrap()).unwrap();
        assert_eq!(to_value(&read), to_value(&json), "{text}");
        texts.push(bytes);
    }
}
