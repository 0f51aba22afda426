use indigo_poy::json::{
    sort_json_keys, to_compact_text, JsonMember, JsonNumber, JsonValue,
};
use indigo_poy::verify::bundle::normalize_for_hash;

/// The same document in the library's type and in serde_json's.
fn both(depth: u32, seed: &mut u64) -> (JsonValue, serde_json::Value) {
    *seed = seed.wrapping_mul(6364136223846793005).wrapping_add(1442695040888963407);
    let pick = (*seed >> 33) % if depth == 0 { 5 } else { 7 };
    match pick {
        0 => (JsonValue::Null, serde_json::Value::Null),
        1 => {
            let b = *seed & 1 == 0;
            (JsonValue::Bool(b), serde_json::Value::Bool(b))
        }
        2 => {
            let n = *seed >> 7;
            (JsonValue::number(n), serde_json::Value::from(n))
        }
        3 => {
            let n = -((*seed >> 20) as i64);
            (JsonValue::signed(n), serde_json::Value::from(n))
        }
        4 => {
            let s = text(seed);
            (JsonValue::text(&s), serde_json::Value::String(s))
        }
        5 => {
            let n = (*seed >> 40) % 4;
            let mut a = Vec::new();
            let mut b = Vec::new();
            for _ in 0..n {
                let (x, y) = both(depth - 1, seed);
                a.push(x);
                b.push(y);
            }
            (JsonValue::array(a), serde_json::Value::Array(b))
        }
        _ => {
            let n = (*seed >> 40) % 5;
            let mut a: Vec<JsonMember> = Vec::new();
            let mut b = serde_json::Map::new();
            for _ in 0..n {
                let key = text(seed);
                if b.contains_key(&key) {
                    continue;
                }
                let (x, y) = both(depth - 1, seed);
                a.push(JsonMember { key: key.clone(), value: x });
                b.insert(key, y);
            }
            (JsonValue::object(a), serde_json::Value::Object(b))
        }
    }
}

fn text(seed: &mut u64) -> String {
    let alphabet = [
        "a", "b", "Z", "0", " ", "\"", "\\", "/", "\n", "\t", "\r", "\u{0}", "\u{1f}", "\u{7f}",
        "é", "€", "\u{10348}", "<", "&",
    ];
    let mut out = String::new();
    *seed = seed.wrapping_mul(6364136223846793005).wrapping_add(1442695040888963407);
    let len = (*seed >> 50) % 6;
    for i in 0..len {
        let at = ((*seed >> (5 * i + 3)) % alphabet.len() as u64) as usize;
        out.push_str(alphabet[at]);
    }
    out
}

#[test]
fn canonical_text_is_what_serde_json_writes_for_a_sorted_map() {
    // serde_json keeps the members of an object ordered by key and writes
    // them without whitespace: the canonical text must be the same text
    let mut seed = 42u64;
    for _ in 0..400 {
        let (mine, theirs) = both(3, &mut seed);
        assert_eq!(normalize_for_hash(&mine).unwrap(), serde_json::to_string(&theirs).unwrap());
        // sorting twice changes nothing
        let once = sort_json_keys(&mine);
        let twice = sort_json_keys(&once);
        assert_eq!(to_compact_text(&once), to_compact_text(&twice));
    }
}

#[test]
fn numbers_are_written_in_decimal() {
    assert_eq!(to_compact_text(&JsonValue::number(0)), "0");
    assert_eq!(to_compact_text(&JsonValue::number(10)), "10");
    assert_eq!(to_compact_text(&JsonValue::number(u64::MAX)), "18446744073709551615");
    assert_eq!(to_compact_text(&JsonValue::signed(0)), "0");
    assert_eq!(to_compact_text(&JsonValue::signed(i64::MAX)), "9223372036854775807");
    assert_eq!(to_compact_text(&JsonValue::signed(-1)), "-1");
    assert_eq!(to_compact_text(&JsonValue::signed(i64::MIN)), "-9223372036854775808");
    assert_eq!(
        to_compact_text(&JsonValue::Number(JsonNumber::Literal("-0.25".to_string()))),
        "-0.25"
    );
    assert_eq!(to_compact_text(&JsonValue::opt_number(None)), "null");
    assert_eq!(to_compact_text(&JsonValue::opt_number(Some(7))), "7");
    assert_eq!(to_compact_text(&JsonValue::opt_text(&None)), "null");
    assert_eq!(to_compact_text(&JsonValue::opt_text(&Some("x".to_string()))), "\"x\"");
    assert_eq!(
        to_compact_text(&JsonValue::texts(&vec!["a".to_string(), "b".to_string()])),
        r#"["a","b"]"#
    );
    assert_eq!(to_compact_text(&JsonValue::numbers(&vec![1, 2, 3])), "[1,2,3]");
}

#[test]
fn clone_copies_the_whole_document() {
    let mut seed = 7u64;
    for _ in 0..50 {
        let (mine, _) = both(3, &mut seed);
        assert_eq!(to_compact_text(&mine.clone()), to_compact_text(&mine));
    }
}

#[test]
fn integers_are_written_as_serde_json_writes_them() {
    for n in [0u64, 1, 9, 10, 99, 100, 1 << 32, 1 << 53, (1 << 63) - 1, 1 << 63, u64::MAX] {
        assert_eq!(
            to_compact_text(&JsonValue::number(n)),
            serde_json::to_string(&serde_json::Value::from(n)).unwrap()
        );
    }
    for n in [0i64, 1, -1, -9, -10, 1 << 53, -(1 << 53), i64::MAX, i64::MIN, i64::MIN + 1] {
        assert_eq!(
            to_compact_text(&JsonValue::signed(n)),
            serde_json::to_string(&serde_json::Value::from(n)).unwrap()
        );
    }
}
