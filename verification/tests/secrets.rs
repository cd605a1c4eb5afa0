use aili::secrets::{comes_before, escape_toml_string, merge_secret, read_secret, SECRETS_HEADER};
use std::collections::BTreeMap;

fn entries(pairs: &[(&str, &str)]) -> Vec<(String, String)> {
    pairs.iter().map(|(k, v)| (k.to_string(), v.to_string())).collect()
}

#[test]
fn merged_file_is_exact() {
    let current = entries(&[("Z", "1"), ("DEEPSEEK_API_KEY", "old"), ("A", "q\"b\\")]);
    assert_eq!(
        merge_secret(current, "new"),
        "# Aili secrets — chmod 600. Do not commit.\n[keys]\nA = \"q\\\"b\\\\\"\n\
         DEEPSEEK_API_KEY = \"new\"\nZ = \"1\"\n"
    );
    assert_eq!(merge_secret(Vec::new(), "k"), format!("{SECRETS_HEADER}DEEPSEEK_API_KEY = \"k\"\n"));
}

#[test]
fn merged_file_reads_back() {
    let current = entries(&[("OTHER", "a\\\"b"), ("ABC", "你好")]);
    let file = merge_secret(current, "sk-\"quoted\"\\");
    let parsed: toml::Value = toml::from_str(&file).unwrap();
    assert_eq!(parsed["keys"]["OTHER"].as_str(), Some("a\\\"b"));
    assert_eq!(parsed["keys"]["ABC"].as_str(), Some("你好"));
    assert_eq!(parsed["keys"]["DEEPSEEK_API_KEY"].as_str(), Some("sk-\"quoted\"\\"));
}

#[test]
fn secret_is_found_by_name() {
    let current = entries(&[("A", "1"), ("B", "2"), ("E", "")]);
    assert_eq!(read_secret(&current, "B"), Some("2".to_string()));
    assert_eq!(read_secret(&current, "C"), None);
}

#[test]
fn names_sort_as_in_a_btree_map() {
    let names = ["b", "a", "ab", "", "你", "é", "Z", "aa", "\u{10ffff}", "\u{ffff}"];
    for a in names {
        for b in names {
            assert_eq!(comes_before(a, b), a < b, "{a:?} {b:?}");
        }
    }
    let map: BTreeMap<String, String> =
        ["zeta", "alpha", "Mid"].iter().map(|k| (k.to_string(), "v".to_string())).collect();
    let mut expected = String::from(SECRETS_HEADER);
    let mut all = map.clone();
    all.insert("DEEPSEEK_API_KEY".to_string(), "k".to_string());
    for (k, v) in &all {
        expected.push_str(&format!("{k} = \"{v}\"\n"));
    }
    assert_eq!(merge_secret(map.into_iter().collect(), "k"), expected);
}

#[test]
fn escaping_marks_quotes_and_backslashes() {
    assert_eq!(escape_toml_string("a\"b\\c"), "a\\\"b\\\\c");
    assert_eq!(escape_toml_string(""), "");
}
