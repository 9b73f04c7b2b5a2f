use lading::cli::{default_config_path, parse_key_values};

fn pairs(input: &str) -> Option<Vec<(String, String)>> {
    parse_key_values(input.as_bytes()).map(|v| {
        v.into_iter()
            .map(|(k, val)| {
                (String::from_utf8(k).unwrap(), String::from_utf8(val).unwrap())
            })
            .collect()
    })
}

#[test]
fn the_default_config_path_is_fixed() {
    assert_eq!(default_config_path(), "/etc/lading/lading.yaml");
}

#[test]
fn well_formed_lists_parse_in_order() {
    assert_eq!(
        pairs("a=b,c=d").unwrap(),
        vec![("a".to_string(), "b".to_string()), ("c".to_string(), "d".to_string())]
    );
}

#[test]
fn a_segment_without_equals_is_refused() {
    assert_eq!(None, pairs("a"));
    assert_eq!(None, pairs(""));
    assert_eq!(None, pairs("a=b,c"));
}

#[test]
fn empty_keys_and_values_are_kept() {
    assert_eq!(pairs("a=").unwrap(), vec![("a".to_string(), "".to_string())]);
    assert_eq!(pairs("=x").unwrap(), vec![("".to_string(), "x".to_string())]);
}

#[test]
fn bytes_past_a_second_equals_are_dropped() {
    assert_eq!(pairs("a=b=c").unwrap(), vec![("a".to_string(), "b".to_string())]);
}
