use drone_swarm::names::{copy_names, NameMap, NameSet};
use drone_swarm::text::{count_text, decimal_text, fixed_1e7_text, is_text, join_texts};

#[test]
fn decimals_match_the_standard_form() {
    for n in [0, 1, 9, 10, 11, 99, 100, 65535, 1_000_000_007, u64::MAX - 1, u64::MAX] {
        assert_eq!(decimal_text(n), format!("{}", n));
    }
    assert_eq!(count_text(usize::MAX), format!("{}", usize::MAX));
}

#[test]
fn fixed_point_degrees_match_the_float_form() {
    let mut samples: Vec<i32> = vec![
        0,
        1,
        -1,
        5,
        -5,
        9_999_999,
        10_000_000,
        -10_000_000,
        473_977_418,
        85_455_939,
        -1_223_999_999,
        1_800_000_000,
        i32::MAX,
        i32::MIN,
    ];
    let mut n: i32 = i32::MIN;
    for _ in 0..20_000 {
        n = n.wrapping_mul(1_103_515_245).wrapping_add(12_345);
        samples.push(n);
    }
    for n in samples {
        assert_eq!(fixed_1e7_text(n), format!("{:.7}", n as f64 / 1e7));
    }
}

#[test]
fn fixed_point_degrees_exactly() {
    assert_eq!(fixed_1e7_text(473_977_418), "47.3977418");
    assert_eq!(fixed_1e7_text(-5), "-0.0000005");
    assert_eq!(fixed_1e7_text(0), "0.0000000");
}

#[test]
fn texts_are_joined() {
    let parts: Vec<String> = vec!["a".to_string(), "".to_string(), "c".to_string()];
    assert_eq!(join_texts(&parts, "; "), "a; ; c");
    assert_eq!(join_texts(&parts, "; "), parts.join("; "));
    assert_eq!(join_texts(&vec!["x".to_string()], "; "), "x");
    assert_eq!(join_texts(&vec![], "; "), "");
}

#[test]
fn texts_are_compared() {
    assert!(is_text(&"all".to_string(), "all"));
    assert!(!is_text(&"all".to_string(), "al"));
    assert!(!is_text(&"".to_string(), "al"));
}

#[test]
fn names_are_sorted_as_strings_are() {
    let names: Vec<String> = [
        "b", "a", "", "B", "aa", "a", "\u{e9}", "z", "\u{10348}", "\u{ffff}", "a\u{0}", "10", "9",
    ]
    .iter()
    .map(|s| s.to_string())
    .collect();
    let set = NameSet::from_names(&names);
    let mut wanted = names.clone();
    wanted.sort();
    wanted.dedup();
    assert_eq!(set.to_names(), wanted);
    assert_eq!(set.len(), wanted.len());
    for name in &names {
        assert!(set.contains(name));
    }
    assert!(!set.contains("c"));
}

#[test]
fn name_maps_keep_the_last_value() {
    let mut map: NameMap<String> = NameMap::new();
    assert_eq!(map.len(), 0);
    assert!(map.get("a").is_none());
    map.insert("b".to_string(), "1".to_string());
    map.insert("a".to_string(), "2".to_string());
    map.insert("c".to_string(), "3".to_string());
    map.insert("b".to_string(), "4".to_string());
    assert_eq!(map.len(), 3);
    assert_eq!(map.get("a").map(|s| s.as_str()), Some("2"));
    assert_eq!(map.get("b").map(|s| s.as_str()), Some("4"));
    assert_eq!(map.get("c").map(|s| s.as_str()), Some("3"));
    assert!(map.contains_key("c"));
    assert!(!map.contains_key("d"));
    assert_eq!(map.keys().to_names(), vec!["a", "b", "c"]);
}

#[test]
fn copies_of_names_are_equal() {
    let names = vec!["x".to_string(), "a".to_string(), "x".to_string()];
    assert_eq!(copy_names(&names), names);
}
