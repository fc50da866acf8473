use kecs::path_map::{PathMap, PathSet};
use kecs::text::{compare_bytes, compare_keys, same_text, KeyOrder};

fn keys<V>(map: &PathMap<V>) -> Vec<String> {
    let mut keys = Vec::new();
    for i in 0..map.len() {
        keys.push(map.key_at(i).clone());
    }
    keys
}

fn paths(set: &PathSet) -> Vec<String> {
    let mut paths = Vec::new();
    for i in 0..set.len() {
        paths.push(set.path_at(i).clone());
    }
    paths
}

#[test]
fn keys_are_ordered_by_their_bytes() {
    assert_eq!(compare_keys("a", "b"), KeyOrder::Less);
    assert_eq!(compare_keys("b", "a"), KeyOrder::Greater);
    assert_eq!(compare_keys("a", "a"), KeyOrder::Equal);
    assert_eq!(compare_keys("", ""), KeyOrder::Equal);
    assert_eq!(compare_keys("", "a"), KeyOrder::Less);
    assert_eq!(compare_keys("a", "ab"), KeyOrder::Less);
    assert_eq!(compare_keys("ab", "a"), KeyOrder::Greater);
    assert_eq!(compare_keys("B", "a"), KeyOrder::Less);
    assert_eq!(compare_keys("a/b", "a.b"), KeyOrder::Greater);
    assert_eq!(compare_keys("z", "é"), KeyOrder::Less);
    assert_eq!(compare_keys("é", "日"), KeyOrder::Less);
}

#[test]
fn the_key_order_is_that_of_strings() {
    let samples = ["", "a", "A", "a/b", "a.b", "ab", "b", "é", "日本", "a\u{10000}", "~"];
    for a in samples {
        for b in samples {
            let expected = if a < b {
                KeyOrder::Less
            } else if a > b {
                KeyOrder::Greater
            } else {
                KeyOrder::Equal
            };
            assert_eq!(compare_keys(a, b), expected);
            assert_eq!(compare_bytes(a.as_bytes(), b.as_bytes()), expected);
            assert_eq!(same_text(a, b), a == b);
        }
    }
}

#[test]
fn a_new_map_is_empty() {
    let map: PathMap<u32> = PathMap::new();
    assert_eq!(map.len(), 0);
    assert!(map.is_empty());
    assert_eq!(map.get("a"), None);
    assert!(!map.contains_key(""));
    assert_eq!(map.search("a"), Err(0));
}

#[test]
fn a_map_holds_its_keys_in_order_whatever_the_order_of_insertion() {
    let mut map: PathMap<u32> = PathMap::new();
    for (i, key) in ["m", "c", "x", "a", "q", "b", "z", "n"].iter().enumerate() {
        map.insert(key.to_string(), i as u32);
    }
    assert_eq!(keys(&map), vec!["a", "b", "c", "m", "n", "q", "x", "z"]);
    assert_eq!(map.len(), 8);
    assert!(!map.is_empty());
    assert_eq!(map.get("a"), Some(&3));
    assert_eq!(map.get("z"), Some(&6));
    assert_eq!(map.get("m"), Some(&0));
    assert_eq!(map.get("d"), None);
    assert_eq!(*map.value_at(0), 3);
    assert_eq!(*map.value_at(7), 6);
}

#[test]
fn inserting_under_a_present_key_replaces_the_value() {
    let mut map: PathMap<&str> = PathMap::new();
    map.insert("k".to_string(), "first");
    map.insert("j".to_string(), "other");
    map.insert("k".to_string(), "second");
    assert_eq!(map.len(), 2);
    assert_eq!(map.get("k"), Some(&"second"));
    assert_eq!(map.get("j"), Some(&"other"));
    assert_eq!(keys(&map), vec!["j", "k"]);
}

#[test]
fn search_finds_the_index_or_the_place() {
    let mut map: PathMap<()> = PathMap::new();
    for key in ["b", "d", "f"] {
        map.insert(key.to_string(), ());
    }
    assert_eq!(map.search("b"), Ok(0));
    assert_eq!(map.search("d"), Ok(1));
    assert_eq!(map.search("f"), Ok(2));
    assert_eq!(map.search("a"), Err(0));
    assert_eq!(map.search("c"), Err(1));
    assert_eq!(map.search("e"), Err(2));
    assert_eq!(map.search("g"), Err(3));
}

#[test]
fn a_large_map_is_found_in() {
    let mut map: PathMap<usize> = PathMap::new();
    for i in 0..500usize {
        let n = (i * 7919) % 500;
        map.insert(format!("file-{:04}", n), n);
    }
    assert_eq!(map.len(), 500);
    for n in 0..500usize {
        assert_eq!(map.get(&format!("file-{:04}", n)), Some(&n));
        assert_eq!(map.key_at(n), &format!("file-{:04}", n));
    }
    assert_eq!(map.get("file-0500"), None);
}

#[test]
fn a_set_holds_each_path_once_and_in_order() {
    let mut set = PathSet::new();
    assert!(set.is_empty());
    assert_eq!(set.len(), 0);
    set.insert("b".to_string());
    set.insert("a".to_string());
    set.insert("b".to_string());
    set.insert("c/d".to_string());
    assert!(!set.is_empty());
    assert_eq!(set.len(), 3);
    assert_eq!(paths(&set), vec!["a", "b", "c/d"]);
    assert!(set.contains("a"));
    assert!(set.contains("c/d"));
    assert!(!set.contains("c"));
}
