use aether::bytes::{
    bytes_le, bytes_lt, contains_byte, copy_bytes, decode_i64, decode_u64, encode_i64,
    encode_u64, lex_order, starts_with, Order,
};
use aether::names::{find_fault, is_reserved, NameFault};
use aether::queue::{queue_item_key, queue_meta_key, queue_scan_prefix, QueueManager};
use aether::registry::{join_value, split_value, Entry, Registry};
use aether::sorted::{SortedMap, SortedSet};
use aether::text::{
    contains_text, ends_with, find_char, format_i64, format_u64, parse_number, same, strip_prefix,
    to_bytes, to_chars, to_hex, trim,
};

#[test]
fn integers_are_stored_big_endian() {
    for x in [0, 1, 255, 256, u64::MAX] {
        assert_eq!(encode_u64(x), x.to_be_bytes().to_vec());
        assert_eq!(decode_u64(&encode_u64(x)), x);
    }
    for x in [0, 1, -1, i64::MIN, i64::MAX] {
        assert_eq!(encode_i64(x), x.to_be_bytes().to_vec());
        assert_eq!(decode_i64(&encode_i64(x)), x);
    }
    assert!(encode_u64(2) < encode_u64(10));
}

#[test]
fn byte_strings_are_compared() {
    assert!(matches!(lex_order(b"a", b"ab"), Order::Less));
    assert!(matches!(lex_order(b"b", b"ab"), Order::Greater));
    assert!(matches!(lex_order(b"ab", b"ab"), Order::Equal));
    assert!(bytes_lt(b"", b"a") && !bytes_lt(b"a", b"a") && bytes_le(b"a", b"a"));
    assert!(starts_with(b"abc", b"ab") && !starts_with(b"a", b"ab"));
    assert!(contains_byte(b"abc", b'c') && !contains_byte(b"", 0));
    assert_eq!(aether::bytes::concat(b"ab", b"c"), b"abc");
    assert_eq!(copy_bytes(b"ab"), b"ab");
}

#[test]
fn texts_are_taken_apart() {
    assert_eq!(format_u64(0), "0");
    assert_eq!(format_u64(u64::MAX), u64::MAX.to_string());
    assert_eq!(format_i64(i64::MIN), i64::MIN.to_string());
    assert_eq!(format_i64(42), "42");
    assert!(same("a\u{e9}", "a\u{e9}") && !same("a", "b"));
    assert!(ends_with("a/b", "/b") && !ends_with("b", "/b"));
    assert_eq!(strip_prefix("Bearer x", "Bearer "), Some("x"));
    assert_eq!(strip_prefix("x", "Bearer "), None);
    assert_eq!(trim("\t a \u{3000}"), "a");
    assert_eq!(to_hex(&vec![0, 9, 10, 255, 0x5c]), "00090aff5c");
    assert_eq!(to_bytes("\u{e9}"), vec![0xc3, 0xa9]);
    assert!(contains_text(&vec!["a".to_string()], "a"));
    let number = |s: &str, max: u64| {
        let chars = to_chars(s);
        parse_number(&chars, 0, chars.len(), max)
    };
    assert_eq!(number("65535", 65535), Some(65535));
    assert_eq!(number("65536", 65535), None);
    assert_eq!(number("18446744073709551615", u64::MAX), Some(u64::MAX));
    assert_eq!(number("18446744073709551616", u64::MAX), None);
    assert_eq!(number("+7", 10), Some(7));
    assert_eq!(number("+", 10), None);
    assert_eq!(number("", 10), None);
    assert_eq!(number("1a", 100), None);
    assert_eq!(find_char(&to_chars("a:b:"), ':', 2), Some(3));
}

#[test]
fn names_are_checked() {
    assert!(find_fault(b"n", 4).is_none());
    assert!(matches!(find_fault(b"", 4), Some(NameFault::Empty)));
    assert!(matches!(find_fault(b"12345", 4), Some(NameFault::TooLong)));
    assert!(matches!(find_fault(b"a\0", 4), Some(NameFault::NullByte)));
    assert!(matches!(find_fault(b"_aether_", 20), Some(NameFault::Reserved)));
    assert!(is_reserved(b"_aether_x") && !is_reserved(b"aether"));
}

#[test]
fn sorted_collections_keep_their_order() {
    let mut map: SortedMap<Vec<u8>, u32> = SortedMap::new();
    assert!(map.insert(b"b".to_vec(), 2).is_none());
    map.insert(b"a".to_vec(), 1);
    assert_eq!(map.insert(b"b".to_vec(), 3), Some(2));
    assert_eq!((map.len(), map.key_at(0).as_slice(), *map.value_at(1)), (2, b"a".as_slice(), 3));
    assert_eq!(map.remove(b"a".as_slice()), Some(1));
    assert!(!map.contains_key(b"a".as_slice()));
    let mut set: SortedSet<i64> = SortedSet::new();
    for x in [3, -1, 3, 0] {
        set.insert(x);
    }
    let all: Vec<i64> = (0..set.len()).map(|i| *set.key_at(i)).collect();
    assert_eq!(all, vec![-1, 0, 3]);
    assert!(set.remove(&0) && !set.contains(&0));
}

#[test]
fn a_stored_value_is_a_lease_and_the_rest() {
    let value = join_value(-7, b"name");
    assert_eq!(split_value(&value), Some((-7, b"name".as_slice())));
    assert_eq!(split_value(&value[..7]), None);
    assert_eq!(split_value(&value[..8]), Some((-7, b"".as_slice())));
}

#[test]
fn releasing_undoes_acquiring() {
    let mut r = Registry::new();
    r.acquire(b"n".to_vec(), b"k".to_vec(), 3);
    assert_eq!(r.name_of(b"k"), Some(b"n".as_slice()));
    assert_eq!(r.keys_by_lease(3), vec![b"k".to_vec()]);
    assert!(r.release(b"k"));
    assert_eq!((r.count(), r.key_of(b"n"), r.lease_of(b"k")), (0, None, None));
    assert!(r.keys_by_lease(3).is_empty());
}

#[test]
fn queues_do_not_see_each_other() {
    assert!(queue_item_key(b"a", 7).starts_with(&queue_scan_prefix(b"a")));
    assert!(!queue_item_key(b"ab", 7).starts_with(&queue_scan_prefix(b"a")));
    let mut queues = QueueManager::new();
    let entries = vec![
        Entry { key: queue_meta_key(b"q"), value: 41u64.to_be_bytes().to_vec() },
        Entry { key: b"other".to_vec(), value: 9u64.to_be_bytes().to_vec() },
    ];
    queues.restore(&entries);
    assert_eq!((queues.queue_count(), queues.next_seq(b"q"), queues.peek_seq(b"r")), (1, 41, 1));
}
