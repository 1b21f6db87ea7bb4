use reticulum_mobile::hexfmt::{address_display, trim_hash_display};
use reticulum_mobile::peers::{PeerInfo, PeerTable};
use reticulum_mobile::queue::ByteQueue;

#[test]
fn queue_is_first_in_first_out() {
    let mut q = ByteQueue::new();
    assert_eq!(q.pop(), None);
    q.push(vec![1]);
    q.push(vec![2, 2]);
    q.push(vec![]);
    assert_eq!(q.len(), 3);
    assert_eq!(q.pop(), Some(vec![1]));
    assert_eq!(q.pop(), Some(vec![2, 2]));
    q.push(vec![3]);
    assert_eq!(q.pop(), Some(vec![]));
    assert_eq!(q.pop(), Some(vec![3]));
    assert_eq!(q.pop(), None);
    assert_eq!(q.len(), 0);
}

fn peer(hash: &str, data: &[u8]) -> PeerInfo {
    PeerInfo { hash: hash.to_string(), app_data: data.to_vec() }
}

#[test]
fn peer_table_keeps_one_record_per_hash_sorted() {
    let mut t = PeerTable::new();
    assert_eq!(t.len(), 0);
    t.insert(peer("cc", b"c"));
    t.insert(peer("aa", b"a"));
    t.insert(peer("bb", b"b"));
    t.insert(peer("aa", b"a2"));
    assert_eq!(t.len(), 3);
    let list = t.list();
    let hashes: Vec<&str> = list.iter().map(|p| p.hash.as_str()).collect();
    assert_eq!(hashes, vec!["aa", "bb", "cc"]);
    assert_eq!(list[0].app_data, b"a2".to_vec());
    assert_eq!(list[1].app_data, b"b".to_vec());
    assert!(t.contains("bb"));
    assert!(!t.contains("b"));
    assert!(!t.contains("dd"));
    t.clear();
    assert_eq!(t.len(), 0);
    assert!(t.list().is_empty());
    assert!(!t.contains("aa"));
}

#[test]
fn peer_table_orders_prefix_first_and_by_code_point() {
    let mut t = PeerTable::new();
    t.insert(peer("ab", b""));
    t.insert(peer("a", b""));
    t.insert(peer("B", b""));
    t.insert(peer("", b"empty"));
    t.insert(peer("é", b""));
    let list = t.list();
    let hashes: Vec<&str> = list.iter().map(|p| p.hash.as_str()).collect();
    let mut sorted = hashes.clone();
    sorted.sort();
    assert_eq!(hashes, sorted);
    assert_eq!(hashes, vec!["", "B", "a", "ab", "é"]);
}

#[test]
fn address_display_and_trim() {
    let mut b = [0u8; 16];
    for (i, x) in b.iter_mut().enumerate() {
        *x = (i as u8) * 17;
    }
    let shown = address_display(&b);
    assert_eq!(shown, "/00112233445566778899aabbccddeeff/");
    assert_eq!(trim_hash_display(&shown), "00112233445566778899aabbccddeeff");
}

#[test]
fn trim_removes_brackets_slashes_and_hex_prefixes() {
    assert_eq!(trim_hash_display("</0xab>"), "ab");
    assert_eq!(trim_hash_display("0x0xdead"), "dead");
    assert_eq!(trim_hash_display("//>>"), "");
    assert_eq!(trim_hash_display(""), "");
    assert_eq!(trim_hash_display("a/b"), "a/b");
    assert_eq!(trim_hash_display("0"), "0");
    assert_eq!(trim_hash_display("/0x/"), "");
}
