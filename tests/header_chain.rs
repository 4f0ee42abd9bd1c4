use electrs_index::block::{BlockHeader, BlockId, BlockStatus, HeaderList};
use electrs_index::hash::Sha256dHash;

fn hex_bytes(s: &str) -> Vec<u8> {
    (0..s.len() / 2).map(|i| u8::from_str_radix(&s[2 * i..2 * i + 2], 16).unwrap()).collect()
}

/// A hash given in the usual display order (reversed bytes).
fn display_hash(s: &str) -> Sha256dHash {
    let mut b = hex_bytes(s);
    b.reverse();
    let mut a = [0u8; 32];
    a.copy_from_slice(&b);
    Sha256dHash::from_bytes(a)
}

fn genesis() -> BlockHeader {
    BlockHeader {
        version: 1,
        prev_blockhash: Sha256dHash::zero(),
        merkle_root: display_hash("4a5e1e4baab89f3a32518a88c31bc87f618f76673e2cc77ab2127b7afdeda33b"),
        time: 1231006505,
        bits: 0x1d00ffff,
        nonce: 2083236893,
    }
}

fn child(parent: &BlockHeader, nonce: u32) -> BlockHeader {
    BlockHeader {
        version: 1,
        prev_blockhash: parent.block_hash(),
        merkle_root: Sha256dHash::from_bytes([nonce as u8; 32]),
        time: parent.time + 600,
        bits: 0x1d00ffff,
        nonce,
    }
}

fn chain(n: usize) -> Vec<BlockHeader> {
    let mut v = vec![genesis()];
    for i in 1..n {
        let h = child(&v[i - 1], i as u32);
        v.push(h);
    }
    v
}

#[test]
fn genesis_header_serializes_to_80_bytes() {
    let g = genesis();
    let bytes = g.serialize();
    assert_eq!(bytes.len(), 80);
    assert_eq!(&bytes[0..4], &[1, 0, 0, 0]);
    assert_eq!(&bytes[68..72], &[0x29, 0xab, 0x5f, 0x49]);
    assert_eq!(&bytes[72..76], &[0xff, 0xff, 0x00, 0x1d]);
}

#[test]
fn genesis_header_hash_is_known_value() {
    let g = genesis();
    let h = g.block_hash();
    let expected = display_hash("000000000019d6689c085ae165831e934ff763ae46a2a6c172b3f1b60a8ce26f");
    assert!(h.same_as(&expected));
    assert_ne!(h.bytes, g.prev_blockhash.bytes);
}

#[test]
fn empty_list_has_zero_tip() {
    let list = HeaderList::empty();
    assert_eq!(list.len(), 0);
    assert!(list.tip().is_zero());
    assert!(list.header_by_height(0).is_none());
    assert_eq!(list.iter().count(), 0);
}

#[test]
fn order_labels_heights_from_genesis() {
    let list = HeaderList::empty();
    let headers = chain(3);
    let entries = list.order(headers.clone());
    assert_eq!(entries.len(), 3);
    for (i, e) in entries.iter().enumerate() {
        assert_eq!(e.height(), i);
        assert!(e.hash().same_as(&headers[i].block_hash()));
        assert!(e.header().same_as(&headers[i]));
    }
}

#[test]
fn apply_builds_chain_and_tip() {
    let mut list = HeaderList::empty();
    let headers = chain(3);
    let entries = list.order(headers.clone());
    list.apply(entries);
    assert_eq!(list.len(), 3);
    assert!(list.tip().same_as(&headers[2].block_hash()));
    let e = list.header_by_height(1).unwrap();
    assert_eq!(e.height(), 1);
    let found = list.header_by_blockhash(&headers[1].block_hash()).unwrap();
    assert_eq!(found.height(), 1);
    assert_eq!(list.iter().count(), 3);
}

#[test]
fn order_continues_after_known_parent() {
    let mut list = HeaderList::empty();
    let headers = chain(4);
    list.apply(list.order(headers[0..2].to_vec()));
    let more = list.order(headers[2..4].to_vec());
    assert_eq!(more[0].height(), 2);
    assert_eq!(more[1].height(), 3);
    list.apply(more);
    assert_eq!(list.len(), 4);
    assert!(list.tip().same_as(&headers[3].block_hash()));
}

#[test]
fn one_block_reorg_replaces_tip() {
    let mut list = HeaderList::empty();
    let headers = chain(3);
    list.apply(list.order(headers.clone()));
    let old_tip = headers[2].block_hash();
    let replacement = child(&headers[1], 99);
    let seg = list.order(vec![replacement]);
    assert_eq!(seg[0].height(), 2);
    list.apply(seg);
    assert_eq!(list.len(), 3);
    assert!(list.tip().same_as(&replacement.block_hash()));
    assert!(list.header_by_blockhash(&old_tip).is_none());
    let at2 = list.header_by_height(2).unwrap();
    assert!(at2.hash().same_as(&replacement.block_hash()));
    assert!(list.header_by_blockhash(&headers[1].block_hash()).is_some());
}

#[test]
fn reorg_to_shorter_chain_drops_heights() {
    let mut list = HeaderList::empty();
    let headers = chain(4);
    list.apply(list.order(headers.clone()));
    let replacement = child(&headers[0], 7);
    list.apply(list.order(vec![replacement]));
    assert_eq!(list.len(), 2);
    assert!(list.header_by_height(2).is_none());
    assert!(list.header_by_height(3).is_none());
}

#[test]
fn applying_same_suffix_again_changes_nothing() {
    let mut list = HeaderList::empty();
    let headers = chain(3);
    list.apply(list.order(headers.clone()));
    let mut other = HeaderList::empty();
    other.apply(other.order(headers.clone()));
    let again = list.order(headers[1..3].to_vec());
    list.apply(again);
    assert_eq!(list.len(), 3);
    assert!(list.equals(&other));
}

#[test]
fn apply_of_nothing_keeps_list() {
    let mut list = HeaderList::empty();
    list.apply(list.order(chain(2)));
    list.apply(Vec::new());
    assert_eq!(list.len(), 2);
}

#[test]
fn adjacent_entries_are_linked() {
    let mut list = HeaderList::empty();
    list.apply(list.order(chain(5)));
    let entries: Vec<_> = list.iter().cloned().collect();
    for w in entries.windows(2) {
        assert!(w[1].header().prev_blockhash.same_as(w[0].hash()));
        assert_eq!(w[1].height(), w[0].height() + 1);
    }
}

#[test]
fn checked_order_refuses_broken_link() {
    let list = HeaderList::empty();
    let mut headers = chain(3);
    headers[2].prev_blockhash = Sha256dHash::from_bytes([5u8; 32]);
    assert!(list.checked_order(headers).is_none());
}

#[test]
fn checked_order_refuses_unknown_parent() {
    let list = HeaderList::empty();
    let headers = chain(3);
    assert!(list.checked_order(headers[1..].to_vec()).is_none());
    let ok = list.checked_order(headers).unwrap();
    assert_eq!(ok.len(), 3);
}

#[test]
fn order_of_nothing_is_empty() {
    let list = HeaderList::empty();
    assert!(list.order(Vec::new()).is_empty());
}

#[test]
fn equals_compares_last_entries() {
    let mut a = HeaderList::empty();
    let mut b = HeaderList::empty();
    assert!(a.equals(&b));
    let headers = chain(2);
    a.apply(a.order(headers.clone()));
    assert!(!a.equals(&b));
    b.apply(b.order(headers[0..1].to_vec()));
    assert!(!a.equals(&b));
    b.apply(b.order(headers[1..2].to_vec()));
    assert!(a.equals(&b));
}

#[test]
fn block_id_from_entry() {
    let mut list = HeaderList::empty();
    let headers = chain(2);
    list.apply(list.order(headers.clone()));
    let id = BlockId::from(list.header_by_height(1).unwrap());
    assert_eq!(id.height, 1);
    assert_eq!(id.time, 1231006505 + 600);
    assert!(id.hash.same_as(&headers[1].block_hash()));
}

#[test]
fn block_status_constructors() {
    let c = BlockStatus::confirmed(7, None);
    assert!(c.in_best_chain);
    assert_eq!(c.height, Some(7));
    assert!(c.next_best.is_none());
    let o = BlockStatus::orphaned();
    assert!(!o.in_best_chain);
    assert_eq!(o.height, None);
}

#[test]
fn header_bytes_round_trip() {
    let g = genesis();
    let bytes = g.serialize();
    let back = BlockHeader::deserialize(&bytes).unwrap();
    assert!(back.same_as(&g));
    assert_eq!(back.serialize(), bytes);
    assert!(BlockHeader::deserialize(&bytes[..79]).is_none());
    let mut longer = bytes.clone();
    longer.push(0);
    assert!(BlockHeader::deserialize(&longer).is_none());
}

#[test]
fn header_hash_of_serialized_bytes_matches() {
    let h = child(&genesis(), 3);
    let again = BlockHeader::deserialize(&h.serialize()).unwrap();
    assert!(again.block_hash().same_as(&h.block_hash()));
    assert_ne!(h.block_hash().bytes, genesis().block_hash().bytes);
}
