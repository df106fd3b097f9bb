use i_seek_you::peer_id::{create_peer_ids, format_peer_id, parse_peer_id, ID_COUNT};

#[test]
fn format_pads_to_four_digits() {
    assert_eq!(format_peer_id(0), "0000");
    assert_eq!(format_peer_id(7), "0007");
    assert_eq!(format_peer_id(42), "0042");
    assert_eq!(format_peer_id(305), "0305");
    assert_eq!(format_peer_id(9999), "9999");
}

#[test]
fn parse_reads_four_digits_only() {
    assert_eq!(parse_peer_id("0000"), Some(0));
    assert_eq!(parse_peer_id("0042"), Some(42));
    assert_eq!(parse_peer_id("9999"), Some(9999));
    assert_eq!(parse_peer_id("42"), None);
    assert_eq!(parse_peer_id("00042"), None);
    assert_eq!(parse_peer_id(""), None);
    assert_eq!(parse_peer_id("00a2"), None);
    assert_eq!(parse_peer_id("-042"), None);
    assert_eq!(parse_peer_id("٠٠٤٢"), None);
}

#[test]
fn parse_undoes_format() {
    for n in [0u32, 1, 10, 99, 100, 1234, 5000, 9998, 9999] {
        assert_eq!(parse_peer_id(&format_peer_id(n)), Some(n));
    }
}

#[test]
fn fresh_pool_holds_every_id_once() {
    let ids: Vec<u32> = create_peer_ids().into_iter().collect();
    assert_eq!(ids.len(), ID_COUNT as usize);
    let mut sorted = ids.clone();
    sorted.sort();
    let expected: Vec<u32> = (0..ID_COUNT).collect();
    assert_eq!(sorted, expected);
}

#[test]
fn fresh_pool_is_shuffled() {
    let ids: Vec<u32> = create_peer_ids().into_iter().collect();
    let ordered: Vec<u32> = (0..ID_COUNT).collect();
    assert_ne!(ids, ordered);
}

#[test]
fn format_undoes_parse() {
    for s in ["0000", "0420", "1234", "9999"] {
        assert_eq!(format_peer_id(parse_peer_id(s).unwrap()), s);
    }
}
