use bridger::parcel::{
    EthereumHeader, EthereumHeaderJson, EthereumRelayHeaderParcel, EthereumRelayHeaderParcelJson,
};

fn parcel(number: u64, hash: Option<[u8; 32]>, root: u8) -> EthereumRelayHeaderParcel {
    EthereumRelayHeaderParcel { header: EthereumHeader { number, hash }, mmr_root: [root; 32] }
}

#[test]
fn same_parcel_compares_hash_and_root() {
    let a = parcel(1, Some([1; 32]), 9);
    let b = parcel(2, Some([1; 32]), 9);
    let c = parcel(1, Some([2; 32]), 9);
    let d = parcel(1, Some([1; 32]), 8);
    let e = parcel(1, None, 9);
    assert!(a.is_same_as(&a));
    assert!(a.is_same_as(&b));
    assert!(b.is_same_as(&a));
    assert!(!a.is_same_as(&c));
    assert!(!a.is_same_as(&d));
    assert!(!a.is_same_as(&e));
    assert!(e.is_same_as(&parcel(5, None, 9)));
}

#[test]
fn parcel_to_json() {
    let mut root = [0u8; 32];
    root[31] = 0xab;
    let p = EthereumRelayHeaderParcel {
        header: EthereumHeader { number: 42, hash: Some([0x10; 32]) },
        mmr_root: root,
    };
    let j = EthereumRelayHeaderParcelJson::from_parcel(p);
    assert_eq!(j.header.number, 42);
    assert_eq!(j.header.hash, format!("0x{}", "10".repeat(32)));
    assert_eq!(j.mmr_root, format!("0x{}ab", "00".repeat(31)));
}

#[test]
fn header_without_hash_is_written_with_zero_hash() {
    let j = EthereumHeaderJson::from_header(EthereumHeader { number: 3, hash: None });
    assert_eq!(j.hash, format!("0x{}", "0".repeat(64)));
    let back = EthereumHeader::from_json(j);
    assert_eq!(back.hash, Some([0u8; 32]));
}

#[test]
fn parcel_json_round_trip_concrete() {
    let p = parcel(7, Some([0xfe; 32]), 0x3c);
    let q = EthereumRelayHeaderParcel::from_json(EthereumRelayHeaderParcelJson::from_parcel(p));
    assert_eq!(q.header.number, 7);
    assert_eq!(q.header.hash, Some([0xfe; 32]));
    assert_eq!(q.mmr_root, [0x3c; 32]);
}

#[test]
fn parcel_from_json_reads_both_cases() {
    let j = EthereumRelayHeaderParcelJson {
        header: EthereumHeaderJson { number: 1, hash: "AB".repeat(32) },
        mmr_root: format!("0x{}", "cd".repeat(32)),
    };
    let p = EthereumRelayHeaderParcel::from_json(j);
    assert_eq!(p.header.hash, Some([0xab; 32]));
    assert_eq!(p.mmr_root, [0xcd; 32]);
    let k = EthereumRelayHeaderParcelJson::from_parcel(p);
    assert_eq!(k.header.hash, format!("0x{}", "ab".repeat(32)));
}

#[test]
fn parcel_display_text() {
    let p = parcel(1, None, 0x01);
    let s = p.to_display_string("header");
    assert_eq!(s, format!("header\n{:>19}0x{}", "mmr_root: ", "01".repeat(32)));
}
