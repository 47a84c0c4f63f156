use ble_link::device::{first_equal, is_request_characteristic, select_characteristic, BluetoothDevice, ScanResult};

fn device(addr: &str, name: Option<&str>) -> BluetoothDevice {
    BluetoothDevice { addr: addr.to_string(), local_name: name.map(|n| n.to_string()) }
}

#[test]
fn getters_return_fields() {
    let d = device("AA:BB:CC:DD:EE:FF", Some("HMSoft"));
    assert_eq!(d.get_addr(), "AA:BB:CC:DD:EE:FF");
    assert_eq!(d.get_local_name(), Some("HMSoft".to_string()));
    assert_eq!(device("x", None).get_local_name(), None);
}

#[test]
fn search_by_name_finds_first_match() {
    let scan = ScanResult::new(vec![
        device("01", None),
        device("02", Some("Other")),
        device("03", Some("HMSoft")),
        device("04", Some("HMSoft")),
    ]);
    assert_eq!(scan.len(), 4);
    assert_eq!(scan.search_by_name("HMSoft".to_string()).unwrap().get_addr(), "03");
    assert!(scan.search_by_name("hmsoft".to_string()).is_none());
    assert!(ScanResult::new(Vec::new()).search_by_name("HMSoft".to_string()).is_none());
}

#[test]
fn search_by_addr_ignores_case() {
    let scan = ScanResult::new(vec![device("aa:bb:cc:00:11:22", Some("A")), device("AA:BB:CC:DD:EE:FF", Some("B"))]);
    let found = scan.search_by_addr("aa:bb:cc:dd:ee:ff".to_string()).unwrap();
    assert_eq!(found.get_local_name(), Some("B".to_string()));
    let found = scan.search_by_addr("AA:BB:CC:00:11:22".to_string()).unwrap();
    assert_eq!(found.get_local_name(), Some("A".to_string()));
    assert!(scan.search_by_addr("00:00:00:00:00:00".to_string()).is_none());
}

#[test]
fn first_equal_finds_first_position() {
    let keys = vec!["b".to_string(), "a".to_string(), "a".to_string()];
    assert_eq!(first_equal(&keys, &"a".to_string()), Some(1));
    assert_eq!(first_equal(&keys, &"c".to_string()), None);
}

#[test]
fn characteristic_needs_write_and_push() {
    assert!(is_request_characteristic(0x04 | 0x10));
    assert!(is_request_characteristic(0x08 | 0x20));
    assert!(is_request_characteristic(0x02 | 0x04 | 0x08 | 0x10));
    assert!(!is_request_characteristic(0x04));
    assert!(!is_request_characteristic(0x10));
    assert!(!is_request_characteristic(0x02));
    assert_eq!(select_characteristic(&vec![0x02, 0x04, 0x16, 0x1c]), Some(2));
    assert_eq!(select_characteristic(&vec![0x02, 0x10]), None);
    assert_eq!(select_characteristic(&Vec::new()), None);
}
