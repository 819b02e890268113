use battery_health::ota::{check_hash, ota_url, to_hex_lower, OtaProgress};

#[test]
fn url_is_base_then_name() {
    assert_eq!(ota_url("http://host/fw/", "v1.2.bin"), "http://host/fw/v1.2.bin");
}

#[test]
fn download_steps() {
    let mut p = OtaProgress::new();
    let s = p.on_chunk(4096);
    assert!(s.write && !s.done);
    let s = p.on_chunk(100);
    assert!(s.write && s.done);
    assert_eq!(p.total_size(), 4196);
    let mut q = OtaProgress::new();
    let s = q.on_chunk(0);
    assert!(!s.write && s.done);
    assert_eq!(q.total_size(), 0);
}

#[test]
fn hex_is_lower_case_two_digits() {
    assert_eq!(to_hex_lower(&[0x00, 0xab, 0x0f, 0xF0]), "00ab0ff0");
    assert_eq!(to_hex_lower(&[]), "");
    assert_eq!(to_hex_lower(&[0x12; 32]).len(), 64);
}

#[test]
fn hash_check() {
    let mut digest = [0u8; 32];
    digest[0] = 0xde;
    digest[31] = 0x01;
    let hex = format!("de{}01", "00".repeat(30));
    assert!(check_hash(&digest, hex.clone()));
    assert!(!check_hash(&digest, hex.to_uppercase()));
    assert!(!check_hash(&digest, String::new()));
}
