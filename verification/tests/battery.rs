use battery_health::battery::{adc_to_volt, battery_percentage, u16_to_u8_array, volt_to_adc, BatteryTracker};
use battery_health::storage::{Data, StorageHandler};

#[test]
fn split_into_bytes() {
    assert_eq!(u16_to_u8_array(0x1234), [0x12, 0x34]);
    assert_eq!(u16_to_u8_array(0x00ff), [0x00, 0xff]);
    assert_eq!(u16_to_u8_array(0xffff), [0xff, 0xff]);
    let [h, l] = u16_to_u8_array(4321);
    assert_eq!(h as u16 * 256 + l as u16, 4321);
}

#[test]
fn scales() {
    assert_eq!(adc_to_volt(200), 3400);
    assert_eq!(adc_to_volt(3855), 65535);
    assert_eq!(adc_to_volt(0), 0);
    assert_eq!(volt_to_adc(50), 1);
    assert_eq!(volt_to_adc(59), 1);
    assert_eq!(volt_to_adc(0), 0);
}

#[test]
fn percentage_rounds_toward_zero() {
    assert_eq!(battery_percentage(3000), 0);
    assert_eq!(battery_percentage(3008), 0);
    assert_eq!(battery_percentage(3009), 1);
    assert_eq!(battery_percentage(3600), 66);
    assert_eq!(battery_percentage(2992), 0);
    assert_eq!(battery_percentage(2991), -1);
    assert_eq!(battery_percentage(0), -333);
}

#[test]
fn tracker_follows_charged_readings() {
    let mut t = BatteryTracker::new(200);
    assert_eq!(t.current(), 3400);
    assert_eq!(t.observe(180), 3060);
    assert_eq!(t.current(), 3230);
    assert_eq!(t.observe(100), 1700);
    assert_eq!(t.current(), 3230);
    assert_eq!(t.observe(3855), 65535);
    assert_eq!(t.current(), ((65535u32 + 3230) / 2) as u16);
}

#[test]
fn low_readings_ignored() {
    let mut t = BatteryTracker::new(190);
    assert_eq!(t.observe(176), 2992);
    assert_eq!(t.current(), 3230);
}

#[test]
fn sample_records_when_due() {
    let mut t = BatteryTracker::new(200);
    let mut store = StorageHandler::new(Some(Data { time: 1, values: vec![] }));
    assert!(!t.sample(180, &mut store, 30));
    assert!(store.get_values().is_empty());
    assert!(t.sample(200, &mut store, 60));
    assert_eq!(store.get_values(), &vec![t.current()]);
    assert!(!t.sample(200, &mut store, 60));
    assert_eq!(store.get_values().len(), 1);
}
