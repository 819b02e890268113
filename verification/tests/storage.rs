use battery_health::storage::{Data, StorageHandler, DEFAULT_TIME};

#[test]
fn data_new_and_append() {
    let mut d = Data::new();
    assert_eq!(d.time, 10);
    assert!(d.get_data().is_empty());
    d.append_value(3400);
    d.append_value(3300);
    assert_eq!(d.get_data(), &vec![3400, 3300]);
    assert_eq!(d.time, 10);
}

#[test]
fn handler_starts_from_stored_record() {
    let h = StorageHandler::new(Some(Data { time: 5, values: vec![1, 2] }));
    assert_eq!(h.get_values(), &vec![1, 2]);
    assert_eq!(h.data().time, 5);
    let h = StorageHandler::new(None);
    assert!(h.get_values().is_empty());
    assert_eq!(h.data().time, DEFAULT_TIME);
}

#[test]
fn add_value_and_reset() {
    let mut h = StorageHandler::new(None);
    h.set_time(3);
    h.add_value(7);
    h.add_value(8);
    assert_eq!(h.get_values(), &vec![7, 8]);
    h.rest_store();
    assert!(h.get_values().is_empty());
    assert_eq!(h.data().time, 10);
}

#[test]
fn datapoint_on_whole_periods_only() {
    let mut h = StorageHandler::new(Some(Data { time: 1, values: vec![] }));
    assert!(!h.has_datapoint(59));
    assert!(h.has_datapoint(60));
    assert!(!h.has_datapoint(61));
    assert!(h.has_datapoint(120));
    assert!(!h.has_datapoint(121));
}

#[test]
fn no_two_datapoints_in_a_row() {
    let mut h = StorageHandler::new(None);
    assert!(h.has_datapoint(600));
    assert!(!h.has_datapoint(600));
    assert!(h.has_datapoint(600));
    assert!(!h.has_datapoint(1200));
    assert!(h.has_datapoint(1200));
}

#[test]
fn default_period_is_ten_minutes() {
    let mut h = StorageHandler::new(None);
    assert!(!h.has_datapoint(300));
    assert!(h.has_datapoint(600));
    assert!(!h.has_datapoint(0));
    assert!(h.has_datapoint(0));
}

#[test]
fn labels_count_minutes() {
    let mut h = StorageHandler::new(None);
    assert!(h.get_labels().is_empty());
    h.add_value(1);
    h.add_value(2);
    h.add_value(3);
    assert_eq!(h.get_labels(), vec![0, 10, 20]);
}

#[test]
fn labels_do_not_overflow() {
    let mut h = StorageHandler::new(Some(Data { time: 255, values: vec![0; 255] }));
    let labels = h.get_labels();
    assert_eq!(labels.len(), 255);
    assert_eq!(labels[254], 255 * 254);
    h.add_value(0);
    assert_eq!(h.get_labels().len(), 0);
}

#[test]
fn labels_count_modulo_256() {
    let h = StorageHandler::new(Some(Data { time: 2, values: vec![5; 300] }));
    let labels = h.get_labels();
    assert_eq!(labels.len(), 44);
    assert_eq!(labels[43], 86);
}
