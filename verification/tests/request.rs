use battery_health::request::{parse_v, read_request};

#[test]
fn read_request_finds_second_pair() {
    assert_eq!(read_request("vmin=3.7&vmax=4.2", "vmax"), Ok("4.2".to_string()));
    assert_eq!(read_request("vmin=3.7&vmax=4.2", "vmin"), Ok("3.7".to_string()));
}

#[test]
fn read_request_missing_key() {
    assert_eq!(read_request("vmin=3.7&vmax=4.2", "time"), Err("did not find key"));
    assert_eq!(read_request("", "time"), Err("did not find key"));
    assert_eq!(read_request("a=1&", "b"), Err("did not find key"));
}

#[test]
fn read_request_pair_without_value_is_passed_over() {
    assert_eq!(read_request("a&b=2", "b"), Ok("2".to_string()));
    assert_eq!(read_request("a", "a"), Err("did not find key"));
    assert_eq!(read_request("a&a=5", "a"), Ok("5".to_string()));
}

#[test]
fn read_request_empty_and_extra_fields() {
    assert_eq!(read_request("a=&b=1", "a"), Ok("".to_string()));
    assert_eq!(read_request("a=1=2", "a"), Ok("1".to_string()));
    assert_eq!(read_request("=5", ""), Ok("5".to_string()));
    assert_eq!(read_request("ab=1", "a"), Err("did not find key"));
}

#[test]
fn read_request_first_pair_wins() {
    assert_eq!(read_request("a=1&a=2", "a"), Ok("1".to_string()));
}

#[test]
fn read_request_single_pair_reads_back() {
    assert_eq!(read_request("time=15", "time"), Ok("15".to_string()));
    assert_eq!(read_request("zeit=fünf", "zeit"), Ok("fünf".to_string()));
}

#[test]
fn read_request_other_pair_passed_over() {
    assert_eq!(read_request("x=9&time=15", "time"), read_request("time=15", "time"));
}

#[test]
fn parse_v_drops_dots() {
    assert_eq!(parse_v("3.7").unwrap(), 37);
    assert_eq!(parse_v("4.20").unwrap(), 420);
    assert_eq!(parse_v("1.2.3").unwrap(), 123);
    assert_eq!(parse_v("42").unwrap(), 42);
    assert_eq!(parse_v("+1.5").unwrap(), 15);
}

#[test]
fn parse_v_dot_is_ignored() {
    assert_eq!(parse_v("1.5").unwrap(), parse_v("15").unwrap());
    assert_eq!(parse_v(".6.5535.").unwrap(), 65535);
}

#[test]
fn parse_v_rejects() {
    assert!(parse_v("").is_err());
    assert!(parse_v(".").is_err());
    assert!(parse_v("-1").is_err());
    assert!(parse_v("+").is_err());
    assert!(parse_v("1 2").is_err());
    assert!(parse_v("6553.6").is_err());
    assert!(parse_v("abc").is_err());
}
