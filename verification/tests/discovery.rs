use sakura::discovery::{
    add_device, announce, discover, parse_response, Announcement, DeviceAddr, DiscoveredDevice,
    SearchEvent, SearchStep, MULTICAST_ADDR, SEARCH_MSG,
};
use sakura::YeelightError;
use std::io::{Error, ErrorKind};

const ANSWER: &str = "HTTP/1.1 200 OK\r\n\
    Cache-Control: max-age=3600\r\n\
    Date: \r\n\
    Ext: \r\n\
    Location: yeelight://192.168.1.239:55443\r\n\
    Server: POSIX UPnP/1.0 YGLC/1\r\n\
    id: 0x000000000015243f\r\n\
    model: color\r\n\
    fw_ver: 18\r\n\
    support: get_prop set_default set_power toggle\r\n\
    power: on\r\n\
    bright: 100\r\n\
    color_mode: 2\r\n\
    name: my_bulb\r\n";

fn headers(list: &[(&str, &str)]) -> Vec<(String, String)> {
    list.iter().map(|(k, v)| (k.to_string(), v.to_string())).collect()
}

fn at(port: u16) -> Option<DeviceAddr> {
    Some(DeviceAddr::V4 { ipv4: 0xc0a8_0101, port })
}

fn named(name: &str) -> Announcement {
    announce(&headers(&[("location", "yeelight://192.168.1.1:1"), ("name", name)])).unwrap()
}

#[test]
fn the_search_request_is_ssdp() {
    assert_eq!(MULTICAST_ADDR, "239.255.255.250:1982");
    let lines: Vec<&str> = SEARCH_MSG.split("\r\n").collect();
    assert_eq!(lines, vec![
        "M-SEARCH * HTTP/1.1",
        "HOST: 239.255.255.250:1982",
        "MAN: \"ssdp:discover\"",
        "ST: wifi_bulb",
        "",
        "",
    ]);
}

#[test]
fn an_answer_announces_a_bulb() {
    let a = parse_response(ANSWER).unwrap();
    assert_eq!(a.addr, "192.168.1.239:55443");
    assert_eq!(a.id.as_deref(), Some("0x000000000015243f"));
    assert_eq!(a.model.as_deref(), Some("color"));
    assert_eq!(a.fw_ver.as_deref(), Some("18"));
    assert_eq!(a.power, Some(true));
    assert_eq!(a.brightness, Some(100));
    assert_eq!(a.name.as_deref(), Some("my_bulb"));
    assert_eq!(a.supported_methods, vec!["get_prop", "set_default", "set_power", "toggle"]);
}

#[test]
fn only_the_location_is_needed() {
    let a = parse_response("HTTP/1.1 200 OK\nlocation:yeelight://x").unwrap();
    assert_eq!(a.addr, "x");
    assert!(a.id.is_none() && a.model.is_none() && a.fw_ver.is_none() && a.name.is_none());
    assert!(a.power.is_none() && a.brightness.is_none() && a.supported_methods.is_empty());
    assert!(parse_response("HTTP/1.1 200 OK\r\nid: 1\r\n").is_none());
    assert!(parse_response("HTTP/1.1 200 OK\r\nLocation: http://1.2.3.4:5\r\n").is_none());
}

#[test]
fn the_first_line_must_accept() {
    assert!(parse_response("").is_none());
    assert!(parse_response("\r\nHTTP/1.1 200 OK\r\nLocation: yeelight://x\r\n").is_none());
    assert!(parse_response("HTTP/1.1 404 Not Found\r\nLocation: yeelight://x\r\n").is_none());
    assert!(parse_response("NOTIFY * HTTP/1.1\r\nLocation: yeelight://x\r\n").is_none());
    assert!(parse_response("http/1.1 200 ok\r\nLocation: yeelight://x\r\n").is_none());
    assert!(parse_response("  HTTP/1.1 200 OK \r\nLocation: yeelight://x\r\n").is_some());
}

#[test]
fn a_line_without_a_colon_spoils_the_answer() {
    assert!(parse_response("HTTP/1.1 200 OK\r\nLocation: yeelight://x\r\nnonsense\r\n").is_none());
    assert!(parse_response("HTTP/1.1 200 OK\r\n\r\n  \r\nLocation: yeelight://x\r\n\r\n").is_some());
}

#[test]
fn names_of_headers_come_in_any_case() {
    let a = parse_response(
        "HTTP/1.1 200 OK\r\nLOCATION : yeelight://x\r\nPoWeR: ON\r\nNAME: \u{c4}b\r\n\u{c4}: 1\r\n",
    );
    let a = a.unwrap();
    assert_eq!(a.addr, "x");
    assert_eq!(a.power, Some(false));
    assert_eq!(a.name.as_deref(), Some("\u{c4}b"));
}

#[test]
fn a_name_beyond_ascii_is_lowered_too() {
    let a = parse_response("HTTP/1.1 200 OK\r\nlocation: yeelight://x\r\n\u{130}D: 1\r\nbright: 200\r\n");
    let a = a.unwrap();
    assert_eq!(a.id, None);
    assert_eq!(a.brightness, Some(200));
}

#[test]
fn the_last_header_of_a_name_counts() {
    let a = announce(&headers(&[
        ("location", "yeelight://first"),
        ("bright", "10"),
        ("location", "yeelight://second"),
        ("bright", "300"),
    ]));
    let a = a.unwrap();
    assert_eq!(a.addr, "second");
    assert_eq!(a.brightness, None);
    assert!(announce(&headers(&[("location", "yeelight://a"), ("location", "b")])).is_none());
    assert!(announce(&headers(&[("Location", "yeelight://a")])).is_none());
}

#[test]
fn each_address_is_listed_once() {
    let mut devices: Vec<DiscoveredDevice> = Vec::new();
    add_device(&mut devices, named("first"), at(1));
    add_device(&mut devices, named("again"), at(1));
    add_device(&mut devices, named("none"), None);
    add_device(&mut devices, named("other"), at(2));
    add_device(&mut devices, named("six"), Some(DeviceAddr::V6 {
        ipv6: 1,
        port: 1,
        flow_info: 0,
        scope_id: 0,
    }));
    add_device(&mut devices, named("other again"), at(2));
    let names: Vec<&str> = devices.iter().map(|d| d.name.as_deref().unwrap()).collect();
    assert_eq!(names, vec!["first", "other", "six"]);
    assert_eq!(devices[0].addr, at(1).unwrap());
}

#[test]
fn a_device_is_what_it_announced() {
    let mut devices: Vec<DiscoveredDevice> = Vec::new();
    add_device(&mut devices, parse_response(ANSWER).unwrap(), at(55443));
    let d = &devices[0];
    assert_eq!(d.id.as_deref(), Some("0x000000000015243f"));
    assert_eq!(d.model.as_deref(), Some("color"));
    assert_eq!(d.fw_ver.as_deref(), Some("18"));
    assert_eq!(d.power, Some(true));
    assert_eq!(d.brightness, Some(100));
    assert_eq!(d.name.as_deref(), Some("my_bulb"));
    assert_eq!(d.supported_methods.len(), 4);
}

#[test]
fn a_copy_of_a_device_is_the_same() {
    let mut devices: Vec<DiscoveredDevice> = Vec::new();
    add_device(&mut devices, parse_response(ANSWER).unwrap(), at(55443));
    assert_eq!(format!("{:?}", devices[0].clone()), format!("{:?}", devices[0]));
}

#[test]
fn the_search_goes_on_until_nothing_more_comes() {
    let received = |bytes: &[u8]| SearchEvent::Received(bytes.to_vec());
    let step = discover(received(ANSWER.as_bytes()), 1, 9);
    assert!(matches!(step, SearchStep::Add(a) if a.addr == "192.168.1.239:55443"));
    assert!(matches!(discover(received(b"hello"), 1, 9), SearchStep::PassOver));
    assert!(matches!(discover(SearchEvent::WouldBlock, 9, 9), SearchStep::Finish));
    assert!(matches!(discover(SearchEvent::TimedOut, 9, 9), SearchStep::Finish));
    let step = discover(SearchEvent::Failed(Error::from(ErrorKind::NotConnected)), 1, 9);
    assert!(matches!(
        step,
        SearchStep::Fail(YeelightError::Io(e)) if e.kind() == ErrorKind::NotConnected
    ));
}

#[test]
fn the_search_ends_when_its_time_is_up() {
    assert!(matches!(discover(SearchEvent::Ready, 0, 9), SearchStep::Wait(9)));
    assert!(matches!(discover(SearchEvent::Ready, 8, 9), SearchStep::Wait(1)));
    assert!(matches!(discover(SearchEvent::Ready, 9, 9), SearchStep::Finish));
    assert!(matches!(discover(SearchEvent::Ready, 10, 9), SearchStep::Finish));
    let answer = || SearchEvent::Received(ANSWER.as_bytes().to_vec());
    assert!(matches!(discover(answer(), 9, 9), SearchStep::Add(_)));
    assert!(matches!(discover(answer(), 10, 9), SearchStep::Finish));
}

#[test]
fn blank_lines_other_headers_and_order_do_not_matter() {
    let a = "HTTP/1.1 200 OK\r\nid: 1\r\nLocation: yeelight://10.0.0.1:2\r\npower: off\r\n";
    let b = "HTTP/1.1 200 OK\r\n\r\npower: off\r\nExt: 1\r\nExt: 2\r\nLocation: yeelight://10.0.0.1:2\r\n \r\nid: 1";
    let read = |text: &str| format!("{:?}", parse_response(text).unwrap());
    assert_eq!(read(a), read(b));
}

#[test]
fn a_datagram_that_is_no_text_is_passed_over() {
    let mut bytes = ANSWER.as_bytes().to_vec();
    bytes.extend_from_slice(b"x: \xff\r\n");
    assert!(matches!(discover(SearchEvent::Received(bytes), 0, 1), SearchStep::PassOver));
}
