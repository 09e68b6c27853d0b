use sakura::json::Param;
use sakura::wire::{write_command, LineReader, LineStep, ReadEvent, ReaderStep};
use std::io::{Error, ErrorKind};

fn feed(reader: &mut LineReader, bytes: &[u8]) -> Vec<String> {
    bytes.iter().filter_map(|b| reader.push(*b)).collect()
}

#[test]
fn a_command_is_one_line_of_json() {
    let line = write_command(7, "set_bright", &vec![
        Param::Int(40),
        Param::Text("smooth".to_string()),
        Param::Int(500),
    ]);
    assert_eq!(
        line.unwrap(),
        "{\"id\":7,\"method\":\"set_bright\",\"params\":[40,\"smooth\",500]}\r\n",
    );
    let line = write_command(u32::MAX, "toggle", &vec![]);
    assert_eq!(line.unwrap(), "{\"id\":4294967295,\"method\":\"toggle\",\"params\":[]}\r\n");
    let line = write_command(0, "adjust_bright", &vec![Param::Int(-20), Param::Int(i64::MIN)]);
    assert_eq!(
        line.unwrap(),
        "{\"id\":0,\"method\":\"adjust_bright\",\"params\":[-20,-9223372036854775808]}\r\n",
    );
}

#[test]
fn text_cannot_break_the_line() {
    let name = "a\r\nb\t\"c\\\u{0}\u{1f}é\u{1f338}\u{2028}\u{7f}";
    let line = write_command(1, "set_name", &vec![Param::Text(name.to_string())]).unwrap();
    let text = line.strip_suffix("\r\n").unwrap();
    assert!(text.chars().all(|c| c >= ' '));
    let value: serde_json::Value = serde_json::from_str(text).unwrap();
    assert_eq!(value["params"][0].as_str(), Some(name));
    assert_eq!(value["id"].as_u64(), Some(1));
    assert_eq!(value["method"].as_str(), Some("set_name"));
}

#[test]
fn what_is_written_reads_back() {
    let mut reader = LineReader::new();
    let mut sent = Vec::new();
    let mut bytes = Vec::new();
    for (id, name) in [(1, "desk"), (2, "é\u{1f338}"), (3, "")] {
        let line = write_command(id, "set_name", &vec![Param::Text(name.to_string())]).unwrap();
        bytes.extend_from_slice(line.as_bytes());
        sent.push(line.strip_suffix("\r\n").unwrap().to_string());
    }
    assert_eq!(feed(&mut reader, &bytes), sent);
    assert!(matches!(reader.read_line_raw(ReadEvent::Closed), LineStep::Line(rest) if rest.is_empty()));
}

#[test]
fn the_pieces_of_a_line_do_not_matter() {
    let bytes = b"one\r\ntwo\nthr\ree\r\n\r\nrest";
    let expected = vec!["one", "two", "three", ""];
    for cut in 0..=bytes.len() {
        let mut reader = LineReader::new();
        let mut lines = feed(&mut reader, &bytes[..cut]);
        lines.extend(feed(&mut reader, &bytes[cut..]));
        assert_eq!(lines, expected);
    }
}

#[test]
fn bytes_that_are_no_text_are_replaced() {
    let mut reader = LineReader::new();
    assert_eq!(feed(&mut reader, b"a\xffb\n"), vec!["a\u{fffd}b"]);
    assert_eq!(feed(&mut reader, b"\xe2\x82\n"), vec!["\u{fffd}"]);
}

#[test]
fn an_answer_ends_with_a_line_feed_or_with_the_connection() {
    let mut reader = LineReader::new();
    for b in b"ok\r" {
        assert!(matches!(reader.read_line_raw(ReadEvent::Byte(*b)), LineStep::More));
    }
    assert!(matches!(reader.read_line_raw(ReadEvent::Byte(b'\n')), LineStep::Line(l) if l == "ok"));
    for b in b"half" {
        assert!(matches!(reader.read_line_raw(ReadEvent::Byte(*b)), LineStep::More));
    }
    assert!(matches!(reader.read_line_raw(ReadEvent::Closed), LineStep::Line(l) if l == "half"));
}

#[test]
fn an_answer_is_not_waited_for_after_an_error() {
    let kinds = [ErrorKind::WouldBlock, ErrorKind::TimedOut, ErrorKind::ConnectionReset];
    for kind in kinds {
        let e = Error::from(kind);
        let event = match kind {
            ErrorKind::WouldBlock => ReadEvent::WouldBlock(e),
            ErrorKind::TimedOut => ReadEvent::TimedOut(e),
            _ => ReadEvent::Failed(e),
        };
        let step = LineReader::new().read_line_raw(event);
        assert!(matches!(step, LineStep::Failed(e) if e.kind() == kind));
    }
}

#[test]
fn notifications_are_read_until_the_connection_ends() {
    let mut reader = LineReader::new();
    let timeout = || Error::from(ErrorKind::TimedOut);
    assert!(matches!(reader.notification_reader(Some(ReadEvent::Byte(b'x'))), ReaderStep::Continue));
    assert!(matches!(reader.notification_reader(Some(ReadEvent::TimedOut(timeout()))), ReaderStep::Continue));
    assert!(matches!(reader.notification_reader(Some(ReadEvent::WouldBlock(timeout()))), ReaderStep::Continue));
    assert!(matches!(reader.notification_reader(Some(ReadEvent::Byte(b'\r'))), ReaderStep::Continue));
    let step = reader.notification_reader(Some(ReadEvent::Byte(b'\n')));
    assert!(matches!(step, ReaderStep::Line(line) if line == "x"));
    assert!(matches!(reader.notification_reader(Some(ReadEvent::Closed)), ReaderStep::Exit));
    assert!(matches!(reader.notification_reader(Some(ReadEvent::Failed(timeout()))), ReaderStep::Exit));
    assert!(matches!(reader.notification_reader(None), ReaderStep::Exit));
}
