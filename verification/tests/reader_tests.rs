use sclang_dispatch::command::Command;
use sclang_dispatch::dispatch::Dispatcher;
use sclang_dispatch::dispatch::RequestOutcome;
use sclang_dispatch::dispatch::WriterStep;
use sclang_dispatch::reader::process_output;
use sclang_dispatch::reader::reader_step;
use sclang_dispatch::reader::LogLevel;
use sclang_dispatch::reader::ReadEvent;

#[test]
fn nonempty_line_becomes_one_info_record() {
    let r = reader_step(ReadEvent::Line("compiling class library\n".to_string()));
    let rec = r.expect("a record");
    assert_eq!(rec.level, LogLevel::Info);
    assert_eq!(rec.message, "compiling class library\n");
}

#[test]
fn empty_read_produces_no_record() {
    assert!(reader_step(ReadEvent::Line(String::new())).is_none());
}

#[test]
fn failed_read_becomes_one_error_record() {
    let r = reader_step(ReadEvent::Failed("stream closed".to_string()));
    let rec = r.expect("a record");
    assert_eq!(rec.level, LogLevel::Error);
    assert_eq!(rec.message, "stream closed");
}

#[test]
fn k_lines_give_k_info_records_in_order() {
    let lines = ["one\n", "two\n", "three\n", "four\n"];
    let events: Vec<ReadEvent> = lines
        .iter()
        .map(|l| ReadEvent::Line(l.to_string()))
        .collect();
    let logs = process_output(events);
    assert_eq!(logs.len(), lines.len());
    for (rec, line) in logs.iter().zip(lines.iter()) {
        assert_eq!(rec.level, LogLevel::Info);
        assert_eq!(rec.message, *line);
    }
}

#[test]
fn errors_and_empty_reads_do_not_disturb_line_records() {
    let events = vec![
        ReadEvent::Line("first\n".to_string()),
        ReadEvent::Line(String::new()),
        ReadEvent::Failed("transient".to_string()),
        ReadEvent::Line("second\n".to_string()),
    ];
    let logs = process_output(events);
    assert_eq!(logs.len(), 3);
    assert_eq!(logs[0].level, LogLevel::Info);
    assert_eq!(logs[0].message, "first\n");
    assert_eq!(logs[1].level, LogLevel::Error);
    assert_eq!(logs[1].message, "transient");
    assert_eq!(logs[2].level, LogLevel::Info);
    assert_eq!(logs[2].message, "second\n");
}

#[test]
fn echoing_child_scenario() {
    // The child echoes its input line for line. A client posts "play\n":
    // the response is a success with nothing else in it, and eventually one
    // info-level record holds the echoed line.
    let mut d = Dispatcher::new();
    let r = d.handle_request(b"play\n".to_vec());
    assert_eq!(r, RequestOutcome::Accepted);

    let written: Vec<u8> = match d.next_command() {
        WriterStep::Deliver(c) => {
            let bytes = c.bytes().clone();
            d.record_write_ok();
            bytes
        }
        _ => unreachable!(),
    };
    assert_eq!(written, b"play\n".to_vec());

    // The echo comes back on the child's output stream.
    let echoed = String::from_utf8(written).unwrap();
    let rec = reader_step(ReadEvent::Line(echoed)).expect("a record");
    assert_eq!(rec.level, LogLevel::Info);
    assert!(rec.message.contains("play"));
}

#[test]
fn command_round_trip_keeps_bytes() {
    let c = Command::from_bytes(b"s.boot;\n".to_vec()).expect("valid UTF-8");
    assert_eq!(c.bytes(), &b"s.boot;\n".to_vec());
    assert!(Command::from_bytes(vec![0xC0, 0x80]).is_none());
}
