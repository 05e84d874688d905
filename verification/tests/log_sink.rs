use usb_log::access::{log_panic, LogAccess, HALT_MESSAGE};
use usb_log::log_buffer::{LogBuffer, LogBufferInner};
use usb_log::record::{same_text, Level, LogRecord, Message, MAX_FILE_LEN, PANIC_TARGET};

fn record<'a>(
    target: &'a str,
    file: Option<&'a str>,
    line: Option<u32>,
    message: &'a str,
) -> LogRecord<'a> {
    LogRecord { level: Level::Info, target, file, line, message: Message::Text(message) }
}

fn render(record: &LogRecord) -> String {
    let mut b: LogBufferInner<256> = LogBufferInner::new();
    b.log(record);
    let mut out = Vec::new();
    while let Some(byte) = b.read() {
        out.push(byte);
    }
    String::from_utf8(out).unwrap()
}

fn read_all<const N: usize>(b: &LogBuffer<N>) -> String {
    let mut out = Vec::new();
    while let Some(byte) = b.read() {
        out.push(byte);
    }
    String::from_utf8(out).unwrap()
}

#[test]
fn record_with_file_and_line() {
    assert_eq!(render(&record("app", Some("main.rs"), Some(42), "boot")), "[main.rs:42] boot\n");
}

#[test]
fn record_without_file() {
    assert_eq!(render(&record("app", None, None, "boot")), "[???:0] boot\n");
}

#[test]
fn record_without_file_keeps_its_line() {
    assert_eq!(render(&record("app", None, Some(7), "boot")), "[???:7] boot\n");
}

#[test]
fn record_without_line() {
    assert_eq!(render(&record("app", Some("main.rs"), None, "boot")), "[main.rs:0] boot\n");
}

#[test]
fn long_file_name_is_cut_to_its_end() {
    let file = "0123456789abcdefghijklmnopqrstuvwxyzABCD";
    assert_eq!(file.len(), 40);
    assert_eq!(
        render(&record("app", Some(file), Some(1), "boot")),
        "[...89abcdefghijklmnopqrstuvwxyzABCD:1] boot\n"
    );
}

#[test]
fn file_name_of_the_longest_length_is_kept() {
    let file = "src/some/deeply/nested/module.rs";
    assert_eq!(file.len(), MAX_FILE_LEN);
    assert_eq!(
        render(&record("app", Some(file), Some(3), "x")),
        "[src/some/deeply/nested/module.rs:3] x\n"
    );
}

#[test]
fn file_name_one_byte_too_long_is_cut() {
    let file = "Xsrc/some/deeply/nested/module.rs";
    assert_eq!(file.len(), MAX_FILE_LEN + 1);
    assert_eq!(
        render(&record("app", Some(file), Some(3), "x")),
        "[...src/some/deeply/nested/module.rs:3] x\n"
    );
}

#[test]
fn panic_record() {
    assert_eq!(render(&record("PANIC", Some("main.rs"), Some(42), "it broke")), "[PANIC] it broke\n");
    assert_eq!(render(&LogRecord::panic(Message::Text("it broke"))), "[PANIC] it broke\n");
}

#[test]
fn target_must_match_exactly_to_mark_a_panic() {
    assert_eq!(render(&record("PANIC ", None, None, "m")), "[???:0] m\n");
    assert_eq!(render(&record("panic", None, None, "m")), "[???:0] m\n");
    assert_eq!(render(&record("", None, None, "m")), "[???:0] m\n");
    assert!(record(PANIC_TARGET, None, None, "m").has_panic_target());
    assert!(!record("PANIK", None, None, "m").has_panic_target());
}

#[test]
fn level_does_not_change_the_line() {
    for level in [Level::Error, Level::Warn, Level::Info, Level::Debug, Level::Trace] {
        let r = LogRecord {
            level,
            target: "app",
            file: Some("a.rs"),
            line: Some(5),
            message: Message::Text("m"),
        };
        assert_eq!(render(&r), "[a.rs:5] m\n");
    }
}

#[test]
fn location_message() {
    let r = LogRecord::panic(Message::Location("src/main.rs", 17));
    assert_eq!(render(&r), "[PANIC] at src/main.rs:17\n");
}

#[test]
fn empty_message() {
    assert_eq!(render(&record("app", Some("a.rs"), Some(1), "")), "[a.rs:1] \n");
}

#[test]
fn line_is_cut_where_the_buffer_fills_up() {
    let mut b: LogBufferInner<8> = LogBufferInner::new();
    b.log(&record("app", Some("main.rs"), Some(42), "boot"));
    let mut out = Vec::new();
    while let Some(byte) = b.read() {
        out.push(byte);
    }
    assert_eq!(out, b"[main.r".to_vec());
}

#[test]
fn queued_bytes_are_kept_on_overflow() {
    let mut b: LogBufferInner<16> = LogBufferInner::new();
    b.log(&record("app", Some("a.rs"), Some(1), "first"));
    b.log(&record("app", Some("b.rs"), Some(2), "second"));
    let mut out = Vec::new();
    while let Some(byte) = b.read() {
        out.push(byte);
    }
    assert_eq!(out, b"[a.rs:1] first\n".to_vec());
}

#[test]
fn same_text_compares_strings() {
    assert!(same_text("", ""));
    assert!(same_text("kiffielog", "kiffielog"));
    assert!(!same_text("kiffielog", "kiffielo"));
    assert!(!same_text("kiffielog", "kiffielog "));
    assert!(!same_text("abc", "abd"));
    assert!(same_text("h\u{e9}", "h\u{e9}"));
}

#[test]
fn shared_buffer_starts_empty() {
    let b: LogBuffer<8> = LogBuffer::new();
    assert!(b.is_empty());
    assert_eq!(b.read(), None);
}

#[test]
fn shared_buffer_logs_and_reads() {
    let b: LogBuffer<64> = LogBuffer::new();
    assert!(b.enabled(Level::Trace, "anything"));
    b.log(&record("app", Some("main.rs"), Some(42), "boot"));
    assert!(!b.is_empty());
    b.log(&record("app", None, None, "again"));
    assert_eq!(read_all(&b), "[main.rs:42] boot\n[???:0] again\n");
    assert!(b.is_empty());
}

#[test]
fn shared_buffer_drops_overflow_silently() {
    let b: LogBuffer<8> = LogBuffer::new();
    b.log(&record("app", Some("main.rs"), Some(42), "boot"));
    b.log(&record("app", Some("main.rs"), Some(43), "more"));
    assert_eq!(read_all(&b), "[main.r");
    b.log(&record("PANIC", None, None, "x"));
    assert_eq!(read_all(&b), "[PANIC]");
}

#[test]
fn panic_report_on_a_buffer_held_alone() {
    let mut b: LogBufferInner<128> = LogBufferInner::new();
    assert!(b.write_str("x\n").is_ok());
    log_panic(&mut b, Some(("src/main.rs", 17)), "index out of bounds");
    let mut out = Vec::new();
    while let Some(byte) = b.read() {
        out.push(byte);
    }
    assert_eq!(
        String::from_utf8(out).unwrap(),
        "x\n[PANIC] at src/main.rs:17\n[PANIC] index out of bounds\n[PANIC] entering endless loop.\n"
    );
    assert_eq!(HALT_MESSAGE, "entering endless loop.");
}

#[test]
fn panic_is_logged_place_first() {
    let b: LogBuffer<128> = LogBuffer::new();
    let mut log = &b;
    log_panic(&mut log, Some(("src/main.rs", 17)), "boom");
    assert_eq!(
        read_all(&b),
        "[PANIC] at src/main.rs:17\n[PANIC] boom\n[PANIC] entering endless loop.\n"
    );
}

#[test]
fn panic_without_a_location_is_logged() {
    let b: LogBuffer<128> = LogBuffer::new();
    let mut log = &b;
    log_panic(&mut log, None, "boom");
    assert_eq!(read_all(&b), "[PANIC] boom\n[PANIC] entering endless loop.\n");
}

#[test]
fn panic_place_survives_overflow() {
    let b: LogBuffer<32> = LogBuffer::new();
    let mut log = &b;
    log_panic(&mut log, Some(("src/main.rs", 17)), "boom");
    assert_eq!(read_all(&b), "[PANIC] at src/main.rs:17\n[PANI");
}

#[test]
fn access_to_a_shared_buffer_logs_and_reads() {
    let b: LogBuffer<64> = LogBuffer::new();
    let mut access = &b;
    LogAccess::log(&mut access, &record("app", Some("a.rs"), Some(1), "m"));
    assert_eq!(LogAccess::read(&mut access), Some(b'['));
    assert_eq!(read_all(&b), "a.rs:1] m\n");
}

#[test]
fn access_to_a_buffer_held_alone_logs_and_reads() {
    let mut b: LogBufferInner<64> = LogBufferInner::new();
    LogAccess::log(&mut b, &record("app", Some("a.rs"), Some(1), "m"));
    assert_eq!(LogAccess::read(&mut b), Some(b'['));
    assert_eq!(b.read(), Some(b'a'));
}
