use std::collections::BTreeMap;

use defmt_decoder::Table;
use tracing_defmt::decoder::Error;
use tracing_defmt::decoder::Pull;
use tracing_defmt::decoder::TraceDecoder;
use tracing_defmt::location::Location;
use tracing_defmt::record::Record;
use tracing_defmt::sink::AttrValue;
use tracing_defmt::sink::Attribute;
use tracing_defmt::sink::SinkCall;

const NOTICE: &str = "\u{26a0}\u{fe0f}  Defmt stream malformed. Resetting decoder...";

/// The format strings of the device, by format index.
fn formats() -> Vec<(&'static str, &'static str)> {
    vec![
        ("Info", "span_enter: my_function(x={=u8}, y={=u8})"),
        ("Info", "Entered my_function with x={=u8}, y={=u8}"),
        ("Info", "span_enter: nested_call(value={=u8})"),
        ("Info", "Inside nested_call with value={=u8}"),
        ("Trace", "Very verbose info from nested call"),
        ("Info", "span_exit: nested_call"),
        ("Warn", "This is a warning inside the function"),
        ("Info", "span_exit: my_function"),
    ]
}

fn table_with(encoding: &str) -> Table {
    let mut entries = String::new();
    for (index, (tag, format)) in formats().iter().enumerate() {
        if index > 0 {
            entries.push(',');
        }
        entries.push_str(&format!(
            "\"{}\":{{\"string\":{{\"tag\":\"{}\",\"string\":\"{}\"}},\"raw_symbol\":\"sym{}\"}}",
            index, tag, format, index
        ));
    }
    let json = format!(
        "{{\"timestamp\":null,\"entries\":{{{}}},\"bitflags\":{{}},\"encoding\":\"{}\"}}",
        entries, encoding
    );
    serde_json::from_str(&json).unwrap()
}

fn location(file: &str, line: u64, module: &str) -> Location {
    Location { file: file.to_string(), line, module: module.to_string() }
}

fn locations() -> BTreeMap<u64, Location> {
    let mut map = BTreeMap::new();
    map.insert(0, location("src/main.rs", 12, "app"));
    map.insert(1, location("src/main.rs", 14, "app"));
    map.insert(2, location("src/nested.rs", 5, "app::nested"));
    map.insert(3, location("src/nested.rs", 7, "app::nested"));
    map
}

fn decoder() -> TraceDecoder {
    TraceDecoder::from_parts(table_with("Raw"), locations())
}

fn record(format_index: u64, text: &str) -> Record {
    Record { format_index, rendered_text: text.to_string() }
}

fn text(key: &str, value: &str) -> Attribute {
    Attribute { key: key.to_string(), value: AttrValue::Text(value.to_string()) }
}

fn number(key: &str, value: u64) -> Attribute {
    Attribute { key: key.to_string(), value: AttrValue::Number(value) }
}

fn scope_attrs(name: &str, file: &str, line: u64, module: &str) -> Vec<Attribute> {
    vec![
        text("code.function", name),
        text("code.filepath", file),
        number("code.lineno", line),
        text("code.namespace", module),
    ]
}

fn event_attrs(file: &str, line: u64, module: &str) -> Vec<Attribute> {
    vec![text("code.filepath", file), number("code.lineno", line), text("code.namespace", module)]
}

fn begin(handle: u64, parent: Option<u64>, name: &str, loc: (&str, u64, &str)) -> SinkCall {
    SinkCall::Begin {
        handle,
        parent,
        name: name.to_string(),
        attributes: scope_attrs(name, loc.0, loc.1, loc.2),
    }
}

fn event(scope: Option<u64>, message: &str, loc: (&str, u64, &str)) -> SinkCall {
    SinkCall::Event {
        scope,
        message: message.to_string(),
        attributes: event_attrs(loc.0, loc.1, loc.2),
    }
}

fn mirror(message: &str) -> SinkCall {
    SinkCall::Mirror { text: message.to_string() }
}

const UNKNOWN: (&str, u64, &str) = ("", 0, "rp_pico");

/// The bytes of the device's frames, unencoded: the format index in two
/// bytes, then the arguments.
fn scenario_bytes() -> Vec<u8> {
    vec![0, 0, 10, 20, 1, 0, 10, 20, 2, 0, 30, 3, 0, 30, 4, 0, 5, 0, 6, 0, 7, 0]
}

fn scenario_calls() -> Vec<SinkCall> {
    vec![
        begin(0, None, "my_function(x=10, y=20)", ("src/main.rs", 12, "app")),
        event(Some(0), "Entered my_function with x=10, y=20", ("src/main.rs", 14, "app")),
        mirror("Entered my_function with x=10, y=20"),
        begin(1, Some(0), "nested_call(value=30)", ("src/nested.rs", 5, "app::nested")),
        event(Some(1), "Inside nested_call with value=30", ("src/nested.rs", 7, "app::nested")),
        mirror("Inside nested_call with value=30"),
        event(Some(1), "Very verbose info from nested call", UNKNOWN),
        mirror("Very verbose info from nested call"),
        SinkCall::End { handle: 1 },
        event(Some(0), "This is a warning inside the function", UNKNOWN),
        mirror("This is a warning inside the function"),
        SinkCall::End { handle: 0 },
    ]
}

/// Whether a scope whose name begins with `name` was begun and ended.
fn entered_and_closed(calls: &[SinkCall], name: &str) -> bool {
    let mut handle = None;
    for call in calls {
        match call {
            SinkCall::Begin { handle: h, name: n, .. } if n.starts_with(name) => handle = Some(*h),
            SinkCall::End { handle: h } if Some(*h) == handle => return true,
            _ => {}
        }
    }
    false
}

#[test]
fn test_nested_span_reconstruction() {
    let logs = vec![
        "span_enter: my_function(x=10, y=20)".to_string(),
        "Entered my_function with x=10, y=20".to_string(),
        "span_enter: nested_call(value=30)".to_string(),
        "Inside nested_call with value=30".to_string(),
        "Very verbose info from nested call".to_string(),
        "span_exit: nested_call".to_string(),
        "This is a warning inside the function".to_string(),
        "span_exit: my_function".to_string(),
    ];

    let decoder = decoder();
    let mut stream = decoder.new_stream();
    let mut calls = Vec::new();
    for (index, line) in logs.iter().enumerate() {
        stream.handle_frame(&record(index as u64, line), &mut calls);
    }

    assert!(entered_and_closed(&calls, "my_function"));
    assert!(entered_and_closed(&calls, "nested_call"));
    assert_eq!(stream.depth(), 0);
    assert_eq!(calls, scenario_calls());
}

#[test]
fn end_to_end_scenario() {
    let lines = [
        "span_enter: my_function(x=10, y=20)",
        "Entered my_function with x=10, y=20",
        "span_enter: nested_call(value=30)",
        "Inside nested_call with value=30",
        "span_exit: nested_call",
        "This is a warning inside the function",
        "span_exit: my_function",
    ];
    let decoder = TraceDecoder::from_parts(table_with("Raw"), BTreeMap::new());
    let mut stream = decoder.new_stream();
    let mut calls = Vec::new();
    for line in lines {
        stream.handle_frame(&record(0, line), &mut calls);
    }
    assert_eq!(
        calls,
        vec![
            begin(0, None, "my_function(x=10, y=20)", UNKNOWN),
            event(Some(0), "Entered my_function with x=10, y=20", UNKNOWN),
            mirror("Entered my_function with x=10, y=20"),
            begin(1, Some(0), "nested_call(value=30)", UNKNOWN),
            event(Some(1), "Inside nested_call with value=30", UNKNOWN),
            mirror("Inside nested_call with value=30"),
            SinkCall::End { handle: 1 },
            event(Some(0), "This is a warning inside the function", UNKNOWN),
            mirror("This is a warning inside the function"),
            SinkCall::End { handle: 0 },
        ]
    );
    assert_eq!(stream.depth(), 0);
}

#[test]
fn process_decodes_device_bytes() {
    let decoder = decoder();
    let mut stream = decoder.new_stream();
    let calls = stream.process(&scenario_bytes()).unwrap();
    assert_eq!(calls, scenario_calls());
    assert_eq!(stream.depth(), 0);
}

#[test]
fn process_waits_for_the_rest_of_a_frame() {
    let decoder = decoder();
    let bytes = scenario_bytes();
    // One byte at a time gives the same calls as all bytes at once.
    let mut stream = decoder.new_stream();
    let mut calls = Vec::new();
    for byte in &bytes {
        calls.extend(stream.process(&[*byte]).unwrap());
    }
    assert_eq!(calls, scenario_calls());

    // A frame that lacks its arguments is no error: nothing comes out yet.
    let mut stream = decoder.new_stream();
    assert_eq!(stream.process(&[0, 0, 10]).unwrap(), vec![]);
    assert_eq!(stream.depth(), 0);
    let calls = stream.process(&[20]).unwrap();
    assert_eq!(calls, vec![begin(0, None, "my_function(x=10, y=20)", ("src/main.rs", 12, "app"))]);
    assert_eq!(stream.depth(), 1);
    assert_eq!(stream.process(&[]).unwrap(), vec![]);
}

#[test]
fn malformed_input_resets_the_decoder_and_keeps_the_stack() {
    let decoder = decoder();
    let mut stream = decoder.new_stream();
    // An enter record, then a format index that the table does not hold,
    // then bytes that would be a record.
    let calls = stream.process(&[0, 0, 10, 20, 99, 0, 7, 0]).unwrap();
    assert_eq!(
        calls,
        vec![
            begin(0, None, "my_function(x=10, y=20)", ("src/main.rs", 12, "app")),
            SinkCall::Diagnostic { text: NOTICE.to_string() },
        ]
    );
    // The open scope is still open, and what was buffered is gone.
    assert_eq!(stream.depth(), 1);
    assert_eq!(stream.process(&[]).unwrap(), vec![]);
    // The next ingest starts clean, under the scope that is still open.
    let calls = stream.process(&[6, 0, 7, 0]).unwrap();
    assert_eq!(
        calls,
        vec![
            event(Some(0), "This is a warning inside the function", UNKNOWN),
            mirror("This is a warning inside the function"),
            SinkCall::End { handle: 0 },
        ]
    );
    assert_eq!(stream.depth(), 0);
}

#[test]
fn resync_then_good_input_gives_what_good_input_gives() {
    let decoder = decoder();
    let mut resynced = decoder.new_stream();
    let first = resynced.process(&[99, 0, 1, 2, 3]).unwrap();
    assert_eq!(first, vec![SinkCall::Diagnostic { text: NOTICE.to_string() }]);
    let after = resynced.process(&scenario_bytes()).unwrap();

    let mut clean = decoder.new_stream();
    let alone = clean.process(&scenario_bytes()).unwrap();
    assert_eq!(after, alone);
    assert_eq!(resynced.depth(), clean.depth());
}

#[test]
fn rzcobs_stream_asks_for_more_until_a_frame_ends() {
    let decoder = TraceDecoder::from_parts(table_with("Rzcobs"), locations());
    let mut stream = decoder.new_stream();
    // Zero bytes separate frames: leading ones are dropped, and bytes
    // without a separator behind them are an unfinished frame.
    assert_eq!(stream.process(&[0, 0]).unwrap(), vec![]);
    assert_eq!(stream.process(&[5, 6]).unwrap(), vec![]);
    assert_eq!(stream.depth(), 0);
}

#[test]
fn rzcobs_frames_are_decoded() {
    let decoder = TraceDecoder::from_parts(table_with("Rzcobs"), locations());
    let mut stream = decoder.new_stream();
    // Two separators in front, which are dropped, then three frames, each
    // with its separator: enter with x=10 and y=20, the warning, the exit.
    let calls = stream
        .process(&[0, 0, 10, 20, 0x73, 0, 6, 0x7e, 0, 7, 0x7e, 0])
        .unwrap();
    assert_eq!(
        calls,
        vec![
            begin(0, None, "my_function(x=10, y=20)", ("src/main.rs", 12, "app")),
            event(Some(0), "This is a warning inside the function", UNKNOWN),
            mirror("This is a warning inside the function"),
            SinkCall::End { handle: 0 },
        ]
    );
    assert_eq!(stream.depth(), 0);
}

#[test]
fn rzcobs_frame_may_come_in_pieces() {
    let decoder = TraceDecoder::from_parts(table_with("Rzcobs"), locations());
    let mut stream = decoder.new_stream();
    assert_eq!(stream.process(&[0, 10]).unwrap(), vec![]);
    assert_eq!(stream.process(&[20, 0x73]).unwrap(), vec![]);
    let calls = stream.process(&[0]).unwrap();
    assert_eq!(calls, vec![begin(0, None, "my_function(x=10, y=20)", ("src/main.rs", 12, "app"))]);
}

#[test]
fn rzcobs_frame_with_a_zero_inside_is_malformed() {
    let decoder = TraceDecoder::from_parts(table_with("Rzcobs"), locations());
    let mut stream = decoder.new_stream();
    // The control byte asks for a data byte that is not there.
    let calls = stream.process(&[0x01, 0, 6, 0x7e, 0]).unwrap();
    assert_eq!(calls, vec![SinkCall::Diagnostic { text: NOTICE.to_string() }]);
    assert_eq!(stream.process(&[6, 0x7e, 0]).unwrap().len(), 2);
}

#[test]
fn absorb_reacts_to_each_outcome() {
    let decoder = decoder();
    let mut stream = decoder.new_stream();
    let mut calls = Vec::new();
    assert!(stream.absorb(Pull::Frame(record(2, "span_enter: f")), &mut calls));
    assert_eq!(calls, vec![begin(0, None, "f", ("src/nested.rs", 5, "app::nested"))]);
    assert!(!stream.absorb(Pull::NeedMore, &mut calls));
    assert_eq!(calls.len(), 1);
    assert_eq!(stream.depth(), 1);
    assert!(!stream.absorb(Pull::Malformed, &mut calls));
    assert_eq!(calls.len(), 2);
    assert_eq!(calls[1], SinkCall::Diagnostic { text: NOTICE.to_string() });
    assert_eq!(stream.depth(), 1);
}

#[test]
fn exit_without_open_scope_is_ignored() {
    let decoder = decoder();
    let mut stream = decoder.new_stream();
    let mut calls = Vec::new();
    stream.handle_frame(&record(7, "span_exit: my_function"), &mut calls);
    assert_eq!(calls, vec![]);
    assert_eq!(stream.depth(), 0);
    stream.handle_span_exit("whatever", &mut calls);
    assert_eq!(calls, vec![]);
    // The stream goes on as if nothing had been.
    stream.handle_frame(&record(9, "span_enter: f"), &mut calls);
    assert_eq!(calls, vec![begin(0, None, "f", UNKNOWN)]);
}

#[test]
fn exit_closes_the_innermost_scope_whatever_it_names() {
    let decoder = decoder();
    let mut stream = decoder.new_stream();
    let mut calls = Vec::new();
    stream.handle_frame(&record(9, "span_enter: outer"), &mut calls);
    stream.handle_frame(&record(9, "span_enter: inner"), &mut calls);
    calls.clear();
    stream.handle_frame(&record(9, "span_exit: outer"), &mut calls);
    assert_eq!(calls, vec![SinkCall::End { handle: 1 }]);
    assert_eq!(stream.depth(), 1);
}

#[test]
fn log_outside_any_scope_has_no_scope() {
    let decoder = decoder();
    let mut stream = decoder.new_stream();
    let mut calls = Vec::new();
    stream.handle_frame(&record(1, "hello"), &mut calls);
    assert_eq!(
        calls,
        vec![event(None, "hello", ("src/main.rs", 14, "app")), mirror("hello")]
    );
}

#[test]
fn log_is_attributed_to_the_innermost_of_three() {
    let decoder = decoder();
    let mut stream = decoder.new_stream();
    let mut calls = Vec::new();
    stream.handle_span_enter("a", &record(9, ""), &mut calls);
    stream.handle_span_enter("b", &record(9, ""), &mut calls);
    stream.handle_span_enter("c", &record(9, ""), &mut calls);
    calls.clear();
    stream.handle_log("deep", &record(9, ""), &mut calls);
    assert_eq!(calls, vec![event(Some(2), "deep", UNKNOWN), mirror("deep")]);
    assert_eq!(stream.depth(), 3);
}

#[test]
fn every_log_is_mirrored_once_with_the_same_text() {
    let decoder = decoder();
    let mut stream = decoder.new_stream();
    let calls = stream.process(&scenario_bytes()).unwrap();
    let mut events = Vec::new();
    let mut mirrors = Vec::new();
    for call in &calls {
        match call {
            SinkCall::Event { message, .. } => events.push(message.clone()),
            SinkCall::Mirror { text } => mirrors.push(text.clone()),
            _ => {}
        }
    }
    assert_eq!(events.len(), 4);
    assert_eq!(events, mirrors);
}

#[test]
fn known_index_gets_the_tables_location() {
    let decoder = decoder();
    assert_eq!(decoder.locate(2), location("src/nested.rs", 5, "app::nested"));
    assert_eq!(decoder.locate(0), location("src/main.rs", 12, "app"));
}

#[test]
fn unknown_index_gets_the_placeholder() {
    let decoder = decoder();
    assert_eq!(decoder.locate(4), location("", 0, "rp_pico"));
    assert_eq!(decoder.locate(u64::MAX), location("", 0, "rp_pico"));
}

#[test]
fn enter_strips_the_legacy_annotation() {
    let decoder = decoder();
    let mut stream = decoder.new_stream();
    let mut calls = Vec::new();
    stream.handle_frame(&record(0, "span_enter: f(x=1); file=src/lib.rs"), &mut calls);
    assert_eq!(calls, vec![begin(0, None, "f(x=1)", ("src/main.rs", 12, "app"))]);
}

#[test]
fn finish_closes_open_scopes_innermost_first() {
    let decoder = decoder();
    let mut stream = decoder.new_stream();
    let mut calls = Vec::new();
    stream.handle_span_enter("a", &record(9, ""), &mut calls);
    stream.handle_span_enter("b", &record(9, ""), &mut calls);
    stream.handle_span_enter("c", &record(9, ""), &mut calls);
    stream.handle_span_exit("c", &mut calls);
    stream.handle_span_enter("d", &record(9, ""), &mut calls);
    let closing = stream.finish();
    assert_eq!(
        closing,
        vec![
            SinkCall::End { handle: 3 },
            SinkCall::End { handle: 1 },
            SinkCall::End { handle: 0 },
        ]
    );
    assert_eq!(stream.depth(), 0);
    assert_eq!(stream.finish(), vec![]);
    // Handles go on behind the ones that were given out.
    calls.clear();
    stream.handle_span_enter("e", &record(9, ""), &mut calls);
    assert_eq!(calls, vec![begin(4, None, "e", UNKNOWN)]);
}

#[test]
fn streams_of_one_decoder_are_independent() {
    let decoder = decoder();
    let mut one = decoder.new_stream();
    let mut two = decoder.new_stream();
    let first = one.process(&[0, 0, 10, 20]).unwrap();
    assert_eq!(first.len(), 1);
    assert_eq!(one.depth(), 1);
    assert_eq!(two.depth(), 0);
    let second = two.process(&[6, 0]).unwrap();
    assert_eq!(
        second,
        vec![
            event(None, "This is a warning inside the function", UNKNOWN),
            mirror("This is a warning inside the function"),
        ]
    );
}

fn elf_header() -> Vec<u8> {
    let mut elf = vec![0x7f, b'E', b'L', b'F', 2, 1, 1, 0, 0, 0, 0, 0, 0, 0, 0, 0];
    elf.extend_from_slice(&1u16.to_le_bytes()); // relocatable file
    elf.extend_from_slice(&0x3eu16.to_le_bytes()); // machine
    elf.extend_from_slice(&1u32.to_le_bytes()); // version
    elf.extend_from_slice(&0u64.to_le_bytes()); // entry
    elf.extend_from_slice(&0u64.to_le_bytes()); // program headers
    elf.extend_from_slice(&0u64.to_le_bytes()); // section headers
    elf.extend_from_slice(&0u32.to_le_bytes()); // flags
    elf.extend_from_slice(&64u16.to_le_bytes()); // header size
    elf.extend_from_slice(&0u16.to_le_bytes());
    elf.extend_from_slice(&0u16.to_le_bytes());
    elf.extend_from_slice(&64u16.to_le_bytes());
    elf.extend_from_slice(&0u16.to_le_bytes());
    elf.extend_from_slice(&0u16.to_le_bytes());
    elf
}

#[test]
fn unreadable_image_is_an_elf_error() {
    match TraceDecoder::new(b"this is no debug image") {
        Err(Error::Elf(message)) => assert!(!message.is_empty()),
        _ => panic!("a decoder was built from garbage"),
    }
    assert!(matches!(TraceDecoder::new(&[]), Err(Error::Elf(_))));
}

#[test]
fn image_without_format_table_is_an_elf_error() {
    match TraceDecoder::new(&elf_header()) {
        Err(error) => assert_eq!(error, Error::Elf("No defmt table found".to_string())),
        Ok(_) => panic!("a decoder was built from an image without a table"),
    }
}

#[test]
fn decode_failure_converts_into_the_error() {
    let error = Error::from(defmt_decoder::DecodeError::Malformed);
    assert_eq!(error, Error::Defmt(defmt_decoder::DecodeError::Malformed));
    assert!(error != Error::Defmt(defmt_decoder::DecodeError::UnexpectedEof));
}

fn section_header(
    name: u32,
    kind: u32,
    offset: usize,
    size: usize,
    link: u32,
    info: u32,
    entry_size: u64,
) -> Vec<u8> {
    let mut header = Vec::new();
    header.extend_from_slice(&name.to_le_bytes());
    header.extend_from_slice(&kind.to_le_bytes());
    header.extend_from_slice(&0u64.to_le_bytes()); // flags
    header.extend_from_slice(&0u64.to_le_bytes()); // address
    header.extend_from_slice(&(offset as u64).to_le_bytes());
    header.extend_from_slice(&(size as u64).to_le_bytes());
    header.extend_from_slice(&link.to_le_bytes());
    header.extend_from_slice(&info.to_le_bytes());
    header.extend_from_slice(&1u64.to_le_bytes()); // alignment
    header.extend_from_slice(&entry_size.to_le_bytes());
    header
}

/// A relocatable image with a `.defmt` section and no debug information.
/// Each format string is a symbol in that section, at the address that is
/// its format index.
fn image_with_table(formats: &[(u64, &str)]) -> Vec<u8> {
    // Symbols: name, section, address.
    let mut symbols: Vec<(String, u16, u64)> = vec![
        ("_defmt_version_ = 4".to_string(), 0xfff1, 0),
        ("_defmt_encoding_ = raw".to_string(), 0xfff1, 0),
    ];
    for (index, format) in formats {
        let name = format!(
            "{{\"package\":\"app\",\"tag\":\"defmt_info\",\"data\":\"{}\",\"disambiguator\":\"{}\",\"crate_name\":\"app\"}}",
            format, index
        );
        symbols.push((name, 1, *index));
    }

    let mut strtab = vec![0u8];
    let mut symtab = vec![0u8; 24];
    for (name, section, address) in &symbols {
        let offset = strtab.len() as u32;
        strtab.extend_from_slice(name.as_bytes());
        strtab.push(0);
        symtab.extend_from_slice(&offset.to_le_bytes());
        symtab.push(0x11); // global object
        symtab.push(0);
        symtab.extend_from_slice(&section.to_le_bytes());
        symtab.extend_from_slice(&address.to_le_bytes());
        symtab.extend_from_slice(&1u64.to_le_bytes());
    }
    let mut shstrtab = b"\0.defmt\0.symtab\0.strtab\0.shstrtab\0".to_vec();
    // The section headers behind the names start at a multiple of eight.
    while (strtab.len() + shstrtab.len()) % 8 != 0 {
        shstrtab.push(0);
    }
    let defmt = vec![0u8; 16];

    let defmt_at = 64;
    let symtab_at = defmt_at + defmt.len();
    let strtab_at = symtab_at + symtab.len();
    let shstrtab_at = strtab_at + strtab.len();
    let headers_at = shstrtab_at + shstrtab.len();

    let mut elf = vec![0x7f, b'E', b'L', b'F', 2, 1, 1, 0, 0, 0, 0, 0, 0, 0, 0, 0];
    elf.extend_from_slice(&1u16.to_le_bytes()); // relocatable file
    elf.extend_from_slice(&0x3eu16.to_le_bytes()); // machine
    elf.extend_from_slice(&1u32.to_le_bytes()); // version
    elf.extend_from_slice(&0u64.to_le_bytes()); // entry
    elf.extend_from_slice(&0u64.to_le_bytes()); // program headers
    elf.extend_from_slice(&(headers_at as u64).to_le_bytes()); // section headers
    elf.extend_from_slice(&0u32.to_le_bytes()); // flags
    elf.extend_from_slice(&64u16.to_le_bytes()); // header size
    elf.extend_from_slice(&0u16.to_le_bytes());
    elf.extend_from_slice(&0u16.to_le_bytes());
    elf.extend_from_slice(&64u16.to_le_bytes()); // section header size
    elf.extend_from_slice(&5u16.to_le_bytes()); // section headers
    elf.extend_from_slice(&4u16.to_le_bytes()); // section names
    assert_eq!(elf.len(), 64);

    elf.extend_from_slice(&defmt);
    elf.extend_from_slice(&symtab);
    elf.extend_from_slice(&strtab);
    elf.extend_from_slice(&shstrtab);
    elf.extend_from_slice(&section_header(0, 0, 0, 0, 0, 0, 0));
    elf.extend_from_slice(&section_header(1, 1, defmt_at, defmt.len(), 0, 0, 0));
    elf.extend_from_slice(&section_header(8, 2, symtab_at, symtab.len(), 3, 1, 24));
    elf.extend_from_slice(&section_header(16, 3, strtab_at, strtab.len(), 0, 0, 0));
    elf.extend_from_slice(&section_header(24, 3, shstrtab_at, shstrtab.len(), 0, 0, 0));
    elf
}

#[test]
fn decoder_is_built_from_an_image_with_a_table() {
    let image = image_with_table(&[
        (1, "span_enter: boot"),
        (2, "hello {=u8}"),
        (3, "span_exit: boot"),
    ]);
    let decoder = match TraceDecoder::new(&image) {
        Ok(decoder) => decoder,
        Err(error) => panic!("no decoder: {:?}", error),
    };
    // The image holds no debug information, so no location is known.
    assert_eq!(decoder.locate(1), location("", 0, "rp_pico"));

    let mut stream = decoder.new_stream();
    let calls = stream.process(&[1, 0, 2, 0, 7, 3, 0]).unwrap();
    assert_eq!(
        calls,
        vec![
            begin(0, None, "boot", UNKNOWN),
            event(Some(0), "hello 7", UNKNOWN),
            mirror("hello 7"),
            SinkCall::End { handle: 0 },
        ]
    );
    assert_eq!(stream.depth(), 0);
}

#[test]
fn image_with_a_broken_format_symbol_is_an_elf_error() {
    let mut image = image_with_table(&[(1, "fine")]);
    // Break the quoting of the symbol's text.
    let at = image.windows(4).position(|w| w == b"fine").unwrap();
    image[at - 1] = b'x';
    assert!(matches!(TraceDecoder::new(&image), Err(Error::Elf(_))));
}
