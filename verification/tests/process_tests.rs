use isu_processor::processor::artifact_name;
use isu_processor::CheckpointStore;
use isu_processor::ISUFile;
use isu_processor::ISUProcessor;
use isu_processor::ISUProcessorError;

const TIME: &str = "2023-02-13 14:29:00";
const TAB_PATH: &str = "./test_data/Feb_13_2023_14_29/Temperature.txt";
const EVENT_PATH: &str = "./test_data/Feb_13_2023_14_29/Events.txt";

fn engine() -> ISUProcessor {
    let store = CheckpointStore::open_in_memory().unwrap();
    let isu = ISUProcessor::with_store(store);
    isu.init().unwrap();
    isu
}

fn tabular_file(body: &str) -> Vec<u8> {
    let mut data = Vec::new();
    data.extend_from_slice(b"LabVIEW measurement block\n");
    data.extend_from_slice(b"***End_of_Header***\n");
    data.extend_from_slice(b"channel block\n");
    data.extend_from_slice(b"***End_of_Header***\n");
    data.extend_from_slice(body.as_bytes());
    data
}

#[test]
fn tabular_initial_round_trip_columns() {
    // header [A, B, C] comes out as [A, B, DateTime]; every data row gets
    // exactly one trailing run-timestamp field
    let mut isu = engine();
    let data = tabular_file("A,B,C\n1,2,3\n4,5,6\n");
    let artifact = isu.process(TAB_PATH, &data, true).unwrap();
    let expected = format!("A,B,DateTime\n1,2,3,{TIME}\n4,5,6,{TIME}\n");
    assert_eq!(artifact, expected.into_bytes());

    let cp = isu.fetch(TAB_PATH).unwrap().unwrap();
    assert_eq!(cp.path, TAB_PATH);
    assert_eq!(cp.last_position_read, data.len() as i64);
    assert_eq!(cp.last_index, 0);
    assert_eq!(cp.headers, "A,B,DateTime");
    assert_eq!(cp.time, TIME);
}

#[test]
fn idempotent_resume_emits_header_only() {
    // processing the same untouched file twice: the second artifact holds
    // only the header row and the checkpoint offset does not change
    let mut isu = engine();
    let data = tabular_file("A,B,C\n1,2,3\n");
    isu.process(TAB_PATH, &data, true).unwrap();
    let first = isu.fetch(TAB_PATH).unwrap().unwrap();

    let artifact = isu.process(TAB_PATH, &data, true).unwrap();
    assert_eq!(artifact, b"A,B,DateTime\n".to_vec());
    let second = isu.fetch(TAB_PATH).unwrap().unwrap();
    assert_eq!(second.last_position_read, first.last_position_read);
    assert_eq!(second.last_index, first.last_index);
    assert_eq!(second.headers, first.headers);
    assert_eq!(second.time, first.time);
}

#[test]
fn tabular_tail_emits_only_new_records() {
    let mut isu = engine();
    let mut data = tabular_file("A,B,C\n1,2,3\n");
    isu.process(TAB_PATH, &data, true).unwrap();

    data.extend_from_slice(b"7,8,9\n");
    let artifact = isu.process(TAB_PATH, &data, true).unwrap();
    let expected = format!("A,B,DateTime\n7,8,9,{TIME}\n");
    assert_eq!(artifact, expected.into_bytes());
    let cp = isu.fetch(TAB_PATH).unwrap().unwrap();
    assert_eq!(cp.last_position_read, data.len() as i64);
}

#[test]
fn monotonic_offset_across_tails() {
    // across a growing file, the offset never decreases and always equals
    // the byte length consumed so far
    let mut isu = engine();
    let mut data = tabular_file("A,B,C\n");
    isu.process(TAB_PATH, &data, true).unwrap();
    let mut last = isu.fetch(TAB_PATH).unwrap().unwrap().last_position_read;
    assert_eq!(last, data.len() as i64);
    for chunk in ["1,2,3\n", "", "4,5,6\n7,8,9\n"] {
        data.extend_from_slice(chunk.as_bytes());
        isu.process(TAB_PATH, &data, true).unwrap();
        let pos = isu.fetch(TAB_PATH).unwrap().unwrap().last_position_read;
        assert!(pos >= last);
        assert_eq!(pos, data.len() as i64);
        last = pos;
    }
}

#[test]
fn quoted_fields_survive_the_round_trip() {
    // a delimited field holding a comma is parsed and re-encoded, not
    // copied through verbatim
    let mut isu = engine();
    let data = tabular_file("A,B,C\n1,\"x,y\",3\n");
    let artifact = isu.process(TAB_PATH, &data, true).unwrap();
    let expected = format!("A,B,DateTime\n1,\"x,y\",3,{TIME}\n");
    assert_eq!(artifact, expected.into_bytes());
}

#[test]
fn event_sequencing() {
    // lines x, y, z with their line artifacts: initial processing emits
    // (x,0,T) (y,1,T) (z,2,T); one appended line emits only (w,3,T) and the
    // stored index becomes 4
    let mut isu = engine();
    let mut data = b"x\r\r\ny\r\r\nz\r\r\n".to_vec();
    let artifact = isu.process(EVENT_PATH, &data, true).unwrap();
    let expected = format!("Event,Index,DateTime\nx,0,{TIME}\ny,1,{TIME}\nz,2,{TIME}\n");
    assert_eq!(artifact, expected.into_bytes());
    let cp = isu.fetch(EVENT_PATH).unwrap().unwrap();
    assert_eq!(cp.last_index, 3);
    assert_eq!(cp.last_position_read, data.len() as i64);
    assert_eq!(cp.headers, "Event,Index,DateTime");

    data.extend_from_slice(b"w\n");
    let artifact = isu.process(EVENT_PATH, &data, true).unwrap();
    let expected = format!("Event,Index,DateTime\nw,3,{TIME}\n");
    assert_eq!(artifact, expected.into_bytes());
    let cp = isu.fetch(EVENT_PATH).unwrap().unwrap();
    assert_eq!(cp.last_index, 4);
    assert_eq!(cp.last_position_read, data.len() as i64);
}

#[test]
fn event_initial_strips_terminator_and_artifacts() {
    // the last content character before the two artifact characters stays
    let mut isu = engine();
    let data = b"Test Event\r\r\n".to_vec();
    let artifact = isu.process(EVENT_PATH, &data, true).unwrap();
    let expected = format!("Event,Index,DateTime\nTest Event,0,{TIME}\n");
    assert_eq!(artifact, expected.into_bytes());
}

#[test]
fn event_line_too_short_is_format_error() {
    let mut isu = engine();
    let result = isu.process(EVENT_PATH, b"x\n", true);
    assert_eq!(result, Err(ISUProcessorError::FormatError));
    assert!(isu.fetch(EVENT_PATH).unwrap().is_none());
}

#[test]
fn malformed_run_directory_leaves_no_checkpoint() {
    // a parent directory that does not match the date pattern fails with
    // TimeParsingError and writes nothing
    let mut isu = engine();
    let path = "./test_data/NotARunDirectory/Events.txt";
    let result = isu.process(path, b"ev\r\r\n", true);
    assert_eq!(result, Err(ISUProcessorError::TimeParsingError));
    assert!(isu.fetch(path).unwrap().is_none());

    let tab = "./test_data/NotARunDirectory/Temperature.txt";
    let result = isu.process(tab, &tabular_file("A,B\n1,2\n"), true);
    assert_eq!(result, Err(ISUProcessorError::TimeParsingError));
    assert!(isu.fetch(tab).unwrap().is_none());
}

#[test]
fn missing_preamble_is_format_error() {
    let mut isu = engine();
    let result = isu.process(TAB_PATH, b"A,B,C\n1,2,3\n", true);
    assert_eq!(result, Err(ISUProcessorError::FormatError));

    // one sentinel is not enough
    let result = isu.process(TAB_PATH, b"x\n***End_of_Header***\nA,B\n", true);
    assert_eq!(result, Err(ISUProcessorError::FormatError));
    assert!(isu.fetch(TAB_PATH).unwrap().is_none());
}

#[test]
fn missing_channel_is_a_hard_failure() {
    let mut isu = engine();
    let data = tabular_file("A,B,C\n1,2,3\n");
    let result = isu.process(TAB_PATH, &data, false);
    assert_eq!(result, Err(ISUProcessorError::NoChannelError));
    assert!(isu.fetch(TAB_PATH).unwrap().is_none());
}

#[test]
fn checkpoint_beyond_end_of_file_consumes_nothing() {
    // seeking past the end reads nothing and keeps the stored offset
    let mut isu = engine();
    isu.commit(&ISUFile {
        path: EVENT_PATH.to_string(),
        last_position_read: 1000,
        last_index: 5,
        headers: "Event,Index,DateTime".to_string(),
        time: TIME.to_string(),
    })
    .unwrap();
    let artifact = isu.process(EVENT_PATH, b"only\n", true).unwrap();
    assert_eq!(artifact, b"Event,Index,DateTime\n".to_vec());
    let cp = isu.fetch(EVENT_PATH).unwrap().unwrap();
    assert_eq!(cp.last_position_read, 1000);
    assert_eq!(cp.last_index, 5);
}

#[test]
fn negative_checkpoint_offset_is_integer_conversion_error() {
    let mut isu = engine();
    isu.commit(&ISUFile {
        path: TAB_PATH.to_string(),
        last_position_read: -1,
        last_index: 0,
        headers: "A,B".to_string(),
        time: TIME.to_string(),
    })
    .unwrap();
    let result = isu.process(TAB_PATH, b"1,2\n", true);
    assert_eq!(result, Err(ISUProcessorError::IntegerConversionError));
}

#[test]
fn non_utf8_header_is_csv_error() {
    let mut isu = engine();
    let mut data = tabular_file("");
    data.extend_from_slice(&[0xFFu8, 0xFE, b',', b'B', b'\n']);
    data.extend_from_slice(b"1,2\n");
    let result = isu.process(TAB_PATH, &data, true);
    assert_eq!(result, Err(ISUProcessorError::CSVError));
}

#[test]
fn artifact_names_are_fresh_csv_files() {
    let a = artifact_name();
    let b = artifact_name();
    assert_eq!(a.len(), 40);
    assert!(a.ends_with(".csv"));
    assert_ne!(a, b);
}

#[test]
fn empty_event_tail_line_keeps_empty_text() {
    // a tail pops only the terminator, so a bare newline is an empty event
    let mut isu = engine();
    let mut data = b"x\r\r\n".to_vec();
    isu.process(EVENT_PATH, &data, true).unwrap();
    data.extend_from_slice(b"\n");
    let artifact = isu.process(EVENT_PATH, &data, true).unwrap();
    let expected = format!("Event,Index,DateTime\n,1,{TIME}\n");
    assert_eq!(artifact, expected.into_bytes());
}
