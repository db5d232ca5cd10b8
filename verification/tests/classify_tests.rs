use isu_processor::classify::classify;
use isu_processor::FileKind;

#[test]
fn format_dispatch_event_paths() {
    // the marker routes to the event-log strategy wherever it appears
    assert_eq!(
        classify("./test_data/Feb_13_2023_14_29/Events.txt"),
        FileKind::EventLog
    );
    assert_eq!(classify("Events"), FileKind::EventLog);
    assert_eq!(classify("prefixEventssuffix.bin"), FileKind::EventLog);
    assert_eq!(classify("/some/Events/dir/data.txt"), FileKind::EventLog);
}

#[test]
fn format_dispatch_tabular_paths() {
    // any path without the marker routes to the tabular strategy
    assert_eq!(
        classify("./test_data/Feb_13_2023_14_29/Temperature.txt"),
        FileKind::Tabular
    );
    assert_eq!(classify(""), FileKind::Tabular);
    assert_eq!(classify("Event.txt"), FileKind::Tabular);
}

#[test]
fn format_dispatch_is_case_sensitive() {
    assert_eq!(classify("./run/events.txt"), FileKind::Tabular);
    assert_eq!(classify("./run/EVENTS.txt"), FileKind::Tabular);
}
