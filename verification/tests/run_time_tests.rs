use isu_processor::run_time::parent_dir_name;
use isu_processor::run_time::resolve_run_time;
use isu_processor::ISUProcessorError;

#[test]
fn run_time_from_directory_pattern() {
    // Feb_13_2023_14_29 renders back as the canonical timestamp
    let t = resolve_run_time("./test_data/Feb_13_2023_14_29/Most Engineering Data.txt");
    assert_eq!(t, Ok(String::from("2023-02-13 14:29:00")));
}

#[test]
fn run_time_other_months_and_zero_padding() {
    let t = resolve_run_time("Dec_1_2024_03_05/x.txt");
    assert_eq!(t, Ok(String::from("2024-12-01 03:05:00")));
}

#[test]
fn malformed_run_directory_is_time_parsing_error() {
    let t = resolve_run_time("./test_data/NotARunDirectory/Events.txt");
    assert_eq!(t, Err(ISUProcessorError::TimeParsingError));
}

#[test]
fn path_without_parent_is_blank_path() {
    assert_eq!(
        resolve_run_time("just_a_file.txt"),
        Err(ISUProcessorError::BlankPath)
    );
    assert_eq!(resolve_run_time(""), Err(ISUProcessorError::BlankPath));
}

#[test]
fn parent_directory_name_extraction() {
    assert_eq!(
        parent_dir_name("./a/b/c.txt"),
        Some(String::from("b"))
    );
    assert_eq!(
        parent_dir_name("Feb_13_2023_14_29/tail.txt"),
        Some(String::from("Feb_13_2023_14_29"))
    );
    assert_eq!(parent_dir_name("alone"), None);
}
