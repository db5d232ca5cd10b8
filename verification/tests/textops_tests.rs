use isu_processor::textops::find_bytes;
use isu_processor::textops::join_fields_exec;
use isu_processor::textops::split_fields_exec;
use isu_processor::textops::u64_to_decimal;

#[test]
fn decimal_rendering_exact() {
    assert_eq!(u64_to_decimal(0), b"0".to_vec());
    assert_eq!(u64_to_decimal(7), b"7".to_vec());
    assert_eq!(u64_to_decimal(10), b"10".to_vec());
    assert_eq!(u64_to_decimal(12345), b"12345".to_vec());
    assert_eq!(u64_to_decimal(u64::MAX), b"18446744073709551615".to_vec());
}

#[test]
fn split_and_join_fields() {
    let fields = split_fields_exec(b"Event,Index,DateTime");
    assert_eq!(
        fields,
        vec![b"Event".to_vec(), b"Index".to_vec(), b"DateTime".to_vec()]
    );
    let joined = join_fields_exec(&fields);
    assert_eq!(joined, b"Event,Index,DateTime".to_vec());
}

#[test]
fn split_fields_edges() {
    // the empty string splits into one empty field, as string splitting does
    assert_eq!(split_fields_exec(b""), vec![b"".to_vec()]);
    assert_eq!(split_fields_exec(b","), vec![b"".to_vec(), b"".to_vec()]);
    assert_eq!(
        split_fields_exec(b"a,,b"),
        vec![b"a".to_vec(), b"".to_vec(), b"b".to_vec()]
    );
}

#[test]
fn find_bytes_matches_anywhere() {
    assert!(find_bytes(b"xx***End_of_Header***yy", b"***End_of_Header***"));
    assert!(find_bytes(b"abc", b""));
    assert!(!find_bytes(b"abc", b"abcd"));
    assert!(!find_bytes(b"***End_of_Header**", b"***End_of_Header***"));
}
