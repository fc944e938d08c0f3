use jp_plateau_tool::ndjson::write_lines;

#[test]
fn no_record_no_byte() {
    assert_eq!(write_lines(&vec![]), Vec::<u8>::new());
}

#[test]
fn each_record_ends_its_line() {
    let records = vec![b"{\"a\":1}".to_vec(), b"{}".to_vec(), b"".to_vec()];
    assert_eq!(write_lines(&records), b"{\"a\":1}\n{}\n\n".to_vec());
}

#[test]
fn one_record_one_line() {
    assert_eq!(write_lines(&vec![b"x".to_vec()]), b"x\n".to_vec());
}

#[test]
fn buffers_of_two_files_follow_each_other() {
    let first = vec![b"1".to_vec(), b"2".to_vec()];
    let second = vec![b"3".to_vec()];
    let mut both = first.clone();
    both.extend(second.clone());
    let mut appended = write_lines(&first);
    appended.extend(write_lines(&second));
    assert_eq!(write_lines(&both), appended);
}
