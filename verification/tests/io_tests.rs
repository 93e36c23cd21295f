use ppe_core::io::MemoryIO;

#[test]
fn opening_a_missing_file_sets_the_error_flag() {
    let mut io = MemoryIO::new();
    io.fopen(1, &"NOSUCH.DAT".to_string());
    assert!(io.ferr(1));
}

#[test]
fn channel_error_flag_lifecycle() {
    // Opening a non-existent file for read sets the channel's error flag; a
    // subsequent read returns empty text and leaves the flag set; closing
    // and re-opening a valid path clears it.
    let mut io = MemoryIO::new();
    io.fopen(2, &"MISSING.TXT".to_string());
    assert!(io.ferr(2));
    let line = io.fget(2);
    assert_eq!(line.as_str(), "");
    assert!(io.ferr(2));
    io.fclose(2);
    assert!(!io.ferr(2));
    io.files.insert("GOOD.TXT".to_string(), "hello".to_string());
    io.fopen(2, &"GOOD.TXT".to_string());
    assert!(!io.ferr(2));
    assert_eq!(io.fget(2).as_str(), "hello");
}

#[test]
fn create_put_rewind_get_round_trip() {
    let mut io = MemoryIO::new();
    io.fcreate(0, &"LOG.TXT".to_string());
    io.fput(0, "first line\n".to_string());
    io.fput(0, "second line".to_string());
    io.frewind(0);
    assert_eq!(io.fget(0).as_str(), "first line");
    assert_eq!(io.fget(0).as_str(), "second line");
    assert!(!io.ferr(0));
    // Past the end, the flag goes up and the text is empty.
    assert_eq!(io.fget(0).as_str(), "");
    assert!(io.ferr(0));
}

#[test]
fn append_positions_at_the_end() {
    let mut io = MemoryIO::new();
    io.files.insert("A.TXT".to_string(), "one\n".to_string());
    io.fappend(3, &"A.TXT".to_string());
    io.fput(3, "two\n".to_string());
    io.frewind(3);
    assert_eq!(io.fget(3).as_str(), "one");
    assert_eq!(io.fget(3).as_str(), "two");
}

#[test]
fn append_creates_a_missing_file() {
    let mut io = MemoryIO::new();
    io.fappend(4, &"NEW.TXT".to_string());
    assert!(!io.ferr(4));
    assert!(io.file_exists(&"NEW.TXT".to_string()));
}

#[test]
fn create_truncates_an_existing_file() {
    let mut io = MemoryIO::new();
    io.files.insert("B.TXT".to_string(), "old content".to_string());
    io.fcreate(5, &"B.TXT".to_string());
    assert_eq!(io.get_file_size(&"B.TXT".to_string()), 0);
}

#[test]
fn put_without_an_open_file_sets_the_flag() {
    let mut io = MemoryIO::new();
    io.fput(6, "text".to_string());
    assert!(io.ferr(6));
}

#[test]
fn whole_file_operations() {
    let mut io = MemoryIO::new();
    io.files.insert("SRC.TXT".to_string(), "data".to_string());
    io.copy(&"SRC.TXT".to_string(), &"DST.TXT".to_string());
    assert!(io.file_exists(&"DST.TXT".to_string()));
    assert_eq!(io.get_file_size(&"DST.TXT".to_string()), 4);
    io.rename(&"DST.TXT".to_string(), &"MOVED.TXT".to_string());
    assert!(!io.file_exists(&"DST.TXT".to_string()));
    assert!(io.file_exists(&"MOVED.TXT".to_string()));
    io.delete(&"MOVED.TXT".to_string());
    assert!(!io.file_exists(&"MOVED.TXT".to_string()));
    assert_eq!(io.get_file_size(&"MOVED.TXT".to_string()), 0);
}

#[test]
fn put_at_the_start_inserts_before_the_content() {
    // A channel opened for read sits at position zero; writing there puts
    // the text in front of the existing content.
    let mut io = MemoryIO::new();
    io.files.insert("C.TXT".to_string(), "world".to_string());
    io.fopen(7, &"C.TXT".to_string());
    io.fput(7, "hello ".to_string());
    io.frewind(7);
    assert_eq!(io.fget(7).as_str(), "hello world");
}

#[test]
fn rewind_without_an_open_file_sets_the_flag() {
    let mut io = MemoryIO::new();
    io.frewind(0);
    assert!(io.ferr(0));
}
