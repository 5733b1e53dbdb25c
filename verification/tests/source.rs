use elfparse::{ByteSource, ElfErrorKind};

#[test]
fn read_delivers_and_advances() {
    let mut source = ByteSource::new(vec![1, 2, 3, 4, 5]);
    assert_eq!(source.len(), 5);
    assert_eq!(source.stream_position(), 0);
    assert_eq!(source.read(2), vec![1, 2]);
    assert_eq!(source.stream_position(), 2);
    assert_eq!(source.read(0), Vec::<u8>::new());
    assert_eq!(source.stream_position(), 2);
}

#[test]
fn read_is_short_at_the_end() {
    let mut source = ByteSource::new(vec![1, 2, 3, 4, 5]);
    source.seek(3);
    assert_eq!(source.read(4), vec![4, 5]);
    assert_eq!(source.stream_position(), 5);
    assert_eq!(source.read(1), Vec::<u8>::new());
    assert_eq!(source.stream_position(), 5);
    assert_eq!(source.read(u64::MAX), Vec::<u8>::new());
}

#[test]
fn seek_past_the_end_reads_nothing() {
    let mut source = ByteSource::new(vec![1, 2, 3]);
    source.seek(u64::MAX);
    assert_eq!(source.read(8), Vec::<u8>::new());
    assert_eq!(source.stream_position(), u64::MAX);
    source.seek(1);
    assert_eq!(source.read(u64::MAX), vec![2, 3]);
}

#[test]
fn integers_are_read_in_sequence() {
    let mut source = ByteSource::new(vec![
        0x01, 0x02, 0x01, 0x02, 0x03, 0x04, 0xff, 0, 0, 0, 0, 0, 0, 0,
    ]);
    assert_eq!(source.read_u16().unwrap(), 0x0201);
    assert_eq!(source.read_u32().unwrap(), 0x0403_0201);
    assert_eq!(source.read_u64().unwrap(), 255);
    assert_eq!(source.stream_position(), 14);
}

#[test]
fn integer_cut_short_is_io() {
    let mut source = ByteSource::new(vec![1, 2, 3]);
    assert_eq!(source.read_u32().unwrap_err().kind, ElfErrorKind::Io);
    assert_eq!(source.stream_position(), 3);
    source.seek(2);
    assert_eq!(source.read_u16().unwrap_err().kind, ElfErrorKind::Io);
    source.seek(0);
    assert_eq!(source.read_u64().unwrap_err().kind, ElfErrorKind::Io);
    assert_eq!(source.stream_position(), 3);
}
