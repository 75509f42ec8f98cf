use mate::net::read;
use mate::stream::{ByteRead, MemoryStream, StreamError};

const LEN: usize = 255;
const APPEND: usize = 25;
const APPEND_VAL: u8 = 5;

/// A reader that reports "would block" once everything was read.
struct Eof2WouldBlock(MemoryStream);

impl ByteRead for Eof2WouldBlock {
    fn read_bytes(&mut self, max: usize) -> Result<Vec<u8>, StreamError> {
        if self.0.position() >= self.0.get_ref().len() {
            return Err(StreamError::WouldBlock);
        }
        self.0.read_bytes(max)
    }
}

#[test]
fn write_read() {
    // setup write
    let buffer = (0u8..).take(LEN).collect::<Vec<u8>>();
    let mut writer = MemoryStream::new(Vec::new());

    // write
    let (amt, should_close, would_block) = mate::net::write(&mut writer, &buffer[..]);
    assert_eq!(amt, LEN);
    assert_eq!(should_close, false);
    assert_eq!(would_block, false);

    // setup read
    writer.set_position(0);
    let mut reader = Eof2WouldBlock(writer);
    let mut read_buffer = Vec::new();

    // read
    let (amt, should_close) = read(&mut reader, &mut read_buffer);
    assert_eq!(amt, LEN);
    assert_eq!(should_close, false);

    // verify
    assert_eq!(&buffer, &read_buffer);
}

#[test]
fn write_read_append() {
    // setup write
    let buffer = (0u8..).take(LEN).collect::<Vec<u8>>();
    let mut writer = MemoryStream::new(Vec::new());

    // write
    let (amt, should_close, would_block) = mate::net::write(&mut writer, &buffer[..]);
    assert_eq!(amt, LEN);
    assert_eq!(should_close, false);
    assert_eq!(would_block, false);

    // setup read
    writer.set_position(0);
    let mut reader = Eof2WouldBlock(writer);
    let mut read_buffer = Vec::new();

    // append
    read_buffer.extend_from_slice(&[APPEND_VAL; APPEND]);

    // read
    let (amt, should_close) = read(&mut reader, &mut read_buffer);
    assert_eq!(amt, LEN);
    assert_eq!(should_close, false);

    // verify
    assert_eq!(&[APPEND_VAL; APPEND], &read_buffer[..APPEND]);
    assert_eq!(&buffer, &read_buffer[APPEND..]);
}

#[test]
fn read_would_block_leaves_buffer() {
    let mut reader = Eof2WouldBlock(MemoryStream::new(vec![1, 2, 3]));
    reader.0.set_position(3);
    let mut read_buffer = vec![9];
    assert_eq!(read(&mut reader, &mut read_buffer), (0, false));
    assert_eq!(read_buffer, vec![9]);
}

#[test]
fn read_closed_stream() {
    let mut reader = MemoryStream::new(vec![1, 2, 3]);
    reader.set_position(3);
    let mut read_buffer = Vec::new();
    assert_eq!(read(&mut reader, &mut read_buffer), (0, true));
}
