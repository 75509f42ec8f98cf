use mate::net::{absorb_read, try_read_once, try_write, write_remaining, Decoded, PacketSink, PacketSource, ReadProgress};
use mate::stream::{ByteRead, ByteWrite, MemoryStream, StreamError};

/// Packets of one length byte and that many bytes.
struct Queue(Vec<Vec<u8>>);

impl PacketSource for Queue {
    fn queued(&self) -> usize {
        self.0.len()
    }

    fn next_packet(&mut self, buffer: &mut Vec<u8>) -> bool {
        if self.0.is_empty() {
            return false;
        }
        let p = self.0.remove(0);
        buffer.push(p.len() as u8);
        buffer.extend_from_slice(&p);
        true
    }
}

/// Collects decoded packets.
#[derive(Default)]
struct Collect(Vec<Vec<u8>>);

impl PacketSink for Collect {
    fn decode_one(&mut self, data: &[u8]) -> Decoded {
        match data.first() {
            None => Decoded::Incomplete,
            Some(0xFF) => Decoded::Invalid,
            Some(&n) if data.len() > n as usize => {
                self.0.push(data[1..=n as usize].to_vec());
                Decoded::Packet(n as usize + 1)
            }
            Some(_) => Decoded::Incomplete,
        }
    }
}

/// Takes at most `room` bytes, then would block.
struct Narrow {
    written: Vec<u8>,
    room: usize,
}

impl ByteWrite for Narrow {
    fn write_bytes(&mut self, data: &[u8]) -> Result<usize, StreamError> {
        if self.room == 0 {
            return Err(StreamError::WouldBlock);
        }
        let n = data.len().min(self.room);
        self.written.extend_from_slice(&data[..n]);
        self.room -= n;
        Ok(n)
    }
}

/// Hands out its chunks, then would block.
struct Chunks(Vec<Vec<u8>>);

impl ByteRead for Chunks {
    fn read_bytes(&mut self, max: usize) -> Result<Vec<u8>, StreamError> {
        if self.0.is_empty() {
            return Err(StreamError::WouldBlock);
        }
        let mut c = self.0.remove(0);
        c.truncate(max);
        Ok(c)
    }
}

#[test]
fn pump_writes_queued_packets() {
    let mut writer = MemoryStream::new(Vec::new());
    let mut queue = Queue(vec![vec![1, 2], vec![3]]);
    let (mut packet_buffer, mut write_buffer) = (Vec::new(), Vec::new());
    let mut writeable = true;
    let close = try_write(&mut writer, &mut packet_buffer, &mut write_buffer, &mut queue, &mut writeable, &true);
    assert!(!close);
    assert!(writeable);
    assert_eq!(writer.get_ref(), &vec![2, 1, 2, 1, 3]);
    assert!(write_buffer.is_empty());
}

#[test]
fn pump_keeps_what_did_not_go_out() {
    let mut writer = Narrow { written: Vec::new(), room: 2 };
    let mut queue = Queue(vec![vec![7, 8, 9]]);
    let (mut packet_buffer, mut write_buffer) = (Vec::new(), Vec::new());
    let mut writeable = true;
    assert!(!try_write(&mut writer, &mut packet_buffer, &mut write_buffer, &mut queue, &mut writeable, &true));
    assert!(!writeable);
    assert_eq!(writer.written, vec![3, 7]);
    assert_eq!(write_buffer, vec![8, 9]);
    writer.room = 10;
    assert_eq!(write_remaining(&mut writer, &mut write_buffer), (false, false));
    assert!(write_buffer.is_empty());
    assert_eq!(writer.written, vec![3, 7, 8, 9]);
}

#[test]
fn pump_idle_when_not_writeable() {
    let mut writer = MemoryStream::new(Vec::new());
    let mut queue = Queue(vec![vec![1]]);
    let (mut packet_buffer, mut write_buffer) = (Vec::new(), vec![5]);
    let mut writeable = false;
    assert!(!try_write(&mut writer, &mut packet_buffer, &mut write_buffer, &mut queue, &mut writeable, &true));
    assert_eq!(write_buffer, vec![5]);
    assert!(writer.get_ref().is_empty());
}

#[test]
fn pump_decodes_complete_packets_and_keeps_the_rest() {
    let mut reader = Chunks(vec![vec![2, 10, 11, 3, 20], vec![21, 22]]);
    let mut read_buffer = Vec::new();
    let mut sink = Collect::default();
    assert_eq!(try_read_once(&mut reader, &mut read_buffer, &mut sink), ReadProgress::Continue);
    assert_eq!(sink.0, vec![vec![10, 11]]);
    assert_eq!(read_buffer, vec![3, 20]);
    assert_eq!(try_read_once(&mut reader, &mut read_buffer, &mut sink), ReadProgress::Continue);
    assert_eq!(sink.0, vec![vec![10, 11], vec![20, 21, 22]]);
    assert!(read_buffer.is_empty());
    assert_eq!(try_read_once(&mut reader, &mut read_buffer, &mut sink), ReadProgress::WouldBlock);
}

#[test]
fn pump_closes_on_invalid_data() {
    let mut reader = Chunks(vec![vec![0xFF, 1]]);
    let mut read_buffer = Vec::new();
    let mut sink = Collect::default();
    assert_eq!(try_read_once(&mut reader, &mut read_buffer, &mut sink), ReadProgress::Close);
    let mut closed = Chunks(vec![Vec::new()]);
    assert_eq!(try_read_once(&mut closed, &mut read_buffer, &mut sink), ReadProgress::Close);
}

#[test]
fn absorb_read_outcomes() {
    let mut buffer = vec![1];
    assert_eq!(absorb_read(Ok(vec![2, 3]), &mut buffer), (2, false));
    assert_eq!(buffer, vec![1, 2, 3]);
    assert_eq!(absorb_read(Ok(Vec::new()), &mut buffer), (0, true));
    assert_eq!(absorb_read(Err(StreamError::WouldBlock), &mut buffer), (0, false));
    assert_eq!(absorb_read(Err(StreamError::Other), &mut buffer), (0, true));
    assert_eq!(buffer, vec![1, 2, 3]);
}
