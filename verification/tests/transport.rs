use mate::framing::{encode_frame, find_frame, Buffer, Header, HEADER_SIZE};
use mate::peer::{absorb_probe, raw_read_once, raw_write, NetError, Packet, Peer};
use mate::stream::{ByteRead, ByteWrite, MemoryStream, StreamError};
use mate::worker::{PeerTable, TokenSource, WAKER_TOKEN};

/// A packet whose encoding is its bytes.
#[derive(Debug, Clone, PartialEq)]
struct Bytes(Vec<u8>);

impl Packet for Bytes {
    fn expected_size(&self) -> usize {
        self.0.len()
    }

    fn write_buf(self, buffer: &mut Vec<u8>) {
        buffer.extend_from_slice(&self.0);
    }

    fn read_buf(buffer: &[u8]) -> Result<Self, String> {
        if buffer == b"bad" {
            return Err("bad packet".to_owned());
        }
        Ok(Bytes(buffer.to_vec()))
    }
}

/// A socket that takes at most `room` bytes in total, then would block; it
/// reads from `input`, then would block.
struct Pipe {
    written: Vec<u8>,
    room: usize,
    input: MemoryStream,
}

impl Pipe {
    fn new(room: usize, input: Vec<u8>) -> Self {
        Pipe { written: Vec::new(), room, input: MemoryStream::new(input) }
    }
}

impl ByteWrite for Pipe {
    fn write_bytes(&mut self, data: &[u8]) -> Result<usize, StreamError> {
        if self.room == 0 {
            return Err(StreamError::WouldBlock);
        }
        let n = data.len().min(self.room);
        self.written.extend_from_slice(&data[..n]);
        self.room -= n;
        Ok(n)
    }
}

impl ByteRead for Pipe {
    fn read_bytes(&mut self, max: usize) -> Result<Vec<u8>, StreamError> {
        if self.input.position() >= self.input.get_ref().len() {
            return Err(StreamError::WouldBlock);
        }
        self.input.read_bytes(max.min(3))
    }
}

/// A socket whose peer has closed it.
struct Closed;

impl ByteWrite for Closed {
    fn write_bytes(&mut self, _data: &[u8]) -> Result<usize, StreamError> {
        Ok(0)
    }
}

impl ByteRead for Closed {
    fn read_bytes(&mut self, _max: usize) -> Result<Vec<u8>, StreamError> {
        Ok(Vec::new())
    }
}

#[test]
fn frame_has_little_endian_length_header() {
    let frame = encode_frame(&[9, 8, 7]).unwrap();
    assert_eq!(frame, vec![3, 0, 0, 0, 9, 8, 7]);
    let mut rest: &[u8] = &frame;
    assert_eq!(Header::read(&mut rest), Some(3));
    assert_eq!(rest, &[9, 8, 7]);
    let mut short: &[u8] = &frame[..3];
    assert_eq!(Header::read(&mut short), None);
    assert_eq!(short, &[3, 0, 0]);
    assert_eq!(HEADER_SIZE, 4);
}

#[test]
fn frame_round_trip() {
    let mut bytes = encode_frame(b"hello").unwrap();
    bytes.extend_from_slice(&[1, 2]);
    let (start, end) = find_frame(&bytes).unwrap();
    assert_eq!(&bytes[start..end], b"hello");
    assert_eq!(&bytes[end..], &[1, 2]);
    assert_eq!(find_frame(&bytes[..6]), None);
}

#[test]
fn header_written_in_place() {
    let mut buffer = vec![0xAA];
    let header = Header::new(&mut buffer);
    buffer.extend_from_slice(&[5, 6]);
    assert!(header.write(&mut buffer, 2).is_ok());
    assert_eq!(buffer, vec![0xAA, 2, 0, 0, 0, 5, 6]);
}

#[test]
fn buffer_consumes_from_front() {
    let mut buffer = Buffer::new();
    assert!(buffer.is_empty());
    buffer.copy_from(&[1, 2, 3, 4]);
    assert_eq!(buffer.advance_read(1), vec![1]);
    assert_eq!(buffer.get_written(), &[2, 3, 4]);
    buffer.consume(2);
    assert_eq!(buffer.get_written(), &[4]);
    buffer.reset();
    assert!(buffer.is_empty());
}

#[test]
fn raw_write_stops_when_socket_blocks() {
    let mut socket = Pipe::new(3, Vec::new());
    let mut buffer = Buffer::new();
    buffer.copy_from(&[1, 2, 3, 4, 5]);
    assert!(matches!(raw_write(&mut socket, &mut buffer), Ok(false)));
    assert_eq!(socket.written, vec![1, 2, 3]);
    assert_eq!(buffer.get_written(), &[4, 5]);
    let mut closed = Closed;
    assert!(matches!(raw_write(&mut closed, &mut buffer), Err(NetError::PeerClosed)));
}

#[test]
fn raw_read_once_appends() {
    let mut socket = Pipe::new(0, vec![7, 8, 9, 10]);
    let mut buffer = Buffer::new();
    buffer.copy_from(&[1]);
    assert!(matches!(raw_read_once(&mut socket, &mut buffer), Ok(true)));
    assert_eq!(buffer.get_written(), &[1, 7, 8, 9]);
    let mut closed = Closed;
    assert!(matches!(raw_read_once(&mut closed, &mut buffer), Err(NetError::PeerClosed)));
}

#[test]
fn peer_write_keeps_what_the_socket_refused() {
    let mut peer = Peer::new(Pipe::new(5, Vec::new()));
    let mut temp = Buffer::new();
    assert!(!peer.conected());
    peer.write_packet(Bytes(vec![1, 2, 3]), &mut temp).unwrap();
    assert!(!peer.writeable());
    assert_eq!(peer.socket().written, vec![3, 0, 0, 0, 1]);
    peer.set_conected();
    assert!(peer.conected());
}

#[test]
fn peer_reads_frames_across_reads() {
    let mut input = encode_frame(&[1, 2, 3, 4, 5]).unwrap();
    input.extend(encode_frame(&[6]).unwrap());
    let mut peer = Peer::new(Pipe::new(0, input));
    let mut temp = Buffer::new();
    assert_eq!(peer.read_packet::<Bytes>(&mut temp).unwrap(), Some(Bytes(vec![1, 2, 3, 4, 5])));
    assert_eq!(peer.read_packet::<Bytes>(&mut temp).unwrap(), Some(Bytes(vec![6])));
    assert_eq!(peer.read_packet::<Bytes>(&mut temp).unwrap(), None);
}

#[test]
fn peer_reports_undecodable_payload() {
    let input = encode_frame(b"bad").unwrap();
    let mut peer = Peer::new(Pipe::new(0, input));
    let mut temp = Buffer::new();
    let result = peer.read_packet::<Bytes>(&mut temp);
    assert!(matches!(result, Err(NetError::ParsingError(message)) if message == "bad packet"));
}

#[test]
fn net_error_chain_keeps_cause() {
    let e = NetError::PeerClosed.chain("Write packet".to_owned());
    assert!(matches!(e, NetError::Chain(m, cause) if m == "Write packet" && matches!(*cause, NetError::PeerClosed)));
}

#[test]
fn tokens_skip_the_waker() {
    let mut tokens = TokenSource::new();
    let first = tokens.next_token().unwrap();
    let second = tokens.next_token().unwrap();
    assert_ne!(first, WAKER_TOKEN);
    assert_eq!(first, 1);
    assert_eq!(second, 2);
}

#[test]
fn peer_table_send_to_unknown_peer() {
    let mut table: PeerTable<Pipe> = PeerTable::new();
    let mut temp = Buffer::new();
    let result = table.send_packet(4, Bytes(vec![1]), &mut temp);
    assert!(matches!(result, Err(NetError::UnknownPeer(4))));
}

#[test]
fn peer_table_drops_closed_peers_on_broadcast() {
    let mut table: PeerTable<Pipe> = PeerTable::new();
    table.insert(1, Peer::new(Pipe::new(100, Vec::new())));
    table.insert(2, Peer::new(Pipe::new(100, Vec::new())));
    let mut temp = Buffer::new();
    assert!(table.send_packet(1, Bytes(vec![5]), &mut temp).is_ok());
    let failed = table.broadcast(Bytes(vec![6]), &mut temp);
    assert!(failed.is_empty());
    assert!(table.contains(1) && table.contains(2));
    let peer = table.take(1).unwrap();
    assert_eq!(peer.socket().written, vec![1, 0, 0, 0, 5, 1, 0, 0, 0, 6]);
    assert!(!table.contains(1));
    table.insert(3, Peer::new(Pipe::new(0, Vec::new())));
    assert!(table.remove(2));
    assert!(!table.remove(2));
}

#[test]
fn peer_table_broadcast_reports_failures() {
    let mut table: PeerTable<Closed> = PeerTable::new();
    table.insert(7, Peer::new(Closed));
    let mut temp = Buffer::new();
    let failed = table.broadcast(Bytes(vec![1]), &mut temp);
    assert_eq!(failed.len(), 1);
    assert_eq!(failed[0].0, 7);
    assert!(matches!(failed[0].1, NetError::PeerClosed));
    assert!(!table.contains(7));
}

#[test]
fn absorb_probe_outcomes() {
    let mut buffer = Buffer::new();
    buffer.copy_from(&[1]);
    assert!(matches!(absorb_probe(Ok(vec![2, 3]), &mut buffer), Ok(true)));
    assert_eq!(buffer.get_written(), &[1, 2, 3]);
    assert!(matches!(absorb_probe(Ok(Vec::new()), &mut buffer), Err(NetError::PeerClosed)));
    assert!(matches!(absorb_probe(Err(StreamError::WouldBlock), &mut buffer), Ok(false)));
    assert!(matches!(absorb_probe(Err(StreamError::Other), &mut buffer), Err(NetError::Io(StreamError::Other))));
    assert_eq!(buffer.get_written(), &[1, 2, 3]);
}

#[test]
fn header_read_moves_past_the_header() {
    let bytes = [0x02u8, 0x01, 0x00, 0x00, 0xAA];
    let mut rest: &[u8] = &bytes;
    assert_eq!(Header::read(&mut rest), Some(258));
    assert_eq!(rest, &[0xAA]);
}
