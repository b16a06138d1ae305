use midair_proto::ack::{Ack, AckStatus, Echo};
use midair_proto::ble;
use midair_proto::bulk::{Event, NoFirmware, Owner, Sink, Transfer, CONFIG_MAX, IDLE_TIMEOUT_MS};
use midair_proto::link::{crc32, crc32_continue};

/// A [`Sink`] that keeps what it was given, so a test can check the
/// bytes that came out the far end.
#[derive(Default)]
struct VecSink {
    accept_begin: bool,
    fail_write_at: Option<u32>,
    fail_finish: bool,
    image: Vec<u8>,
    finished: bool,
    cancels: u32,
}

impl VecSink {
    fn ready() -> Self {
        Self {
            accept_begin: true,
            ..Default::default()
        }
    }
}

impl Sink for VecSink {
    fn begin(&mut self, _total: u32) -> bool {
        self.image.clear();
        self.finished = false;
        self.accept_begin
    }
    fn write(&mut self, offset: u32, bytes: &[u8]) -> bool {
        if self.fail_write_at == Some(offset) {
            return false;
        }
        assert_eq!(offset as usize, self.image.len(), "chunks arrive in order");
        self.image.extend_from_slice(bytes);
        true
    }
    fn finish(&mut self) -> bool {
        self.finished = !self.fail_finish;
        self.finished
    }
    fn cancel(&mut self) {
        self.cancels += 1;
    }
}

fn begin_op(kind: u8, data: &[u8]) -> Vec<u8> {
    let mut v = vec![ble::OP_BEGIN, kind];
    v.extend_from_slice(&(data.len() as u32).to_le_bytes());
    v.extend_from_slice(&crc32(data).to_le_bytes());
    v.extend_from_slice(&0u16.to_le_bytes());
    v
}

fn data_op(seq: u16, chunk: &[u8]) -> Vec<u8> {
    let mut v = vec![ble::OP_DATA];
    v.extend_from_slice(&seq.to_le_bytes());
    v.extend_from_slice(chunk);
    v
}

fn status(a: &Ack) -> AckStatus {
    a.status
}

fn next_seq(a: &Ack) -> u32 {
    match a.echo {
        Echo::Word(seq) => seq,
        other => panic!("an ack that carries {other:?}"),
    }
}

/// Push a whole transfer through and return the last event.
fn push<S: Sink>(t: &mut Transfer, kind: u8, payload: &[u8], sink: &mut S) -> Event {
    let (_, a) = t.handle(Owner::Ble, 0, &begin_op(kind, payload), sink);
    assert_eq!(status(&a), AckStatus::Applied, "begin");
    let mut seq = 0u16;
    for chunk in payload.chunks(ble::BULK_DATA_MAX) {
        let (_, a) = t.handle(Owner::Ble, 0, &data_op(seq, chunk), sink);
        assert_eq!(status(&a), AckStatus::Applied, "chunk {seq}");
        seq = next_seq(&a) as u16;
    }
    let (event, a) = t.handle(Owner::Ble, 0, &[ble::OP_END], sink);
    assert_eq!(status(&a), AckStatus::Applied, "end");
    event
}

const TOML: &[u8] = b"[radio]\nfrequency_hz = 915000000\naddress = 7\n";

#[test]
fn a_config_arrives_whole() {
    let mut t = Transfer::new();
    assert_eq!(push(&mut t, ble::KIND_TOML, TOML, &mut NoFirmware), Event::Config);
    assert_eq!(t.bytes(), TOML);
    assert!(!t.is_active());
}

/// The reference config is longer than one chunk, which is the case the
/// sequence numbers exist for.
#[test]
fn a_multi_chunk_config_reassembles() {
    let big: Vec<u8> = (0..CONFIG_MAX).map(|i| b'a' + (i % 26) as u8).collect();
    let mut t = Transfer::new();
    assert_eq!(push(&mut t, ble::KIND_TOML, &big, &mut NoFirmware), Event::Config);
    assert_eq!(t.bytes(), big.as_slice());
}

/// A corrupt payload must not be parsed as a config. The CRC is the
/// only thing that would catch it: every op was individually well
/// formed.
#[test]
fn a_bad_crc_is_refused() {
    let mut t = Transfer::new();
    let mut op = begin_op(ble::KIND_TOML, TOML);
    op[6] ^= 0xFF; // corrupt the declared crc
    t.handle(Owner::Ble, 0, &op, &mut NoFirmware);
    t.handle(Owner::Ble, 0, &data_op(0, TOML), &mut NoFirmware);
    let (event, a) = t.handle(Owner::Ble, 0, &[ble::OP_END], &mut NoFirmware);
    assert_eq!(event, Event::Nothing);
    assert_eq!(status(&a), AckStatus::BadValue);
    assert!(!t.is_active());
}

#[test]
fn a_short_transfer_is_refused() {
    let mut t = Transfer::new();
    // Declares more than it sends.
    let mut op = begin_op(ble::KIND_TOML, TOML);
    op[2] = op[2].wrapping_add(1);
    t.handle(Owner::Ble, 0, &op, &mut NoFirmware);
    t.handle(Owner::Ble, 0, &data_op(0, TOML), &mut NoFirmware);
    let (_, a) = t.handle(Owner::Ble, 0, &[ble::OP_END], &mut NoFirmware);
    assert_eq!(status(&a), AckStatus::BadValue);
}

/// More bytes than declared are refused as they arrive, rather than
/// running off the end of the buffer.
#[test]
fn an_overlong_transfer_is_refused() {
    let mut t = Transfer::new();
    t.handle(Owner::Ble, 0, &begin_op(ble::KIND_TOML, TOML), &mut NoFirmware);
    let too_much = [b'x'; 100];
    assert!(too_much.len() > TOML.len() && too_much.len() <= ble::BULK_DATA_MAX);
    let (_, a) = t.handle(Owner::Ble, 0, &data_op(0, &too_much), &mut NoFirmware);
    assert_eq!(status(&a), AckStatus::BadValue);
    assert!(!t.is_active());
}

#[test]
fn a_config_larger_than_the_buffer_is_refused_at_begin() {
    let mut t = Transfer::new();
    let big = vec![b'x'; CONFIG_MAX + 1];
    let (_, a) = t.handle(Owner::Ble, 0, &begin_op(ble::KIND_TOML, &big), &mut NoFirmware);
    assert_eq!(status(&a), AckStatus::BadValue);
    assert!(!t.is_active());
}

/// The retry the host actually performs: an ack was lost, so it sends
/// the same chunk again. It must re-ack, not desync.
#[test]
fn a_repeated_chunk_is_re_acked() {
    let mut t = Transfer::new();
    t.handle(Owner::Ble, 0, &begin_op(ble::KIND_TOML, TOML), &mut NoFirmware);
    let (_, first) = t.handle(Owner::Ble, 0, &data_op(0, TOML), &mut NoFirmware);
    let (_, again) = t.handle(Owner::Ble, 0, &data_op(0, TOML), &mut NoFirmware);
    assert_eq!(status(&again), AckStatus::Applied);
    assert_eq!(next_seq(&again), next_seq(&first));
    // And the bytes landed once, not twice.
    let (event, _) = t.handle(Owner::Ble, 0, &[ble::OP_END], &mut NoFirmware);
    assert_eq!(event, Event::Config);
    assert_eq!(t.bytes(), TOML);
}

/// A chunk from nowhere near the current position is a real desync.
#[test]
fn a_jumped_sequence_is_rejected() {
    let mut t = Transfer::new();
    t.handle(Owner::Ble, 0, &begin_op(ble::KIND_TOML, TOML), &mut NoFirmware);
    let (_, a) = t.handle(Owner::Ble, 0, &data_op(5, TOML), &mut NoFirmware);
    assert_eq!(status(&a), AckStatus::BadValue);
}

/// The END whose ack went missing. Once the caller has applied the
/// config, a repeat is the success it was - the host would otherwise
/// report a failure for work that is committed.
#[test]
fn a_repeated_end_answers_the_applied_config() {
    let mut t = Transfer::new();
    assert_eq!(push(&mut t, ble::KIND_TOML, TOML, &mut NoFirmware), Event::Config);
    // Before the caller applies it, a repeat is not a success.
    let (_, a) = t.handle(Owner::Ble, 0, &[ble::OP_END], &mut NoFirmware);
    assert_eq!(status(&a), AckStatus::BadState);
    t.mark_applied();
    let (event, a) = t.handle(Owner::Ble, 0, &[ble::OP_END], &mut NoFirmware);
    assert_eq!(status(&a), AckStatus::Applied);
    // And it does not re-fire the work.
    assert_eq!(event, Event::Nothing);
}

/// Two transports cannot interleave into one buffer.
#[test]
fn the_second_transport_is_refused() {
    let mut t = Transfer::new();
    t.handle(Owner::Ble, 0, &begin_op(ble::KIND_TOML, TOML), &mut NoFirmware);
    let (_, a) = t.handle(Owner::Usb, 0, &begin_op(ble::KIND_TOML, TOML), &mut NoFirmware);
    assert_eq!(status(&a), AckStatus::BadState);
    // Nor can it push data or end the transfer.
    let (_, a) = t.handle(Owner::Usb, 0, &data_op(0, TOML), &mut NoFirmware);
    assert_eq!(status(&a), AckStatus::BadState);
    let (_, a) = t.handle(Owner::Usb, 0, &[ble::OP_END], &mut NoFirmware);
    assert_eq!(status(&a), AckStatus::BadState);
    // And an abort from the other transport does not cancel it.
    t.handle(Owner::Usb, 0, &[ble::OP_ABORT], &mut NoFirmware);
    assert!(t.is_active());
    // The owner still finishes normally.
    t.handle(Owner::Ble, 0, &data_op(0, TOML), &mut NoFirmware);
    let (event, _) = t.handle(Owner::Ble, 0, &[ble::OP_END], &mut NoFirmware);
    assert_eq!(event, Event::Config);
}

/// The owner restarting from the top is a host retry, not a collision.
#[test]
fn the_owner_may_restart() {
    let mut t = Transfer::new();
    t.handle(Owner::Ble, 0, &begin_op(ble::KIND_TOML, TOML), &mut NoFirmware);
    t.handle(Owner::Ble, 0, &data_op(0, &TOML[..4]), &mut NoFirmware);
    assert_eq!(push(&mut t, ble::KIND_TOML, TOML, &mut NoFirmware), Event::Config);
    assert_eq!(t.bytes(), TOML);
}

/// A host that walks away mid-upload must not hold the board.
#[test]
fn an_idle_transfer_expires() {
    let mut t = Transfer::new();
    let mut sink = VecSink::ready();
    t.handle(Owner::Ble, 1_000, &begin_op(ble::KIND_OTA, TOML), &mut sink);
    assert!(t.is_active());
    assert!(!t.expire(1_000 + IDLE_TIMEOUT_MS - 1, &mut sink));
    assert!(t.expire(1_000 + IDLE_TIMEOUT_MS, &mut sink));
    assert!(!t.is_active());
    // The sink was told, so whatever it claimed is released.
    assert_eq!(sink.cancels, 1);
    // And expiring again does nothing.
    assert!(!t.expire(u64::MAX, &mut sink));
}

/// Only the owner's own ops keep a transfer alive; polling from the
/// other transport must not extend it.
#[test]
fn the_other_transport_cannot_hold_a_transfer_open() {
    let mut t = Transfer::new();
    t.handle(Owner::Ble, 0, &begin_op(ble::KIND_TOML, TOML), &mut NoFirmware);
    t.handle(Owner::Usb, IDLE_TIMEOUT_MS - 1, &[ble::OP_END], &mut NoFirmware);
    assert!(t.expire(IDLE_TIMEOUT_MS, &mut NoFirmware));
}

#[test]
fn a_firmware_image_streams_through_the_sink() {
    let image: Vec<u8> = (0..1000u32).map(|i| (i % 251) as u8).collect();
    let mut t = Transfer::new();
    let mut sink = VecSink::ready();
    assert_eq!(push(&mut t, ble::KIND_OTA, &image, &mut sink), Event::Firmware);
    assert_eq!(sink.image, image);
    assert!(sink.finished);
    assert_eq!(sink.cancels, 0);
    // An image is not buffered, so the config view stays empty.
    assert!(t.bytes().is_empty() || t.kind() == ble::KIND_OTA);
}

/// The running CRC has to agree with the whole-buffer one, or a good
/// image would be rejected at the last step.
#[test]
fn the_streaming_crc_matches_the_one_shot_crc() {
    for len in [0usize, 1, 7, 192, 193, 1000] {
        let data: Vec<u8> = (0..len).map(|i| (i % 251) as u8).collect();
        let mut running = 0;
        for chunk in data.chunks(192.max(1)) {
            running = crc32_continue(running, chunk);
        }
        assert_eq!(running, crc32(&data), "len {len}");
    }
}

/// A board with no OTA partitions says so at begin rather than
/// accepting an image it has nowhere to put - and says it as a board
/// error, since the bytes the host sent were fine.
#[test]
fn firmware_is_refused_where_there_is_no_sink() {
    let mut t = Transfer::new();
    let (_, a) = t.handle(Owner::Ble, 0, &begin_op(ble::KIND_OTA, b"image"), &mut NoFirmware);
    assert_eq!(status(&a), AckStatus::BoardError);
    assert!(!t.is_active());
    // An empty image is a bad op, which is a different answer.
    let (_, a) = t.handle(Owner::Ble, 0, &begin_op(ble::KIND_OTA, b""), &mut NoFirmware);
    assert_eq!(status(&a), AckStatus::BadValue);
}

#[test]
fn a_failed_write_ends_the_transfer() {
    let image = vec![0xABu8; 400];
    let mut t = Transfer::new();
    let mut sink = VecSink {
        fail_write_at: Some(192),
        ..VecSink::ready()
    };
    t.handle(Owner::Ble, 0, &begin_op(ble::KIND_OTA, &image), &mut sink);
    let (_, a) = t.handle(Owner::Ble, 0, &data_op(0, &image[..192]), &mut sink);
    assert_eq!(status(&a), AckStatus::Applied);
    let (_, a) = t.handle(Owner::Ble, 0, &data_op(1, &image[192..384]), &mut sink);
    assert_eq!(status(&a), AckStatus::BoardError);
    assert!(!t.is_active());
    assert_eq!(sink.cancels, 1);
}

#[test]
fn a_failed_finish_is_reported() {
    let image = vec![0xABu8; 100];
    let mut t = Transfer::new();
    let mut sink = VecSink {
        fail_finish: true,
        ..VecSink::ready()
    };
    t.handle(Owner::Ble, 0, &begin_op(ble::KIND_OTA, &image), &mut sink);
    t.handle(Owner::Ble, 0, &data_op(0, &image), &mut sink);
    let (event, a) = t.handle(Owner::Ble, 0, &[ble::OP_END], &mut sink);
    assert_eq!(event, Event::Nothing);
    assert_eq!(status(&a), AckStatus::BoardError);
}

/// An image whose bytes were corrupted in flight must not be activated,
/// even though every chunk was written.
#[test]
fn a_corrupt_image_is_not_finished() {
    let image = vec![0x5Au8; 300];
    let mut t = Transfer::new();
    let mut sink = VecSink::ready();
    t.handle(Owner::Ble, 0, &begin_op(ble::KIND_OTA, &image), &mut sink);
    let mut corrupt = image.clone();
    corrupt[0] ^= 0xFF;
    t.handle(Owner::Ble, 0, &data_op(0, &corrupt[..192]), &mut sink);
    t.handle(Owner::Ble, 0, &data_op(1, &corrupt[192..]), &mut sink);
    let (event, a) = t.handle(Owner::Ble, 0, &[ble::OP_END], &mut sink);
    assert_eq!(event, Event::Nothing);
    assert_eq!(status(&a), AckStatus::BadValue);
    assert!(!sink.finished);
    assert_eq!(sink.cancels, 1);
}

/// The retired WIO-E5 firmware kind must be refused, not misread as an
/// ESP image.
#[test]
fn the_retired_firmware_kind_is_rejected() {
    let mut t = Transfer::new();
    let mut sink = VecSink::ready();
    let (_, a) = t.handle(Owner::Ble, 0, &begin_op(2, b"stm32 image"), &mut sink);
    assert_eq!(status(&a), AckStatus::BadValue);
    assert!(!t.is_active());
}

#[test]
fn malformed_ops_are_rejected() {
    let mut t = Transfer::new();
    for op in [
        vec![],
        vec![0x7F],
        vec![ble::OP_BEGIN, ble::KIND_TOML, 1, 0],
        vec![ble::OP_DATA, 0, 0],
    ] {
        let (event, a) = t.handle(Owner::Ble, 0, &op, &mut NoFirmware);
        assert_eq!(event, Event::Nothing);
        assert_ne!(status(&a), AckStatus::Applied, "op {op:02x?}");
    }
}

/// A data chunk bigger than the protocol allows is refused rather than
/// silently truncated.
#[test]
fn an_oversize_chunk_is_rejected() {
    let mut t = Transfer::new();
    let payload = vec![b'x'; ble::BULK_DATA_MAX + 1];
    t.handle(Owner::Ble, 0, &begin_op(ble::KIND_TOML, &payload), &mut NoFirmware);
    let (_, a) = t.handle(Owner::Ble, 0, &data_op(0, &payload), &mut NoFirmware);
    assert_eq!(status(&a), AckStatus::BadValue);
    // A malformed op is not a failed transfer: the host can send the
    // same bytes again correctly chunked.
    assert!(t.is_active());
    for (seq, chunk) in payload.chunks(ble::BULK_DATA_MAX).enumerate() {
        let (_, a) = t.handle(Owner::Ble, 0, &data_op(seq as u16, chunk), &mut NoFirmware);
        assert_eq!(status(&a), AckStatus::Applied);
    }
    let (event, _) = t.handle(Owner::Ble, 0, &[ble::OP_END], &mut NoFirmware);
    assert_eq!(event, Event::Config);
}

/// Every ack to a bulk op is addressed to the bulk id, and a chunk's names
/// the next one in four bytes.
#[test]
fn bulk_acks_carry_the_bulk_id() {
    let mut t = Transfer::new();
    let (_, a) = t.handle(Owner::Ble, 0, &begin_op(ble::KIND_TOML, TOML), &mut NoFirmware);
    assert_eq!((a.id, a.echo.bytes()), (ble::ACK_ID_BULK, vec![0, 0, 0, 0]));
    let (_, a) = t.handle(Owner::Ble, 0, &data_op(0, TOML), &mut NoFirmware);
    assert_eq!((a.id, a.echo.bytes()), (ble::ACK_ID_BULK, vec![1, 0, 0, 0]));
    let (_, a) = t.handle(Owner::Ble, 0, &[ble::OP_END], &mut NoFirmware);
    assert_eq!((a.id, a.echo.bytes()), (ble::ACK_ID_BULK, vec![]));
    assert_eq!(t.last_crc(), crc32(TOML));
}

/// A connection that goes away takes its transfer with it, and says whether
/// there was one.
#[test]
fn an_abort_releases_the_sink() {
    let mut t = Transfer::new();
    let mut sink = VecSink::ready();
    assert!(!t.abort(&mut sink));
    t.handle(Owner::Usb, 0, &begin_op(ble::KIND_OTA, TOML), &mut sink);
    assert!(t.abort(&mut sink));
    assert!(!t.is_active());
    assert_eq!(sink.cancels, 1);
}

/// The retry comes seconds later, and may come more than once: the same ack,
/// nothing written again, and the transfer kept alive.
#[test]
fn a_chunk_repeated_later_lands_once() {
    let image: Vec<u8> = (0..300u32).map(|i| i as u8).collect();
    let mut sink = VecSink::ready();
    let mut t = Transfer::new();
    t.handle(Owner::Ble, 0, &begin_op(ble::KIND_OTA, &image), &mut sink);
    let first = t.handle(Owner::Ble, 1_000, &data_op(0, &image[..100]), &mut sink);
    for later in [5_000, 9_000] {
        assert_eq!(t.handle(Owner::Ble, later, &data_op(0, &image[..100]), &mut sink), first);
        assert!(t.is_active());
        assert_eq!(sink.image.as_slice(), &image[..100]);
    }
    t.handle(Owner::Ble, 10_000, &data_op(1, &image[100..200]), &mut sink);
    t.handle(Owner::Ble, 11_000, &data_op(2, &image[200..]), &mut sink);
    let (event, a) = t.handle(Owner::Ble, 12_000, &[ble::OP_END], &mut sink);
    assert_eq!((event, status(&a)), (Event::Firmware, AckStatus::Applied));
    assert_eq!(sink.image, image);
    assert_eq!(t.last_crc(), crc32(&image));
}

/// Each op at its own time: every chunk is acked with the one expected next,
/// and the CRC of what arrived is the one reported.
#[test]
fn every_op_of_a_config_is_acked() {
    let big: Vec<u8> = (0..CONFIG_MAX).map(|i| b'a' + (i % 26) as u8).collect();
    let mut t = Transfer::new();
    let (event, a) = t.handle(Owner::Usb, 5, &begin_op(ble::KIND_TOML, &big), &mut NoFirmware);
    assert_eq!((event, a), (Event::Nothing, Ack { id: ble::ACK_ID_BULK, status: AckStatus::Applied, echo: Echo::Word(0) }));
    let mut now = 5;
    for (i, chunk) in big.chunks(ble::BULK_DATA_MAX).enumerate() {
        now += 700;
        let (event, a) = t.handle(Owner::Usb, now, &data_op(i as u16, chunk), &mut NoFirmware);
        assert_eq!((event, status(&a), next_seq(&a)), (Event::Nothing, AckStatus::Applied, i as u32 + 1));
    }
    let (event, a) = t.handle(Owner::Usb, now + 2_000, &[ble::OP_END], &mut NoFirmware);
    assert_eq!((event, a), (Event::Config, Ack { id: ble::ACK_ID_BULK, status: AckStatus::Applied, echo: Echo::Empty }));
    assert_eq!(t.bytes(), big.as_slice());
    assert_eq!(t.last_crc(), crc32(&big));
}
