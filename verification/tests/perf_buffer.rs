use bytes::BytesMut;
use perf_ring::drain::check_ring;
use perf_ring::record::{PERF_RECORD_LOST, PERF_RECORD_SAMPLE};
use perf_ring::{Events, PerfBuffer, PerfBufferError};

const PAGE_SIZE: usize = 4096;

/// Size of a record header.
const HEADER: usize = 8;
/// Size of a sample record that carries a `u32`: header, length, value.
const SAMPLE_U32: usize = HEADER + 4 + 4;
/// Size of a sample record that carries a `u64`: header, length, padding, value.
const SAMPLE_U64: usize = HEADER + 4 + 4 + 8;
/// Size of a LOST record: header, id, count.
const LOST: usize = HEADER + 8 + 8;

/// What the kernel shares with the consumer: the data area and the two
/// offsets of the metadata page.
struct MMappedBuf {
    data: Vec<u8>,
    data_head: u64,
    data_tail: u64,
}

impl MMappedBuf {
    fn new() -> MMappedBuf {
        MMappedBuf { data: vec![0; PAGE_SIZE], data_head: 0, data_tail: 0 }
    }
}

fn open(page_count: usize) -> PerfBuffer {
    let opening = PerfBuffer::open(1, PAGE_SIZE, page_count).unwrap();
    let mapping = opening.opened(Ok(42)).unwrap();
    let buf = mapping.mapped(Ok(())).unwrap();
    buf.enabled(Ok(())).unwrap();
    buf
}

fn read_events(
    buf: &PerfBuffer,
    mmapped_buf: &mut MMappedBuf,
    out_bufs: &mut [BytesMut],
) -> Result<Events, PerfBufferError> {
    assert!(check_ring(&mmapped_buf.data, mmapped_buf.data_head, mmapped_buf.data_tail));
    buf.read_events(&mmapped_buf.data, mmapped_buf.data_head, &mut mmapped_buf.data_tail, out_bufs)
}

fn header(type_: u32, misc: u16, size: usize) -> Vec<u8> {
    let mut bytes = Vec::new();
    bytes.extend_from_slice(&type_.to_le_bytes());
    bytes.extend_from_slice(&misc.to_le_bytes());
    bytes.extend_from_slice(&(size as u16).to_le_bytes());
    bytes
}

fn lost_samples(id: u64, count: u64) -> Vec<u8> {
    let mut bytes = header(PERF_RECORD_LOST, 0, LOST);
    bytes.extend_from_slice(&id.to_le_bytes());
    bytes.extend_from_slice(&count.to_le_bytes());
    bytes
}

fn sample(record_size: usize, value: &[u8]) -> Vec<u8> {
    let mut bytes = header(PERF_RECORD_SAMPLE, 0, record_size);
    bytes.extend_from_slice(&(value.len() as u32).to_le_bytes());
    bytes.extend_from_slice(value);
    bytes
}

/// Puts `value` at `offset` and moves the producer behind it.
fn write(mmapped_buf: &mut MMappedBuf, offset: usize, value: &[u8]) -> usize {
    mmapped_buf.data[offset..offset + value.len()].copy_from_slice(value);
    mmapped_buf.data_head = (offset + value.len()) as u64;
    mmapped_buf.data_head as usize
}

fn write_sample(mmapped_buf: &mut MMappedBuf, offset: usize, value: &[u8]) -> usize {
    let record = sample(HEADER + 4 + value.len(), value);
    write(mmapped_buf, offset, &record)
}

fn u32_from_buf(buf: &[u8]) -> u32 {
    u32::from_le_bytes(buf[..4].try_into().unwrap())
}

fn u64_from_buf(buf: &[u8]) -> u64 {
    u64::from_le_bytes(buf[..8].try_into().unwrap())
}

#[test]
fn test_invalid_page_count() {
    assert!(matches!(
        PerfBuffer::open(1, PAGE_SIZE, 0),
        Err(PerfBufferError::InvalidPageCount { .. })
    ));
    assert!(matches!(
        PerfBuffer::open(1, PAGE_SIZE, 3),
        Err(PerfBufferError::InvalidPageCount { .. })
    ));
    assert!(matches!(
        PerfBuffer::open(1, PAGE_SIZE, 5),
        Err(PerfBufferError::InvalidPageCount { .. })
    ));
}

#[test]
fn test_no_out_bufs() {
    let mut mmapped_buf = MMappedBuf::new();

    let buf = open(1);
    assert!(matches!(
        read_events(&buf, &mut mmapped_buf, &mut []),
        Err(PerfBufferError::NoBuffers)
    ))
}

#[test]
fn test_no_events() {
    let mut mmapped_buf = MMappedBuf::new();

    let buf = open(1);
    let out_buf = BytesMut::with_capacity(4);
    assert_eq!(
        read_events(&buf, &mut mmapped_buf, &mut [out_buf]).unwrap(),
        Events { read: 0, lost: 0 }
    );
}

#[test]
fn test_read_first_lost() {
    let mut mmapped_buf = MMappedBuf::new();

    let evt = lost_samples(1, 0xCAFEBABE);
    write(&mut mmapped_buf, 0, &evt);

    let buf = open(1);
    let out_buf = BytesMut::with_capacity(0);
    let events = read_events(&buf, &mut mmapped_buf, &mut [out_buf]).unwrap();
    assert_eq!(events.lost, 0xCAFEBABE);
}

#[test]
fn test_read_first_sample() {
    let mut mmapped_buf = MMappedBuf::new();
    let buf = open(1);

    write_sample(&mut mmapped_buf, 0, &0xCAFEBABEu32.to_le_bytes());

    let mut out_bufs = [BytesMut::with_capacity(4)];

    let events = read_events(&buf, &mut mmapped_buf, &mut out_bufs).unwrap();
    assert_eq!(events, Events { lost: 0, read: 1 });
    assert_eq!(u32_from_buf(&out_bufs[0]), 0xCAFEBABE);
}

#[test]
fn test_read_many_with_many_reads() {
    let mut mmapped_buf = MMappedBuf::new();
    let buf = open(1);

    let next = write_sample(&mut mmapped_buf, 0, &0xCAFEBABEu32.to_le_bytes());
    write_sample(&mut mmapped_buf, next, &0xBADCAFEu32.to_le_bytes());

    let mut out_bufs = [BytesMut::with_capacity(4)];

    let events = read_events(&buf, &mut mmapped_buf, &mut out_bufs).unwrap();
    assert_eq!(events, Events { lost: 0, read: 1 });
    assert_eq!(u32_from_buf(&out_bufs[0]), 0xCAFEBABE);

    let events = read_events(&buf, &mut mmapped_buf, &mut out_bufs).unwrap();
    assert_eq!(events, Events { lost: 0, read: 1 });
    assert_eq!(u32_from_buf(&out_bufs[0]), 0xBADCAFE);
}

#[test]
fn test_read_many_with_one_read() {
    let mut mmapped_buf = MMappedBuf::new();
    let buf = open(1);

    let next = write_sample(&mut mmapped_buf, 0, &0xCAFEBABEu32.to_le_bytes());
    write_sample(&mut mmapped_buf, next, &0xBADCAFEu32.to_le_bytes());

    let mut out_bufs = (0..3).map(|_| BytesMut::with_capacity(4)).collect::<Vec<_>>();

    let events = read_events(&buf, &mut mmapped_buf, &mut out_bufs).unwrap();
    assert_eq!(events, Events { lost: 0, read: 2 });
    assert_eq!(u32_from_buf(&out_bufs[0]), 0xCAFEBABE);
    assert_eq!(u32_from_buf(&out_bufs[1]), 0xBADCAFE);
}

#[test]
fn test_read_last_sample() {
    let mut mmapped_buf = MMappedBuf::new();
    let buf = open(1);

    let offset = PAGE_SIZE - SAMPLE_U32;
    mmapped_buf.data_tail = offset as u64;
    write_sample(&mut mmapped_buf, offset, &0xCAFEBABEu32.to_le_bytes());

    let mut out_bufs = [BytesMut::with_capacity(4)];

    let events = read_events(&buf, &mut mmapped_buf, &mut out_bufs).unwrap();
    assert_eq!(events, Events { lost: 0, read: 1 });
    assert_eq!(u32_from_buf(&out_bufs[0]), 0xCAFEBABE);
}

#[test]
fn test_read_wrapping_sample_size() {
    let mut mmapped_buf = MMappedBuf::new();
    let buf = open(1);

    let header = header(PERF_RECORD_SAMPLE, 0, SAMPLE_U64);

    let offset = PAGE_SIZE - HEADER - 2;
    mmapped_buf.data_tail = offset as u64;
    write(&mut mmapped_buf, offset, &header);
    write(&mut mmapped_buf, PAGE_SIZE - 2, &0x0004u16.to_le_bytes());
    write(&mut mmapped_buf, 0, &0x0000u16.to_le_bytes());
    write(&mut mmapped_buf, 2, &0xBAADCAFEu32.to_le_bytes());
    // the producer offset does not wrap: the record ends where its size says
    mmapped_buf.data_head = (offset + SAMPLE_U64) as u64;

    let mut out_bufs = [BytesMut::with_capacity(8)];

    let events = read_events(&buf, &mut mmapped_buf, &mut out_bufs).unwrap();
    assert_eq!(events, Events { lost: 0, read: 1 });
    assert_eq!(u32_from_buf(&out_bufs[0]), 0xBAADCAFE);
}

#[test]
fn test_read_wrapping_value() {
    let mut mmapped_buf = MMappedBuf::new();
    let buf = open(1);

    let mut record = header(PERF_RECORD_SAMPLE, 0, SAMPLE_U64);
    record.extend_from_slice(&8u32.to_le_bytes());
    record.extend_from_slice(&0xCAFEBABEu32.to_le_bytes());

    let offset = PAGE_SIZE - SAMPLE_U32;
    mmapped_buf.data_tail = offset as u64;
    write(&mut mmapped_buf, offset, &record);
    write(&mut mmapped_buf, 0, &0xBAADCAFEu32.to_le_bytes());
    // the producer offset does not wrap: the record ends where its size says
    mmapped_buf.data_head = (offset + SAMPLE_U64) as u64;

    let mut out_bufs = [BytesMut::with_capacity(8)];

    let events = read_events(&buf, &mut mmapped_buf, &mut out_bufs).unwrap();
    assert_eq!(events, Events { lost: 0, read: 1 });
    assert_eq!(u64_from_buf(&out_bufs[0]), 0xBAADCAFECAFEBABE);
}
