//! The memory traits: words are composed from bytes, least significant first.
use tasru::memory::{low_byte, u16_from_le_bytes, u32_from_le_bytes, u64_from_le_halves, Read, Write};
use tasru::memory_source::MemorySource;

struct Bytes {
    base: u64,
    bytes: Vec<u8>,
    begun: bool,
}

#[derive(Debug)]
struct OutOfRange;

impl std::fmt::Display for OutOfRange {
    fn fmt(&self, f: &mut std::fmt::Formatter<'_>) -> std::fmt::Result {
        f.write_str("out of range")
    }
}

impl Bytes {
    fn at(&self, address: u64) -> Result<u8, OutOfRange> {
        address
            .checked_sub(self.base)
            .and_then(|i| self.bytes.get(i as usize).copied())
            .ok_or(OutOfRange)
    }
}

impl Read for Bytes {
    type Error = OutOfRange;

    fn read_u8(&mut self, address: u64) -> Result<u8, Self::Error> {
        self.at(address)
    }
}

impl Write for Bytes {
    type Error = OutOfRange;

    fn write_u8(&mut self, data: u8, address: u64) -> Result<(), Self::Error> {
        let i = address.checked_sub(self.base).ok_or(OutOfRange)? as usize;
        let slot = self.bytes.get_mut(i).ok_or(OutOfRange)?;
        *slot = data;
        Ok(())
    }
}

impl MemorySource for Bytes {
    type Error = OutOfRange;

    fn read_u8(&self, address: u64) -> Result<u8, Self::Error> {
        self.at(address)
    }

    fn begin(&mut self) -> Result<(), Self::Error> {
        self.begun = true;
        Ok(())
    }
}

fn memory() -> Bytes {
    Bytes { base: 0x1000, bytes: vec![0x01, 0x02, 0x03, 0x04, 0x05, 0x06, 0x07, 0x08, 0x09], begun: false }
}

#[test]
fn words_are_little_endian() {
    assert_eq!(u16_from_le_bytes(0x34, 0x12), 0x1234);
    assert_eq!(u32_from_le_bytes(0x78, 0x56, 0x34, 0x12), 0x12345678);
    assert_eq!(u64_from_le_halves(0x9abcdef0, 0x12345678), 0x123456789abcdef0);
    assert_eq!(low_byte(0x1234), 0x34);
}

#[test]
fn reads_compose_bytes() {
    let mut m = memory();
    assert_eq!(Read::read_u8(&mut m, 0x1000).unwrap(), 0x01);
    assert_eq!(Read::read_u16(&mut m, 0x1001).unwrap(), 0x0302);
    assert_eq!(Read::read_u32(&mut m, 0x1001).unwrap(), 0x05040302);
    assert_eq!(Read::read_u64(&mut m, 0x1001).unwrap(), 0x0908070605040302);
    assert!(Read::read_u64(&mut m, 0x1002).is_err());
    assert!(Read::read_u16(&mut m, 0x0fff).is_err());
    let mut buffer = [0u8; 4];
    Read::read(&mut m, &mut buffer, 0x1003).unwrap();
    assert_eq!(buffer, [0x04, 0x05, 0x06, 0x07]);
    let mut long = [0u8; 16];
    assert!(Read::read(&mut m, &mut long, 0x1000).is_err());
    assert!(Read::begin(&mut m).is_ok());
    Read::finish(&mut m);
    assert!(!m.begun);
}

#[test]
fn reads_wrap_at_the_end_of_the_address_space() {
    let mut m = Bytes { base: 0, bytes: vec![0xaa], begun: false };
    assert!(Read::read_u16(&mut m, u64::MAX).is_err());
    let mut n = Bytes { base: u64::MAX, bytes: vec![0xbb], begun: false };
    assert!(Read::read_u16(&mut n, u64::MAX).is_err());
    assert_eq!(Read::read_u8(&mut n, u64::MAX).unwrap(), 0xbb);
}

#[test]
fn writes_decompose_words() {
    let mut m = memory();
    Write::write_u8(&mut m, 0xff, 0x1000).unwrap();
    Write::write_u16(&mut m, 0x1234, 0x1001).unwrap();
    Write::write_u32(&mut m, 0x89abcdef, 0x1003).unwrap();
    assert_eq!(m.bytes, vec![0xff, 0x34, 0x12, 0xef, 0xcd, 0xab, 0x89, 0x08, 0x09]);
    Write::write_u64(&mut m, 0x0102030405060708, 0x1001).unwrap();
    assert_eq!(m.bytes, vec![0xff, 0x08, 0x07, 0x06, 0x05, 0x04, 0x03, 0x02, 0x01]);
    Write::write(&mut m, &[1, 2, 3], 0x1000).unwrap();
    assert_eq!(&m.bytes[..4], &[1, 2, 3, 0x06]);
    assert!(Write::write_u32(&mut m, 0, 0x1007).is_err());
    assert!(Write::begin(&mut m).is_ok());
    Write::finish(&mut m);
}

#[test]
fn memory_source_composes_bytes() {
    let mut m = memory();
    assert_eq!(MemorySource::read_u8(&m, 0x1008).unwrap(), 0x09);
    assert_eq!(MemorySource::read_u16(&m, 0x1000).unwrap(), 0x0201);
    assert_eq!(MemorySource::read_u32(&m, 0x1000).unwrap(), 0x04030201);
    assert_eq!(MemorySource::read_u64(&m, 0x1000).unwrap(), 0x0807060504030201);
    let mut buffer = [0u8; 2];
    MemorySource::read(&m, &mut buffer, 0x1007).unwrap();
    assert_eq!(buffer, [0x08, 0x09]);
    assert!(MemorySource::read_u32(&m, 0x1006).is_err());
    MemorySource::begin(&mut m).unwrap();
    assert!(m.begun);
    MemorySource::finish(&mut m);
}

/// A device that records every byte access in order and fails at one address.
struct Trace {
    fails_at: Option<u64>,
    reads: Vec<u64>,
    writes: Vec<(u64, u8)>,
}

impl Trace {
    fn new(fails_at: Option<u64>) -> Trace {
        Trace { fails_at, reads: Vec::new(), writes: Vec::new() }
    }
}

impl Read for Trace {
    type Error = OutOfRange;

    fn read_u8(&mut self, address: u64) -> Result<u8, Self::Error> {
        self.reads.push(address);
        if self.fails_at == Some(address) {
            Err(OutOfRange)
        } else {
            Ok((address & 0xff) as u8)
        }
    }
}

impl Write for Trace {
    type Error = OutOfRange;

    fn write_u8(&mut self, data: u8, address: u64) -> Result<(), Self::Error> {
        self.writes.push((address, data));
        if self.fails_at == Some(address) {
            Err(OutOfRange)
        } else {
            Ok(())
        }
    }
}

#[test]
fn wide_reads_make_byte_reads_in_order() {
    let mut t = Trace::new(None);
    assert_eq!(Read::read_u16(&mut t, 0x10).unwrap(), 0x1110);
    assert_eq!(t.reads, vec![0x10, 0x11]);
    let mut t = Trace::new(None);
    assert_eq!(Read::read_u32(&mut t, u64::MAX - 1).unwrap(), 0x0100_fffe);
    assert_eq!(t.reads, vec![u64::MAX - 1, u64::MAX, 0, 1]);
    let mut t = Trace::new(None);
    assert_eq!(Read::read_u64(&mut t, 0x20).unwrap(), 0x2726_2524_2322_2120);
    assert_eq!(t.reads, vec![0x20, 0x21, 0x22, 0x23, 0x24, 0x25, 0x26, 0x27]);
}

#[test]
fn a_failed_byte_stops_a_wide_read() {
    let mut t = Trace::new(Some(0x32));
    assert!(Read::read_u64(&mut t, 0x30).is_err());
    assert_eq!(t.reads, vec![0x30, 0x31, 0x32]);
    let mut t = Trace::new(Some(0x30));
    assert!(Read::read_u16(&mut t, 0x30).is_err());
    assert_eq!(t.reads, vec![0x30]);
}

#[test]
fn bulk_read_fills_the_buffer_in_order() {
    let mut t = Trace::new(None);
    let mut buffer = [0u8; 5];
    Read::read(&mut t, &mut buffer, 0x40).unwrap();
    assert_eq!(buffer, [0x40, 0x41, 0x42, 0x43, 0x44]);
    assert_eq!(t.reads, vec![0x40, 0x41, 0x42, 0x43, 0x44]);
    let mut t = Trace::new(Some(0x42));
    let mut buffer = [0u8; 5];
    assert!(Read::read(&mut t, &mut buffer, 0x40).is_err());
    assert_eq!(t.reads, vec![0x40, 0x41, 0x42]);
    let mut empty: [u8; 0] = [];
    let mut t = Trace::new(None);
    Read::read(&mut t, &mut empty, 0x40).unwrap();
    assert!(t.reads.is_empty());
}

#[test]
fn wide_writes_make_byte_writes_in_order() {
    let mut t = Trace::new(None);
    Write::write_u16(&mut t, 0x0201, 0x50).unwrap();
    assert_eq!(t.writes, vec![(0x50, 0x01), (0x51, 0x02)]);
    let mut t = Trace::new(None);
    Write::write_u32(&mut t, 0x0403_0201, u64::MAX).unwrap();
    assert_eq!(t.writes, vec![(u64::MAX, 0x01), (0, 0x02), (1, 0x03), (2, 0x04)]);
    let mut t = Trace::new(None);
    Write::write_u64(&mut t, 0x0807_0605_0403_0201, 0x60).unwrap();
    assert_eq!(
        t.writes,
        vec![
            (0x60, 0x01),
            (0x61, 0x02),
            (0x62, 0x03),
            (0x63, 0x04),
            (0x64, 0x05),
            (0x65, 0x06),
            (0x66, 0x07),
            (0x67, 0x08)
        ]
    );
    let mut t = Trace::new(None);
    Write::write(&mut t, &[9, 8, 7], 0x70).unwrap();
    assert_eq!(t.writes, vec![(0x70, 9), (0x71, 8), (0x72, 7)]);
}

#[test]
fn a_failed_byte_stops_a_wide_write() {
    let mut t = Trace::new(Some(0x81));
    assert!(Write::write_u32(&mut t, 0x0403_0201, 0x80).is_err());
    assert_eq!(t.writes, vec![(0x80, 0x01), (0x81, 0x02)]);
    let mut t = Trace::new(Some(0x92));
    assert!(Write::write(&mut t, &[1, 2, 3, 4], 0x90).is_err());
    assert_eq!(t.writes, vec![(0x90, 1), (0x91, 2), (0x92, 3)]);
}

#[test]
fn a_burst_begins_without_error_by_default() {
    let mut t = Trace::new(Some(0));
    assert!(Read::begin(&mut t).is_ok());
    assert!(Write::begin(&mut t).is_ok());
    Read::finish(&mut t);
    Write::finish(&mut t);
    assert!(t.reads.is_empty());
    assert!(t.writes.is_empty());
}
