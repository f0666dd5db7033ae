use combat_logger::error::Error;
use combat_logger::memory::MemoryReader;
use combat_logger::scan::{ScanStep, CHUNK_SIZE};

/// A region of memory at `base` that reads back what it holds. A read that
/// leaves the region fails, as a read of unmapped memory does.
struct Region {
    base: usize,
    bytes: Vec<u8>,
    reads: Vec<(usize, usize)>,
}

impl Region {
    fn new(base: usize, bytes: Vec<u8>) -> Region {
        Region { base, bytes, reads: Vec::new() }
    }

    fn read(&mut self, reader: &MemoryReader, address: usize, len: usize) -> Result<Vec<u8>, Error> {
        self.reads.push((address, len));
        if address < self.base || address + len > self.base + self.bytes.len() {
            return reader.read_bytes(address, vec![0; len], -1);
        }
        let from = address - self.base;
        reader.read_bytes(address, self.bytes[from..from + len].to_vec(), len as isize)
    }

    fn read_string(&mut self, start: usize, end: usize) -> Result<String, Error> {
        let reader = MemoryReader { process_id: 77 };
        let mut step = reader.read_string(start as u64..end as u64);
        loop {
            match step {
                ScanStep::Read { scan, address, len } => {
                    let chunk = self.read(&reader, address, len);
                    step = scan.resume(chunk);
                }
                ScanStep::Done(result) => return result,
            }
        }
    }
}

fn text_then_zero(len: usize, total: usize) -> Vec<u8> {
    let mut bytes = vec![b'x'; total];
    for (i, b) in bytes.iter_mut().enumerate() {
        *b = b'a' + (i % 26) as u8;
    }
    bytes[len] = 0;
    bytes
}

#[test]
fn string_ends_at_the_terminator() {
    let mut bytes = b"AB\0XYZ".to_vec();
    bytes.extend_from_slice(&[b'!'; 100]);
    let mut region = Region::new(0x4000, bytes);
    let got = region.read_string(0x4000, 0x4000 + 106);
    assert!(matches!(got, Ok(ref s) if s == "AB"));
}

#[test]
fn string_ends_at_the_terminator_of_the_shortest_range() {
    let mut region = Region::new(0x4000, b"AB\0XYZ".to_vec());
    let got = region.read_string(0x4000, 0x4003);
    assert!(matches!(got, Ok(ref s) if s == "AB"));
    assert_eq!(region.reads, vec![(0x4000, 3)]);
}

#[test]
fn bytes_after_the_terminator_are_ignored() {
    let mut bytes = b"AB\0".to_vec();
    bytes.extend_from_slice(&[0xff, 0xfe, 0x00, 0x80]);
    let mut region = Region::new(0x4000, bytes);
    let got = region.read_string(0x4000, 0x4007);
    assert!(matches!(got, Ok(ref s) if s == "AB"));
}

#[test]
fn string_without_terminator_is_partial() {
    let mut region = Region::new(0x4000, b"HELLO WORLD".to_vec());
    let got = region.read_string(0x4000, 0x4000 + 11);
    assert!(matches!(got, Err(Error::ReadMemoryPartial(0x4000, 11))));
}

#[test]
fn long_string_without_terminator_is_partial() {
    let mut region = Region::new(0x4000, vec![b'q'; 1000]);
    let got = region.read_string(0x4000, 0x4000 + 1000);
    assert!(matches!(got, Err(Error::ReadMemoryPartial(0x4000, 1000))));
    assert_eq!(
        region.reads,
        vec![(0x4000, 256), (0x4100, 256), (0x4200, 256), (0x4300, 232)]
    );
}

#[test]
fn terminator_before_the_range_ends_hides_the_rest() {
    let mut region = Region::new(0x4000, b"HELLO\0WORLD".to_vec());
    let got = region.read_string(0x4000, 0x4000 + 11);
    assert!(matches!(got, Ok(ref s) if s == "HELLO"));
}

#[test]
fn terminator_as_last_byte_of_a_chunk() {
    let bytes = text_then_zero(CHUNK_SIZE - 1, 600);
    let want = String::from_utf8(bytes[..CHUNK_SIZE - 1].to_vec()).unwrap();
    let mut region = Region::new(0x9000, bytes);
    let got = region.read_string(0x9000, 0x9000 + 600);
    assert_eq!(got.unwrap(), want);
    assert_eq!(region.reads, vec![(0x9000, 256)]);
}

#[test]
fn terminator_as_first_byte_of_the_next_chunk() {
    let bytes = text_then_zero(CHUNK_SIZE, 600);
    let want = String::from_utf8(bytes[..CHUNK_SIZE].to_vec()).unwrap();
    let mut region = Region::new(0x9000, bytes);
    let got = region.read_string(0x9000, 0x9000 + 600);
    let got = got.unwrap();
    assert_eq!(got.len(), 256);
    assert_eq!(got, want);
    assert_eq!(region.reads, vec![(0x9000, 256), (0x9100, 256)]);
}

#[test]
fn terminator_as_second_byte_of_the_next_chunk() {
    let bytes = text_then_zero(CHUNK_SIZE + 1, 600);
    let want = String::from_utf8(bytes[..CHUNK_SIZE + 1].to_vec()).unwrap();
    let mut region = Region::new(0x9000, bytes);
    let got = region.read_string(0x9000, 0x9000 + 600);
    assert_eq!(got.unwrap(), want);
}

#[test]
fn terminator_at_every_offset_gives_the_same_text() {
    for len in 0..600usize {
        let bytes = text_then_zero(len, 601);
        let want = String::from_utf8(bytes[..len].to_vec()).unwrap();
        let mut region = Region::new(0x2_0000, bytes);
        let got = region.read_string(0x2_0000, 0x2_0000 + 601);
        assert_eq!(got.unwrap(), want);
        assert_eq!(region.reads.len(), len / CHUNK_SIZE + 1);
    }
}

#[test]
fn terminator_as_the_byte_at_the_end_of_the_range() {
    let bytes = text_then_zero(511, 512);
    let mut region = Region::new(0x9000, bytes);
    let got = region.read_string(0x9000, 0x9000 + 512);
    assert_eq!(got.unwrap().len(), 511);
}

#[test]
fn terminator_just_past_the_range_is_not_seen() {
    let bytes = text_then_zero(512, 513);
    let mut region = Region::new(0x9000, bytes);
    let got = region.read_string(0x9000, 0x9000 + 512);
    assert!(matches!(got, Err(Error::ReadMemoryPartial(0x9000, 512))));
}

#[test]
fn empty_string_is_a_clean_success() {
    let mut region = Region::new(0x4000, vec![0, b'A', b'B']);
    let got = region.read_string(0x4000, 0x4003);
    assert!(matches!(got, Ok(ref s) if s.is_empty()));
}

#[test]
fn empty_range_is_partial_with_nothing_read() {
    let mut region = Region::new(0x4000, b"AB\0".to_vec());
    let got = region.read_string(0x4000, 0x4000);
    assert!(matches!(got, Err(Error::ReadMemoryPartial(0x4000, 0))));
    assert!(region.reads.is_empty());
}

#[test]
fn range_that_ends_before_it_starts_is_partial_with_nothing_read() {
    let mut region = Region::new(0x4000, b"AB\0".to_vec());
    let got = region.read_string(0x4002, 0x4000);
    assert!(matches!(got, Err(Error::ReadMemoryPartial(0x4002, 0))));
    assert!(region.reads.is_empty());
}

#[test]
fn text_that_is_not_utf8_fails_at_the_start_of_the_range() {
    let mut region = Region::new(0x4000, vec![b'A', 0xff, b'B', 0, b'C']);
    let got = region.read_string(0x4000, 0x4005);
    assert!(matches!(got, Err(Error::ReadMemoryFailed(0x4000))));
}

#[test]
fn text_that_is_not_utf8_and_not_terminated_fails() {
    let mut region = Region::new(0x4000, vec![b'A', 0xc3, 0x28, b'B']);
    let got = region.read_string(0x4000, 0x4004);
    assert!(matches!(got, Err(Error::ReadMemoryFailed(0x4000))));
}

#[test]
fn character_cut_by_the_end_of_the_range_fails() {
    let mut region = Region::new(0x4000, "né".as_bytes().to_vec());
    let got = region.read_string(0x4000, 0x4002);
    assert!(matches!(got, Err(Error::ReadMemoryFailed(0x4000))));
}

#[test]
fn text_of_several_bytes_per_character_is_decoded() {
    let mut bytes = "grüße, 世界 🌍".as_bytes().to_vec();
    bytes.push(0);
    bytes.extend_from_slice(b"tail");
    let end = 0x4000 + bytes.len();
    let mut region = Region::new(0x4000, bytes);
    let got = region.read_string(0x4000, end);
    assert!(matches!(got, Ok(ref s) if s == "grüße, 世界 🌍"));
}

#[test]
fn character_across_a_chunk_boundary_is_decoded() {
    let mut bytes = vec![b'a'; 255];
    bytes.extend_from_slice("é".as_bytes());
    bytes.push(0);
    let mut want = "a".repeat(255);
    want.push('é');
    let end = 0x4000 + bytes.len();
    let mut region = Region::new(0x4000, bytes);
    let got = region.read_string(0x4000, end);
    assert_eq!(got.unwrap(), want);
}

#[test]
fn partial_length_counts_bytes() {
    let bytes = "äöü".as_bytes().to_vec();
    let mut region = Region::new(0x4000, bytes);
    let got = region.read_string(0x4000, 0x4006);
    assert!(matches!(got, Err(Error::ReadMemoryPartial(0x4000, 6))));
}

#[test]
fn failed_read_ends_the_scan_with_its_error() {
    // The range runs past the region: the second chunk cannot be read.
    let mut region = Region::new(0x4000, vec![b'z'; 256]);
    let got = region.read_string(0x4000, 0x4000 + 512);
    assert!(matches!(got, Err(Error::ReadMemoryFailed(0x4100))));
    assert_eq!(region.reads, vec![(0x4000, 256), (0x4100, 256)]);
}

#[test]
fn failed_first_read_ends_the_scan() {
    let mut region = Region::new(0x4000, vec![b'z'; 16]);
    let got = region.read_string(0x8000, 0x8010);
    assert!(matches!(got, Err(Error::ReadMemoryFailed(0x8000))));
}

#[test]
fn partial_read_ends_the_scan_with_its_error() {
    let reader = MemoryReader { process_id: 77 };
    match reader.read_string(0x4000..0x4100) {
        ScanStep::Read { scan, address, len } => {
            assert_eq!((address, len), (0x4000, 256));
            let chunk = reader.read_bytes(address, vec![b'a'; len], 100);
            let step = scan.resume(chunk);
            assert!(matches!(step, ScanStep::Done(Err(Error::ReadMemoryPartial(0x4000, 100)))));
        }
        ScanStep::Done(_) => panic!("the range is not empty"),
    }
}

#[test]
fn first_read_asks_for_a_chunk_or_the_range() {
    let reader = MemoryReader { process_id: 77 };
    assert!(matches!(
        reader.read_string(0x4000..0x5000),
        ScanStep::Read { address: 0x4000, len: 256, .. }
    ));
    assert!(matches!(
        reader.read_string(0x4000..0x4100),
        ScanStep::Read { address: 0x4000, len: 256, .. }
    ));
    assert!(matches!(
        reader.read_string(0x4000..0x40ff),
        ScanStep::Read { address: 0x4000, len: 255, .. }
    ));
    assert!(matches!(
        reader.read_string(0x4000..0x4001),
        ScanStep::Read { address: 0x4000, len: 1, .. }
    ));
}

#[test]
fn short_chunk_without_terminator_ends_the_scan_as_partial() {
    let reader = MemoryReader { process_id: 77 };
    match reader.read_string(0x4000..0x5000) {
        ScanStep::Read { scan, .. } => {
            let step = scan.resume(Ok(b"abc".to_vec()));
            assert!(matches!(step, ScanStep::Done(Err(Error::ReadMemoryPartial(0x4000, 3)))));
        }
        ScanStep::Done(_) => panic!("the range is not empty"),
    }
}

#[test]
fn short_chunk_with_terminator_ends_the_scan_cleanly() {
    let reader = MemoryReader { process_id: 77 };
    match reader.read_string(0x4000..0x5000) {
        ScanStep::Read { scan, .. } => {
            let step = scan.resume(Ok(b"ab\0".to_vec()));
            assert!(matches!(step, ScanStep::Done(Ok(ref s)) if s == "ab"));
        }
        ScanStep::Done(_) => panic!("the range is not empty"),
    }
}

#[test]
fn whole_chunk_moves_the_scan_on_by_a_chunk() {
    let reader = MemoryReader { process_id: 77 };
    match reader.read_string(0x4000..0x4180) {
        ScanStep::Read { scan, .. } => match scan.resume(Ok(vec![b'a'; 256])) {
            ScanStep::Read { scan, address, len } => {
                assert_eq!((address, len), (0x4100, 128));
                let step = scan.resume(Ok(vec![b'b'; 128]));
                assert!(matches!(step, ScanStep::Done(Err(Error::ReadMemoryPartial(0x4000, 384)))));
            }
            ScanStep::Done(_) => panic!("the range is not used up"),
        },
        ScanStep::Done(_) => panic!("the range is not empty"),
    }
}

#[test]
fn chunk_size_is_256() {
    assert_eq!(CHUNK_SIZE, 256);
}
