use kafer_core::error::Error;
use kafer_core::memory::read_le_u16;
use kafer_core::memory::read_le_u32;
use kafer_core::memory::read_le_u64;
use kafer_core::memory::MemoryImage;
use kafer_core::memory::MemorySource;
use kafer_core::stack::ffi::RUNTIME_FUNCTION;

#[test]
fn little_endian_numbers() {
    let bytes = [0x01, 0x02, 0x03, 0x04, 0x05, 0x06, 0x07, 0x08, 0x09];
    assert_eq!(read_le_u16(&bytes, 0), 0x0201);
    assert_eq!(read_le_u16(&bytes, 7), 0x0908);
    assert_eq!(read_le_u32(&bytes, 1), 0x0504_0302);
    assert_eq!(read_le_u64(&bytes, 1), 0x0908_0706_0504_0302);
    assert_eq!(read_le_u64(&[0xff; 8], 0), u64::MAX);
}

#[test]
fn raw_read_stops_at_the_end_of_the_image() {
    let image = MemoryImage::new(0x1000, &[1, 2, 3, 4, 5]);
    assert_eq!(image.read_raw_memory(0x1000, 3).unwrap(), vec![1, 2, 3]);
    assert_eq!(image.read_raw_memory(0x1002, 10).unwrap(), vec![3, 4, 5]);
    assert_eq!(image.read_raw_memory(0x1005, 10).unwrap(), Vec::<u8>::new());
    assert_eq!(image.read_raw_memory(0xfff, 10).unwrap(), Vec::<u8>::new());
    assert_eq!(image.read_raw_memory(0x1000, 0).unwrap(), Vec::<u8>::new());
}

#[test]
fn raw_read_stops_at_the_first_gap() {
    let image = MemoryImage::with_gaps(0x2000, vec![Some(7), Some(8), None, Some(9)]);
    assert_eq!(image.read_raw_memory(0x2000, 4).unwrap(), vec![7, 8]);
    assert_eq!(image.read_raw_memory(0x2002, 4).unwrap(), Vec::<u8>::new());
    assert_eq!(image.read_raw_memory(0x2003, 4).unwrap(), vec![9]);
}

#[test]
fn sparse_read_has_one_entry_for_each_byte() {
    let image = MemoryImage::with_gaps(0x2000, vec![Some(7), None, Some(9)]);
    assert_eq!(
        image.read_memory(0x1fff, 5).unwrap(),
        vec![None, Some(7), None, Some(9), None]
    );
    assert_eq!(image.read_memory(0x2001, 0).unwrap(), vec![]);
    assert_eq!(image.read_memory(0x9000, 2).unwrap(), vec![None, None]);
}

#[test]
fn reads_at_the_end_of_the_address_space() {
    let image = MemoryImage::new(u64::MAX - 1, &[0xaa, 0xbb, 0xcc]);
    // The third byte would lie beyond the last address.
    assert_eq!(image.read_raw_memory(u64::MAX - 1, 8).unwrap(), vec![0xaa, 0xbb]);
    assert_eq!(image.read_raw_memory(u64::MAX, 8).unwrap(), vec![0xbb]);
    assert_eq!(image.read_memory(u64::MAX, 3).unwrap(), vec![Some(0xbb), None, None]);
}

#[test]
fn array_of_whole_records() {
    let image = MemoryImage::new(0x100, &[0x11, 0x22, 0x33, 0x44, 0x55, 0x66, 0x77]);
    assert_eq!(image.read_memory_array::<u16>(0x100, 2).unwrap(), vec![0x2211, 0x4433]);
    // Seven bytes hold three whole words.
    assert_eq!(image.read_memory_array::<u16>(0x100, 10).unwrap(), vec![0x2211, 0x4433, 0x6655]);
    assert_eq!(image.read_memory_array::<u32>(0x100, 10).unwrap(), vec![0x4433_2211]);
    assert_eq!(image.read_memory_array::<u64>(0x100, 10).unwrap(), Vec::<u64>::new());
    assert_eq!(image.read_memory_array::<u8>(0x105, 10).unwrap(), vec![0x66, 0x77]);
    assert_eq!(image.read_memory_array::<u32>(0x100, 0).unwrap(), Vec::<u32>::new());
}

#[test]
fn array_of_structures() {
    let mut bytes = Vec::new();
    for value in [0x1000u32, 0x1010, 0x2000, 0x1010, 0x1040, 0x2010] {
        bytes.extend_from_slice(&value.to_le_bytes());
    }
    let image = MemoryImage::new(0x5000, &bytes);
    assert_eq!(
        image.read_memory_array::<RUNTIME_FUNCTION>(0x5000, 2).unwrap(),
        vec![
            RUNTIME_FUNCTION { BeginAddress: 0x1000, EndAddress: 0x1010, UnwindInfo: 0x2000 },
            RUNTIME_FUNCTION { BeginAddress: 0x1010, EndAddress: 0x1040, UnwindInfo: 0x2010 },
        ]
    );
}

#[test]
fn full_array_needs_every_record() {
    let image = MemoryImage::new(0x100, &[1, 0, 2, 0, 3]);
    assert_eq!(image.read_memory_full_array::<u16>(0x100, 2).unwrap(), vec![1, 2]);
    assert!(matches!(
        image.read_memory_full_array::<u16>(0x100, 3),
        Err(Error::MemorySourceNotEnoughData)
    ));
    assert_eq!(image.read_memory_full_array::<u16>(0x100, 0).unwrap(), Vec::<u16>::new());
    assert_eq!(image.read_memory_full_array::<u16>(0x999, 0).unwrap(), Vec::<u16>::new());
}

#[test]
fn single_record() {
    let image = MemoryImage::new(0x100, &[0x78, 0x56, 0x34, 0x12, 0xff]);
    assert_eq!(image.read_memory_data::<u32>(0x100).unwrap(), 0x1234_5678);
    assert_eq!(image.read_memory_data::<u8>(0x104).unwrap(), 0xff);
    assert!(matches!(image.read_memory_data::<u32>(0x102), Err(Error::MemorySourceNotEnoughData)));
    assert!(matches!(image.read_memory_data::<u8>(0x105), Err(Error::MemorySourceNotEnoughData)));
}

#[test]
fn narrow_string_ends_at_the_zero() {
    let image = MemoryImage::new(0x100, b"kernel32.dll\0garbage");
    assert_eq!(image.read_memory_string(0x100, 260, false).unwrap(), "kernel32.dll");
    assert_eq!(image.read_memory_string(0x106, 260, false).unwrap(), "32.dll");
    assert_eq!(image.read_memory_string(0x10c, 260, false).unwrap(), "");
}

#[test]
fn narrow_string_ends_at_the_count_or_at_the_end_of_memory() {
    let image = MemoryImage::new(0x100, b"abcdef");
    assert_eq!(image.read_memory_string(0x100, 4, false).unwrap(), "abcd");
    assert_eq!(image.read_memory_string(0x100, 100, false).unwrap(), "abcdef");
    assert_eq!(image.read_memory_string(0x100, 0, false).unwrap(), "");
    assert_eq!(image.read_memory_string(0x200, 10, false).unwrap(), "");
}

#[test]
fn narrow_string_in_utf8() {
    let image = MemoryImage::new(0x100, "Grüße\0".as_bytes());
    assert_eq!(image.read_memory_string(0x100, 100, false).unwrap(), "Grüße");
}

#[test]
fn narrow_string_that_is_not_utf8_fails() {
    let image = MemoryImage::new(0x100, &[b'a', 0xff, b'b', 0]);
    assert!(matches!(image.read_memory_string(0x100, 100, false), Err(Error::InvalidUtf8)));
    // A sequence that the count cuts in two is no text either.
    let image = MemoryImage::new(0x100, "é".as_bytes());
    assert!(matches!(image.read_memory_string(0x100, 1, false), Err(Error::InvalidUtf8)));
}

#[test]
fn wide_string_ends_at_the_zero() {
    let mut bytes = Vec::new();
    for unit in "ntdll.dll\0rest".encode_utf16() {
        bytes.extend_from_slice(&unit.to_le_bytes());
    }
    let image = MemoryImage::new(0x100, &bytes);
    assert_eq!(image.read_memory_string(0x100, 260, true).unwrap(), "ntdll.dll");
    assert_eq!(image.read_memory_string(0x100, 3, true).unwrap(), "ntd");
}

#[test]
fn wide_string_replaces_lone_surrogates() {
    let units: [u16; 6] = [0x61, 0xd800, 0x62, 0xdc00, 0xd83d, 0xde00];
    let mut bytes = Vec::new();
    for unit in units {
        bytes.extend_from_slice(&unit.to_le_bytes());
    }
    let image = MemoryImage::new(0x100, &bytes);
    assert_eq!(
        image.read_memory_string(0x100, 100, true).unwrap(),
        "a\u{fffd}b\u{fffd}😀"
    );
}

#[test]
fn string_through_a_pointer() {
    let mut bytes = vec![0u8; 0x40];
    bytes[0..8].copy_from_slice(&0x1020u64.to_le_bytes());
    bytes[0x20..0x26].copy_from_slice(b"hello\0");
    let image = MemoryImage::new(0x1000, &bytes);
    assert_eq!(image.read_memory_string_indirect(0x1000, 260, false).unwrap(), "hello");
    // A pointer that cannot be read whole is a failure.
    assert!(matches!(
        image.read_memory_string_indirect(0x103c, 260, false),
        Err(Error::MemorySourceNotEnoughData)
    ));
    // A pointer to nowhere gives an empty text.
    assert_eq!(image.read_memory_string_indirect(0x1008, 260, false).unwrap(), "");
}
