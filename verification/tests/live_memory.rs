use kafer_core::error::Error;
use kafer_core::memory::MemorySource;
use kafer_core::processes::Module;

/// A source of memory that is written outside this crate, as the reader of
/// a live target is: its pages lie in a list.
struct Pages(Vec<(u64, Vec<u8>)>);

impl Pages {
    fn byte_at(&self, address: u64) -> Option<u8> {
        self.0.iter().find_map(|(base, bytes)| {
            let offset = address.checked_sub(*base)?;
            bytes.get(usize::try_from(offset).ok()?).copied()
        })
    }
}

impl MemorySource for Pages {
    fn read_memory(&self, address: u64, len: usize) -> Result<Vec<Option<u8>>, Error> {
        Ok((0..len)
            .map(|offset| self.byte_at(address.checked_add(offset as u64)?))
            .collect())
    }

    fn read_raw_memory(&self, address: u64, len: usize) -> Result<Vec<u8>, Error> {
        let mut bytes = Vec::new();
        while bytes.len() < len {
            let Some(at) = address.checked_add(bytes.len() as u64) else { break };
            let Some(byte) = self.byte_at(at) else { break };
            bytes.push(byte);
        }
        Ok(bytes)
    }
}

fn reader() -> Pages {
    Pages(vec![
        (0x1000, vec![1, 2, 3, 4]),
        (0x1004, vec![5, 6]),
        (0x1008, vec![9]),
        (u64::MAX, vec![0xff]),
    ])
}

#[test]
fn raw_read_of_a_live_target() {
    let reader = reader();
    assert_eq!(reader.read_raw_memory(0x1000, 3).unwrap(), vec![1, 2, 3]);
    assert_eq!(reader.read_raw_memory(0x1002, 100).unwrap(), vec![3, 4, 5, 6]);
    assert_eq!(reader.read_raw_memory(0x1006, 100).unwrap(), Vec::<u8>::new());
    assert_eq!(reader.read_raw_memory(u64::MAX, 4).unwrap(), vec![0xff]);
}

#[test]
fn sparse_read_of_a_live_target() {
    let reader = reader();
    assert_eq!(
        reader.read_memory(0xffe, 12).unwrap(),
        vec![
            None,
            None,
            Some(1),
            Some(2),
            Some(3),
            Some(4),
            Some(5),
            Some(6),
            None,
            None,
            Some(9),
            None
        ]
    );
    assert_eq!(reader.read_memory(0x1008, 1).unwrap(), vec![Some(9)]);
    assert_eq!(reader.read_memory(0x1008, 0).unwrap(), vec![]);
    assert_eq!(reader.read_memory(u64::MAX - 1, 4).unwrap(), vec![None, Some(0xff), None, None]);
}

#[test]
fn records_and_strings_of_a_live_target() {
    let reader = Pages(vec![(0x2000, vec![0x34, 0x12, 0x78, 0x56]), (0x3000, b"name\0".to_vec())]);
    assert_eq!(reader.read_memory_array::<u16>(0x2000, 8).unwrap(), vec![0x1234, 0x5678]);
    assert_eq!(reader.read_memory_data::<u32>(0x2000).unwrap(), 0x5678_1234);
    assert!(reader.read_memory_data::<u64>(0x2000).is_err());
    assert_eq!(reader.read_memory_string(0x3000, 260, false).unwrap(), "name");
}

#[test]
fn module_of_a_live_target() {
    let mut image = vec![0u8; 0x200];
    image[0] = 0x4d;
    image[1] = 0x5a;
    image[60] = 0x80;
    image[0x84] = 0x64;
    image[0x85] = 0x86;
    image[0x80 + 80..0x80 + 84].copy_from_slice(&0x2000u32.to_le_bytes());
    let reader = Pages(vec![(0x7ff0_0000, image)]);
    let module = Module::from_memory_view(0x7ff0_0000, None, &reader).unwrap();
    assert_eq!(module.size, 0x2000);
    assert_eq!(module.name(), "module_7FF00000");
    assert!(module.contains_address(0x7ff0_1fff));
    assert!(!module.contains_address(0x7ff0_2000));
}
