use soft65c02::{ASEntry, AppleSingle, AtariBinary, Section};

fn create_simple_binary() -> Vec<u8> {
    vec![
        0xff, 0xff, // Header
        0x00, 0x10, // Start address: $1000
        0x04, 0x10, // End address: $1004
        0x01, 0x01, 0x01, 0x01, 0x01, // Data
        0xe0, 0x02, 0xe1, 0x02, // Run address block
        0x01, 0x10, // $1001
    ]
}

fn create_complex_binary() -> Vec<u8> {
    vec![
        0xff, 0xff, 0x00, 0x10, 0x04, 0x10, 0x01, 0x01, 0x01, 0x01, 0x01, // data at $1000
        0xe2, 0x02, 0xe3, 0x02, 0x01, 0x10, // init $1001
        0x00, 0x20, 0x04, 0x20, 0x02, 0x02, 0x02, 0x02, 0x02, // data at $2000
        0xe0, 0x02, 0xe1, 0x02, 0x02, 0x20, // run $2002
    ]
}

#[test]
fn test_simple_binary() {
    let binary = AtariBinary::new(create_simple_binary()).unwrap();
    let sections = binary.get_sections();

    assert_eq!(sections.len(), 2);

    match &sections[0] {
        Section::Data { start_address, data } => {
            assert_eq!(*start_address, 0x1000, "Data section should start at $1000");
            assert_eq!(data, &vec![0x01, 0x01, 0x01, 0x01, 0x01], "Data section should contain five 0x01 bytes");
        },
        _ => panic!("First section should be Data, got {:?}", &sections[0]),
    }

    match &sections[1] {
        Section::Run { run_address } => {
            assert_eq!(*run_address, 0x1001, "Run address should be $1001");
        },
        _ => panic!("Second section should be Run, got {:?}", &sections[1]),
    }
}

#[test]
fn test_complex_binary() {
    let binary = AtariBinary::new(create_complex_binary()).unwrap();
    let sections = binary.get_sections();

    assert_eq!(sections.len(), 4);

    match &sections[0] {
        Section::Data { start_address, data } => {
            assert_eq!(*start_address, 0x1000, "First data section should start at $1000");
            assert_eq!(data, &vec![0x01, 0x01, 0x01, 0x01, 0x01], "First data section should contain five 0x01 bytes");
        },
        _ => panic!("First section should be Data, got {:?}", &sections[0]),
    }

    match &sections[1] {
        Section::Init { init_address } => {
            assert_eq!(*init_address, 0x1001, "Init section should point to $1001");
        },
        _ => panic!("Second section should be Init, got {:?}", &sections[1]),
    }

    match &sections[2] {
        Section::Data { start_address, data } => {
            assert_eq!(*start_address, 0x2000, "Second data section should start at $2000");
            assert_eq!(data, &vec![0x02, 0x02, 0x02, 0x02, 0x02], "Second data section should contain five 0x02 bytes");
        },
        _ => panic!("Third section should be Data, got {:?}", &sections[2]),
    }

    match &sections[3] {
        Section::Run { run_address } => {
            assert_eq!(*run_address, 0x2002, "Run address should be $2002");
        },
        _ => panic!("Fourth section should be Run, got {:?}", &sections[3]),
    }
}

#[test]
fn test_invalid_header() {
    let mut bad_binary = create_simple_binary();
    bad_binary[0] = 0x00;

    let result = AtariBinary::new(bad_binary);
    assert!(result.is_err());
    assert!(result.unwrap_err().contains("Unhandled header type: 00ff"));
}

#[test]
fn atari_segments_and_errors() {
    let binary = AtariBinary::new(create_complex_binary()).unwrap();
    assert_eq!(0x2002, binary.get_run_address());
    let segments = binary.into_memory_segments();
    assert_eq!(4, segments.len());
    assert_eq!(0x02E2, segments[1].address);
    assert_eq!(vec![0x01, 0x10], segments[1].data);
    assert_eq!(0x02E0, segments[3].address);
    assert_eq!(vec![0x02, 0x20], segments[3].data);
    let mut more = create_simple_binary();
    more.push(0x00);
    assert!(AtariBinary::new(more).unwrap_err().contains("got run address but there is more data"));
    assert!(AtariBinary::new(vec![0xff, 0xff, 0x00]).unwrap_err().contains("Truncated block at offset 2"));
    assert!(AtariBinary::new(vec![0xff, 0xff, 0x10, 0x00, 0x00, 0x00]).is_err());
}

fn create_simple_apple_single() -> Vec<u8> {
    let mut bytes = Vec::new();
    bytes.extend_from_slice(&[0x00, 0x05, 0x16, 0x00]);
    bytes.extend_from_slice(&[0x00, 0x02, 0x00, 0x00]);
    bytes.extend_from_slice(&[0x00; 16]);
    bytes.extend_from_slice(&[0x00, 0x02]);
    bytes.extend_from_slice(&[0x00, 0x00, 0x00, 0x01, 0x00, 0x00, 0x00, 0x32, 0x00, 0x00, 0x00, 0x05]);
    bytes.extend_from_slice(&[0x00, 0x00, 0x00, 0x0B, 0x00, 0x00, 0x00, 0x37, 0x00, 0x00, 0x00, 0x08]);
    bytes.extend_from_slice(&[0x01, 0x02, 0x03, 0x04, 0x05]);
    bytes.extend_from_slice(&[0x00, 0xC3, 0x00, 0xFF, 0x00, 0x00, 0x12, 0x34]);
    bytes
}

#[test]
fn test_simple_apple_single() {
    let binary = AppleSingle::new(create_simple_apple_single()).unwrap();
    let entries = binary.get_entries();

    assert_eq!(entries.len(), 2);

    match &entries[0] {
        ASEntry::DataFork { data } => {
            assert_eq!(data, &vec![0x01, 0x02, 0x03, 0x04, 0x05]);
        },
        _ => panic!("First entry should be DataFork"),
    }

    match &entries[1] {
        ASEntry::ProDosInfo { access, file_type, auxiliary_type } => {
            assert_eq!(*access, 0xC3);
            assert_eq!(*file_type, 0xFF);
            assert_eq!(*auxiliary_type, 0x00001234);
        },
        _ => panic!("Second entry should be ProDosInfo"),
    }
}

#[test]
fn test_invalid_magic_number() {
    let mut bad_binary = create_simple_apple_single();
    bad_binary[0] = 0xFF;

    let result = AppleSingle::new(bad_binary);
    assert!(result.is_err());
    assert!(result.unwrap_err().contains("Invalid magic number"));
}

#[test]
fn test_into_memory_segments() {
    let binary = AppleSingle::new(create_simple_apple_single()).unwrap();
    let segments = binary.into_memory_segments();

    assert_eq!(segments.len(), 1);
    assert_eq!(segments[0].address, 0x1234, "Load address should match auxiliary type's lower 16 bits");
    assert_eq!(segments[0].data, vec![0x01, 0x02, 0x03, 0x04, 0x05]);
}

#[test]
fn apple_single_errors() {
    let mut bad = create_simple_apple_single();
    bad[10] = 1;
    assert_eq!("Invalid filler byte at offset 10", AppleSingle::new(bad).unwrap_err());
    let mut bad = create_simple_apple_single();
    bad[5] = 3;
    assert_eq!("Unsupported version: 00030000", AppleSingle::new(bad).unwrap_err());
    let mut bad = create_simple_apple_single();
    bad[29] = 9;
    assert_eq!("Unsupported entry type: 9", AppleSingle::new(bad).unwrap_err());
    assert_eq!("Invalid magic number: ", AppleSingle::new(vec![0x00]).unwrap_err());
}

#[test]
fn atari_dump_describes_sections() {
    let binary = AtariBinary::new(create_complex_binary()).unwrap();
    let lines = binary.dump();
    assert_eq!(
        lines,
        vec![
            "AtariBinary, runAddress: 0x2002, len: 0x20".to_string(),
            "  DataSection, start: 0x1000, len: 0x5: 01 01 01 01 01".to_string(),
            "  InitSection, init: 0x1001".to_string(),
            "  DataSection, start: 0x2000, len: 0x5: 02 02 02 02 02".to_string(),
            "  RunSection, run: 0x2002".to_string(),
        ]
    );
    let long = vec![0xff, 0xff, 0x00, 0x30, 0x09, 0x30, 0, 1, 2, 3, 4, 5, 6, 7, 8, 9];
    let lines = AtariBinary::new(long).unwrap().dump();
    assert_eq!(lines[1], "  DataSection, start: 0x3000, len: 0xa: 00 01 02 03 04 05 06 07");
}

#[test]
fn apple_single_dump_describes_entries() {
    let binary = AppleSingle::new(create_simple_apple_single()).unwrap();
    let lines = binary.dump();
    assert_eq!(
        lines,
        vec![
            "AppleSingle, loadAddress: 0x1234".to_string(),
            "  DataForkEntry, len: 0x5: 01 02 03 04 05".to_string(),
            "  ProDosEntry, access: 0xc3, fileType: 0xff, auxiliaryType: 0x1234".to_string(),
        ]
    );
}
