use libgm::assembler::parse_string_literal;
use libgm::builder::DataBuilder;
use libgm::elements::audio_groups::{GMAudioGroup, GMAudioGroups};
use libgm::element::GMElement;
use libgm::elements::general_info::{GMGeneralInfo, GMGeneralInfoFlags, GMGeneralInfoGMS2, TIMESTAMP_MAX, TIMESTAMP_MIN};
use libgm::elements::sprites::{GMSpriteNineSlice, GMSpriteNineSliceTileMode};
use libgm::elements::options::GMOptionsConstant;
use libgm::reader::DataReader;
use libgm::refs::GMRef;
use libgm::rng::CSharpRng;
use libgm::version::GMVersion;

fn le(v: u32) -> [u8; 4] {
    v.to_le_bytes()
}

/// A general info chunk of GameMaker 1 with bytecode 13, whose names all refer to the string
/// at position 100, with the given creation time and two rooms.
fn gen8_bytes(timestamp: i64) -> Vec<u8> {
    let mut d = vec![0u8; 136];
    d[0] = 1;
    d[1] = 13;
    d[2..4].copy_from_slice(&7u16.to_le_bytes());
    for pos in [4usize, 8, 40, 100] {
        d[pos..pos + 4].copy_from_slice(&le(100));
    }
    d[12..16].copy_from_slice(&le(11));
    d[16..20].copy_from_slice(&le(12));
    d[20..24].copy_from_slice(&le(13));
    for (i, b) in d[24..40].iter_mut().enumerate() {
        *b = i as u8;
    }
    d[44..48].copy_from_slice(&le(1));
    d[48..52].copy_from_slice(&le(4));
    d[60..64].copy_from_slice(&le(640));
    d[64..68].copy_from_slice(&le(480));
    d[68..72].copy_from_slice(&le(0x1));
    d[92..100].copy_from_slice(&timestamp.to_le_bytes());
    d[120..124].copy_from_slice(&(-5i32).to_le_bytes());
    d[124..128].copy_from_slice(&le(2));
    d[128..132].copy_from_slice(&le(3));
    d[132..136].copy_from_slice(&le(7));
    d
}

fn read_gen8(data: &[u8]) -> Result<GMGeneralInfo, String> {
    let mut reader = DataReader::new(data);
    reader.string_occurrences.insert(100, 5);
    GMGeneralInfo::deserialize(&mut reader)
}

#[test]
fn general_info_reads_gamemaker1_fields() {
    let data = gen8_bytes(1431648000);
    let info = read_gen8(&data).unwrap();
    assert!(info.exists);
    assert!(info.is_debugger_disabled);
    assert_eq!(info.bytecode_version, 13);
    assert_eq!(info.unknown_value, 7);
    assert_eq!(info.game_name.index, 5);
    assert_eq!((info.last_object_id, info.last_tile_id, info.game_id), (11, 12, 13));
    assert_eq!(info.directplay_guid, [3, 2, 1, 0, 5, 4, 7, 6, 8, 9, 10, 11, 12, 13, 14, 15]);
    assert_eq!(info.version, GMVersion::new(1, 4, 0, 0));
    assert_eq!((info.default_window_width, info.default_window_height), (640, 480));
    assert!(info.flags.fullscreen);
    assert_eq!(info.timestamp_created, 1431648000);
    assert_eq!(info.steam_appid, -5);
    assert_eq!(info.debugger_port, None);
    assert_eq!(info.room_order.iter().map(|r| r.index).collect::<Vec<_>>(), vec![3, 7]);
    assert!(info.gms2_info.is_none());
}

#[test]
fn general_info_guid_matches_uuid_crate() {
    let data = gen8_bytes(0);
    let info = read_gen8(&data).unwrap();
    let mut raw = [0u8; 16];
    raw.copy_from_slice(&data[24..40]);
    assert_eq!(info.directplay_guid, *uuid::Builder::from_bytes_le(raw).into_uuid().as_bytes());
}

#[test]
fn general_info_timestamp_range_edges() {
    assert!(read_gen8(&gen8_bytes(TIMESTAMP_MIN)).is_ok());
    assert!(read_gen8(&gen8_bytes(TIMESTAMP_MAX)).is_ok());
    assert!(read_gen8(&gen8_bytes(TIMESTAMP_MIN - 1)).is_err());
    assert!(read_gen8(&gen8_bytes(TIMESTAMP_MAX + 1)).is_err());
}

#[test]
fn general_info_bad_debugger_byte_fails() {
    let mut data = gen8_bytes(0);
    data[0] = 2;
    assert!(read_gen8(&data).is_err());
}

#[test]
fn general_info_stub_is_placeholder() {
    let stub = GMGeneralInfo::stub();
    assert!(!stub.exists);
    assert_eq!(stub.bytecode_version, 187);
    assert_eq!(stub.game_id, 69420);
    assert_eq!(stub.license_md5, [6, 9, 4, 2, 0, 6, 9, 4, 2, 0, 6, 9, 4, 2, 0, 0]);
    assert!(stub.room_order.is_empty());
}

#[test]
fn csharp_random_seed_zero_sequence() {
    let mut rng = CSharpRng::new(0);
    assert_eq!(rng.next(), 1559595546);
    assert_eq!(rng.next(), 1755192844);
    assert_eq!(rng.next(), 1649316166);
}

#[test]
fn general_info_gms2_roundtrip() {
    let mut info = GMGeneralInfo::stub();
    info.exists = true;
    info.is_debugger_disabled = false;
    info.bytecode_version = 17;
    info.version = GMVersion::new(2, 0, 0, 0);
    info.timestamp_created = 1_600_000_123;
    info.debugger_port = Some(6502);
    info.room_order = vec![GMRef::new(0), GMRef::new(4)];
    info.gms2_info = Some(GMGeneralInfoGMS2 {
        random_uid: [0; 4],
        fps: 60f32.to_bits(),
        allow_statistics: true,
        game_guid: [9; 16],
        info_timestamp_offset: true,
    });
    let mut builder = DataBuilder::new(17, GMVersion::new(2, 0, 0, 0));
    info.serialize(&mut builder).unwrap();
    let bytes = builder.bytes.clone();
    let mut reader = DataReader::new(&bytes);
    reader.string_occurrences.insert(0xDEADC0DE, 5);
    let back = GMGeneralInfo::deserialize(&mut reader).unwrap();
    assert_eq!(reader.cur_pos as usize, bytes.len());
    let g = back.gms2_info.unwrap();
    assert!(g.info_timestamp_offset);
    assert!(g.allow_statistics);
    assert_eq!(g.fps, 60f32.to_bits());
    assert_eq!(g.game_guid, [9; 16]);
    assert_eq!(back.debugger_port, Some(6502));
    assert_eq!(back.timestamp_created, 1_600_000_123);
    assert_eq!(back.directplay_guid, info.directplay_guid);
}

#[test]
fn general_info_gms2_wrong_uid_fails() {
    let mut info = GMGeneralInfo::stub();
    info.exists = true;
    info.bytecode_version = 13;
    info.version = GMVersion::new(2, 0, 0, 0);
    info.timestamp_created = 77;
    info.gms2_info = Some(GMGeneralInfoGMS2 {
        random_uid: [0; 4],
        fps: 0,
        allow_statistics: false,
        game_guid: [0; 16],
        info_timestamp_offset: false,
    });
    let mut builder = DataBuilder::new(13, GMVersion::new(2, 0, 0, 0));
    info.serialize(&mut builder).unwrap();
    let mut bytes = builder.bytes.clone();
    let first_uid = 124 + 4 + 4 * info.room_order.len();
    bytes[first_uid] ^= 1;
    let mut reader = DataReader::new(&bytes);
    reader.string_occurrences.insert(0xDEADC0DE, 5);
    assert!(GMGeneralInfo::deserialize(&mut reader).is_err());
}

#[test]
fn nine_slice_serialize_bytes() {
    let slice = GMSpriteNineSlice {
        left: 1,
        top: -2,
        right: 3,
        bottom: 4,
        enabled: true,
        tile_modes: [
            GMSpriteNineSliceTileMode::Stretch,
            GMSpriteNineSliceTileMode::Repeat,
            GMSpriteNineSliceTileMode::Mirror,
            GMSpriteNineSliceTileMode::BlankRepeat,
            GMSpriteNineSliceTileMode::Hide,
        ],
    };
    let mut builder = DataBuilder::new(17, GMVersion::new(2, 0, 0, 0));
    slice.serialize(&mut builder).unwrap();
    let mut expected = Vec::new();
    for v in [1i32, -2, 3, 4, 1, 0, 1, 2, 3, 4] {
        expected.extend_from_slice(&v.to_le_bytes());
    }
    assert_eq!(builder.bytes, expected);
}

#[test]
fn options_constant_serialize_writes_two_placeholders() {
    let c = GMOptionsConstant { name: GMRef::new(1), value: GMRef::new(2) };
    let mut builder = DataBuilder::new(17, GMVersion::new(2, 0, 0, 0));
    c.serialize(&mut builder).unwrap();
    let mut expected = Vec::new();
    expected.extend_from_slice(&le(0xDEADC0DE));
    expected.extend_from_slice(&le(0xDEADC0DE));
    assert_eq!(builder.bytes, expected);
    assert_eq!(builder.string_refs, vec![(0, 1), (4, 2)]);
}

#[test]
fn general_info_flags_parse_of_build_gives_back_flags() {
    for raw in [0u32, 0x1FFFF, 0x10101, 0x0F0F0] {
        let f = GMGeneralInfoFlags::parse(raw);
        assert_eq!(GMGeneralInfoFlags::parse(f.build()), f);
    }
}

#[test]
fn string_literal_parses_back_escapes() {
    let text: Vec<char> = "\"a\\\"b\\\\c\\nd\\te\" rest".chars().collect();
    let mut line: &[char] = &text;
    let s = parse_string_literal(&mut line).unwrap();
    assert_eq!(s, "a\"b\\c\nd\te");
    assert_eq!(line.iter().collect::<String>(), " rest");
}

#[test]
fn audio_groups_serialize_pointer_list_bytes() {
    let groups = GMAudioGroups {
        audio_groups: vec![
            GMAudioGroup { name: GMRef::new(0), path: None },
            GMAudioGroup { name: GMRef::new(1), path: None },
        ],
        exists: true,
    };
    let mut builder = DataBuilder::new(17, GMVersion::new(2, 0, 0, 0));
    builder.bytes = vec![7, 7, 7, 7];
    groups.serialize(&mut builder).unwrap();
    let mut expected = vec![7u8, 7, 7, 7];
    for w in [2u32, 16, 20, 0xDEADC0DE, 0xDEADC0DE] {
        expected.extend_from_slice(&le(w));
    }
    assert_eq!(builder.bytes, expected);
}
