use libgm::address_map::{find_address, find_index, generate_address_map};
use libgm::assembler::{assemble_code, assemble_instruction, ParseError};
use libgm::builder::DataBuilder;
use libgm::chunk::GMChunk;
use libgm::chunk_table::parse_chunk_table;
use libgm::code::{GMComparisonType, GMDataType};
use libgm::create_data_file::generate_font_padding;
use libgm::data::{GMData, GMOtherChunks};
use libgm::disassembler::{disassemble_code, disassemble_instruction};
use libgm::elements::codes::{GMCode, GMCodes};
use libgm::elements::feature_flags::GMFeatureFlags;
use libgm::elements::rooms::{GMRoomFlags, GMRoomLayerDataTiles, GMRoomLayerType};
use libgm::elements::functions::{parse_occurrence_chain, GMCodeLocals, GMFunction, GMFunctions};
use libgm::elements::game_objects::GMGameObjects;
use libgm::elements::general_info::GMGeneralInfoFlags;
use libgm::elements::sounds::get_builtin_sound_group_id;
use libgm::elements::sprites::{calculate_mask_data_size, GMSpriteTypeSpine};
use libgm::elements::strings::GMStrings;
use libgm::elements::variables::GMVariables;
use libgm::instructions::{
    GMComparisonInstruction, GMDoubleTypeInstruction, GMEmptyInstruction, GMGotoInstruction, GMInstruction,
    GMSingleTypeInstruction,
};
use libgm::reader::{DataReader, Endianness};
use libgm::refs::GMRef;
use libgm::validation::{validate_code, CodeValidationError, VMStackItem};
use libgm::version::GMVersion;

fn empty_data(bytecode_version: u8) -> GMData {
    GMData {
        bytecode_version,
        gm_version: GMVersion::new(2023, 1, 0, 0),
        strings: GMStrings { strings: vec![], is_aligned: true, exists: true },
        variables: GMVariables { variables: vec![], scuffed: None, yyc: false, exists: true },
        functions: GMFunctions {
            functions: vec![],
            code_locals: GMCodeLocals { code_locals: vec![], exists: true },
            is_yyc: false,
            exists: true,
        },
        game_objects: GMGameObjects { game_objects: vec![], exists: true },
        codes: GMCodes { codes: vec![], exists: true },
        other: GMOtherChunks::empty(),
    }
}

fn parse_double(s: &str) -> Option<u64> {
    s.parse::<f64>().ok().map(|f| f.to_bits())
}

fn format_double(bits: u64) -> String {
    format!("{}", f64::from_bits(bits))
}

fn code_of(instructions: Vec<GMInstruction>) -> GMCode {
    GMCode { name: GMRef::new(0), instructions, bytecode15_info: None }
}

fn le(v: u32) -> [u8; 4] {
    v.to_le_bytes()
}

// ---- instructions: writing and reading back ----

fn roundtrip(instruction: GMInstruction, bytecode_version: u8) -> (Vec<u8>, GMInstruction) {
    let mut builder = DataBuilder::new(bytecode_version, GMVersion::new(2023, 1, 0, 0));
    instruction.serialize(&mut builder).unwrap();
    let bytes = builder.bytes.clone();
    let mut reader = DataReader::new(&bytes);
    reader.bytecode_version = bytecode_version;
    let back = GMInstruction::deserialize(&mut reader).unwrap();
    assert_eq!(reader.cur_pos as usize, bytes.len());
    (bytes, back)
}

#[test]
fn instruction_add_roundtrip() {
    let i = GMInstruction::Add(GMDoubleTypeInstruction { right: GMDataType::Int32, left: GMDataType::Double });
    let (bytes, back) = roundtrip(i, 17);
    assert_eq!(bytes.len(), 4);
    assert!(matches!(
        back,
        GMInstruction::Add(GMDoubleTypeInstruction { right: GMDataType::Int32, left: GMDataType::Double })
    ));
}

#[test]
fn instruction_push_immediate_roundtrip() {
    let (bytes, back) = roundtrip(GMInstruction::PushImmediate(-5), 17);
    assert_eq!(bytes.len(), 4);
    assert_eq!(bytes[0], 0xFB);
    assert_eq!(bytes[1], 0xFF);
    assert!(matches!(back, GMInstruction::PushImmediate(-5)));
}

#[test]
fn instruction_branch_roundtrip() {
    let (_, back) = roundtrip(GMInstruction::Branch(GMGotoInstruction { jump_offset: -3 }), 17);
    assert!(matches!(back, GMInstruction::Branch(GMGotoInstruction { jump_offset: -3 })));
    let (_, back) = roundtrip(GMInstruction::BranchIf(GMGotoInstruction { jump_offset: 12 }), 14);
    assert!(matches!(back, GMInstruction::BranchIf(GMGotoInstruction { jump_offset: 12 })));
}

#[test]
fn instruction_compare_roundtrip_old_bytecode() {
    let i = GMInstruction::Compare(GMComparisonInstruction {
        comparison_type: GMComparisonType::GreaterOrEqual,
        type1: GMDataType::Int32,
        type2: GMDataType::Int32,
    });
    let (_, back) = roundtrip(i, 14);
    assert!(matches!(
        back,
        GMInstruction::Compare(GMComparisonInstruction { comparison_type: GMComparisonType::GreaterOrEqual, .. })
    ));
}

#[test]
fn instruction_exit_roundtrip() {
    let (_, back) = roundtrip(GMInstruction::Exit(GMEmptyInstruction {}), 17);
    assert!(matches!(back, GMInstruction::Exit(_)));
}

#[test]
fn instruction_read_fails_past_data() {
    let bytes = vec![0u8, 0u8];
    let mut reader = DataReader::new(&bytes);
    reader.bytecode_version = 17;
    assert!(GMInstruction::deserialize(&mut reader).is_err());
}

// ---- disassembler and assembler ----

#[test]
fn disassemble_simple_instructions() {
    let data = empty_data(17);
    let add = GMInstruction::Add(GMDoubleTypeInstruction { right: GMDataType::Int32, left: GMDataType::Double });
    assert_eq!(disassemble_instruction(&data, &add, &format_double).unwrap(), "add.i.d");
    assert_eq!(disassemble_instruction(&data, &GMInstruction::PushImmediate(-5), &format_double).unwrap(), "pushim.e -5");
    let jmp = GMInstruction::Branch(GMGotoInstruction { jump_offset: 3 });
    assert_eq!(disassemble_instruction(&data, &jmp, &format_double).unwrap(), "jmp 3");
    let cmp = GMInstruction::Compare(GMComparisonInstruction {
        comparison_type: GMComparisonType::Equal,
        type1: GMDataType::Int32,
        type2: GMDataType::Double,
    });
    assert_eq!(disassemble_instruction(&data, &cmp, &format_double).unwrap(), "cmp.i.d EQ");
    assert_eq!(disassemble_instruction(&data, &GMInstruction::Exit(GMEmptyInstruction {}), &format_double).unwrap(), "exit");
    let popz = GMInstruction::PopDiscard(GMSingleTypeInstruction { data_type: GMDataType::Variable });
    assert_eq!(disassemble_instruction(&data, &popz, &format_double).unwrap(), "popz.v");
}

#[test]
fn assemble_simple_instructions() {
    let mut data = empty_data(17);
    let i = assemble_instruction("add.i.d", &mut data, &parse_double).unwrap();
    assert!(matches!(
        i,
        GMInstruction::Add(GMDoubleTypeInstruction { right: GMDataType::Int32, left: GMDataType::Double })
    ));
    let i = assemble_instruction("pushim.e -5", &mut data, &parse_double).unwrap();
    assert!(matches!(i, GMInstruction::PushImmediate(-5)));
    let i = assemble_instruction("  jmp 3  ", &mut data, &parse_double).unwrap();
    assert!(matches!(i, GMInstruction::Branch(GMGotoInstruction { jump_offset: 3 })));
    let i = assemble_instruction("cmp.i.d EQ", &mut data, &parse_double).unwrap();
    assert!(matches!(i, GMInstruction::Compare(GMComparisonInstruction { comparison_type: GMComparisonType::Equal, .. })));
    let i = assemble_instruction("exit", &mut data, &parse_double).unwrap();
    assert!(matches!(i, GMInstruction::Exit(_)));
}

#[test]
fn assemble_rejects_bad_input() {
    let mut data = empty_data(17);
    assert!(matches!(assemble_instruction("frobnicate.i", &mut data, &parse_double), Err(ParseError::InvalidMnemonic(_))));
    assert!(matches!(assemble_instruction("add.q.i", &mut data, &parse_double), Err(ParseError::InvalidDataType('q'))));
    assert!(assemble_instruction("pushim.e 40000", &mut data, &parse_double).is_err());
    assert!(assemble_instruction("cmp.i.i BIGGER", &mut data, &parse_double).is_err());
}

#[test]
fn assemble_reports_leftover_text_and_type_count() {
    let mut data = empty_data(17);
    match assemble_instruction("exit x", &mut data, &parse_double) {
        Err(ParseError::ExpectedEOL(rest)) => assert_eq!(rest, "x"),
        other => panic!("unexpected result {:?}", other.map(|_| ())),
    }
    assert!(matches!(assemble_instruction("add.i", &mut data, &parse_double), Err(ParseError::InvalidTypeCount(2, 1))));
    assert!(matches!(assemble_instruction("neg", &mut data, &parse_double), Err(ParseError::InvalidTypeCount(1, 0))));
}

#[test]
fn disassemble_rejects_invalid_function_name() {
    let mut data = empty_data(17);
    data.strings.strings.push("my func".to_string());
    data.functions.functions.push(GMFunction { name: GMRef::new(0) });
    let call = GMInstruction::Call(libgm::instructions::GMCallInstruction { argument_count: 0, function: GMRef::new(0) });
    let err = disassemble_instruction(&data, &call, &format_double).err().unwrap();
    assert!(err.starts_with("Invalid function identifier"));
}

#[test]
fn disassembled_text_assembles_back() {
    let mut data = empty_data(17);
    let instructions = vec![
        GMInstruction::PushImmediate(7),
        GMInstruction::Duplicate(libgm::instructions::GMDuplicateInstruction { data_type: GMDataType::Int32, size: 0 }),
        GMInstruction::Multiply(GMDoubleTypeInstruction { right: GMDataType::Int32, left: GMDataType::Int32 }),
        GMInstruction::PopDiscard(GMSingleTypeInstruction { data_type: GMDataType::Int32 }),
        GMInstruction::Exit(GMEmptyInstruction {}),
    ];
    let code = code_of(instructions);
    let text = disassemble_code(&data, &code, &format_double).unwrap();
    let back = assemble_code(&text, &mut data, &parse_double).unwrap();
    assert_eq!(back.len(), 5);
    assert!(matches!(back[0], GMInstruction::PushImmediate(7)));
    assert!(matches!(back[2], GMInstruction::Multiply(_)));
    assert!(matches!(back[4], GMInstruction::Exit(_)));
}

#[test]
fn assemble_code_reports_failing_line() {
    let mut data = empty_data(17);
    let r = assemble_code("pushim.e 1\nnonsense\nexit", &mut data, &parse_double);
    match r {
        Err((_, line)) => assert_eq!(line, "nonsense"),
        Ok(_) => panic!("assembly should fail"),
    }
}

// ---- validation ----

#[test]
fn validate_balanced_code() {
    let data = empty_data(17);
    let code = code_of(vec![
        GMInstruction::PushImmediate(3),
        GMInstruction::PopDiscard(GMSingleTypeInstruction { data_type: GMDataType::Int32 }),
        GMInstruction::Exit(GMEmptyInstruction {}),
    ]);
    assert!(validate_code(&code, &data).is_ok());
}

#[test]
fn validate_empty_code() {
    let data = empty_data(17);
    assert!(matches!(validate_code(&code_of(vec![]), &data), Err(CodeValidationError::InvalidInitialOffset(0))));
}

#[test]
fn validate_pop_from_empty_stack() {
    let data = empty_data(17);
    let code = code_of(vec![GMInstruction::PopDiscard(GMSingleTypeInstruction { data_type: GMDataType::Int32 })]);
    assert!(matches!(validate_code(&code, &data), Err(CodeValidationError::PopStackEmpty)));
}

#[test]
fn validate_type_mismatch() {
    let data = empty_data(17);
    let code = code_of(vec![
        GMInstruction::PushImmediate(3),
        GMInstruction::PopDiscard(GMSingleTypeInstruction { data_type: GMDataType::Double }),
    ]);
    assert!(matches!(
        validate_code(&code, &data),
        Err(CodeValidationError::TypeMismatch(VMStackItem::Int32(Some(3)), GMDataType::Double))
    ));
}

#[test]
fn validate_exit_with_leftover() {
    let data = empty_data(17);
    let code = code_of(vec![GMInstruction::PushImmediate(3), GMInstruction::Exit(GMEmptyInstruction {})]);
    match validate_code(&code, &data) {
        Err(CodeValidationError::ExitStackLeftover(stack)) => {
            assert_eq!(stack.items().len(), 1);
            assert_eq!(stack.items()[0], VMStackItem::Int32(Some(3)));
        },
        _ => panic!("expected leftover items"),
    }
}

#[test]
fn validate_endless_loop_hits_step_limit() {
    let data = empty_data(17);
    let code = code_of(vec![GMInstruction::Branch(GMGotoInstruction { jump_offset: 0 })]);
    assert!(matches!(validate_code(&code, &data), Err(CodeValidationError::StepLimitExceeded)));
}

#[test]
fn validate_unresolvable_parent() {
    let data = empty_data(17);
    let mut code = code_of(vec![]);
    code.bytecode15_info = Some(libgm::elements::codes::GMCodeBytecode15 {
        locals_count: 0,
        arguments_count: 0,
        weird_local_flag: false,
        offset: 0,
        parent: Some(GMRef::new(4)),
    });
    assert!(matches!(validate_code(&code, &data), Err(CodeValidationError::ParentCodeUnresolvable(4))));
}

// ---- address map ----

#[test]
fn address_map_counts_words() {
    let instructions = vec![
        GMInstruction::PushImmediate(1),
        GMInstruction::Exit(GMEmptyInstruction {}),
        GMInstruction::PushImmediate(2),
    ];
    let map = generate_address_map(&instructions);
    assert_eq!(find_address(&map, &instructions, 0), 0);
    assert_eq!(find_address(&map, &instructions, 2), 2);
    assert_eq!(find_index(&map, &instructions, 1), Some(1));
    assert_eq!(find_index(&map, &instructions, 9), None);
}

// ---- strings ----

#[test]
fn string_make_reuses_existing() {
    let mut strings = GMStrings { strings: vec!["a".to_owned(), "b".to_owned()], is_aligned: true, exists: true };
    let r1 = strings.make("b");
    assert_eq!(r1.index, 1);
    assert_eq!(strings.strings.len(), 2);
    let r2 = strings.make("c");
    assert_eq!(r2.index, 2);
    let r3 = strings.make("c");
    assert_eq!(r3.index, 2);
    assert_eq!(strings.strings.len(), 3);
    let r4 = strings.make_unique("c".to_owned());
    assert_eq!(r4.index, 3);
    assert_eq!(strings.find("a").map(|r| r.index), Some(0));
    assert!(strings.find("zzz").is_none());
}

// ---- chunk table ----

fn form(chunks: &[(&[u8; 4], &[u8])]) -> Vec<u8> {
    let mut body: Vec<u8> = vec![];
    for (name, content) in chunks {
        body.extend_from_slice(&name[..]);
        body.extend_from_slice(&le(content.len() as u32));
        body.extend_from_slice(content);
    }
    let mut out = b"FORM".to_vec();
    out.extend_from_slice(&le(body.len() as u32));
    out.extend_from_slice(&body);
    out
}

#[test]
fn chunk_table_of_two_chunks() {
    let raw = form(&[(b"STRG", &[1, 2, 3, 4]), (b"GEN8", &[9, 9])]);
    let (e, chunks) = parse_chunk_table(&raw).unwrap();
    assert_eq!(e, Endianness::Little);
    assert_eq!(chunks.len(), 2);
    assert_eq!(chunks[0].name, "STRG");
    assert_eq!((chunks[0].start_pos, chunks[0].end_pos, chunks[0].is_last_chunk), (16, 20, false));
    assert_eq!(chunks[1].name, "GEN8");
    assert_eq!((chunks[1].start_pos, chunks[1].end_pos, chunks[1].is_last_chunk), (28, 30, true));
}

#[test]
fn chunk_table_big_endian_names_reversed() {
    let mut raw = form(&[(b"GRTS", &[0, 0])]);
    raw[0..4].copy_from_slice(b"MROF");
    let (e, chunks) = parse_chunk_table(&raw).unwrap();
    assert_eq!(e, Endianness::Big);
    assert_eq!(chunks[0].name, "STRG");
}

#[test]
fn chunk_table_errors() {
    let mut bad_root = form(&[(b"STRG", &[0])]);
    bad_root[0..4].copy_from_slice(b"FORX");
    assert!(parse_chunk_table(&bad_root).is_err());

    let mut bad_len = form(&[(b"STRG", &[0])]);
    bad_len[4] += 1;
    assert!(parse_chunk_table(&bad_len).is_err());

    let duplicate = form(&[(b"STRG", &[0]), (b"STRG", &[0])]);
    assert!(parse_chunk_table(&duplicate).is_err());

    let lowercase = form(&[(b"strg", &[0])]);
    assert!(parse_chunk_table(&lowercase).is_err());

    let mut too_long = form(&[(b"STRG", &[0, 0])]);
    too_long[12] = 100;
    assert!(parse_chunk_table(&too_long).is_err());

    assert!(parse_chunk_table(b"FORM").is_err());
}

#[test]
fn chunk_table_of_empty_form() {
    let raw = form(&[]);
    let (_, chunks) = parse_chunk_table(&raw).unwrap();
    assert!(chunks.is_empty());
}

// ---- occurrence chains, functions and variables ----

fn code_chunk(end: u32) -> GMChunk {
    GMChunk { name: "CODE".to_owned(), start_pos: 0, end_pos: end, is_last_chunk: false }
}

#[test]
fn occurrence_chain_is_followed() {
    let mut data = vec![0u8; 32];
    data[4..8].copy_from_slice(&le(8));
    data[12..16].copy_from_slice(&le(0x0800_0000 | 7));
    let mut reader = DataReader::new(&data);
    reader.gm_version = GMVersion::new(2, 3, 0, 0);
    reader.chunks = vec![code_chunk(32)];
    let (occ, id) = parse_occurrence_chain(&mut reader, 4, 2).unwrap();
    assert_eq!(occ, vec![4, 12]);
    assert_eq!(id, 7);
    assert_eq!(reader.cur_pos, 0);

    let mut old = DataReader::new(&data);
    old.gm_version = GMVersion::new(2, 2, 0, 0);
    old.chunks = vec![code_chunk(32)];
    let (occ, id) = parse_occurrence_chain(&mut old, 0, 2).unwrap();
    assert_eq!(occ, vec![4, 12]);
    assert_eq!(id, 7);
}

#[test]
fn occurrence_chain_errors() {
    let data = vec![0u8; 16];
    let mut reader = DataReader::new(&data);
    reader.gm_version = GMVersion::new(2, 3, 0, 0);
    assert!(parse_occurrence_chain(&mut reader, 4, 1).is_err());
    let (occ, id) = parse_occurrence_chain(&mut reader, -1, 0).unwrap();
    assert!(occ.is_empty());
    assert_eq!(id, u32::MAX);
    reader.chunks = vec![code_chunk(16)];
    assert!(parse_occurrence_chain(&mut reader, 4, 1).is_err());
    assert!(parse_occurrence_chain(&mut reader, 40, 1).is_err());
}

#[test]
fn functions_chunk_is_read() {
    let mut data = vec![0u8; 36];
    data[4..8].copy_from_slice(&le(5));
    data[16..20].copy_from_slice(&le(1));
    data[20..24].copy_from_slice(&le(100));
    data[24..28].copy_from_slice(&le(1));
    data[28..32].copy_from_slice(&le(4));
    let mut reader = DataReader::new(&data);
    reader.bytecode_version = 17;
    reader.gm_version = GMVersion::new(2, 3, 0, 0);
    reader.chunks = vec![code_chunk(16)];
    reader.chunk = GMChunk { name: "FUNC".to_owned(), start_pos: 16, end_pos: 36, is_last_chunk: true };
    reader.cur_pos = 16;
    reader.string_occurrences.insert(100, 5);
    let functions = GMFunctions::deserialize(&mut reader).unwrap();
    assert_eq!(functions.functions.len(), 1);
    assert_eq!(functions.functions[0].name.index, 5);
    assert!(functions.code_locals.exists);
    assert_eq!(reader.function_occurrences.get(&4), Some(&0));
    assert_eq!(reader.cur_pos, 36);
}

#[test]
fn functions_chunk_name_mismatch_fails() {
    let mut data = vec![0u8; 36];
    data[4..8].copy_from_slice(&le(6));
    data[16..20].copy_from_slice(&le(1));
    data[20..24].copy_from_slice(&le(100));
    data[24..28].copy_from_slice(&le(1));
    data[28..32].copy_from_slice(&le(4));
    let mut reader = DataReader::new(&data);
    reader.bytecode_version = 17;
    reader.gm_version = GMVersion::new(2, 3, 0, 0);
    reader.chunks = vec![code_chunk(16)];
    reader.chunk = GMChunk { name: "FUNC".to_owned(), start_pos: 16, end_pos: 36, is_last_chunk: true };
    reader.cur_pos = 16;
    reader.string_occurrences.insert(100, 5);
    assert!(GMFunctions::deserialize(&mut reader).is_err());
}

#[test]
fn empty_functions_chunk_is_yyc() {
    let data = vec![0u8; 8];
    let mut reader = DataReader::new(&data);
    reader.bytecode_version = 16;
    reader.chunk = GMChunk { name: "FUNC".to_owned(), start_pos: 4, end_pos: 4, is_last_chunk: false };
    reader.cur_pos = 4;
    let functions = GMFunctions::deserialize(&mut reader).unwrap();
    assert!(functions.is_yyc && functions.exists && functions.functions.is_empty());
}

#[test]
fn functions_chunk_is_written() {
    let functions = GMFunctions {
        functions: vec![GMFunction { name: GMRef::new(3) }],
        code_locals: GMCodeLocals { code_locals: vec![], exists: true },
        is_yyc: false,
        exists: true,
    };
    let mut builder = DataBuilder::new(17, GMVersion::new(2, 3, 0, 0));
    builder.function_occurrences = vec![vec![40, 80]];
    functions.serialize(&mut builder).unwrap();
    let mut expected: Vec<u8> = vec![];
    expected.extend_from_slice(&le(1));
    expected.extend_from_slice(&le(0xDEADC0DE));
    expected.extend_from_slice(&le(2));
    expected.extend_from_slice(&le(44));
    expected.extend_from_slice(&le(0));
    assert_eq!(builder.bytes, expected);
    assert_eq!(builder.string_refs, vec![(4, 3)]);

    let mut missing = DataBuilder::new(17, GMVersion::new(2, 3, 0, 0));
    assert!(functions.serialize(&mut missing).is_err());
}

#[test]
fn variables_chunk_is_read() {
    let mut data = vec![0u8; 12];
    data[0..4].copy_from_slice(&le(100));
    data[4..8].copy_from_slice(&le(0));
    data[8..12].copy_from_slice(&le(u32::MAX));
    let mut reader = DataReader::new(&data);
    reader.bytecode_version = 14;
    reader.string_occurrences.insert(100, 2);
    let variables = GMVariables::deserialize(&mut reader).unwrap();
    assert_eq!(variables.variables.len(), 1);
    assert_eq!(variables.variables[0].name.index, 2);
    assert!(variables.variables[0].b15_data.is_none());
    assert_eq!(reader.cur_pos, 12);
}

#[test]
fn variables_chunk_is_written() {
    let variables = GMVariables {
        variables: vec![libgm::elements::variables::GMVariable { name: GMRef::new(1), b15_data: None }],
        scuffed: None,
        yyc: false,
        exists: true,
    };
    let mut builder = DataBuilder::new(14, GMVersion::new(1, 0, 0, 0));
    builder.variable_occurrences = vec![vec![]];
    variables.serialize(&mut builder).unwrap();
    let mut expected: Vec<u8> = vec![];
    expected.extend_from_slice(&le(0xDEADC0DE));
    expected.extend_from_slice(&le(0));
    expected.extend_from_slice(&le(u32::MAX));
    assert_eq!(builder.bytes, expected);

    let mut b15 = DataBuilder::new(17, GMVersion::new(2, 3, 0, 0));
    b15.variable_occurrences = vec![vec![]];
    assert!(variables.serialize(&mut b15).is_err());
}

// ---- small pieces ----

#[test]
fn general_info_flags_roundtrip() {
    let raw: u32 = 0x0001_2345;
    let flags = GMGeneralInfoFlags::parse(raw);
    assert_eq!(flags.build(), raw & 0x1FFFF);
    let all = GMGeneralInfoFlags::parse(0xFFFF_FFFF);
    assert!(all.fullscreen && all.steam_enabled);
    assert_eq!(all.build(), 0x1FFFF);
    assert!(!GMGeneralInfoFlags::parse(0).fullscreen);
}

#[test]
fn spine_blob_encoding() {
    let mut blob = b"AB".to_vec();
    GMSpriteTypeSpine::encode_spine_blob(&mut blob);
    assert_eq!(blob, vec![107, 80]);
    GMSpriteTypeSpine::decode_spine_blob(&mut blob);
    assert_eq!(blob, b"AB".to_vec());
}

#[test]
fn spine_weird_string_roundtrip() {
    let text = "{\"skeleton\":1}".to_owned();
    let bytes = GMSpriteTypeSpine::build_weird_string(&text);
    assert_ne!(bytes, text.as_bytes().to_vec());
    let mut reader = DataReader::new(&bytes);
    let back = GMSpriteTypeSpine::read_weird_string(&mut reader, bytes.len() as u32).unwrap();
    assert_eq!(back, text);
    let mut short = DataReader::new(&bytes);
    assert!(GMSpriteTypeSpine::read_weird_string(&mut short, bytes.len() as u32 + 1).is_err());
}

#[test]
fn mask_data_size() {
    assert_eq!(calculate_mask_data_size(10, 2, 1), 4);
    assert_eq!(calculate_mask_data_size(1, 1, 1), 4);
    assert_eq!(calculate_mask_data_size(32, 2, 3), 24);
    assert_eq!(calculate_mask_data_size(0, 5, 2), 0);
}

#[test]
fn builtin_sound_group() {
    assert_eq!(get_builtin_sound_group_id(&GMVersion::new(2, 0, 0, 0)), 0);
    assert_eq!(get_builtin_sound_group_id(&GMVersion::new(1, 0, 0, 1250)), 0);
    assert_eq!(get_builtin_sound_group_id(&GMVersion::new(1, 0, 0, 1100)), 1);
    assert_eq!(get_builtin_sound_group_id(&GMVersion::new(1, 0, 0, 200)), 0);
    assert_eq!(get_builtin_sound_group_id(&GMVersion::new(1, 0, 0, 100)), 1);
}

#[test]
fn font_padding() {
    let p = generate_font_padding();
    assert_eq!(p.len(), 512);
    assert_eq!((p[0], p[1], p[2], p[3]), (0, 0, 1, 0));
    assert_eq!(p[254], 127);
    assert_eq!((p[256], p[257], p[510], p[511]), (0x3F, 0, 0x3F, 0));
}

// ---- rooms ----


fn tiles(data: Vec<u32>) -> GMRoomLayerDataTiles {
    let n = data.len();
    GMRoomLayerDataTiles { background: GMRef::new(0), tile_data: data, width: n, height: 1 }
}

fn encode_tiles(data: Vec<u32>, version: GMVersion) -> Vec<u8> {
    let mut builder = DataBuilder::new(17, version);
    tiles(data).build_compressed_tile_data(&mut builder).unwrap();
    builder.bytes
}

fn decode_tiles(bytes: &[u8], total: usize, version: GMVersion) -> Result<Vec<u32>, String> {
    let mut reader = DataReader::new(bytes);
    reader.gm_version = version;
    GMRoomLayerDataTiles::read_compressed_tile_data(&mut reader, total)
}

#[test]
fn room_flags() {
    let f = GMRoomFlags::parse(0x20005);
    assert!(f.enable_views && !f.show_color && f.dont_clear_display_buffer && f.is_gms2 && !f.is_gms2_3);
    assert_eq!(f.build(), 0x20005);
    let g = GMRoomFlags::parse(0x10000);
    assert!(g.is_gms2_3);
    assert_eq!(g.build(), 1365536);
    assert!(!GMRoomFlags::parse(g.build()).is_gms2_3);
}

#[test]
fn room_layer_types() {
    assert_eq!(GMRoomLayerType::from_u32(4).unwrap(), GMRoomLayerType::Tiles);
    assert_eq!(GMRoomLayerType::from_u32(7).unwrap(), GMRoomLayerType::Path2);
    assert!(GMRoomLayerType::from_u32(5).is_err());
    assert_eq!(GMRoomLayerType::Effect.to_u32(), 6);
}

#[test]
fn tile_coding_examples() {
    let v = GMVersion::new(2024, 2, 0, 0);
    let mut expected: Vec<u8> = vec![2];
    expected.extend_from_slice(&le(7));
    expected.extend_from_slice(&le(9));
    expected.push(0x81);
    expected.extend_from_slice(&le(u32::MAX));
    assert_eq!(encode_tiles(vec![7, 9], v), expected);

    let mut expected: Vec<u8> = vec![0x81];
    expected.extend_from_slice(&le(7));
    assert_eq!(encode_tiles(vec![7, 7], v), expected);

    let mut expected: Vec<u8> = vec![1];
    expected.extend_from_slice(&le(5));
    expected.push(0x81);
    expected.extend_from_slice(&le(u32::MAX));
    assert_eq!(encode_tiles(vec![5], v), expected);

    assert!(encode_tiles(vec![], v).is_empty());
}

#[test]
fn tile_coding_splits_long_runs() {
    let v = GMVersion::new(2024, 2, 0, 0);
    let bytes = encode_tiles(vec![3; 300], v);
    let mut expected: Vec<u8> = vec![];
    for len in [128u8, 128, 44] {
        expected.push((len - 1) | 0x80);
        expected.extend_from_slice(&le(3));
    }
    assert_eq!(bytes, expected);
    assert_eq!(decode_tiles(&bytes, 300, v).unwrap(), vec![3; 300]);
}

#[test]
fn tile_coding_roundtrips() {
    let v = GMVersion::new(2024, 2, 0, 0);
    let samples: Vec<Vec<u32>> = vec![
        vec![1, 2, 3],
        vec![1, 1, 2, 3, 3, 3, 4],
        vec![0, 0, 0, 0],
        (0..200).collect(),
        vec![9, 9, 9, 1],
    ];
    for t in samples {
        let bytes = encode_tiles(t.clone(), v);
        assert_eq!(decode_tiles(&bytes, t.len(), v).unwrap(), t);
    }
}

#[test]
fn tile_coding_aligned_from_2024_4() {
    let v = GMVersion::new(2024, 4, 0, 0);
    let bytes = encode_tiles(vec![7, 7], v);
    assert_eq!(bytes.len(), 8);
    assert_eq!(&bytes[5..], &[0, 0, 0]);
    assert_eq!(decode_tiles(&bytes, 2, v).unwrap(), vec![7, 7]);
}

#[test]
fn tile_decoding_errors() {
    let v = GMVersion::new(2024, 2, 0, 0);
    let mut bad_padding: Vec<u8> = vec![1];
    bad_padding.extend_from_slice(&le(5));
    bad_padding.push(0x82);
    bad_padding.extend_from_slice(&le(u32::MAX));
    assert!(decode_tiles(&bad_padding, 1, v).is_err());
    let truncated: Vec<u8> = vec![3, 1, 0, 0, 0];
    assert!(decode_tiles(&truncated, 3, v).is_err());
    assert_eq!(decode_tiles(&[], 0, v).unwrap(), Vec::<u32>::new());
}

// ---- reading chunks ----

#[test]
fn chunk_padding_is_read() {
    let data = vec![1u8, 2, 3, 0, 0, 0, 0, 0, 9, 9, 9, 9];
    let mut reader = DataReader::new(&data);
    reader.general_info_exists = true;
    reader.gm_version = GMVersion::new(2, 0, 0, 0);
    reader.chunk = GMChunk { name: "TEST".to_owned(), start_pos: 0, end_pos: 12, is_last_chunk: false };
    reader.chunk_padding = 4;
    reader.cur_pos = 3;
    reader.read_chunk_padding().unwrap();
    assert_eq!(reader.cur_pos, 4);
    assert_eq!(reader.chunk_padding, 4);

    reader.chunk_padding = 16;
    reader.cur_pos = 6;
    reader.read_chunk_padding().unwrap();
    assert_eq!(reader.cur_pos, 8);
    assert_eq!(reader.chunk_padding, 4);

    reader.chunk_padding = 16;
    reader.cur_pos = 3;
    reader.gm_version = GMVersion::new(1, 0, 0, 0);
    reader.read_chunk_padding().unwrap();
    assert_eq!(reader.cur_pos, 3);
}

#[test]
fn gm_version_from_gen8() {
    let mut data = vec![0u8; 64];
    data[44..48].copy_from_slice(&le(2));
    data[48..52].copy_from_slice(&le(3));
    data[52..56].copy_from_slice(&le(4));
    data[56..60].copy_from_slice(&le(5));
    let mut reader = DataReader::new(&data);
    assert!(reader.unstable_get_gm_version().is_err());
    reader.chunks = vec![GMChunk { name: "GEN8".to_owned(), start_pos: 0, end_pos: 64, is_last_chunk: true }];
    let v = reader.unstable_get_gm_version().unwrap();
    assert_eq!((v.major, v.minor, v.release, v.build), (2, 3, 4, 5));
}

#[test]
fn chunks_are_read_by_name() {
    let mut data = vec![0u8; 16];
    data[8..12].copy_from_slice(&le(0));
    let mut reader = DataReader::new(&data);
    reader.general_info_exists = true;
    reader.chunks = vec![GMChunk { name: "FEAT".to_owned(), start_pos: 8, end_pos: 12, is_last_chunk: true }];
    let missing: Result<GMFeatureFlags, String> = reader.read_chunk_required(&"TXTR".to_owned());
    assert!(missing.is_err());
    let absent: GMFeatureFlags = reader.read_chunk_optional(&"TXTR".to_owned()).unwrap();
    assert!(!absent.exists);
    let flags: GMFeatureFlags = reader.read_chunk_required(&"FEAT".to_owned()).unwrap();
    assert!(flags.exists && flags.feature_flags.is_empty());
    assert!(reader.chunks.is_empty());
    assert_eq!(reader.cur_pos, 12);
}
