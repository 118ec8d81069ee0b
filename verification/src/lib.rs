//! GameMaker data files (`data.win`): a verified parser of the whole file, verified readers
//! and writers for the chunks this library models (strings, general info, code, game objects,
//! options and others), creation of a new data file, and the bytecode model, assembler,
//! disassembler and stack validator that work on them. Chunks without a model here are kept
//! as bytes.

pub mod bytes;
pub mod trusted;
pub mod text;
pub mod refs;
pub mod version;
pub mod rng;
pub mod chunk;
pub mod chunk_table;
pub mod reader;
pub mod resources;
pub mod element;
pub mod lists;

pub mod builder;
pub mod code;
pub mod instructions;
pub mod address_map;
pub mod encode;
pub mod roundtrip;
pub mod elements;
pub mod data;
pub mod parse;
pub mod disassembler;
pub mod assembler;
pub mod create_data_file;
pub mod validation;
