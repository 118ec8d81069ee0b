//! Extensions (chunk `EXTN`): native and script libraries a game ships, with their
//! functions and options.

use vstd::prelude::*;
use crate::builder::{lemma_extends_trans, lemma_prefix_extends, ref_placeholder, DataBuilder};
use crate::bytes::{spec_u32_at, u32_le_bytes};
use crate::element::{GMChunkElement, GMElement};
use crate::lists::{elements_fit, elements_written, lemma_pointer_list_len, pointer_list_fits, pointer_list_written, simple_list_written, elements_end, list_read, pointer_list_end, pointer_list_read, pointer_list_readable, simple_list_readable};
use crate::reader::DataReader;
use crate::refs::GMRef;
use crate::resources::string_at;
use crate::version::{version_at_least, version_req, GMVersion};

verus! {

/// The kind of an extension file or function.
#[derive(Clone, Copy, Debug, PartialEq, Eq, Structural)]
pub enum GMExtensionKind {
    Dll,
    GML,
    ActionLib,
    Generic,
    JavaScript,
}

/// The type that an extension function returns or takes.
#[derive(Clone, Copy, Debug, PartialEq, Eq, Structural)]
pub enum GMExtensionReturnType {
    String,
    Double,
}

/// The kind of an extension option's value.
#[derive(Clone, Copy, Debug, PartialEq, Eq, Structural)]
pub enum GMExtensionOptionKind {
    Boolean,
    Number,
    String,
}

/// The extension kind numbered `n` (1 to 5).
pub open spec fn extension_kind_of(n: u32) -> Option<GMExtensionKind> {
    if n == 1 { Some(GMExtensionKind::Dll) }
    else if n == 2 { Some(GMExtensionKind::GML) }
    else if n == 3 { Some(GMExtensionKind::ActionLib) }
    else if n == 4 { Some(GMExtensionKind::Generic) }
    else if n == 5 { Some(GMExtensionKind::JavaScript) }
    else { None }
}

/// The number of an extension kind.
pub open spec fn extension_kind_code(k: GMExtensionKind) -> u32 {
    match k {
        GMExtensionKind::Dll => 1,
        GMExtensionKind::GML => 2,
        GMExtensionKind::ActionLib => 3,
        GMExtensionKind::Generic => 4,
        GMExtensionKind::JavaScript => 5,
    }
}

/// The return type numbered `n` (1 or 2).
pub open spec fn return_type_of(n: u32) -> Option<GMExtensionReturnType> {
    if n == 1 { Some(GMExtensionReturnType::String) }
    else if n == 2 { Some(GMExtensionReturnType::Double) }
    else { None }
}

/// The number of a return type.
pub open spec fn return_type_code(t: GMExtensionReturnType) -> u32 {
    match t {
        GMExtensionReturnType::String => 1,
        GMExtensionReturnType::Double => 2,
    }
}

/// The option kind numbered `n` (0 to 2).
pub open spec fn option_kind_of(n: u32) -> Option<GMExtensionOptionKind> {
    if n == 0 { Some(GMExtensionOptionKind::Boolean) }
    else if n == 1 { Some(GMExtensionOptionKind::Number) }
    else if n == 2 { Some(GMExtensionOptionKind::String) }
    else { None }
}

/// The number of an option kind.
pub open spec fn option_kind_code(k: GMExtensionOptionKind) -> u32 {
    match k {
        GMExtensionOptionKind::Boolean => 0,
        GMExtensionOptionKind::Number => 1,
        GMExtensionOptionKind::String => 2,
    }
}

impl GMExtensionKind {
    /// The kind numbered `n`; fails for a number that names none.
    pub fn from_u32(n: u32) -> (r: Result<Self, String>)
        ensures
            match r {
                Ok(k) => extension_kind_of(n) == Some(k),
                Err(_) => extension_kind_of(n) is None,
            },
    {
        match n {
            1 => Ok(GMExtensionKind::Dll),
            2 => Ok(GMExtensionKind::GML),
            3 => Ok(GMExtensionKind::ActionLib),
            4 => Ok(GMExtensionKind::Generic),
            5 => Ok(GMExtensionKind::JavaScript),
            _ => Err("Invalid extension kind".to_owned()),
        }
    }

    /// The kind's number.
    pub fn to_u32(&self) -> (r: u32)
        ensures
            r == extension_kind_code(*self),
    {
        match self {
            GMExtensionKind::Dll => 1,
            GMExtensionKind::GML => 2,
            GMExtensionKind::ActionLib => 3,
            GMExtensionKind::Generic => 4,
            GMExtensionKind::JavaScript => 5,
        }
    }
}

impl GMExtensionReturnType {
    /// The return type numbered `n`; fails for a number that names none.
    pub fn from_u32(n: u32) -> (r: Result<Self, String>)
        ensures
            match r {
                Ok(t) => return_type_of(n) == Some(t),
                Err(_) => return_type_of(n) is None,
            },
    {
        match n {
            1 => Ok(GMExtensionReturnType::String),
            2 => Ok(GMExtensionReturnType::Double),
            _ => Err("Invalid extension return type".to_owned()),
        }
    }

    /// The return type's number.
    pub fn to_u32(&self) -> (r: u32)
        ensures
            r == return_type_code(*self),
    {
        match self {
            GMExtensionReturnType::String => 1,
            GMExtensionReturnType::Double => 2,
        }
    }
}

impl GMExtensionOptionKind {
    /// The option kind numbered `n`; fails for a number that names none.
    pub fn from_u32(n: u32) -> (r: Result<Self, String>)
        ensures
            match r {
                Ok(k) => option_kind_of(n) == Some(k),
                Err(_) => option_kind_of(n) is None,
            },
    {
        match n {
            0 => Ok(GMExtensionOptionKind::Boolean),
            1 => Ok(GMExtensionOptionKind::Number),
            2 => Ok(GMExtensionOptionKind::String),
            _ => Err("Invalid extension option kind".to_owned()),
        }
    }

    /// The option kind's number.
    pub fn to_u32(&self) -> (r: u32)
        ensures
            r == option_kind_code(*self),
    {
        match self {
            GMExtensionOptionKind::Boolean => 0,
            GMExtensionOptionKind::Number => 1,
            GMExtensionOptionKind::String => 2,
        }
    }
}

/// An argument of an extension function: its type.
pub struct GMExtensionFunctionArg {
    pub return_type: GMExtensionReturnType,
}

impl GMElement for GMExtensionFunctionArg {
    open spec fn readable<'a>(before: DataReader<'a>) -> bool {
        before.can_read(4) && return_type_of(spec_u32_at(before.data@, before.cur_pos as int)) is Some
    }

    open spec fn read_end<'a>(before: DataReader<'a>) -> int {
        before.cur_pos + 4
    }

    open spec fn writable(&self, before: DataBuilder) -> bool {
        true
    }

    open spec fn written(&self, before: DataBuilder, after: DataBuilder) -> bool {
        after.bytes@ == before.bytes@ + u32_le_bytes(return_type_code(self.return_type))
    }

    open spec fn deserialized<'a>(before: DataReader<'a>, after: DataReader<'a>, value: GMExtensionFunctionArg) -> bool {
        &&& before.can_read(4)
        &&& after == before.moved(before.cur_pos + 4)
        &&& return_type_of(spec_u32_at(before.data@, before.cur_pos as int)) == Some(value.return_type)
    }

    fn deserialize(reader: &mut DataReader) -> (r: Result<GMExtensionFunctionArg, String>) {
        let return_type = GMExtensionReturnType::from_u32(reader.read_u32()?)?;
        Ok(GMExtensionFunctionArg { return_type })
    }

    fn serialize(&self, builder: &mut DataBuilder) -> (r: Result<(), String>) {
        builder.write_u32(self.return_type.to_u32());
        proof {
            lemma_prefix_extends(*old(builder), *builder);
        }
        Ok(())
    }
}

/// A function of an extension file.
pub struct GMExtensionFunction {
    pub name: GMRef<String>,
    pub id: u32,
    pub kind: GMExtensionKind,
    pub return_type: GMExtensionReturnType,
    pub ext_name: GMRef<String>,
    pub arguments: Vec<GMExtensionFunctionArg>,
}

impl GMElement for GMExtensionFunction {
    open spec fn readable<'a>(before: DataReader<'a>) -> bool {
        let p = before.cur_pos as int;
        let d = before.data@;
        &&& before.can_read(24)
        &&& string_at(before, p) is Some
        &&& extension_kind_of(spec_u32_at(d, p + 8)) is Some
        &&& return_type_of(spec_u32_at(d, p + 12)) is Some
        &&& string_at(before, p + 16) is Some
        &&& simple_list_readable::<GMExtensionFunctionArg>(before.moved(p + 20))
    }

    open spec fn read_end<'a>(before: DataReader<'a>) -> int {
        let p = before.cur_pos as int;
        elements_end::<GMExtensionFunctionArg>(before.moved(p + 24), spec_u32_at(before.data@, p + 20) as nat)
    }

    /// The string references fit below 2^32 and the arguments can be counted in 32 bits.
    open spec fn writable(&self, before: DataBuilder) -> bool {
        before.bytes@.len() + 16 <= u32::MAX && self.arguments@.len() <= u32::MAX
    }

    open spec fn written(&self, before: DataBuilder, after: DataBuilder) -> bool {
        exists|b: DataBuilder| {
            &&& b.bytes@ == before.bytes@ + ref_placeholder() + u32_le_bytes(self.id)
                + u32_le_bytes(extension_kind_code(self.kind)) + u32_le_bytes(return_type_code(self.return_type))
                + ref_placeholder()
            &&& #[trigger] simple_list_written(self.arguments@, b, after)
        }
    }

    open spec fn deserialized<'a>(before: DataReader<'a>, after: DataReader<'a>, value: GMExtensionFunction) -> bool {
        let p = before.cur_pos as int;
        let d = before.data@;
        &&& before.can_read(24)
        &&& string_at(before, p) == Some(value.name)
        &&& value.id == spec_u32_at(d, p + 4)
        &&& extension_kind_of(spec_u32_at(d, p + 8)) == Some(value.kind)
        &&& return_type_of(spec_u32_at(d, p + 12)) == Some(value.return_type)
        &&& string_at(before, p + 16) == Some(value.ext_name)
        &&& value.arguments@.len() == spec_u32_at(d, p + 20)
        &&& list_read(before.moved(p + 24), after, value.arguments@)
    }

    fn deserialize(reader: &mut DataReader) -> (r: Result<GMExtensionFunction, String>) {
        let name = reader.read_gm_string()?;
        let id = reader.read_u32()?;
        let kind = GMExtensionKind::from_u32(reader.read_u32()?)?;
        let return_type = GMExtensionReturnType::from_u32(reader.read_u32()?)?;
        let ext_name = reader.read_gm_string()?;
        let arguments: Vec<GMExtensionFunctionArg> = reader.read_simple_list()?;
        Ok(GMExtensionFunction { name, id, kind, return_type, ext_name, arguments })
    }

    fn serialize(&self, builder: &mut DataBuilder) -> (r: Result<(), String>) {
        builder.write_gm_string(&self.name)?;
        let ghost b1 = *builder;
        builder.write_u32(self.id);
        builder.write_u32(self.kind.to_u32());
        builder.write_u32(self.return_type.to_u32());
        let ghost b2 = *builder;
        proof {
            lemma_prefix_extends(b1, b2);
            lemma_extends_trans(*old(builder), b1, b2);
        }
        let res = builder.write_gm_string(&self.ext_name);
        proof {
            lemma_extends_trans(*old(builder), b2, *builder);
        }
        res?;
        let ghost b3 = *builder;
        proof {
            assert forall|k: int, b: DataBuilder| 0 <= k < self.arguments@.len()
                implies #[trigger] self.arguments@[k].writable(b) by {}
        }
        let res = builder.write_simple_list(&self.arguments);
        proof {
            lemma_extends_trans(*old(builder), b3, *builder);
        }
        res
    }
}

/// The most bytes an extension function takes: six words and a word per argument.
pub open spec fn function_size(f: GMExtensionFunction) -> nat {
    24 + 4 * f.arguments@.len()
}

/// The largest size of the functions of `fs`.
pub open spec fn max_function_size(fs: Seq<GMExtensionFunction>) -> nat
    decreases fs.len(),
{
    if fs.len() == 0 {
        0
    } else {
        let rest = max_function_size(fs.drop_last());
        let last = function_size(fs.last());
        if rest < last { last } else { rest }
    }
}

proof fn lemma_max_function_size(fs: Seq<GMExtensionFunction>, k: int)
    requires
        0 <= k < fs.len(),
    ensures
        function_size(fs[k]) <= max_function_size(fs),
    decreases fs.len(),
{
    if k < fs.len() - 1 {
        lemma_max_function_size(fs.drop_last(), k);
        assert(fs.drop_last()[k] == fs[k]);
    }
}

/// Written arguments take a word each.
proof fn lemma_args_len(args: Seq<GMExtensionFunctionArg>, b: DataBuilder, a: DataBuilder)
    requires
        elements_written(args, b, a),
    ensures
        a.bytes@.len() == b.bytes@.len() + 4 * args.len(),
    decreases args.len(),
{
    if args.len() > 0 {
        let mid = choose|mid: DataBuilder| elements_written(args.drop_last(), b, mid) && #[trigger] args.last().written(mid, a);
        lemma_args_len(args.drop_last(), b, mid);
    }
}

/// Functions fit in a pointer list with the largest function's size each.
proof fn lemma_functions_fit(fs: Seq<GMExtensionFunction>, b0: DataBuilder)
    ensures
        elements_fit(fs, b0, max_function_size(fs)),
{
    let m = max_function_size(fs);
    assert forall|k: int, b: DataBuilder| 0 <= k < fs.len() && b.bytecode_version == b0.bytecode_version
        && b.gm_version == b0.gm_version && b.bytes@.len() + m <= u32::MAX
        implies #[trigger] fs[k].writable(b) by {
        lemma_max_function_size(fs, k);
    }
    assert forall|k: int, b: DataBuilder, a: DataBuilder| 0 <= k < fs.len() && #[trigger] fs[k].written(b, a)
        implies a.bytes@.len() <= b.bytes@.len() + m by {
        lemma_max_function_size(fs, k);
        let b1 = choose|b1: DataBuilder| {
            &&& b1.bytes@ == b.bytes@ + ref_placeholder() + u32_le_bytes(fs[k].id)
                + u32_le_bytes(extension_kind_code(fs[k].kind)) + u32_le_bytes(return_type_code(fs[k].return_type))
                + ref_placeholder()
            &&& #[trigger] simple_list_written(fs[k].arguments@, b1, a)
        };
        let counted = choose|counted: DataBuilder| {
            &&& counted.bytes@ == b1.bytes@ + u32_le_bytes(fs[k].arguments@.len() as u32)
            &&& #[trigger] elements_written(fs[k].arguments@, counted, a)
        };
        lemma_args_len(fs[k].arguments@, counted, a);
    }
}

/// A file of an extension.
pub struct GMExtensionFile {
    pub filename: GMRef<String>,
    pub cleanup_script: GMRef<String>,
    pub init_script: GMRef<String>,
    pub kind: GMExtensionKind,
    pub functions: Vec<GMExtensionFunction>,
}

impl GMElement for GMExtensionFile {
    open spec fn readable<'a>(before: DataReader<'a>) -> bool {
        let p = before.cur_pos as int;
        &&& before.can_read(16)
        &&& string_at(before, p) is Some
        &&& string_at(before, p + 4) is Some
        &&& string_at(before, p + 8) is Some
        &&& extension_kind_of(spec_u32_at(before.data@, p + 12)) is Some
        &&& pointer_list_readable::<GMExtensionFunction>(before.moved(p + 16))
    }

    open spec fn read_end<'a>(before: DataReader<'a>) -> int {
        pointer_list_end::<GMExtensionFunction>(before.moved(before.cur_pos + 16))
    }

    /// The three string references, the kind, the count, and a pointer and the largest
    /// function's size per function fit below 2^32.
    open spec fn writable(&self, before: DataBuilder) -> bool {
        before.bytes@.len() + 20 + 4 * self.functions@.len() + self.functions@.len() * max_function_size(self.functions@)
            <= u32::MAX
    }

    open spec fn written(&self, before: DataBuilder, after: DataBuilder) -> bool {
        exists|b: DataBuilder| {
            &&& b.bytes@ == before.bytes@ + ref_placeholder() + ref_placeholder() + ref_placeholder()
                + u32_le_bytes(extension_kind_code(self.kind))
            &&& #[trigger] pointer_list_written(self.functions@, b, after)
        }
    }

    open spec fn deserialized<'a>(before: DataReader<'a>, after: DataReader<'a>, value: GMExtensionFile) -> bool {
        let p = before.cur_pos as int;
        &&& before.can_read(16)
        &&& string_at(before, p) == Some(value.filename)
        &&& string_at(before, p + 4) == Some(value.cleanup_script)
        &&& string_at(before, p + 8) == Some(value.init_script)
        &&& extension_kind_of(spec_u32_at(before.data@, p + 12)) == Some(value.kind)
        &&& pointer_list_read(before.moved(p + 16), value.functions@)
    }

    fn deserialize(reader: &mut DataReader) -> (r: Result<GMExtensionFile, String>) {
        let filename = reader.read_gm_string()?;
        let cleanup_script = reader.read_gm_string()?;
        let init_script = reader.read_gm_string()?;
        let kind = GMExtensionKind::from_u32(reader.read_u32()?)?;
        let functions: Vec<GMExtensionFunction> = reader.read_pointer_list()?;
        Ok(GMExtensionFile { filename, cleanup_script, init_script, kind, functions })
    }

    fn serialize(&self, builder: &mut DataBuilder) -> (r: Result<(), String>) {
        builder.write_gm_string(&self.filename)?;
        let ghost b1 = *builder;
        let res = builder.write_gm_string(&self.cleanup_script);
        proof {
            lemma_extends_trans(*old(builder), b1, *builder);
        }
        res?;
        let ghost b2 = *builder;
        let res = builder.write_gm_string(&self.init_script);
        proof {
            lemma_extends_trans(*old(builder), b2, *builder);
        }
        res?;
        let ghost b3 = *builder;
        builder.write_u32(self.kind.to_u32());
        let ghost b4 = *builder;
        proof {
            lemma_prefix_extends(b3, b4);
            lemma_extends_trans(*old(builder), b3, b4);
        }
        proof {
            lemma_functions_fit(self.functions@, b4);
            if self.writable(*old(builder)) {
                assert(pointer_list_fits(self.functions@, b4, max_function_size(self.functions@)));
            }
        }
        let res = builder.write_pointer_list(&self.functions);
        proof {
            lemma_extends_trans(*old(builder), b4, *builder);
        }
        res
    }
}

/// An option of an extension: a name, a value and the value's kind.
pub struct GMExtensionOption {
    pub name: GMRef<String>,
    pub value: GMRef<String>,
    pub kind: GMExtensionOptionKind,
}

impl GMElement for GMExtensionOption {
    open spec fn readable<'a>(before: DataReader<'a>) -> bool {
        let p = before.cur_pos as int;
        &&& before.can_read(12)
        &&& string_at(before, p) is Some
        &&& string_at(before, p + 4) is Some
        &&& option_kind_of(spec_u32_at(before.data@, p + 8)) is Some
    }

    open spec fn read_end<'a>(before: DataReader<'a>) -> int {
        before.cur_pos + 12
    }

    open spec fn writable(&self, before: DataBuilder) -> bool {
        before.bytes@.len() + 4 <= u32::MAX
    }

    open spec fn written(&self, before: DataBuilder, after: DataBuilder) -> bool {
        after.bytes@ == before.bytes@ + ref_placeholder() + ref_placeholder() + u32_le_bytes(option_kind_code(self.kind))
    }

    open spec fn deserialized<'a>(before: DataReader<'a>, after: DataReader<'a>, value: GMExtensionOption) -> bool {
        let p = before.cur_pos as int;
        &&& before.can_read(12)
        &&& after == before.moved(p + 12)
        &&& string_at(before, p) == Some(value.name)
        &&& string_at(before, p + 4) == Some(value.value)
        &&& option_kind_of(spec_u32_at(before.data@, p + 8)) == Some(value.kind)
    }

    fn deserialize(reader: &mut DataReader) -> (r: Result<GMExtensionOption, String>) {
        let name = reader.read_gm_string()?;
        let value = reader.read_gm_string()?;
        let kind = GMExtensionOptionKind::from_u32(reader.read_u32()?)?;
        Ok(GMExtensionOption { name, value, kind })
    }

    fn serialize(&self, builder: &mut DataBuilder) -> (r: Result<(), String>) {
        builder.write_gm_string(&self.name)?;
        let ghost b1 = *builder;
        let res = builder.write_gm_string(&self.value);
        proof {
            lemma_extends_trans(*old(builder), b1, *builder);
        }
        res?;
        let ghost b2 = *builder;
        builder.write_u32(self.kind.to_u32());
        proof {
            lemma_prefix_extends(b2, *builder);
            lemma_extends_trans(*old(builder), b2, *builder);
        }
        Ok(())
    }
}

/// An extension.
pub struct GMExtension {
    pub folder_name: GMRef<String>,
    pub name: GMRef<String>,
    /// Present in GameMaker 2023.4 and later.
    pub version: Option<GMRef<String>>,
    pub class_name: GMRef<String>,
    pub files: Vec<GMExtensionFile>,
    /// Present in GameMaker 2022.6 and later.
    pub options: Vec<GMExtensionOption>,
}

/// The most bytes an extension file takes: four words, then its functions' pointer list.
pub open spec fn file_size(f: GMExtensionFile) -> nat {
    20 + 4 * f.functions@.len() + f.functions@.len() * max_function_size(f.functions@)
}

/// The largest size of the files of `fs`.
pub open spec fn max_file_size(fs: Seq<GMExtensionFile>) -> nat
    decreases fs.len(),
{
    if fs.len() == 0 {
        0
    } else {
        let rest = max_file_size(fs.drop_last());
        let last = file_size(fs.last());
        if rest < last { last } else { rest }
    }
}

proof fn lemma_max_file_size(fs: Seq<GMExtensionFile>, k: int)
    requires
        0 <= k < fs.len(),
    ensures
        file_size(fs[k]) <= max_file_size(fs),
    decreases fs.len(),
{
    if k < fs.len() - 1 {
        lemma_max_file_size(fs.drop_last(), k);
        assert(fs.drop_last()[k] == fs[k]);
    }
}

/// Files fit in a pointer list with the largest file's size each.
proof fn lemma_files_fit(fs: Seq<GMExtensionFile>, b0: DataBuilder)
    ensures
        elements_fit(fs, b0, max_file_size(fs)),
{
    let m = max_file_size(fs);
    assert forall|k: int, b: DataBuilder| 0 <= k < fs.len() && b.bytecode_version == b0.bytecode_version
        && b.gm_version == b0.gm_version && b.bytes@.len() + m <= u32::MAX
        implies #[trigger] fs[k].writable(b) by {
        lemma_max_file_size(fs, k);
    }
    assert forall|k: int, b: DataBuilder, a: DataBuilder| 0 <= k < fs.len() && #[trigger] fs[k].written(b, a)
        implies a.bytes@.len() <= b.bytes@.len() + m by {
        lemma_max_file_size(fs, k);
        let b1 = choose|b1: DataBuilder| {
            &&& b1.bytes@ == b.bytes@ + ref_placeholder() + ref_placeholder() + ref_placeholder()
                + u32_le_bytes(extension_kind_code(fs[k].kind))
            &&& #[trigger] pointer_list_written(fs[k].functions@, b1, a)
        };
        lemma_functions_fit(fs[k].functions@, b1);
        lemma_pointer_list_len(fs[k].functions@, b1, a, max_function_size(fs[k].functions@));
    }
}

/// Options fit in a pointer list with 12 bytes each.
proof fn lemma_options_fit(os: Seq<GMExtensionOption>, b0: DataBuilder)
    ensures
        elements_fit(os, b0, 12),
{
    assert forall|k: int, b: DataBuilder| 0 <= k < os.len() && b.bytecode_version == b0.bytecode_version
        && b.gm_version == b0.gm_version && b.bytes@.len() + 12 <= u32::MAX
        implies #[trigger] os[k].writable(b) by {}
    assert forall|k: int, b: DataBuilder, a: DataBuilder| 0 <= k < os.len() && #[trigger] os[k].written(b, a)
        implies a.bytes@.len() <= b.bytes@.len() + 12 by {}
}

/// What follows an extension's string references: from GameMaker 2022.6 on the list
/// pointers and the two lists, before that the files list alone.
pub open spec fn extension_body_written(e: GMExtension, v: GMVersion, h: DataBuilder, after: DataBuilder) -> bool {
    if version_at_least(v, version_req(2022, 6)) {
        extension_lists_written(e, h, after)
    } else {
        pointer_list_written(e.files@, h, after)
    }
}

/// The string references of an extension: folder, name, from GameMaker 2023.4 on its
/// version, and class name.
pub open spec fn extension_head_bytes(e: GMExtension, v: GMVersion) -> Seq<u8> {
    ref_placeholder() + ref_placeholder() + (if version_at_least(v, version_req(2023, 4)) { ref_placeholder() } else { Seq::empty() })
        + ref_placeholder()
}

/// The most bytes an extension takes at version `v`.
pub open spec fn extension_size(e: GMExtension, v: GMVersion) -> nat {
    let n = e.files@.len();
    (if version_at_least(v, version_req(2023, 4)) { 16nat } else { 12nat }) + 4 + 4 * n + n * max_file_size(e.files@)
        + (if version_at_least(v, version_req(2022, 6)) { 12 + 16 * e.options@.len() } else { 0nat })
}

/// The most bytes an extension takes at any version.
pub open spec fn extension_size_any(e: GMExtension) -> nat {
    let n = e.files@.len();
    32 + 4 * n + n * max_file_size(e.files@) + 16 * e.options@.len()
}

/// From GameMaker 2022.6 on: after the head `h`, a word pointing at the files list and a
/// word pointing at the options list, then the files list, then the options list.
pub open spec fn extension_lists_written(e: GMExtension, h: DataBuilder, after: DataBuilder) -> bool {
    let slots = h.bytes@.len() as int;
    exists|b6: DataBuilder, mid: DataBuilder, mid2: DataBuilder| {
        &&& b6.bytes@ == h.bytes@ + u32_le_bytes((slots + 8) as u32) + u32_le_bytes(0)
        &&& b6.gm_version == h.gm_version && b6.bytecode_version == h.bytecode_version
        &&& #[trigger] pointer_list_written(e.files@, b6, mid)
        &&& mid.bytes@.len() >= slots + 8
        &&& mid2.bytes@ == mid.bytes@.subrange(0, slots + 4) + u32_le_bytes(mid.bytes@.len() as u32)
            + mid.bytes@.subrange(slots + 8, mid.bytes@.len() as int)
        &&& mid2.gm_version == h.gm_version && mid2.bytecode_version == h.bytecode_version
        &&& #[trigger] pointer_list_written(e.options@, mid2, after)
    }
}

impl GMElement for GMExtension {
    open spec fn readable<'a>(before: DataReader<'a>) -> bool {
        let p = before.cur_pos as int;
        let d = before.data@;
        let v = version_at_least(before.gm_version, version_req(2023, 4));
        let q = if v { p + 16 } else { p + 12 };
        &&& before.can_read(q - p)
        &&& string_at(before, p) is Some
        &&& string_at(before, p + 4) is Some
        &&& (v ==> string_at(before, p + 8) is Some)
        &&& string_at(before, q - 4) is Some
        &&& if version_at_least(before.gm_version, version_req(2022, 6)) {
            &&& before.can_read(q - p + 8)
            &&& spec_u32_at(d, q) == q + 8
            &&& pointer_list_readable::<GMExtensionFile>(before.moved(q + 8))
            &&& pointer_list_end::<GMExtensionFile>(before.moved(q + 8)) == spec_u32_at(d, q + 4)
            &&& pointer_list_readable::<GMExtensionOption>(before.moved(spec_u32_at(d, q + 4) as int))
        } else {
            pointer_list_readable::<GMExtensionFile>(before.moved(q))
        }
    }

    open spec fn read_end<'a>(before: DataReader<'a>) -> int {
        let p = before.cur_pos as int;
        let d = before.data@;
        let q = if version_at_least(before.gm_version, version_req(2023, 4)) { p + 16 } else { p + 12 };
        if version_at_least(before.gm_version, version_req(2022, 6)) {
            pointer_list_end::<GMExtensionOption>(before.moved(spec_u32_at(d, q + 4) as int))
        } else {
            pointer_list_end::<GMExtensionFile>(before.moved(q))
        }
    }

    /// Everything fits below 2^32, and from GameMaker 2023.4 on the extension has a version.
    open spec fn writable(&self, before: DataBuilder) -> bool {
        &&& before.bytes@.len() + extension_size(*self, before.gm_version) <= u32::MAX
        &&& version_at_least(before.gm_version, version_req(2023, 4)) ==> self.version is Some
    }

    /// The string references, then from GameMaker 2022.6 on the two list pointers, the files
    /// and the options; before, the files only.
    open spec fn written(&self, before: DataBuilder, after: DataBuilder) -> bool {
        exists|h: DataBuilder| {
            &&& h.bytes@ == before.bytes@ + extension_head_bytes(*self, before.gm_version)
            &&& h.gm_version == before.gm_version && h.bytecode_version == before.bytecode_version
            &&& #[trigger] extension_body_written(*self, before.gm_version, h, after)
        }
    }

    open spec fn deserialized<'a>(before: DataReader<'a>, after: DataReader<'a>, value: GMExtension) -> bool {
        let p = before.cur_pos as int;
        let v = version_at_least(before.gm_version, version_req(2023, 4));
        let q = if v { p + 16 } else { p + 12 };
        &&& before.can_read(q - p)
        &&& string_at(before, p) == Some(value.folder_name)
        &&& string_at(before, p + 4) == Some(value.name)
        &&& (if v {
            value.version matches Some(ver) && string_at(before, p + 8) == Some(ver)
        } else {
            value.version is None
        })
        &&& string_at(before, q - 4) == Some(value.class_name)
        &&& if version_at_least(before.gm_version, version_req(2022, 6)) {
            &&& before.can_read(q - p + 8)
            &&& spec_u32_at(before.data@, q) == q + 8
            &&& pointer_list_read(before.moved(q + 8), value.files@)
            &&& pointer_list_read(before.moved(spec_u32_at(before.data@, q + 4) as int), value.options@)
        } else {
            &&& pointer_list_read(before.moved(q), value.files@)
            &&& value.options@.len() == 0
        }
    }

    #[verifier::rlimit(80)]
    #[verifier::spinoff_prover]
    fn deserialize(reader: &mut DataReader) -> (r: Result<GMExtension, String>) {
        let folder_name = reader.read_gm_string()?;
        let name = reader.read_gm_string()?;
        let version = if reader.gm_version.is_version_at_least(&GMVersion::new(2023, 4, 0, 0)) {
            Some(reader.read_gm_string()?)
        } else {
            None
        };
        let class_name = reader.read_gm_string()?;
        let files: Vec<GMExtensionFile>;
        let mut options: Vec<GMExtensionOption> = Vec::new();
        if reader.gm_version.is_version_at_least(&GMVersion::new(2022, 6, 0, 0)) {
            let files_ptr = reader.read_u32()?;
            let options_ptr = reader.read_u32()?;
            reader.assert_pos(files_ptr)?;
            files = reader.read_pointer_list()?;
            reader.assert_pos(options_ptr)?;
            options = reader.read_pointer_list()?;
        } else {
            files = reader.read_pointer_list()?;
        }
        Ok(GMExtension { folder_name, name, version, class_name, files, options })
    }

    /// Fails in GameMaker 2023.4 and later when the version is missing.
    #[verifier::rlimit(80)]
    #[verifier::spinoff_prover]
    fn serialize(&self, builder: &mut DataBuilder) -> (r: Result<(), String>)
        ensures
            version_at_least(old(builder).gm_version, version_req(2023, 4)) && self.version is None ==> r is Err,
    {
        let ghost v = old(builder).gm_version;
        let ghost wr = self.writable(*old(builder));
        builder.write_gm_string(&self.folder_name)?;
        let ghost b1 = *builder;
        let res = builder.write_gm_string(&self.name);
        proof {
            lemma_extends_trans(*old(builder), b1, *builder);
        }
        res?;
        let ghost b2 = *builder;
        if builder.is_gm_version_at_least(&GMVersion::new(2023, 4, 0, 0)) {
            match &self.version {
                Some(ver) => {
                    let res = builder.write_gm_string(ver);
                    proof {
                        lemma_extends_trans(*old(builder), b2, *builder);
                    }
                    res?;
                },
                None => return Err("Extension Version not set in 2023.4+".to_owned()),
            }
        }
        let ghost b3 = *builder;
        assert(b3.bytes@ =~= old(builder).bytes@ + ref_placeholder() + ref_placeholder()
            + (if version_at_least(v, version_req(2023, 4)) { ref_placeholder() } else { Seq::empty() }));
        let res = builder.write_gm_string(&self.class_name);
        proof {
            lemma_extends_trans(*old(builder), b3, *builder);
        }
        res?;
        let ghost h = *builder;
        assert(h.bytes@ =~= old(builder).bytes@ + extension_head_bytes(*self, v));
        proof {
            lemma_files_fit(self.files@, h);
        }
        if builder.is_gm_version_at_least(&GMVersion::new(2022, 6, 0, 0)) {
            let slots = builder.len();
            builder.write_u32(0);
            builder.write_u32(0);
            let ghost b5 = *builder;
            proof {
                lemma_prefix_extends(h, b5);
                lemma_extends_trans(*old(builder), h, b5);
            }
            let here = builder.len();
            let res = builder.overwrite_usize(here, slots);
            proof {
                lemma_prefix_extends(*old(builder), *builder);
            }
            res?;
            let ghost b6 = *builder;
            assert(b6.bytes@ =~= h.bytes@ + u32_le_bytes((slots + 8) as u32) + u32_le_bytes(0));
            proof {
                lemma_files_fit(self.files@, b6);
                if wr {
                    assert(pointer_list_fits(self.files@, b6, max_file_size(self.files@)));
                }
            }
            let res = builder.write_pointer_list(&self.files);
            proof {
                lemma_extends_trans(*old(builder), b6, *builder);
            }
            res?;
            let ghost mid = *builder;
            proof {
                lemma_pointer_list_len(self.files@, b6, mid, max_file_size(self.files@));
            }
            let here = builder.len();
            let res = builder.overwrite_usize(here, slots + 4);
            proof {
                lemma_prefix_extends(*old(builder), *builder);
            }
            res?;
            let ghost mid2 = *builder;
            assert(mid2.bytes@ =~= mid.bytes@.subrange(0, slots + 4) + u32_le_bytes(mid.bytes@.len() as u32)
                + mid.bytes@.subrange(slots + 8, mid.bytes@.len() as int));
            proof {
                lemma_options_fit(self.options@, mid2);
                if wr {
                    assert(pointer_list_fits(self.options@, mid2, 12));
                }
            }
            let res = builder.write_pointer_list(&self.options);
            proof {
                lemma_extends_trans(*old(builder), mid2, *builder);
                if res is Ok {
                    assert(extension_lists_written(*self, h, *builder));
                    assert(extension_body_written(*self, v, h, *builder));
                }
            }
            res
        } else {
            proof {
                if wr {
                    assert(pointer_list_fits(self.files@, h, max_file_size(self.files@)));
                }
            }
            let res = builder.write_pointer_list(&self.files);
            proof {
                lemma_extends_trans(*old(builder), h, *builder);
                if res is Ok {
                    assert(extension_body_written(*self, v, h, *builder));
                }
            }
            res
        }
    }
}

/// The largest size of the extensions of `es` at any version.
pub open spec fn max_extension_size(es: Seq<GMExtension>, v: GMVersion) -> nat
    decreases es.len(),
{
    if es.len() == 0 {
        0
    } else {
        let rest = max_extension_size(es.drop_last(), v);
        let last = extension_size_any(es.last());
        if rest < last { last } else { rest }
    }
}

proof fn lemma_max_extension_size(es: Seq<GMExtension>, v: GMVersion, k: int)
    requires
        0 <= k < es.len(),
    ensures
        extension_size_any(es[k]) <= max_extension_size(es, v),
    decreases es.len(),
{
    if k < es.len() - 1 {
        lemma_max_extension_size(es.drop_last(), v, k);
        assert(es.drop_last()[k] == es[k]);
    }
}

/// An extension takes no more at one version than at any.
proof fn lemma_extension_size_any(e: GMExtension, v: GMVersion)
    ensures
        extension_size(e, v) <= extension_size_any(e),
{
}

/// A written extension takes at most its size.
proof fn lemma_extension_len(e: GMExtension, b: DataBuilder, a: DataBuilder)
    requires
        e.written(b, a),
    ensures
        a.bytes@.len() <= b.bytes@.len() + extension_size(e, b.gm_version),
        extension_size(e, b.gm_version) <= extension_size_any(e),
{
    let v = b.gm_version;
    let h = choose|h: DataBuilder| {
        &&& h.bytes@ == b.bytes@ + extension_head_bytes(e, v)
        &&& h.gm_version == b.gm_version && h.bytecode_version == b.bytecode_version
        &&& #[trigger] extension_body_written(e, v, h, a)
    };
    if version_at_least(v, version_req(2022, 6)) {
        let slots = h.bytes@.len() as int;
        let (b6, mid, mid2) = choose|b6: DataBuilder, mid: DataBuilder, mid2: DataBuilder| {
            &&& b6.bytes@ == h.bytes@ + u32_le_bytes((slots + 8) as u32) + u32_le_bytes(0)
            &&& b6.gm_version == h.gm_version && b6.bytecode_version == h.bytecode_version
            &&& #[trigger] pointer_list_written(e.files@, b6, mid)
            &&& mid.bytes@.len() >= slots + 8
            &&& mid2.bytes@ == mid.bytes@.subrange(0, slots + 4) + u32_le_bytes(mid.bytes@.len() as u32)
                + mid.bytes@.subrange(slots + 8, mid.bytes@.len() as int)
            &&& mid2.gm_version == h.gm_version && mid2.bytecode_version == h.bytecode_version
            &&& #[trigger] pointer_list_written(e.options@, mid2, a)
        };
        lemma_files_fit(e.files@, b6);
        lemma_pointer_list_len(e.files@, b6, mid, max_file_size(e.files@));
        lemma_options_fit(e.options@, mid2);
        lemma_pointer_list_len(e.options@, mid2, a, 12);
    } else {
        lemma_files_fit(e.files@, h);
        lemma_pointer_list_len(e.files@, h, a, max_file_size(e.files@));
    }
}

/// The extensions of a data file, with the product id data that some versions add after
/// them, 16 bytes per extension.
pub struct GMExtensions {
    pub extensions: Vec<GMExtension>,
    pub product_id_data: Vec<[u8; 16]>,
    pub exists: bool,
}

/// The product id data written for `n` extensions: the data of each, zero bytes where there
/// is none.
pub open spec fn product_id_bytes(p: Seq<[u8; 16]>, n: nat) -> Seq<u8>
    decreases n,
{
    if n == 0 {
        Seq::empty()
    } else {
        let k = n - 1;
        product_id_bytes(p, k as nat) + (if k < p.len() { p[k]@ } else { Seq::new(16, |i: int| 0u8) })
    }
}

/// Whether a version stores product id data after the extensions: GameMaker 2 and later,
/// and GameMaker 1 builds 1773 and later, or build 1539.
pub open spec fn product_id_data_eligible_spec(ver: GMVersion) -> bool {
    ver.major >= 2 || (ver.major == 1 && ver.build >= 1773) || (ver.major == 1 && ver.build == 1539)
}

/// Whether `ver` stores product id data after the extensions.
pub fn product_id_data_eligible(ver: &GMVersion) -> (r: bool)
    ensures
        r == product_id_data_eligible_spec(*ver),
{
    ver.major >= 2 || (ver.major == 1 && ver.build >= 1773) || (ver.major == 1 && ver.build == 1539)
}


/// The extension chunk at `before` can be read: its pointer list of extensions, then, where
/// the version stores it, 16 bytes of product id data per extension.
#[verifier::opaque]
pub open spec fn extensions_readable<'a>(before: DataReader<'a>) -> bool {
    &&& pointer_list_readable::<GMExtension>(before)
    &&& (product_id_data_eligible_spec(before.gm_version)
        ==> before.moved(pointer_list_end::<GMExtension>(before)).can_read(16 * before.word()))
}

impl GMChunkElement for GMExtensions {
    fn empty() -> (r: GMExtensions)
        ensures
            !r.exists,
            r.extensions@.len() == 0 && r.product_id_data@.len() == 0,
    {
        GMExtensions { extensions: Vec::new(), product_id_data: Vec::new(), exists: false }
    }

    fn chunk_exists(&self) -> (r: bool)
        ensures
            r == self.exists,
    {
        self.exists
    }
}

impl GMElement for GMExtensions {
    open spec fn readable<'a>(before: DataReader<'a>) -> bool {
        extensions_readable(before)
    }

    open spec fn read_end<'a>(before: DataReader<'a>) -> int {
        pointer_list_end::<GMExtension>(before)
            + if product_id_data_eligible_spec(before.gm_version) { 16 * before.word() } else { 0 }
    }

    /// Everything fits below 2^32, every extension has a version from GameMaker 2023.4 on,
    /// and where product id data is written there is no more of it than extensions.
    open spec fn writable(&self, before: DataBuilder) -> bool {
        let n = self.extensions@.len();
        let pid = product_id_data_eligible_spec(before.gm_version);
        &&& before.bytes@.len() + 4 + 4 * n + n * max_extension_size(self.extensions@, before.gm_version)
            + (if pid { 16 * n } else { 0 }) <= u32::MAX
        &&& version_at_least(before.gm_version, version_req(2023, 4))
            ==> forall|k: int| 0 <= k < n ==> (#[trigger] self.extensions@[k]).version is Some
        &&& pid ==> self.product_id_data@.len() <= n
    }

    open spec fn written(&self, before: DataBuilder, after: DataBuilder) -> bool {
        exists|b: DataBuilder| {
            &&& #[trigger] pointer_list_written(self.extensions@, before, b)
            &&& b.gm_version == before.gm_version
            &&& after.bytes@ == b.bytes@ + (if product_id_data_eligible_spec(before.gm_version) {
                product_id_bytes(self.product_id_data@, self.extensions@.len())
            } else {
                Seq::empty()
            })
        }
    }

    open spec fn deserialized<'a>(before: DataReader<'a>, after: DataReader<'a>, value: GMExtensions) -> bool {
        &&& value.exists
        &&& pointer_list_read(before, value.extensions@)
        &&& value.product_id_data@.len() == (if product_id_data_eligible_spec(before.gm_version) {
            value.extensions@.len()
        } else {
            0
        })
    }

    fn deserialize(reader: &mut DataReader) -> (r: Result<GMExtensions, String>) {
        let ghost ok = Self::readable(*old(reader));
        proof {
            reveal(extensions_readable);
        }
        let extensions: Vec<GMExtension> = reader.read_pointer_list()?;
        let ghost list_end = reader.cur_pos as int;
        let mut product_id_data: Vec<[u8; 16]> = Vec::new();
        if product_id_data_eligible(&reader.gm_version) {
            let mut i: usize = 0;
            while i < extensions.len()
                invariant
                    i <= extensions@.len(),
                    ok == Self::readable(*old(reader)),
                    0 <= list_end <= u32::MAX,
                    ok ==> list_end == pointer_list_end::<GMExtension>(*old(reader)),
                    ok ==> extensions@.len() == old(reader).word(),
                    ok ==> old(reader).moved(list_end).can_read(16 * extensions@.len() as int),
                    ok ==> reader.cur_pos == list_end + 16 * i,
                    product_id_data@.len() == i,
                    reader.wf(),
                    reader.data == old(reader).data,
                    old(reader).only_moved(*reader),
                decreases extensions@.len() - i,
            {
                let bytes = reader.read_bytes16()?;
                product_id_data.push(bytes);
                i = i + 1;
            }
        }
        Ok(GMExtensions { extensions, product_id_data, exists: true })
    }

    /// Fails when there is more product id data than extensions; missing data is written
    /// as zero bytes.
    fn serialize(&self, builder: &mut DataBuilder) -> (r: Result<(), String>)
        ensures
            product_id_data_eligible_spec(old(builder).gm_version)
                && self.product_id_data@.len() > self.extensions@.len() ==> r is Err,
    {
        proof {
            let es = self.extensions@;
            let m = max_extension_size(es, builder.gm_version);
            if self.writable(*builder) {
                assert forall|k: int, b: DataBuilder| 0 <= k < es.len() && b.bytecode_version == builder.bytecode_version
                    && b.gm_version == builder.gm_version && b.bytes@.len() + m <= u32::MAX
                    implies #[trigger] es[k].writable(b) by {
                    lemma_max_extension_size(es, builder.gm_version, k);
                    lemma_extension_size_any(es[k], b.gm_version);
                }
                assert forall|k: int, b: DataBuilder, a: DataBuilder| 0 <= k < es.len() && #[trigger] es[k].written(b, a)
                    implies a.bytes@.len() <= b.bytes@.len() + m by {
                    lemma_max_extension_size(es, builder.gm_version, k);
                    lemma_extension_len(es[k], b, a);
                }
                assert(elements_fit(es, *builder, m));
                assert(pointer_list_fits(es, *builder, m));
            }
        }
        let res = builder.write_pointer_list(&self.extensions);
        res?;
        let ghost listed = *builder;
        if !product_id_data_eligible(&builder.gm_version) {
            assert(builder.bytes@ =~= listed.bytes@ + Seq::<u8>::empty());
            return Ok(());
        }
        let extension_count = self.extensions.len();
        let product_id_count = self.product_id_data.len();
        if product_id_count > extension_count {
            return Err("More Product ID data than extensions".to_owned());
        }
        let mut i: usize = 0;
        while i < extension_count
            invariant
                i <= extension_count,
                extension_count == self.extensions@.len(),
                product_id_count == self.product_id_data@.len(),
                builder.extends(old(builder)),
                builder.bytes@ == listed.bytes@ + product_id_bytes(self.product_id_data@, i as nat),
            decreases extension_count - i,
        {
            let ghost b = *builder;
            if i < product_id_count {
                let id: [u8; 16] = self.product_id_data[i];
                builder.write_bytes(&id);
                assert(id@ == self.product_id_data@[i as int]@);
            } else {
                let zeros: [u8; 16] = [0u8; 16];
                builder.write_bytes(&zeros);
                assert(zeros@ =~= Seq::new(16, |j: int| 0u8));
            }
            proof {
                lemma_prefix_extends(b, *builder);
                lemma_extends_trans(*old(builder), b, *builder);
                assert(builder.bytes@ =~= listed.bytes@ + product_id_bytes(self.product_id_data@, (i + 1) as nat));
            }
            i = i + 1;
        }
        Ok(())
    }
}

} // verus!
