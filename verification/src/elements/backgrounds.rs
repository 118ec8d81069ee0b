//! Backgrounds (chunk `BGND`), which GameMaker 2 uses as tile sets.

use vstd::prelude::*;
use crate::builder::{bool32_bytes, lemma_extends_trans, lemma_prefix_extends, ref_opt_bytes, ref_placeholder, DataBuilder};
use crate::bytes::{spec_i64_at, spec_u32_at, u32_le_bytes, u64_le_bytes};
use crate::element::{GMChunkElement, GMElement};
use crate::lists::{pointer_list_fits, pointer_list_written, aligned_list_readable, element_before_end, pointer_at, pointers_aligned, read_at};
use crate::reader::DataReader;
use crate::refs::GMRef;
use crate::resources::{string_at, texture_opt_at, GMTexturePageItem};
use crate::version::{version_at_least, version_req, GMVersion};

verus! {

/// Backgrounds start at multiples of this when the chunk is aligned.
pub const BACKGROUND_ALIGNMENT: u32 = 8;

/// The backgrounds of a data file.
pub struct GMBackgrounds {
    pub backgrounds: Vec<GMBackground>,
    /// Whether every background starts at a multiple of `BACKGROUND_ALIGNMENT`.
    pub is_aligned: bool,
    pub exists: bool,
}

/// The words written for a sequence of 32-bit words, one each.
pub open spec fn words_bytes(s: Seq<u32>) -> Seq<u8>
    decreases s.len(),
{
    if s.len() == 0 { Seq::empty() } else { words_bytes(s.drop_last()) + u32_le_bytes(s.last()) }
}

/// What follows the fixed fields of a background was written from `b` to `after`: the tile
/// set data from GameMaker 2 on, nothing before.
pub open spec fn background_tail_written(g: Option<GMBackgroundGMS2Data>, b: DataBuilder, after: DataBuilder) -> bool {
    if version_at_least(b.gm_version, version_req(2, 0)) {
        g matches Some(d) && d.written(b, after)
    } else {
        after == b
    }
}

/// A background.
pub struct GMBackground {
    pub name: GMRef<String>,
    pub transparent: bool,
    pub smooth: bool,
    pub preload: bool,
    pub texture: Option<GMRef<GMTexturePageItem>>,
    /// Present in GameMaker 2 and later.
    pub gms2_data: Option<GMBackgroundGMS2Data>,
}

/// The tile set data of a background in GameMaker 2 and later.
pub struct GMBackgroundGMS2Data {
    /// The width of a tile.
    pub tile_width: u32,
    /// The height of a tile.
    pub tile_height: u32,
    /// The empty pixels left and right of a tile.
    pub output_border_x: u32,
    /// The empty pixels above and below a tile.
    pub output_border_y: u32,
    /// The number of columns of the tile set.
    pub tile_columns: u32,
    /// The number of frames of the tile animation; never zero.
    pub items_per_tile_count: usize,
    /// The time of each frame in microseconds.
    pub frame_length: i64,
    /// The ids of all tiles, `items_per_tile_count` per tile.
    pub tile_ids: Vec<u32>,
}

/// A 32-bit boolean at `pos`: `Some` for 0 or 1.
pub open spec fn bool32_at(data: Seq<u8>, pos: int) -> Option<bool> {
    let raw = spec_u32_at(data, pos);
    if raw == 0 {
        Some(false)
    } else if raw == 1 {
        Some(true)
    } else {
        None
    }
}

impl GMElement for GMBackgroundGMS2Data {
    open spec fn readable<'a>(before: DataReader<'a>) -> bool {
        let p = before.cur_pos as int;
        let d = before.data@;
        &&& before.can_read(44)
        &&& spec_u32_at(d, p) == 2
        &&& spec_u32_at(d, p + 24) != 0
        &&& spec_u32_at(d, p + 32) == 0
        &&& before.can_read(44 + 4 * (spec_u32_at(d, p + 28) * spec_u32_at(d, p + 24)))
    }

    open spec fn read_end<'a>(before: DataReader<'a>) -> int {
        let p = before.cur_pos as int;
        p + 44 + 4 * (spec_u32_at(before.data@, p + 28) * spec_u32_at(before.data@, p + 24))
    }

    open spec fn writable(&self, before: DataBuilder) -> bool {
        &&& self.items_per_tile_count != 0
        &&& self.tile_ids@.len() as int % self.items_per_tile_count as int == 0
        &&& self.items_per_tile_count <= u32::MAX
        &&& self.tile_ids@.len() as int / self.items_per_tile_count as int <= u32::MAX
    }

    open spec fn written(&self, before: DataBuilder, after: DataBuilder) -> bool {
        after.bytes@ == before.bytes@ + u32_le_bytes(2u32) + u32_le_bytes(self.tile_width) + u32_le_bytes(self.tile_height)
            + u32_le_bytes(self.output_border_x) + u32_le_bytes(self.output_border_y) + u32_le_bytes(self.tile_columns)
            + u32_le_bytes(self.items_per_tile_count as u32)
            + u32_le_bytes((self.tile_ids@.len() as int / self.items_per_tile_count as int) as u32) + u32_le_bytes(0u32)
            + u64_le_bytes(self.frame_length as u64) + words_bytes(self.tile_ids@)
    }

    open spec fn deserialized<'a>(before: DataReader<'a>, after: DataReader<'a>, value: GMBackgroundGMS2Data) -> bool {
        let p = before.cur_pos as int;
        let d = before.data@;
        let n = value.tile_ids@.len() as int;
        &&& before.can_read(44 + 4 * n)
        &&& after == before.moved(p + 44 + 4 * n)
        &&& spec_u32_at(d, p) == 2
        &&& value.tile_width == spec_u32_at(d, p + 4)
        &&& value.tile_height == spec_u32_at(d, p + 8)
        &&& value.output_border_x == spec_u32_at(d, p + 12)
        &&& value.output_border_y == spec_u32_at(d, p + 16)
        &&& value.tile_columns == spec_u32_at(d, p + 20)
        &&& value.items_per_tile_count == spec_u32_at(d, p + 24)
        &&& value.items_per_tile_count != 0
        &&& n == spec_u32_at(d, p + 28) * value.items_per_tile_count
        &&& spec_u32_at(d, p + 32) == 0
        &&& value.frame_length == spec_i64_at(d, p + 36)
        &&& forall|k: int| 0 <= k < n ==> #[trigger] value.tile_ids@[k] == spec_u32_at(d, p + 44 + 4 * k)
    }

    /// Fails on a wrong constant, a zero frame count, or tiles beyond the chunk.
    fn deserialize(reader: &mut DataReader) -> (r: Result<GMBackgroundGMS2Data, String>) {
        let ghost start = *reader;
        let unknown_always_two = reader.read_u32()?;
        if unknown_always_two != 2 {
            return Err("Expected UnknownAlwaysTwo in Background GMS2 data".to_owned());
        }
        let tile_width = reader.read_u32()?;
        let tile_height = reader.read_u32()?;
        let output_border_x = reader.read_u32()?;
        let output_border_y = reader.read_u32()?;
        let tile_columns = reader.read_u32()?;
        let items_per_tile_count = reader.read_u32()?;
        if items_per_tile_count == 0 {
            return Err("Items per tile count cannot be zero".to_owned());
        }
        let tile_count = reader.read_u32()?;
        let unknown_always_zero = reader.read_u32()?;
        if unknown_always_zero != 0 {
            return Err("Expected UnknownAlwaysZero in Background GMS2 data".to_owned());
        }
        let frame_length = reader.read_i64()?;
        assert(tile_count as u64 * items_per_tile_count as u64 <= u64::MAX) by (nonlinear_arith)
            requires
                tile_count <= u32::MAX,
                items_per_tile_count <= u32::MAX,
        ;
        let total: u64 = tile_count as u64 * items_per_tile_count as u64;
        let ghost p = start.cur_pos as int;
        let mut tile_ids: Vec<u32> = Vec::new();
        let mut i: u64 = 0;
        while i < total
            invariant
                i <= total,
                reader.wf(),
                reader.data == start.data,
                start == *old(reader),
                start.can_read(44 + 4 * i as int),
                total == tile_count as u64 * items_per_tile_count as u64,
                tile_count == spec_u32_at(start.data@, start.cur_pos + 28),
                items_per_tile_count == spec_u32_at(start.data@, start.cur_pos + 24),
                GMBackgroundGMS2Data::readable(start) ==> start.can_read(44 + 4 * total),
                *reader == start.moved(p + 44 + 4 * i),
                p == start.cur_pos,
                tile_ids@.len() == i,
                forall|k: int| 0 <= k < i ==> #[trigger] tile_ids@[k] == spec_u32_at(start.data@, p + 44 + 4 * k),
            decreases total - i,
        {
            let id = reader.read_u32()?;
            tile_ids.push(id);
            i = i + 1;
        }
        Ok(GMBackgroundGMS2Data {
            tile_width,
            tile_height,
            output_border_x,
            output_border_y,
            tile_columns,
            items_per_tile_count: items_per_tile_count as usize,
            frame_length,
            tile_ids,
        })
    }

    /// Fails when the tile ids are not a whole number of tiles.
    fn serialize(&self, builder: &mut DataBuilder) -> (r: Result<(), String>)
        ensures
            self.items_per_tile_count == 0 ==> r is Err,
            self.items_per_tile_count != 0 && self.tile_ids@.len() % (self.items_per_tile_count as nat) != 0 ==> r is Err,
    {
        builder.write_u32(2);
        builder.write_u32(self.tile_width);
        builder.write_u32(self.tile_height);
        builder.write_u32(self.output_border_x);
        builder.write_u32(self.output_border_y);
        builder.write_u32(self.tile_columns);
        let ghost b1 = *builder;
        proof {
            lemma_prefix_extends(*old(builder), b1);
        }
        let total_tile_count = self.tile_ids.len();
        let items_per_tile = self.items_per_tile_count;
        if items_per_tile == 0 {
            return Err("Items per tile is zero".to_owned());
        }
        if total_tile_count % items_per_tile != 0 {
            return Err("Background tiles do not add up to whole tiles".to_owned());
        }
        let tile_count = total_tile_count / items_per_tile;
        if let Err(e) = builder.write_usize(items_per_tile) {
            return Err(e);
        }
        let ghost b2 = *builder;
        proof {
            lemma_prefix_extends(*old(builder), b2);
        }
        if let Err(e) = builder.write_usize(tile_count) {
            return Err(e);
        }
        builder.write_u32(0);
        builder.write_i64(self.frame_length);
        let ghost b3 = *builder;
        proof {
            lemma_prefix_extends(*old(builder), b3);
        }
        let mut i: usize = 0;
        assert(self.tile_ids@.take(0) =~= Seq::<u32>::empty());
        while i < self.tile_ids.len()
            invariant
                i <= self.tile_ids@.len(),
                builder.extends(old(builder)),
                builder.bytes@ == b3.bytes@ + words_bytes(self.tile_ids@.take(i as int)),
            decreases self.tile_ids@.len() - i,
        {
            let ghost b4 = *builder;
            builder.write_u32(self.tile_ids[i]);
            proof {
                lemma_prefix_extends(b4, *builder);
                lemma_extends_trans(*old(builder), b4, *builder);
                assert(self.tile_ids@.take(i + 1).drop_last() =~= self.tile_ids@.take(i as int));
                assert(builder.bytes@ =~= b3.bytes@ + words_bytes(self.tile_ids@.take(i + 1)));
            }
            i = i + 1;
        }
        assert(self.tile_ids@.take(self.tile_ids@.len() as int) =~= self.tile_ids@);
        Ok(())
    }
}

impl GMElement for GMBackground {
    open spec fn readable<'a>(before: DataReader<'a>) -> bool {
        let p = before.cur_pos as int;
        let d = before.data@;
        &&& before.can_read(20)
        &&& string_at(before, p) is Some
        &&& bool32_at(d, p + 4) is Some
        &&& bool32_at(d, p + 8) is Some
        &&& bool32_at(d, p + 12) is Some
        &&& texture_opt_at(before, p + 16) is Some
        &&& (version_at_least(before.gm_version, version_req(2, 0)) ==> GMBackgroundGMS2Data::readable(before.moved(p + 20)))
    }

    open spec fn read_end<'a>(before: DataReader<'a>) -> int {
        let p = before.cur_pos as int;
        if version_at_least(before.gm_version, version_req(2, 0)) {
            GMBackgroundGMS2Data::read_end(before.moved(p + 20))
        } else {
            p + 20
        }
    }

    open spec fn writable(&self, before: DataBuilder) -> bool {
        &&& before.bytes@.len() + 16 <= u32::MAX
        &&& (version_at_least(before.gm_version, version_req(2, 0)) ==> (self.gms2_data matches Some(g) && g.writable(before)))
    }

    open spec fn written(&self, before: DataBuilder, after: DataBuilder) -> bool {
        exists|b: DataBuilder| {
            &&& b.bytes@ == before.bytes@ + ref_placeholder() + bool32_bytes(self.transparent) + bool32_bytes(self.smooth)
                + bool32_bytes(self.preload) + ref_opt_bytes(self.texture)
            &&& b.gm_version == before.gm_version
            &&& #[trigger] background_tail_written(self.gms2_data, b, after)
        }
    }

    open spec fn deserialized<'a>(before: DataReader<'a>, after: DataReader<'a>, value: GMBackground) -> bool {
        let p = before.cur_pos as int;
        let d = before.data@;
        &&& before.can_read(20)
        &&& string_at(before, p) == Some(value.name)
        &&& bool32_at(d, p + 4) == Some(value.transparent)
        &&& bool32_at(d, p + 8) == Some(value.smooth)
        &&& bool32_at(d, p + 12) == Some(value.preload)
        &&& texture_opt_at(before, p + 16) == Some(value.texture)
        &&& if version_at_least(before.gm_version, version_req(2, 0)) {
            value.gms2_data matches Some(g) && GMBackgroundGMS2Data::deserialized(before.moved(p + 20), after, g)
        } else {
            value.gms2_data is None && after == before.moved(p + 20)
        }
    }

    fn deserialize(reader: &mut DataReader) -> (r: Result<GMBackground, String>) {
        let name = reader.read_gm_string()?;
        let transparent = reader.read_bool32()?;
        let smooth = reader.read_bool32()?;
        let preload = reader.read_bool32()?;
        let texture = reader.read_gm_texture_opt()?;
        let gms2_data = if reader.gm_version.is_version_at_least(&GMVersion::new(2, 0, 0, 0)) {
            Some(GMBackgroundGMS2Data::deserialize(reader)?)
        } else {
            None
        };
        Ok(GMBackground { name, transparent, smooth, preload, texture, gms2_data })
    }

    /// Fails in GameMaker 2 and later when the tile set data is missing.
    fn serialize(&self, builder: &mut DataBuilder) -> (r: Result<(), String>)
        ensures
            version_at_least(old(builder).gm_version, version_req(2, 0)) && self.gms2_data is None ==> r is Err,
    {
        builder.write_gm_string(&self.name)?;
        let ghost b1 = *builder;
        builder.write_bool32(self.transparent);
        builder.write_bool32(self.smooth);
        builder.write_bool32(self.preload);
        let ghost b2 = *builder;
        proof {
            lemma_prefix_extends(b1, b2);
            lemma_extends_trans(*old(builder), b1, b2);
        }
        let res = builder.write_gm_texture_opt(&self.texture);
        proof {
            lemma_extends_trans(*old(builder), b2, *builder);
        }
        res?;
        let ghost bt = *builder;
        if builder.is_gm_version_at_least(&GMVersion::new(2, 0, 0, 0)) {
            let ghost b3 = *builder;
            match &self.gms2_data {
                Some(g) => {
                    let res = g.serialize(builder);
                    proof {
                        lemma_extends_trans(*old(builder), b3, *builder);
                        if res is Ok {
                            assert(background_tail_written(self.gms2_data, bt, *builder));
                        }
                    }
                    return res;
                },
                None => return Err("GMS2 data not set for a background in GameMaker 2".to_owned()),
            }
        }
        assert(background_tail_written(self.gms2_data, bt, *builder));
        Ok(())
    }
}

impl GMChunkElement for GMBackgrounds {
    fn empty() -> (r: GMBackgrounds)
        ensures
            !r.exists,
            r.backgrounds@.len() == 0,
            r.is_aligned,
    {
        GMBackgrounds { backgrounds: Vec::new(), is_aligned: true, exists: false }
    }

    fn chunk_exists(&self) -> (r: bool)
        ensures
            r == self.exists,
    {
        self.exists
    }
}

impl GMElement for GMBackgrounds {
    open spec fn readable<'a>(before: DataReader<'a>) -> bool {
        aligned_list_readable::<GMBackground>(before, BACKGROUND_ALIGNMENT, pointers_aligned(before, BACKGROUND_ALIGNMENT))
    }

    open spec fn read_end<'a>(before: DataReader<'a>) -> int {
        element_before_end::<GMBackground>(before, before.word() as int)
    }

    /// Some size bounds every background: each succeeds where that many bytes fit below
    /// 2^32 and takes no more, and the list of them fits.
    open spec fn writable(&self, before: DataBuilder) -> bool {
        exists|m: nat| #[trigger] pointer_list_fits(self.backgrounds@, before, m)
    }

    open spec fn written(&self, before: DataBuilder, after: DataBuilder) -> bool {
        pointer_list_written(self.backgrounds@, before, after)
    }

    open spec fn deserialized<'a>(before: DataReader<'a>, after: DataReader<'a>, value: GMBackgrounds) -> bool {
        let n = value.backgrounds@.len() as int;
        &&& value.exists
        &&& before.can_read(4)
        &&& n == before.word()
        &&& value.is_aligned == forall|k: int| 0 <= k < n ==> #[trigger] pointer_at(before, before.cur_pos as int, k) % BACKGROUND_ALIGNMENT == 0
        &&& forall|k: int| 0 <= k < n ==> {
            &&& pointer_at(before, before.cur_pos as int, k) != 0
            &&& read_at(before, pointer_at(before, before.cur_pos as int, k), #[trigger] value.backgrounds@[k])
        }
    }

    fn deserialize(reader: &mut DataReader) -> (r: Result<GMBackgrounds, String>) {
        let mut is_aligned: bool = true;
        let backgrounds: Vec<GMBackground> = reader.read_aligned_list_chunk(BACKGROUND_ALIGNMENT, &mut is_aligned)?;
        let ghost b = old(reader);
        assert forall|k: int| 0 <= k < backgrounds@.len() implies pointer_at(*b, b.cur_pos as int, k) != 0 by {
            let x = backgrounds@[k];
        }
        Ok(GMBackgrounds { backgrounds, is_aligned, exists: true })
    }

    fn serialize(&self, builder: &mut DataBuilder) -> (r: Result<(), String>) {
        proof {
            if self.writable(*builder) {
                let m = choose|m: nat| pointer_list_fits(self.backgrounds@, *builder, m);
                assert(pointer_list_fits(self.backgrounds@, *builder, m));
            }
        }
        builder.write_pointer_list(&self.backgrounds)
    }
}

} // verus!
