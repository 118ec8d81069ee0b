//! Creating a data file from nothing: the strings, general info, options, one game object
//! and one texture page of a new game.

use vstd::prelude::*;
use crate::data::{GMData, GMEmbeddedTexture, GMEmbeddedTexture2022_9, GMOtherChunks};
use crate::elements::codes::GMCodes;
use crate::elements::functions::{GMCodeLocals, GMFunctions};
use crate::elements::game_objects::{GMGameObject, GMGameObjectCollisionShape, GMGameObjects};
use crate::elements::general_info::{GMFunctionClassifications, GMGeneralInfo, GMGeneralInfoFlags, GMGeneralInfoGMS2};
use crate::elements::options::{GMOptions, GMOptionsConstant, GMOptionsFlags};
use crate::elements::strings::{lemma_first_index, spec_make, GMStrings};
use crate::elements::variables::{GMVariables, GMVariablesScuffed};
use crate::refs::{gm_ref, GMRef};
use crate::version::{version_at_least, GMVersion, LTSBranch};

verus! {

/// Byte `i` of the font padding: 256 little-endian 16-bit values, the first 128 counting
/// from 0, the other 128 all 0x3F.
pub open spec fn font_padding_byte(i: int) -> u8 {
    if i % 2 == 1 {
        0
    } else if i < 256 {
        (i / 2) as u8
    } else {
        0x3F
    }
}

/// The padding written after a new font's glyph data.
pub fn generate_font_padding() -> (data: [u8; 512])
    ensures
        forall|i: int| 0 <= i < 512 ==> #[trigger] data@[i] == font_padding_byte(i),
{
    let mut data = [0u8; 512];
    let mut i: u16 = 0;
    let mut idx: usize = 0;
    while i < 0x80
        invariant
            i <= 0x80,
            idx == 2 * i,
            data@.len() == 512,
            forall|j: int| 0 <= j < idx ==> #[trigger] data@[j] == font_padding_byte(j),
        decreases 0x80 - i,
    {
        data[idx] = i as u8;
        data[idx + 1] = 0;
        i = i + 1;
        idx = idx + 2;
    }
    let mut count: u16 = 0;
    while count < 0x80
        invariant
            count <= 0x80,
            idx == 256 + 2 * count,
            data@.len() == 512,
            forall|j: int| 0 <= j < idx ==> #[trigger] data@[j] == font_padding_byte(j),
        decreases 0x80 - count,
    {
        data[idx] = 0x3F;
        data[idx + 1] = 0;
        count = count + 1;
        idx = idx + 2;
    }
    data
}

/// The strings of a new data file, in the order they are made.
pub open spec fn new_file_strings() -> Seq<Seq<char>> {
    seq![
        "new_acorngm_game"@, "Default"@, "New AcornGM Game"@, "@@SleepMargin"@, "0"@, "@@DrawColour"@,
        "4294967295"@, "spr_whatever"@, "obj_whatever"@, "Room1"@,
    ]
}

/// The version a new data file is built for: 2023.6 LTS.
pub open spec fn new_file_version() -> GMVersion {
    GMVersion { major: 2023, minor: 6, release: 0, build: 0, branch: LTSBranch::LTS }
}

/// The bits of the frame rate 60 as a 32-bit float.
pub const FPS_60_BITS: u32 = 0x4270_0000;

/// `image::load_from_memory`: the width and height of the image that `bytes` decode to,
/// when the `image` crate can decode them (the format is guessed from the bytes).
pub uninterp spec fn decoded_size(bytes: Seq<u8>) -> Option<(u32, u32)>;

/// Decodes an image with the `image` crate and gives its width and height. Claimed: the
/// call succeeds exactly when `decoded_size` names a size, and gives that size; decoding
/// depends on the bytes alone. Which bytes decode, and to what, is left to the crate.
#[verifier::external_body]
fn decode_image_size(bytes: &[u8]) -> (r: Result<(u32, u32), String>)
    ensures
        r is Ok <==> decoded_size(bytes@) is Some,
        r matches Ok(size) ==> decoded_size(bytes@) == Some(size),
{
    match image::load_from_memory(bytes) {
        Ok(img) => Ok((img.width(), img.height())),
        Err(e) => Err(e.to_string()),
    }
}

/// The bytes of `bytes`, copied.
fn copy_image(bytes: &[u8]) -> (r: Vec<u8>)
    ensures
        r@ == bytes@,
{
    let mut out: Vec<u8> = Vec::new();
    let mut i: usize = 0;
    while i < bytes.len()
        invariant
            i <= bytes@.len(),
            out@ == bytes@.subrange(0, i as int),
        decreases bytes@.len() - i,
    {
        out.push(bytes[i]);
        i = i + 1;
    }
    assert(bytes@.subrange(0, bytes@.len() as int) =~= bytes@);
    out
}

/// What a new data file holds, given its target, the creation time (seconds since 1970),
/// the texture page's encoded image and the size it decodes to.
pub open spec fn new_file_built(d: GMData, target_version: GMVersion, target_bytecode: u8, now: i64, png: Seq<u8>,
    size: (u32, u32)) -> bool {
    let gi = d.other.general_info;
    &&& d.strings.table() == new_file_strings()
    &&& d.strings.exists && d.strings.is_aligned
    &&& gi.exists
    &&& gi.bytecode_version == target_bytecode
    &&& gi.version == new_file_version()
    &&& d.bytecode_version == target_bytecode && d.gm_version == new_file_version()
    &&& gi.game_file_name == gm_ref::<String>(0) && gi.config == gm_ref::<String>(1)
    &&& gi.game_name == gm_ref::<String>(2) && gi.display_name == gm_ref::<String>(2)
    &&& gi.timestamp_created == now
    &&& gi.default_window_width == 800 && gi.default_window_height == 600
    &&& gi.last_object_id == 100_001 && gi.last_tile_id == 10_000_000
    &&& gi.debugger_port == (if target_bytecode >= 14 { Some(0u32) } else { None })
    &&& gi.room_order@.len() == 1 && gi.room_order@[0].index == 0
    &&& (gi.gms2_info is Some <==> version_at_least(target_version, GMVersion { major: 2, minor: 0, release: 0, build: 0, branch: LTSBranch::PreLTS }))
    &&& (gi.gms2_info matches Some(g) ==> g.fps == FPS_60_BITS && !g.allow_statistics
        && !g.info_timestamp_offset && (forall|k: int| 0 <= k < 4 ==> #[trigger] g.random_uid@[k] == 0)
        && (forall|k: int| 0 <= k < 16 ==> #[trigger] g.game_guid@[k] == 0))
    &&& d.other.options.exists && d.other.options.is_new_format
    &&& d.other.options.constants@.len() == 2
    &&& d.other.options.constants@[0].name == gm_ref::<String>(3) && d.other.options.constants@[0].value == gm_ref::<String>(4)
    &&& d.other.options.constants@[1].name == gm_ref::<String>(5) && d.other.options.constants@[1].value == gm_ref::<String>(6)
    &&& d.game_objects.exists && d.game_objects.game_objects@.len() == 1
    &&& d.game_objects.game_objects@[0].name == gm_ref::<String>(8)
    &&& d.game_objects.game_objects@[0].sprite == Some(gm_ref::<crate::elements::game_objects::GMSprite>(0))
    &&& d.other.language_info.exists && d.other.language_info.unknown1 == 1
    &&& d.variables.exists
    &&& d.variables.scuffed matches Some(h) && h.var_count1 == 0 && h.var_count2 == 0 && h.max_local_var_count == 0
    &&& d.functions.exists && d.functions.code_locals.exists && d.codes.exists
    &&& d.other.embedded_textures@.len() == 1
    &&& d.other.embedded_textures@[0].image@ == png
    &&& d.other.embedded_textures@[0].data_2022_9 matches Some(t) && t.texture_width == size.0 as i32
        && t.texture_height == size.1 as i32 && t.index_in_group == 0
    &&& d.other.raw_chunks@.len() == 0
}

/// Builds a new data file for a texture page image of the given decoded size.
pub fn build_new_data_file(target_version: GMVersion, target_bytecode: u8, now: i64, png: &[u8], size: (u32, u32))
    -> (d: GMData)
    ensures
        new_file_built(d, target_version, target_bytecode, now, png@, size),
{
    let mut strings = GMStrings { strings: Vec::new(), is_aligned: true, exists: true };
    proof {
        reveal_strlit("new_acorngm_game");
        reveal_strlit("Default");
        reveal_strlit("New AcornGM Game");
        reveal_strlit("@@SleepMargin");
        reveal_strlit("0");
        reveal_strlit("@@DrawColour");
        reveal_strlit("4294967295");
        reveal_strlit("spr_whatever");
        reveal_strlit("obj_whatever");
        reveal_strlit("Room1");
        assert("new_acorngm_game"@.len() == 16 && "new_acorngm_game"@[0] == 'n');
        assert("Default"@.len() == 7 && "Default"@[0] == 'D');
        assert("New AcornGM Game"@.len() == 16 && "New AcornGM Game"@[0] == 'N');
        assert("@@SleepMargin"@.len() == 13 && "@@SleepMargin"@[0] == '@');
        assert("0"@.len() == 1 && "0"@[0] == '0');
        assert("@@DrawColour"@.len() == 12 && "@@DrawColour"@[0] == '@');
        assert("4294967295"@.len() == 10 && "4294967295"@[0] == '4');
        assert("spr_whatever"@.len() == 12 && "spr_whatever"@[0] == 's');
        assert("obj_whatever"@.len() == 12 && "obj_whatever"@[0] == 'o');
        assert("Room1"@.len() == 5 && "Room1"@[0] == 'R');
        assert(strings.table() =~= Seq::<Seq<char>>::empty());
    }
    proof {
        lemma_first_index(strings.table(), "new_acorngm_game"@);
    }
    let game_file_name = strings.make("new_acorngm_game");
    assert(strings.strings@.len() == strings.table().len());
    assert(strings.table() =~= seq!["new_acorngm_game"@]);
    proof {
        lemma_first_index(strings.table(), "Default"@);
    }
    let config = strings.make("Default");
    assert(strings.strings@.len() == strings.table().len());
    assert(strings.table() =~= seq!["new_acorngm_game"@, "Default"@]);
    proof {
        lemma_first_index(strings.table(), "New AcornGM Game"@);
    }
    let game_name = strings.make("New AcornGM Game");
    assert(strings.strings@.len() == strings.table().len());
    assert(strings.table() =~= seq!["new_acorngm_game"@, "Default"@, "New AcornGM Game"@]);
    proof {
        lemma_first_index(strings.table(), "New AcornGM Game"@);
    }
    let display_name = strings.make("New AcornGM Game");
    assert(strings.strings@.len() == strings.table().len());
    assert(strings.table() =~= seq!["new_acorngm_game"@, "Default"@, "New AcornGM Game"@]);
    proof {
        lemma_first_index(strings.table(), "@@SleepMargin"@);
    }
    let sleep_margin = strings.make("@@SleepMargin");
    assert(strings.strings@.len() == strings.table().len());
    assert(strings.table() =~= seq!["new_acorngm_game"@, "Default"@, "New AcornGM Game"@, "@@SleepMargin"@]);
    proof {
        lemma_first_index(strings.table(), "0"@);
    }
    let zero = strings.make("0");
    assert(strings.strings@.len() == strings.table().len());
    assert(strings.table() =~= seq!["new_acorngm_game"@, "Default"@, "New AcornGM Game"@, "@@SleepMargin"@, "0"@]);
    proof {
        lemma_first_index(strings.table(), "@@DrawColour"@);
    }
    let draw_colour = strings.make("@@DrawColour");
    assert(strings.strings@.len() == strings.table().len());
    assert(strings.table() =~= seq!["new_acorngm_game"@, "Default"@, "New AcornGM Game"@, "@@SleepMargin"@, "0"@, "@@DrawColour"@]);
    proof {
        lemma_first_index(strings.table(), "4294967295"@);
    }
    let white = strings.make("4294967295");
    assert(strings.strings@.len() == strings.table().len());
    assert(strings.table() =~= seq!["new_acorngm_game"@, "Default"@, "New AcornGM Game"@, "@@SleepMargin"@, "0"@, "@@DrawColour"@, "4294967295"@]);
    proof {
        lemma_first_index(strings.table(), "spr_whatever"@);
    }
    let _sprite_name = strings.make("spr_whatever");
    assert(strings.strings@.len() == strings.table().len());
    assert(strings.table() =~= seq!["new_acorngm_game"@, "Default"@, "New AcornGM Game"@, "@@SleepMargin"@, "0"@, "@@DrawColour"@, "4294967295"@, "spr_whatever"@]);
    proof {
        lemma_first_index(strings.table(), "obj_whatever"@);
    }
    let object_name = strings.make("obj_whatever");
    assert(strings.strings@.len() == strings.table().len());
    assert(strings.table() =~= seq!["new_acorngm_game"@, "Default"@, "New AcornGM Game"@, "@@SleepMargin"@, "0"@, "@@DrawColour"@, "4294967295"@, "spr_whatever"@, "obj_whatever"@]);
    proof {
        lemma_first_index(strings.table(), "Room1"@);
    }
    let _room_name = strings.make("Room1");
    assert(strings.strings@.len() == strings.table().len());
    assert(strings.table() =~= seq!["new_acorngm_game"@, "Default"@, "New AcornGM Game"@, "@@SleepMargin"@, "0"@, "@@DrawColour"@, "4294967295"@, "spr_whatever"@, "obj_whatever"@, "Room1"@]);
    assert(strings.table() =~= new_file_strings());
    let gms2_info = if target_version.is_version_at_least(&GMVersion::new(2, 0, 0, 0)) {
        Some(GMGeneralInfoGMS2 {
            random_uid: [0i64; 4],
            fps: FPS_60_BITS,
            allow_statistics: false,
            game_guid: [0u8; 16],
            info_timestamp_offset: false,
        })
    } else {
        None
    };
    let mut room_order = Vec::new();
    room_order.push(GMRef::new(0));
    let general_info = GMGeneralInfo {
        is_debugger_disabled: true,
        bytecode_version: target_bytecode,
        unknown_value: 0,
        game_file_name,
        config,
        last_object_id: 100_001,
        last_tile_id: 10_000_000,
        game_id: 0,
        directplay_guid: [0u8; 16],
        game_name,
        version: GMVersion { major: 2023, minor: 6, release: 0, build: 0, branch: LTSBranch::LTS },
        default_window_width: 800,
        default_window_height: 600,
        flags: GMGeneralInfoFlags {
            fullscreen: false,
            sync_vertex1: false,
            sync_vertex2: false,
            sync_vertex3: false,
            interpolate: false,
            scale: true,
            show_cursor: true,
            sizeable: false,
            screen_key: false,
            studio_version_b1: false,
            studio_version_b2: false,
            studio_version_b3: false,
            steam_enabled: false,
            local_data_enabled: false,
            borderless_window: false,
            javascript_mode: false,
            license_exclusions: false,
        },
        license_crc32: 0,
        license_md5: [0u8; 16],
        timestamp_created: now,
        display_name,
        active_targets: 0,
        function_classifications: new_file_classifications(),
        steam_appid: 0,
        debugger_port: if target_bytecode >= 14 { Some(0) } else { None },
        room_order,
        gms2_info,
        exists: true,
    };
    let mut constants = Vec::new();
    constants.push(GMOptionsConstant { name: sleep_margin, value: zero });
    constants.push(GMOptionsConstant { name: draw_colour, value: white });
    let options = GMOptions {
        is_new_format: true,
        unknown1: 2147483648,
        unknown2: 2,
        flags: new_file_options_flags(),
        window_scale: 1,
        window_color: 0,
        color_depth: 0,
        resolution: 0,
        frequency: 0,
        vertex_sync: 0,
        priority: 0,
        back_image: None,
        front_image: None,
        load_image: None,
        load_alpha: 0,
        constants,
        exists: true,
    };
    let mut game_objects = Vec::new();
    game_objects.push(GMGameObject {
        name: object_name,
        sprite: Some(GMRef::new(0)),
        visible: true,
        managed: Some(false),
        solid: false,
        depth: 0,
        persistent: false,
        parent: None,
        texture_mask: None,
        uses_physics: false,
        is_sensor: false,
        collision_shape: GMGameObjectCollisionShape::Box,
        density: 0,
        restitution: 0,
        group: 0,
        linear_damping: 0,
        angular_damping: 0,
        friction: 0,
        awake: false,
        kinematic: false,
        physics_shape_vertices: Vec::new(),
        uses_physics_shape_vertex: false,
        events: Vec::new(),
    });
    let mut textures = Vec::new();
    textures.push(GMEmbeddedTexture {
        scaled: 0,
        generated_mips: Some(0),
        texture_block_size: Some(0xDEAD_C0DE),
        data_2022_9: Some(GMEmbeddedTexture2022_9 {
            texture_width: #[verifier::truncate] (size.0 as i32),
            texture_height: #[verifier::truncate] (size.1 as i32),
            index_in_group: 0,
        }),
        image: copy_image(png),
    });
    let mut other = GMOtherChunks::empty();
    other.general_info = general_info;
    other.options = options;
    other.language_info.unknown1 = 1;
    other.language_info.exists = true;
    other.backgrounds.exists = true;
    other.extensions.exists = true;
    other.audio_groups.exists = true;
    other.embedded_textures = textures;
    GMData {
        bytecode_version: target_bytecode,
        gm_version: GMVersion { major: 2023, minor: 6, release: 0, build: 0, branch: LTSBranch::LTS },
        strings,
        variables: GMVariables {
            variables: Vec::new(),
            scuffed: Some(GMVariablesScuffed { var_count1: 0, var_count2: 0, max_local_var_count: 0 }),
            yyc: false,
            exists: true,
        },
        functions: GMFunctions {
            functions: Vec::new(),
            code_locals: GMCodeLocals { code_locals: Vec::new(), exists: true },
            is_yyc: false,
            exists: true,
        },
        game_objects: GMGameObjects { game_objects, exists: true },
        codes: GMCodes { codes: Vec::new(), exists: true },
        other,
    }
}

/// Creates a new data file: decodes the texture page image `png` for its size, then builds
/// the file. `now` is the creation time in seconds since 1970. Fails when the image does not
/// decode.
pub fn new_data_file(target_version: GMVersion, target_bytecode: u8, now: i64, png: &[u8]) -> (r: Result<GMData, String>)
    ensures
        r is Ok <==> decoded_size(png@) is Some,
        r matches Ok(d) ==> new_file_built(d, target_version, target_bytecode, now, png@, decoded_size(png@)->Some_0),
{
    let size = decode_image_size(png)?;
    Ok(build_new_data_file(target_version, target_bytecode, now, png, size))
}

/// The function classifications of a new data file.
fn new_file_classifications() -> (r: GMFunctionClassifications)
    ensures
        r.gamepad && r.screengrab && r.math && r.data_structures && r.file && r.encoding && r.uidialog,
        r.shape_collision && r.instance && r.room && r.game && r.window && r.draw_color && r.string,
        r.surface && r.io && r.variables && r.array && r.date && r.sprite && r.event && r.free_type && r.buffer,
        !r.internet && !r.joystick && !r.texture && !r.audio && !r.steam && !r.shaders,
{
    GMFunctionClassifications {
        internet: false,
        joystick: false,
        gamepad: true,
        immersion: false,
        screengrab: true,
        math: true,
        action: false,
        matrix_d3d: false,
        d3dmodel: false,
        data_structures: true,
        file: true,
        ini: false,
        filename: false,
        directory: false,
        environment: false,
        unused1: false,
        http: false,
        encoding: true,
        uidialog: true,
        motion_planning: false,
        shape_collision: true,
        instance: true,
        room: true,
        game: true,
        display: false,
        device: false,
        window: true,
        draw_color: true,
        texture: false,
        layer: false,
        string: true,
        tiles: false,
        surface: true,
        skeleton: false,
        io: true,
        variables: true,
        array: true,
        external_call: false,
        notification: false,
        date: true,
        particle: false,
        sprite: true,
        clickable: false,
        legacy_sound: false,
        audio: false,
        event: true,
        unused2: false,
        free_type: true,
        analytics: false,
        unused3: false,
        unused4: false,
        achievement: false,
        cloud_saving: false,
        ads: false,
        os: false,
        iap: false,
        facebook: false,
        physics: false,
        flash_aa: false,
        console: false,
        buffer: true,
        steam: false,
        unused5: false,
        shaders: false,
        vertex_buffers: false,
    }
}

/// The option flags of a new data file: new audio, a cursor and variable errors.
fn new_file_options_flags() -> (r: GMOptionsFlags)
    ensures
        r.use_new_audio && r.show_cursor && r.variable_errors,
        !r.fullscreen && !r.interpolate_pixels && !r.no_border && !r.sizeable,
{
    GMOptionsFlags {
        fullscreen: false,
        interpolate_pixels: false,
        use_new_audio: true,
        no_border: false,
        show_cursor: true,
        sizeable: false,
        stay_on_top: false,
        change_resolution: false,
        no_buttons: false,
        screen_key: false,
        help_key: false,
        quit_key: false,
        save_key: false,
        screenshot_key: false,
        close_sec: false,
        freeze: false,
        show_progress: false,
        load_transparent: false,
        scale_progress: false,
        display_errors: false,
        write_errors: false,
        abort_errors: false,
        variable_errors: true,
        creation_event_order: false,
        use_front_touch: false,
        use_rear_touch: false,
        use_fast_collision: false,
        fast_collision_compatibility: false,
        disable_sandbox: false,
        enable_copy_on_write: false,
    }
}

} // verus!
