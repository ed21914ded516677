//! Tables of fixed layout, and the horizontal metrics that depend on two of them.

use vstd::prelude::*;

use crate::tape::{
    extent_many, fits, i16s_at, i64_at, parses_many, read_bytes, read_i16s, read_many, u16_at, u32_at, Error,
    Tape, Value, Walue,
};

verus! {

/// The font header.
#[derive(Clone, Copy, Debug, PartialEq, Eq, Structural)]
pub struct FontHeader {
    pub version: u32,
    pub font_revision: u32,
    pub checksum_adjustment: u32,
    pub magic_number: u32,
    pub flags: u16,
    pub units_per_em: u16,
    pub created: i64,
    pub modified: i64,
    pub x_min: i16,
    pub y_min: i16,
    pub x_max: i16,
    pub y_max: i16,
    pub mac_style: u16,
    pub lowest_rec_ppem: u16,
    pub font_direction_hint: i16,
    pub index_to_loc_format: i16,
    pub glyph_data_format: i16,
}

impl Value for FontHeader {
    open spec fn extent(data: Seq<u8>, pos: int) -> Result<int, Error> {
        if fits(data, pos, 54) {
            Ok(pos + 54)
        } else {
            Err(Error::Io)
        }
    }

    open spec fn parses(data: Seq<u8>, pos: int, value: FontHeader) -> bool {
        value == FontHeader {
            version: u32_at(data, pos + 0),
            font_revision: u32_at(data, pos + 4),
            checksum_adjustment: u32_at(data, pos + 8),
            magic_number: u32_at(data, pos + 12),
            flags: u16_at(data, pos + 16),
            units_per_em: u16_at(data, pos + 18),
            created: i64_at(data, pos + 20),
            modified: i64_at(data, pos + 28),
            x_min: u16_at(data, pos + 36) as i16,
            y_min: u16_at(data, pos + 38) as i16,
            x_max: u16_at(data, pos + 40) as i16,
            y_max: u16_at(data, pos + 42) as i16,
            mac_style: u16_at(data, pos + 44),
            lowest_rec_ppem: u16_at(data, pos + 46),
            font_direction_hint: u16_at(data, pos + 48) as i16,
            index_to_loc_format: u16_at(data, pos + 50) as i16,
            glyph_data_format: u16_at(data, pos + 52) as i16,
        }
    }

    fn read(tape: &mut Tape) -> (r: Result<FontHeader, Error>) {
        let version = tape.read_u32()?;
        let font_revision = tape.read_u32()?;
        let checksum_adjustment = tape.read_u32()?;
        let magic_number = tape.read_u32()?;
        let flags = tape.read_u16()?;
        let units_per_em = tape.read_u16()?;
        let created = tape.read_i64()?;
        let modified = tape.read_i64()?;
        let x_min = tape.read_u16()? as i16;
        let y_min = tape.read_u16()? as i16;
        let x_max = tape.read_u16()? as i16;
        let y_max = tape.read_u16()? as i16;
        let mac_style = tape.read_u16()?;
        let lowest_rec_ppem = tape.read_u16()?;
        let font_direction_hint = tape.read_u16()? as i16;
        let index_to_loc_format = tape.read_u16()? as i16;
        let glyph_data_format = tape.read_u16()? as i16;
        Ok(FontHeader { version, font_revision, checksum_adjustment, magic_number, flags, units_per_em, created, modified, x_min, y_min, x_max, y_max, mac_style, lowest_rec_ppem, font_direction_hint, index_to_loc_format, glyph_data_format })
    }
}

/// The horizontal header.
#[derive(Clone, Copy, Debug, PartialEq, Eq, Structural)]
pub struct HorizontalHeader {
    pub version: u32,
    pub ascender: i16,
    pub descender: i16,
    pub line_gap: i16,
    pub advance_width_max: u16,
    pub min_left_side_bearing: i16,
    pub min_right_side_bearing: i16,
    pub x_max_extent: i16,
    pub caret_slope_rise: i16,
    pub caret_slope_run: i16,
    pub caret_offset: i16,
    pub reserved1: i16,
    pub reserved2: i16,
    pub reserved3: i16,
    pub reserved4: i16,
    pub metric_data_format: i16,
    pub number_of_h_metrics: u16,
}

impl Value for HorizontalHeader {
    open spec fn extent(data: Seq<u8>, pos: int) -> Result<int, Error> {
        if fits(data, pos, 36) {
            Ok(pos + 36)
        } else {
            Err(Error::Io)
        }
    }

    open spec fn parses(data: Seq<u8>, pos: int, value: HorizontalHeader) -> bool {
        value == HorizontalHeader {
            version: u32_at(data, pos + 0),
            ascender: u16_at(data, pos + 4) as i16,
            descender: u16_at(data, pos + 6) as i16,
            line_gap: u16_at(data, pos + 8) as i16,
            advance_width_max: u16_at(data, pos + 10),
            min_left_side_bearing: u16_at(data, pos + 12) as i16,
            min_right_side_bearing: u16_at(data, pos + 14) as i16,
            x_max_extent: u16_at(data, pos + 16) as i16,
            caret_slope_rise: u16_at(data, pos + 18) as i16,
            caret_slope_run: u16_at(data, pos + 20) as i16,
            caret_offset: u16_at(data, pos + 22) as i16,
            reserved1: u16_at(data, pos + 24) as i16,
            reserved2: u16_at(data, pos + 26) as i16,
            reserved3: u16_at(data, pos + 28) as i16,
            reserved4: u16_at(data, pos + 30) as i16,
            metric_data_format: u16_at(data, pos + 32) as i16,
            number_of_h_metrics: u16_at(data, pos + 34),
        }
    }

    fn read(tape: &mut Tape) -> (r: Result<HorizontalHeader, Error>) {
        let version = tape.read_u32()?;
        let ascender = tape.read_u16()? as i16;
        let descender = tape.read_u16()? as i16;
        let line_gap = tape.read_u16()? as i16;
        let advance_width_max = tape.read_u16()?;
        let min_left_side_bearing = tape.read_u16()? as i16;
        let min_right_side_bearing = tape.read_u16()? as i16;
        let x_max_extent = tape.read_u16()? as i16;
        let caret_slope_rise = tape.read_u16()? as i16;
        let caret_slope_run = tape.read_u16()? as i16;
        let caret_offset = tape.read_u16()? as i16;
        let reserved1 = tape.read_u16()? as i16;
        let reserved2 = tape.read_u16()? as i16;
        let reserved3 = tape.read_u16()? as i16;
        let reserved4 = tape.read_u16()? as i16;
        let metric_data_format = tape.read_u16()? as i16;
        let number_of_h_metrics = tape.read_u16()?;
        Ok(HorizontalHeader { version, ascender, descender, line_gap, advance_width_max, min_left_side_bearing, min_right_side_bearing, x_max_extent, caret_slope_rise, caret_slope_run, caret_offset, reserved1, reserved2, reserved3, reserved4, metric_data_format, number_of_h_metrics })
    }
}

/// The maximum profile of version 0.5: the number of glyphs alone.
#[derive(Clone, Copy, Debug, PartialEq, Eq, Structural)]
pub struct MaxProfileVersion05 {
    pub version: u32,
    pub num_glyphs: u16,
}

impl Value for MaxProfileVersion05 {
    open spec fn extent(data: Seq<u8>, pos: int) -> Result<int, Error> {
        if fits(data, pos, 6) {
            Ok(pos + 6)
        } else {
            Err(Error::Io)
        }
    }

    open spec fn parses(data: Seq<u8>, pos: int, value: MaxProfileVersion05) -> bool {
        value == MaxProfileVersion05 {
            version: u32_at(data, pos + 0),
            num_glyphs: u16_at(data, pos + 4),
        }
    }

    fn read(tape: &mut Tape) -> (r: Result<MaxProfileVersion05, Error>) {
        let version = tape.read_u32()?;
        let num_glyphs = tape.read_u16()?;
        Ok(MaxProfileVersion05 { version, num_glyphs })
    }
}

/// The maximum profile of version 1.0.
#[derive(Clone, Copy, Debug, PartialEq, Eq, Structural)]
pub struct MaxProfileVersion10 {
    pub version: u32,
    pub num_glyphs: u16,
    pub max_points: u16,
    pub max_contours: u16,
    pub max_composite_points: u16,
    pub max_composite_contours: u16,
    pub max_zones: u16,
    pub max_twilight_points: u16,
    pub max_storage: u16,
    pub max_function_defs: u16,
    pub max_instruction_defs: u16,
    pub max_stack_elements: u16,
    pub max_size_of_instructions: u16,
    pub max_component_elements: u16,
    pub max_component_depth: u16,
}

impl Value for MaxProfileVersion10 {
    open spec fn extent(data: Seq<u8>, pos: int) -> Result<int, Error> {
        if fits(data, pos, 32) {
            Ok(pos + 32)
        } else {
            Err(Error::Io)
        }
    }

    open spec fn parses(data: Seq<u8>, pos: int, value: MaxProfileVersion10) -> bool {
        value == MaxProfileVersion10 {
            version: u32_at(data, pos + 0),
            num_glyphs: u16_at(data, pos + 4),
            max_points: u16_at(data, pos + 6),
            max_contours: u16_at(data, pos + 8),
            max_composite_points: u16_at(data, pos + 10),
            max_composite_contours: u16_at(data, pos + 12),
            max_zones: u16_at(data, pos + 14),
            max_twilight_points: u16_at(data, pos + 16),
            max_storage: u16_at(data, pos + 18),
            max_function_defs: u16_at(data, pos + 20),
            max_instruction_defs: u16_at(data, pos + 22),
            max_stack_elements: u16_at(data, pos + 24),
            max_size_of_instructions: u16_at(data, pos + 26),
            max_component_elements: u16_at(data, pos + 28),
            max_component_depth: u16_at(data, pos + 30),
        }
    }

    fn read(tape: &mut Tape) -> (r: Result<MaxProfileVersion10, Error>) {
        let version = tape.read_u32()?;
        let num_glyphs = tape.read_u16()?;
        let max_points = tape.read_u16()?;
        let max_contours = tape.read_u16()?;
        let max_composite_points = tape.read_u16()?;
        let max_composite_contours = tape.read_u16()?;
        let max_zones = tape.read_u16()?;
        let max_twilight_points = tape.read_u16()?;
        let max_storage = tape.read_u16()?;
        let max_function_defs = tape.read_u16()?;
        let max_instruction_defs = tape.read_u16()?;
        let max_stack_elements = tape.read_u16()?;
        let max_size_of_instructions = tape.read_u16()?;
        let max_component_elements = tape.read_u16()?;
        let max_component_depth = tape.read_u16()?;
        Ok(MaxProfileVersion10 { version, num_glyphs, max_points, max_contours, max_composite_points, max_composite_contours, max_zones, max_twilight_points, max_storage, max_function_defs, max_instruction_defs, max_stack_elements, max_size_of_instructions, max_component_elements, max_component_depth })
    }
}

/// The header of the PostScript information table.
#[derive(Clone, Copy, Debug, PartialEq, Eq, Structural)]
pub struct PostScriptInfo {
    pub version: u32,
    pub italic_angle: u32,
    pub underline_position: i16,
    pub underline_thickness: i16,
    pub is_fixed_pitch: u32,
    pub min_mem_type42: u32,
    pub max_mem_type42: u32,
    pub min_mem_type1: u32,
    pub max_mem_type1: u32,
}

impl Value for PostScriptInfo {
    open spec fn extent(data: Seq<u8>, pos: int) -> Result<int, Error> {
        if fits(data, pos, 32) {
            Ok(pos + 32)
        } else {
            Err(Error::Io)
        }
    }

    open spec fn parses(data: Seq<u8>, pos: int, value: PostScriptInfo) -> bool {
        value == PostScriptInfo {
            version: u32_at(data, pos + 0),
            italic_angle: u32_at(data, pos + 4),
            underline_position: u16_at(data, pos + 8) as i16,
            underline_thickness: u16_at(data, pos + 10) as i16,
            is_fixed_pitch: u32_at(data, pos + 12),
            min_mem_type42: u32_at(data, pos + 16),
            max_mem_type42: u32_at(data, pos + 20),
            min_mem_type1: u32_at(data, pos + 24),
            max_mem_type1: u32_at(data, pos + 28),
        }
    }

    fn read(tape: &mut Tape) -> (r: Result<PostScriptInfo, Error>) {
        let version = tape.read_u32()?;
        let italic_angle = tape.read_u32()?;
        let underline_position = tape.read_u16()? as i16;
        let underline_thickness = tape.read_u16()? as i16;
        let is_fixed_pitch = tape.read_u32()?;
        let min_mem_type42 = tape.read_u32()?;
        let max_mem_type42 = tape.read_u32()?;
        let min_mem_type1 = tape.read_u32()?;
        let max_mem_type1 = tape.read_u32()?;
        Ok(PostScriptInfo { version, italic_angle, underline_position, underline_thickness, is_fixed_pitch, min_mem_type42, max_mem_type42, min_mem_type1, max_mem_type1 })
    }
}

/// One record of the naming table.
#[derive(Clone, Copy, Debug, PartialEq, Eq, Structural)]
pub struct NameRecord {
    pub platform_id: u16,
    pub encoding_id: u16,
    pub language_id: u16,
    pub name_id: u16,
    pub length: u16,
    pub offset: u16,
}

impl Value for NameRecord {
    open spec fn extent(data: Seq<u8>, pos: int) -> Result<int, Error> {
        if fits(data, pos, 12) {
            Ok(pos + 12)
        } else {
            Err(Error::Io)
        }
    }

    open spec fn parses(data: Seq<u8>, pos: int, value: NameRecord) -> bool {
        value == NameRecord {
            platform_id: u16_at(data, pos + 0),
            encoding_id: u16_at(data, pos + 2),
            language_id: u16_at(data, pos + 4),
            name_id: u16_at(data, pos + 6),
            length: u16_at(data, pos + 8),
            offset: u16_at(data, pos + 10),
        }
    }

    fn read(tape: &mut Tape) -> (r: Result<NameRecord, Error>) {
        let platform_id = tape.read_u16()?;
        let encoding_id = tape.read_u16()?;
        let language_id = tape.read_u16()?;
        let name_id = tape.read_u16()?;
        let length = tape.read_u16()?;
        let offset = tape.read_u16()?;
        Ok(NameRecord { platform_id, encoding_id, language_id, name_id, length, offset })
    }
}

/// The advance width and left side bearing of one glyph.
#[derive(Clone, Copy, Debug, PartialEq, Eq, Structural)]
pub struct LongHorizontalMetric {
    pub advance_width: u16,
    pub left_side_bearing: i16,
}

impl Value for LongHorizontalMetric {
    open spec fn extent(data: Seq<u8>, pos: int) -> Result<int, Error> {
        if fits(data, pos, 4) {
            Ok(pos + 4)
        } else {
            Err(Error::Io)
        }
    }

    open spec fn parses(data: Seq<u8>, pos: int, value: LongHorizontalMetric) -> bool {
        value == LongHorizontalMetric {
            advance_width: u16_at(data, pos + 0),
            left_side_bearing: u16_at(data, pos + 2) as i16,
        }
    }

    fn read(tape: &mut Tape) -> (r: Result<LongHorizontalMetric, Error>) {
        let advance_width = tape.read_u16()?;
        let left_side_bearing = tape.read_u16()? as i16;
        Ok(LongHorizontalMetric { advance_width, left_side_bearing })
    }
}

/// The maximum profile, in one of its two versions.
#[derive(Clone, Copy, Debug, PartialEq, Eq, Structural)]
pub enum MaxProfile {
    Version05(MaxProfileVersion05),
    Version10(MaxProfileVersion10),
}

impl MaxProfile {
    /// The number of glyphs, which both versions hold.
    pub open spec fn spec_num_glyphs(self) -> u16 {
        match self {
            MaxProfile::Version05(t) => t.num_glyphs,
            MaxProfile::Version10(t) => t.num_glyphs,
        }
    }

    pub fn num_glyphs(&self) -> (r: u16)
        ensures
            r == self.spec_num_glyphs(),
    {
        match self {
            MaxProfile::Version05(t) => t.num_glyphs,
            MaxProfile::Version10(t) => t.num_glyphs,
        }
    }
}

impl Value for MaxProfile {
    open spec fn extent(data: Seq<u8>, pos: int) -> Result<int, Error> {
        if !fits(data, pos, 4) {
            Err(Error::Io)
        } else if u32_at(data, pos) == 0x5000 {
            MaxProfileVersion05::extent(data, pos)
        } else if u32_at(data, pos) == 0x10000 {
            MaxProfileVersion10::extent(data, pos)
        } else {
            Err(Error::Malformed)
        }
    }

    open spec fn parses(data: Seq<u8>, pos: int, value: MaxProfile) -> bool {
        match value {
            MaxProfile::Version05(t) => u32_at(data, pos) == 0x5000 && MaxProfileVersion05::parses(
                data,
                pos,
                t,
            ),
            MaxProfile::Version10(t) => u32_at(data, pos) == 0x10000
                && MaxProfileVersion10::parses(data, pos, t),
        }
    }

    fn read(tape: &mut Tape) -> (r: Result<MaxProfile, Error>) {
        let position = tape.position();
        let version = tape.read_u32()?;
        tape.jump(position)?;
        if version == 0x5000 {
            Ok(MaxProfile::Version05(MaxProfileVersion05::read(tape)?))
        } else if version == 0x10000 {
            Ok(MaxProfile::Version10(MaxProfileVersion10::read(tape)?))
        } else {
            Err(Error::Malformed)
        }
    }
}

/// The naming table: its header and its records; the string storage is not decoded.
#[derive(Clone, Debug, PartialEq, Eq)]
pub struct NamingTable {
    pub format: u16,
    pub count: u16,
    pub string_offset: u16,
    pub records: Vec<NameRecord>,
}

impl Value for NamingTable {
    open spec fn extent(data: Seq<u8>, pos: int) -> Result<int, Error> {
        if fits(data, pos, 6) {
            extent_many::<NameRecord>(data, pos + 6, u16_at(data, pos + 2) as nat)
        } else {
            Err(Error::Io)
        }
    }

    open spec fn parses(data: Seq<u8>, pos: int, value: NamingTable) -> bool {
        &&& value.format == u16_at(data, pos)
        &&& value.count == u16_at(data, pos + 2)
        &&& value.string_offset == u16_at(data, pos + 4)
        &&& value.records@.len() == value.count
        &&& parses_many::<NameRecord>(data, pos + 6, value.records@)
    }

    fn read(tape: &mut Tape) -> (r: Result<NamingTable, Error>) {
        let format = tape.read_u16()?;
        let count = tape.read_u16()?;
        let string_offset = tape.read_u16()?;
        let records = read_many(tape, count as usize)?;
        Ok(NamingTable { format, count, string_offset, records })
    }
}

/// The horizontal metrics: a full metric for each of the first glyphs, then a left
/// side bearing for each of the rest. Decoding needs the number of full metrics,
/// from the horizontal header, and the number of glyphs, from the maximum profile.
#[derive(Clone, Debug, PartialEq, Eq)]
pub struct HorizontalMetrics {
    pub h_metrics: Vec<LongHorizontalMetric>,
    pub left_side_bearings: Vec<i16>,
}

impl Walue<(u16, u16)> for HorizontalMetrics {
    open spec fn extent_given(data: Seq<u8>, pos: int, parameter: (u16, u16)) -> Result<int, Error> {
        let (metrics, glyphs) = parameter;
        if metrics > glyphs {
            Err(Error::Malformed)
        } else {
            match extent_many::<LongHorizontalMetric>(data, pos, metrics as nat) {
                Ok(q) => if fits(data, q, 2 * (glyphs - metrics)) {
                    Ok(q + 2 * (glyphs - metrics))
                } else {
                    Err(Error::Io)
                },
                Err(e) => Err(e),
            }
        }
    }

    open spec fn parses_given(
        data: Seq<u8>,
        pos: int,
        parameter: (u16, u16),
        value: HorizontalMetrics,
    ) -> bool {
        let (metrics, glyphs) = parameter;
        &&& value.h_metrics@.len() == metrics
        &&& parses_many::<LongHorizontalMetric>(data, pos, value.h_metrics@)
        &&& value.left_side_bearings@ == i16s_at(
            data,
            extent_many::<LongHorizontalMetric>(data, pos, metrics as nat)->Ok_0,
            (glyphs - metrics) as nat,
        )
    }

    fn read(tape: &mut Tape, parameter: (u16, u16)) -> (r: Result<HorizontalMetrics, Error>) {
        let start = tape.position();
        let r = HorizontalMetrics::decode(tape, parameter);
        if r.is_err() {
            let _ = tape.jump(start);
        }
        r
    }
}

impl HorizontalMetrics {
    fn decode(tape: &mut Tape, parameter: (u16, u16)) -> (r: Result<HorizontalMetrics, Error>)
        requires
            old(tape).wf(),
        ensures
            final(tape).wf(),
            final(tape).data() == old(tape).data(),
            crate::tape::outcome(
                r,
                <HorizontalMetrics as Walue<(u16, u16)>>::extent_given(old(tape).data(), old(tape).pos(), parameter),
                final(tape).pos(),
            ),
            r is Ok ==> <HorizontalMetrics as Walue<(u16, u16)>>::parses_given(
                old(tape).data(),
                old(tape).pos(),
                parameter,
                r->Ok_0,
            ),
    {
        let (metrics, glyphs) = parameter;
        if metrics > glyphs {
            return Err(Error::Malformed);
        }
        let h_metrics = read_many(tape, metrics as usize)?;
        let left_side_bearings = read_i16s(tape, (glyphs - metrics) as usize)?;
        Ok(HorizontalMetrics { h_metrics, left_side_bearings })
    }
}

/// The OS/2 and Windows metrics in the layout of versions 2 to 4.
#[derive(Clone, Debug, PartialEq, Eq)]
pub struct WindowsMetrics3 {
    pub version: u16,
    pub x_avg_char_width: i16,
    pub us_weight_class: u16,
    pub us_width_class: u16,
    pub fs_type: u16,
    pub y_subscript_x_size: i16,
    pub y_subscript_y_size: i16,
    pub y_subscript_x_offset: i16,
    pub y_subscript_y_offset: i16,
    pub y_superscript_x_size: i16,
    pub y_superscript_y_size: i16,
    pub y_superscript_x_offset: i16,
    pub y_superscript_y_offset: i16,
    pub y_strikeout_size: i16,
    pub y_strikeout_position: i16,
    pub s_family_class: i16,
    pub panose: Vec<u8>,
    pub ul_unicode_range1: u32,
    pub ul_unicode_range2: u32,
    pub ul_unicode_range3: u32,
    pub ul_unicode_range4: u32,
    pub ach_vend_id: Vec<u8>,
    pub fs_selection: u16,
    pub us_first_char_index: u16,
    pub us_last_char_index: u16,
    pub s_typo_ascender: i16,
    pub s_typo_descender: i16,
    pub s_typo_line_gap: i16,
    pub us_win_ascent: u16,
    pub us_win_descent: u16,
    pub ul_code_page_range1: u32,
    pub ul_code_page_range2: u32,
    pub sx_height: i16,
    pub s_cap_height: i16,
    pub us_default_char: u16,
    pub us_break_char: u16,
    pub us_max_context: u16,
}

impl Value for WindowsMetrics3 {
    open spec fn extent(data: Seq<u8>, pos: int) -> Result<int, Error> {
        if fits(data, pos, 96) {
            Ok(pos + 96)
        } else {
            Err(Error::Io)
        }
    }

    open spec fn parses(data: Seq<u8>, pos: int, value: WindowsMetrics3) -> bool {
        &&& value.version == u16_at(data, pos + 0)
        &&& value.x_avg_char_width == u16_at(data, pos + 2) as i16
        &&& value.us_weight_class == u16_at(data, pos + 4)
        &&& value.us_width_class == u16_at(data, pos + 6)
        &&& value.fs_type == u16_at(data, pos + 8)
        &&& value.y_subscript_x_size == u16_at(data, pos + 10) as i16
        &&& value.y_subscript_y_size == u16_at(data, pos + 12) as i16
        &&& value.y_subscript_x_offset == u16_at(data, pos + 14) as i16
        &&& value.y_subscript_y_offset == u16_at(data, pos + 16) as i16
        &&& value.y_superscript_x_size == u16_at(data, pos + 18) as i16
        &&& value.y_superscript_y_size == u16_at(data, pos + 20) as i16
        &&& value.y_superscript_x_offset == u16_at(data, pos + 22) as i16
        &&& value.y_superscript_y_offset == u16_at(data, pos + 24) as i16
        &&& value.y_strikeout_size == u16_at(data, pos + 26) as i16
        &&& value.y_strikeout_position == u16_at(data, pos + 28) as i16
        &&& value.s_family_class == u16_at(data, pos + 30) as i16
        &&& value.panose@ == data.subrange(pos + 32, pos + 42)
        &&& value.ul_unicode_range1 == u32_at(data, pos + 42)
        &&& value.ul_unicode_range2 == u32_at(data, pos + 46)
        &&& value.ul_unicode_range3 == u32_at(data, pos + 50)
        &&& value.ul_unicode_range4 == u32_at(data, pos + 54)
        &&& value.ach_vend_id@ == data.subrange(pos + 58, pos + 62)
        &&& value.fs_selection == u16_at(data, pos + 62)
        &&& value.us_first_char_index == u16_at(data, pos + 64)
        &&& value.us_last_char_index == u16_at(data, pos + 66)
        &&& value.s_typo_ascender == u16_at(data, pos + 68) as i16
        &&& value.s_typo_descender == u16_at(data, pos + 70) as i16
        &&& value.s_typo_line_gap == u16_at(data, pos + 72) as i16
        &&& value.us_win_ascent == u16_at(data, pos + 74)
        &&& value.us_win_descent == u16_at(data, pos + 76)
        &&& value.ul_code_page_range1 == u32_at(data, pos + 78)
        &&& value.ul_code_page_range2 == u32_at(data, pos + 82)
        &&& value.sx_height == u16_at(data, pos + 86) as i16
        &&& value.s_cap_height == u16_at(data, pos + 88) as i16
        &&& value.us_default_char == u16_at(data, pos + 90)
        &&& value.us_break_char == u16_at(data, pos + 92)
        &&& value.us_max_context == u16_at(data, pos + 94)
    }

    fn read(tape: &mut Tape) -> (r: Result<WindowsMetrics3, Error>) {
        let version = tape.read_u16()?;
        let x_avg_char_width = tape.read_u16()? as i16;
        let us_weight_class = tape.read_u16()?;
        let us_width_class = tape.read_u16()?;
        let fs_type = tape.read_u16()?;
        let y_subscript_x_size = tape.read_u16()? as i16;
        let y_subscript_y_size = tape.read_u16()? as i16;
        let y_subscript_x_offset = tape.read_u16()? as i16;
        let y_subscript_y_offset = tape.read_u16()? as i16;
        let y_superscript_x_size = tape.read_u16()? as i16;
        let y_superscript_y_size = tape.read_u16()? as i16;
        let y_superscript_x_offset = tape.read_u16()? as i16;
        let y_superscript_y_offset = tape.read_u16()? as i16;
        let y_strikeout_size = tape.read_u16()? as i16;
        let y_strikeout_position = tape.read_u16()? as i16;
        let s_family_class = tape.read_u16()? as i16;
        let panose = read_bytes(tape, 10)?;
        let ul_unicode_range1 = tape.read_u32()?;
        let ul_unicode_range2 = tape.read_u32()?;
        let ul_unicode_range3 = tape.read_u32()?;
        let ul_unicode_range4 = tape.read_u32()?;
        let ach_vend_id = read_bytes(tape, 4)?;
        let fs_selection = tape.read_u16()?;
        let us_first_char_index = tape.read_u16()?;
        let us_last_char_index = tape.read_u16()?;
        let s_typo_ascender = tape.read_u16()? as i16;
        let s_typo_descender = tape.read_u16()? as i16;
        let s_typo_line_gap = tape.read_u16()? as i16;
        let us_win_ascent = tape.read_u16()?;
        let us_win_descent = tape.read_u16()?;
        let ul_code_page_range1 = tape.read_u32()?;
        let ul_code_page_range2 = tape.read_u32()?;
        let sx_height = tape.read_u16()? as i16;
        let s_cap_height = tape.read_u16()? as i16;
        let us_default_char = tape.read_u16()?;
        let us_break_char = tape.read_u16()?;
        let us_max_context = tape.read_u16()?;
        Ok(
            WindowsMetrics3 {
                version,
                x_avg_char_width,
                us_weight_class,
                us_width_class,
                fs_type,
                y_subscript_x_size,
                y_subscript_y_size,
                y_subscript_x_offset,
                y_subscript_y_offset,
                y_superscript_x_size,
                y_superscript_y_size,
                y_superscript_x_offset,
                y_superscript_y_offset,
                y_strikeout_size,
                y_strikeout_position,
                s_family_class,
                panose,
                ul_unicode_range1,
                ul_unicode_range2,
                ul_unicode_range3,
                ul_unicode_range4,
                ach_vend_id,
                fs_selection,
                us_first_char_index,
                us_last_char_index,
                s_typo_ascender,
                s_typo_descender,
                s_typo_line_gap,
                us_win_ascent,
                us_win_descent,
                ul_code_page_range1,
                ul_code_page_range2,
                sx_height,
                s_cap_height,
                us_default_char,
                us_break_char,
                us_max_context,
            },
        )
    }
}

/// The OS/2 and Windows metrics in the layout of version 5.
#[derive(Clone, Debug, PartialEq, Eq)]
pub struct WindowsMetrics5 {
    pub version: u16,
    pub x_avg_char_width: i16,
    pub us_weight_class: u16,
    pub us_width_class: u16,
    pub fs_type: u16,
    pub y_subscript_x_size: i16,
    pub y_subscript_y_size: i16,
    pub y_subscript_x_offset: i16,
    pub y_subscript_y_offset: i16,
    pub y_superscript_x_size: i16,
    pub y_superscript_y_size: i16,
    pub y_superscript_x_offset: i16,
    pub y_superscript_y_offset: i16,
    pub y_strikeout_size: i16,
    pub y_strikeout_position: i16,
    pub s_family_class: i16,
    pub panose: Vec<u8>,
    pub ul_unicode_range1: u32,
    pub ul_unicode_range2: u32,
    pub ul_unicode_range3: u32,
    pub ul_unicode_range4: u32,
    pub ach_vend_id: Vec<u8>,
    pub fs_selection: u16,
    pub us_first_char_index: u16,
    pub us_last_char_index: u16,
    pub s_typo_ascender: i16,
    pub s_typo_descender: i16,
    pub s_typo_line_gap: i16,
    pub us_win_ascent: u16,
    pub us_win_descent: u16,
    pub ul_code_page_range1: u32,
    pub ul_code_page_range2: u32,
    pub sx_height: i16,
    pub s_cap_height: i16,
    pub us_default_char: u16,
    pub us_break_char: u16,
    pub us_max_context: u16,
    pub us_lower_optical_point_size: u16,
    pub us_upper_optical_point_size: u16,
}

impl Value for WindowsMetrics5 {
    open spec fn extent(data: Seq<u8>, pos: int) -> Result<int, Error> {
        if fits(data, pos, 100) {
            Ok(pos + 100)
        } else {
            Err(Error::Io)
        }
    }

    open spec fn parses(data: Seq<u8>, pos: int, value: WindowsMetrics5) -> bool {
        &&& value.version == u16_at(data, pos + 0)
        &&& value.x_avg_char_width == u16_at(data, pos + 2) as i16
        &&& value.us_weight_class == u16_at(data, pos + 4)
        &&& value.us_width_class == u16_at(data, pos + 6)
        &&& value.fs_type == u16_at(data, pos + 8)
        &&& value.y_subscript_x_size == u16_at(data, pos + 10) as i16
        &&& value.y_subscript_y_size == u16_at(data, pos + 12) as i16
        &&& value.y_subscript_x_offset == u16_at(data, pos + 14) as i16
        &&& value.y_subscript_y_offset == u16_at(data, pos + 16) as i16
        &&& value.y_superscript_x_size == u16_at(data, pos + 18) as i16
        &&& value.y_superscript_y_size == u16_at(data, pos + 20) as i16
        &&& value.y_superscript_x_offset == u16_at(data, pos + 22) as i16
        &&& value.y_superscript_y_offset == u16_at(data, pos + 24) as i16
        &&& value.y_strikeout_size == u16_at(data, pos + 26) as i16
        &&& value.y_strikeout_position == u16_at(data, pos + 28) as i16
        &&& value.s_family_class == u16_at(data, pos + 30) as i16
        &&& value.panose@ == data.subrange(pos + 32, pos + 42)
        &&& value.ul_unicode_range1 == u32_at(data, pos + 42)
        &&& value.ul_unicode_range2 == u32_at(data, pos + 46)
        &&& value.ul_unicode_range3 == u32_at(data, pos + 50)
        &&& value.ul_unicode_range4 == u32_at(data, pos + 54)
        &&& value.ach_vend_id@ == data.subrange(pos + 58, pos + 62)
        &&& value.fs_selection == u16_at(data, pos + 62)
        &&& value.us_first_char_index == u16_at(data, pos + 64)
        &&& value.us_last_char_index == u16_at(data, pos + 66)
        &&& value.s_typo_ascender == u16_at(data, pos + 68) as i16
        &&& value.s_typo_descender == u16_at(data, pos + 70) as i16
        &&& value.s_typo_line_gap == u16_at(data, pos + 72) as i16
        &&& value.us_win_ascent == u16_at(data, pos + 74)
        &&& value.us_win_descent == u16_at(data, pos + 76)
        &&& value.ul_code_page_range1 == u32_at(data, pos + 78)
        &&& value.ul_code_page_range2 == u32_at(data, pos + 82)
        &&& value.sx_height == u16_at(data, pos + 86) as i16
        &&& value.s_cap_height == u16_at(data, pos + 88) as i16
        &&& value.us_default_char == u16_at(data, pos + 90)
        &&& value.us_break_char == u16_at(data, pos + 92)
        &&& value.us_max_context == u16_at(data, pos + 94)
        &&& value.us_lower_optical_point_size == u16_at(data, pos + 96)
        &&& value.us_upper_optical_point_size == u16_at(data, pos + 98)
    }

    fn read(tape: &mut Tape) -> (r: Result<WindowsMetrics5, Error>) {
        let version = tape.read_u16()?;
        let x_avg_char_width = tape.read_u16()? as i16;
        let us_weight_class = tape.read_u16()?;
        let us_width_class = tape.read_u16()?;
        let fs_type = tape.read_u16()?;
        let y_subscript_x_size = tape.read_u16()? as i16;
        let y_subscript_y_size = tape.read_u16()? as i16;
        let y_subscript_x_offset = tape.read_u16()? as i16;
        let y_subscript_y_offset = tape.read_u16()? as i16;
        let y_superscript_x_size = tape.read_u16()? as i16;
        let y_superscript_y_size = tape.read_u16()? as i16;
        let y_superscript_x_offset = tape.read_u16()? as i16;
        let y_superscript_y_offset = tape.read_u16()? as i16;
        let y_strikeout_size = tape.read_u16()? as i16;
        let y_strikeout_position = tape.read_u16()? as i16;
        let s_family_class = tape.read_u16()? as i16;
        let panose = read_bytes(tape, 10)?;
        let ul_unicode_range1 = tape.read_u32()?;
        let ul_unicode_range2 = tape.read_u32()?;
        let ul_unicode_range3 = tape.read_u32()?;
        let ul_unicode_range4 = tape.read_u32()?;
        let ach_vend_id = read_bytes(tape, 4)?;
        let fs_selection = tape.read_u16()?;
        let us_first_char_index = tape.read_u16()?;
        let us_last_char_index = tape.read_u16()?;
        let s_typo_ascender = tape.read_u16()? as i16;
        let s_typo_descender = tape.read_u16()? as i16;
        let s_typo_line_gap = tape.read_u16()? as i16;
        let us_win_ascent = tape.read_u16()?;
        let us_win_descent = tape.read_u16()?;
        let ul_code_page_range1 = tape.read_u32()?;
        let ul_code_page_range2 = tape.read_u32()?;
        let sx_height = tape.read_u16()? as i16;
        let s_cap_height = tape.read_u16()? as i16;
        let us_default_char = tape.read_u16()?;
        let us_break_char = tape.read_u16()?;
        let us_max_context = tape.read_u16()?;
        let us_lower_optical_point_size = tape.read_u16()?;
        let us_upper_optical_point_size = tape.read_u16()?;
        Ok(
            WindowsMetrics5 {
                version,
                x_avg_char_width,
                us_weight_class,
                us_width_class,
                fs_type,
                y_subscript_x_size,
                y_subscript_y_size,
                y_subscript_x_offset,
                y_subscript_y_offset,
                y_superscript_x_size,
                y_superscript_y_size,
                y_superscript_x_offset,
                y_superscript_y_offset,
                y_strikeout_size,
                y_strikeout_position,
                s_family_class,
                panose,
                ul_unicode_range1,
                ul_unicode_range2,
                ul_unicode_range3,
                ul_unicode_range4,
                ach_vend_id,
                fs_selection,
                us_first_char_index,
                us_last_char_index,
                s_typo_ascender,
                s_typo_descender,
                s_typo_line_gap,
                us_win_ascent,
                us_win_descent,
                ul_code_page_range1,
                ul_code_page_range2,
                sx_height,
                s_cap_height,
                us_default_char,
                us_break_char,
                us_max_context,
                us_lower_optical_point_size,
                us_upper_optical_point_size,
            },
        )
    }
}

/// The OS/2 and Windows metrics, in the layout that their version selects.
#[derive(Clone, Debug, PartialEq, Eq)]
pub enum WindowsMetrics {
    Version3(WindowsMetrics3),
    Version5(WindowsMetrics5),
}

impl Value for WindowsMetrics {
    open spec fn extent(data: Seq<u8>, pos: int) -> Result<int, Error> {
        if !fits(data, pos, 2) {
            Err(Error::Io)
        } else if 2 <= u16_at(data, pos) <= 4 {
            WindowsMetrics3::extent(data, pos)
        } else if u16_at(data, pos) == 5 {
            WindowsMetrics5::extent(data, pos)
        } else {
            Err(Error::Malformed)
        }
    }

    open spec fn parses(data: Seq<u8>, pos: int, value: WindowsMetrics) -> bool {
        match value {
            WindowsMetrics::Version3(t) => 2 <= u16_at(data, pos) <= 4 && WindowsMetrics3::parses(
                data,
                pos,
                t,
            ),
            WindowsMetrics::Version5(t) => u16_at(data, pos) == 5 && WindowsMetrics5::parses(
                data,
                pos,
                t,
            ),
        }
    }

    fn read(tape: &mut Tape) -> (r: Result<WindowsMetrics, Error>) {
        let version = tape.peek::<u16>()?;
        if 2 <= version && version <= 4 {
            Ok(WindowsMetrics::Version3(WindowsMetrics3::read(tape)?))
        } else if version == 5 {
            Ok(WindowsMetrics::Version5(WindowsMetrics5::read(tape)?))
        } else {
            Err(Error::Malformed)
        }
    }
}

} // verus!
