use opentype::char_mapping::{CharMapping, CharMappingFormat4, CharMappingTable};
use opentype::date::Date;
use opentype::directory::{Table, TableRecord};
use opentype::feature::{Features, Variations as FeatureVariations};
use opentype::font::{order, priority, File, Font};
use opentype::layout::{Coverage, Lookups};
use opentype::positioning::{PairValueSet, SingleValue, ValueFlags};
use opentype::substitution::{
    Ligature, SingleSubstibution, SingleSubstibution1, Table as Substitution,
};
use opentype::tables::{FontHeader, HorizontalMetrics, MaxProfile, WindowsMetrics};
use opentype::tape::{Error, Tape, Value, Walue};

fn push16(data: &mut Vec<u8>, value: u16) {
    data.extend_from_slice(&value.to_be_bytes());
}

fn push32(data: &mut Vec<u8>, value: u32) {
    data.extend_from_slice(&value.to_be_bytes());
}

fn tag(name: &[u8; 4]) -> u32 {
    u32::from_be_bytes(*name)
}

fn record(length: u32, checksum: u32) -> TableRecord {
    TableRecord { tag: 0, checksum, offset: 0, length }
}

#[test]
fn table_record_check() {
    let data = vec![0, 0, 0, 1, 0, 0, 0, 2, 0, 0, 0, 3];
    let mut tape = Tape::new(data.clone());
    assert!(!record(3 * 4, 1 + 2 + 4).check(&mut tape, |_, chunk| chunk).unwrap());
    let mut tape = Tape::new(data);
    assert!(record(3 * 4, 1 + 2 + 3).check(&mut tape, |_, chunk| chunk).unwrap());
}

#[test]
fn checksum_applies_the_transform_and_wraps() {
    let data = vec![0xFF, 0xFF, 0xFF, 0xFF, 0, 0, 0, 2, 0, 0, 0, 9];
    let mut tape = Tape::new(data.clone());
    let zeroed = |i: usize, word: u32| if i == 2 { 0 } else { word };
    assert!(record(12, 1).check(&mut tape, zeroed).unwrap());
    let mut tape = Tape::new(data);
    assert!(!record(12, 1).check(&mut tape, |_, word| word).unwrap());
}

#[test]
fn checksum_pads_the_last_word_and_keeps_the_position() {
    let data = vec![0, 0, 0, 1, 0, 0, 0, 2, 0, 0, 0, 3];
    let mut tape = Tape::new(data);
    tape.jump(6).unwrap();
    assert!(record(9, 6).check(&mut tape, |_, word| word).unwrap());
    assert_eq!(tape.position(), 6);
}

#[test]
fn checksum_past_the_end_is_an_io_error() {
    let mut tape = Tape::new(vec![0, 0, 0, 1]);
    assert_eq!(record(8, 1).check(&mut tape, |_, word| word), Err(Error::Io));
}

#[test]
fn older_checksum_interface() {
    assert_eq!(Table::measure(&record(5, 0)), 2);
    assert_eq!(Table::measure(&record(8, 0)), 2);
    let data = vec![0, 0, 0, 1, 0, 0, 0, 2, 0, 0, 0, 3];
    let mut stream = Tape::new(data.clone());
    assert!(Table::check(&mut stream, &record(12, 6)));
    let mut stream = Tape::new(data.clone());
    assert!(!Table::check(&mut stream, &record(12, 7)));
    let mut stream = Tape::new(data.clone());
    assert!(Table::map_and_check(&mut stream, &record(12, 2 + 4 + 6), |word, _| word * 2));
    let mut stream = Tape::new(data);
    assert!(!Table::map_and_check(&mut stream, &record(16, 6), |word, _| word));
}

#[test]
fn scoped_reads_restore_the_position() {
    let mut data = vec![0; 4];
    push16(&mut data, 2);
    push16(&mut data, 0x1234);
    let mut tape = Tape::new(data);
    tape.jump(2).unwrap();
    let value: u16 = tape.read_at(4, 2).unwrap();
    assert_eq!(value, 0x1234);
    assert_eq!(tape.position(), 2);
    assert_eq!(tape.read_at::<u32>(4, 2), Err(Error::Io));
    assert_eq!(tape.position(), 2);
    assert_eq!(tape.read_at::<u16>(4, 100), Err(Error::Io));
    assert_eq!(tape.position(), 2);
    tape.jump(4).unwrap();
    assert_eq!(tape.peek::<u16>(), Ok(2));
    assert_eq!(tape.position(), 4);
    assert_eq!(tape.jump(9), Err(Error::Io));
    assert_eq!(tape.position(), 4);
}

#[test]
fn offsets_resolve_from_the_start_of_their_structure() {
    let mut data = vec![0xAA; 4];
    push16(&mut data, 1);
    push16(&mut data, 6);
    push16(&mut data, 5);
    push16(&mut data, 1);
    push16(&mut data, 1);
    push16(&mut data, 7);
    let mut tape = Tape::new(data);
    tape.jump(4).unwrap();
    let table = SingleSubstibution1::read(&mut tape).unwrap();
    assert_eq!(table.delta_glyph_id, 5);
    assert_eq!(table.coverage, Coverage::Format1(vec![7]));
    assert_eq!(tape.position(), 10);
}

fn format4(end_last: u16) -> Vec<u8> {
    let mut data = Vec::new();
    for value in [4, 0, 0, 4, 4, 1, 0] {
        push16(&mut data, value);
    }
    push16(&mut data, 12);
    push16(&mut data, end_last);
    push16(&mut data, 0);
    push16(&mut data, 10);
    push16(&mut data, 0xFFFF);
    push16(&mut data, 5);
    push16(&mut data, 1);
    push16(&mut data, 0);
    push16(&mut data, 0);
    data
}

#[test]
fn segmented_mapping_adds_the_delta() {
    let mut tape = Tape::new(format4(0xFFFF));
    let table = CharMappingFormat4::read(&mut tape).unwrap();
    assert!(table.glyph_id_array.is_empty());
    let mapping = table.mapping();
    assert_eq!(mapping.get(&11), Some(&16));
    assert_eq!(mapping.get(&10), Some(&15));
    assert_eq!(mapping.get(&12), Some(&17));
    assert_eq!(mapping.len(), 3);
}

#[test]
fn segmented_mapping_without_sentinel_is_malformed() {
    let mut tape = Tape::new(format4(0xFFFE));
    assert_eq!(CharMappingFormat4::read(&mut tape), Err(Error::Malformed));
}

#[test]
fn segmented_mapping_reads_the_glyph_array() {
    let mut data = Vec::new();
    for value in [4, 0, 0, 4, 4, 1, 0] {
        push16(&mut data, value);
    }
    for value in [21, 0xFFFF, 0, 20, 0xFFFF, 0xFFFF, 1, 4, 0, 100, 101] {
        push16(&mut data, value);
    }
    let mut tape = Tape::new(data);
    let table = CharMappingFormat4::read(&mut tape).unwrap();
    assert_eq!(table.glyph_id_array, vec![100, 101]);
    let mapping = table.mapping();
    assert_eq!(mapping.get(&20), Some(&100));
    assert_eq!(mapping.get(&21), Some(&101));
    assert_eq!(mapping.len(), 2);
}

#[test]
fn delta_wraps_around() {
    let mut data = Vec::new();
    for value in [4, 0, 0, 4, 4, 1, 0] {
        push16(&mut data, value);
    }
    for value in [65535 - 1, 0xFFFF, 0, 65535 - 2, 0xFFFF, 4, 1, 0, 0] {
        push16(&mut data, value);
    }
    let mut tape = Tape::new(data);
    let table = CharMappingFormat4::read(&mut tape).unwrap();
    let mapping = table.mapping();
    assert_eq!(mapping.get(&65533), Some(&1));
    assert_eq!(mapping.get(&65534), Some(&2));
}

#[test]
fn range_offset_before_the_array_is_malformed() {
    let mut data = Vec::new();
    for value in [4, 0, 0, 4, 4, 1, 0] {
        push16(&mut data, value);
    }
    for value in [21, 0xFFFF, 0, 20, 0xFFFF, 0xFFFF, 1, 2, 0] {
        push16(&mut data, value);
    }
    let mut tape = Tape::new(data);
    assert_eq!(CharMappingFormat4::read(&mut tape), Err(Error::Malformed));
}

#[test]
fn mapping_table_decodes_each_encoding() {
    let mut data = Vec::new();
    push16(&mut data, 0);
    push16(&mut data, 1);
    push16(&mut data, 3);
    push16(&mut data, 1);
    push32(&mut data, 12);
    for value in [6, 14, 0, 65, 2, 7, 8] {
        push16(&mut data, value);
    }
    let mut tape = Tape::new(data);
    let table = CharMappingTable::read(&mut tape).unwrap();
    assert_eq!(table.records.len(), 1);
    match &table.mappings[0] {
        CharMapping::Format6(mapping) => {
            assert_eq!(mapping.first_code, 65);
            assert_eq!(mapping.glyph_id_array, vec![7, 8]);
        }
        _ => panic!("expected the contiguous format"),
    }
    let mut data = Vec::new();
    push16(&mut data, 5);
    let mut tape = Tape::new(data);
    assert_eq!(CharMapping::read(&mut tape), Err(Error::Malformed));
}

#[test]
fn value_record_with_only_x_advance() {
    let mut tape = Tape::new(vec![0xFF, 0xFE, 0x12, 0x34]);
    let value = SingleValue::read(&mut tape, ValueFlags(0x4)).unwrap();
    assert_eq!(
        value,
        SingleValue {
            x_placement: None,
            y_placement: None,
            x_advance: Some(-2),
            y_advance: None,
            device_x_placement_offset: None,
            device_y_placement_offset: None,
            device_x_advance_offset: None,
            device_y_advance_offset: None,
        }
    );
    assert_eq!(tape.position(), 2);
}

#[test]
fn value_record_fields_follow_their_flags() {
    let mut data = Vec::new();
    for value in [1, 2, 3] {
        push16(&mut data, value);
    }
    let mut tape = Tape::new(data);
    let value = SingleValue::read(&mut tape, ValueFlags(0x1 | 0x8 | 0x80)).unwrap();
    assert_eq!(value.x_placement, Some(1));
    assert_eq!(value.y_advance, Some(2));
    assert_eq!(value.device_y_advance_offset, Some(3));
    assert_eq!(value.x_advance, None);
    let mut tape = Tape::new(vec![0, 1]);
    assert_eq!(SingleValue::read(&mut tape, ValueFlags(0x3)), Err(Error::Io));
}

#[test]
fn pair_value_set() {
    let mut data = Vec::new();
    for value in [2, 10, 20, 30, 40, 50, 60] {
        push16(&mut data, value);
    }
    let mut tape = Tape::new(data);
    let set = PairValueSet::read(&mut tape, (ValueFlags(0x4), ValueFlags(0x1 | 0x4))).unwrap();
    assert_eq!(set.count, 2);
    assert_eq!(set.records[0].value1.x_advance, Some(10));
    assert_eq!(set.records[0].value2.x_placement, Some(20));
    assert_eq!(set.records[0].value2.x_advance, Some(30));
    assert_eq!(set.records[1].value1.x_advance, Some(40));
    assert_eq!(set.records[1].value2.x_advance, Some(60));
    assert_eq!(tape.position(), 14);
}

#[test]
fn lookup_list_dispatches_by_kind() {
    let mut data = Vec::new();
    push16(&mut data, 1);
    push16(&mut data, 4);
    push16(&mut data, 1);
    push16(&mut data, 0x10);
    push16(&mut data, 1);
    push16(&mut data, 10);
    push16(&mut data, 3);
    push16(&mut data, 1);
    push16(&mut data, 6);
    push16(&mut data, 0xFFFF);
    push16(&mut data, 1);
    push16(&mut data, 1);
    push16(&mut data, 42);
    let mut tape = Tape::new(data);
    let lookups: Lookups<Substitution> = Lookups::read(&mut tape).unwrap();
    assert_eq!(lookups.count, 1);
    let lookup = &lookups.records[0];
    assert_eq!(lookup.kind, 1);
    assert!(lookup.flags.has_mark_filtering());
    assert_eq!(lookup.mark_filtering_set, Some(3));
    match &lookup.tables[0] {
        Substitution::SingleSubstibution(SingleSubstibution::Format1(table)) => {
            assert_eq!(table.delta_glyph_id, -1);
            assert_eq!(table.coverage, Coverage::Format1(vec![42]));
        }
        _ => panic!("expected a single substitution"),
    }
}

#[test]
fn unknown_kinds_and_formats_are_malformed() {
    let mut tape = Tape::new(vec![0, 1, 0, 0, 0, 0]);
    assert_eq!(Substitution::read(&mut tape, 9), Err(Error::Malformed));
    let mut tape = Tape::new(vec![0, 3, 0, 0, 0, 0]);
    assert_eq!(SingleSubstibution::read(&mut tape), Err(Error::Malformed));
    let mut tape = Tape::new(vec![0, 7, 0, 0]);
    assert_eq!(Ligature::read(&mut tape), Err(Error::Malformed));
    let mut tape = Tape::new(vec![0, 3, 0, 0]);
    assert_eq!(Coverage::read(&mut tape), Err(Error::Malformed));
}

#[test]
fn ligature_skips_its_first_component() {
    let mut data = Vec::new();
    for value in [50, 3, 7, 8] {
        push16(&mut data, value);
    }
    let mut tape = Tape::new(data);
    let ligature = Ligature::read(&mut tape).unwrap();
    assert_eq!(ligature.glyph_id, 50);
    assert_eq!(ligature.component_ids, vec![7, 8]);
}

#[test]
fn metrics_are_taken_last() {
    let mut records = Vec::new();
    for name in [b"hmtx", b"hhea", b"abcd", b"maxp"] {
        records.push(TableRecord { tag: tag(name), checksum: 0, offset: 0, length: 0 });
    }
    let ordered: Vec<u32> = order(&records).iter().map(|r| r.tag).collect();
    assert_eq!(ordered, vec![tag(b"hhea"), tag(b"abcd"), tag(b"maxp"), tag(b"hmtx")]);
    assert_eq!(priority(tag(b"hmtx")), 1);
    assert_eq!(priority(tag(b"head")), 0);
}

fn checksum(table: &[u8], skip: Option<usize>) -> u32 {
    let mut sum: u32 = 0;
    for (i, chunk) in table.chunks(4).enumerate() {
        let mut word = [0u8; 4];
        word[..chunk.len()].copy_from_slice(chunk);
        if Some(i) != skip {
            sum = sum.wrapping_add(u32::from_be_bytes(word));
        }
    }
    sum
}

fn font(version: u32, tables: &[(u32, Vec<u8>)], corrupt: bool) -> Vec<u8> {
    let mut data = Vec::new();
    push32(&mut data, version);
    push16(&mut data, tables.len() as u16);
    push16(&mut data, 16);
    push16(&mut data, 0);
    push16(&mut data, 0);
    let mut offset = 12 + 16 * tables.len();
    let mut bodies = Vec::new();
    for (name, body) in tables {
        let skip = if *name == tag(b"head") { Some(2) } else { None };
        let mut sum = checksum(body, skip);
        if corrupt {
            sum = sum.wrapping_add(1);
        }
        push32(&mut data, *name);
        push32(&mut data, sum);
        push32(&mut data, offset as u32);
        push32(&mut data, body.len() as u32);
        let mut padded = body.clone();
        while padded.len() % 4 != 0 {
            padded.push(0);
        }
        offset += padded.len();
        bodies.push(padded);
    }
    for body in bodies {
        data.extend_from_slice(&body);
    }
    data
}

fn font_header() -> Vec<u8> {
    let mut data = Vec::new();
    push32(&mut data, 0x0001_0000);
    push32(&mut data, 0x0001_0000);
    push32(&mut data, 0xDEAD_BEEF);
    push32(&mut data, 0x5F0F_3CF5);
    push16(&mut data, 0);
    push16(&mut data, 1000);
    data.extend_from_slice(&[0; 16]);
    for value in [0u16, 0, 500, 700, 0, 8, 2, 0, 0] {
        push16(&mut data, value);
    }
    data
}

#[test]
fn minimal_font_has_only_its_header() {
    let data = font(0x0001_0000, &[(tag(b"head"), font_header())], false);
    let mut tape = Tape::new(data);
    let file = File::read(&mut tape).unwrap();
    assert_eq!(file.fonts.len(), 1);
    let font: &Font = &file.fonts[0];
    assert_eq!(font.offset_table.num_tables, 1);
    let header = font.font_header.unwrap();
    assert_eq!(header.units_per_em, 1000);
    assert_eq!(header.checksum_adjustment, 0xDEAD_BEEF);
    assert_eq!(header.y_max, 700);
    assert!(font.char_mapping.is_none());
    assert!(font.horizontal_header.is_none());
    assert!(font.horizontal_metrics.is_none());
    assert!(font.max_profile.is_none());
    assert!(font.naming_table.is_none());
    assert!(font.postscript_info.is_none());
    assert!(font.compact_font_set.is_none());
}

#[test]
fn corrupted_table_fails_the_font() {
    let data = font(0x0001_0000, &[(tag(b"head"), font_header())], true);
    let mut tape = Tape::new(data);
    assert!(matches!(File::read(&mut tape), Err(Error::Corrupted)));
}

#[test]
fn unknown_tags_are_passed_over() {
    let data = font(0x4F54_544F, &[(tag(b"zzzz"), vec![1, 2, 3])], true);
    let mut tape = Tape::new(data);
    let file = File::read(&mut tape).unwrap();
    assert!(file.fonts[0].font_header.is_none());
}

fn horizontal_header(metrics: u16) -> Vec<u8> {
    let mut data = Vec::new();
    push32(&mut data, 0x0001_0000);
    for _ in 0..15 {
        push16(&mut data, 0);
    }
    push16(&mut data, metrics);
    data
}

fn max_profile(glyphs: u16) -> Vec<u8> {
    let mut data = Vec::new();
    push32(&mut data, 0x5000);
    push16(&mut data, glyphs);
    data
}

fn horizontal_metrics() -> Vec<u8> {
    let mut data = Vec::new();
    for value in [500u16, 10, 20] {
        push16(&mut data, value);
    }
    data
}

#[test]
fn metrics_decode_after_their_dependencies() {
    let tables = [
        (tag(b"hmtx"), horizontal_metrics()),
        (tag(b"maxp"), max_profile(2)),
        (tag(b"hhea"), horizontal_header(1)),
    ];
    let mut tape = Tape::new(font(0x0001_0000, &tables, false));
    let file = File::read(&mut tape).unwrap();
    let metrics = file.fonts[0].horizontal_metrics.clone().unwrap();
    assert_eq!(metrics.h_metrics.len(), 1);
    assert_eq!(metrics.h_metrics[0].advance_width, 500);
    assert_eq!(metrics.h_metrics[0].left_side_bearing, 10);
    assert_eq!(metrics.left_side_bearings, vec![20]);
    assert_eq!(file.fonts[0].max_profile.unwrap().num_glyphs(), 2);
}

#[test]
fn metrics_without_header_are_omitted() {
    let tables = [(tag(b"hmtx"), horizontal_metrics()), (tag(b"maxp"), max_profile(2))];
    let mut tape = Tape::new(font(0x0001_0000, &tables, false));
    let file = File::read(&mut tape).unwrap();
    assert!(file.fonts[0].horizontal_metrics.is_none());
    assert!(file.fonts[0].max_profile.is_some());
}

#[test]
fn horizontal_metrics_need_enough_glyphs() {
    let mut tape = Tape::new(horizontal_metrics());
    assert_eq!(HorizontalMetrics::read(&mut tape, (2, 1)), Err(Error::Malformed));
    let mut tape = Tape::new(max_profile(3));
    assert!(matches!(MaxProfile::read(&mut tape), Ok(MaxProfile::Version05(_))));
    let mut tape = Tape::new(vec![0, 0, 0x30, 0, 0, 1]);
    assert!(matches!(MaxProfile::read(&mut tape), Err(Error::Malformed)));
}

#[test]
fn outline_data_is_kept_as_verified_bytes() {
    let tables = [(tag(b"CFF "), vec![9, 9, 9, 9, 9])];
    let mut tape = Tape::new(font(0x4F54_544F, &tables, false));
    let file = File::read(&mut tape).unwrap();
    assert_eq!(file.fonts[0].compact_font_set, Some(vec![9, 9, 9, 9, 9]));
    let mut tape = Tape::new(font(0x4F54_544F, &tables, true));
    assert!(matches!(File::read(&mut tape), Err(Error::Corrupted)));
}

#[test]
fn corrupted_metrics_fail_even_without_their_header() {
    let tables = [(tag(b"hmtx"), horizontal_metrics())];
    let mut tape = Tape::new(font(0x0001_0000, &tables, true));
    assert!(matches!(File::read(&mut tape), Err(Error::Corrupted)));
    let mut tape = Tape::new(font(0x0001_0000, &tables, false));
    assert!(File::read(&mut tape).unwrap().fonts[0].horizontal_metrics.is_none());
}

#[test]
fn stay_restores_the_position_after_any_body() {
    let mut tape = Tape::new(vec![0, 1, 0, 2, 0, 3]);
    tape.jump(2).unwrap();
    let value = tape.stay(|t: &mut Tape| {
        t.jump(4)?;
        t.read_u16()
    });
    assert_eq!(value, Ok(3));
    assert_eq!(tape.position(), 2);
    let failed: Result<u32, Error> = tape.stay(|t: &mut Tape| {
        t.jump(5)?;
        t.read_u32()
    });
    assert_eq!(failed, Err(Error::Io));
    assert_eq!(tape.position(), 2);
}

#[test]
fn parameterized_reads_keep_the_position_on_failure() {
    let mut tape = Tape::new(vec![0, 1, 0, 2, 0, 3]);
    tape.jump(2).unwrap();
    assert_eq!(Substitution::read(&mut tape, 9), Err(Error::Malformed));
    assert_eq!(tape.position(), 2);
    assert_eq!(SingleValue::read(&mut tape, ValueFlags(0x7)), Err(Error::Io));
    assert_eq!(tape.position(), 2);
}

#[test]
fn feature_parameters_are_absent_at_offset_zero() {
    let mut data = Vec::new();
    push16(&mut data, 2);
    push32(&mut data, tag(b"liga"));
    push16(&mut data, 14);
    push32(&mut data, tag(b"ss01"));
    push16(&mut data, 20);
    for value in [0, 1, 7] {
        push16(&mut data, value);
    }
    for value in [6, 0, 0xAB] {
        push16(&mut data, value);
    }
    let mut tape = Tape::new(data);
    let features = Features::read(&mut tape).unwrap();
    assert_eq!(features.count, 2);
    assert_eq!(features.headers[1].tag, tag(b"ss01"));
    assert_eq!(features.records[0].lookup_indices, vec![7]);
    assert_eq!(features.records[0].parameters, None);
    assert_eq!(features.records[1].parameters, Some(26));
    assert_eq!(tape.position(), 14);
    let mut tape = Tape::new(vec![0, 1, b'a', b'b', b'c', b'd', 0, 8, 1, 0, 0, 0]);
    assert_eq!(Features::read(&mut tape), Err(Error::Io));
    let mut tape = Tape::new(vec![0, 1, 0, 0, 0, 0, 0, 5]);
    assert_eq!(FeatureVariations::read(&mut tape).unwrap().count, 5);
}

#[test]
fn container_formats() {
    let mut tape = Tape::new(b"ttcf\0\0\0\0".to_vec());
    assert!(matches!(File::read(&mut tape), Err(Error::Unsupported)));
    let mut tape = Tape::new(b"wOFF\0\0\0\0".to_vec());
    assert!(matches!(File::read(&mut tape), Err(Error::Format)));
    let mut tape = Tape::new(vec![0, 1]);
    assert!(matches!(File::read(&mut tape), Err(Error::Io)));
    let mut tape = Tape::new(vec![0, 1, 0, 0, 0, 1]);
    assert!(matches!(File::read(&mut tape), Err(Error::Io)));
}

#[test]
fn dates() {
    assert_eq!(Date::at(0), Date { year: 1970, month: 1, day: 1 });
    assert_eq!(Date::at_since_1904(2_082_844_800), Date { year: 1970, month: 1, day: 1 });
    assert_eq!(
        Date::at_since_1904(2_082_844_800 + 31 * 86_400),
        Date { year: 1970, month: 2, day: 1 }
    );
    assert_eq!(Date::at(951_782_400), Date { year: 2000, month: 2, day: 29 });
    assert_eq!(Date::from_utc_fields(124, 0, 15), Date { year: 2024, month: 1, day: 15 });
    let early = Date { year: 2000, month: 5, day: 9 };
    let late = Date { year: 2000, month: 6, day: 1 };
    assert!(early < late);
    assert_eq!(early.partial_cmp(&early), Some(std::cmp::Ordering::Equal));
}

#[test]
fn take_finds_verifies_and_decodes() {
    let tables = [
        (tag(b"head"), font_header()),
        (tag(b"hmtx"), horizontal_metrics()),
    ];
    let data = font(0x0001_0000, &tables, false);
    let mut tape = Tape::new(data);
    let file = File::read(&mut tape).unwrap();
    let decoded = &file.fonts[0];
    let header: Option<FontHeader> = decoded.take(&mut tape, tag(b"head")).unwrap();
    assert_eq!(header.unwrap().units_per_em, 1000);
    let missing: Option<MaxProfile> = decoded.take(&mut tape, tag(b"maxp")).unwrap();
    assert!(missing.is_none());
    let metrics: Option<HorizontalMetrics> =
        decoded.take_given(&mut tape, tag(b"hmtx"), (1u16, 2u16)).unwrap();
    assert_eq!(metrics.unwrap().left_side_bearings, vec![20]);
    let mut damaged = font(0x0001_0000, &tables, false);
    let last = damaged.len() - 1;
    damaged[last] ^= 1;
    let mut tape = Tape::new(damaged);
    let result: Result<Option<HorizontalMetrics>, Error> =
        decoded.take_given(&mut tape, tag(b"hmtx"), (1u16, 2u16));
    assert_eq!(result, Err(Error::Corrupted));
}

#[test]
fn windows_metrics_by_version() {
    let mut data = Vec::new();
    push16(&mut data, 4);
    push16(&mut data, 512);
    for _ in 0..14 {
        push16(&mut data, 0);
    }
    data.extend_from_slice(&[2, 0, 5, 3, 0, 0, 0, 0, 0, 0]);
    data.extend_from_slice(&[0; 16]);
    data.extend_from_slice(b"ADBE");
    data.extend_from_slice(&[0; 34]);
    assert_eq!(data.len(), 96);
    let mut tape = Tape::new(data.clone());
    match WindowsMetrics::read(&mut tape).unwrap() {
        WindowsMetrics::Version3(table) => {
            assert_eq!(table.x_avg_char_width, 512);
            assert_eq!(table.panose, vec![2, 0, 5, 3, 0, 0, 0, 0, 0, 0]);
            assert_eq!(table.ach_vend_id, b"ADBE".to_vec());
        }
        _ => panic!("expected the layout of version 3"),
    }
    assert_eq!(tape.position(), 96);
    data[1] = 5;
    let mut tape = Tape::new(data.clone());
    assert_eq!(WindowsMetrics::read(&mut tape), Err(Error::Io));
    data[1] = 1;
    let mut tape = Tape::new(data);
    assert_eq!(WindowsMetrics::read(&mut tape), Err(Error::Malformed));
}
