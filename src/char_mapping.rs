//! The character-to-glyph mapping table and its segmented and contiguous formats.

use vstd::prelude::*;

use std::collections::HashMap;

use crate::tape::{
    extent_many, fault_at, fits, i16s_at, parses_many, read_i16s, read_many, read_u16s, u16_at,
    u16s_at, u32_at, Error, Tape, Value,
};

verus! {

broadcast use vstd::std_specs::hash::group_hash_axioms;

/// The header of the mapping table.
#[derive(Clone, Copy, Debug, PartialEq, Eq, Structural)]
pub struct CharMappingHeader {
    pub version: u16,
    pub num_tables: u16,
}

/// Which platform and encoding a mapping serves, and where it stands relative to
/// the start of the mapping table.
#[derive(Clone, Copy, Debug, PartialEq, Eq, Structural)]
pub struct EncodingRecord {
    pub platform_id: u16,
    pub encoding_id: u16,
    pub offset: u32,
}

/// One mapping, in one of the formats decoded here.
#[derive(Clone, Debug, PartialEq, Eq)]
pub enum CharMapping {
    Format4(CharMappingFormat4),
    Format6(CharMappingFormat6),
}

/// The segmented mapping: four parallel arrays over the segments, then the glyphs
/// that the range offsets reach.
#[derive(Clone, Debug, PartialEq, Eq)]
pub struct CharMappingFormat4 {
    pub format: u16,
    pub length: u16,
    pub language: u16,
    pub seg_count_x2: u16,
    pub search_range: u16,
    pub entry_selector: u16,
    pub range_shift: u16,
    pub end_code: Vec<u16>,
    pub reserved_pad: u16,
    pub start_code: Vec<u16>,
    pub id_delta: Vec<i16>,
    pub id_range_offset: Vec<u16>,
    pub glyph_id_array: Vec<u16>,
}

/// The contiguous mapping: glyphs for the codes from a first one on.
#[derive(Clone, Debug, PartialEq, Eq)]
pub struct CharMappingFormat6 {
    pub format: u16,
    pub length: u16,
    pub language: u16,
    pub first_code: u16,
    pub entry_count: u16,
    pub glyph_id_array: Vec<u16>,
}

/// The mapping table: its header, its encoding records, and one mapping for each.
#[derive(Clone, Debug, PartialEq, Eq)]
pub struct CharMappingTable {
    pub header: CharMappingHeader,
    pub records: Vec<EncodingRecord>,
    pub mappings: Vec<CharMapping>,
}

/// The bias of segment `i` of `segments`: a range offset counts from the segment's
/// own slot in the range-offset array, so it passes `segments - i` slots first.
pub open spec fn bias(segments: int, i: int) -> int {
    segments - i
}

/// Whether a segment reads the glyph array (a nonzero range offset over codes).
pub open spec fn reads_array(start: u16, end: u16, range_offset: u16) -> bool {
    range_offset > 0 && start <= end
}

/// How many glyphs segment `i` needs: one past the largest index it reaches.
pub open spec fn reach(start: u16, end: u16, range_offset: u16, bias: int) -> int {
    if reads_array(start, end, range_offset) {
        range_offset / 2 + (end - start) - bias + 1
    } else {
        0
    }
}

/// The number of glyphs that the first `k` segments reach.
pub open spec fn glyph_count(
    starts: Seq<u16>,
    ends: Seq<u16>,
    range_offsets: Seq<u16>,
    segments: int,
    k: int,
) -> int
    decreases k,
{
    if k <= 0 {
        0
    } else {
        let before = glyph_count(starts, ends, range_offsets, segments, k - 1);
        let here = reach(
            starts[k - 1],
            ends[k - 1],
            range_offsets[k - 1],
            bias(segments, k - 1),
        );
        if here > before {
            here
        } else {
            before
        }
    }
}

/// Whether no segment but the last reads before the glyph array.
pub open spec fn well_biased(
    starts: Seq<u16>,
    ends: Seq<u16>,
    range_offsets: Seq<u16>,
    segments: int,
) -> bool {
    forall|i: int|
        0 <= i < segments - 1 ==> #[trigger] reads_array(starts[i], ends[i], range_offsets[i])
            ==> range_offsets[i] / 2 >= bias(segments, i)
}

/// The glyph of code `c` in segment `i`.
pub open spec fn glyph_of(t: CharMappingFormat4, i: int, c: int) -> u16 {
    let segments = t.seg_count_x2 as int / 2;
    let range_offset = t.id_range_offset@[i];
    if range_offset > 0 {
        t.glyph_id_array@[range_offset / 2 + (c - t.start_code@[i]) - bias(segments, i)]
    } else {
        ((t.id_delta@[i] + c) % 65536) as u16
    }
}

/// The codes of segment `i` with their glyphs.
pub open spec fn segment_map(t: CharMappingFormat4, i: int) -> Map<u16, u16> {
    Map::new(
        |c: u16| t.start_code@[i] <= c <= t.end_code@[i],
        |c: u16| glyph_of(t, i, c as int),
    )
}

/// The codes of the first `k` segments with their glyphs; a later segment wins.
pub open spec fn mapping_upto(t: CharMappingFormat4, k: int) -> Map<u16, u16>
    decreases k,
{
    if k <= 0 {
        Map::empty()
    } else {
        mapping_upto(t, k - 1).union_prefer_right(segment_map(t, k - 1))
    }
}

proof fn lemma_count_covers(
    starts: Seq<u16>,
    ends: Seq<u16>,
    range_offsets: Seq<u16>,
    segments: int,
    k: int,
    i: int,
)
    requires
        0 <= i < k,
    ensures
        reach(starts[i], ends[i], range_offsets[i], bias(segments, i)) <= glyph_count(
            starts,
            ends,
            range_offsets,
            segments,
            k,
        ),
    decreases k,
{
    if i < k - 1 {
        lemma_count_covers(starts, ends, range_offsets, segments, k - 1, i);
    }
}

impl CharMappingFormat4 {
    /// The number of segments, the sentinel included.
    pub open spec fn segments(self) -> int {
        self.seg_count_x2 as int / 2
    }

    /// The arrays agree with the segment count, the last segment is the sentinel,
    /// and every index that a segment reaches lies in the glyph array.
    pub open spec fn wf(self) -> bool {
        let s = self.segments();
        &&& s >= 1
        &&& self.end_code@.len() == s
        &&& self.start_code@.len() == s
        &&& self.id_delta@.len() == s
        &&& self.id_range_offset@.len() == s
        &&& self.start_code@[s - 1] == 0xFFFF
        &&& self.end_code@[s - 1] == 0xFFFF
        &&& well_biased(self.start_code@, self.end_code@, self.id_range_offset@, s)
        &&& self.glyph_id_array@.len() >= glyph_count(
            self.start_code@,
            self.end_code@,
            self.id_range_offset@,
            s,
            s - 1,
        )
    }

    /// The glyph of every code that a segment other than the sentinel covers; where
    /// segments overlap, the later one wins.
    pub fn mapping(&self) -> (r: HashMap<u16, u16>)
        requires
            self.wf(),
        ensures
            r@ == mapping_upto(*self, self.segments() - 1),
    {
        let segments = self.seg_count_x2 as usize / 2;
        let mut map: HashMap<u16, u16> = HashMap::new();
        let mut i: usize = 0;
        while i < segments - 1
            invariant
                self.wf(),
                segments == self.segments(),
                i <= segments - 1,
                map@ == mapping_upto(*self, i as int),
            decreases segments - 1 - i,
        {
            let start = self.start_code[i];
            let end = self.end_code[i];
            let delta = self.id_delta[i];
            let range_offset = self.id_range_offset[i];
            let mut c: u32 = start as u32;
            while c <= end as u32
                invariant
                    self.wf(),
                    segments == self.segments(),
                    i < segments - 1,
                    start == self.start_code@[i as int],
                    end == self.end_code@[i as int],
                    delta == self.id_delta@[i as int],
                    range_offset == self.id_range_offset@[i as int],
                    start <= c <= if start <= end {
                        end as int + 1
                    } else {
                        start as int
                    },
                    map@ == mapping_upto(*self, i as int).union_prefer_right(
                        Map::new(
                            |x: u16| start <= x < c,
                            |x: u16| glyph_of(*self, i as int, x as int),
                        ),
                    ),
                decreases end as int + 1 - c,
            {
                let index = if range_offset > 0 {
                    proof {
                        assert(reads_array(start, end, range_offset));
                        lemma_count_covers(
                            self.start_code@,
                            self.end_code@,
                            self.id_range_offset@,
                            segments as int,
                            segments - 1,
                            i as int,
                        );
                    }
                    let offset = (range_offset / 2) as usize + (c - start as u32) as usize - (
                    segments - i);
                    self.glyph_id_array[offset]
                } else {
                    ((delta as i32 + c as i32 + 65536) % 65536) as u16
                };
                map.insert(c as u16, index);
                proof {
                    assert(index == glyph_of(*self, i as int, c as int));
                }
                c = c + 1;
                assert(map@ =~= mapping_upto(*self, i as int).union_prefer_right(
                    Map::new(
                        |x: u16| start <= x < c,
                        |x: u16| glyph_of(*self, i as int, x as int),
                    ),
                ));
            }
            i = i + 1;
            assert(map@ =~= mapping_upto(*self, i as int));
        }
        map
    }
}

/// A segmented mapping decoded from bytes is well formed, so its mapping can be built.
pub proof fn lemma_decoded_format4_wf(d: Seq<u8>, p: int, t: CharMappingFormat4)
    requires
        CharMappingFormat4::extent(d, p) is Ok,
        CharMappingFormat4::parses(d, p, t),
    ensures
        t.wf(),
{
    let s = t.segments();
    assert(t.start_code@[s - 1] == u16s_at(d, starts_at(p, s), s as nat)[s - 1]);
    assert(t.end_code@[s - 1] == u16s_at(d, ends_at(p), s as nat)[s - 1]);
}

/// The number of glyphs that the segments other than the sentinel reach, or
/// `Malformed` where a segment would read before the glyph array.
fn glyph_id_count(start_code: &Vec<u16>, end_code: &Vec<u16>, id_range_offset: &Vec<u16>) -> (r:
    Result<usize, Error>)
    requires
        start_code@.len() >= 1,
        end_code@.len() == start_code@.len(),
        id_range_offset@.len() == start_code@.len(),
    ensures
        well_biased(start_code@, end_code@, id_range_offset@, start_code@.len() as int) ==> r is Ok
            && r->Ok_0 == glyph_count(
            start_code@,
            end_code@,
            id_range_offset@,
            start_code@.len() as int,
            start_code@.len() - 1,
        ),
        !well_biased(start_code@, end_code@, id_range_offset@, start_code@.len() as int) ==> r
            == Err::<usize, Error>(Error::Malformed),
{
    let segments = start_code.len();
    let mut count: usize = 0;
    let mut i: usize = 0;
    while i < segments - 1
        invariant
            segments == start_code@.len(),
            segments >= 1,
            end_code@.len() == segments,
            id_range_offset@.len() == segments,
            i <= segments - 1,
            count == glyph_count(start_code@, end_code@, id_range_offset@, segments as int, i as int),
            count <= 100000,
            forall|k: int|
                0 <= k < i ==> #[trigger] reads_array(
                    start_code@[k],
                    end_code@[k],
                    id_range_offset@[k],
                ) ==> id_range_offset@[k] / 2 >= bias(segments as int, k),
        decreases segments - 1 - i,
    {
        let start = start_code[i];
        let end = end_code[i];
        let range_offset = id_range_offset[i];
        if range_offset > 0 && start <= end {
            if ((range_offset / 2) as usize) < segments - i {
                assert(reads_array(start_code@[i as int], end_code@[i as int], id_range_offset@[i as int]));
                return Err(Error::Malformed);
            }
            let here = (range_offset / 2) as usize + (end - start) as usize - (segments - i) + 1;
            if here > count {
                count = here;
            }
        }
        i = i + 1;
    }
    Ok(count)
}

/// Where the parallel arrays of a segmented mapping at `p` with `s` segments start.
pub open spec fn ends_at(p: int) -> int {
    p + 14
}

pub open spec fn starts_at(p: int, s: int) -> int {
    p + 16 + 2 * s
}

pub open spec fn deltas_at(p: int, s: int) -> int {
    p + 16 + 4 * s
}

pub open spec fn range_offsets_at(p: int, s: int) -> int {
    p + 16 + 6 * s
}

pub open spec fn glyphs_at(p: int, s: int) -> int {
    p + 16 + 8 * s
}

impl Value for CharMappingFormat4 {
    open spec fn extent(data: Seq<u8>, pos: int) -> Result<int, Error> {
        let s = u16_at(data, pos + 6) as int / 2;
        let ends = u16s_at(data, ends_at(pos), s as nat);
        let starts = u16s_at(data, starts_at(pos, s), s as nat);
        let range_offsets = u16s_at(data, range_offsets_at(pos, s), s as nat);
        let n = glyph_count(starts, ends, range_offsets, s, s - 1);
        if !fits(data, pos, 14) || !fits(data, ends_at(pos), 8 * s + 2) {
            Err(Error::Io)
        } else if s == 0 || starts[s - 1] != 0xFFFF || ends[s - 1] != 0xFFFF {
            Err(Error::Malformed)
        } else if !well_biased(starts, ends, range_offsets, s) {
            Err(Error::Malformed)
        } else if !fits(data, glyphs_at(pos, s), 2 * n) {
            Err(Error::Io)
        } else {
            Ok(glyphs_at(pos, s) + 2 * n)
        }
    }

    open spec fn parses(data: Seq<u8>, pos: int, value: CharMappingFormat4) -> bool {
        let s = value.seg_count_x2 as int / 2;
        &&& value.format == u16_at(data, pos)
        &&& value.length == u16_at(data, pos + 2)
        &&& value.language == u16_at(data, pos + 4)
        &&& value.seg_count_x2 == u16_at(data, pos + 6)
        &&& value.search_range == u16_at(data, pos + 8)
        &&& value.entry_selector == u16_at(data, pos + 10)
        &&& value.range_shift == u16_at(data, pos + 12)
        &&& value.end_code@ == u16s_at(data, ends_at(pos), s as nat)
        &&& value.reserved_pad == u16_at(data, ends_at(pos) + 2 * s)
        &&& value.start_code@ == u16s_at(data, starts_at(pos, s), s as nat)
        &&& value.id_delta@ == i16s_at(data, deltas_at(pos, s), s as nat)
        &&& value.id_range_offset@ == u16s_at(data, range_offsets_at(pos, s), s as nat)
        &&& value.glyph_id_array@ == u16s_at(
            data,
            glyphs_at(pos, s),
            glyph_count(value.start_code@, value.end_code@, value.id_range_offset@, s, s - 1)
                as nat,
        )
    }

    fn read(tape: &mut Tape) -> (r: Result<CharMappingFormat4, Error>) {
        let format = tape.read_u16()?;
        let length = tape.read_u16()?;
        let language = tape.read_u16()?;
        let seg_count_x2 = tape.read_u16()?;
        let search_range = tape.read_u16()?;
        let entry_selector = tape.read_u16()?;
        let range_shift = tape.read_u16()?;
        let segments = seg_count_x2 as usize / 2;
        let end_code = read_u16s(tape, segments)?;
        let reserved_pad = tape.read_u16()?;
        let start_code = read_u16s(tape, segments)?;
        let id_delta = read_i16s(tape, segments)?;
        let id_range_offset = read_u16s(tape, segments)?;
        if segments == 0 || start_code[segments - 1] != 0xFFFF || end_code[segments - 1] != 0xFFFF {
            return Err(Error::Malformed);
        }
        let count = glyph_id_count(&start_code, &end_code, &id_range_offset)?;
        let glyph_id_array = read_u16s(tape, count)?;
        Ok(
            CharMappingFormat4 {
                format,
                length,
                language,
                seg_count_x2,
                search_range,
                entry_selector,
                range_shift,
                end_code,
                reserved_pad,
                start_code,
                id_delta,
                id_range_offset,
                glyph_id_array,
            },
        )
    }
}

impl Value for CharMappingFormat6 {
    open spec fn extent(data: Seq<u8>, pos: int) -> Result<int, Error> {
        if fits(data, pos, 10) && fits(data, pos + 10, 2 * u16_at(data, pos + 8)) {
            Ok(pos + 10 + 2 * u16_at(data, pos + 8))
        } else {
            Err(Error::Io)
        }
    }

    open spec fn parses(data: Seq<u8>, pos: int, value: CharMappingFormat6) -> bool {
        &&& value.format == u16_at(data, pos)
        &&& value.length == u16_at(data, pos + 2)
        &&& value.language == u16_at(data, pos + 4)
        &&& value.first_code == u16_at(data, pos + 6)
        &&& value.entry_count == u16_at(data, pos + 8)
        &&& value.glyph_id_array@ == u16s_at(data, pos + 10, value.entry_count as nat)
    }

    fn read(tape: &mut Tape) -> (r: Result<CharMappingFormat6, Error>) {
        let format = tape.read_u16()?;
        let length = tape.read_u16()?;
        let language = tape.read_u16()?;
        let first_code = tape.read_u16()?;
        let entry_count = tape.read_u16()?;
        let glyph_id_array = read_u16s(tape, entry_count as usize)?;
        Ok(CharMappingFormat6 { format, length, language, first_code, entry_count, glyph_id_array })
    }
}

impl Value for CharMapping {
    open spec fn extent(data: Seq<u8>, pos: int) -> Result<int, Error> {
        if !fits(data, pos, 2) {
            Err(Error::Io)
        } else if u16_at(data, pos) == 4 {
            CharMappingFormat4::extent(data, pos)
        } else if u16_at(data, pos) == 6 {
            CharMappingFormat6::extent(data, pos)
        } else {
            Err(Error::Malformed)
        }
    }

    open spec fn parses(data: Seq<u8>, pos: int, value: CharMapping) -> bool {
        match value {
            CharMapping::Format4(t) => u16_at(data, pos) == 4 && CharMappingFormat4::parses(
                data,
                pos,
                t,
            ),
            CharMapping::Format6(t) => u16_at(data, pos) == 6 && CharMappingFormat6::parses(
                data,
                pos,
                t,
            ),
        }
    }

    fn read(tape: &mut Tape) -> (r: Result<CharMapping, Error>) {
        let format = tape.peek::<u16>()?;
        if format == 4 {
            Ok(CharMapping::Format4(CharMappingFormat4::read(tape)?))
        } else if format == 6 {
            Ok(CharMapping::Format6(CharMappingFormat6::read(tape)?))
        } else {
            Err(Error::Malformed)
        }
    }
}

impl Value for CharMappingHeader {
    open spec fn extent(data: Seq<u8>, pos: int) -> Result<int, Error> {
        if fits(data, pos, 4) {
            Ok(pos + 4)
        } else {
            Err(Error::Io)
        }
    }

    open spec fn parses(data: Seq<u8>, pos: int, value: CharMappingHeader) -> bool {
        value == CharMappingHeader { version: u16_at(data, pos), num_tables: u16_at(data, pos + 2) }
    }

    fn read(tape: &mut Tape) -> (r: Result<CharMappingHeader, Error>) {
        let version = tape.read_u16()?;
        let num_tables = tape.read_u16()?;
        Ok(CharMappingHeader { version, num_tables })
    }
}

impl Value for EncodingRecord {
    open spec fn extent(data: Seq<u8>, pos: int) -> Result<int, Error> {
        if fits(data, pos, 8) {
            Ok(pos + 8)
        } else {
            Err(Error::Io)
        }
    }

    open spec fn parses(data: Seq<u8>, pos: int, value: EncodingRecord) -> bool {
        value == EncodingRecord {
            platform_id: u16_at(data, pos),
            encoding_id: u16_at(data, pos + 2),
            offset: u32_at(data, pos + 4),
        }
    }

    fn read(tape: &mut Tape) -> (r: Result<EncodingRecord, Error>) {
        let platform_id = tape.read_u16()?;
        let encoding_id = tape.read_u16()?;
        let offset = tape.read_u32()?;
        Ok(EncodingRecord { platform_id, encoding_id, offset })
    }
}

/// The first error met decoding the mapping of each record, from `base`.
pub open spec fn fault_each_mapping(d: Seq<u8>, base: int, records: Seq<EncodingRecord>) -> Option<
    Error,
>
    decreases records.len(),
{
    if records.len() == 0 {
        None
    } else {
        match fault_each_mapping(d, base, records.drop_last()) {
            Some(e) => Some(e),
            None => fault_at::<CharMapping>(d, base, records.last().offset as int),
        }
    }
}

proof fn lemma_mapping_err(d: Seq<u8>, base: int, records: Seq<EncodingRecord>, k: nat)
    requires
        k <= records.len(),
        fault_each_mapping(d, base, records.take(k as int)) is Some,
    ensures
        fault_each_mapping(d, base, records) == fault_each_mapping(d, base, records.take(k as int)),
    decreases records.len() - k,
{
    if k < records.len() {
        let shorter = records.drop_last();
        assert(shorter.take(k as int) =~= records.take(k as int));
        lemma_mapping_err(d, base, shorter, k);
    } else {
        assert(records.take(k as int) =~= records);
    }
}

impl Value for CharMappingTable {
    open spec fn extent(data: Seq<u8>, pos: int) -> Result<int, Error> {
        if !fits(data, pos, 4) {
            Err(Error::Io)
        } else {
            match extent_many::<EncodingRecord>(data, pos + 4, u16_at(data, pos + 2) as nat) {
                Err(e) => Err(e),
                Ok(end) => {
                    let records = Seq::new(
                        u16_at(data, pos + 2) as nat,
                        |i: int|
                            EncodingRecord {
                                platform_id: u16_at(data, pos + 4 + 8 * i),
                                encoding_id: u16_at(data, pos + 6 + 8 * i),
                                offset: u32_at(data, pos + 8 + 8 * i),
                            },
                    );
                    match fault_each_mapping(data, pos, records) {
                        Some(e) => Err(e),
                        None => Ok(end),
                    }
                },
            }
        }
    }

    open spec fn parses(data: Seq<u8>, pos: int, value: CharMappingTable) -> bool {
        &&& CharMappingHeader::parses(data, pos, value.header)
        &&& value.records@.len() == value.header.num_tables
        &&& parses_many::<EncodingRecord>(data, pos + 4, value.records@)
        &&& value.mappings@.len() == value.records@.len()
        &&& forall|i: int|
            0 <= i < value.mappings@.len() ==> #[trigger] CharMapping::parses(
                data,
                pos + value.records@[i].offset,
                value.mappings@[i],
            )
    }

    fn read(tape: &mut Tape) -> (r: Result<CharMappingTable, Error>) {
        let ghost d = tape.data();
        let ghost p = tape.pos();
        let position = tape.position();
        let header = CharMappingHeader::read(tape)?;
        let records: Vec<EncodingRecord> = read_many(tape, header.num_tables as usize)?;
        proof {
            lemma_records_closed(d, p + 4, records@);
        }
        let ghost after = tape.pos();
        assert(CharMappingTable::extent(d, p) == match fault_each_mapping(d, p, records@) {
            Some(e) => Err::<int, Error>(e),
            None => Ok(after),
        });
        let mut mappings: Vec<CharMapping> = Vec::new();
        let mut i: usize = 0;
        while i < records.len()
            invariant
                i <= records@.len(),
                position == p,
                p <= d.len(),
                tape.wf(),
                tape.data() == d,
                d == old(tape).data(),
                tape.pos() == after,
                p == old(tape).pos(),
                CharMappingTable::extent(d, p) == match fault_each_mapping(d, p, records@) {
                    Some(e) => Err::<int, Error>(e),
                    None => Ok(after),
                },
                fault_each_mapping(d, p, records@.take(i as int)) is None,
                mappings@.len() == i,
                forall|k: int|
                    0 <= k < i ==> #[trigger] CharMapping::parses(
                        d,
                        p + records@[k].offset,
                        mappings@[k],
                    ),
            decreases records@.len() - i,
        {
            assert(records@.take(i + 1).drop_last() =~= records@.take(i as int));
            let res = tape.read_at::<CharMapping>(position, records[i].offset);
            match res {
                Ok(m) => {
                    mappings.push(m);
                    i = i + 1;
                },
                Err(e) => {
                    proof {
                        lemma_mapping_err(d, p, records@, (i + 1) as nat);
                    }
                    return Err(e);
                },
            }
        }
        assert(records@.take(i as int) =~= records@);
        Ok(CharMappingTable { header, records, mappings })
    }
}

/// Decoded records of fixed size stand where their index puts them.
proof fn lemma_records_closed(d: Seq<u8>, p: int, records: Seq<EncodingRecord>)
    requires
        extent_many::<EncodingRecord>(d, p, records.len()) is Ok,
        parses_many::<EncodingRecord>(d, p, records),
    ensures
        records == Seq::new(
            records.len(),
            |i: int|
                EncodingRecord {
                    platform_id: u16_at(d, p + 8 * i),
                    encoding_id: u16_at(d, p + 2 + 8 * i),
                    offset: u32_at(d, p + 4 + 8 * i),
                },
        ),
{
    assert forall|i: int| 0 <= i <= records.len() implies #[trigger] extent_many::<EncodingRecord>(
        d,
        p,
        i as nat,
    ) == Ok::<int, Error>(p + 8 * i) by {
        lemma_fixed_extent(d, p, i as nat, records.len());
    }
    assert forall|i: int| 0 <= i < records.len() implies records[i] == EncodingRecord {
        platform_id: u16_at(d, p + 8 * i),
        encoding_id: u16_at(d, p + 2 + 8 * i),
        offset: u32_at(d, p + 4 + 8 * i),
    } by {
        assert(EncodingRecord::parses(d, extent_many::<EncodingRecord>(d, p, i as nat)->Ok_0, records[i]));
    }
    assert(records =~= Seq::new(
        records.len(),
        |i: int|
            EncodingRecord {
                platform_id: u16_at(d, p + 8 * i),
                encoding_id: u16_at(d, p + 2 + 8 * i),
                offset: u32_at(d, p + 4 + 8 * i),
            },
    ));
}

proof fn lemma_fixed_extent(d: Seq<u8>, p: int, i: nat, n: nat)
    requires
        i <= n,
        extent_many::<EncodingRecord>(d, p, n) is Ok,
    ensures
        extent_many::<EncodingRecord>(d, p, i) == Ok::<int, Error>(p + 8 * i),
    decreases n,
{
    if i < n {
        lemma_fixed_extent(d, p, i, (n - 1) as nat);
    } else if i > 0 {
        lemma_fixed_extent(d, p, (i - 1) as nat, (n - 1) as nat);
    }
}

} // verus!
