//! Assembly of a font: the directory, the order in which its tables are taken, the
//! checksum that each must meet, and the decoder that each tag selects.

use vstd::prelude::*;

use crate::char_mapping::CharMappingTable;
use crate::directory::{sums_to, table_fits, table_words, OffsetTable, TableRecord};
use crate::tables::{
    FontHeader, HorizontalHeader, HorizontalMetrics, MaxProfile, NamingTable, PostScriptInfo,
    WindowsMetrics,
};
use crate::tape::{fault_at, fault_given_at, u16_at, u32_at, Error, Tape, Value, Walue};

verus! {

pub const CHAR_MAPPING: u32 = 0x636D_6170;

pub const FONT_HEADER: u32 = 0x6865_6164;

pub const HORIZONTAL_HEADER: u32 = 0x6868_6561;

pub const HORIZONTAL_METRICS: u32 = 0x686D_7478;

pub const MAX_PROFILE: u32 = 0x6D61_7870;

pub const NAMING_TABLE: u32 = 0x6E61_6D65;

pub const POSTSCRIPT_INFO: u32 = 0x706F_7374;

pub const WINDOWS_METRICS: u32 = 0x4F53_2F32;

pub const COMPACT_FONT_SET: u32 = 0x4346_4620;

/// The container tag of fonts with TrueType outlines.
pub const TRUETYPE_VERSION: u32 = 0x0001_0000;

/// The container tag `OTTO`: fonts with PostScript outlines.
pub const POSTSCRIPT_VERSION: u32 = 0x4F54_544F;

/// The container tag `ttcf`: collections of fonts.
pub const COLLECTION_VERSION: u32 = 0x7474_6366;

/// A font: the directory, and each recognized table once decoded.
#[derive(Clone, Debug)]
pub struct Font {
    pub offset_table: OffsetTable,
    pub char_mapping: Option<CharMappingTable>,
    pub font_header: Option<FontHeader>,
    pub horizontal_header: Option<HorizontalHeader>,
    pub horizontal_metrics: Option<HorizontalMetrics>,
    pub max_profile: Option<MaxProfile>,
    pub naming_table: Option<NamingTable>,
    pub postscript_info: Option<PostScriptInfo>,
    pub windows_metrics: Option<WindowsMetrics>,
    /// The bytes of the compact font set, verified by their checksum; decoding them is
    /// left to a PostScript outline decoder.
    pub compact_font_set: Option<Vec<u8>>,
}

/// A font file: the fonts it holds.
pub struct File {
    pub fonts: Vec<Font>,
}

/// Where each filled slot of a font was decoded from; for the horizontal metrics,
/// also the two counts it was decoded with.
pub struct Slots {
    pub char_mapping: Option<u32>,
    pub font_header: Option<u32>,
    pub horizontal_header: Option<u32>,
    pub horizontal_metrics: Option<(u32, u16, u16)>,
    pub max_profile: Option<u32>,
    pub naming_table: Option<u32>,
    pub postscript_info: Option<u32>,
    pub windows_metrics: Option<u32>,
    pub compact_font_set: Option<(u32, u32)>,
}

/// No slot filled.
pub open spec fn empty_slots() -> Slots {
    Slots {
        char_mapping: None,
        font_header: None,
        horizontal_header: None,
        horizontal_metrics: None,
        max_profile: None,
        naming_table: None,
        postscript_info: None,
        windows_metrics: None,
        compact_font_set: None,
    }
}

/// The tags that have a decoder; tables under other tags are passed over.
pub open spec fn recognized(tag: u32) -> bool {
    tag == CHAR_MAPPING || tag == FONT_HEADER || tag == HORIZONTAL_HEADER || tag
        == HORIZONTAL_METRICS || tag == MAX_PROFILE || tag == NAMING_TABLE || tag == POSTSCRIPT_INFO
        || tag == WINDOWS_METRICS || tag == COMPACT_FONT_SET
}

/// The priority of a tag: the horizontal metrics come after everything else.
pub open spec fn spec_priority(tag: u32) -> u8 {
    if tag == HORIZONTAL_METRICS {
        1
    } else {
        0
    }
}

/// The records of priority `level`, in directory order.
pub open spec fn pass(records: Seq<TableRecord>, level: u8) -> Seq<TableRecord>
    decreases records.len(),
{
    if records.len() == 0 {
        Seq::empty()
    } else {
        let before = pass(records.drop_last(), level);
        if spec_priority(records.last().tag) == level {
            before.push(records.last())
        } else {
            before
        }
    }
}

/// The order in which the records are taken: sorted by priority, and otherwise in
/// directory order.
pub open spec fn processing_order(records: Seq<TableRecord>) -> Seq<TableRecord> {
    pass(records, 0) + pass(records, 1)
}

/// What the checksum reads of a table's words: the font header's checksum
/// adjustment, its third word, counts as zero.
pub open spec fn summed_words(d: Seq<u8>, r: TableRecord) -> Seq<u32> {
    let words = table_words(d, r);
    if r.tag == FONT_HEADER {
        Seq::new(words.len(), |i: int| if i == 2 { 0 } else { words[i] })
    } else {
        words
    }
}

/// The number of full horizontal metrics, from the horizontal header at `o`.
pub open spec fn metric_count(d: Seq<u8>, o: u32) -> u16 {
    u16_at(d, o + 34)
}

/// The number of glyphs, from the maximum profile at `o`.
pub open spec fn glyph_total(d: Seq<u8>, o: u32) -> u16 {
    u16_at(d, o + 4)
}

/// The error met decoding the table that `r` locates, given the slots filled so far.
pub open spec fn decode_fault(d: Seq<u8>, s: Slots, r: TableRecord) -> Option<Error> {
    let o = r.offset as int;
    if r.tag == CHAR_MAPPING {
        fault_at::<CharMappingTable>(d, 0, o)
    } else if r.tag == FONT_HEADER {
        fault_at::<FontHeader>(d, 0, o)
    } else if r.tag == HORIZONTAL_HEADER {
        fault_at::<HorizontalHeader>(d, 0, o)
    } else if r.tag == MAX_PROFILE {
        fault_at::<MaxProfile>(d, 0, o)
    } else if r.tag == NAMING_TABLE {
        fault_at::<NamingTable>(d, 0, o)
    } else if r.tag == POSTSCRIPT_INFO {
        fault_at::<PostScriptInfo>(d, 0, o)
    } else if r.tag == WINDOWS_METRICS {
        fault_at::<WindowsMetrics>(d, 0, o)
    } else if r.tag == HORIZONTAL_METRICS {
        fault_given_at::<(u16, u16), HorizontalMetrics>(
            d,
            0,
            o,
            (
                metric_count(d, s.horizontal_header->Some_0),
                glyph_total(d, s.max_profile->Some_0),
            ),
        )
    } else {
        None
    }
}

/// The slots once the table that `r` locates is decoded.
pub open spec fn filled(d: Seq<u8>, s: Slots, r: TableRecord) -> Slots {
    let o = r.offset;
    if r.tag == CHAR_MAPPING {
        Slots { char_mapping: Some(o), ..s }
    } else if r.tag == FONT_HEADER {
        Slots { font_header: Some(o), ..s }
    } else if r.tag == HORIZONTAL_HEADER {
        Slots { horizontal_header: Some(o), ..s }
    } else if r.tag == MAX_PROFILE {
        Slots { max_profile: Some(o), ..s }
    } else if r.tag == NAMING_TABLE {
        Slots { naming_table: Some(o), ..s }
    } else if r.tag == POSTSCRIPT_INFO {
        Slots { postscript_info: Some(o), ..s }
    } else if r.tag == WINDOWS_METRICS {
        Slots { windows_metrics: Some(o), ..s }
    } else if r.tag == HORIZONTAL_METRICS {
        Slots {
            horizontal_metrics: Some(
                (
                    o,
                    metric_count(d, s.horizontal_header->Some_0),
                    glyph_total(d, s.max_profile->Some_0),
                ),
            ),
            ..s
        }
    } else {
        Slots { compact_font_set: Some((o, r.length)), ..s }
    }
}

/// One step of assembly: pass over an unrecognized tag; fail on a recognized table
/// that does not fit or fails its checksum; pass over horizontal metrics whose
/// header or maximum profile is still missing; otherwise decode the table.
#[verifier::opaque]
pub open spec fn step(d: Seq<u8>, s: Slots, r: TableRecord) -> Result<Slots, Error> {
    if !recognized(r.tag) {
        Ok(s)
    } else if !table_fits(d, r) {
        Err(Error::Io)
    } else if !sums_to(summed_words(d, r), r.checksum) {
        Err(Error::Corrupted)
    } else if r.tag == HORIZONTAL_METRICS && (s.horizontal_header is None || s.max_profile is None) {
        Ok(s)
    } else {
        match decode_fault(d, s, r) {
            Some(e) => Err(e),
            None => Ok(filled(d, s, r)),
        }
    }
}

/// The slots after taking the records in turn, or the first error.
pub open spec fn assemble(d: Seq<u8>, records: Seq<TableRecord>) -> Result<Slots, Error>
    decreases records.len(),
{
    if records.len() == 0 {
        Ok(empty_slots())
    } else {
        match assemble(d, records.drop_last()) {
            Ok(s) => step(d, s, records.last()),
            Err(e) => Err(e),
        }
    }
}

/// Whether each slot of the font holds what its record in `s` decodes to.
#[verifier::opaque]
pub open spec fn holds(d: Seq<u8>, s: Slots, f: Font) -> bool {
    &&& (f.char_mapping is Some <==> s.char_mapping is Some)
    &&& (s.char_mapping matches Some(o) ==> CharMappingTable::parses(
        d,
        o as int,
        f.char_mapping->Some_0,
    ))
    &&& (f.font_header is Some <==> s.font_header is Some)
    &&& (s.font_header matches Some(o) ==> FontHeader::parses(d, o as int, f.font_header->Some_0))
    &&& (f.horizontal_header is Some <==> s.horizontal_header is Some)
    &&& (s.horizontal_header matches Some(o) ==> HorizontalHeader::parses(
        d,
        o as int,
        f.horizontal_header->Some_0,
    ))
    &&& (f.horizontal_metrics is Some <==> s.horizontal_metrics is Some)
    &&& (s.horizontal_metrics matches Some(x) ==> HorizontalMetrics::parses_given(
        d,
        x.0 as int,
        (x.1, x.2),
        f.horizontal_metrics->Some_0,
    ))
    &&& (f.max_profile is Some <==> s.max_profile is Some)
    &&& (s.max_profile matches Some(o) ==> MaxProfile::parses(d, o as int, f.max_profile->Some_0))
    &&& (f.naming_table is Some <==> s.naming_table is Some)
    &&& (s.naming_table matches Some(o) ==> NamingTable::parses(
        d,
        o as int,
        f.naming_table->Some_0,
    ))
    &&& (f.postscript_info is Some <==> s.postscript_info is Some)
    &&& (s.postscript_info matches Some(o) ==> PostScriptInfo::parses(
        d,
        o as int,
        f.postscript_info->Some_0,
    ))
    &&& (f.windows_metrics is Some <==> s.windows_metrics is Some)
    &&& (s.windows_metrics matches Some(o) ==> WindowsMetrics::parses(
        d,
        o as int,
        f.windows_metrics->Some_0,
    ))
    &&& (f.compact_font_set is Some <==> s.compact_font_set is Some)
    &&& (s.compact_font_set matches Some(x) ==> f.compact_font_set->Some_0@ == d.subrange(
        x.0 as int,
        x.0 + x.1,
    ))
}

/// The table records of the directory at the start of the data.
pub open spec fn directory_records(d: Seq<u8>) -> Seq<TableRecord> {
    Seq::new(
        u16_at(d, 4) as nat,
        |i: int|
            TableRecord {
                tag: u32_at(d, 12 + 16 * i),
                checksum: u32_at(d, 16 + 16 * i),
                offset: u32_at(d, 20 + 16 * i),
                length: u32_at(d, 24 + 16 * i),
            },
    )
}

/// The priority of a tag: the horizontal metrics come after everything else.
pub fn priority(tag: u32) -> (r: u8)
    ensures
        r == spec_priority(tag),
{
    if tag == HORIZONTAL_METRICS {
        1
    } else {
        0
    }
}

/// The records sorted by priority, and otherwise in directory order.
pub fn order(records: &Vec<TableRecord>) -> (r: Vec<TableRecord>)
    ensures
        r@ == processing_order(records@),
{
    let mut first: Vec<TableRecord> = Vec::new();
    let mut last: Vec<TableRecord> = Vec::new();
    let mut i: usize = 0;
    while i < records.len()
        invariant
            i <= records@.len(),
            first@ == pass(records@.take(i as int), 0),
            last@ == pass(records@.take(i as int), 1),
        decreases records@.len() - i,
    {
        assert(records@.take(i + 1).drop_last() =~= records@.take(i as int));
        let record = records[i];
        if priority(record.tag) == 0 {
            first.push(record);
        } else {
            last.push(record);
        }
        i = i + 1;
    }
    assert(records@.take(i as int) =~= records@);
    first.append(&mut last);
    first
}

proof fn lemma_assemble_err(d: Seq<u8>, records: Seq<TableRecord>, k: nat)
    requires
        k <= records.len(),
        assemble(d, records.take(k as int)) is Err,
    ensures
        assemble(d, records) == assemble(d, records.take(k as int)),
    decreases records.len() - k,
{
    if k < records.len() {
        let shorter = records.drop_last();
        assert(shorter.take(k as int) =~= records.take(k as int));
        lemma_assemble_err(d, shorter, k);
    } else {
        assert(records.take(k as int) =~= records);
    }
}

proof fn lemma_directory(d: Seq<u8>, records: Seq<TableRecord>)
    requires
        crate::tape::extent_many::<TableRecord>(d, 12, records.len()) is Ok,
        crate::tape::parses_many::<TableRecord>(d, 12, records),
        records.len() == u16_at(d, 4),
    ensures
        records == directory_records(d),
{
    assert forall|i: int| 0 <= i <= records.len() implies #[trigger] crate::tape::extent_many::<
        TableRecord,
    >(d, 12, i as nat) == Ok::<int, Error>(12 + 16 * i) by {
        lemma_directory_extent(d, i as nat, records.len());
    }
    assert forall|i: int| 0 <= i < records.len() implies records[i] == directory_records(d)[i] by {
        assert(TableRecord::parses(
            d,
            crate::tape::extent_many::<TableRecord>(d, 12, i as nat)->Ok_0,
            records[i],
        ));
    }
    assert(records =~= directory_records(d));
}

proof fn lemma_directory_extent(d: Seq<u8>, i: nat, n: nat)
    requires
        i <= n,
        crate::tape::extent_many::<TableRecord>(d, 12, n) is Ok,
    ensures
        crate::tape::extent_many::<TableRecord>(d, 12, i) == Ok::<int, Error>(12 + 16 * i as int),
    decreases n,
{
    if i < n {
        lemma_directory_extent(d, i, (n - 1) as nat);
    } else if i > 0 {
        lemma_directory_extent(d, (i - 1) as nat, (n - 1) as nat);
    }
}

/// The index of the first record with `tag` from index `k` on, if any.
pub open spec fn first_with(records: Seq<TableRecord>, tag: u32, k: int) -> Option<int>
    decreases records.len() - k,
{
    if !(0 <= k < records.len()) {
        None
    } else if records[k].tag == tag {
        Some(k)
    } else {
        first_with(records, tag, k + 1)
    }
}

proof fn lemma_first_with(records: Seq<TableRecord>, tag: u32, k: int)
    ensures
        first_with(records, tag, k) matches Some(i) ==> k <= i < records.len() && records[i].tag
            == tag,
    decreases records.len() - k,
{
    if 0 <= k < records.len() && records[k].tag != tag {
        lemma_first_with(records, tag, k + 1);
    }
}

/// The error met verifying and then decoding, under `parameter`, the table that `r`
/// locates, if any.
pub open spec fn lookup_fault<P, T: Walue<P>>(d: Seq<u8>, r: TableRecord, parameter: P) -> Option<
    Error,
> {
    if !table_fits(d, r) {
        Some(Error::Io)
    } else if !sums_to(summed_words(d, r), r.checksum) {
        Some(Error::Corrupted)
    } else {
        fault_given_at::<P, T>(d, 0, r.offset as int, parameter)
    }
}

/// The error met verifying and then decoding the table that `r` locates, if any.
pub open spec fn lookup_fault_plain<T: Value>(d: Seq<u8>, r: TableRecord) -> Option<Error> {
    if !table_fits(d, r) {
        Some(Error::Io)
    } else if !sums_to(summed_words(d, r), r.checksum) {
        Some(Error::Corrupted)
    } else {
        fault_at::<T>(d, 0, r.offset as int)
    }
}

impl Font {
    /// The index of the first record with `tag`.
    fn find(&self, tag: u32) -> (r: Option<usize>)
        ensures
            r matches Some(j) ==> j < self.offset_table.records@.len() && first_with(
                self.offset_table.records@,
                tag,
                0,
            ) == Some(j as int),
            r is None ==> first_with(self.offset_table.records@, tag, 0) is None,
    {
        proof {
            lemma_first_with(self.offset_table.records@, tag, 0);
        }
        let records = &self.offset_table.records;
        let mut i: usize = 0;
        while i < records.len()
            invariant
                i <= records@.len(),
                records@ == self.offset_table.records@,
                first_with(records@, tag, 0) == first_with(records@, tag, i as int),
            decreases records@.len() - i,
        {
            if records[i].tag == tag {
                return Some(i);
            }
            i = i + 1;
        }
        None
    }

    /// Finds the first table with `tag`, verifies its checksum, and decodes it;
    /// `None` where no record has the tag.
    pub fn take<T: Value>(&self, tape: &mut Tape, tag: u32) -> (r: Result<Option<T>, Error>)
        requires
            old(tape).wf(),
        ensures
            final(tape).wf(),
            final(tape).data() == old(tape).data(),
            final(tape).pos() == old(tape).pos(),
            match first_with(self.offset_table.records@, tag, 0) {
                None => r == Ok::<Option<T>, Error>(None),
                Some(i) => match lookup_fault_plain::<T>(
                    old(tape).data(),
                    self.offset_table.records@[i],
                ) {
                    Some(e) => r == Err::<Option<T>, Error>(e),
                    None => r matches Ok(Some(v)) && T::parses(
                        old(tape).data(),
                        self.offset_table.records@[i].offset as int,
                        v,
                    ),
                },
            },
    {
        match self.find(tag) {
            None => Ok(None),
            Some(i) => {
                let record = self.offset_table.records[i];
                if !Font::verify(tape, record)? {
                    return Err(Error::Corrupted);
                }
                Ok(Some(tape.read_at(0, record.offset)?))
            },
        }
    }

    /// Finds the first table with `tag`, verifies its checksum, and decodes it under
    /// `parameter`; `None` where no record has the tag.
    pub fn take_given<P, T: Walue<P>>(&self, tape: &mut Tape, tag: u32, parameter: P) -> (r:
        Result<Option<T>, Error>)
        requires
            old(tape).wf(),
        ensures
            final(tape).wf(),
            final(tape).data() == old(tape).data(),
            final(tape).pos() == old(tape).pos(),
            match first_with(self.offset_table.records@, tag, 0) {
                None => r == Ok::<Option<T>, Error>(None),
                Some(i) => match lookup_fault::<P, T>(
                    old(tape).data(),
                    self.offset_table.records@[i],
                    parameter,
                ) {
                    Some(e) => r == Err::<Option<T>, Error>(e),
                    None => r matches Ok(Some(v)) && T::parses_given(
                        old(tape).data(),
                        self.offset_table.records@[i].offset as int,
                        parameter,
                        v,
                    ),
                },
            },
    {
        match self.find(tag) {
            None => Ok(None),
            Some(i) => {
                let record = self.offset_table.records[i];
                if !Font::verify(tape, record)? {
                    return Err(Error::Corrupted);
                }
                Ok(Some(tape.read_given_at(0, record.offset, parameter)?))
            },
        }
    }

    /// Verifies the checksum of the table that `record` locates.
    fn verify(tape: &mut Tape, record: TableRecord) -> (r: Result<bool, Error>)
        requires
            old(tape).wf(),
        ensures
            final(tape).wf(),
            final(tape).data() == old(tape).data(),
            final(tape).pos() == old(tape).pos(),
            !table_fits(old(tape).data(), record) ==> r == Err::<bool, Error>(Error::Io),
            table_fits(old(tape).data(), record) ==> r == Ok::<bool, Error>(
                sums_to(summed_words(old(tape).data(), record), record.checksum),
            ),
    {
        let ghost d = tape.data();
        let ghost words = table_words(d, record);
        if record.tag == FONT_HEADER {
            let adjusted = |i: usize, w: u32| -> (v: u32)
                ensures
                    v == if i == 2 {
                        0
                    } else {
                        w
                    },
                {
                    if i == 2 {
                        0
                    } else {
                        w
                    }
                };
            let r = record.check(tape, adjusted);
            proof {
                if table_fits(d, record) {
                    let t = choose|t: Seq<u32>|
                        #[trigger] crate::directory::processed(adjusted, words, t) && r->Ok_0
                            == sums_to(t, record.checksum);
                    assert forall|i: int| 0 <= i < words.len() implies t[i] == summed_words(
                        d,
                        record,
                    )[i] by {
                        assert(adjusted.ensures((i as usize, words[i]), t[i]));
                    }
                    assert(t =~= summed_words(d, record));
                }
            }
            r
        } else {
            let identity = |i: usize, w: u32| -> (v: u32)
                ensures
                    v == w,
                { w };
            let r = record.check(tape, identity);
            proof {
                if table_fits(d, record) {
                    let t = choose|t: Seq<u32>|
                        #[trigger] crate::directory::processed(identity, words, t) && r->Ok_0
                            == sums_to(t, record.checksum);
                    assert forall|i: int| 0 <= i < words.len() implies t[i] == words[i] by {
                        assert(identity.ensures((i as usize, words[i]), t[i]));
                    }
                    assert(t =~= words);
                }
            }
            r
        }
    }

    /// Takes one record: passes over it, or verifies it and decodes its table into
    /// the matching slot.
    #[verifier::rlimit(60)]
    fn take_record(&mut self, tape: &mut Tape, record: TableRecord, slots: Ghost<Slots>) -> (r:
        Result<(), Error>)
        requires
            old(tape).wf(),
            holds(old(tape).data(), slots@, *old(self)),
        ensures
            final(tape).wf(),
            final(tape).data() == old(tape).data(),
            final(tape).pos() == old(tape).pos(),
            final(self).offset_table == old(self).offset_table,
            match step(old(tape).data(), slots@, record) {
                Ok(s) => r is Ok && holds(old(tape).data(), s, *final(self)),
                Err(e) => r == Err::<(), Error>(e),
            },
    {
        proof {
            reveal(holds);
            reveal(step);
        }
        let tag = record.tag;
        if !(tag == CHAR_MAPPING || tag == FONT_HEADER || tag == HORIZONTAL_HEADER || tag
            == HORIZONTAL_METRICS || tag == MAX_PROFILE || tag == NAMING_TABLE || tag
            == POSTSCRIPT_INFO || tag == WINDOWS_METRICS || tag == COMPACT_FONT_SET) {
            return Ok(());
        }
        if !Font::verify(tape, record)? {
            return Err(Error::Corrupted);
        }
        if tag == HORIZONTAL_METRICS && (self.horizontal_header.is_none()
            || self.max_profile.is_none()) {
            return Ok(());
        }
        let offset = record.offset;
        if tag == CHAR_MAPPING {
            self.char_mapping = Some(tape.read_at(0, offset)?);
        } else if tag == FONT_HEADER {
            self.font_header = Some(tape.read_at(0, offset)?);
        } else if tag == HORIZONTAL_HEADER {
            self.horizontal_header = Some(tape.read_at(0, offset)?);
        } else if tag == MAX_PROFILE {
            self.max_profile = Some(tape.read_at(0, offset)?);
        } else if tag == NAMING_TABLE {
            self.naming_table = Some(tape.read_at(0, offset)?);
        } else if tag == POSTSCRIPT_INFO {
            self.postscript_info = Some(tape.read_at(0, offset)?);
        } else if tag == WINDOWS_METRICS {
            self.windows_metrics = Some(tape.read_at(0, offset)?);
        } else if tag == HORIZONTAL_METRICS {
            let metrics = match &self.horizontal_header {
                Some(header) => header.number_of_h_metrics,
                None => 0,
            };
            let glyphs = match &self.max_profile {
                Some(profile) => profile.num_glyphs(),
                None => 0,
            };
            self.horizontal_metrics = Some(
                tape.read_given_at::<(u16, u16), HorizontalMetrics>(0, offset, (metrics, glyphs))?,
            );
        } else {
            let bytes = tape.bytes(offset as u64, record.length as u64);
            self.compact_font_set = Some(bytes);
        }
        Ok(())
    }

    /// Reads a font from the cursor on: the directory, then each recognized table
    /// in processing order. The first error ends the reading.
    pub fn read(tape: &mut Tape) -> (r: Result<Font, Error>)
        requires
            old(tape).wf(),
            old(tape).pos() == 0,
        ensures
            final(tape).wf(),
            final(tape).data() == old(tape).data(),
            OffsetTable::extent(old(tape).data(), 0) matches Err(e) ==> r == Err::<Font, Error>(e),
            OffsetTable::extent(old(tape).data(), 0) is Ok ==> match assemble(
                old(tape).data(),
                processing_order(directory_records(old(tape).data())),
            ) {
                Ok(s) => r is Ok && OffsetTable::parses(old(tape).data(), 0, r->Ok_0.offset_table)
                    && holds(old(tape).data(), s, r->Ok_0),
                Err(e) => r == Err::<Font, Error>(e),
            },
    {
        let ghost d = tape.data();
        let offset_table = OffsetTable::read(tape)?;
        proof {
            lemma_directory(d, offset_table.records@);
        }
        let records = order(&offset_table.records);
        let mut font = Font {
            offset_table,
            char_mapping: None,
            font_header: None,
            horizontal_header: None,
            horizontal_metrics: None,
            max_profile: None,
            naming_table: None,
            postscript_info: None,
            windows_metrics: None,
            compact_font_set: None,
        };
        let ghost mut slots = empty_slots();
        proof {
            reveal(holds);
        }
        let mut i: usize = 0;
        while i < records.len()
            invariant
                i <= records@.len(),
                tape.wf(),
                tape.data() == d,
                d == old(tape).data(),
                records@ == processing_order(directory_records(d)),
                OffsetTable::parses(d, 0, font.offset_table),
                OffsetTable::extent(d, 0) is Ok,
                assemble(d, records@.take(i as int)) == Ok::<Slots, Error>(slots),
                holds(d, slots, font),
            decreases records@.len() - i,
        {
            assert(records@.take(i + 1).drop_last() =~= records@.take(i as int));
            let res = font.take_record(tape, records[i], Ghost(slots));
            match res {
                Ok(()) => {
                    proof {
                        slots = step(d, slots, records@[i as int])->Ok_0;
                    }
                    i = i + 1;
                },
                Err(e) => {
                    proof {
                        lemma_assemble_err(d, records@, (i + 1) as nat);
                    }
                    return Err(e);
                },
            }
        }
        assert(records@.take(i as int) =~= records@);
        Ok(font)
    }
}

impl File {
    /// Reads a font file: the container tag decides whether it holds a font that can
    /// be read, and then that font is read.
    pub fn read(tape: &mut Tape) -> (r: Result<File, Error>)
        requires
            old(tape).wf(),
            old(tape).pos() == 0,
        ensures
            final(tape).wf(),
            final(tape).data() == old(tape).data(),
            !crate::tape::fits(old(tape).data(), 0, 4) ==> r == Err::<File, Error>(Error::Io),
            crate::tape::fits(old(tape).data(), 0, 4) ==> {
                let version = u32_at(old(tape).data(), 0);
                if version == TRUETYPE_VERSION || version == POSTSCRIPT_VERSION {
                    match file_font(old(tape).data()) {
                        Ok(s) => r is Ok && r->Ok_0.fonts@.len() == 1 && OffsetTable::parses(
                            old(tape).data(),
                            0,
                            r->Ok_0.fonts@[0].offset_table,
                        ) && holds(old(tape).data(), s, r->Ok_0.fonts@[0]),
                        Err(e) => r == Err::<File, Error>(e),
                    }
                } else if version == COLLECTION_VERSION {
                    r == Err::<File, Error>(Error::Unsupported)
                } else {
                    r == Err::<File, Error>(Error::Format)
                }
            },
    {
        let version = tape.read_u32()?;
        tape.jump(0)?;
        if version == COLLECTION_VERSION {
            return Err(Error::Unsupported);
        }
        if version != TRUETYPE_VERSION && version != POSTSCRIPT_VERSION {
            return Err(Error::Format);
        }
        let font = Font::read(tape)?;
        let mut fonts = Vec::new();
        fonts.push(font);
        Ok(File { fonts })
    }
}

/// What reading the font of a file comes to: the slots it fills, or the first error,
/// the directory's included.
pub open spec fn file_font(d: Seq<u8>) -> Result<Slots, Error> {
    match OffsetTable::extent(d, 0) {
        Err(e) => Err(e),
        Ok(_) => assemble(d, processing_order(directory_records(d))),
    }
}

proof fn lemma_pass_levels(records: Seq<TableRecord>, level: u8)
    ensures
        forall|i: int|
            0 <= i < pass(records, level).len() ==> spec_priority(
                #[trigger] pass(records, level)[i].tag,
            ) == level,
    decreases records.len(),
{
    if records.len() > 0 {
        let before = pass(records.drop_last(), level);
        lemma_pass_levels(records.drop_last(), level);
        assert forall|i: int| 0 <= i < pass(records, level).len() implies spec_priority(
            #[trigger] pass(records, level)[i].tag,
        ) == level by {
            if i < before.len() {
                assert(pass(records, level)[i] == before[i]);
            }
        }
    }
}

/// The horizontal metrics are taken after every other table, wherever they stand
/// in the directory: in the processing order, nothing but horizontal metrics
/// follows a horizontal-metrics record.
pub proof fn lemma_metrics_last(records: Seq<TableRecord>)
    ensures
        forall|i: int, j: int|
            0 <= i < j < processing_order(records).len() && (#[trigger] processing_order(
                records,
            )[i]).tag == HORIZONTAL_METRICS ==> (#[trigger] processing_order(records)[j]).tag
                == HORIZONTAL_METRICS,
{
    lemma_pass_levels(records, 0);
    lemma_pass_levels(records, 1);
    let first = pass(records, 0);
    let order = processing_order(records);
    assert forall|i: int, j: int|
        0 <= i < j < order.len() && (#[trigger] order[i]).tag
            == HORIZONTAL_METRICS implies (#[trigger] order[j]).tag == HORIZONTAL_METRICS by {
        if i < first.len() {
            assert(order[i] == first[i]);
            assert(spec_priority(first[i].tag) == 0);
        }
        assert(order[j] == pass(records, 1)[j - first.len()]);
        assert(spec_priority(pass(records, 1)[j - first.len()].tag) == 1);
    }
}

/// Without a horizontal header the horizontal metrics are passed over, not an
/// error: once their checksum holds, the step that meets them changes nothing, and a font assembled from
/// records none of which is a horizontal header has no horizontal metrics.
pub proof fn lemma_metrics_need_header(d: Seq<u8>, records: Seq<TableRecord>, s: Slots, r: TableRecord)
    ensures
        r.tag == HORIZONTAL_METRICS && s.horizontal_header is None && table_fits(d, r) && sums_to(
            summed_words(d, r),
            r.checksum,
        ) ==> step(d, s, r) == Ok::<
            Slots,
            Error,
        >(s),
        (forall|i: int| 0 <= i < records.len() ==> (#[trigger] records[i]).tag != HORIZONTAL_HEADER)
            ==> (assemble(d, records) matches Ok(t) ==> t.horizontal_header is None
            && t.horizontal_metrics is None),
    decreases records.len(),
{
    reveal(step);
    if records.len() > 0 {
        let shorter = records.drop_last();
        lemma_metrics_need_header(d, shorter, s, r);
        if forall|i: int| 0 <= i < records.len() ==> (#[trigger] records[i]).tag != HORIZONTAL_HEADER {
            assert forall|i: int| 0 <= i < shorter.len() implies (#[trigger] shorter[i]).tag
                != HORIZONTAL_HEADER by {
                assert(shorter[i] == records[i]);
            }
            assert(records.last().tag != HORIZONTAL_HEADER);
        }
    }
}

proof fn lemma_pass_from(records: Seq<TableRecord>, level: u8)
    ensures
        forall|i: int|
            0 <= i < pass(records, level).len() ==> exists|j: int|
                0 <= j < records.len() && records[j] == #[trigger] pass(records, level)[i],
    decreases records.len(),
{
    if records.len() > 0 {
        let shorter = records.drop_last();
        let before = pass(shorter, level);
        lemma_pass_from(shorter, level);
        assert forall|i: int| 0 <= i < pass(records, level).len() implies exists|j: int|
            0 <= j < records.len() && records[j] == #[trigger] pass(records, level)[i] by {
            if i < before.len() {
                let j = choose|j: int| 0 <= j < shorter.len() && shorter[j] == before[i];
                assert(records[j] == pass(records, level)[i]);
            } else {
                assert(records[records.len() - 1] == pass(records, level)[i]);
            }
        }
    }
}

/// Reading a file whose directory holds no horizontal header never fills the
/// horizontal-metrics slot: where the reading succeeds, the metrics are omitted.
pub proof fn lemma_file_without_header(d: Seq<u8>)
    requires
        forall|i: int|
            0 <= i < directory_records(d).len() ==> (#[trigger] directory_records(d)[i]).tag
                != HORIZONTAL_HEADER,
    ensures
        file_font(d) matches Ok(s) ==> s.horizontal_metrics is None && s.horizontal_header is None,
{
    let records = directory_records(d);
    let order = processing_order(records);
    lemma_pass_from(records, 0);
    lemma_pass_from(records, 1);
    let first = pass(records, 0);
    assert forall|i: int| 0 <= i < order.len() implies (#[trigger] order[i]).tag
        != HORIZONTAL_HEADER by {
        if i < first.len() {
            assert(order[i] == first[i]);
        } else {
            assert(order[i] == pass(records, 1)[i - first.len()]);
        }
    }
    lemma_metrics_need_header(d, order, empty_slots(), order[0]);
}

/// In a directory of one record, lookup by tag finds that record under its own tag
/// and nothing under any other: `Font::take` and `Font::take_given` then decode the
/// one table, or answer `None`.
pub proof fn lemma_single_record(records: Seq<TableRecord>, tag: u32)
    requires
        records.len() == 1,
    ensures
        records[0].tag == tag ==> first_with(records, tag, 0) == Some(0int),
        records[0].tag != tag ==> first_with(records, tag, 0) is None,
{
    if records[0].tag != tag {
        assert(first_with(records, tag, 1) is None);
    }
}

} // verus!
