//! Coverage tables and the lookup list shared by the layout tables.

use vstd::prelude::*;

use crate::tape::{
    extent_many, fault_at, fault_each_at, fault_each_given_at, fits, parses_each_at,
    parses_each_given_at, parses_many, read_each_at, read_each_given_at, read_many, read_u16s,
    u16_at, u16s_at, Error, Tape, Value, Walue,
};

verus! {

/// A range of glyphs in a coverage table of format 2.
#[derive(Clone, Copy, Debug, PartialEq, Eq, Structural)]
pub struct CoverageRange {
    pub start: u16,
    pub end: u16,
    pub index: u16,
}

/// The set of glyphs that a layout rule applies to.
#[derive(Clone, Debug, PartialEq, Eq)]
pub enum Coverage {
    /// An explicit list of glyphs.
    Format1(Vec<u16>),
    /// A list of ranges of glyphs.
    Format2(Vec<CoverageRange>),
}

impl Value for CoverageRange {
    open spec fn extent(data: Seq<u8>, pos: int) -> Result<int, Error> {
        if fits(data, pos, 6) {
            Ok(pos + 6)
        } else {
            Err(Error::Io)
        }
    }

    open spec fn parses(data: Seq<u8>, pos: int, value: CoverageRange) -> bool {
        value == CoverageRange {
            start: u16_at(data, pos),
            end: u16_at(data, pos + 2),
            index: u16_at(data, pos + 4),
        }
    }

    fn read(tape: &mut Tape) -> (r: Result<CoverageRange, Error>) {
        let start = tape.read_u16()?;
        let end = tape.read_u16()?;
        let index = tape.read_u16()?;
        Ok(CoverageRange { start, end, index })
    }
}

impl Value for Coverage {
    open spec fn extent(data: Seq<u8>, pos: int) -> Result<int, Error> {
        if !fits(data, pos, 4) {
            Err(Error::Io)
        } else if u16_at(data, pos) == 1 {
            if fits(data, pos + 4, 2 * u16_at(data, pos + 2)) {
                Ok(pos + 4 + 2 * u16_at(data, pos + 2))
            } else {
                Err(Error::Io)
            }
        } else if u16_at(data, pos) == 2 {
            extent_many::<CoverageRange>(data, pos + 4, u16_at(data, pos + 2) as nat)
        } else {
            Err(Error::Malformed)
        }
    }

    open spec fn parses(data: Seq<u8>, pos: int, value: Coverage) -> bool {
        match value {
            Coverage::Format1(glyphs) => u16_at(data, pos) == 1 && glyphs@ == u16s_at(
                data,
                pos + 4,
                u16_at(data, pos + 2) as nat,
            ),
            Coverage::Format2(ranges) => u16_at(data, pos) == 2 && ranges@.len() == u16_at(
                data,
                pos + 2,
            ) && parses_many::<CoverageRange>(data, pos + 4, ranges@),
        }
    }

    fn read(tape: &mut Tape) -> (r: Result<Coverage, Error>) {
        let format = tape.read_u16()?;
        let count = tape.read_u16()?;
        if format == 1 {
            Ok(Coverage::Format1(read_u16s(tape, count as usize)?))
        } else if format == 2 {
            Ok(Coverage::Format2(read_many(tape, count as usize)?))
        } else {
            Err(Error::Malformed)
        }
    }
}

/// The flags of a lookup.
#[derive(Clone, Copy, Debug, PartialEq, Eq, Structural)]
pub struct Flags(pub u16);

impl Flags {
    /// Whether a mark-filtering set follows the sub-table offsets.
    pub open spec fn spec_has_mark_filtering(self) -> bool {
        self.0 & 0x10 != 0
    }

    pub fn is_right_to_left(&self) -> (r: bool)
        ensures
            r == (self.0 & 0x1 != 0),
    {
        self.0 & 0x1 != 0
    }

    pub fn should_ignore_base_glyphs(&self) -> (r: bool)
        ensures
            r == (self.0 & 0x2 != 0),
    {
        self.0 & 0x2 != 0
    }

    pub fn should_ignore_ligature(&self) -> (r: bool)
        ensures
            r == (self.0 & 0x4 != 0),
    {
        self.0 & 0x4 != 0
    }

    pub fn should_ignore_marks(&self) -> (r: bool)
        ensures
            r == (self.0 & 0x8 != 0),
    {
        self.0 & 0x8 != 0
    }

    pub fn has_mark_filtering(&self) -> (r: bool)
        ensures
            r == self.spec_has_mark_filtering(),
    {
        self.0 & 0x10 != 0
    }

    /// Whether a reserved bit is set.
    pub fn is_invalid(&self) -> (r: bool)
        ensures
            r == (self.0 & 0xE0 != 0),
    {
        self.0 & 0xE0 != 0
    }
}

/// A lookup list.
#[derive(Clone, Debug, PartialEq, Eq)]
pub struct Lookups<T> {
    pub count: u16,
    pub offsets: Vec<u16>,
    pub records: Vec<Record<T>>,
}

/// A lookup: its kind, its flags, and its sub-tables, each decoded by the kind.
#[derive(Clone, Debug, PartialEq, Eq)]
pub struct Record<T> {
    pub kind: u16,
    pub flags: Flags,
    pub table_count: u16,
    pub table_offsets: Vec<u16>,
    pub mark_filtering_set: Option<u16>,
    pub tables: Vec<T>,
}

/// Where the fixed part of a lookup that starts at `p` ends: past its
/// sub-table offsets and, when its flags say so, its mark-filtering set.
pub open spec fn record_end(d: Seq<u8>, p: int) -> int {
    let after = p + 6 + 2 * u16_at(d, p + 4);
    if Flags(u16_at(d, p + 2)).spec_has_mark_filtering() {
        after + 2
    } else {
        after
    }
}

impl<U: Walue<u16>> Value for Record<U> {
    open spec fn extent(data: Seq<u8>, pos: int) -> Result<int, Error> {
        if !fits(data, pos, 6) || record_end(data, pos) > data.len() {
            Err(Error::Io)
        } else {
            match fault_each_given_at::<u16, U>(
                data,
                pos,
                u16s_at(data, pos + 6, u16_at(data, pos + 4) as nat),
                u16_at(data, pos),
            ) {
                Some(e) => Err(e),
                None => Ok(record_end(data, pos)),
            }
        }
    }

    open spec fn parses(data: Seq<u8>, pos: int, value: Record<U>) -> bool {
        let count = u16_at(data, pos + 4);
        let flags = Flags(u16_at(data, pos + 2));
        &&& value.kind == u16_at(data, pos)
        &&& value.flags == flags
        &&& value.table_count == count
        &&& value.table_offsets@ == u16s_at(data, pos + 6, count as nat)
        &&& value.mark_filtering_set == if flags.spec_has_mark_filtering() {
            Some(u16_at(data, pos + 6 + 2 * count))
        } else {
            None::<u16>
        }
        &&& parses_each_given_at::<u16, U>(
            data,
            pos,
            value.table_offsets@,
            value.kind,
            value.tables@,
        )
    }

    fn read(tape: &mut Tape) -> (r: Result<Record<U>, Error>) {
        let position = tape.position();
        let kind = tape.read_u16()?;
        let flags = Flags(tape.read_u16()?);
        let table_count = tape.read_u16()?;
        let table_offsets = read_u16s(tape, table_count as usize)?;
        let mark_filtering_set = if flags.has_mark_filtering() {
            Some(tape.read_u16()?)
        } else {
            None
        };
        let tables = read_each_given_at(tape, position, &table_offsets, kind)?;
        Ok(Record { kind, flags, table_count, table_offsets, mark_filtering_set, tables })
    }
}

impl<U: Walue<u16>> Value for Lookups<U> {
    open spec fn extent(data: Seq<u8>, pos: int) -> Result<int, Error> {
        if !fits(data, pos, 2) || !fits(data, pos + 2, 2 * u16_at(data, pos)) {
            Err(Error::Io)
        } else {
            match fault_each_at::<Record<U>>(
                data,
                pos,
                u16s_at(data, pos + 2, u16_at(data, pos) as nat),
            ) {
                Some(e) => Err(e),
                None => Ok(pos + 2 + 2 * u16_at(data, pos)),
            }
        }
    }

    open spec fn parses(data: Seq<u8>, pos: int, value: Lookups<U>) -> bool {
        &&& value.count == u16_at(data, pos)
        &&& value.offsets@ == u16s_at(data, pos + 2, value.count as nat)
        &&& parses_each_at::<Record<U>>(data, pos, value.offsets@, value.records@)
    }

    fn read(tape: &mut Tape) -> (r: Result<Lookups<U>, Error>) {
        let position = tape.position();
        let count = tape.read_u16()?;
        let offsets = read_u16s(tape, count as usize)?;
        let records = read_each_at(tape, position, &offsets)?;
        Ok(Lookups { count, offsets, records })
    }
}

} // verus!
