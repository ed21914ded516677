//! The feature list shared by the layout tables.

use vstd::prelude::*;

use crate::tape::{
    extent_many, fault_each_at, fits, parses_each_at, parses_many, read_each_at, read_many,
    read_u16s, u16_at, u16s_at, u32_at, Error, Tape, Value,
};

verus! {

/// A feature list: a header for each feature, and each feature's record.
#[derive(Clone, Debug, PartialEq, Eq)]
pub struct Features {
    pub count: u16,
    pub headers: Vec<Header>,
    pub records: Vec<Record>,
}

/// The tag of a feature and where its record stands from the start of the list.
#[derive(Clone, Copy, Debug, PartialEq, Eq, Structural)]
pub struct Header {
    pub tag: u32,
    pub offset: u16,
}

/// A feature: the lookups it uses, and where its parameters stand, if it has any.
#[derive(Clone, Debug, PartialEq, Eq)]
pub struct Record {
    pub parameter_offset: u16,
    pub lookup_count: u16,
    pub lookup_indices: Vec<u16>,
    /// The absolute position of the parameters, whose layout depends on the feature;
    /// `None` where the parameter offset is zero.
    pub parameters: Option<u64>,
}

/// The version and size of a feature-variations table.
#[derive(Clone, Copy, Debug, PartialEq, Eq, Structural)]
pub struct Variations {
    pub major_version: u16,
    pub minor_version: u16,
    pub count: u32,
}

impl Value for Header {
    open spec fn extent(data: Seq<u8>, pos: int) -> Result<int, Error> {
        if fits(data, pos, 6) {
            Ok(pos + 6)
        } else {
            Err(Error::Io)
        }
    }

    open spec fn parses(data: Seq<u8>, pos: int, value: Header) -> bool {
        value == Header { tag: u32_at(data, pos), offset: u16_at(data, pos + 4) }
    }

    fn read(tape: &mut Tape) -> (r: Result<Header, Error>) {
        let tag = tape.read_u32()?;
        let offset = tape.read_u16()?;
        Ok(Header { tag, offset })
    }
}

impl Value for Variations {
    open spec fn extent(data: Seq<u8>, pos: int) -> Result<int, Error> {
        if fits(data, pos, 8) {
            Ok(pos + 8)
        } else {
            Err(Error::Io)
        }
    }

    open spec fn parses(data: Seq<u8>, pos: int, value: Variations) -> bool {
        value == Variations {
            major_version: u16_at(data, pos),
            minor_version: u16_at(data, pos + 2),
            count: u32_at(data, pos + 4),
        }
    }

    fn read(tape: &mut Tape) -> (r: Result<Variations, Error>) {
        let major_version = tape.read_u16()?;
        let minor_version = tape.read_u16()?;
        let count = tape.read_u32()?;
        Ok(Variations { major_version, minor_version, count })
    }
}

impl Value for Record {
    open spec fn extent(data: Seq<u8>, pos: int) -> Result<int, Error> {
        let offset = u16_at(data, pos);
        if !fits(data, pos, 4) || !fits(data, pos + 4, 2 * u16_at(data, pos + 2)) {
            Err(Error::Io)
        } else if offset != 0 && pos + offset > data.len() {
            Err(Error::Io)
        } else {
            Ok(pos + 4 + 2 * u16_at(data, pos + 2))
        }
    }

    open spec fn parses(data: Seq<u8>, pos: int, value: Record) -> bool {
        &&& value.parameter_offset == u16_at(data, pos)
        &&& value.lookup_count == u16_at(data, pos + 2)
        &&& value.lookup_indices@ == u16s_at(data, pos + 4, value.lookup_count as nat)
        &&& value.parameters == if value.parameter_offset == 0 {
            None::<u64>
        } else {
            Some((pos + value.parameter_offset) as u64)
        }
    }

    fn read(tape: &mut Tape) -> (r: Result<Record, Error>) {
        let position = tape.position();
        let parameter_offset = tape.read_u16()?;
        let lookup_count = tape.read_u16()?;
        let lookup_indices = read_u16s(tape, lookup_count as usize)?;
        let parameters = if parameter_offset == 0 {
            None
        } else if parameter_offset as u64 > tape.len() - position {
            return Err(Error::Io);
        } else {
            Some(position + parameter_offset as u64)
        };
        Ok(Record { parameter_offset, lookup_count, lookup_indices, parameters })
    }
}

/// The record offsets of the feature list at `p`, taken from its headers.
pub open spec fn feature_offsets(d: Seq<u8>, p: int) -> Seq<u16> {
    Seq::new(u16_at(d, p) as nat, |i: int| u16_at(d, p + 6 + 6 * i))
}

proof fn lemma_header_extent(d: Seq<u8>, p: int, i: nat, n: nat)
    requires
        i <= n,
        extent_many::<Header>(d, p, n) is Ok,
    ensures
        extent_many::<Header>(d, p, i) == Ok::<int, Error>(p + 6 * i),
    decreases n,
{
    if i < n {
        lemma_header_extent(d, p, i, (n - 1) as nat);
    } else if i > 0 {
        lemma_header_extent(d, p, (i - 1) as nat, (n - 1) as nat);
    }
}

/// Decoded headers stand where their index puts them.
proof fn lemma_headers_closed(d: Seq<u8>, p: int, headers: Seq<Header>)
    requires
        extent_many::<Header>(d, p, headers.len()) is Ok,
        parses_many::<Header>(d, p, headers),
    ensures
        forall|i: int| 0 <= i < headers.len() ==> (#[trigger] headers[i]).offset == u16_at(d, p + 4 + 6 * i),
{
    assert forall|i: int| 0 <= i < headers.len() implies (#[trigger] headers[i]).offset == u16_at(
        d,
        p + 4 + 6 * i,
    ) by {
        lemma_header_extent(d, p, i as nat, headers.len());
        assert(Header::parses(d, extent_many::<Header>(d, p, i as nat)->Ok_0, headers[i]));
    }
}

impl Value for Features {
    open spec fn extent(data: Seq<u8>, pos: int) -> Result<int, Error> {
        if !fits(data, pos, 2) {
            Err(Error::Io)
        } else {
            match extent_many::<Header>(data, pos + 2, u16_at(data, pos) as nat) {
                Err(e) => Err(e),
                Ok(end) => match fault_each_at::<Record>(data, pos, feature_offsets(data, pos)) {
                    Some(e) => Err(e),
                    None => Ok(end),
                },
            }
        }
    }

    open spec fn parses(data: Seq<u8>, pos: int, value: Features) -> bool {
        &&& value.count == u16_at(data, pos)
        &&& value.headers@.len() == value.count
        &&& parses_many::<Header>(data, pos + 2, value.headers@)
        &&& parses_each_at::<Record>(data, pos, feature_offsets(data, pos), value.records@)
    }

    fn read(tape: &mut Tape) -> (r: Result<Features, Error>) {
        let ghost d = tape.data();
        let position = tape.position();
        let count = tape.read_u16()?;
        let headers: Vec<Header> = read_many(tape, count as usize)?;
        proof {
            lemma_headers_closed(d, position + 2, headers@);
        }
        let mut offsets: Vec<u16> = Vec::new();
        let mut i: usize = 0;
        while i < headers.len()
            invariant
                i <= headers@.len(),
                headers@.len() == count,
                count == u16_at(d, position as int),
                forall|k: int|
                    0 <= k < headers@.len() ==> (#[trigger] headers@[k]).offset == u16_at(
                        d,
                        position + 6 + 6 * k,
                    ),
                offsets@ == feature_offsets(d, position as int).take(i as int),
            decreases headers@.len() - i,
        {
            offsets.push(headers[i].offset);
            i = i + 1;
            assert(offsets@ =~= feature_offsets(d, position as int).take(i as int));
        }
        assert(offsets@ =~= feature_offsets(d, position as int));
        let records = read_each_at(tape, position, &offsets)?;
        Ok(Features { count, headers, records })
    }
}

} // verus!
