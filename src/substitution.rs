//! The sub-tables of the glyph-substitution table, chosen by the kind of their lookup.

use vstd::prelude::*;

use crate::layout::Coverage;
use crate::tape::{
    fault_at, fault_each_at, fits, parses_each_at, read_each_at, read_u16s, u16_at, u16s_at, Error,
    Tape, Value, Walue,
};

verus! {

/// A sub-table of the glyph-substitution table.
#[derive(Clone, Debug, PartialEq, Eq)]
pub enum Table {
    SingleSubstibution(SingleSubstibution),
    MultipleSubstibution(MultipleSubstibution),
    AlternateSubstibution(AlternateSubstibution),
    LigatureSubstibution(LigatureSubstibution),
    ContextSubstibution(ContextSubstibution),
    ChainedContextSubstibution(ChainedContextSubstibution),
    ExtensionSubstibution(ExtensionSubstibution),
    ReverseChainedContextSubstibution(ReverseChainedContextSubstibution),
}

/// A table for substituting one glyph with one glyph.
#[derive(Clone, Debug, PartialEq, Eq)]
pub enum SingleSubstibution {
    Format1(SingleSubstibution1),
    Format2(SingleSubstibution2),
}

/// One delta added to every covered glyph.
#[derive(Clone, Debug, PartialEq, Eq)]
pub struct SingleSubstibution1 {
    pub format: u16,
    pub coverage_offset: u16,
    pub delta_glyph_id: i16,
    pub coverage: Coverage,
}

/// One substitute for each covered glyph.
#[derive(Clone, Debug, PartialEq, Eq)]
pub struct SingleSubstibution2 {
    pub format: u16,
    pub coverage_offset: u16,
    pub glyph_count: u16,
    pub glyph_ids: Vec<u16>,
    pub coverage: Coverage,
}

/// A table for substituting one glyph with more than one glyph.
#[derive(Clone, Debug, PartialEq, Eq)]
pub struct MultipleSubstibution {
    pub format: u16,
    pub coverage_offset: u16,
    pub sequence_count: u16,
    pub sequence_offsets: Vec<u16>,
    pub coverage: Coverage,
    pub sequences: Vec<Sequence>,
}

/// A table for substituting one glyph with one of many glyphs.
#[derive(Clone, Debug, PartialEq, Eq)]
pub struct AlternateSubstibution {
    pub format: u16,
    pub coverage_offset: u16,
    pub set_count: u16,
    pub set_offsets: Vec<u16>,
    pub coverage: Coverage,
    pub sets: Vec<AlternateSet>,
}

/// A table for substituting multiple glyphs with one glyph.
#[derive(Clone, Debug, PartialEq, Eq)]
pub struct LigatureSubstibution {
    pub format: u16,
    pub coverage_offset: u16,
    pub set_count: u16,
    pub set_offsets: Vec<u16>,
    pub coverage: Coverage,
    pub sets: Vec<LigatureSet>,
}

/// A table for substituting glyphs in a context; its body is not decoded.
#[derive(Clone, Copy, Debug, PartialEq, Eq, Structural)]
pub struct ContextSubstibution {}

/// A table for substituting glyphs in a chained context; its body is not decoded.
#[derive(Clone, Copy, Debug, PartialEq, Eq, Structural)]
pub struct ChainedContextSubstibution {}

/// A table for other types of substitution; its body is not decoded.
#[derive(Clone, Copy, Debug, PartialEq, Eq, Structural)]
pub struct ExtensionSubstibution {}

/// A table for substituting glyphs in reverse order in a chained context; its body is
/// not decoded.
#[derive(Clone, Copy, Debug, PartialEq, Eq, Structural)]
pub struct ReverseChainedContextSubstibution {}

/// A sequence of glyphs.
#[derive(Clone, Debug, PartialEq, Eq)]
pub struct Sequence {
    pub count: u16,
    pub glyph_ids: Vec<u16>,
}

/// A set of alternate glyphs.
#[derive(Clone, Debug, PartialEq, Eq)]
pub struct AlternateSet {
    pub count: u16,
    pub glyph_ids: Vec<u16>,
}

/// A ligature: the glyph that replaces it and the components after the first.
#[derive(Clone, Debug, PartialEq, Eq)]
pub struct Ligature {
    pub glyph_id: u16,
    pub component_count: u16,
    pub component_ids: Vec<u16>,
}

/// A set of ligatures.
#[derive(Clone, Debug, PartialEq, Eq)]
pub struct LigatureSet {
    pub count: u16,
    pub offsets: Vec<u16>,
    pub records: Vec<Ligature>,
}

/// Where a counted list of glyphs at `p` ends: a count, then that many glyphs.
pub open spec fn counted_extent(d: Seq<u8>, p: int) -> Result<int, Error> {
    if fits(d, p, 2) && fits(d, p + 2, 2 * u16_at(d, p)) {
        Ok(p + 2 + 2 * u16_at(d, p))
    } else {
        Err(Error::Io)
    }
}

/// A count followed by that many glyphs.
fn read_counted(tape: &mut Tape) -> (r: Result<(u16, Vec<u16>), Error>)
    requires
        old(tape).wf(),
    ensures
        final(tape).wf(),
        final(tape).data() == old(tape).data(),
        crate::tape::outcome(r, counted_extent(old(tape).data(), old(tape).pos()), final(tape).pos()),
        r is Ok ==> r->Ok_0.0 == u16_at(old(tape).data(), old(tape).pos()) && r->Ok_0.1@ == u16s_at(
            old(tape).data(),
            old(tape).pos() + 2,
            r->Ok_0.0 as nat,
        ),
{
    let count = tape.read_u16()?;
    let glyph_ids = read_u16s(tape, count as usize)?;
    Ok((count, glyph_ids))
}

impl Value for Sequence {
    open spec fn extent(data: Seq<u8>, pos: int) -> Result<int, Error> {
        counted_extent(data, pos)
    }

    open spec fn parses(data: Seq<u8>, pos: int, value: Sequence) -> bool {
        value.count == u16_at(data, pos) && value.glyph_ids@ == u16s_at(
            data,
            pos + 2,
            value.count as nat,
        )
    }

    fn read(tape: &mut Tape) -> (r: Result<Sequence, Error>) {
        let (count, glyph_ids) = read_counted(tape)?;
        Ok(Sequence { count, glyph_ids })
    }
}

impl Value for AlternateSet {
    open spec fn extent(data: Seq<u8>, pos: int) -> Result<int, Error> {
        counted_extent(data, pos)
    }

    open spec fn parses(data: Seq<u8>, pos: int, value: AlternateSet) -> bool {
        value.count == u16_at(data, pos) && value.glyph_ids@ == u16s_at(
            data,
            pos + 2,
            value.count as nat,
        )
    }

    fn read(tape: &mut Tape) -> (r: Result<AlternateSet, Error>) {
        let (count, glyph_ids) = read_counted(tape)?;
        Ok(AlternateSet { count, glyph_ids })
    }
}

impl Value for Ligature {
    open spec fn extent(data: Seq<u8>, pos: int) -> Result<int, Error> {
        if !fits(data, pos, 4) {
            Err(Error::Io)
        } else if u16_at(data, pos + 2) == 0 {
            Err(Error::Malformed)
        } else if fits(data, pos + 4, 2 * (u16_at(data, pos + 2) - 1)) {
            Ok(pos + 4 + 2 * (u16_at(data, pos + 2) - 1))
        } else {
            Err(Error::Io)
        }
    }

    open spec fn parses(data: Seq<u8>, pos: int, value: Ligature) -> bool {
        &&& value.glyph_id == u16_at(data, pos)
        &&& value.component_count == u16_at(data, pos + 2)
        &&& value.component_ids@ == u16s_at(data, pos + 4, (value.component_count - 1) as nat)
    }

    fn read(tape: &mut Tape) -> (r: Result<Ligature, Error>) {
        let glyph_id = tape.read_u16()?;
        let component_count = tape.read_u16()?;
        if component_count == 0 {
            return Err(Error::Malformed);
        }
        let component_ids = read_u16s(tape, component_count as usize - 1)?;
        Ok(Ligature { glyph_id, component_count, component_ids })
    }
}

impl Value for LigatureSet {
    open spec fn extent(data: Seq<u8>, pos: int) -> Result<int, Error> {
        match counted_extent(data, pos) {
            Ok(end) => match fault_each_at::<Ligature>(
                data,
                pos,
                u16s_at(data, pos + 2, u16_at(data, pos) as nat),
            ) {
                Some(e) => Err(e),
                None => Ok(end),
            },
            Err(e) => Err(e),
        }
    }

    open spec fn parses(data: Seq<u8>, pos: int, value: LigatureSet) -> bool {
        &&& value.count == u16_at(data, pos)
        &&& value.offsets@ == u16s_at(data, pos + 2, value.count as nat)
        &&& parses_each_at::<Ligature>(data, pos, value.offsets@, value.records@)
    }

    fn read(tape: &mut Tape) -> (r: Result<LigatureSet, Error>) {
        let position = tape.position();
        let (count, offsets) = read_counted(tape)?;
        let records = read_each_at(tape, position, &offsets)?;
        Ok(LigatureSet { count, offsets, records })
    }
}

/// Where a table of sets at `p` ends: a format, a coverage offset, a count and that
/// many set offsets; the coverage and every set must decode.
pub open spec fn sets_extent<S: Value>(d: Seq<u8>, p: int) -> Result<int, Error> {
    if !fits(d, p, 6) || !fits(d, p + 6, 2 * u16_at(d, p + 4)) {
        Err(Error::Io)
    } else {
        match fault_at::<Coverage>(d, p, u16_at(d, p + 2) as int) {
            Some(e) => Err(e),
            None => match fault_each_at::<S>(d, p, u16s_at(d, p + 6, u16_at(d, p + 4) as nat)) {
                Some(e) => Err(e),
                None => Ok(p + 6 + 2 * u16_at(d, p + 4)),
            },
        }
    }
}

/// Whether the parts of a table of sets are those at `p`.
pub open spec fn sets_parse<S: Value>(
    d: Seq<u8>,
    p: int,
    format: u16,
    coverage_offset: u16,
    count: u16,
    offsets: Seq<u16>,
    coverage: Coverage,
    sets: Seq<S>,
) -> bool {
    &&& format == u16_at(d, p)
    &&& coverage_offset == u16_at(d, p + 2)
    &&& count == u16_at(d, p + 4)
    &&& offsets == u16s_at(d, p + 6, count as nat)
    &&& Coverage::parses(d, p + coverage_offset, coverage)
    &&& parses_each_at::<S>(d, p, offsets, sets)
}

/// Decodes a table of sets: the fixed fields, then the coverage and each set at
/// their offsets from where the table starts.
fn read_sets<S: Value>(tape: &mut Tape) -> (r: Result<(u16, u16, u16, Vec<u16>, Coverage, Vec<S>), Error>)
    requires
        old(tape).wf(),
    ensures
        final(tape).wf(),
        final(tape).data() == old(tape).data(),
        crate::tape::outcome(r, sets_extent::<S>(old(tape).data(), old(tape).pos()), final(tape).pos()),
        r matches Ok(x) ==> sets_parse::<S>(
            old(tape).data(),
            old(tape).pos(),
            x.0,
            x.1,
            x.2,
            x.3@,
            x.4,
            x.5@,
        ),
{
    let position = tape.position();
    let format = tape.read_u16()?;
    let coverage_offset = tape.read_u16()?;
    let count = tape.read_u16()?;
    let offsets = read_u16s(tape, count as usize)?;
    let coverage: Coverage = tape.read_at(position, coverage_offset as u32)?;
    let sets: Vec<S> = read_each_at(tape, position, &offsets)?;
    Ok((format, coverage_offset, count, offsets, coverage, sets))
}

impl Value for MultipleSubstibution {
    open spec fn extent(data: Seq<u8>, pos: int) -> Result<int, Error> {
        sets_extent::<Sequence>(data, pos)
    }

    open spec fn parses(data: Seq<u8>, pos: int, value: MultipleSubstibution) -> bool {
        sets_parse::<Sequence>(
            data,
            pos,
            value.format,
            value.coverage_offset,
            value.sequence_count,
            value.sequence_offsets@,
            value.coverage,
            value.sequences@,
        )
    }

    fn read(tape: &mut Tape) -> (r: Result<MultipleSubstibution, Error>) {
        let (format, coverage_offset, sequence_count, sequence_offsets, coverage, sequences) =
            read_sets::<Sequence>(tape)?;
        Ok(
            MultipleSubstibution {
                format,
                coverage_offset,
                sequence_count,
                sequence_offsets,
                coverage,
                sequences,
            },
        )
    }
}

impl Value for AlternateSubstibution {
    open spec fn extent(data: Seq<u8>, pos: int) -> Result<int, Error> {
        sets_extent::<AlternateSet>(data, pos)
    }

    open spec fn parses(data: Seq<u8>, pos: int, value: AlternateSubstibution) -> bool {
        sets_parse::<AlternateSet>(
            data,
            pos,
            value.format,
            value.coverage_offset,
            value.set_count,
            value.set_offsets@,
            value.coverage,
            value.sets@,
        )
    }

    fn read(tape: &mut Tape) -> (r: Result<AlternateSubstibution, Error>) {
        let (format, coverage_offset, set_count, set_offsets, coverage, sets) = read_sets::<
            AlternateSet,
        >(tape)?;
        Ok(AlternateSubstibution { format, coverage_offset, set_count, set_offsets, coverage, sets })
    }
}

impl Value for LigatureSubstibution {
    open spec fn extent(data: Seq<u8>, pos: int) -> Result<int, Error> {
        sets_extent::<LigatureSet>(data, pos)
    }

    open spec fn parses(data: Seq<u8>, pos: int, value: LigatureSubstibution) -> bool {
        sets_parse::<LigatureSet>(
            data,
            pos,
            value.format,
            value.coverage_offset,
            value.set_count,
            value.set_offsets@,
            value.coverage,
            value.sets@,
        )
    }

    fn read(tape: &mut Tape) -> (r: Result<LigatureSubstibution, Error>) {
        let (format, coverage_offset, set_count, set_offsets, coverage, sets) = read_sets::<
            LigatureSet,
        >(tape)?;
        Ok(LigatureSubstibution { format, coverage_offset, set_count, set_offsets, coverage, sets })
    }
}

impl Value for SingleSubstibution1 {
    open spec fn extent(data: Seq<u8>, pos: int) -> Result<int, Error> {
        if !fits(data, pos, 6) {
            Err(Error::Io)
        } else {
            match fault_at::<Coverage>(data, pos, u16_at(data, pos + 2) as int) {
                Some(e) => Err(e),
                None => Ok(pos + 6),
            }
        }
    }

    open spec fn parses(data: Seq<u8>, pos: int, value: SingleSubstibution1) -> bool {
        &&& value.format == u16_at(data, pos)
        &&& value.coverage_offset == u16_at(data, pos + 2)
        &&& value.delta_glyph_id == u16_at(data, pos + 4) as i16
        &&& Coverage::parses(data, pos + value.coverage_offset, value.coverage)
    }

    fn read(tape: &mut Tape) -> (r: Result<SingleSubstibution1, Error>) {
        let position = tape.position();
        let format = tape.read_u16()?;
        let coverage_offset = tape.read_u16()?;
        let delta_glyph_id = tape.read_u16()? as i16;
        let coverage: Coverage = tape.read_at(position, coverage_offset as u32)?;
        Ok(SingleSubstibution1 { format, coverage_offset, delta_glyph_id, coverage })
    }
}

impl Value for SingleSubstibution2 {
    open spec fn extent(data: Seq<u8>, pos: int) -> Result<int, Error> {
        if !fits(data, pos, 6) || !fits(data, pos + 6, 2 * u16_at(data, pos + 4)) {
            Err(Error::Io)
        } else {
            match fault_at::<Coverage>(data, pos, u16_at(data, pos + 2) as int) {
                Some(e) => Err(e),
                None => Ok(pos + 6 + 2 * u16_at(data, pos + 4)),
            }
        }
    }

    open spec fn parses(data: Seq<u8>, pos: int, value: SingleSubstibution2) -> bool {
        &&& value.format == u16_at(data, pos)
        &&& value.coverage_offset == u16_at(data, pos + 2)
        &&& value.glyph_count == u16_at(data, pos + 4)
        &&& value.glyph_ids@ == u16s_at(data, pos + 6, value.glyph_count as nat)
        &&& Coverage::parses(data, pos + value.coverage_offset, value.coverage)
    }

    fn read(tape: &mut Tape) -> (r: Result<SingleSubstibution2, Error>) {
        let position = tape.position();
        let format = tape.read_u16()?;
        let coverage_offset = tape.read_u16()?;
        let glyph_count = tape.read_u16()?;
        let glyph_ids = read_u16s(tape, glyph_count as usize)?;
        let coverage: Coverage = tape.read_at(position, coverage_offset as u32)?;
        Ok(SingleSubstibution2 { format, coverage_offset, glyph_count, glyph_ids, coverage })
    }
}

impl Value for SingleSubstibution {
    open spec fn extent(data: Seq<u8>, pos: int) -> Result<int, Error> {
        if !fits(data, pos, 2) {
            Err(Error::Io)
        } else if u16_at(data, pos) == 1 {
            SingleSubstibution1::extent(data, pos)
        } else if u16_at(data, pos) == 2 {
            SingleSubstibution2::extent(data, pos)
        } else {
            Err(Error::Malformed)
        }
    }

    open spec fn parses(data: Seq<u8>, pos: int, value: SingleSubstibution) -> bool {
        match value {
            SingleSubstibution::Format1(t) => u16_at(data, pos) == 1
                && SingleSubstibution1::parses(data, pos, t),
            SingleSubstibution::Format2(t) => u16_at(data, pos) == 2
                && SingleSubstibution2::parses(data, pos, t),
        }
    }

    fn read(tape: &mut Tape) -> (r: Result<SingleSubstibution, Error>) {
        let format = tape.peek::<u16>()?;
        if format == 1 {
            Ok(SingleSubstibution::Format1(SingleSubstibution1::read(tape)?))
        } else if format == 2 {
            Ok(SingleSubstibution::Format2(SingleSubstibution2::read(tape)?))
        } else {
            Err(Error::Malformed)
        }
    }
}

impl Value for ContextSubstibution {
    open spec fn extent(data: Seq<u8>, pos: int) -> Result<int, Error> {
        Ok(pos)
    }

    open spec fn parses(data: Seq<u8>, pos: int, value: ContextSubstibution) -> bool {
        true
    }

    fn read(tape: &mut Tape) -> (r: Result<ContextSubstibution, Error>) {
        Ok(ContextSubstibution {  })
    }
}

impl Value for ChainedContextSubstibution {
    open spec fn extent(data: Seq<u8>, pos: int) -> Result<int, Error> {
        Ok(pos)
    }

    open spec fn parses(data: Seq<u8>, pos: int, value: ChainedContextSubstibution) -> bool {
        true
    }

    fn read(tape: &mut Tape) -> (r: Result<ChainedContextSubstibution, Error>) {
        Ok(ChainedContextSubstibution {  })
    }
}

impl Value for ExtensionSubstibution {
    open spec fn extent(data: Seq<u8>, pos: int) -> Result<int, Error> {
        Ok(pos)
    }

    open spec fn parses(data: Seq<u8>, pos: int, value: ExtensionSubstibution) -> bool {
        true
    }

    fn read(tape: &mut Tape) -> (r: Result<ExtensionSubstibution, Error>) {
        Ok(ExtensionSubstibution {  })
    }
}

impl Value for ReverseChainedContextSubstibution {
    open spec fn extent(data: Seq<u8>, pos: int) -> Result<int, Error> {
        Ok(pos)
    }

    open spec fn parses(data: Seq<u8>, pos: int, value: ReverseChainedContextSubstibution) -> bool {
        true
    }

    fn read(tape: &mut Tape) -> (r: Result<ReverseChainedContextSubstibution, Error>) {
        Ok(ReverseChainedContextSubstibution {  })
    }
}

impl Walue<u16> for Table {
    open spec fn extent_given(data: Seq<u8>, pos: int, parameter: u16) -> Result<int, Error> {
        if parameter == 1 {
            SingleSubstibution::extent(data, pos)
        } else if parameter == 2 {
            MultipleSubstibution::extent(data, pos)
        } else if parameter == 3 {
            AlternateSubstibution::extent(data, pos)
        } else if parameter == 4 {
            LigatureSubstibution::extent(data, pos)
        } else if 5 <= parameter <= 8 {
            Ok(pos)
        } else {
            Err(Error::Malformed)
        }
    }

    open spec fn parses_given(data: Seq<u8>, pos: int, parameter: u16, value: Table) -> bool {
        match value {
            Table::SingleSubstibution(t) => parameter == 1 && SingleSubstibution::parses(
                data,
                pos,
                t,
            ),
            Table::MultipleSubstibution(t) => parameter == 2 && MultipleSubstibution::parses(
                data,
                pos,
                t,
            ),
            Table::AlternateSubstibution(t) => parameter == 3 && AlternateSubstibution::parses(
                data,
                pos,
                t,
            ),
            Table::LigatureSubstibution(t) => parameter == 4 && LigatureSubstibution::parses(
                data,
                pos,
                t,
            ),
            Table::ContextSubstibution(_) => parameter == 5,
            Table::ChainedContextSubstibution(_) => parameter == 6,
            Table::ExtensionSubstibution(_) => parameter == 7,
            Table::ReverseChainedContextSubstibution(_) => parameter == 8,
        }
    }

    fn read(tape: &mut Tape, parameter: u16) -> (r: Result<Table, Error>) {
        let start = tape.position();
        let r = Table::decode(tape, parameter);
        if r.is_err() {
            let _ = tape.jump(start);
        }
        r
    }
}

impl Table {
    fn decode(tape: &mut Tape, parameter: u16) -> (r: Result<Table, Error>)
        requires
            old(tape).wf(),
        ensures
            final(tape).wf(),
            final(tape).data() == old(tape).data(),
            crate::tape::outcome(
                r,
                <Table as Walue<u16>>::extent_given(old(tape).data(), old(tape).pos(), parameter),
                final(tape).pos(),
            ),
            r is Ok ==> <Table as Walue<u16>>::parses_given(
                old(tape).data(),
                old(tape).pos(),
                parameter,
                r->Ok_0,
            ),
    {
        match parameter {
            1 => Ok(Table::SingleSubstibution(SingleSubstibution::read(tape)?)),
            2 => Ok(Table::MultipleSubstibution(MultipleSubstibution::read(tape)?)),
            3 => Ok(Table::AlternateSubstibution(AlternateSubstibution::read(tape)?)),
            4 => Ok(Table::LigatureSubstibution(LigatureSubstibution::read(tape)?)),
            5 => Ok(Table::ContextSubstibution(ContextSubstibution::read(tape)?)),
            6 => Ok(Table::ChainedContextSubstibution(ChainedContextSubstibution::read(tape)?)),
            7 => Ok(Table::ExtensionSubstibution(ExtensionSubstibution::read(tape)?)),
            8 => Ok(
                Table::ReverseChainedContextSubstibution(
                    ReverseChainedContextSubstibution::read(tape)?,
                ),
            ),
            _ => Err(Error::Malformed),
        }
    }
}

/// An offset-relative structure resolves its offsets from where the structure
/// starts, whatever fixed fields come before the offset: the coverage of a
/// single-substitution table of either format stands at its start plus its coverage
/// offset, and so does each set of a multiple-substitution table at its start plus
/// the set's offset.
pub proof fn lemma_offsets_from_start(
    d: Seq<u8>,
    p: int,
    single: SingleSubstibution,
    multiple: MultipleSubstibution,
)
    ensures
        SingleSubstibution::parses(d, p, single) ==> match single {
            SingleSubstibution::Format1(t) => Coverage::parses(
                d,
                p + u16_at(d, p + 2),
                t.coverage,
            ),
            SingleSubstibution::Format2(t) => Coverage::parses(
                d,
                p + u16_at(d, p + 2),
                t.coverage,
            ),
        },
        MultipleSubstibution::parses(d, p, multiple) ==> Coverage::parses(
            d,
            p + u16_at(d, p + 2),
            multiple.coverage,
        ) && forall|i: int|
            0 <= i < multiple.sequences@.len() ==> #[trigger] Sequence::parses(
                d,
                p + u16_at(d, p + 6 + 2 * i),
                multiple.sequences@[i],
            ),
{
    if MultipleSubstibution::parses(d, p, multiple) {
        assert forall|i: int| 0 <= i < multiple.sequences@.len() implies #[trigger] Sequence::parses(
            d,
            p + u16_at(d, p + 6 + 2 * i),
            multiple.sequences@[i],
        ) by {
            assert(multiple.sequence_offsets@[i] == u16_at(d, p + 6 + 2 * i));
            assert(Sequence::parses(d, p + multiple.sequence_offsets@[i], multiple.sequences@[i]));
        }
    }
}

} // verus!
