//! Value records of the glyph-positioning table: fields present as their flags say.

use vstd::prelude::*;

use crate::tape::{
    extent_many_given, fits, parses_many_given, read_many_given, u16_at, Error, Tape, Walue,
};

verus! {

/// Which fields of a value record are present.
#[derive(Clone, Copy, Debug, PartialEq, Eq, Structural)]
pub struct ValueFlags(pub u16);

/// Whether the field of bit `k` (0 to 7) is present under the flags `f`.
pub open spec fn has(f: u16, k: int) -> bool {
    if k == 0 {
        f & 0x1 != 0
    } else if k == 1 {
        f & 0x2 != 0
    } else if k == 2 {
        f & 0x4 != 0
    } else if k == 3 {
        f & 0x8 != 0
    } else if k == 4 {
        f & 0x10 != 0
    } else if k == 5 {
        f & 0x20 != 0
    } else if k == 6 {
        f & 0x40 != 0
    } else {
        f & 0x80 != 0
    }
}

/// The bytes that a present field takes.
pub open spec fn width(f: u16, k: int) -> int {
    if has(f, k) {
        2
    } else {
        0
    }
}

/// Where the field of bit `k` stands relative to the start of the record: two bytes
/// for each present field before it. `before(f, 8)` is the size of the record.
pub open spec fn before(f: u16, k: int) -> int {
    (if k > 0 { width(f, 0) } else { 0 }) + (if k > 1 { width(f, 1) } else { 0 }) + (if k > 2 {
        width(f, 2)
    } else {
        0
    }) + (if k > 3 { width(f, 3) } else { 0 }) + (if k > 4 { width(f, 4) } else { 0 }) + (if k
        > 5 {
        width(f, 5)
    } else {
        0
    }) + (if k > 6 { width(f, 6) } else { 0 }) + (if k > 7 { width(f, 7) } else { 0 })
}

/// The field of bit `k` of the record at `p`, if present.
pub open spec fn field(d: Seq<u8>, p: int, f: u16, k: int) -> Option<u16> {
    if has(f, k) {
        Some(u16_at(d, p + before(f, k)))
    } else {
        None
    }
}

/// A field read as signed.
pub open spec fn signed(o: Option<u16>) -> Option<i16> {
    match o {
        Some(v) => Some(v as i16),
        None => None,
    }
}

impl ValueFlags {
    pub fn has_x_placement(&self) -> (r: bool)
        ensures
            r == has(self.0, 0),
    {
        self.0 & 0x1 != 0
    }

    pub fn has_y_placement(&self) -> (r: bool)
        ensures
            r == has(self.0, 1),
    {
        self.0 & 0x2 != 0
    }

    pub fn has_x_advance(&self) -> (r: bool)
        ensures
            r == has(self.0, 2),
    {
        self.0 & 0x4 != 0
    }

    pub fn has_y_advance(&self) -> (r: bool)
        ensures
            r == has(self.0, 3),
    {
        self.0 & 0x8 != 0
    }

    pub fn has_device_x_placement(&self) -> (r: bool)
        ensures
            r == has(self.0, 4),
    {
        self.0 & 0x10 != 0
    }

    pub fn has_device_y_placement(&self) -> (r: bool)
        ensures
            r == has(self.0, 5),
    {
        self.0 & 0x20 != 0
    }

    pub fn has_device_x_advance(&self) -> (r: bool)
        ensures
            r == has(self.0, 6),
    {
        self.0 & 0x40 != 0
    }

    pub fn has_device_y_advance(&self) -> (r: bool)
        ensures
            r == has(self.0, 7),
    {
        self.0 & 0x80 != 0
    }

    /// Whether a reserved bit is set.
    pub fn is_invalid(&self) -> (r: bool)
        ensures
            r == (self.0 & 0xFF00 != 0),
    {
        self.0 & 0xFF00 != 0
    }
}

/// A single value record; an absent field is `None`, not zero.
#[derive(Clone, Copy, Debug, PartialEq, Eq, Structural)]
pub struct SingleValue {
    pub x_placement: Option<i16>,
    pub y_placement: Option<i16>,
    pub x_advance: Option<i16>,
    pub y_advance: Option<i16>,
    pub device_x_placement_offset: Option<u16>,
    pub device_y_placement_offset: Option<u16>,
    pub device_x_advance_offset: Option<u16>,
    pub device_y_advance_offset: Option<u16>,
}

/// A pair of value records.
#[derive(Clone, Copy, Debug, PartialEq, Eq, Structural)]
pub struct PairValue {
    pub value1: SingleValue,
    pub value2: SingleValue,
}

/// A counted set of pairs of value records.
#[derive(Clone, Debug, PartialEq, Eq)]
pub struct PairValueSet {
    pub count: u16,
    pub records: Vec<PairValue>,
}

/// Reads a word if `present`, else nothing.
fn read_optional(tape: &mut Tape, present: bool) -> (r: Result<Option<u16>, Error>)
    requires
        old(tape).wf(),
    ensures
        final(tape).wf(),
        final(tape).data() == old(tape).data(),
        !present ==> r == Ok::<Option<u16>, Error>(None) && final(tape).pos() == old(tape).pos(),
        present && fits(old(tape).data(), old(tape).pos(), 2) ==> r == Ok::<Option<u16>, Error>(
            Some(u16_at(old(tape).data(), old(tape).pos())),
        ) && final(tape).pos() == old(tape).pos() + 2,
        present && !fits(old(tape).data(), old(tape).pos(), 2) ==> r == Err::<Option<u16>, Error>(
            Error::Io,
        ),
{
    if present {
        Ok(Some(tape.read_u16()?))
    } else {
        Ok(None)
    }
}

fn as_signed(o: Option<u16>) -> (r: Option<i16>)
    ensures
        r == signed(o),
{
    match o {
        Some(v) => Some(v as i16),
        None => None,
    }
}

impl Walue<ValueFlags> for SingleValue {
    open spec fn extent_given(data: Seq<u8>, pos: int, parameter: ValueFlags) -> Result<int, Error> {
        if fits(data, pos, before(parameter.0, 8)) {
            Ok(pos + before(parameter.0, 8))
        } else {
            Err(Error::Io)
        }
    }

    open spec fn parses_given(
        data: Seq<u8>,
        pos: int,
        parameter: ValueFlags,
        value: SingleValue,
    ) -> bool {
        let f = parameter.0;
        value == SingleValue {
            x_placement: signed(field(data, pos, f, 0)),
            y_placement: signed(field(data, pos, f, 1)),
            x_advance: signed(field(data, pos, f, 2)),
            y_advance: signed(field(data, pos, f, 3)),
            device_x_placement_offset: field(data, pos, f, 4),
            device_y_placement_offset: field(data, pos, f, 5),
            device_x_advance_offset: field(data, pos, f, 6),
            device_y_advance_offset: field(data, pos, f, 7),
        }
    }

    fn read(tape: &mut Tape, parameter: ValueFlags) -> (r: Result<SingleValue, Error>) {
        let start = tape.position();
        let r = SingleValue::decode(tape, parameter);
        if r.is_err() {
            let _ = tape.jump(start);
        }
        r
    }
}

impl SingleValue {
    fn decode(tape: &mut Tape, parameter: ValueFlags) -> (r: Result<SingleValue, Error>)
        requires
            old(tape).wf(),
        ensures
            final(tape).wf(),
            final(tape).data() == old(tape).data(),
            crate::tape::outcome(
                r,
                <SingleValue as Walue<ValueFlags>>::extent_given(old(tape).data(), old(tape).pos(), parameter),
                final(tape).pos(),
            ),
            r is Ok ==> <SingleValue as Walue<ValueFlags>>::parses_given(
                old(tape).data(),
                old(tape).pos(),
                parameter,
                r->Ok_0,
            ),
    {
        let x_placement = as_signed(read_optional(tape, parameter.has_x_placement())?);
        let y_placement = as_signed(read_optional(tape, parameter.has_y_placement())?);
        let x_advance = as_signed(read_optional(tape, parameter.has_x_advance())?);
        let y_advance = as_signed(read_optional(tape, parameter.has_y_advance())?);
        let device_x_placement_offset = read_optional(tape, parameter.has_device_x_placement())?;
        let device_y_placement_offset = read_optional(tape, parameter.has_device_y_placement())?;
        let device_x_advance_offset = read_optional(tape, parameter.has_device_x_advance())?;
        let device_y_advance_offset = read_optional(tape, parameter.has_device_y_advance())?;
        Ok(
            SingleValue {
                x_placement,
                y_placement,
                x_advance,
                y_advance,
                device_x_placement_offset,
                device_y_placement_offset,
                device_x_advance_offset,
                device_y_advance_offset,
            },
        )
    }
}

impl Walue<(ValueFlags, ValueFlags)> for PairValue {
    open spec fn extent_given(data: Seq<u8>, pos: int, parameter: (ValueFlags, ValueFlags)) -> Result<
        int,
        Error,
    > {
        match SingleValue::extent_given(data, pos, parameter.0) {
            Ok(q) => SingleValue::extent_given(data, q, parameter.1),
            Err(e) => Err(e),
        }
    }

    open spec fn parses_given(
        data: Seq<u8>,
        pos: int,
        parameter: (ValueFlags, ValueFlags),
        value: PairValue,
    ) -> bool {
        &&& SingleValue::parses_given(data, pos, parameter.0, value.value1)
        &&& SingleValue::parses_given(
            data,
            pos + before((parameter.0).0, 8),
            parameter.1,
            value.value2,
        )
    }

    fn read(tape: &mut Tape, parameter: (ValueFlags, ValueFlags)) -> (r: Result<PairValue, Error>) {
        let start = tape.position();
        let r = PairValue::decode(tape, parameter);
        if r.is_err() {
            let _ = tape.jump(start);
        }
        r
    }
}

impl PairValue {
    fn decode(tape: &mut Tape, parameter: (ValueFlags, ValueFlags)) -> (r: Result<PairValue, Error>)
        requires
            old(tape).wf(),
        ensures
            final(tape).wf(),
            final(tape).data() == old(tape).data(),
            crate::tape::outcome(
                r,
                <PairValue as Walue<(ValueFlags, ValueFlags)>>::extent_given(old(tape).data(), old(tape).pos(), parameter),
                final(tape).pos(),
            ),
            r is Ok ==> <PairValue as Walue<(ValueFlags, ValueFlags)>>::parses_given(
                old(tape).data(),
                old(tape).pos(),
                parameter,
                r->Ok_0,
            ),
    {
        let value1 = SingleValue::read(tape, parameter.0)?;
        let value2 = SingleValue::read(tape, parameter.1)?;
        Ok(PairValue { value1, value2 })
    }
}

impl Walue<(ValueFlags, ValueFlags)> for PairValueSet {
    open spec fn extent_given(data: Seq<u8>, pos: int, parameter: (ValueFlags, ValueFlags)) -> Result<
        int,
        Error,
    > {
        if fits(data, pos, 2) {
            extent_many_given::<(ValueFlags, ValueFlags), PairValue>(
                data,
                pos + 2,
                u16_at(data, pos) as nat,
                parameter,
            )
        } else {
            Err(Error::Io)
        }
    }

    open spec fn parses_given(
        data: Seq<u8>,
        pos: int,
        parameter: (ValueFlags, ValueFlags),
        value: PairValueSet,
    ) -> bool {
        &&& value.count == u16_at(data, pos)
        &&& value.records@.len() == value.count
        &&& parses_many_given::<(ValueFlags, ValueFlags), PairValue>(
            data,
            pos + 2,
            parameter,
            value.records@,
        )
    }

    fn read(tape: &mut Tape, parameter: (ValueFlags, ValueFlags)) -> (r: Result<PairValueSet, Error>) {
        let start = tape.position();
        let r = PairValueSet::decode(tape, parameter);
        if r.is_err() {
            let _ = tape.jump(start);
        }
        r
    }
}

impl PairValueSet {
    fn decode(tape: &mut Tape, parameter: (ValueFlags, ValueFlags)) -> (r: Result<PairValueSet, Error>)
        requires
            old(tape).wf(),
        ensures
            final(tape).wf(),
            final(tape).data() == old(tape).data(),
            crate::tape::outcome(
                r,
                <PairValueSet as Walue<(ValueFlags, ValueFlags)>>::extent_given(old(tape).data(), old(tape).pos(), parameter),
                final(tape).pos(),
            ),
            r is Ok ==> <PairValueSet as Walue<(ValueFlags, ValueFlags)>>::parses_given(
                old(tape).data(),
                old(tape).pos(),
                parameter,
                r->Ok_0,
            ),
    {
        let count = tape.read_u16()?;
        let records = read_many_given(tape, count as usize, parameter)?;
        Ok(PairValueSet { count, records })
    }
}

/// Flags with only the x-advance bit set give a record of two bytes: the x advance
/// is present and read from those bytes, the seven other fields are absent.
pub proof fn lemma_x_advance_only(d: Seq<u8>, p: int, v: SingleValue)
    requires
        fits(d, p, 2),
    ensures
        SingleValue::extent_given(d, p, ValueFlags(0x4)) == Ok::<int, Error>(p + 2),
        SingleValue::parses_given(d, p, ValueFlags(0x4), v) ==> v == (SingleValue {
            x_placement: None,
            y_placement: None,
            x_advance: Some(u16_at(d, p) as i16),
            y_advance: None,
            device_x_placement_offset: None,
            device_y_placement_offset: None,
            device_x_advance_offset: None,
            device_y_advance_offset: None,
        }),
{
    assert(0x4u16 & 0x1 == 0) by (bit_vector);
    assert(0x4u16 & 0x2 == 0) by (bit_vector);
    assert(0x4u16 & 0x4 != 0) by (bit_vector);
    assert(0x4u16 & 0x8 == 0) by (bit_vector);
    assert(0x4u16 & 0x10 == 0) by (bit_vector);
    assert(0x4u16 & 0x20 == 0) by (bit_vector);
    assert(0x4u16 & 0x40 == 0) by (bit_vector);
    assert(0x4u16 & 0x80 == 0) by (bit_vector);
}

} // verus!
