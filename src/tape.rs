//! A seekable cursor over an in-memory font file, and the two decoding traits.

use vstd::prelude::*;

verus! {

/// An error raised while decoding.
#[derive(Clone, Copy, Debug, PartialEq, Eq, Structural)]
pub enum Error {
    /// A read or a seek past the end of the data.
    Io,
    /// The container format is not recognized.
    Format,
    /// The container format is recognized but not supported (font collections).
    Unsupported,
    /// A table failed its checksum.
    Corrupted,
    /// A structure breaks an internal rule (a missing sentinel, an unknown kind).
    Malformed,
}

/// The big-endian 16-bit word at `p`.
pub open spec fn u16_at(d: Seq<u8>, p: int) -> u16 {
    (d[p] as int * 256 + d[p + 1] as int) as u16
}

/// The big-endian 32-bit word at `p`.
pub open spec fn u32_at(d: Seq<u8>, p: int) -> u32 {
    (d[p] as int * 16777216 + d[p + 1] as int * 65536 + d[p + 2] as int * 256
        + d[p + 3] as int) as u32
}

/// The big-endian signed 64-bit word at `p`.
pub open spec fn i64_at(d: Seq<u8>, p: int) -> i64 {
    (u32_at(d, p) as int * 0x1_0000_0000 + u32_at(d, p + 4) as int) as i64
}

/// Whether `n` bytes starting at `p` lie inside the data.
pub open spec fn fits(d: Seq<u8>, p: int, n: int) -> bool {
    0 <= p && p + n <= d.len()
}

/// The `n` big-endian 16-bit words starting at `p`.
pub open spec fn u16s_at(d: Seq<u8>, p: int, n: nat) -> Seq<u16> {
    Seq::new(n, |i: int| u16_at(d, p + 2 * i))
}

/// The `n` big-endian 16-bit words starting at `p`, read as signed.
pub open spec fn i16s_at(d: Seq<u8>, p: int, n: nat) -> Seq<i16> {
    Seq::new(n, |i: int| u16_at(d, p + 2 * i) as i16)
}

/// The `n` big-endian 32-bit words starting at `p`.
pub open spec fn u32s_at(d: Seq<u8>, p: int, n: nat) -> Seq<u32> {
    Seq::new(n, |i: int| u32_at(d, p + 4 * i))
}

/// Whether an executable result `r`, with the cursor left at `end`, meets the
/// extent `e` of the model: success ending at its end, or its error.
pub open spec fn outcome<T>(r: Result<T, Error>, e: Result<int, Error>, end: int) -> bool {
    match e {
        Ok(x) => r is Ok && end == x,
        Err(x) => r == Err::<T, Error>(x),
    }
}

/// A value decoded without a parameter.
pub trait Value: Sized {
    /// Where the value that starts at `pos` ends, or the error that decoding it meets.
    spec fn extent(data: Seq<u8>, pos: int) -> Result<int, Error>;

    /// Whether `value` is the value that starts at `pos`.
    spec fn parses(data: Seq<u8>, pos: int, value: Self) -> bool;

    /// Decodes one value at the cursor, which moves past it.
    fn read(tape: &mut Tape) -> (r: Result<Self, Error>)
        requires
            old(tape).wf(),
        ensures
            final(tape).wf(),
            final(tape).data() == old(tape).data(),
            outcome(r, Self::extent(old(tape).data(), old(tape).pos()), final(tape).pos()),
            r is Ok ==> Self::parses(old(tape).data(), old(tape).pos(), r->Ok_0),
    ;
}

/// A value decoded given a parameter known from elsewhere (a count, flags, a kind).
pub trait Walue<P>: Sized {
    /// Where the value that starts at `pos` under `parameter` ends, or the error met.
    spec fn extent_given(data: Seq<u8>, pos: int, parameter: P) -> Result<int, Error>;

    /// Whether `value` is the value that starts at `pos` under `parameter`.
    spec fn parses_given(data: Seq<u8>, pos: int, parameter: P, value: Self) -> bool;

    /// Decodes one value at the cursor under `parameter`; the cursor moves past it, or
    /// stays where it was when decoding fails.
    fn read(tape: &mut Tape, parameter: P) -> (r: Result<Self, Error>)
        requires
            old(tape).wf(),
        ensures
            final(tape).wf(),
            final(tape).data() == old(tape).data(),
            outcome(
                r,
                Self::extent_given(old(tape).data(), old(tape).pos(), parameter),
                final(tape).pos(),
            ),
            r is Ok ==> Self::parses_given(old(tape).data(), old(tape).pos(), parameter, r->Ok_0),
            r is Err ==> final(tape).pos() == old(tape).pos(),
    ;
}

/// The error met decoding the value at `base + offset`, if any.
pub open spec fn fault_at<T: Value>(d: Seq<u8>, base: int, offset: int) -> Option<Error> {
    if base + offset <= d.len() {
        match T::extent(d, base + offset) {
            Ok(_) => None,
            Err(e) => Some(e),
        }
    } else {
        Some(Error::Io)
    }
}

/// The error met decoding the value at `base + offset` under `parameter`, if any.
pub open spec fn fault_given_at<P, T: Walue<P>>(
    d: Seq<u8>,
    base: int,
    offset: int,
    parameter: P,
) -> Option<Error> {
    if base + offset <= d.len() {
        match T::extent_given(d, base + offset, parameter) {
            Ok(_) => None,
            Err(e) => Some(e),
        }
    } else {
        Some(Error::Io)
    }
}

/// Where `n` values one after another from `p` end, or the first error met.
pub open spec fn extent_many<T: Value>(d: Seq<u8>, p: int, n: nat) -> Result<int, Error>
    decreases n,
{
    if n == 0 {
        Ok(p)
    } else {
        match extent_many::<T>(d, p, (n - 1) as nat) {
            Ok(q) => T::extent(d, q),
            Err(e) => Err(e),
        }
    }
}

/// Whether `s` holds the values one after another from `p`.
pub open spec fn parses_many<T: Value>(d: Seq<u8>, p: int, s: Seq<T>) -> bool {
    forall|i: int|
        0 <= i < s.len() ==> #[trigger] T::parses(d, extent_many::<T>(d, p, i as nat)->Ok_0, s[i])
}

/// Where `n` values under one parameter one after another from `p` end, or the first error.
pub open spec fn extent_many_given<P, T: Walue<P>>(
    d: Seq<u8>,
    p: int,
    n: nat,
    parameter: P,
) -> Result<int, Error>
    decreases n,
{
    if n == 0 {
        Ok(p)
    } else {
        match extent_many_given::<P, T>(d, p, (n - 1) as nat, parameter) {
            Ok(q) => T::extent_given(d, q, parameter),
            Err(e) => Err(e),
        }
    }
}

/// Whether `s` holds the values under `parameter` one after another from `p`.
pub open spec fn parses_many_given<P, T: Walue<P>>(
    d: Seq<u8>,
    p: int,
    parameter: P,
    s: Seq<T>,
) -> bool {
    forall|i: int|
        0 <= i < s.len() ==> #[trigger] T::parses_given(
            d,
            extent_many_given::<P, T>(d, p, i as nat, parameter)->Ok_0,
            parameter,
            s[i],
        )
}

/// The first error met decoding one value at each offset from `base`, if any.
pub open spec fn fault_each_at<T: Value>(d: Seq<u8>, base: int, offsets: Seq<u16>) -> Option<Error>
    decreases offsets.len(),
{
    if offsets.len() == 0 {
        None
    } else {
        match fault_each_at::<T>(d, base, offsets.drop_last()) {
            Some(e) => Some(e),
            None => fault_at::<T>(d, base, offsets.last() as int),
        }
    }
}

/// Whether `s` holds one value at each offset from `base`.
pub open spec fn parses_each_at<T: Value>(d: Seq<u8>, base: int, offsets: Seq<u16>, s: Seq<T>) -> bool {
    s.len() == offsets.len() && forall|i: int|
        0 <= i < s.len() ==> #[trigger] T::parses(d, base + offsets[i], s[i])
}

/// The first error met decoding one value under `parameter` at each offset from `base`.
pub open spec fn fault_each_given_at<P, T: Walue<P>>(
    d: Seq<u8>,
    base: int,
    offsets: Seq<u16>,
    parameter: P,
) -> Option<Error>
    decreases offsets.len(),
{
    if offsets.len() == 0 {
        None
    } else {
        match fault_each_given_at::<P, T>(d, base, offsets.drop_last(), parameter) {
            Some(e) => Some(e),
            None => fault_given_at::<P, T>(d, base, offsets.last() as int, parameter),
        }
    }
}

/// Whether `s` holds one value under `parameter` at each offset from `base`.
pub open spec fn parses_each_given_at<P, T: Walue<P>>(
    d: Seq<u8>,
    base: int,
    offsets: Seq<u16>,
    parameter: P,
    s: Seq<T>,
) -> bool {
    s.len() == offsets.len() && forall|i: int|
        0 <= i < s.len() ==> #[trigger] T::parses_given(d, base + offsets[i], parameter, s[i])
}

proof fn lemma_many_err<T: Value>(d: Seq<u8>, p: int, k: nat, n: nat)
    requires
        k <= n,
        extent_many::<T>(d, p, k) is Err,
    ensures
        extent_many::<T>(d, p, n) == extent_many::<T>(d, p, k),
    decreases n - k,
{
    if k < n {
        lemma_many_err::<T>(d, p, k, (n - 1) as nat);
    }
}

proof fn lemma_many_given_err<P, T: Walue<P>>(d: Seq<u8>, p: int, k: nat, n: nat, parameter: P)
    requires
        k <= n,
        extent_many_given::<P, T>(d, p, k, parameter) is Err,
    ensures
        extent_many_given::<P, T>(d, p, n, parameter) == extent_many_given::<P, T>(
            d,
            p,
            k,
            parameter,
        ),
    decreases n - k,
{
    if k < n {
        lemma_many_given_err::<P, T>(d, p, k, (n - 1) as nat, parameter);
    }
}

proof fn lemma_each_at_err<T: Value>(d: Seq<u8>, base: int, offsets: Seq<u16>, k: nat)
    requires
        k <= offsets.len(),
        fault_each_at::<T>(d, base, offsets.take(k as int)) is Some,
    ensures
        fault_each_at::<T>(d, base, offsets) == fault_each_at::<T>(d, base, offsets.take(k as int)),
    decreases offsets.len() - k,
{
    if k < offsets.len() {
        let shorter = offsets.drop_last();
        assert(shorter.take(k as int) =~= offsets.take(k as int));
        lemma_each_at_err::<T>(d, base, shorter, k);
    } else {
        assert(offsets.take(k as int) =~= offsets);
    }
}

proof fn lemma_each_given_at_err<P, T: Walue<P>>(
    d: Seq<u8>,
    base: int,
    offsets: Seq<u16>,
    k: nat,
    parameter: P,
)
    requires
        k <= offsets.len(),
        fault_each_given_at::<P, T>(d, base, offsets.take(k as int), parameter) is Some,
    ensures
        fault_each_given_at::<P, T>(d, base, offsets, parameter) == fault_each_given_at::<P, T>(
            d,
            base,
            offsets.take(k as int),
            parameter,
        ),
    decreases offsets.len() - k,
{
    if k < offsets.len() {
        let shorter = offsets.drop_last();
        assert(shorter.take(k as int) =~= offsets.take(k as int));
        lemma_each_given_at_err::<P, T>(d, base, shorter, k, parameter);
    } else {
        assert(offsets.take(k as int) =~= offsets);
    }
}

/// A cursor over bytes: the data and the current absolute position.
pub struct Tape {
    data: Vec<u8>,
    position: usize,
}

/// The cursor, under the name of a band of bytes.
pub type Band = Tape;

impl Tape {
    /// The bytes under the cursor.
    pub closed spec fn data(&self) -> Seq<u8> {
        self.data@
    }

    /// The current absolute position.
    pub closed spec fn pos(&self) -> int {
        self.position as int
    }

    /// The position never passes the end of the data.
    pub open spec fn wf(&self) -> bool {
        0 <= self.pos() <= self.data().len() <= usize::MAX
    }

    /// Wraps the given bytes, positioned at their start.
    pub fn new(data: Vec<u8>) -> (r: Tape)
        ensures
            r.wf(),
            r.data() == data@,
            r.pos() == 0,
    {
        let _ = data.len();
        Tape { data, position: 0 }
    }

    /// The current absolute position.
    pub fn position(&self) -> (r: u64)
        requires
            self.wf(),
        ensures
            r == self.pos(),
    {
        self.position as u64
    }

    /// The number of bytes under the cursor.
    pub fn len(&self) -> (r: u64)
        ensures
            r == self.data().len(),
    {
        self.data.len() as u64
    }

    /// Moves to an absolute position; a position past the end is refused.
    pub fn jump(&mut self, position: u64) -> (r: Result<u64, Error>)
        requires
            old(self).wf(),
        ensures
            final(self).wf(),
            final(self).data() == old(self).data(),
            position <= old(self).data().len() ==> r == Ok::<u64, Error>(position)
                && final(self).pos() == position,
            position > old(self).data().len() ==> r == Err::<u64, Error>(Error::Io)
                && final(self).pos() == old(self).pos(),
    {
        if position > self.data.len() as u64 {
            return Err(Error::Io);
        }
        self.position = position as usize;
        Ok(position)
    }

    /// Whether `n` more bytes can be read.
    fn has(&self, n: u64) -> (r: bool)
        requires
            self.wf(),
        ensures
            r == fits(self.data(), self.pos(), n as int),
    {
        n <= (self.data.len() - self.position) as u64
    }

    fn byte(&self, k: usize) -> (r: u8)
        requires
            self.wf(),
            self.pos() + k < self.data().len(),
        ensures
            r == self.data()[self.pos() + k],
    {
        self.data[self.position + k]
    }

    /// Reads one byte.
    pub fn read_u8(&mut self) -> (r: Result<u8, Error>)
        requires
            old(self).wf(),
        ensures
            final(self).wf(),
            final(self).data() == old(self).data(),
            fits(old(self).data(), old(self).pos(), 1) ==> r == Ok::<u8, Error>(old(self).data()[old(self).pos()])
                && final(self).pos() == old(self).pos() + 1,
            !fits(old(self).data(), old(self).pos(), 1) ==> r == Err::<u8, Error>(Error::Io),
    {
        if !self.has(1) {
            return Err(Error::Io);
        }
        let b = self.byte(0);
        self.position = self.position + 1;
        Ok(b)
    }

    /// Reads one big-endian 16-bit word.
    pub fn read_u16(&mut self) -> (r: Result<u16, Error>)
        requires
            old(self).wf(),
        ensures
            final(self).wf(),
            final(self).data() == old(self).data(),
            fits(old(self).data(), old(self).pos(), 2) ==> r == Ok::<u16, Error>(u16_at(old(self).data(), old(self).pos()))
                && final(self).pos() == old(self).pos() + 2,
            !fits(old(self).data(), old(self).pos(), 2) ==> r == Err::<u16, Error>(Error::Io),
    {
        if !self.has(2) {
            return Err(Error::Io);
        }
        let v = self.byte(0) as u16 * 256 + self.byte(1) as u16;
        self.position = self.position + 2;
        Ok(v)
    }

    /// Reads one big-endian 32-bit word.
    pub fn read_u32(&mut self) -> (r: Result<u32, Error>)
        requires
            old(self).wf(),
        ensures
            final(self).wf(),
            final(self).data() == old(self).data(),
            fits(old(self).data(), old(self).pos(), 4) ==> r == Ok::<u32, Error>(u32_at(old(self).data(), old(self).pos()))
                && final(self).pos() == old(self).pos() + 4,
            !fits(old(self).data(), old(self).pos(), 4) ==> r == Err::<u32, Error>(Error::Io),
    {
        if !self.has(4) {
            return Err(Error::Io);
        }
        let v = self.byte(0) as u32 * 16777216 + self.byte(1) as u32 * 65536 + self.byte(2) as u32
            * 256 + self.byte(3) as u32;
        self.position = self.position + 4;
        Ok(v)
    }

    /// Reads one big-endian signed 64-bit word.
    pub fn read_i64(&mut self) -> (r: Result<i64, Error>)
        requires
            old(self).wf(),
        ensures
            final(self).wf(),
            final(self).data() == old(self).data(),
            fits(old(self).data(), old(self).pos(), 8) ==> r == Ok::<i64, Error>(
                i64_at(old(self).data(), old(self).pos()),
            ) && final(self).pos() == old(self).pos() + 8,
            !fits(old(self).data(), old(self).pos(), 8) ==> r == Err::<i64, Error>(Error::Io),
    {
        let high = self.read_u32()?;
        let low = self.read_u32()?;
        Ok((high as u64 * 0x1_0000_0000 + low as u64) as i64)
    }

    /// A copy of `length` bytes from `start` on.
    pub fn bytes(&self, start: u64, length: u64) -> (r: Vec<u8>)
        requires
            self.wf(),
            start + length <= self.data().len(),
        ensures
            r@ == self.data().subrange(start as int, start + length),
    {
        let mut r: Vec<u8> = Vec::new();
        let mut i: usize = start as usize;
        let end = (start + length) as usize;
        while i < end
            invariant
                self.wf(),
                start <= i <= end,
                end == start + length,
                end <= self.data().len(),
                r@ == self.data().subrange(start as int, i as int),
            decreases end - i,
        {
            r.push(self.data[i]);
            i = i + 1;
            assert(r@ =~= self.data().subrange(start as int, i as int));
        }
        r
    }

    /// Runs `body` on the cursor, then puts the cursor back where it was, whether the
    /// body succeeded or failed, and hands back what the body returned: a result that
    /// the body's contract gives for the cursor as it was. The body may move the
    /// cursor anywhere but must leave the bytes under it as they were.
    pub fn stay<T, F: FnOnce(&mut Tape) -> Result<T, Error>>(&mut self, body: F) -> (r: Result<
        T,
        Error,
    >)
        requires
            old(self).wf(),
            forall|t: &mut Tape| t.wf() ==> #[trigger] body.requires((t,)),
            forall|t: &mut Tape, x: Result<T, Error>|
                #[trigger] body.ensures((t,), x) ==> final(t).data() == t.data(),
        ensures
            final(self).wf(),
            final(self).data() == old(self).data(),
            final(self).pos() == old(self).pos(),
            exists|t: &mut Tape| *t == *old(self) && #[trigger] body.ensures((t,), r),
    {
        let position = self.position;
        let r = body(self);
        self.position = position;
        r
    }

    /// Decodes a value at the cursor and comes back to where the cursor was, whether
    /// the decoding succeeded or not: a look at a discriminant ahead.
    pub fn peek<T: Value>(&mut self) -> (r: Result<T, Error>)
        requires
            old(self).wf(),
        ensures
            final(self).wf(),
            final(self).data() == old(self).data(),
            final(self).pos() == old(self).pos(),
            match T::extent(old(self).data(), old(self).pos()) {
                Ok(_) => r is Ok && T::parses(old(self).data(), old(self).pos(), r->Ok_0),
                Err(e) => r == Err::<T, Error>(e),
            },
    {
        let position = self.position;
        let r = T::read(self);
        self.position = position;
        r
    }

    /// Decodes a value at `base + offset` and comes back to where the cursor was,
    /// whether the decoding succeeded or not.
    pub fn read_at<T: Value>(&mut self, base: u64, offset: u32) -> (r: Result<T, Error>)
        requires
            old(self).wf(),
            base <= old(self).data().len(),
        ensures
            final(self).wf(),
            final(self).data() == old(self).data(),
            final(self).pos() == old(self).pos(),
            match fault_at::<T>(old(self).data(), base as int, offset as int) {
                None => r is Ok && T::parses(old(self).data(), base + offset, r->Ok_0),
                Some(e) => r == Err::<T, Error>(e),
            },
    {
        let position = self.position;
        if offset as u64 > self.data.len() as u64 - base {
            return Err(Error::Io);
        }
        self.position = (base + offset as u64) as usize;
        let r = T::read(self);
        self.position = position;
        r
    }

    /// Decodes a value under `parameter` at `base + offset` and comes back to where
    /// the cursor was, whether the decoding succeeded or not.
    pub fn read_given_at<P, T: Walue<P>>(&mut self, base: u64, offset: u32, parameter: P) -> (r:
        Result<T, Error>)
        requires
            old(self).wf(),
            base <= old(self).data().len(),
        ensures
            final(self).wf(),
            final(self).data() == old(self).data(),
            final(self).pos() == old(self).pos(),
            match fault_given_at::<P, T>(old(self).data(), base as int, offset as int, parameter) {
                None => r is Ok && T::parses_given(
                    old(self).data(),
                    base + offset,
                    parameter,
                    r->Ok_0,
                ),
                Some(e) => r == Err::<T, Error>(e),
            },
    {
        let position = self.position;
        if offset as u64 > self.data.len() as u64 - base {
            return Err(Error::Io);
        }
        self.position = (base + offset as u64) as usize;
        let r = T::read(self, parameter);
        self.position = position;
        r
    }
}

impl Value for u8 {
    open spec fn extent(data: Seq<u8>, pos: int) -> Result<int, Error> {
        if fits(data, pos, 1) {
            Ok(pos + 1)
        } else {
            Err(Error::Io)
        }
    }

    open spec fn parses(data: Seq<u8>, pos: int, value: u8) -> bool {
        value == data[pos]
    }
    fn read(tape: &mut Tape) -> (r: Result<u8, Error>) {
        tape.read_u8()
    }
}

impl Value for u16 {
    open spec fn extent(data: Seq<u8>, pos: int) -> Result<int, Error> {
        if fits(data, pos, 2) {
            Ok(pos + 2)
        } else {
            Err(Error::Io)
        }
    }

    open spec fn parses(data: Seq<u8>, pos: int, value: u16) -> bool {
        value == u16_at(data, pos)
    }
    fn read(tape: &mut Tape) -> (r: Result<u16, Error>) {
        tape.read_u16()
    }
}

impl Value for i16 {
    open spec fn extent(data: Seq<u8>, pos: int) -> Result<int, Error> {
        if fits(data, pos, 2) {
            Ok(pos + 2)
        } else {
            Err(Error::Io)
        }
    }

    open spec fn parses(data: Seq<u8>, pos: int, value: i16) -> bool {
        value == u16_at(data, pos) as i16
    }
    fn read(tape: &mut Tape) -> (r: Result<i16, Error>) {
        match tape.read_u16() {
            Ok(v) => Ok(v as i16),
            Err(e) => Err(e),
        }
    }
}

impl Value for u32 {
    open spec fn extent(data: Seq<u8>, pos: int) -> Result<int, Error> {
        if fits(data, pos, 4) {
            Ok(pos + 4)
        } else {
            Err(Error::Io)
        }
    }

    open spec fn parses(data: Seq<u8>, pos: int, value: u32) -> bool {
        value == u32_at(data, pos)
    }
    fn read(tape: &mut Tape) -> (r: Result<u32, Error>) {
        tape.read_u32()
    }
}

/// Decodes `n` values one after another.
pub fn read_many<T: Value>(tape: &mut Tape, n: usize) -> (r: Result<Vec<T>, Error>)
    requires
        old(tape).wf(),
    ensures
        final(tape).wf(),
        final(tape).data() == old(tape).data(),
        outcome(r, extent_many::<T>(old(tape).data(), old(tape).pos(), n as nat), final(tape).pos()),
        r is Ok ==> r->Ok_0@.len() == n && parses_many::<T>(
            old(tape).data(),
            old(tape).pos(),
            r->Ok_0@,
        ),
{
    let ghost d = tape.data();
    let ghost p = tape.pos();
    let mut values: Vec<T> = Vec::new();
    let mut i: usize = 0;
    while i < n
        invariant
            i <= n,
            tape.wf(),
            tape.data() == d,
            d == old(tape).data(),
            p == old(tape).pos(),
            values@.len() == i,
            extent_many::<T>(d, p, i as nat) == Ok::<int, Error>(tape.pos()),
            parses_many::<T>(d, p, values@),
        decreases n - i,
    {
        let res = T::read(tape);
        match res {
            Ok(v) => {
                values.push(v);
                i = i + 1;
                assert(parses_many::<T>(d, p, values@)) by {
                    assert forall|j: int| 0 <= j < values@.len() implies #[trigger] T::parses(
                        d,
                        extent_many::<T>(d, p, j as nat)->Ok_0,
                        values@[j],
                    ) by {
                        if j < i - 1 {
                            assert(values@[j] == values@.drop_last()[j]);
                        }
                    }
                }
            },
            Err(e) => {
                proof {
                    lemma_many_err::<T>(d, p, (i + 1) as nat, n as nat);
                }
                return Err(e);
            },
        }
    }
    Ok(values)
}

/// Decodes `n` values one after another, each under the same parameter.
pub fn read_many_given<P: Copy, T: Walue<P>>(tape: &mut Tape, n: usize, parameter: P) -> (r:
    Result<Vec<T>, Error>)
    requires
        old(tape).wf(),
    ensures
        final(tape).wf(),
        final(tape).data() == old(tape).data(),
        outcome(
            r,
            extent_many_given::<P, T>(old(tape).data(), old(tape).pos(), n as nat, parameter),
            final(tape).pos(),
        ),
        r is Ok ==> r->Ok_0@.len() == n && parses_many_given::<P, T>(
            old(tape).data(),
            old(tape).pos(),
            parameter,
            r->Ok_0@,
        ),
{
    let ghost d = tape.data();
    let ghost p = tape.pos();
    let mut values: Vec<T> = Vec::new();
    let mut i: usize = 0;
    while i < n
        invariant
            i <= n,
            tape.wf(),
            tape.data() == d,
            d == old(tape).data(),
            p == old(tape).pos(),
            values@.len() == i,
            extent_many_given::<P, T>(d, p, i as nat, parameter) == Ok::<int, Error>(tape.pos()),
            parses_many_given::<P, T>(d, p, parameter, values@),
        decreases n - i,
    {
        let res = T::read(tape, parameter);
        match res {
            Ok(v) => {
                values.push(v);
                i = i + 1;
                assert(parses_many_given::<P, T>(d, p, parameter, values@)) by {
                    assert forall|j: int| 0 <= j < values@.len() implies #[trigger] T::parses_given(
                        d,
                        extent_many_given::<P, T>(d, p, j as nat, parameter)->Ok_0,
                        parameter,
                        values@[j],
                    ) by {
                        if j < i - 1 {
                            assert(values@[j] == values@.drop_last()[j]);
                        }
                    }
                }
            },
            Err(e) => {
                proof {
                    lemma_many_given_err::<P, T>(d, p, (i + 1) as nat, n as nat, parameter);
                }
                return Err(e);
            },
        }
    }
    Ok(values)
}

/// Decodes `n` big-endian 16-bit words.
pub fn read_u16s(tape: &mut Tape, n: usize) -> (r: Result<Vec<u16>, Error>)
    requires
        old(tape).wf(),
    ensures
        final(tape).wf(),
        final(tape).data() == old(tape).data(),
        fits(old(tape).data(), old(tape).pos(), 2 * n) ==> r is Ok && r->Ok_0@ == u16s_at(
            old(tape).data(),
            old(tape).pos(),
            n as nat,
        ) && final(tape).pos() == old(tape).pos() + 2 * n,
        !fits(old(tape).data(), old(tape).pos(), 2 * n) ==> r == Err::<Vec<u16>, Error>(Error::Io),
{
    let ghost d = tape.data();
    let ghost p = tape.pos();
    if n as u64 > (tape.len() - tape.position()) / 2 {
        return Err(Error::Io);
    }
    let mut values: Vec<u16> = Vec::new();
    let mut i: usize = 0;
    while i < n
        invariant
            i <= n,
            p + 2 * n <= d.len(),
            tape.wf(),
            tape.data() == d,
            tape.pos() == p + 2 * i,
            values@ == u16s_at(d, p, i as nat),
        decreases n - i,
    {
        let v = tape.read_u16().unwrap();
        values.push(v);
        i = i + 1;
        assert(values@ =~= u16s_at(d, p, i as nat));
    }
    Ok(values)
}

/// Decodes `n` big-endian signed 16-bit words.
pub fn read_i16s(tape: &mut Tape, n: usize) -> (r: Result<Vec<i16>, Error>)
    requires
        old(tape).wf(),
    ensures
        final(tape).wf(),
        final(tape).data() == old(tape).data(),
        fits(old(tape).data(), old(tape).pos(), 2 * n) ==> r is Ok && r->Ok_0@ == i16s_at(
            old(tape).data(),
            old(tape).pos(),
            n as nat,
        ) && final(tape).pos() == old(tape).pos() + 2 * n,
        !fits(old(tape).data(), old(tape).pos(), 2 * n) ==> r == Err::<Vec<i16>, Error>(Error::Io),
{
    let ghost d = tape.data();
    let ghost p = tape.pos();
    if n as u64 > (tape.len() - tape.position()) / 2 {
        return Err(Error::Io);
    }
    let mut values: Vec<i16> = Vec::new();
    let mut i: usize = 0;
    while i < n
        invariant
            i <= n,
            p + 2 * n <= d.len(),
            tape.wf(),
            tape.data() == d,
            tape.pos() == p + 2 * i,
            values@ == i16s_at(d, p, i as nat),
        decreases n - i,
    {
        let v = tape.read_u16().unwrap();
        values.push(v as i16);
        i = i + 1;
        assert(values@ =~= i16s_at(d, p, i as nat));
    }
    Ok(values)
}

/// Reads `n` bytes.
pub fn read_bytes(tape: &mut Tape, n: usize) -> (r: Result<Vec<u8>, Error>)
    requires
        old(tape).wf(),
    ensures
        final(tape).wf(),
        final(tape).data() == old(tape).data(),
        fits(old(tape).data(), old(tape).pos(), n as int) ==> r is Ok && r->Ok_0@ == old(
            tape,
        ).data().subrange(old(tape).pos(), old(tape).pos() + n) && final(tape).pos() == old(
            tape,
        ).pos() + n,
        !fits(old(tape).data(), old(tape).pos(), n as int) ==> r == Err::<Vec<u8>, Error>(Error::Io),
{
    let position = tape.position();
    if n as u64 > tape.len() - position {
        return Err(Error::Io);
    }
    let bytes = tape.bytes(position, n as u64);
    tape.jump(position + n as u64)?;
    Ok(bytes)
}

/// Decodes one value at each offset, all measured from `base`; the cursor stays put.
pub fn read_each_at<T: Value>(tape: &mut Tape, base: u64, offsets: &Vec<u16>) -> (r: Result<
    Vec<T>,
    Error,
>)
    requires
        old(tape).wf(),
        base <= old(tape).data().len(),
    ensures
        final(tape).wf(),
        final(tape).data() == old(tape).data(),
        final(tape).pos() == old(tape).pos(),
        match fault_each_at::<T>(old(tape).data(), base as int, offsets@) {
            None => r is Ok && parses_each_at::<T>(old(tape).data(), base as int, offsets@, r->Ok_0@),
            Some(e) => r == Err::<Vec<T>, Error>(e),
        },
{
    let ghost d = tape.data();
    let ghost p = tape.pos();
    let mut values: Vec<T> = Vec::new();
    let mut i: usize = 0;
    while i < offsets.len()
        invariant
            i <= offsets@.len(),
            base <= d.len(),
            tape.wf(),
            tape.data() == d,
            tape.pos() == p,
            d == old(tape).data(),
            p == old(tape).pos(),
            fault_each_at::<T>(d, base as int, offsets@.take(i as int)) is None,
            parses_each_at::<T>(d, base as int, offsets@.take(i as int), values@),
        decreases offsets@.len() - i,
    {
        assert(offsets@.take(i + 1).drop_last() =~= offsets@.take(i as int));
        let res = tape.read_at::<T>(base, offsets[i] as u32);
        match res {
            Ok(v) => {
                values.push(v);
                i = i + 1;
                assert(parses_each_at::<T>(d, base as int, offsets@.take(i as int), values@)) by {
                    assert forall|j: int| 0 <= j < values@.len() implies #[trigger] T::parses(
                        d,
                        base + offsets@.take(i as int)[j],
                        values@[j],
                    ) by {
                        if j < i - 1 {
                            assert(values@[j] == values@.drop_last()[j]);
                            assert(offsets@.take(i as int)[j] == offsets@.take(i - 1)[j]);
                        }
                    }
                }
            },
            Err(e) => {
                proof {
                    lemma_each_at_err::<T>(d, base as int, offsets@, (i + 1) as nat);
                }
                return Err(e);
            },
        }
    }
    assert(offsets@.take(i as int) =~= offsets@);
    Ok(values)
}

/// Decodes one value under `parameter` at each offset, all measured from `base`;
/// the cursor stays put.
pub fn read_each_given_at<P: Copy, T: Walue<P>>(
    tape: &mut Tape,
    base: u64,
    offsets: &Vec<u16>,
    parameter: P,
) -> (r: Result<Vec<T>, Error>)
    requires
        old(tape).wf(),
        base <= old(tape).data().len(),
    ensures
        final(tape).wf(),
        final(tape).data() == old(tape).data(),
        final(tape).pos() == old(tape).pos(),
        match fault_each_given_at::<P, T>(old(tape).data(), base as int, offsets@, parameter) {
            None => r is Ok && parses_each_given_at::<P, T>(
                old(tape).data(),
                base as int,
                offsets@,
                parameter,
                r->Ok_0@,
            ),
            Some(e) => r == Err::<Vec<T>, Error>(e),
        },
{
    let ghost d = tape.data();
    let ghost p = tape.pos();
    let mut values: Vec<T> = Vec::new();
    let mut i: usize = 0;
    while i < offsets.len()
        invariant
            i <= offsets@.len(),
            base <= d.len(),
            tape.wf(),
            tape.data() == d,
            tape.pos() == p,
            d == old(tape).data(),
            p == old(tape).pos(),
            fault_each_given_at::<P, T>(d, base as int, offsets@.take(i as int), parameter) is None,
            parses_each_given_at::<P, T>(d, base as int, offsets@.take(i as int), parameter, values@),
        decreases offsets@.len() - i,
    {
        assert(offsets@.take(i + 1).drop_last() =~= offsets@.take(i as int));
        let res = tape.read_given_at::<P, T>(base, offsets[i] as u32, parameter);
        match res {
            Ok(v) => {
                values.push(v);
                i = i + 1;
                assert(parses_each_given_at::<P, T>(
                    d,
                    base as int,
                    offsets@.take(i as int),
                    parameter,
                    values@,
                )) by {
                    assert forall|j: int| 0 <= j < values@.len() implies #[trigger] T::parses_given(
                        d,
                        base + offsets@.take(i as int)[j],
                        parameter,
                        values@[j],
                    ) by {
                        if j < i - 1 {
                            assert(values@[j] == values@.drop_last()[j]);
                            assert(offsets@.take(i as int)[j] == offsets@.take(i - 1)[j]);
                        }
                    }
                }
            },
            Err(e) => {
                proof {
                    lemma_each_given_at_err::<P, T>(
                        d,
                        base as int,
                        offsets@,
                        (i + 1) as nat,
                        parameter,
                    );
                }
                return Err(e);
            },
        }
    }
    assert(offsets@.take(i as int) =~= offsets@);
    Ok(values)
}


} // verus!
