//! The table directory at the start of a font, and the checksums that guard its tables.

use vstd::prelude::*;

use crate::tape::{
    extent_many, fits, outcome, parses_many, read_many, u16_at, u32_at, u32s_at, Error, Tape,
    Value,
};

verus! {

/// Where one table stands in the file, and the checksum it must meet.
#[derive(Clone, Copy, Debug, PartialEq, Eq, Structural)]
pub struct TableRecord {
    pub tag: u32,
    pub checksum: u32,
    pub offset: u32,
    pub length: u32,
}

/// The directory: a format tag, the number of tables, three search hints, and the
/// table records.
#[derive(Clone, Debug, PartialEq, Eq)]
pub struct OffsetTable {
    pub version: u32,
    pub num_tables: u16,
    pub search_range: u16,
    pub entry_selector: u16,
    pub range_shift: u16,
    pub records: Vec<TableRecord>,
}

/// The number of 32-bit words that cover `length` bytes.
pub open spec fn word_count(length: u32) -> int {
    (length as int + 3) / 4
}

/// The sum of the words, without wrapping.
pub open spec fn word_sum(s: Seq<u32>) -> int
    decreases s.len(),
{
    if s.len() == 0 {
        0
    } else {
        word_sum(s.drop_last()) + s.last()
    }
}

/// Whether `checksum` is the sum modulo 2^32 of the words `t`.
pub open spec fn sums_to(t: Seq<u32>, checksum: u32) -> bool {
    checksum as int == word_sum(t) % 0x1_0000_0000
}

/// Whether `t` is what `process` makes of each word of `words` with its index.
pub open spec fn processed<F: Fn(usize, u32) -> u32>(
    process: F,
    words: Seq<u32>,
    t: Seq<u32>,
) -> bool {
    t.len() == words.len() && forall|i: int|
        0 <= i < words.len() ==> #[trigger] process.ensures((i as usize, words[i]), t[i])
}

/// Whether `t` is what `process` makes of each word of `words`, taking the word
/// first and its index second.
pub open spec fn processed_by_value<F: Fn(u32, usize) -> u32>(
    process: F,
    words: Seq<u32>,
    t: Seq<u32>,
) -> bool {
    t.len() == words.len() && forall|i: int|
        0 <= i < words.len() ==> #[trigger] process.ensures((words[i], i as usize), t[i])
}

/// The words of the table that `r` locates.
pub open spec fn table_words(d: Seq<u8>, r: TableRecord) -> Seq<u32> {
    u32s_at(d, r.offset as int, word_count(r.length) as nat)
}

/// Whether the words of the table that `r` locates lie inside the data.
pub open spec fn table_fits(d: Seq<u8>, r: TableRecord) -> bool {
    fits(d, r.offset as int, 4 * word_count(r.length))
}

impl Value for TableRecord {
    open spec fn extent(data: Seq<u8>, pos: int) -> Result<int, Error> {
        if fits(data, pos, 16) {
            Ok(pos + 16)
        } else {
            Err(Error::Io)
        }
    }

    open spec fn parses(data: Seq<u8>, pos: int, value: TableRecord) -> bool {
        value == TableRecord {
            tag: u32_at(data, pos),
            checksum: u32_at(data, pos + 4),
            offset: u32_at(data, pos + 8),
            length: u32_at(data, pos + 12),
        }
    }

    fn read(tape: &mut Tape) -> (r: Result<TableRecord, Error>) {
        let tag = tape.read_u32()?;
        let checksum = tape.read_u32()?;
        let offset = tape.read_u32()?;
        let length = tape.read_u32()?;
        Ok(TableRecord { tag, checksum, offset, length })
    }
}

impl Value for OffsetTable {
    open spec fn extent(data: Seq<u8>, pos: int) -> Result<int, Error> {
        if fits(data, pos, 12) {
            extent_many::<TableRecord>(data, pos + 12, u16_at(data, pos + 4) as nat)
        } else {
            Err(Error::Io)
        }
    }

    open spec fn parses(data: Seq<u8>, pos: int, value: OffsetTable) -> bool {
        &&& value.version == u32_at(data, pos)
        &&& value.num_tables == u16_at(data, pos + 4)
        &&& value.search_range == u16_at(data, pos + 6)
        &&& value.entry_selector == u16_at(data, pos + 8)
        &&& value.range_shift == u16_at(data, pos + 10)
        &&& value.records@.len() == value.num_tables
        &&& parses_many::<TableRecord>(data, pos + 12, value.records@)
    }

    fn read(tape: &mut Tape) -> (r: Result<OffsetTable, Error>) {
        let version = tape.read_u32()?;
        let num_tables = tape.read_u16()?;
        let search_range = tape.read_u16()?;
        let entry_selector = tape.read_u16()?;
        let range_shift = tape.read_u16()?;
        let records = read_many(tape, num_tables as usize)?;
        Ok(OffsetTable { version, num_tables, search_range, entry_selector, range_shift, records })
    }
}

/// Reads `n` words from the cursor, hands each with its index to `process`, and
/// sums what comes back modulo 2^32. The words must be there.
fn sum_words<F: Fn(usize, u32) -> u32>(tape: &mut Tape, n: u32, process: &F) -> (r: (
    u32,
    Ghost<Seq<u32>>,
))
    requires
        old(tape).wf(),
        fits(old(tape).data(), old(tape).pos(), 4 * n),
        forall|i: usize, w: u32| process.requires((i, w)),
    ensures
        final(tape).wf(),
        final(tape).data() == old(tape).data(),
        processed(*process, u32s_at(old(tape).data(), old(tape).pos(), n as nat), r.1@),
        r.0 as int == word_sum(r.1@) % 0x1_0000_0000,
{
    let ghost d = tape.data();
    let ghost p = tape.pos();
    let ghost words = u32s_at(d, p, n as nat);
    let ghost mut t: Seq<u32> = Seq::empty();
    let mut sum: u64 = 0;
    let mut i: u32 = 0;
    while i < n
        invariant
            i <= n,
            tape.wf(),
            tape.data() == d,
            fits(d, p, 4 * n),
            tape.pos() == p + 4 * i,
            words == u32s_at(d, p, n as nat),
            forall|i: usize, w: u32| process.requires((i, w)),
            t.len() == i,
            forall|k: int| 0 <= k < i ==> #[trigger] process.ensures((k as usize, words[k]), t[k]),
            sum as int == word_sum(t),
            sum <= i * 0xFFFF_FFFFu64,
        decreases n - i,
    {
        let word = tape.read_u32().unwrap();
        let v = process(i as usize, word);
        proof {
            assert(word == words[i as int]);
            assert(t.push(v).drop_last() =~= t);
            t = t.push(v);
        }
        sum = sum + v as u64;
        i = i + 1;
    }
    ((sum % 0x1_0000_0000) as u32, Ghost(t))
}

impl TableRecord {
    /// Whether the table's words, each passed with its index through `process`, sum
    /// modulo 2^32 to the stored checksum. The words are read where the record points;
    /// the cursor comes back to where it was.
    pub fn check<F: Fn(usize, u32) -> u32>(&self, tape: &mut Tape, process: F) -> (r: Result<
        bool,
        Error,
    >)
        requires
            old(tape).wf(),
            forall|i: usize, w: u32| process.requires((i, w)),
        ensures
            final(tape).wf(),
            final(tape).data() == old(tape).data(),
            final(tape).pos() == old(tape).pos(),
            !table_fits(old(tape).data(), *self) ==> r == Err::<bool, Error>(Error::Io),
            table_fits(old(tape).data(), *self) ==> r is Ok && exists|t: Seq<u32>|
                #[trigger] processed(process, table_words(old(tape).data(), *self), t) && r->Ok_0
                    == sums_to(
                    t,
                    self.checksum,
                ),
    {
        let length = ((self.length as u64 + 3) / 4) as u32;
        let position = tape.position();
        if 4 * length as u64 > tape.len() || self.offset as u64 > tape.len() - 4 * length as u64 {
            return Err(Error::Io);
        }
        tape.jump(self.offset as u64)?;
        let (sum, Ghost(t)) = sum_words(tape, length, &process);
        assert(processed(process, table_words(tape.data(), *self), t));
        tape.jump(position)?;
        Ok(self.checksum == sum)
    }
}

/// Table checksums read from the cursor as it stands, rather than at the record's offset.
pub struct Table;

impl Table {
    /// The number of 32-bit words that cover the table.
    pub fn measure(table_record: &TableRecord) -> (r: usize)
        ensures
            r == word_count(table_record.length),
    {
        ((table_record.length as u64 + 3) / 4) as usize
    }

    /// Whether the words from the cursor on, each passed with its index through
    /// `process`, sum modulo 2^32 to the stored checksum; false when the words run
    /// past the end.
    pub fn map_and_check<F: Fn(u32, usize) -> u32>(
        stream: &mut Tape,
        table_record: &TableRecord,
        process: F,
    ) -> (r: bool)
        requires
            old(stream).wf(),
            forall|w: u32, i: usize| process.requires((w, i)),
        ensures
            final(stream).wf(),
            final(stream).data() == old(stream).data(),
            !fits(old(stream).data(), old(stream).pos(), 4 * word_count(table_record.length))
                ==> !r,
            fits(old(stream).data(), old(stream).pos(), 4 * word_count(table_record.length))
                ==> exists|t: Seq<u32>|
                #[trigger] processed_by_value(
                    process,
                    u32s_at(
                        old(stream).data(),
                        old(stream).pos(),
                        word_count(table_record.length) as nat,
                    ),
                    t,
                ) && r == sums_to(t, table_record.checksum),
    {
        let length = Table::measure(table_record);
        if length as u64 * 4 > stream.len() - stream.position() {
            return false;
        }
        let ghost words = u32s_at(
            stream.data(),
            stream.pos(),
            word_count(table_record.length) as nat,
        );
        assert(words == u32s_at(stream.data(), stream.pos(), (length as u32) as nat));
        let by_value = &process;
        let swapped = |i: usize, w: u32| -> (v: u32)
            requires
                by_value.requires((w, i)),
            ensures
                by_value.ensures((w, i), v),
            { by_value(w, i) };
        let (sum, Ghost(t)) = sum_words(stream, length as u32, &swapped);
        assert(processed_by_value(process, words, t)) by {
            assert forall|i: int| 0 <= i < words.len() implies #[trigger] process.ensures(
                (words[i], i as usize),
                t[i],
            ) by {
                assert(swapped.ensures((i as usize, words[i]), t[i]));
            }
        }
        table_record.checksum == sum
    }

    /// Whether the words from the cursor on sum modulo 2^32 to the stored checksum.
    pub fn check(stream: &mut Tape, table_record: &TableRecord) -> (r: bool)
        requires
            old(stream).wf(),
        ensures
            final(stream).wf(),
            final(stream).data() == old(stream).data(),
            r == (fits(old(stream).data(), old(stream).pos(), 4 * word_count(table_record.length))
                && sums_to(
                u32s_at(
                    old(stream).data(),
                    old(stream).pos(),
                    word_count(table_record.length) as nat,
                ),
                table_record.checksum,
            )),
    {
        let ghost words = u32s_at(
            stream.data(),
            stream.pos(),
            word_count(table_record.length) as nat,
        );
        let identity = |w: u32, i: usize| -> (v: u32)
            ensures
                v == w,
            { w };
        let r = Table::map_and_check(stream, table_record, identity);
        proof {
            if fits(old(stream).data(), old(stream).pos(), 4 * word_count(table_record.length)) {
                let t = choose|t: Seq<u32>|
                    #[trigger] processed_by_value(identity, words, t) && r == sums_to(
                        t,
                        table_record.checksum,
                    );
                assert forall|i: int| 0 <= i < words.len() implies t[i] == words[i] by {
                    assert(identity.ensures((words[i], i as usize), t[i]));
                }
                assert(t =~= words);
            }
        }
        r
    }
}

} // verus!
