//! The persisted record format: delimited rows of trade-record fields.
//!
//! A dataset file is one header row naming the six fields, then one row per
//! record. Every field is a decimal number padded to twenty digits, fields
//! are separated by commas, and every row ends with a newline, so each row
//! occupies exactly [`LINE_WIDTH`] bytes. Rendering and parsing round-trip
//! exactly; a malformed row aborts the whole import with `MalformedRecord`
//! naming its one-based line number, so no partial dataset is ever loaded.

use vstd::prelude::*;
use crate::amm::TradeRecord;
use crate::backtest::BacktestDataset;
use crate::errors::SimError;

verus! {

/// Decimal digits per rendered field.
pub const FIELD_WIDTH: u64 = 20;

/// Bytes per record row: six fields, five commas, one newline.
pub const LINE_WIDTH: u64 = 126;

/// Bytes of the header row.
pub const HEADER_WIDTH: u64 = 52;

/// The header row: the six field names, comma-separated, ending in a
/// newline.
pub open spec fn spec_header() -> Seq<u8> {
    seq![
        98u8, 108, 111, 99, 107, 44, 97, 109, 111, 117, 110, 116, 95, 105, 110, 44, 97, 109, 111,
        117, 110, 116, 95, 111, 117, 116, 44, 97, 115, 115, 101, 116, 95, 105, 110, 44, 97, 115,
        115, 101, 116, 95, 111, 117, 116, 44, 112, 114, 105, 99, 101, 10,
    ]
}

/// Ten to the `w`-th power.
pub open spec fn spec_pow10(w: nat) -> nat
    decreases w,
{
    if w == 0 {
        1
    } else {
        10 * spec_pow10((w - 1) as nat)
    }
}

/// The `w` decimal digits of `n`, most significant first, zero-padded.
pub open spec fn spec_digits_w(n: nat, w: nat) -> Seq<u8>
    decreases w,
{
    if w == 0 {
        Seq::<u8>::empty()
    } else {
        spec_digits_w(n / 10, (w - 1) as nat).push((48 + n % 10) as u8)
    }
}

/// The value of a run of decimal digit bytes.
pub open spec fn spec_field_val(s: Seq<u8>) -> nat
    decreases s.len(),
{
    if s.len() == 0 {
        0
    } else {
        (spec_field_val(s.drop_last()) * 10 + (s.last() - 48)) as nat
    }
}

/// Whether every byte of `s` is a decimal digit.
pub open spec fn spec_all_digits(s: Seq<u8>) -> bool {
    forall|k: int| 0 <= k < s.len() ==> 48 <= #[trigger] s[k] <= 57
}

/// The value of a twenty-digit field, or `None` when a byte is not a digit
/// or the value does not fit a `u64`.
pub open spec fn spec_parse_field(s: Seq<u8>) -> Option<u64> {
    if s.len() == FIELD_WIDTH && spec_all_digits(s) && spec_field_val(s) <= u64::MAX {
        Some(spec_field_val(s) as u64)
    } else {
        None
    }
}

/// One rendered record row.
pub open spec fn spec_render_record(t: TradeRecord) -> Seq<u8> {
    spec_digits_w(t.block_or_step as nat, FIELD_WIDTH as nat) + seq![44u8] + spec_digits_w(
        t.amount_in as nat,
        FIELD_WIDTH as nat,
    ) + seq![44u8] + spec_digits_w(t.amount_out as nat, FIELD_WIDTH as nat) + seq![44u8]
        + spec_digits_w(t.asset_in as nat, FIELD_WIDTH as nat) + seq![44u8] + spec_digits_w(
        t.asset_out as nat,
        FIELD_WIDTH as nat,
    ) + seq![44u8] + spec_digits_w(t.resulting_price as nat, FIELD_WIDTH as nat) + seq![10u8]
}

/// The rendered record rows, in order.
pub open spec fn spec_render_records(rs: Seq<TradeRecord>) -> Seq<u8>
    decreases rs.len(),
{
    if rs.len() == 0 {
        Seq::<u8>::empty()
    } else {
        spec_render_record(rs[0]) + spec_render_records(rs.drop_first())
    }
}

/// A whole rendered dataset: the header row, then the record rows.
pub open spec fn spec_render_dataset(rs: Seq<TradeRecord>) -> Seq<u8> {
    spec_header() + spec_render_records(rs)
}

/// The record of one 126-byte row, or `None` when a separator or field is
/// out of place.
pub open spec fn spec_parse_record(line: Seq<u8>) -> Option<TradeRecord> {
    if line.len() == LINE_WIDTH && line[20] == 44 && line[41] == 44 && line[62] == 44 && line[83]
        == 44 && line[104] == 44 && line[125] == 10 {
        let f0 = spec_parse_field(line.subrange(0, 20));
        let f1 = spec_parse_field(line.subrange(21, 41));
        let f2 = spec_parse_field(line.subrange(42, 62));
        let f3 = spec_parse_field(line.subrange(63, 83));
        let f4 = spec_parse_field(line.subrange(84, 104));
        let f5 = spec_parse_field(line.subrange(105, 125));
        if f0 is Some && f1 is Some && f2 is Some && f3 is Some && f4 is Some && f5 is Some {
            Some(
                TradeRecord {
                    block_or_step: f0.unwrap(),
                    amount_in: f1.unwrap(),
                    amount_out: f2.unwrap(),
                    asset_in: f3.unwrap(),
                    asset_out: f4.unwrap(),
                    resulting_price: f5.unwrap(),
                },
            )
        } else {
            None
        }
    } else {
        None
    }
}

/// The records of the rows of `bytes`, or the one-based line number of the
/// first malformed row.
pub open spec fn spec_parse_records(bytes: Seq<u8>, line_no: u64) -> Result<Seq<TradeRecord>, u64>
    decreases bytes.len(),
{
    if bytes.len() == 0 {
        Ok(Seq::<TradeRecord>::empty())
    } else if bytes.len() < LINE_WIDTH {
        Err(line_no)
    } else {
        match spec_parse_record(bytes.take(LINE_WIDTH as int)) {
            None => Err(line_no),
            Some(t) => match spec_parse_records(bytes.skip(LINE_WIDTH as int), (line_no + 1) as u64) {
                Ok(rest) => Ok(seq![t] + rest),
                Err(l) => Err(l),
            },
        }
    }
}

/// The dataset encoded in `bytes`: the header row (line one), then the
/// record rows; or the line number of the first malformed row.
pub open spec fn spec_parse_dataset(bytes: Seq<u8>) -> Result<Seq<TradeRecord>, u64> {
    if bytes.len() >= HEADER_WIDTH && bytes.take(HEADER_WIDTH as int) == spec_header() {
        spec_parse_records(bytes.skip(HEADER_WIDTH as int), 2)
    } else {
        Err(1)
    }
}

/// The value of ten to the twentieth power, above every `u64`.
pub proof fn lemma_pow10_20()
    ensures
        spec_pow10(20) == 100_000_000_000_000_000_000,
{
    reveal_with_fuel(spec_pow10, 21);
}

/// `spec_pow10` grows monotonically.
pub proof fn lemma_pow10_mono(a: nat, b: nat)
    requires
        a <= b,
    ensures
        spec_pow10(a) <= spec_pow10(b),
    decreases b,
{
    if a < b {
        lemma_pow10_mono(a, (b - 1) as nat);
        assert(spec_pow10(b) == 10 * spec_pow10((b - 1) as nat));
    }
}

/// A fixed-width digit run has exactly `w` bytes, all digits.
pub proof fn lemma_digits_w_shape(n: nat, w: nat)
    ensures
        spec_digits_w(n, w).len() == w,
        spec_all_digits(spec_digits_w(n, w)),
    decreases w,
{
    if w == 0 {
    } else {
        lemma_digits_w_shape(n / 10, (w - 1) as nat);
        let head = spec_digits_w(n / 10, (w - 1) as nat);
        let full = spec_digits_w(n, w);
        assert forall|k: int| 0 <= k < full.len() implies 48 <= #[trigger] full[k] <= 57 by {
            if k < head.len() {
                assert(full[k] == head[k]);
            } else {
                assert(full[k] == (48 + n % 10) as u8);
            }
        }
    }
}

/// A run of `w` digit bytes encodes a value below ten to the `w`.
pub proof fn lemma_field_val_bound(s: Seq<u8>)
    requires
        spec_all_digits(s),
    ensures
        spec_field_val(s) < spec_pow10(s.len() as nat),
    decreases s.len(),
{
    if s.len() == 0 {
    } else {
        assert(spec_all_digits(s.drop_last())) by {
            assert(forall|k: int|
                0 <= k < s.len() - 1 ==> s.drop_last()[k] == #[trigger] s[k]);
        }
        lemma_field_val_bound(s.drop_last());
        assert(s.last() == s[s.len() - 1]);
        assert(spec_pow10(s.len() as nat) == 10 * spec_pow10((s.len() - 1) as nat));
    }
}

/// Round trip at the digit level: rendering then reading a value below ten
/// to the `w` gives the value back.
pub proof fn lemma_digits_w_val(n: nat, w: nat)
    requires
        n < spec_pow10(w),
    ensures
        spec_field_val(spec_digits_w(n, w)) == n,
    decreases w,
{
    if w == 0 {
        assert(n == 0);
    } else {
        let p = spec_pow10((w - 1) as nat);
        assert(spec_pow10(w) == 10 * p);
        vstd::arithmetic::div_mod::lemma_div_is_ordered(n as int, 10 * p - 1, 10);
        vstd::arithmetic::div_mod::lemma_fundamental_div_mod_converse(
            10 * p - 1,
            10,
            p - 1,
            9,
        );
        lemma_digits_w_val(n / 10, (w - 1) as nat);
        let head = spec_digits_w(n / 10, (w - 1) as nat);
        let full = spec_digits_w(n, w);
        assert(full.drop_last() =~= head);
        assert(full.last() == (48 + n % 10) as u8);
        vstd::arithmetic::div_mod::lemma_fundamental_div_mod(n as int, 10);
    }
}

/// One rendered row has exactly [`LINE_WIDTH`] bytes.
pub proof fn lemma_render_record_len(t: TradeRecord)
    ensures
        spec_render_record(t).len() == LINE_WIDTH,
{
    lemma_digits_w_shape(t.block_or_step as nat, 20);
    lemma_digits_w_shape(t.amount_in as nat, 20);
    lemma_digits_w_shape(t.amount_out as nat, 20);
    lemma_digits_w_shape(t.asset_in as nat, 20);
    lemma_digits_w_shape(t.asset_out as nat, 20);
    lemma_digits_w_shape(t.resulting_price as nat, 20);
}

/// Indexing a concatenation inside its left part.
pub proof fn lemma_index_left(a: Seq<u8>, b: Seq<u8>, i: int)
    requires
        0 <= i < a.len(),
    ensures
        (a + b)[i] == a[i],
{
}

/// Indexing a concatenation inside its right part.
pub proof fn lemma_index_right(a: Seq<u8>, b: Seq<u8>, i: int)
    requires
        a.len() <= i < a.len() + b.len(),
    ensures
        (a + b)[i] == b[i - a.len()],
{
}

/// Law, one row: reading back a rendered record gives the record.
#[verifier::rlimit(100)]
pub proof fn lemma_record_roundtrip(t: TradeRecord)
    ensures
        spec_render_record(t).len() == LINE_WIDTH,
        spec_parse_record(spec_render_record(t)) == Some(t),
{
    lemma_pow10_20();
    let d0 = spec_digits_w(t.block_or_step as nat, 20);
    let d1 = spec_digits_w(t.amount_in as nat, 20);
    let d2 = spec_digits_w(t.amount_out as nat, 20);
    let d3 = spec_digits_w(t.asset_in as nat, 20);
    let d4 = spec_digits_w(t.asset_out as nat, 20);
    let d5 = spec_digits_w(t.resulting_price as nat, 20);
    lemma_render_record_len(t);
    lemma_digits_w_shape(t.block_or_step as nat, 20);
    lemma_digits_w_shape(t.amount_in as nat, 20);
    lemma_digits_w_shape(t.amount_out as nat, 20);
    lemma_digits_w_shape(t.asset_in as nat, 20);
    lemma_digits_w_shape(t.asset_out as nat, 20);
    lemma_digits_w_shape(t.resulting_price as nat, 20);
    lemma_digits_w_val(t.block_or_step as nat, 20);
    lemma_digits_w_val(t.amount_in as nat, 20);
    lemma_digits_w_val(t.amount_out as nat, 20);
    lemma_digits_w_val(t.asset_in as nat, 20);
    lemma_digits_w_val(t.asset_out as nat, 20);
    lemma_digits_w_val(t.resulting_price as nat, 20);
    let c = seq![44u8];
    let nl = seq![10u8];
    let s1 = d0 + c;
    let s2 = s1 + d1;
    let s3 = s2 + c;
    let s4 = s3 + d2;
    let s5 = s4 + c;
    let s6 = s5 + d3;
    let s7 = s6 + c;
    let s8 = s7 + d4;
    let s9 = s8 + c;
    let s10 = s9 + d5;
    let line = spec_render_record(t);
    assert(line == s10 + nl);
    assert forall|i: int| 0 <= i < 126 implies #[trigger] line[i] == spec_row_byte(t, i) by {
        lemma_row_byte(t, i, d0, d1, d2, d3, d4, d5, c, nl);
    }
    assert(spec_row_byte(t, 20) == 44 && spec_row_byte(t, 41) == 44 && spec_row_byte(t, 62) == 44
        && spec_row_byte(t, 83) == 44 && spec_row_byte(t, 104) == 44 && spec_row_byte(t, 125)
        == 10);
    assert(line[20] == 44 && line[41] == 44 && line[62] == 44 && line[83] == 44 && line[104] == 44
        && line[125] == 10);
    assert forall|i: int| 0 <= i < 20 implies line.subrange(0, 20)[i] == d0[i] by {
        assert(line.subrange(0, 20)[i] == line[0 + i]);
        assert(line[0 + i] == spec_row_byte(t, 0 + i));
    }
    assert(line.subrange(0, 20) =~= d0);
    assert forall|i: int| 0 <= i < 20 implies line.subrange(21, 41)[i] == d1[i] by {
        assert(line.subrange(21, 41)[i] == line[21 + i]);
        assert(line[21 + i] == spec_row_byte(t, 21 + i));
    }
    assert(line.subrange(21, 41) =~= d1);
    assert forall|i: int| 0 <= i < 20 implies line.subrange(42, 62)[i] == d2[i] by {
        assert(line.subrange(42, 62)[i] == line[42 + i]);
        assert(line[42 + i] == spec_row_byte(t, 42 + i));
    }
    assert(line.subrange(42, 62) =~= d2);
    assert forall|i: int| 0 <= i < 20 implies line.subrange(63, 83)[i] == d3[i] by {
        assert(line.subrange(63, 83)[i] == line[63 + i]);
        assert(line[63 + i] == spec_row_byte(t, 63 + i));
    }
    assert(line.subrange(63, 83) =~= d3);
    assert forall|i: int| 0 <= i < 20 implies line.subrange(84, 104)[i] == d4[i] by {
        assert(line.subrange(84, 104)[i] == line[84 + i]);
        assert(line[84 + i] == spec_row_byte(t, 84 + i));
    }
    assert(line.subrange(84, 104) =~= d4);
    assert forall|i: int| 0 <= i < 20 implies line.subrange(105, 125)[i] == d5[i] by {
        assert(line.subrange(105, 125)[i] == line[105 + i]);
        assert(line[105 + i] == spec_row_byte(t, 105 + i));
    }
    assert(line.subrange(105, 125) =~= d5);
}

/// The byte of a rendered row at offset `i`: a digit of the field that owns
/// the offset, or a separator.
pub open spec fn spec_row_byte(t: TradeRecord, i: int) -> u8 {
    if i < 20 {
        spec_digits_w(t.block_or_step as nat, 20)[i]
    } else if i == 20 {
        44
    } else if i < 41 {
        spec_digits_w(t.amount_in as nat, 20)[i - 21]
    } else if i == 41 {
        44
    } else if i < 62 {
        spec_digits_w(t.amount_out as nat, 20)[i - 42]
    } else if i == 62 {
        44
    } else if i < 83 {
        spec_digits_w(t.asset_in as nat, 20)[i - 63]
    } else if i == 83 {
        44
    } else if i < 104 {
        spec_digits_w(t.asset_out as nat, 20)[i - 84]
    } else if i == 104 {
        44
    } else if i < 125 {
        spec_digits_w(t.resulting_price as nat, 20)[i - 105]
    } else {
        10
    }
}

/// Chases one row offset through the concatenation that built the row.
proof fn lemma_row_byte(
    t: TradeRecord,
    i: int,
    d0: Seq<u8>,
    d1: Seq<u8>,
    d2: Seq<u8>,
    d3: Seq<u8>,
    d4: Seq<u8>,
    d5: Seq<u8>,
    c: Seq<u8>,
    nl: Seq<u8>,
)
    requires
        0 <= i < 126,
        d0 == spec_digits_w(t.block_or_step as nat, 20),
        d1 == spec_digits_w(t.amount_in as nat, 20),
        d2 == spec_digits_w(t.amount_out as nat, 20),
        d3 == spec_digits_w(t.asset_in as nat, 20),
        d4 == spec_digits_w(t.asset_out as nat, 20),
        d5 == spec_digits_w(t.resulting_price as nat, 20),
        c == seq![44u8],
        nl == seq![10u8],
    ensures
        spec_render_record(t)[i] == spec_row_byte(t, i),
{
    lemma_digits_w_shape(t.block_or_step as nat, 20);
    lemma_digits_w_shape(t.amount_in as nat, 20);
    lemma_digits_w_shape(t.amount_out as nat, 20);
    lemma_digits_w_shape(t.asset_in as nat, 20);
    lemma_digits_w_shape(t.asset_out as nat, 20);
    lemma_digits_w_shape(t.resulting_price as nat, 20);
    let s1 = d0 + c;
    let s2 = s1 + d1;
    let s3 = s2 + c;
    let s4 = s3 + d2;
    let s5 = s4 + c;
    let s6 = s5 + d3;
    let s7 = s6 + c;
    let s8 = s7 + d4;
    let s9 = s8 + c;
    let s10 = s9 + d5;
    assert(spec_render_record(t) == s10 + nl);
    if i < 125 {
        lemma_index_left(s10, nl, i);
        if i < 105 {
            lemma_index_left(s9, d5, i);
            if i < 104 {
                lemma_index_left(s8, c, i);
                if i < 84 {
                    lemma_index_left(s7, d4, i);
                    if i < 83 {
                        lemma_index_left(s6, c, i);
                        if i < 63 {
                            lemma_index_left(s5, d3, i);
                            if i < 62 {
                                lemma_index_left(s4, c, i);
                                if i < 42 {
                                    lemma_index_left(s3, d2, i);
                                    if i < 41 {
                                        lemma_index_left(s2, c, i);
                                        if i < 21 {
                                            lemma_index_left(s1, d1, i);
                                            if i < 20 {
                                                lemma_index_left(d0, c, i);
                                            } else {
                                                lemma_index_right(d0, c, i);
                                            }
                                        } else {
                                            lemma_index_right(s1, d1, i);
                                        }
                                    } else {
                                        lemma_index_right(s2, c, i);
                                    }
                                } else {
                                    lemma_index_right(s3, d2, i);
                                }
                            } else {
                                lemma_index_right(s4, c, i);
                            }
                        } else {
                            lemma_index_right(s5, d3, i);
                        }
                    } else {
                        lemma_index_right(s6, c, i);
                    }
                } else {
                    lemma_index_right(s7, d4, i);
                }
            } else {
                lemma_index_right(s8, c, i);
            }
        } else {
            lemma_index_right(s9, d5, i);
        }
    } else {
        lemma_index_right(s10, nl, i);
    }
}

/// The rendered rows of `n` records occupy `n * LINE_WIDTH` bytes.
pub proof fn lemma_render_records_len(rs: Seq<TradeRecord>)
    ensures
        spec_render_records(rs).len() == rs.len() * LINE_WIDTH,
    decreases rs.len(),
{
    if rs.len() == 0 {
    } else {
        lemma_render_record_len(rs[0]);
        lemma_render_records_len(rs.drop_first());
    }
}

/// Appending one record to a dataset appends one row to its rendering.
pub proof fn lemma_render_records_snoc(s: Seq<TradeRecord>, t: TradeRecord)
    ensures
        spec_render_records(s.push(t)) == spec_render_records(s) + spec_render_record(t),
    decreases s.len(),
{
    if s.len() == 0 {
        assert(s.push(t)[0] == t);
        assert(s.push(t).drop_first() =~= Seq::<TradeRecord>::empty());
        assert(spec_render_records(s.push(t)) == spec_render_record(t) + spec_render_records(
            s.push(t).drop_first(),
        ));
        assert(spec_render_records(Seq::<TradeRecord>::empty()) == Seq::<u8>::empty());
        assert(spec_render_records(s) == Seq::<u8>::empty());
        assert(spec_render_record(t) + Seq::<u8>::empty() =~= Seq::<u8>::empty()
            + spec_render_record(t));
    } else {
        assert(s.push(t)[0] == s[0]);
        assert(s.push(t).drop_first() =~= s.drop_first().push(t));
        lemma_render_records_snoc(s.drop_first(), t);
        lemma_render_records_len(s.drop_first());
        lemma_render_record_len(s[0]);
        lemma_render_record_len(t);
        assert(spec_render_records(s.push(t)) == spec_render_record(s.push(t)[0])
            + spec_render_records(s.push(t).drop_first()));
        assert(s.push(t).drop_first() == s.drop_first().push(t));
        assert(spec_render_records(s.push(t)) == spec_render_record(s[0]) + (spec_render_records(
            s.drop_first(),
        ) + spec_render_record(t)));
        assert(spec_render_record(s[0]) + (spec_render_records(s.drop_first())
            + spec_render_record(t)) =~= (spec_render_record(s[0]) + spec_render_records(
            s.drop_first(),
        )) + spec_render_record(t));
    }
}

/// Reading back rendered rows reproduces the records, whatever line number
/// the first row carries.
pub proof fn lemma_records_roundtrip(rs: Seq<TradeRecord>, line_no: u64)
    requires
        line_no + rs.len() <= u64::MAX,
    ensures
        spec_parse_records(spec_render_records(rs), line_no) == Ok::<Seq<TradeRecord>, u64>(rs),
    decreases rs.len(),
{
    if rs.len() == 0 {
        assert(rs =~= Seq::<TradeRecord>::empty());
        assert(spec_parse_records(spec_render_records(rs), line_no) == Ok::<
            Seq<TradeRecord>,
            u64,
        >(Seq::<TradeRecord>::empty()));
    } else {
        let r0 = spec_render_record(rs[0]);
        let rest = spec_render_records(rs.drop_first());
        let all = spec_render_records(rs);
        lemma_record_roundtrip(rs[0]);
        lemma_render_records_len(rs.drop_first());
        assert(all == r0 + rest);
        assert(all.len() == 126 + rest.len());
        assert(all.take(LINE_WIDTH as int) =~= r0);
        assert(all.skip(LINE_WIDTH as int) =~= rest);
        lemma_records_roundtrip(rs.drop_first(), (line_no + 1) as u64);
        assert(spec_parse_record(all.take(LINE_WIDTH as int)) == Some(rs[0]));
        assert(spec_parse_records(all.skip(LINE_WIDTH as int), (line_no + 1) as u64) == Ok::<
            Seq<TradeRecord>,
            u64,
        >(rs.drop_first()));
        assert(seq![rs[0]] + rs.drop_first() =~= rs);
        assert(spec_parse_records(all, line_no) == Ok::<Seq<TradeRecord>, u64>(
            seq![rs[0]] + rs.drop_first(),
        ));
    }
}

/// Law: importing what was exported reproduces the dataset, field for field.
/// Reading a rendered dataset back always succeeds and yields exactly the
/// records that were rendered.
pub proof fn lemma_dataset_roundtrip(rs: Seq<TradeRecord>)
    requires
        rs.len() + 2 <= u64::MAX,
    ensures
        spec_parse_dataset(spec_render_dataset(rs)) == Ok::<Seq<TradeRecord>, u64>(rs),
{
    let all = spec_render_dataset(rs);
    assert(all.take(HEADER_WIDTH as int) =~= spec_header());
    assert(all.skip(HEADER_WIDTH as int) =~= spec_render_records(rs));
    lemma_records_roundtrip(rs, 2);
}

/// Appends the `w`-digit zero-padded decimal rendering of `n`.
pub fn push_digits(out: &mut Vec<u8>, n: u64, w: u64)
    ensures
        final(out)@ == old(out)@ + spec_digits_w(n as nat, w as nat),
    decreases w,
{
    if w == 0 {
        proof {
            assert(old(out)@ + spec_digits_w(n as nat, 0) =~= old(out)@);
        }
    } else {
        push_digits(out, n / 10, w - 1);
        out.push(48 + ((n % 10) as u8));
        proof {
            assert(out@ =~= old(out)@ + spec_digits_w(n as nat, w as nat));
        }
    }
}

/// Appends the header row.
#[verifier::rlimit(50)]
pub fn push_header(out: &mut Vec<u8>)
    ensures
        final(out)@ == old(out)@ + spec_header(),
{
    out.push(98);
    out.push(108);
    out.push(111);
    out.push(99);
    out.push(107);
    out.push(44);
    out.push(97);
    out.push(109);
    out.push(111);
    out.push(117);
    out.push(110);
    out.push(116);
    out.push(95);
    out.push(105);
    out.push(110);
    out.push(44);
    out.push(97);
    out.push(109);
    out.push(111);
    out.push(117);
    out.push(110);
    out.push(116);
    out.push(95);
    out.push(111);
    out.push(117);
    out.push(116);
    out.push(44);
    out.push(97);
    out.push(115);
    out.push(115);
    out.push(101);
    out.push(116);
    out.push(95);
    out.push(105);
    out.push(110);
    out.push(44);
    out.push(97);
    out.push(115);
    out.push(115);
    out.push(101);
    out.push(116);
    out.push(95);
    out.push(111);
    out.push(117);
    out.push(116);
    out.push(44);
    out.push(112);
    out.push(114);
    out.push(105);
    out.push(99);
    out.push(101);
    out.push(10);
    proof {
        assert(out@ =~= old(out)@ + spec_header());
    }
}

/// Renders a dataset into the persisted record format: the header row, then
/// one fixed-width row per record, in order.
#[verifier::rlimit(100)]
pub fn render_dataset(d: &BacktestDataset) -> (out: Vec<u8>)
    ensures
        out@ == spec_render_dataset(d.records@),
{
    let mut out: Vec<u8> = Vec::new();
    push_header(&mut out);
    proof {
        assert(out@ =~= spec_header() + spec_render_records(
            d.records@.take(0),
        ));
    }
    let mut i: usize = 0;
    while i < d.records.len()
        invariant
            i <= d.records@.len(),
            out@ == spec_header() + spec_render_records(d.records@.take(i as int)),
        decreases d.records@.len() - i,
    {
        let t = d.records[i];
        push_digits(&mut out, t.block_or_step, FIELD_WIDTH);
        out.push(44);
        push_digits(&mut out, t.amount_in, FIELD_WIDTH);
        out.push(44);
        push_digits(&mut out, t.amount_out, FIELD_WIDTH);
        out.push(44);
        push_digits(&mut out, t.asset_in, FIELD_WIDTH);
        out.push(44);
        push_digits(&mut out, t.asset_out, FIELD_WIDTH);
        out.push(44);
        push_digits(&mut out, t.resulting_price, FIELD_WIDTH);
        out.push(10);
        proof {
            lemma_render_records_snoc(d.records@.take(i as int), t);
            assert(d.records@.take(i + 1) =~= d.records@.take(i as int).push(t));
            assert(out@ =~= spec_header() + spec_render_records(d.records@.take(i + 1)));
        }
        i = i + 1;
    }
    proof {
        assert(d.records@.take(d.records@.len() as int) =~= d.records@);
    }
    out
}

/// Reads the twenty-digit field at `pos`.
fn parse_field_at(bytes: &Vec<u8>, pos: usize) -> (r: Option<u64>)
    requires
        pos + 20 <= bytes@.len(),
    ensures
        r == spec_parse_field(bytes@.subrange(pos as int, pos as int + 20)),
{
    let n = bytes.len();
    let ghost sub = bytes@.subrange(pos as int, pos as int + 20);
    let mut acc: u128 = 0;
    let mut k: usize = 0;
    while k < 20
        invariant
            pos + 20 <= bytes@.len() <= usize::MAX,
            k <= 20,
            sub == bytes@.subrange(pos as int, pos as int + 20),
            spec_all_digits(sub.take(k as int)),
            acc == spec_field_val(sub.take(k as int)),
        decreases 20 - k,
    {
        let b = bytes[pos + k];
        proof {
            assert(sub[k as int] == bytes@[pos + k]);
        }
        if b < 48 || b > 57 {
            proof {
                assert(!(48 <= sub[k as int] <= 57));
            }
            return None;
        }
        proof {
            lemma_field_val_bound(sub.take(k as int));
            lemma_pow10_mono(k as nat, 20);
            lemma_pow10_20();
            assert(sub.take(k + 1).drop_last() =~= sub.take(k as int));
            assert(sub.take(k + 1).last() == sub[k as int]);
            assert(spec_all_digits(sub.take(k + 1))) by {
                assert(forall|j: int|
                    0 <= j < k ==> sub.take(k + 1)[j] == #[trigger] sub.take(k as int)[j]);
                assert(sub.take(k + 1)[k as int] == sub[k as int]);
            }
        }
        acc = acc * 10 + ((b - 48) as u128);
        k = k + 1;
    }
    proof {
        assert(sub.take(20) =~= sub);
    }
    if acc > 0xFFFF_FFFF_FFFF_FFFFu128 {
        None
    } else {
        Some(acc as u64)
    }
}

/// Reads the record row starting at `pos`.
fn parse_record_at(bytes: &Vec<u8>, pos: usize) -> (r: Option<TradeRecord>)
    requires
        pos + 126 <= bytes@.len(),
    ensures
        r == spec_parse_record(bytes@.subrange(pos as int, pos as int + 126)),
{
    let n = bytes.len();
    let ghost line = bytes@.subrange(pos as int, pos as int + 126);
    proof {
        assert(line[20] == bytes@[pos + 20]);
        assert(line[41] == bytes@[pos + 41]);
        assert(line[62] == bytes@[pos + 62]);
        assert(line[83] == bytes@[pos + 83]);
        assert(line[104] == bytes@[pos + 104]);
        assert(line[125] == bytes@[pos + 125]);
    }
    if bytes[pos + 20] != 44 || bytes[pos + 41] != 44 || bytes[pos + 62] != 44 || bytes[pos + 83]
        != 44 || bytes[pos + 104] != 44 || bytes[pos + 125] != 10 {
        return None;
    }
    proof {
        assert(line.subrange(0, 20) =~= bytes@.subrange(pos as int, pos as int + 20));
        assert(line.subrange(21, 41) =~= bytes@.subrange(pos + 21, pos + 41));
        assert(line.subrange(42, 62) =~= bytes@.subrange(pos + 42, pos + 62));
        assert(line.subrange(63, 83) =~= bytes@.subrange(pos + 63, pos + 83));
        assert(line.subrange(84, 104) =~= bytes@.subrange(pos + 84, pos + 104));
        assert(line.subrange(105, 125) =~= bytes@.subrange(pos + 105, pos + 125));
    }
    let f0 = parse_field_at(bytes, pos);
    let f1 = parse_field_at(bytes, pos + 21);
    let f2 = parse_field_at(bytes, pos + 42);
    let f3 = parse_field_at(bytes, pos + 63);
    let f4 = parse_field_at(bytes, pos + 84);
    let f5 = parse_field_at(bytes, pos + 105);
    match (f0, f1, f2, f3, f4, f5) {
        (Some(a0), Some(a1), Some(a2), Some(a3), Some(a4), Some(a5)) => Some(
            TradeRecord {
                block_or_step: a0,
                amount_in: a1,
                amount_out: a2,
                asset_in: a3,
                asset_out: a4,
                resulting_price: a5,
            },
        ),
        _ => None,
    }
}

/// Parses a persisted record file, all or nothing: a malformed row aborts
/// the import with `MalformedRecord` naming its one-based line number (the
/// header is line one), and no records are returned.
#[verifier::rlimit(100)]
pub fn parse_dataset(bytes: &Vec<u8>) -> (r: Result<BacktestDataset, SimError>)
    ensures
        spec_parse_dataset(bytes@) matches Ok(rs) ==> (r matches Ok(d) && d.records@ == rs),
        spec_parse_dataset(bytes@) matches Err(l) ==> (r matches Err(e) && e == (
        SimError::MalformedRecord { line: l })),
{
    if bytes.len() < 52 {
        return Err(SimError::MalformedRecord { line: 1 });
    }
    let mut expected: Vec<u8> = Vec::new();
    push_header(&mut expected);
    proof {
        assert(expected@ =~= spec_header());
    }
    let mut k: usize = 0;
    while k < 52
        invariant
            bytes@.len() >= 52,
            k <= 52,
            expected@ == spec_header(),
            forall|j: int| 0 <= j < k ==> bytes@[j] == spec_header()[j],
        decreases 52 - k,
    {
        if bytes[k] != expected[k] {
            proof {
                assert(bytes@.take(52)[k as int] == bytes@[k as int]);
            }
            return Err(SimError::MalformedRecord { line: 1 });
        }
        k = k + 1;
    }
    proof {
        assert(bytes@.take(52) =~= spec_header());
    }
    let mut out: Vec<TradeRecord> = Vec::new();
    let mut pos: usize = 52;
    let mut line_no: u64 = 2;
    while pos < bytes.len()
        invariant
            52 <= pos <= bytes@.len(),
            2 <= line_no,
            (line_no - 2) * 126 == pos - 52,
            bytes@.take(52) == spec_header(),
            spec_parse_records(bytes@.skip(52), 2) == (match spec_parse_records(
                bytes@.skip(pos as int),
                line_no,
            ) {
                Ok(rest) => Ok::<Seq<TradeRecord>, u64>(out@ + rest),
                Err(l) => Err::<Seq<TradeRecord>, u64>(l),
            }),
        decreases bytes@.len() - pos,
    {
        if bytes.len() - pos < 126 {
            return Err(SimError::MalformedRecord { line: line_no });
        }
        proof {
            assert(bytes@.skip(pos as int).take(126) =~= bytes@.subrange(
                pos as int,
                pos as int + 126,
            ));
            assert(bytes@.skip(pos as int).skip(126) =~= bytes@.skip(pos as int + 126));
            assert(bytes@.skip(pos as int).len() == bytes@.len() - pos);
        }
        match parse_record_at(bytes, pos) {
            None => {
                return Err(SimError::MalformedRecord { line: line_no });
            },
            Some(t) => {
                let ghost out_pre = out@;
                out.push(t);
                proof {
                    let tail = spec_parse_records(
                        bytes@.skip(pos as int + 126),
                        (line_no + 1) as u64,
                    );
                    match tail {
                        Ok(rest2) => {
                            assert(out_pre + (seq![t] + rest2) =~= out@ + rest2);
                        },
                        Err(_) => {},
                    }
                }
            },
        }
        pos = pos + 126;
        line_no = line_no + 1;
    }
    proof {
        assert(bytes@.skip(pos as int).len() == 0);
        assert(out@ + Seq::<TradeRecord>::empty() =~= out@);
    }
    Ok(BacktestDataset { records: out })
}

} // verus!
