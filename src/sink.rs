use vstd::prelude::*;
use crate::decimal::{decimal_digits, lemma_decimal_round_trip, digits_value};
use crate::record::RoundRecord;

verus! {

pub open spec fn is_plain_char(c: char) -> bool {
    ('0' <= c && c <= '9') || ('a' <= c && c <= 'z') || ('A' <= c && c <= 'Z')
}

/// A field that CSV writes as it is: ASCII letters and digits, not empty.
pub open spec fn is_plain_field(s: Seq<char>) -> bool {
    s.len() > 0 && forall|i: int| 0 <= i < s.len() ==> is_plain_char(#[trigger] s[i])
}

/// The fields separated by commas.
pub open spec fn comma_joined(fields: Seq<Seq<char>>) -> Seq<char>
    decreases fields.len(),
{
    if fields.len() == 0 {
        Seq::empty()
    } else if fields.len() == 1 {
        fields[0]
    } else {
        comma_joined(fields.drop_last()) + seq![','] + fields.last()
    }
}

/// One CSV line of plain fields, with its line end.
pub open spec fn csv_line(fields: Seq<Seq<char>>) -> Seq<char> {
    comma_joined(fields).push('\n')
}

/// The column names.
pub open spec fn header_fields() -> Seq<Seq<char>> {
    seq!["roundId"@, "answer"@, "startedAt"@, "updatedAt"@, "answeredInRound"@]
}

/// The cells of a round's row: each value in decimal.
pub open spec fn record_fields(r: RoundRecord) -> Seq<Seq<char>> {
    r.values().map_values(|v: nat| decimal_digits(v))
}

pub open spec fn header_line() -> Seq<char> {
    csv_line(header_fields())
}

pub open spec fn record_line(r: RoundRecord) -> Seq<char> {
    csv_line(record_fields(r))
}

/// The rows of the given rounds, one after the other.
pub open spec fn record_lines(rs: Seq<RoundRecord>) -> Seq<char>
    decreases rs.len(),
{
    if rs.len() == 0 {
        Seq::empty()
    } else {
        record_lines(rs.drop_last()) + record_line(rs.last())
    }
}

/// A whole output file: the header, then a row per round.
pub open spec fn csv_text(rs: Seq<RoundRecord>) -> Seq<char> {
    header_line() + record_lines(rs)
}

/// Relies on `csv::Writer::write_record` and `csv::Writer::into_inner` over
/// an in-memory buffer: with the default settings a field of ASCII letters
/// and digits is written unquoted, fields are separated by `,`, a record ends
/// with `\n`, and writing into a `Vec<u8>` cannot fail.
#[verifier::external_body]
fn csv_record(fields: &Vec<String>) -> (r: Option<String>)
    requires
        fields@.len() >= 1,
        forall|i: int| 0 <= i < fields@.len() ==> is_plain_field(#[trigger] fields@[i]@),
    ensures
        r is Some,
        r->Some_0@ == csv_line(fields@.map_values(|f: String| f@)),
{
    let mut wtr = csv::Writer::from_writer(Vec::new());
    wtr.write_record(fields).ok()?;
    let bytes = wtr.into_inner().ok()?;
    String::from_utf8(bytes).ok()
}

fn write_line(fields: &Vec<String>) -> (r: String)
    requires
        fields@.len() >= 1,
        forall|i: int| 0 <= i < fields@.len() ==> is_plain_field(#[trigger] fields@[i]@),
    ensures
        r@ == csv_line(fields@.map_values(|f: String| f@)),
{
    match csv_record(fields) {
        Some(line) => line,
        None => String::new(),
    }
}

proof fn lemma_decimal_plain(n: nat)
    ensures
        is_plain_field(decimal_digits(n)),
{
    lemma_decimal_round_trip(n);
}

/// The header row: `roundId,answer,startedAt,updatedAt,answeredInRound`.
pub fn header_row() -> (r: String)
    ensures
        r@ == header_line(),
        r@ == "roundId,answer,startedAt,updatedAt,answeredInRound\n"@,
{
    let mut fields: Vec<String> = Vec::new();
    fields.push(String::from_str("roundId"));
    fields.push(String::from_str("answer"));
    fields.push(String::from_str("startedAt"));
    fields.push(String::from_str("updatedAt"));
    fields.push(String::from_str("answeredInRound"));
    proof {
        reveal_strlit("roundId");
        reveal_strlit("answer");
        reveal_strlit("startedAt");
        reveal_strlit("updatedAt");
        reveal_strlit("answeredInRound");
        assert(fields@.map_values(|f: String| f@) =~= header_fields());
        reveal_strlit("roundId,answer,startedAt,updatedAt,answeredInRound\n");
        reveal_with_fuel(comma_joined, 6);
        assert(header_line() =~= "roundId,answer,startedAt,updatedAt,answeredInRound\n"@);
    }
    write_line(&fields)
}

/// The row of one round: its five values in decimal, in column order.
pub fn record_row(rec: &RoundRecord) -> (r: String)
    ensures
        r@ == record_line(*rec),
{
    let mut fields: Vec<String> = Vec::new();
    fields.push(rec.round_id.to_decimal());
    fields.push(rec.answer.to_decimal());
    fields.push(rec.started_at.to_decimal());
    fields.push(rec.updated_at.to_decimal());
    fields.push(rec.answered_in_round.to_decimal());
    proof {
        lemma_decimal_plain(rec.round_id.value());
        lemma_decimal_plain(rec.answer.value());
        lemma_decimal_plain(rec.started_at.value());
        lemma_decimal_plain(rec.updated_at.value());
        lemma_decimal_plain(rec.answered_in_round.value());
        assert(fields@.map_values(|f: String| f@) =~= record_fields(*rec));
    }
    write_line(&fields)
}

/// Each cell of a round's row reads back, in decimal, as the value it
/// renders, and carries no leading zero but for the value zero.
pub proof fn lemma_record_cells_round_trip(rec: RoundRecord)
    ensures
        record_fields(rec).len() == 5,
        forall|i: int|
            0 <= i < 5 ==> {
                &&& digits_value(#[trigger] record_fields(rec)[i]) == rec.values()[i]
                &&& (record_fields(rec)[i][0] == '0' ==> record_fields(rec)[i].len() == 1)
            },
{
    assert forall|i: int| 0 <= i < 5 implies {
        &&& digits_value(#[trigger] record_fields(rec)[i]) == rec.values()[i]
        &&& (record_fields(rec)[i][0] == '0' ==> record_fields(rec)[i].len() == 1)
    } by {
        lemma_decimal_round_trip(rec.values()[i]);
    }
}

} // verus!
