//! Records of comma-separated values as bytes.
//!
//! Fields are text. Turning a record into bytes (delimiters, quoting, the
//! record terminator) is the work of the `csv` crate; what this module adds
//! is the framing of a record as one line of an append log.
use vstd::prelude::*;

verus! {

/// The byte that ends a line.
pub const LINE_FEED: u8 = 10;

/// `csv::Error`, the error of the `csv` crate: carried through, never looked
/// into.
#[verifier::external_type_specification]
#[verifier::external_body]
pub struct ExCsvError(csv::Error);

/// The bytes that a `csv::Writer` in its default configuration writes for one
/// record with the given fields, record terminator included.
pub uninterp spec fn csv_record(fields: Seq<Seq<char>>) -> Seq<u8>;

/// Serializes one record with `csv::Writer::write_record`, on a fresh writer
/// that `csv::Writer::from_writer` makes over an empty byte vector, and takes
/// the bytes back with `csv::Writer::into_inner`.
///
/// Not proved but taken on trust:
/// - The writer reports no error. A writer reports an error when the
///   record's number of fields differs from that of the first record it
///   wrote, or when its sink fails. Here the record is the writer's first,
///   and the sink is a byte vector in memory, which takes every write.
/// - The bytes are those that [`csv_record`] names for these fields.
#[verifier::external_body]
pub(crate) fn write_csv_record(fields: &Vec<String>) -> (written: Result<Vec<u8>, csv::Error>)
    ensures
        written is Ok,
        written matches Ok(bytes) ==> bytes@ == csv_record(fields.deep_view()),
{
    let mut writer = csv::Writer::from_writer(Vec::new());
    match writer.write_record(fields) {
        Ok(()) => match writer.into_inner() {
            Ok(bytes) => Ok(bytes),
            Err(e) => Err(csv::Error::from(e.into_error())),
        },
        Err(e) => Err(e),
    }
}

/// `bytes` with every line feed taken out.
pub open spec fn without_line_feeds(bytes: Seq<u8>) -> Seq<u8> {
    bytes.filter(|b: u8| b != LINE_FEED)
}

/// `bytes` as one line: no line feed inside, and exactly one at the end.
pub open spec fn single_line(bytes: Seq<u8>) -> Seq<u8> {
    without_line_feeds(bytes).push(LINE_FEED)
}

/// Frames a serialized record as one line of an append log: line feeds that
/// the serialization holds, its own terminator among them, are dropped, and
/// a single line feed ends the line.
pub fn normalize_row(serialized: &Vec<u8>) -> (line: Vec<u8>)
    ensures
        line@ == single_line(serialized@),
{
    let mut line: Vec<u8> = Vec::new();
    let mut i: usize = 0;
    proof {
        reveal(Seq::filter);
        assert(serialized@.take(0) =~= Seq::<u8>::empty());
    }
    while i < serialized.len()
        invariant
            0 <= i <= serialized.len(),
            line@ == without_line_feeds(serialized@.take(i as int)),
        decreases serialized.len() - i,
    {
        let b: u8 = serialized[i];
        proof {
            reveal(Seq::filter);
            let next = serialized@.take(i + 1);
            assert(next.drop_last() =~= serialized@.take(i as int));
            assert(next.last() == b);
        }
        if b != LINE_FEED {
            line.push(b);
        }
        i = i + 1;
    }
    proof {
        assert(serialized@.take(i as int) =~= serialized@);
    }
    line.push(LINE_FEED);
    line
}

} // verus!
