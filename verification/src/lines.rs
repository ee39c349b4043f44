//! The delimited-line form of a catalog: one record on each line, its
//! fields in the order time stamp, title, year, price, with a bar
//! between them.
//!
//! A field that holds a bar or a line end does not survive: on reading
//! the line falls into more than four fields, or into two lines, and is
//! skipped. This is a limit of the form, and it is left as it is.

use vstd::prelude::*;
use vstd::string::*;
use crate::record::{
    parse_year, text_view, text_views, year_of, MovieInfo, MovieText, MovieTextView, MovieView,
};
use crate::clock::is_timestamp_text;
use crate::text::{
    decimal, is_digit, lemma_decimal_reads_back, lemma_trim_keeps_number, signed_decimal,
    signed_decimal_text, texts,
};

verus! {

/// The pieces into which `s` falls at each `delimiter`. There is always
/// at least one; between two delimiters, and before the first and after
/// the last, a piece may be empty.
pub open spec fn pieces(s: Seq<char>, delimiter: char) -> Seq<Seq<char>>
    decreases s.len(),
{
    if s.len() == 0 {
        seq![Seq::<char>::empty()]
    } else {
        let head = pieces(s.drop_last(), delimiter);
        if s.last() == delimiter {
            head.push(Seq::<char>::empty())
        } else {
            head.drop_last().push(head.last().push(s.last()))
        }
    }
}

/// The line that holds `row`.
pub open spec fn line_of(row: MovieTextView) -> Seq<char> {
    ((row.timestamp.push('|') + row.title).push('|') + signed_decimal(row.year)).push('|')
        + row.price
}

/// The record that `line` holds, if it falls into exactly four fields.
/// The year is read leniently.
pub open spec fn row_of(line: Seq<char>) -> Option<MovieTextView> {
    let fields = pieces(line, '|');
    if fields.len() == 4 {
        Some(
            MovieView {
                timestamp: fields[0],
                title: fields[1],
                year: year_of(fields[2]),
                price: fields[3],
            },
        )
    } else {
        None
    }
}

/// The document that holds `rows`: their lines in order, each ended by
/// a line end.
pub open spec fn document_of(rows: Seq<MovieTextView>) -> Seq<char>
    decreases rows.len(),
{
    if rows.len() == 0 {
        Seq::<char>::empty()
    } else {
        (document_of(rows.drop_last()) + line_of(rows.last())).push('\n')
    }
}

/// The records that `lines` hold, in order; a line that holds none is
/// passed over.
pub open spec fn rows_in(lines: Seq<Seq<char>>) -> Seq<MovieTextView>
    decreases lines.len(),
{
    if lines.len() == 0 {
        Seq::<MovieTextView>::empty()
    } else {
        match row_of(lines.last()) {
            Some(row) => rows_in(lines.drop_last()).push(row),
            None => rows_in(lines.drop_last()),
        }
    }
}

/// The records that the document `text` holds.
pub open spec fn rows_of_document(text: Seq<char>) -> Seq<MovieTextView> {
    rows_in(pieces(text, '\n'))
}

/// Whether `s` is free of bars and line ends.
pub open spec fn is_plain(s: Seq<char>) -> bool {
    forall|i: int| 0 <= i < s.len() ==> #[trigger] s[i] != '|' && s[i] != '\n'
}

/// Whether a record can be written down and read back: its texts are
/// plain and its year is one that a record can hold.
pub open spec fn is_storable(row: MovieTextView) -> bool {
    &&& is_plain(row.timestamp)
    &&& is_plain(row.title)
    &&& is_plain(row.price)
    &&& i32::MIN <= row.year <= i32::MAX
}

/// Splits `s` at each `delimiter`.
pub fn split(s: &str, delimiter: char) -> (parts: Vec<String>)
    ensures
        texts(parts@) == pieces(s@, delimiter),
{
    let n: usize = s.unicode_len();
    let mut parts: Vec<String> = Vec::new();
    let mut start: usize = 0;
    let mut i: usize = 0;
    proof {
        assert(s@.take(0) =~= Seq::<char>::empty());
        assert(pieces(s@.take(0), delimiter) =~= texts(parts@).push(s@.subrange(0, 0)));
    }
    while i < n
        invariant
            start <= i <= n,
            n == s@.len(),
            pieces(s@.take(i as int), delimiter) == texts(parts@).push(
                s@.subrange(start as int, i as int),
            ),
        decreases n - i,
    {
        let ghost before = parts@;
        let ghost head = pieces(s@.take(i as int), delimiter);
        let c: char = s.get_char(i);
        proof {
            let t = s@.take(i as int + 1);
            assert(t.drop_last() =~= s@.take(i as int));
            assert(t.last() == c);
            assert(head.drop_last() =~= texts(before));
            assert(head.last() == s@.subrange(start as int, i as int));
            assert(s@.subrange(start as int, i as int).push(c) =~= s@.subrange(
                start as int,
                i as int + 1,
            ));
        }
        if c == delimiter {
            parts.push(String::from_str(s.substring_char(start, i)));
            start = i + 1;
            proof {
                assert(s@.subrange(start as int, start as int) =~= Seq::<char>::empty());
                assert(texts(parts@) =~= head);
            }
        }
        i += 1;
    }
    parts.push(String::from_str(s.substring_char(start, n)));
    proof {
        assert(s@.take(n as int) =~= s@);
        assert(texts(parts@) =~= pieces(s@, delimiter));
    }
    parts
}

/// Writes one record as a line.
pub fn format_line(row: &MovieText) -> (line: String)
    ensures
        line@ == line_of(text_view(*row)),
{
    let line: String = row.timestamp.clone().concat("|").concat(row.title.as_str()).concat(
        "|",
    ).concat(signed_decimal_text(row.year).as_str()).concat("|").concat(row.price.as_str());
    proof {
        reveal_strlit("|");
        assert("|"@ =~= seq!['|']);
        assert(line@ =~= line_of(text_view(*row)));
    }
    line
}

/// Reads one line. A line that does not fall into exactly four fields
/// holds no record.
pub fn parse_line(line: &str) -> (row: Option<MovieText>)
    ensures
        match row_of(line@) {
            Some(v) => row.is_some() && text_view(row.unwrap()) == v,
            None => row.is_none(),
        },
{
    let mut fields: Vec<String> = split(line, '|');
    let ghost all = texts(fields@);
    if fields.len() != 4 {
        return None;
    }
    let price: String = fields.pop().unwrap();
    let year_text: String = fields.pop().unwrap();
    let title: String = fields.pop().unwrap();
    let timestamp: String = fields.pop().unwrap();
    proof {
        assert(price@ == all[3]);
        assert(year_text@ == all[2]);
        assert(title@ == all[1]);
        assert(timestamp@ == all[0]);
    }
    Some(MovieInfo { timestamp, title, year: parse_year(year_text.as_str()), price })
}

/// Writes the records as a document, one line each.
pub fn save_lines(rows: &Vec<MovieText>) -> (text: String)
    ensures
        text@ == document_of(text_views(rows@)),
{
    let mut text: String = String::new();
    let ghost all = text_views(rows@);
    let mut i: usize = 0;
    proof {
        assert(text@ =~= document_of(all.take(0)));
    }
    while i < rows.len()
        invariant
            i <= rows@.len(),
            all == text_views(rows@),
            text@ == document_of(all.take(i as int)),
        decreases rows@.len() - i,
    {
        let line: String = format_line(&rows[i]);
        text.append(line.as_str());
        text.append("\n");
        proof {
            reveal_strlit("\n");
            assert("\n"@ =~= seq!['\n']);
            let upto = all.take(i as int + 1);
            assert(upto.drop_last() =~= all.take(i as int));
            assert(upto.last() == text_view(rows@[i as int]));
            assert(text@ =~= document_of(upto));
        }
        i += 1;
    }
    proof {
        assert(all.take(i as int) =~= all);
    }
    text
}

/// Reads the records of a document, passing over the lines that hold
/// none.
pub fn load_lines(text: &str) -> (rows: Vec<MovieText>)
    ensures
        text_views(rows@) == rows_of_document(text@),
{
    let lines: Vec<String> = split(text, '\n');
    let ghost all = texts(lines@);
    let mut rows: Vec<MovieText> = Vec::new();
    let mut i: usize = 0;
    proof {
        assert(text_views(rows@) =~= rows_in(all.take(0)));
    }
    while i < lines.len()
        invariant
            i <= lines@.len(),
            all == texts(lines@),
            text_views(rows@) == rows_in(all.take(i as int)),
        decreases lines@.len() - i,
    {
        let ghost before = rows@;
        proof {
            let upto = all.take(i as int + 1);
            assert(upto.drop_last() =~= all.take(i as int));
            assert(upto.last() == lines@[i as int]@);
        }
        match parse_line(lines[i].as_str()) {
            Some(row) => {
                rows.push(row);
                proof {
                    assert(text_views(rows@) =~= text_views(before).push(text_view(row)));
                }
            },
            None => {},
        }
        i += 1;
    }
    proof {
        assert(all.take(i as int) =~= all);
    }
    rows
}

/// Splitting always gives at least one piece.
pub proof fn lemma_pieces_nonempty(s: Seq<char>, delimiter: char)
    ensures
        pieces(s, delimiter).len() >= 1,
    decreases s.len(),
{
    if s.len() > 0 {
        lemma_pieces_nonempty(s.drop_last(), delimiter);
    }
}

/// Text without the delimiter, put behind `s`, lengthens the last piece
/// of `s` and changes nothing else.
pub proof fn lemma_pieces_extend(s: Seq<char>, t: Seq<char>, delimiter: char)
    requires
        forall|i: int| 0 <= i < t.len() ==> t[i] != delimiter,
    ensures
        pieces(s, delimiter).len() >= 1,
        pieces(s + t, delimiter) == pieces(s, delimiter).drop_last().push(
            pieces(s, delimiter).last() + t,
        ),
    decreases t.len(),
{
    let p = pieces(s, delimiter);
    lemma_pieces_nonempty(s, delimiter);
    if t.len() == 0 {
        assert(s + t =~= s);
        assert(p.last() + t =~= p.last());
        assert(p.drop_last().push(p.last()) =~= p);
    } else {
        let shorter = t.drop_last();
        lemma_pieces_extend(s, shorter, delimiter);
        let h = pieces(s + shorter, delimiter);
        assert((s + t).drop_last() =~= s + shorter);
        assert((s + t).last() == t.last());
        assert(h.drop_last() =~= p.drop_last());
        assert(h.last().push(t.last()) =~= p.last() + t);
    }
}

/// A delimiter put behind `s` opens a new, empty piece.
pub proof fn lemma_pieces_close(s: Seq<char>, delimiter: char)
    ensures
        pieces(s.push(delimiter), delimiter) == pieces(s, delimiter).push(Seq::<char>::empty()),
{
    assert(s.push(delimiter).drop_last() =~= s);
}

/// The decimal form of a number holds digits and at most a sign.
pub proof fn lemma_number_is_plain(v: int)
    ensures
        is_plain(signed_decimal(v)),
{
    let s = signed_decimal(v);
    if v < 0 {
        lemma_decimal_reads_back((-v) as nat);
        let d = decimal((-v) as nat);
        assert forall|i: int| 0 <= i < s.len() implies #[trigger] s[i] != '|' && s[i] != '\n' by {
            if i > 0 {
                assert(s[i] == d[i - 1]);
                assert(is_digit(d[i - 1]));
            }
        }
    } else {
        lemma_decimal_reads_back(v as nat);
        assert forall|i: int| 0 <= i < s.len() implies #[trigger] s[i] != '|' && s[i] != '\n' by {
            assert(is_digit(s[i]));
        }
    }
}

/// A year that was written down reads back as itself.
pub proof fn lemma_year_reads_back(year: int)
    requires
        i32::MIN <= year <= i32::MAX,
    ensures
        year_of(signed_decimal(year)) == year,
{
    let s = signed_decimal(year);
    lemma_trim_keeps_number(year);
    if year < 0 {
        lemma_decimal_reads_back((-year) as nat);
        assert(s[0] == '-');
        assert(s.drop_first() =~= decimal((-year) as nat));
    } else {
        lemma_decimal_reads_back(year as nat);
        assert(is_digit(s[0]));
    }
}

/// A time stamp holds no bar and no line end, so it can always be
/// written down.
pub proof fn law_timestamp_is_plain(text: Seq<char>)
    requires
        is_timestamp_text(text),
    ensures
        is_plain(text),
{
}

/// The line of a record that can be stored falls into the record's
/// four fields.
pub proof fn lemma_line_fields(row: MovieTextView)
    requires
        is_storable(row),
    ensures
        pieces(line_of(row), '|') == seq![
            row.timestamp,
            row.title,
            signed_decimal(row.year),
            row.price,
        ],
{
    let nothing = Seq::<char>::empty();
    let number = signed_decimal(row.year);
    lemma_number_is_plain(row.year);
    let a = row.timestamp;
    lemma_pieces_extend(nothing, a, '|');
    assert(nothing + a =~= a);
    assert(pieces(a, '|') =~= seq![a]);
    let b = a.push('|');
    lemma_pieces_close(a, '|');
    assert(pieces(b, '|') =~= seq![a, nothing]);
    let c = b + row.title;
    lemma_pieces_extend(b, row.title, '|');
    assert(nothing + row.title =~= row.title);
    assert(pieces(c, '|') =~= seq![a, row.title]);
    let d = c.push('|');
    lemma_pieces_close(c, '|');
    assert(pieces(d, '|') =~= seq![a, row.title, nothing]);
    let e = d + number;
    lemma_pieces_extend(d, number, '|');
    assert(nothing + number =~= number);
    assert(pieces(e, '|') =~= seq![a, row.title, number]);
    let f = e.push('|');
    lemma_pieces_close(e, '|');
    assert(pieces(f, '|') =~= seq![a, row.title, number, nothing]);
    lemma_pieces_extend(f, row.price, '|');
    assert(nothing + row.price =~= row.price);
    assert(pieces(f + row.price, '|') =~= seq![a, row.title, number, row.price]);
}

/// Writing one record as a line and reading the line gives the record
/// back, provided that its texts hold no bar and no line end.
pub proof fn law_line_round_trip(row: MovieTextView)
    requires
        is_storable(row),
    ensures
        row_of(line_of(row)) == Some(row),
{
    lemma_line_fields(row);
    lemma_year_reads_back(row.year);
}

/// The line of a record that can be stored holds no line end.
pub proof fn lemma_line_has_no_break(row: MovieTextView)
    requires
        is_storable(row),
    ensures
        forall|i: int| 0 <= i < line_of(row).len() ==> line_of(row)[i] != '\n',
{
    lemma_number_is_plain(row.year);
}

/// The lines of `rows`, in order.
pub open spec fn lines_of(rows: Seq<MovieTextView>) -> Seq<Seq<char>> {
    rows.map_values(|r: MovieTextView| line_of(r))
}

/// The document of records that can be stored falls into their lines,
/// and one empty piece behind the last line end.
pub proof fn lemma_document_lines(rows: Seq<MovieTextView>)
    requires
        forall|i: int| 0 <= i < rows.len() ==> is_storable(#[trigger] rows[i]),
    ensures
        pieces(document_of(rows), '\n') == lines_of(rows).push(Seq::<char>::empty()),
    decreases rows.len(),
{
    let nothing = Seq::<char>::empty();
    if rows.len() == 0 {
        assert(pieces(document_of(rows), '\n') =~= lines_of(rows).push(nothing));
    } else {
        let init = rows.drop_last();
        let line = line_of(rows.last());
        lemma_document_lines(init);
        lemma_line_has_no_break(rows.last());
        lemma_pieces_extend(document_of(init), line, '\n');
        lemma_pieces_close(document_of(init) + line, '\n');
        assert(nothing + line =~= line);
        assert(lines_of(init).push(nothing).drop_last() =~= lines_of(init));
        assert(lines_of(init).push(line) =~= lines_of(rows));
    }
}

/// Reading the lines of records that can be stored gives the records.
pub proof fn lemma_rows_in_lines(rows: Seq<MovieTextView>)
    requires
        forall|i: int| 0 <= i < rows.len() ==> is_storable(#[trigger] rows[i]),
    ensures
        rows_in(lines_of(rows)) == rows,
    decreases rows.len(),
{
    if rows.len() == 0 {
        assert(rows_in(lines_of(rows)) =~= rows);
    } else {
        lemma_rows_in_lines(rows.drop_last());
        law_line_round_trip(rows.last());
        assert(lines_of(rows).drop_last() =~= lines_of(rows.drop_last()));
        assert(lines_of(rows).last() == line_of(rows.last()));
        assert(rows.drop_last().push(rows.last()) =~= rows);
    }
}

/// Writing a catalog down and reading the document gives the same
/// records in the same order, provided that no text of a record holds
/// a bar or a line end.
pub proof fn law_document_round_trip(rows: Seq<MovieTextView>)
    requires
        forall|i: int| 0 <= i < rows.len() ==> is_storable(#[trigger] rows[i]),
    ensures
        rows_of_document(document_of(rows)) == rows,
{
    let nothing = Seq::<char>::empty();
    lemma_document_lines(rows);
    lemma_rows_in_lines(rows);
    let lines = lines_of(rows).push(nothing);
    assert(lines.drop_last() =~= lines_of(rows));
    assert(pieces(nothing, '|') =~= seq![nothing]);
    assert(row_of(lines.last()).is_none());
}

} // verus!
