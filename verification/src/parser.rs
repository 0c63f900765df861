//! The CSV parser: turns CSV text into a sequence of [`Record`] values.
//!
//! The grammar is defined by a character-level state machine
//! ([`tok_step`]/[`tok_finish`]): fields are separated by commas, records by
//! `\n`, `\r` or `\r\n`, empty lines are skipped, and a field may be quoted
//! with double quotes, in which case `""` stands for one literal quote and
//! separators lose their meaning until the closing quote.  The first record
//! is the header: it must name the three columns `id`, `name` and `email`
//! (any order, any letter case), and every data record must supply exactly
//! three fields.  Any record that does not fails the whole parse.

use vstd::prelude::*;

use vstd::string::StringExecFns;

use crate::record::{Record, RecordModel};
use crate::text::{chars_eq, chars_vec, dec_str, lower_chars, lower_vec, push_dec, string_from_chars};

verus! {

/// The ways a parse can fail.
#[derive(PartialEq, Eq, Structural, Clone, Copy, Debug)]
pub enum ParseErrorKind {
    /// A quoted field was still open at the end of the input.
    UnterminatedQuote,
    /// A closing quote was followed by something other than a separator.
    CharAfterQuote,
    /// The header does not name exactly the columns `id`, `name`, `email`.
    BadHeader,
    /// A data record does not have exactly three fields.
    WrongFieldCount,
}

/// A parse failure, identifying the offending record.
#[derive(PartialEq, Eq, Structural, Clone, Copy, Debug)]
pub struct ParseError {
    pub kind: ParseErrorKind,
    /// The 1-based number of the offending record; the header is record 1.
    pub record: usize,
    /// For `BadHeader` and `WrongFieldCount`: the number of fields found.
    pub fields: usize,
}

/// The descriptive text for a parse failure, identifying the offending
/// record.
pub open spec fn err_msg(e: ParseError) -> Seq<char> {
    "record "@ + dec_str(e.record as nat) + (match e.kind {
        ParseErrorKind::UnterminatedQuote => ": unterminated quoted field"@,
        ParseErrorKind::CharAfterQuote => ": unexpected character after closing quote"@,
        ParseErrorKind::BadHeader => ": header must name the columns id, name, email"@,
        ParseErrorKind::WrongFieldCount => ": expected 3 fields, found "@ + dec_str(
            e.fields as nat,
        ),
    })
}

impl ParseError {
    /// Renders the error as text, per [`err_msg`].
    pub fn message(&self) -> (s: String)
        ensures
            s@ == err_msg(*self),
    {
        let mut s = String::new();
        s.append("record ");
        push_dec(&mut s, self.record);
        match self.kind {
            ParseErrorKind::UnterminatedQuote => {
                s.append(": unterminated quoted field");
            },
            ParseErrorKind::CharAfterQuote => {
                s.append(": unexpected character after closing quote");
            },
            ParseErrorKind::BadHeader => {
                s.append(": header must name the columns id, name, email");
            },
            ParseErrorKind::WrongFieldCount => {
                s.append(": expected 3 fields, found ");
                push_dec(&mut s, self.fields);
            },
        }
        proof {
            assert(s@ =~= err_msg(*self));
        }
        s
    }
}

/// Where the tokenizer stands between two characters.
#[derive(PartialEq, Eq, Structural, Clone, Copy, Debug)]
pub enum Mode {
    /// At the start of a line, nothing read for the current record yet.
    LineStart,
    /// Right after a `\r` that ended a record; a following `\n` is consumed.
    AfterCr,
    /// Right after a comma, at the start of a field.
    FieldStart,
    /// Inside an unquoted field.
    Unquoted,
    /// Inside a quoted field.
    Quoted,
    /// Right after a quote character read inside a quoted field.
    QuoteSeen,
    /// The input is not valid CSV text.
    Failed(ParseError),
}

/// The tokenizer state: finished records, the record and field in progress,
/// and the mode.
pub struct TokState {
    pub rows: Seq<Seq<Seq<char>>>,
    pub cur_row: Seq<Seq<char>>,
    pub cur_field: Seq<char>,
    pub mode: Mode,
}

/// Whether the tokenizer is in the middle of a record.
pub open spec fn in_row(m: Mode) -> bool {
    m is FieldStart || m is Unquoted || m is Quoted || m is QuoteSeen
}

/// The state before any character has been read.
pub open spec fn init_state() -> TokState {
    TokState {
        rows: Seq::empty(),
        cur_row: Seq::empty(),
        cur_field: Seq::empty(),
        mode: Mode::LineStart,
    }
}

/// Ends the current record (closing the current field) and starts a new one.
pub open spec fn flush_row(st: TokState, m: Mode) -> TokState {
    TokState {
        rows: st.rows.push(st.cur_row.push(st.cur_field)),
        cur_row: Seq::empty(),
        cur_field: Seq::empty(),
        mode: m,
    }
}

/// Ends the current field and moves to the start of the next one.
pub open spec fn end_field(st: TokState) -> TokState {
    TokState {
        rows: st.rows,
        cur_row: st.cur_row.push(st.cur_field),
        cur_field: Seq::empty(),
        mode: Mode::FieldStart,
    }
}

/// One step of the tokenizer from [`Mode::LineStart`].
pub open spec fn step_line_start(st: TokState, c: char) -> TokState {
    if c == '"' {
        TokState { rows: st.rows, cur_row: st.cur_row, cur_field: st.cur_field, mode: Mode::Quoted }
    } else if c == ',' {
        end_field(st)
    } else if c == '\n' || c == '\r' {
        st
    } else {
        TokState {
            rows: st.rows,
            cur_row: st.cur_row,
            cur_field: st.cur_field.push(c),
            mode: Mode::Unquoted,
        }
    }
}

/// One step of the tokenizer on the next input character.
pub open spec fn tok_step(st: TokState, c: char) -> TokState {
    match st.mode {
        Mode::Failed(_) => st,
        Mode::LineStart => step_line_start(st, c),
        Mode::AfterCr => {
            let back = TokState {
                rows: st.rows,
                cur_row: st.cur_row,
                cur_field: st.cur_field,
                mode: Mode::LineStart,
            };
            if c == '\n' {
                back
            } else {
                step_line_start(back, c)
            }
        },
        Mode::FieldStart => {
            if c == '"' {
                TokState {
                    rows: st.rows,
                    cur_row: st.cur_row,
                    cur_field: st.cur_field,
                    mode: Mode::Quoted,
                }
            } else if c == ',' {
                end_field(st)
            } else if c == '\n' {
                flush_row(st, Mode::LineStart)
            } else if c == '\r' {
                flush_row(st, Mode::AfterCr)
            } else {
                TokState {
                    rows: st.rows,
                    cur_row: st.cur_row,
                    cur_field: st.cur_field.push(c),
                    mode: Mode::Unquoted,
                }
            }
        },
        Mode::Unquoted => {
            if c == ',' {
                end_field(st)
            } else if c == '\n' {
                flush_row(st, Mode::LineStart)
            } else if c == '\r' {
                flush_row(st, Mode::AfterCr)
            } else {
                TokState {
                    rows: st.rows,
                    cur_row: st.cur_row,
                    cur_field: st.cur_field.push(c),
                    mode: Mode::Unquoted,
                }
            }
        },
        Mode::Quoted => {
            if c == '"' {
                TokState {
                    rows: st.rows,
                    cur_row: st.cur_row,
                    cur_field: st.cur_field,
                    mode: Mode::QuoteSeen,
                }
            } else {
                TokState {
                    rows: st.rows,
                    cur_row: st.cur_row,
                    cur_field: st.cur_field.push(c),
                    mode: Mode::Quoted,
                }
            }
        },
        Mode::QuoteSeen => {
            if c == '"' {
                TokState {
                    rows: st.rows,
                    cur_row: st.cur_row,
                    cur_field: st.cur_field.push('"'),
                    mode: Mode::Quoted,
                }
            } else if c == ',' {
                end_field(st)
            } else if c == '\n' {
                flush_row(st, Mode::LineStart)
            } else if c == '\r' {
                flush_row(st, Mode::AfterCr)
            } else {
                TokState {
                    rows: st.rows,
                    cur_row: st.cur_row,
                    cur_field: st.cur_field,
                    mode: Mode::Failed(
                        ParseError {
                            kind: ParseErrorKind::CharAfterQuote,
                            record: (st.rows.len() + 1) as usize,
                            fields: 0,
                        },
                    ),
                }
            }
        },
    }
}

/// What the tokenizer yields once the input is exhausted.
pub open spec fn tok_finish(st: TokState) -> Result<Seq<Seq<Seq<char>>>, ParseError> {
    match st.mode {
        Mode::Failed(e) => Err(e),
        Mode::Quoted => Err(
            ParseError {
                kind: ParseErrorKind::UnterminatedQuote,
                record: (st.rows.len() + 1) as usize,
                fields: 0,
            },
        ),
        Mode::LineStart => Ok(st.rows),
        Mode::AfterCr => Ok(st.rows),
        Mode::FieldStart => Ok(st.rows.push(st.cur_row.push(st.cur_field))),
        Mode::Unquoted => Ok(st.rows.push(st.cur_row.push(st.cur_field))),
        Mode::QuoteSeen => Ok(st.rows.push(st.cur_row.push(st.cur_field))),
    }
}

/// The tokenizer state after the first `i` characters of `s`.
pub open spec fn tok_run(s: Seq<char>, i: int) -> TokState
    decreases i,
{
    if i <= 0 {
        init_state()
    } else {
        tok_step(tok_run(s, i - 1), s[i - 1])
    }
}

/// Splits CSV text into raw records of raw fields, or fails.
pub open spec fn tokenize(s: Seq<char>) -> Result<Seq<Seq<Seq<char>>>, ParseError> {
    tok_finish(tok_run(s, s.len() as int))
}

/// Relates the result of the executable tokenizer to [`tokenize`].
pub open spec fn rows_match(
    r: Result<Vec<Vec<Vec<char>>>, ParseError>,
    m: Result<Seq<Seq<Seq<char>>>, ParseError>,
) -> bool {
    match (r, m) {
        (Ok(v), Ok(rows)) => v.deep_view() == rows,
        (Err(e), Err(f)) => e == f,
        _ => false,
    }
}

/// Runs the tokenizer state machine over the input characters.
fn tokenize_exec(chars: &Vec<char>) -> (r: Result<Vec<Vec<Vec<char>>>, ParseError>)
    ensures
        rows_match(r, tokenize(chars@)),
{
    let mut rows: Vec<Vec<Vec<char>>> = Vec::new();
    let mut cur_row: Vec<Vec<char>> = Vec::new();
    let mut cur_field: Vec<char> = Vec::new();
    let mut mode = Mode::LineStart;
    let n = chars.len();
    let mut i: usize = 0;
    while i < n
        invariant
            i <= n,
            n == chars@.len(),
            rows.deep_view() == tok_run(chars@, i as int).rows,
            cur_row.deep_view() == tok_run(chars@, i as int).cur_row,
            cur_field@ == tok_run(chars@, i as int).cur_field,
            mode == tok_run(chars@, i as int).mode,
            2 * (rows@.len() as int) + (if in_row(mode) {
                1int
            } else {
                0int
            }) <= i as int,
        decreases n - i,
    {
        let ghost prev = tok_run(chars@, i as int);
        let c = chars[i];
        match mode {
            Mode::Failed(_) => {},
            Mode::LineStart | Mode::AfterCr => {
                let was_after_cr = match mode {
                    Mode::AfterCr => true,
                    _ => false,
                };
                if was_after_cr && c == '\n' {
                    mode = Mode::LineStart;
                } else if c == '"' {
                    mode = Mode::Quoted;
                } else if c == ',' {
                    cur_row.push(cur_field);
                    cur_field = Vec::new();
                    mode = Mode::FieldStart;
                } else if c == '\n' || c == '\r' {
                    mode = Mode::LineStart;
                } else {
                    cur_field.push(c);
                    mode = Mode::Unquoted;
                }
            },
            Mode::FieldStart => {
                if c == '"' {
                    mode = Mode::Quoted;
                } else if c == ',' {
                    cur_row.push(cur_field);
                    cur_field = Vec::new();
                } else if c == '\n' || c == '\r' {
                    cur_row.push(cur_field);
                    rows.push(cur_row);
                    cur_row = Vec::new();
                    cur_field = Vec::new();
                    mode = if c == '\n' {
                        Mode::LineStart
                    } else {
                        Mode::AfterCr
                    };
                } else {
                    cur_field.push(c);
                    mode = Mode::Unquoted;
                }
            },
            Mode::Unquoted => {
                if c == ',' {
                    cur_row.push(cur_field);
                    cur_field = Vec::new();
                    mode = Mode::FieldStart;
                } else if c == '\n' || c == '\r' {
                    cur_row.push(cur_field);
                    rows.push(cur_row);
                    cur_row = Vec::new();
                    cur_field = Vec::new();
                    mode = if c == '\n' {
                        Mode::LineStart
                    } else {
                        Mode::AfterCr
                    };
                } else {
                    cur_field.push(c);
                }
            },
            Mode::Quoted => {
                if c == '"' {
                    mode = Mode::QuoteSeen;
                } else {
                    cur_field.push(c);
                }
            },
            Mode::QuoteSeen => {
                if c == '"' {
                    cur_field.push('"');
                    mode = Mode::Quoted;
                } else if c == ',' {
                    cur_row.push(cur_field);
                    cur_field = Vec::new();
                    mode = Mode::FieldStart;
                } else if c == '\n' || c == '\r' {
                    cur_row.push(cur_field);
                    rows.push(cur_row);
                    cur_row = Vec::new();
                    cur_field = Vec::new();
                    mode = if c == '\n' {
                        Mode::LineStart
                    } else {
                        Mode::AfterCr
                    };
                } else {
                    mode = Mode::Failed(
                        ParseError {
                            kind: ParseErrorKind::CharAfterQuote,
                            record: rows.len() + 1,
                            fields: 0,
                        },
                    );
                }
            },
        }
        i = i + 1;
        proof {
            let next = tok_run(chars@, i as int);
            assert(next == tok_step(prev, chars@[i - 1]));
            assert(rows.deep_view() =~~= next.rows);
            assert(cur_row.deep_view() =~~= next.cur_row);
            assert(cur_field@ =~= next.cur_field);
        }
    }
    match mode {
        Mode::Failed(e) => Err(e),
        Mode::Quoted => Err(
            ParseError { kind: ParseErrorKind::UnterminatedQuote, record: rows.len() + 1, fields: 0 },
        ),
        Mode::LineStart | Mode::AfterCr => Ok(rows),
        Mode::FieldStart | Mode::Unquoted | Mode::QuoteSeen => {
            cur_row.push(cur_field);
            rows.push(cur_row);
            proof {
                assert(rows.deep_view() =~~= tok_finish(tok_run(chars@, n as int))->Ok_0);
            }
            Ok(rows)
        },
    }
}

/// The column name `id`.
pub open spec fn col_id() -> Seq<char> {
    seq!['i', 'd']
}

/// The column name `name`.
pub open spec fn col_name() -> Seq<char> {
    seq!['n', 'a', 'm', 'e']
}

/// The column name `email`.
pub open spec fn col_email() -> Seq<char> {
    seq!['e', 'm', 'a', 'i', 'l']
}

/// The positions of the `id`, `name` and `email` columns if the header names
/// exactly those three, in any order and any letter case.
pub open spec fn header_cols(h: Seq<Seq<char>>) -> Option<(int, int, int)> {
    if h.len() == 3 {
        let f0 = lower_chars(h[0]);
        let f1 = lower_chars(h[1]);
        let f2 = lower_chars(h[2]);
        if f0 == col_id() && f1 == col_name() && f2 == col_email() {
            Some((0int, 1int, 2int))
        } else if f0 == col_id() && f1 == col_email() && f2 == col_name() {
            Some((0int, 2int, 1int))
        } else if f0 == col_name() && f1 == col_id() && f2 == col_email() {
            Some((1int, 0int, 2int))
        } else if f0 == col_email() && f1 == col_id() && f2 == col_name() {
            Some((1int, 2int, 0int))
        } else if f0 == col_name() && f1 == col_email() && f2 == col_id() {
            Some((2int, 0int, 1int))
        } else if f0 == col_email() && f1 == col_name() && f2 == col_id() {
            Some((2int, 1int, 0int))
        } else {
            None
        }
    } else {
        None
    }
}

/// The record a raw three-field row stands for, under the given column
/// positions.
pub open spec fn rec_of(row: Seq<Seq<char>>, cols: (int, int, int)) -> RecordModel {
    RecordModel { id: row[cols.0], name: row[cols.1], email: row[cols.2] }
}

/// Binds the data rows from `idx` on to records, or fails on the first row
/// that does not have exactly three fields.
pub open spec fn bind_rows(rows: Seq<Seq<Seq<char>>>, idx: int, cols: (int, int, int)) -> Result<
    Seq<RecordModel>,
    ParseError,
>
    decreases rows.len() - idx,
{
    if idx < 0 || idx >= rows.len() {
        Ok(Seq::empty())
    } else if rows[idx].len() != 3 {
        Err(
            ParseError {
                kind: ParseErrorKind::WrongFieldCount,
                record: (idx + 1) as usize,
                fields: rows[idx].len() as usize,
            },
        )
    } else {
        match bind_rows(rows, idx + 1, cols) {
            Err(e) => Err(e),
            Ok(rest) => Ok(seq![rec_of(rows[idx], cols)] + rest),
        }
    }
}

/// What parsing CSV text yields: the records of its data rows in row order,
/// or the error for the first offending record.
pub open spec fn spec_parse(s: Seq<char>) -> Result<Seq<RecordModel>, ParseError> {
    match tokenize(s) {
        Err(e) => Err(e),
        Ok(rows) => {
            if rows.len() == 0 {
                Ok(Seq::empty())
            } else {
                match header_cols(rows[0]) {
                    None => Err(
                        ParseError {
                            kind: ParseErrorKind::BadHeader,
                            record: 1,
                            fields: rows[0].len() as usize,
                        },
                    ),
                    Some(cols) => bind_rows(rows, 1, cols),
                }
            }
        },
    }
}

/// Relates the result of the executable parser to [`spec_parse`].
pub open spec fn parse_match(
    r: Result<Vec<Record>, ParseError>,
    m: Result<Seq<RecordModel>, ParseError>,
) -> bool {
    match (r, m) {
        (Ok(v), Ok(recs)) => v.deep_view() == recs,
        (Err(e), Err(f)) => e == f,
        _ => false,
    }
}

proof fn lemma_bind_rows_all_ok(rows: Seq<Seq<Seq<char>>>, idx: int, cols: (int, int, int))
    requires
        0 <= idx <= rows.len(),
        forall|k: int| idx <= k < rows.len() ==> #[trigger] rows[k].len() == 3,
    ensures
        bind_rows(rows, idx, cols) == Ok::<_, ParseError>(
            Seq::new((rows.len() - idx) as nat, |j: int| rec_of(rows[idx + j], cols)),
        ),
    decreases rows.len() - idx,
{
    if idx >= rows.len() {
        assert(Seq::new(0, |j: int| rec_of(rows[idx + j], cols)) =~= Seq::<RecordModel>::empty());
    } else {
        lemma_bind_rows_all_ok(rows, idx + 1, cols);
        let rest = Seq::new((rows.len() - idx - 1) as nat, |j: int| rec_of(rows[idx + 1 + j], cols));
        assert(seq![rec_of(rows[idx], cols)] + rest =~= Seq::new(
            (rows.len() - idx) as nat,
            |j: int| rec_of(rows[idx + j], cols),
        ));
    }
}

proof fn lemma_bind_rows_first_bad(rows: Seq<Seq<Seq<char>>>, idx: int, cols: (int, int, int), k: int)
    requires
        0 <= idx <= k < rows.len(),
        rows[k].len() != 3,
        forall|j: int| idx <= j < k ==> #[trigger] rows[j].len() == 3,
    ensures
        bind_rows(rows, idx, cols) == Err::<Seq<RecordModel>, _>(
            ParseError {
                kind: ParseErrorKind::WrongFieldCount,
                record: (k + 1) as usize,
                fields: rows[k].len() as usize,
            },
        ),
    decreases k - idx,
{
    if idx < k {
        lemma_bind_rows_first_bad(rows, idx + 1, cols, k);
    }
}

proof fn lemma_bind_rows_some_bad(rows: Seq<Seq<Seq<char>>>, idx: int, cols: (int, int, int), k: int)
    requires
        0 <= idx <= k < rows.len(),
        rows[k].len() != 3,
    ensures
        bind_rows(rows, idx, cols) is Err,
    decreases k - idx,
{
    if idx < k && rows[idx].len() == 3 {
        lemma_bind_rows_some_bad(rows, idx + 1, cols, k);
    }
}

/// For every input that tokenizes into a header naming the three columns and
/// data rows of three fields each, the parse succeeds, yields exactly one
/// record per data row, and keeps the rows in their input order.
pub proof fn lemma_parse_preserves_rows(
    s: Seq<char>,
    rows: Seq<Seq<Seq<char>>>,
    cols: (int, int, int),
)
    requires
        tokenize(s) == Ok::<_, ParseError>(rows),
        rows.len() > 0,
        header_cols(rows[0]) == Some(cols),
        forall|k: int| 1 <= k < rows.len() ==> #[trigger] rows[k].len() == 3,
    ensures
        spec_parse(s) is Ok,
        spec_parse(s)->Ok_0.len() == rows.len() - 1,
        forall|k: int| 1 <= k < rows.len() ==> spec_parse(s)->Ok_0[k - 1] == rec_of(rows[k], cols),
{
    lemma_bind_rows_all_ok(rows, 1, cols);
}

/// For every input that tokenizes with some record not having exactly three
/// fields, the parse fails, and so produces no record sequence at all.
pub proof fn lemma_parse_rejects_bad_row(s: Seq<char>, rows: Seq<Seq<Seq<char>>>, k: int)
    requires
        tokenize(s) == Ok::<_, ParseError>(rows),
        0 <= k < rows.len(),
        rows[k].len() != 3,
    ensures
        spec_parse(s) is Err,
{
    match header_cols(rows[0]) {
        None => {},
        Some(cols) => {
            assert(rows[0].len() == 3);
            assert(k >= 1);
            lemma_bind_rows_some_bad(rows, 1, cols, k);
        },
    }
}

/// Parses CSV text into records, per [`spec_parse`]: a header-driven parse
/// of three-field rows that fails on the first offending record.
pub fn parse(input: &str) -> (r: Result<Vec<Record>, ParseError>)
    ensures
        parse_match(r, spec_parse(input@)),
{
    let chars = chars_vec(input);
    let rows = match tokenize_exec(&chars) {
        Err(e) => {
            return Err(e);
        },
        Ok(rows) => rows,
    };
    let ghost rows_m = tokenize(input@)->Ok_0;
    proof {
        assert(rows.deep_view() == rows_m);
    }
    if rows.len() == 0 {
        let out: Vec<Record> = Vec::new();
        proof {
            assert(out.deep_view() =~= Seq::<RecordModel>::empty());
        }
        return Ok(out);
    }
    let hdr = &rows[0];
    proof {
        assert(hdr.deep_view() == rows_m[0]);
    }
    if hdr.len() != 3 {
        return Err(
            ParseError { kind: ParseErrorKind::BadHeader, record: 1, fields: hdr.len() },
        );
    }
    let mut lit_id: Vec<char> = Vec::new();
    lit_id.push('i');
    lit_id.push('d');
    let mut lit_name: Vec<char> = Vec::new();
    lit_name.push('n');
    lit_name.push('a');
    lit_name.push('m');
    lit_name.push('e');
    let mut lit_email: Vec<char> = Vec::new();
    lit_email.push('e');
    lit_email.push('m');
    lit_email.push('a');
    lit_email.push('i');
    lit_email.push('l');
    proof {
        assert(lit_id@ =~= col_id());
        assert(lit_name@ =~= col_name());
        assert(lit_email@ =~= col_email());
    }
    let f0 = lower_vec(&hdr[0]);
    let f1 = lower_vec(&hdr[1]);
    let f2 = lower_vec(&hdr[2]);
    proof {
        assert(hdr@[0]@ == hdr.deep_view()[0]);
        assert(hdr@[1]@ == hdr.deep_view()[1]);
        assert(hdr@[2]@ == hdr.deep_view()[2]);
    }
    let id0 = chars_eq(&f0, &lit_id);
    let id1 = chars_eq(&f1, &lit_id);
    let id2 = chars_eq(&f2, &lit_id);
    let nm0 = chars_eq(&f0, &lit_name);
    let nm1 = chars_eq(&f1, &lit_name);
    let nm2 = chars_eq(&f2, &lit_name);
    let em0 = chars_eq(&f0, &lit_email);
    let em1 = chars_eq(&f1, &lit_email);
    let em2 = chars_eq(&f2, &lit_email);
    let (i_id, i_name, i_email): (usize, usize, usize) = if id0 && nm1 && em2 {
        (0, 1, 2)
    } else if id0 && em1 && nm2 {
        (0, 2, 1)
    } else if nm0 && id1 && em2 {
        (1, 0, 2)
    } else if em0 && id1 && nm2 {
        (1, 2, 0)
    } else if nm0 && em1 && id2 {
        (2, 0, 1)
    } else if em0 && nm1 && id2 {
        (2, 1, 0)
    } else {
        proof {
            assert(header_cols(rows_m[0]) is None);
        }
        return Err(
            ParseError { kind: ParseErrorKind::BadHeader, record: 1, fields: 3 },
        );
    };
    let ghost cols = (i_id as int, i_name as int, i_email as int);
    proof {
        assert(header_cols(rows_m[0]) == Some(cols));
    }
    let mut out: Vec<Record> = Vec::new();
    let mut k: usize = 1;
    while k < rows.len()
        invariant
            1 <= k <= rows@.len(),
            rows.deep_view() == rows_m,
            rows_m.len() == rows@.len(),
            tokenize(input@) == Ok::<_, ParseError>(rows_m),
            rows_m.len() > 0,
            header_cols(rows_m[0]) == Some(cols),
            0 <= cols.0 < 3 && 0 <= cols.1 < 3 && 0 <= cols.2 < 3,
            cols == (i_id as int, i_name as int, i_email as int),
            i_id < 3 && i_name < 3 && i_email < 3,
            forall|j: int| 1 <= j < k ==> #[trigger] rows_m[j].len() == 3,
            out.deep_view() =~= Seq::new(
                (k - 1) as nat,
                |j: int| rec_of(rows_m[j + 1], cols),
            ),
        decreases rows@.len() - k,
    {
        let row = &rows[k];
        proof {
            assert(row.deep_view() == rows_m[k as int]);
        }
        if row.len() != 3 {
            proof {
                lemma_bind_rows_first_bad(rows_m, 1, cols, k as int);
            }
            return Err(
                ParseError {
                    kind: ParseErrorKind::WrongFieldCount,
                    record: k + 1,
                    fields: row.len(),
                },
            );
        }
        let rec = Record::new(
            string_from_chars(&row[i_id]),
            string_from_chars(&row[i_name]),
            string_from_chars(&row[i_email]),
        );
        proof {
            assert(row@[i_id as int]@ == row.deep_view()[cols.0]);
            assert(row@[i_name as int]@ == row.deep_view()[cols.1]);
            assert(row@[i_email as int]@ == row.deep_view()[cols.2]);
            assert(rec.deep_view() == rec_of(rows_m[k as int], cols));
        }
        let ghost out_pre = out.deep_view();
        let ghost outv_pre = out@;
        out.push(rec);
        k = k + 1;
        proof {
            assert(out@ == outv_pre.push(rec));
            assert(out_pre.len() == outv_pre.len());
            let target = Seq::new((k - 1) as nat, |j: int| rec_of(rows_m[j + 1], cols));
            assert(target.len() == out@.len());
            assert forall|j: int| 0 <= j < target.len() implies out.deep_view()[j] == target[j] by {
                if j < target.len() - 1 {
                    assert(out.deep_view()[j] == out_pre[j]);
                } else {
                    assert(out.deep_view()[j] == rec.deep_view());
                }
            }
            assert(out.deep_view() =~= target);
        }
    }
    proof {
        lemma_bind_rows_all_ok(rows_m, 1, cols);
        assert(out.deep_view() =~= Seq::new(
            (rows_m.len() - 1) as nat,
            |j: int| rec_of(rows_m[1 + j], cols),
        ));
    }
    Ok(out)
}

} // verus!
