//! Rendering of query results: each cell is a tagged value with one text
//! form, rows are joined with `, ` and end with a line break, and a failed
//! execution is settled by an explicit policy.
use vstd::prelude::*;
use crate::chain::ChainError;

verus! {

/// One value of a result row, whatever the column's type.
#[derive(Debug)]
pub enum CellValue {
    /// SQL `NULL`, or a value that could not be read.
    Null,
    Integer(i64),
    Boolean(bool),
    /// Text, timestamps and any other value read as text.
    Text(String),
}

/// What to do when the statement cannot be executed.
#[derive(Clone, Copy, Debug, PartialEq, Eq, Structural)]
pub enum ExecutionPolicy {
    /// The failure becomes `ChainError::QueryExecutionFailed`.
    Strict,
    /// The failure becomes the fixed text `NO_RESULT`.
    Degraded,
}

/// The context handed on when a statement could not be executed under the
/// degraded policy.
pub const NO_RESULT: &'static str = "no result available — query could not be executed";

pub open spec fn no_result_text() -> Seq<char> {
    NO_RESULT@
}

pub open spec fn digit_char(d: int) -> char {
    seq!['0', '1', '2', '3', '4', '5', '6', '7', '8', '9'][d]
}

/// The decimal digits of `n`, most significant first.
pub open spec fn digits(n: nat) -> Seq<char>
    decreases n,
{
    if n < 10 {
        seq![digit_char(n as int)]
    } else {
        digits(n / 10).push(digit_char((n % 10) as int))
    }
}

/// `n` in decimal, with a leading `-` when negative.
pub open spec fn decimal(n: int) -> Seq<char> {
    if n < 0 {
        seq!['-'] + digits((-n) as nat)
    } else {
        digits(n as nat)
    }
}

/// The text form of a cell.
pub open spec fn cell_text(c: CellValue) -> Seq<char> {
    match c {
        CellValue::Null => "NULL"@,
        CellValue::Integer(n) => decimal(n as int),
        CellValue::Boolean(b) => if b {
            "true"@
        } else {
            "false"@
        },
        CellValue::Text(s) => s@,
    }
}

/// The cells of a row joined with `, `.
pub open spec fn row_text(cs: Seq<CellValue>) -> Seq<char>
    decreases cs.len(),
{
    if cs.len() == 0 {
        Seq::empty()
    } else if cs.len() == 1 {
        cell_text(cs[0])
    } else {
        row_text(cs.drop_last()) + ", "@ + cell_text(cs.last())
    }
}

/// Every row on a line of its own.
pub open spec fn rows_text(rows: Seq<Vec<CellValue>>) -> Seq<char>
    decreases rows.len(),
{
    if rows.len() == 0 {
        Seq::empty()
    } else {
        rows_text(rows.drop_last()) + row_text(rows.last()@) + "\n"@
    }
}

proof fn lemma_rows_text_concat(a: Seq<Vec<CellValue>>, b: Seq<Vec<CellValue>>)
    ensures
        rows_text(a + b) == rows_text(a) + rows_text(b),
    decreases b.len(),
{
    if b.len() == 0 {
        assert(a + b =~= a);
        assert(rows_text(a) + rows_text(b) =~= rows_text(a));
    } else {
        assert((a + b).drop_last() =~= a + b.drop_last());
        lemma_rows_text_concat(a, b.drop_last());
        assert(rows_text(a + b) =~= rows_text(a) + rows_text(b));
    }
}

proof fn lemma_row_text_concat(a: Seq<CellValue>, b: Seq<CellValue>)
    requires
        a.len() > 0,
        b.len() > 0,
    ensures
        row_text(a + b) == row_text(a) + ", "@ + row_text(b),
    decreases b.len(),
{
    assert((a + b).drop_last() =~= a + b.drop_last());
    if b.len() > 1 {
        lemma_row_text_concat(a, b.drop_last());
        assert(row_text(a + b) =~= row_text(a) + ", "@ + row_text(b));
    } else {
        assert(a + b.drop_last() =~= a);
        assert(row_text(a + b) =~= row_text(a) + ", "@ + row_text(b));
    }
}

/// The text of a row split at cell `j`: what comes before the cell, the
/// separator included.
pub open spec fn cells_before(cs: Seq<CellValue>, j: int) -> Seq<char> {
    if j == 0 {
        Seq::empty()
    } else {
        row_text(cs.subrange(0, j)) + ", "@
    }
}

/// What comes after cell `j` in the text of its row, the separator included.
pub open spec fn cells_after(cs: Seq<CellValue>, j: int) -> Seq<char> {
    if j + 1 == cs.len() {
        Seq::empty()
    } else {
        ", "@ + row_text(cs.subrange(j + 1, cs.len() as int))
    }
}

/// Every cell stands in its own place, whatever the other cells hold: the
/// text of the rows is the lines of the rows before row `i`, then row `i`'s
/// cells before `j` with their separators, then the text of cell `j`
/// (`NULL` for a null cell), then the rest of row `i`, its line break, and
/// the lines of the rows after it.
pub proof fn lemma_cell_in_place(rows: Seq<Vec<CellValue>>, i: int, j: int)
    requires
        0 <= i < rows.len(),
        0 <= j < rows[i]@.len(),
    ensures
        rows_text(rows) == rows_text(rows.subrange(0, i)) + cells_before(rows[i]@, j) + cell_text(
            rows[i]@[j],
        ) + cells_after(rows[i]@, j) + "\n"@ + rows_text(rows.subrange(i + 1, rows.len() as int)),
        rows[i]@[j] is Null ==> cell_text(rows[i]@[j]) == "NULL"@,
{
    let cs = rows[i]@;
    let pre = rows.subrange(0, i);
    let post = rows.subrange(i + 1, rows.len() as int);
    let one = seq![rows[i]];
    assert(rows =~= pre + (one + post));
    lemma_rows_text_concat(pre, one + post);
    lemma_rows_text_concat(one, post);
    assert(one.drop_last() =~= Seq::<Vec<CellValue>>::empty());
    assert(one.last() == rows[i]);
    assert(rows_text(one.drop_last()) == Seq::<char>::empty());
    assert(rows_text(one) =~= row_text(cs) + "\n"@);
    let a = cs.subrange(0, j);
    let x = seq![cs[j]];
    let b = cs.subrange(j + 1, cs.len() as int);
    assert(row_text(x) == cell_text(cs[j]));
    if j > 0 && j + 1 < cs.len() {
        assert(cs =~= a + (x + b));
        lemma_row_text_concat(x, b);
        lemma_row_text_concat(a, x + b);
    } else if j > 0 {
        assert(cs =~= a + x);
        lemma_row_text_concat(a, x);
    } else if j + 1 < cs.len() {
        assert(cs =~= x + b);
        lemma_row_text_concat(x, b);
    } else {
        assert(cs =~= x);
    }
    assert(rows_text(rows) =~= rows_text(pre) + cells_before(cs, j) + cell_text(cs[j]) + cells_after(
        cs,
        j,
    ) + "\n"@ + rows_text(post));
}

fn digit_str(d: u64) -> (r: &'static str)
    requires
        d < 10,
    ensures
        r@ == seq![digit_char(d as int)],
{
    proof {
        reveal_strlit("0");
        reveal_strlit("1");
        reveal_strlit("2");
        reveal_strlit("3");
        reveal_strlit("4");
        reveal_strlit("5");
        reveal_strlit("6");
        reveal_strlit("7");
        reveal_strlit("8");
        reveal_strlit("9");
    }
    let r = if d == 0 {
        "0"
    } else if d == 1 {
        "1"
    } else if d == 2 {
        "2"
    } else if d == 3 {
        "3"
    } else if d == 4 {
        "4"
    } else if d == 5 {
        "5"
    } else if d == 6 {
        "6"
    } else if d == 7 {
        "7"
    } else if d == 8 {
        "8"
    } else {
        "9"
    };
    assert(r@ =~= seq![digit_char(d as int)]);
    r
}

fn append_digits(s: &mut String, n: u64)
    ensures
        final(s)@ == old(s)@ + digits(n as nat),
    decreases n,
{
    if n >= 10 {
        append_digits(s, n / 10);
    }
    s.append(digit_str(n % 10));
    proof {
        if n >= 10 {
            assert(old(s)@ + digits((n / 10) as nat) + seq![digit_char((n % 10) as int)] =~= old(s)@
                + digits(n as nat));
        } else {
            assert(old(s)@ + seq![digit_char((n % 10) as int)] =~= old(s)@ + digits(n as nat));
        }
    }
}

/// Appends the text form of `c` to `s`.
pub fn append_cell(s: &mut String, c: &CellValue)
    ensures
        final(s)@ == old(s)@ + cell_text(*c),
{
    match c {
        CellValue::Null => s.append("NULL"),
        CellValue::Integer(n) => {
            let n = *n;
            if n < 0 {
                s.append("-");
                proof {
                    reveal_strlit("-");
                }
                let m: u64 = if n == i64::MIN {
                    9223372036854775808u64
                } else {
                    (-n) as u64
                };
                append_digits(s, m);
                assert(s@ =~= old(s)@ + decimal(n as int));
            } else {
                append_digits(s, n as u64);
            }
        },
        CellValue::Boolean(b) => if *b {
            s.append("true")
        } else {
            s.append("false")
        },
        CellValue::Text(t) => s.append(t.as_str()),
    }
}

/// The text form of a cell.
pub fn render_cell(c: &CellValue) -> (r: String)
    ensures
        r@ == cell_text(*c),
{
    let mut s = String::new();
    append_cell(&mut s, c);
    assert(s@ =~= cell_text(*c));
    s
}

/// The rows as text: cells joined with `, `, each row ending in a line
/// break; `NULL` stands for a value that is null or unreadable.
pub fn format_rows(rows: &Vec<Vec<CellValue>>) -> (r: String)
    ensures
        r@ == rows_text(rows@),
{
    let mut s = String::new();
    let mut i: usize = 0;
    while i < rows.len()
        invariant
            i <= rows@.len(),
            s@ == rows_text(rows@.subrange(0, i as int)),
        decreases rows@.len() - i,
    {
        let row = &rows[i];
        let ghost head = s@;
        let mut j: usize = 0;
        while j < row.len()
            invariant
                j <= row@.len(),
                s@ == head + row_text(row@.subrange(0, j as int)),
            decreases row@.len() - j,
        {
            if j > 0 {
                s.append(", ");
            }
            append_cell(&mut s, &row[j]);
            proof {
                let pre = row@.subrange(0, j + 1);
                assert(pre.drop_last() =~= row@.subrange(0, j as int));
                if j == 0 {
                    assert(head + row_text(pre) =~= head + cell_text(row@[0]));
                } else {
                    assert(head + row_text(pre) =~= head + row_text(row@.subrange(0, j as int))
                        + ", "@ + cell_text(row@[j as int]));
                }
            }
            j = j + 1;
        }
        s.append("\n");
        assert(row@.subrange(0, j as int) =~= row@);
        assert(rows@.subrange(0, i + 1).drop_last() =~= rows@.subrange(0, i as int));
        i = i + 1;
    }
    assert(rows@.subrange(0, i as int) =~= rows@);
    s
}

/// The context for the answer stage from what execution gave: the
/// formatted rows on success; on failure, the policy decides between the
/// typed error and the fixed `NO_RESULT` text.
pub fn settle_query(policy: ExecutionPolicy, outcome: Result<Vec<Vec<CellValue>>, String>) -> (r:
    Result<String, ChainError>)
    ensures
        match outcome {
            Ok(rows) => r matches Ok(text) && text@ == rows_text(rows@),
            Err(cause) => match policy {
                ExecutionPolicy::Strict => r matches Err(ChainError::QueryExecutionFailed { cause: c })
                    && c@ == cause@,
                ExecutionPolicy::Degraded => r matches Ok(text) && text@ == no_result_text(),
            },
        },
        outcome is Err ==> (r matches Ok(text) ==> text@.len() > 0),
{
    proof {
        reveal_strlit("no result available — query could not be executed");
    }
    match outcome {
        Ok(rows) => Ok(format_rows(&rows)),
        Err(cause) => match policy {
            ExecutionPolicy::Strict => Err(ChainError::QueryExecutionFailed { cause }),
            ExecutionPolicy::Degraded => Ok(String::from_str(NO_RESULT)),
        },
    }
}

} // verus!
