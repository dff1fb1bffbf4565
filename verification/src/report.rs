//! Rendering the outcome of a run: what to print, and the status to end with.

use vstd::prelude::*;
use vstd::utf8::encode_utf8;
use crate::bytes::push_all;
use crate::error::{Error, ErrorView, outcome_view};
use crate::file_text::{FileText, FileTextView, NEWLINE, SPACE, spec_highlight, spec_line_col};
use crate::span::Span;

verus! {

/// The byte that separates the fields of a diagnostic.
pub const COLON: u8 = 58u8;

/// The byte of the digit zero.
pub const ZERO: u8 = 48u8;

/// The status of a run in which nothing failed.
pub const STATUS_CLEAN: i32 = 0i32;

/// The status of a run that met an input with faulty content.
pub const STATUS_SOURCE_ERROR: i32 = 1i32;

/// The status of a run that the environment failed. It is not zero, so that
/// no failed run passes for a clean one, and it differs from the status of a
/// faulty input, so that a caller can tell the two apart.
pub const STATUS_IO_FAILURE: i32 = 2i32;

/// The decimal digits of a number, most significant first.
pub open spec fn spec_decimal(n: nat) -> Seq<u8>
    decreases n,
{
    if n < 10 {
        seq![(ZERO + n) as u8]
    } else {
        spec_decimal(n / 10).push((ZERO + n % 10) as u8)
    }
}

/// The number that decimal digits stand for.
pub open spec fn spec_decimal_value(digits: Seq<u8>) -> nat
    decreases digits.len(),
{
    if digits.len() == 0 {
        0
    } else {
        (spec_decimal_value(digits.drop_last()) * 10 + (digits.last() - ZERO)) as nat
    }
}

/// The decimal digits of a number are digits, they begin with a zero only
/// for zero itself, and they stand for the number.
pub proof fn law_decimal_reads_back(n: nat)
    ensures
        spec_decimal(n).len() >= 1,
        forall|i: int| 0 <= i < spec_decimal(n).len() ==> ZERO <= #[trigger] spec_decimal(n)[i]
            <= ZERO + 9,
        n > 0 ==> spec_decimal(n)[0] != ZERO,
        spec_decimal_value(spec_decimal(n)) == n,
    decreases n,
{
    let digits = spec_decimal(n);
    if n < 10 {
        assert(digits.drop_last() =~= Seq::<u8>::empty());
        assert(spec_decimal_value(digits.drop_last()) == 0);
        assert(digits.last() == ZERO + n);
    } else {
        law_decimal_reads_back(n / 10);
        let front = spec_decimal(n / 10);
        assert(digits.drop_last() =~= front);
        assert(digits[0] == front[0]);
        assert(digits.last() == ZERO + n % 10);
        assert(spec_decimal_value(digits) == (n / 10) * 10 + n % 10);
    }
}

/// The bytes of `" error: "`.
pub open spec fn error_tag() -> Seq<u8> {
    seq![
        ' ' as u8,
        'e' as u8,
        'r' as u8,
        'r' as u8,
        'o' as u8,
        'r' as u8,
        ':' as u8,
        ' ' as u8,
    ]
}

/// The line that locates a fault in a source file:
/// `<path>:<line>:<column>: <line>:<column> error: <message>`.
///
/// Lines are counted from one. The first column is counted from one as well;
/// the second names the last column of the span, which makes it the
/// zero-based column of the span's end.
pub open spec fn spec_diagnostic(file: FileTextView, message: Seq<char>, span: Span) -> Seq<u8> {
    let start = spec_line_col(file.text, span.0 as int);
    let end = spec_line_col(file.text, span.1 as int);
    file.path + seq![COLON] + spec_decimal((start.0 + 1) as nat) + seq![COLON] + spec_decimal(
        (start.1 + 1) as nat,
    ) + seq![COLON, SPACE] + spec_decimal((end.0 + 1) as nat) + seq![COLON] + spec_decimal(
        end.1 as nat,
    ) + error_tag() + encode_utf8(message) + seq![NEWLINE]
}

/// What is printed for an outcome.
pub open spec fn spec_report_output(outcome: Result<(), ErrorView>) -> Seq<u8> {
    match outcome {
        Ok(()) => Seq::empty(),
        Err(ErrorView::Source(file, message, span)) => spec_diagnostic(file, message, span)
            + spec_highlight(file.text, span.0 as int, span.1 as int),
        Err(ErrorView::Io(error)) => encode_utf8(error.message) + seq![NEWLINE],
    }
}

/// The status that a run with the given outcome ends with.
pub open spec fn spec_report_status(outcome: Result<(), ErrorView>) -> i32 {
    match outcome {
        Ok(()) => STATUS_CLEAN,
        Err(ErrorView::Source(_, _, _)) => STATUS_SOURCE_ERROR,
        Err(ErrorView::Io(_)) => STATUS_IO_FAILURE,
    }
}

/// What a run leaves for its caller to do: the bytes to print to standard
/// output, and the status to end the process with.
#[derive(Clone, Debug, PartialEq, Eq)]
pub struct Report {
    pub output: Vec<u8>,
    pub status: i32,
}

/// Appends the decimal digits of `n`.
pub fn push_decimal(out: &mut Vec<u8>, n: u128)
    ensures
        final(out)@ == old(out)@ + spec_decimal(n as nat),
    decreases n,
{
    if n >= 10 {
        push_decimal(out, n / 10);
    }
    let digit: u8 = (n % 10) as u8;
    out.push(ZERO + digit);
    assert(out@ =~= old(out)@ + spec_decimal(n as nat));
}

fn push_error_tag(out: &mut Vec<u8>)
    ensures
        final(out)@ == old(out)@ + error_tag(),
{
    out.push(' ' as u8);
    out.push('e' as u8);
    out.push('r' as u8);
    out.push('r' as u8);
    out.push('o' as u8);
    out.push('r' as u8);
    out.push(':' as u8);
    out.push(' ' as u8);
    assert(out@ =~= old(out)@ + error_tag());
}

/// Renders the line that locates the bytes `span` of `file` and gives the
/// message.
pub fn diagnostic(file: &FileText, message: &String, span: Span) -> (line: Vec<u8>)
    ensures
        line@ == spec_diagnostic(file@, message@, span),
{
    let (start_line, start_col) = file.line_col(span.0);
    let (end_line, end_col) = file.line_col(span.1);
    let mut line: Vec<u8> = Vec::new();
    push_all(&mut line, file.path.as_slice());
    line.push(COLON);
    push_decimal(&mut line, start_line as u128 + 1);
    line.push(COLON);
    push_decimal(&mut line, start_col as u128 + 1);
    line.push(COLON);
    line.push(SPACE);
    push_decimal(&mut line, end_line as u128 + 1);
    line.push(COLON);
    push_decimal(&mut line, end_col as u128);
    push_error_tag(&mut line);
    push_all(&mut line, message.as_str().as_bytes());
    line.push(NEWLINE);
    assert(line@ =~= spec_diagnostic(file@, message@, span));
    line
}

/// Renders the outcome of a run.
///
/// A clean run prints nothing. A faulty input prints the diagnostic line and,
/// below it, the excerpt of the file with the fault marked. A failure of the
/// environment prints its description on a line of its own.
pub fn report(outcome: &Result<(), Error>) -> (r: Report)
    ensures
        r.output@ == spec_report_output(outcome_view(*outcome)),
        r.status == spec_report_status(outcome_view(*outcome)),
{
    match outcome {
        Ok(()) => Report { output: Vec::new(), status: STATUS_CLEAN },
        Err(Error::Source(file, message, span)) => {
            let mut output = diagnostic(file, message, *span);
            let excerpt = file.highlight(*span);
            push_all(&mut output, excerpt.as_slice());
            Report { output, status: STATUS_SOURCE_ERROR }
        },
        Err(Error::Io(error)) => {
            let mut output: Vec<u8> = Vec::new();
            push_all(&mut output, error.message.as_str().as_bytes());
            output.push(NEWLINE);
            assert(output@ =~= encode_utf8(error.message@) + seq![NEWLINE]);
            Report { output, status: STATUS_IO_FAILURE }
        },
    }
}

} // verus!
