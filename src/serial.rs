//! The messages that report the state of the control grid over the serial
//! link: one line per changed cell.
use vstd::prelude::*;
use crate::text::{decimal, push_char, push_decimal};

verus! {

/// `n` in decimal, padded with a leading zero to two digits.
pub open spec fn two_digits(n: nat) -> Seq<char> {
    if n < 10 {
        seq!['0'] + decimal(n)
    } else {
        decimal(n)
    }
}

/// The line for the cell at `row` and `column` in state `state`:
/// `rr:cc:s` and a line break.
pub open spec fn cell_line(row: nat, column: nat, state: char) -> Seq<char> {
    two_digits(row) + seq![':'] + two_digits(column) + seq![':', state, '\n']
}

/// Appends `n` in decimal, at least two digits wide.
fn push_two_digits(out: &mut String, n: usize)
    ensures
        final(out)@ == old(out)@ + two_digits(n as nat),
{
    if n < 10 {
        push_char(out, '0');
    }
    push_decimal(out, n as u64);
    assert(out@ =~= old(out)@ + two_digits(n as nat));
}

/// The line that reports the cell at `row` and `column`, whose state is the
/// character `state`.
pub fn cell_message(row: usize, column: usize, state: char) -> (r: String)
    ensures
        r@ == cell_line(row as nat, column as nat, state),
{
    let mut line = String::new();
    push_two_digits(&mut line, row);
    push_char(&mut line, ':');
    push_two_digits(&mut line, column);
    push_char(&mut line, ':');
    push_char(&mut line, state);
    push_char(&mut line, '\n');
    assert(line@ =~= cell_line(row as nat, column as nat, state));
    line
}

} // verus!
