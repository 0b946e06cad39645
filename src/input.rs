use crate::grid::{plot_check, Grid};
use vstd::prelude::*;

verus! {

/// Message for a line that holds no number.
pub const NOT_A_NUMBER_MSG: &'static str = "That is not a number.";

/// Relies on `String::push`: appends one character.
#[verifier::external_body]
pub(crate) fn push_char(s: &mut String, c: char)
    ensures
        final(s)@ == old(s)@.push(c),
{
    s.push(c);
}

/// Whether `char::is_numeric` holds of `c` (the Unicode number categories).
pub uninterp spec fn numeric_char(c: char) -> bool;

/// Relies on `char::is_numeric`: whether `c` is in a Unicode number category.
#[verifier::external_body]
fn is_numeric(c: char) -> (r: bool)
    ensures
        r == numeric_char(c),
{
    c.is_numeric()
}

/// The characters of `s` for which `char::is_numeric` holds, in order.
pub open spec fn numeric_part(s: Seq<char>) -> Seq<char>
    decreases s.len(),
{
    if s.len() == 0 {
        s
    } else if numeric_char(s.last()) {
        numeric_part(s.drop_last()).push(s.last())
    } else {
        numeric_part(s.drop_last())
    }
}

/// `c` is one of the ASCII digits `0` to `9`.
pub open spec fn is_digit(c: char) -> bool {
    '0' <= c <= '9'
}

/// The number written in decimal by the digits `s`.
pub open spec fn digits_value(s: Seq<char>) -> nat
    decreases s.len(),
{
    if s.len() == 0 {
        0
    } else {
        10 * digits_value(s.drop_last()) + (s.last() as nat - '0' as nat) as nat
    }
}

/// What `parse_usize` returns: the value of `s` when `s` is a non-empty run
/// of ASCII digits whose value fits in a `usize`.
pub open spec fn parsed(s: Seq<char>) -> Option<usize> {
    if s.len() > 0 && (forall|i: int| 0 <= i < s.len() ==> is_digit(#[trigger] s[i]))
        && digits_value(s) <= usize::MAX {
        Some(digits_value(s) as usize)
    } else {
        None
    }
}

/// Reads `s` as a decimal number: `None` unless `s` is a non-empty run of
/// ASCII digits whose value fits in a `usize`.
pub fn parse_usize(s: &str) -> (r: Option<usize>)
    ensures
        r == parsed(s@),
{
    let n = s.unicode_len();
    if n == 0 {
        return None;
    }
    let mut acc: usize = 0;
    let mut over = false;
    let mut i: usize = 0;
    while i < n
        invariant
            i <= n,
            n == s@.len(),
            forall|j: int| 0 <= j < i ==> is_digit(#[trigger] s@[j]),
            over ==> digits_value(s@.subrange(0, i as int)) > usize::MAX,
            !over ==> acc == digits_value(s@.subrange(0, i as int)),
        decreases n - i,
    {
        let c = s.get_char(i);
        if !('0' <= c && c <= '9') {
            return None;
        }
        let d: usize = (c as u32 - '0' as u32) as usize;
        let ghost prev = s@.subrange(0, i as int);
        assert(s@.subrange(0, i + 1).drop_last() =~= prev);
        assert(digits_value(s@.subrange(0, i + 1)) == 10 * digits_value(prev) + d);
        if !over {
            if acc > (usize::MAX - d) / 10 {
                assert(10 * acc + d > usize::MAX) by (nonlinear_arith)
                    requires
                        acc > (usize::MAX - d) / 10,
                        d <= 9,
                ;
                over = true;
            } else {
                assert(10 * acc + d <= usize::MAX) by (nonlinear_arith)
                    requires
                        acc <= (usize::MAX - d) / 10,
                        d <= 9,
                ;
                acc = acc * 10 + d;
            }
        }
        i = i + 1;
    }
    assert(s@.subrange(0, n as int) =~= s@);
    if over {
        None
    } else {
        Some(acc)
    }
}

/// Reads a number from a line of input: keeps its numeric characters, then
/// reads them as a decimal `usize`. On failure, the kept characters.
pub fn prompt_usize(input: &str) -> (r: Result<usize, String>)
    ensures
        match parsed(numeric_part(input@)) {
            Some(n) => r == Ok::<usize, String>(n),
            None => r matches Err(e) && e@ == numeric_part(input@),
        },
{
    let n = input.unicode_len();
    let mut kept = String::new();
    let mut i: usize = 0;
    while i < n
        invariant
            i <= n,
            n == input@.len(),
            kept@ == numeric_part(input@.subrange(0, i as int)),
        decreases n - i,
    {
        let c = input.get_char(i);
        assert(input@.subrange(0, i + 1).drop_last() =~= input@.subrange(0, i as int));
        if is_numeric(c) {
            push_char(&mut kept, c);
        }
        i = i + 1;
    }
    assert(input@.subrange(0, n as int) =~= input@);
    match parse_usize(kept.as_str()) {
        Some(v) => Ok(v),
        None => Err(kept),
    }
}

/// What `read_placement` answers for the line `input` on the slots `b`.
pub open spec fn placement_of(b: Seq<char>, input: Seq<char>) -> Result<usize, &'static str> {
    match parsed(numeric_part(input)) {
        Some(n) => plot_check(b, n),
        None => Err(NOT_A_NUMBER_MSG),
    }
}

/// The slot that a line of input asks for, if it is a number and a slot
/// that can be played on `target`; otherwise the message that says why not.
pub fn read_placement(target: &Grid, input: &str) -> (r: Result<usize, &'static str>)
    ensures
        r == placement_of(target@, input@),
{
    match prompt_usize(input) {
        Ok(n) => target.valid_plot(n),
        Err(_) => Err(NOT_A_NUMBER_MSG),
    }
}

} // verus!
