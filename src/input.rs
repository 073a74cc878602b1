//! Where the magnitude and the unit code come from: a piped line, or the
//! command's arguments (the program's name first).

use vstd::prelude::*;

use crate::unit::{code_unit, Unit};

verus! {

/// The text with its trailing '\n' and '\r' characters removed.
pub open spec fn line_body(s: Seq<char>) -> Seq<char>
    decreases s.len(),
{
    if s.len() > 0 && (s.last() == '\n' || s.last() == '\r') {
        line_body(s.drop_last())
    } else {
        s
    }
}

/// The views of the arguments.
pub open spec fn arg_views(args: Seq<String>) -> Seq<Seq<char>> {
    args.map_values(|a: String| a@)
}

/// Where the number is read from: a piped line that is not empty once its line
/// ending is removed; else the last argument, when there are two or three;
/// else nowhere.
pub open spec fn number_source(piped: Option<Seq<char>>, args: Seq<Seq<char>>) -> Option<Seq<char>> {
    if piped is Some && line_body(piped->0).len() > 0 {
        Some(line_body(piped->0))
    } else if args.len() == 2 || args.len() == 3 {
        Some(args.last())
    } else {
        None
    }
}

/// Relies on std's `str::trim_end_matches` with the characters '\n' and '\r':
/// all trailing matches are removed, repeatedly.
#[verifier::external_body]
fn trim_line_end(s: &str) -> (r: &str)
    ensures
        r@ == line_body(s@),
{
    s.trim_end_matches(['\n', '\r'])
}

/// The text of the number: the piped line (`None` when input is a terminal or
/// nothing was read) when it holds something besides its line ending, else the
/// last of two or three arguments. `None` when neither source has it, which is
/// a usage error.
pub fn number_text(piped: Option<&str>, args: &Vec<String>) -> (r: Option<String>)
    ensures
        (match r {
            Some(t) => Some(t@),
            None => None,
        }) == number_source(
            match piped {
                Some(p) => Some(p@),
                None => None,
            },
            arg_views(args@),
        ),
{
    if let Some(line) = piped {
        let body = trim_line_end(line);
        if !body.is_empty() {
            return Some(body.to_owned());
        }
    }
    let n = args.len();
    if n == 2 || n == 3 {
        Some(args[n - 1].clone())
    } else {
        None
    }
}

/// The unit asked for by code in the second argument, when there are two or
/// three; otherwise none.
pub fn requested_unit(args: &Vec<String>) -> (r: Option<Unit>)
    ensures
        r == (if args@.len() == 2 || args@.len() == 3 {
            code_unit(args@[1]@)
        } else {
            None
        }),
{
    let n = args.len();
    if n == 2 || n == 3 {
        Unit::from_code(args[1].as_str())
    } else {
        None
    }
}

} // verus!
