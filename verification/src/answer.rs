//! The questions of the configuration editor, and what an answer to each of them means.
//!
//! White space around an answer does not count. An answer that is not taken comes back as the
//! lines to show before the question is asked again.
use vstd::prelude::*;
use vstd::string::StringExecFns;

use crate::addr::{parse_socket_addr, SYNTAX_FAULT};
use crate::config::Protocol;
use crate::number::{parse_unsigned, to_decimal};
use crate::text::{is_in_lower_case, same_text, trim};

verus! {

/// The question `label` as it is shown: the answer goes on a line of its own.
pub open spec fn shown(label: Seq<char>) -> Seq<char> {
    label + ":\n└─ "@
}

/// The question `label` where an empty answer stands for `current`.
pub open spec fn with_default(label: Seq<char>, current: Option<Seq<char>>) -> Seq<char> {
    match current {
        Some(value) if value.len() > 0 => label + " [default: "@ + value + "]"@,
        _ => label,
    }
}

/// What was said about an answer that is not taken, or the value of one that is.
pub type Reading<T> = Result<T, Seq<Seq<char>>>;

/// The position that an answer names, where the places are numbered from 1 to `max`.
pub open spec fn index_answer(line: Seq<char>, max: nat) -> Reading<int> {
    match crate::number::unsigned(crate::text::trimmed(line), max) {
        Some(n) if n >= 1 => Ok(n - 1),
        _ => Err(
            seq!["Please enter a number between 1 and "@ + crate::number::decimal(max) + "."@],
        ),
    }
}

/// The protocol that an answer names. An empty answer keeps `current`; where there is none, the
/// question comes again without a word.
pub open spec fn protocol_answer(line: Seq<char>, current: Option<Protocol>) -> Reading<Protocol> {
    let value = crate::text::trimmed(line);
    if value.len() == 0 {
        match current {
            Some(protocol) => Ok(protocol),
            None => Err(seq![]),
        }
    } else if value == "1"@ {
        Ok(Protocol::Tcp)
    } else if value == "2"@ {
        Ok(Protocol::Udp)
    } else if value == "3"@ {
        Ok(Protocol::Both)
    } else {
        Err(seq!["Invalid choice. Please try again."@])
    }
}

/// The socket address that an answer gives, as it is written. An empty answer keeps `current`.
pub open spec fn address_answer(line: Seq<char>, current: Option<Seq<char>>) -> Reading<
    Seq<char>,
> {
    let value = crate::text::trimmed(line);
    if value.len() == 0 {
        match current {
            Some(existing) => Ok(existing),
            None => Err(seq!["Address cannot be empty."@]),
        }
    } else if crate::addr::socket_addr(value) is Some {
        Ok(value)
    } else {
        Err(seq!["Invalid address format: "@ + SYNTAX_FAULT@])
    }
}

/// Whether an answer says yes. An empty answer stands for `default`.
pub open spec fn bool_answer(line: Seq<char>, default: bool) -> Reading<bool> {
    let value = crate::text::lowered(crate::text::trimmed(line));
    if value.len() == 0 {
        Ok(default)
    } else if value == "y"@ || value == "yes"@ {
        Ok(true)
    } else if value == "n"@ || value == "no"@ {
        Ok(false)
    } else {
        Err(seq!["Please enter y or n."@])
    }
}

/// What a list of lines holds.
pub open spec fn said(lines: Vec<String>) -> Seq<Seq<char>> {
    crate::text::texts(lines@)
}

/// An address that an answer gives is a socket address, unless it is the one that was kept.
pub proof fn answered_address_is_valid(line: Seq<char>, current: Option<Seq<char>>)
    requires
        current matches Some(c) ==> crate::addr::socket_addr(c) is Some,
    ensures
        address_answer(line, current) matches Ok(a) ==> crate::addr::socket_addr(a) is Some,
{
}

/// A position that an answer names is one of the places.
pub proof fn answered_index_is_in_range(line: Seq<char>, max: nat)
    ensures
        index_answer(line, max) matches Ok(i) ==> 0 <= i < max,
{
    let value = crate::text::trimmed(line);
    crate::number::scanned_is_value(value, max);
    crate::number::scanned_is_value(value.drop_first(), max);
}

/// The number of a place, written in decimal, names that place.
pub proof fn number_names_its_place(i: nat, max: nat)
    requires
        i < max,
    ensures
        index_answer(crate::number::decimal(i + 1), max) == Ok::<int, Seq<Seq<char>>>(i as int),
{
    let s = crate::number::decimal(i + 1);
    crate::number::decimal_reads_back(i + 1);
    crate::number::scanned_is_value(s, max);
    assert(crate::number::digit(s[0]));
    assert(crate::number::digit(s[s.len() - 1]));
    assert(crate::text::trim_start_of(s) == s);
    assert(crate::text::trimmed(s) == s);
}

/// Writes the question `label`.
pub fn prompt(label: &str) -> (r: String)
    ensures
        r@ == shown(label@),
{
    label.to_owned().concat(":\n└─ ")
}

/// Writes the question `label` where an empty answer stands for `current`.
pub fn prompt_optional(label: &str, current: Option<&str>) -> (r: String)
    ensures
        r@ == with_default(
            label@,
            match current {
                Some(c) => Some(c@),
                None => None,
            },
        ),
{
    match current {
        Some(value) => if value.is_empty() {
            label.to_owned()
        } else {
            label.to_owned().concat(" [default: ").concat(value).concat("]")
        },
        None => label.to_owned(),
    }
}

/// The one line `line`, in a list.
pub fn one_line(line: String) -> (r: Vec<String>)
    ensures
        said(r) == seq![line@],
{
    let mut r: Vec<String> = Vec::new();
    r.push(line);
    assert(said(r) =~= seq![line@]);
    r
}

/// No line.
pub fn no_line() -> (r: Vec<String>)
    ensures
        said(r) == Seq::<Seq<char>>::empty(),
{
    let r: Vec<String> = Vec::new();
    assert(said(r) =~= Seq::<Seq<char>>::empty());
    r
}

/// Reads the number of one of `max` places.
pub fn prompt_index(line: &str, max: usize) -> (r: Result<usize, Vec<String>>)
    ensures
        match r {
            Ok(i) => index_answer(line@, max as nat) == Ok::<int, Seq<Seq<char>>>(i as int) && i
                < max,
            Err(lines) => index_answer(line@, max as nat) == Err::<int, Seq<Seq<char>>>(
                said(lines),
            ),
        },
{
    let value = trim(line);
    proof {
        answered_index_is_in_range(line@, max as nat);
    }
    match parse_unsigned(value.as_str(), max as u64) {
        Some(n) => if n >= 1 {
            return Ok((n - 1) as usize);
        },
        None => {},
    }
    Err(
        one_line(
            "Please enter a number between 1 and ".to_owned().concat(
                to_decimal(max as u128).as_str(),
            ).concat("."),
        ),
    )
}

/// Reads the number of a protocol.
pub fn prompt_protocol(line: &str, current: Option<Protocol>) -> (r: Result<Protocol, Vec<String>>)
    ensures
        match r {
            Ok(p) => protocol_answer(line@, current) == Ok::<Protocol, Seq<Seq<char>>>(p),
            Err(lines) => protocol_answer(line@, current) == Err::<Protocol, Seq<Seq<char>>>(
                said(lines),
            ),
        },
{
    let value = trim(line);
    if value.as_str().is_empty() {
        match current {
            Some(protocol) => Ok(protocol),
            None => Err(no_line()),
        }
    } else if same_text(value.as_str(), "1") {
        Ok(Protocol::Tcp)
    } else if same_text(value.as_str(), "2") {
        Ok(Protocol::Udp)
    } else if same_text(value.as_str(), "3") {
        Ok(Protocol::Both)
    } else {
        Err(one_line("Invalid choice. Please try again.".to_owned()))
    }
}

/// Reads a socket address.
pub fn prompt_socket_addr(line: &str, current: Option<&str>) -> (r: Result<String, Vec<String>>)
    ensures
        ({
            let answer = address_answer(
                line@,
                match current {
                    Some(c) => Some(c@),
                    None => None,
                },
            );
            match r {
                Ok(a) => answer == Ok::<Seq<char>, Seq<Seq<char>>>(a@),
                Err(lines) => answer == Err::<Seq<char>, Seq<Seq<char>>>(said(lines)),
            }
        }),
{
    let value = trim(line);
    if value.as_str().is_empty() {
        match current {
            Some(existing) => Ok(existing.to_owned()),
            None => Err(one_line("Address cannot be empty.".to_owned())),
        }
    } else if parse_socket_addr(value.as_str()).is_some() {
        Ok(value)
    } else {
        Err(one_line("Invalid address format: ".to_owned().concat(SYNTAX_FAULT)))
    }
}

/// Reads a yes or a no.
pub fn prompt_bool(line: &str, default: bool) -> (r: Result<bool, Vec<String>>)
    ensures
        match r {
            Ok(b) => bool_answer(line@, default) == Ok::<bool, Seq<Seq<char>>>(b),
            Err(lines) => bool_answer(line@, default) == Err::<bool, Seq<Seq<char>>>(said(lines)),
        },
{
    let value = trim(line);
    if value.as_str().is_empty() {
        Ok(default)
    } else if is_in_lower_case(value.as_str(), "y") || is_in_lower_case(value.as_str(), "yes") {
        Ok(true)
    } else if is_in_lower_case(value.as_str(), "n") || is_in_lower_case(value.as_str(), "no") {
        Ok(false)
    } else {
        Err(one_line("Please enter y or n.".to_owned()))
    }
}

/// An answer names a position exactly where it is a decimal number, a plus sign before it or not,
/// from 1 to `max`; the position is that number less one. Any other answer brings the one sentence
/// that tells the numbers.
pub proof fn position_is_the_number_less_one(line: Seq<char>, max: nat, i: int)
    ensures
        ({
            let text = crate::text::trimmed(line);
            let digits = if text.len() > 0 && text[0] == '+' {
                text.drop_first()
            } else {
                text
            };
            &&& index_answer(line, max) == Ok::<int, Seq<Seq<char>>>(i) <==> digits.len() > 0
                && crate::number::digits(digits) && crate::number::value(digits) == i + 1 && 1 <= i
                + 1 <= max
            &&& index_answer(line, max) matches Err(lines) ==> lines == seq![
                "Please enter a number between 1 and "@ + crate::number::decimal(max) + "."@,
            ]
        }),
{
    let text = crate::text::trimmed(line);
    let digits = if text.len() > 0 && text[0] == '+' {
        text.drop_first()
    } else {
        text
    };
    crate::number::scanned_is_value(digits, max);
    assert(crate::number::unsigned(text, max) == crate::number::number(digits, max));
}

/// The answers 1, 2 and 3 name TCP, UDP and both. A blank answer keeps the protocol where there is
/// one to keep. Any other answer is not taken.
pub proof fn protocol_is_the_numbered_one(line: Seq<char>, current: Option<Protocol>)
    ensures
        ({
            let text = crate::text::trimmed(line);
            let r = protocol_answer(line, current);
            &&& text == "1"@ ==> r == Ok::<Protocol, Seq<Seq<char>>>(Protocol::Tcp)
            &&& text == "2"@ ==> r == Ok::<Protocol, Seq<Seq<char>>>(Protocol::Udp)
            &&& text == "3"@ ==> r == Ok::<Protocol, Seq<Seq<char>>>(Protocol::Both)
            &&& text.len() == 0 && current is Some ==> r == Ok::<Protocol, Seq<Seq<char>>>(
                current->0,
            )
            &&& text.len() == 0 && current is None ==> r == Err::<Protocol, Seq<Seq<char>>>(seq![])
            &&& text.len() > 0 && text != "1"@ && text != "2"@ && text != "3"@ ==> r == Err::<
                Protocol,
                Seq<Seq<char>>,
            >(seq!["Invalid choice. Please try again."@])
        }),
{
    reveal_strlit("1");
    reveal_strlit("2");
    reveal_strlit("3");
    assert("1"@[0] == '1' && "2"@[0] == '2' && "3"@[0] == '3');
    assert(seq![] =~= Seq::<Seq<char>>::empty());
}

/// An address is taken as it was typed, without the white space around it, exactly where it is a
/// socket address. A blank answer keeps the address where there is one to keep.
pub proof fn address_is_taken_as_typed(line: Seq<char>, current: Option<Seq<char>>)
    ensures
        ({
            let text = crate::text::trimmed(line);
            let r = address_answer(line, current);
            &&& text.len() > 0 && crate::addr::socket_addr(text) is Some ==> r == Ok::<
                Seq<char>,
                Seq<Seq<char>>,
            >(text)
            &&& text.len() > 0 && crate::addr::socket_addr(text) is None ==> r == Err::<
                Seq<char>,
                Seq<Seq<char>>,
            >(seq!["Invalid address format: "@ + "invalid socket address syntax"@])
            &&& text.len() == 0 && current is Some ==> r == Ok::<Seq<char>, Seq<Seq<char>>>(
                current->0,
            )
            &&& text.len() == 0 && current is None ==> r == Err::<Seq<char>, Seq<Seq<char>>>(
                seq!["Address cannot be empty."@],
            )
        }),
{
}

/// `y` and `yes` say yes, `n` and `no` say no, in either case. A blank answer stands for `default`.
/// Any other answer is not taken.
pub proof fn yes_and_no_are_told_apart(line: Seq<char>, default: bool)
    ensures
        ({
            let text = crate::text::trimmed(line);
            let word = text.map_values(|c: char| crate::text::lower(c));
            let r = bool_answer(line, default);
            &&& word == "y"@ || word == "yes"@ ==> r == Ok::<bool, Seq<Seq<char>>>(true)
            &&& word == "n"@ || word == "no"@ ==> r == Ok::<bool, Seq<Seq<char>>>(false)
            &&& text.len() == 0 ==> r == Ok::<bool, Seq<Seq<char>>>(default)
            &&& text.len() > 0 && word != "y"@ && word != "yes"@ && word != "n"@ && word != "no"@
                ==> r == Err::<bool, Seq<Seq<char>>>(seq!["Please enter y or n."@])
        }),
{
    reveal_strlit("y");
    reveal_strlit("yes");
    reveal_strlit("n");
    reveal_strlit("no");
    assert("y"@[0] == 'y' && "yes"@[0] == 'y' && "n"@[0] == 'n' && "no"@[0] == 'n');
}

/// A question is shown with a colon and a line for the answer; what an empty answer stands for is
/// shown behind it in brackets, where there is something to show.
pub proof fn questions_show_their_default(label: Seq<char>, value: Seq<char>)
    ensures
        shown(label) == label + ":\n└─ "@,
        with_default(label, None) == label,
        value.len() == 0 ==> with_default(label, Some(value)) == label,
        value.len() > 0 ==> with_default(label, Some(value)) == label + " [default: "@ + value
            + "]"@,
{
}

} // verus!
