//! The grammar of the trace: which lines count, and what is read from them.
//! Lines are recognised by what they contain, not by a tokenizer.

use crate::amount::u256_from_str;
use crate::ast::{FunctionCallView, StatementView};
use crate::decimal::{is_digit, parse_i32};
use crate::text::{
    contains, contains_text, count, count_char, find_first, find_last, find_last_match, find_nth,
    first_index, last_index, last_match, nth_index, optional_chars, piece_views, replace,
    replace_all, same, slice, split, split_on, strip_leading, to_chars, trim, trimmed, unwrapped,
    without_first, without_last,
};
use crate::types::CheatsDataView;
use vstd::prelude::*;

verus! {

/// A line that announces a failed property.
pub open spec fn is_failure_line(line: Seq<char>) -> bool {
    contains_text(line, "FAILED"@)
}

/// A line that ends the calls of a reproducer.
pub open spec fn is_terminator_line(line: Seq<char>) -> bool {
    contains_text(line, "[Execution Trace]"@)
}

/// A line whose first character that is no space is a decimal digit.
pub open spec fn is_call_line(line: Seq<char>) -> bool {
    let rest = strip_leading(line, ' ');
    rest.len() > 0 && is_digit(rest[0])
}

/// The name in `<subject>.<name>(`: the text between the first `.` and the
/// first `(` after it.
pub open spec fn property_name(line: Seq<char>) -> Option<Seq<char>> {
    match first_index(line, '.') {
        Some(dot) => match first_index(line.skip(dot + 1), '(') {
            Some(paren) => Some(line.subrange(dot + 1, dot + 1 + paren)),
            None => None,
        },
        None => None,
    }
}

/// What stands between the last `(` and the last `)`, where the one comes
/// before the other.
pub open spec fn context_group(line: Seq<char>) -> Option<Seq<char>> {
    match (last_index(line, '('), last_index(line, ')')) {
        (Some(open), Some(close)) => if open < close {
            Some(line.subrange(open + 1, close))
        } else {
            None
        },
        _ => None,
    }
}

/// The key of a `key=value` piece, trimmed; none where the piece has no `=`.
pub open spec fn entry_key(piece: Seq<char>) -> Option<Seq<char>> {
    match first_index(piece, '=') {
        Some(equals) => Some(trim(piece.take(equals))),
        None => None,
    }
}

/// The value of a `key=value` piece, trimmed: all that follows the first `=`.
pub open spec fn entry_value(piece: Seq<char>) -> Seq<char> {
    match first_index(piece, '=') {
        Some(equals) => trim(piece.skip(equals + 1)),
        None => Seq::empty(),
    }
}

/// The value under `key`: that of the last piece with this key.
pub open spec fn lookup(pieces: Seq<Seq<char>>, key: Seq<char>) -> Option<Seq<char>>
    decreases pieces.len(),
{
    if pieces.len() == 0 {
        None
    } else if entry_key(pieces.last()) == Some(key) {
        Some(entry_value(pieces.last()))
    } else {
        lookup(pieces.drop_last(), key)
    }
}

/// The value that the context of a call line gives under `key`.
pub open spec fn context_field(line: Seq<char>, key: Seq<char>) -> Option<Seq<char>> {
    match context_group(line) {
        Some(group) => lookup(split(group, ','), key),
        None => None,
    }
}

/// The context made of the four texts: block and time are read as `i32`, the
/// sender is kept as it stands, and `value` is what `U256` made of the
/// value's text.
pub open spec fn context_of(
    block: Option<Seq<char>>,
    time: Option<Seq<char>>,
    sender: Option<Seq<char>>,
    value: Option<nat>,
) -> Option<CheatsDataView> {
    match (block, time, sender, value) {
        (Some(block), Some(time), Some(sender), Some(value)) => match (
            parse_i32(block),
            parse_i32(time),
        ) {
            (Some(block), Some(time)) => Some(
                CheatsDataView {
                    block_to_roll: block as int,
                    timestamp_to_warp_to: time as int,
                    caller_to_prank: sender,
                    value,
                },
            ),
            _ => None,
        },
        _ => None,
    }
}

/// What `U256` makes of the text under `value`.
pub open spec fn context_value(line: Seq<char>) -> Option<nat> {
    match context_field(line, "value"@) {
        Some(text) => u256_from_str(text),
        None => None,
    }
}

/// The context of a call line: none unless block, time, sender and value are
/// all there and readable.
pub open spec fn call_context(line: Seq<char>) -> Option<CheatsDataView> {
    context_of(
        context_field(line, "block"@),
        context_field(line, "time"@),
        context_field(line, "sender"@),
        context_value(line),
    )
}

/// The line from the `(` that opens the values: of `n` opening parentheses,
/// the one that `n / 2` others precede. Nothing where the line has none.
pub open spec fn values_tail(line: Seq<char>) -> Seq<char> {
    match nth_index(line, '(', count(line, '(') / 2) {
        Some(start) => line.skip(start),
        None => Seq::empty(),
    }
}

/// Empty fields made visible, in three passes, each over the result of the
/// one before: `,,` becomes `,'',`, then `,)` becomes `,'')`, then `(,`
/// becomes `('',`.
pub open spec fn with_empty_fields(values: Seq<char>) -> Seq<char> {
    replace(replace(replace(values, ",,"@, ",'',"@), ",)"@, ",'')"@), "(,"@, "('',"@)
}

/// `text` up to the last ` (`; all of it where there is none.
pub open spec fn without_annotation(text: Seq<char>) -> Seq<char> {
    match last_match(text, " ("@) {
        Some(cut) => text.take(cut),
        None => text,
    }
}

/// The arguments of the call on a call line, as one text: the values
/// without the pair of parentheses around them.
pub open spec fn call_arguments(line: Seq<char>) -> Seq<char> {
    without_last(
        without_first(without_annotation(with_empty_fields(values_tail(line))), '('),
        ')',
    )
}

/// The call of the property on a call line, sending `value`: through `this`,
/// with the value only where it is not zero.
pub open spec fn property_call(line: Seq<char>, value: nat) -> Option<StatementView> {
    match property_name(line) {
        Some(name) => Some(
            StatementView::ContractCall(
                FunctionCallView {
                    target: Some("this"@),
                    function_name: name,
                    value: if value == 0 {
                        None
                    } else {
                        Some(value)
                    },
                    arguments: seq![call_arguments(line)],
                },
            ),
        ),
        None => None,
    }
}

/// Whether the line announces a failed property.
pub fn failure_line(line: &Vec<char>) -> (b: bool)
    ensures
        b == is_failure_line(line@),
{
    contains(line, &to_chars("FAILED"))
}

/// Whether the line ends the calls of a reproducer.
pub fn terminator_line(line: &Vec<char>) -> (b: bool)
    ensures
        b == is_terminator_line(line@),
{
    contains(line, &to_chars("[Execution Trace]"))
}

/// Whether the line is one call of a sequence.
pub fn call_line(line: &Vec<char>) -> (b: bool)
    ensures
        b == is_call_line(line@),
{
    let mut i: usize = 0;
    assert(line@.skip(0) == line@);
    while i < line.len() && line[i] == ' '
        invariant
            i <= line.len(),
            strip_leading(line@, ' ') == strip_leading(line@.skip(i as int), ' '),
        decreases line.len() - i,
    {
        assert(line@.skip(i as int).skip(1) == line@.skip(i + 1));
        i += 1;
    }
    i < line.len() && '0' <= line[i] && line[i] <= '9'
}

/// Reads the name of the property.
pub fn read_property_name(line: &Vec<char>) -> (r: Option<Vec<char>>)
    ensures
        optional_chars(r) == property_name(line@),
{
    assert(line@.skip(0) == line@);
    match find_first(line, '.', 0) {
        Some(dot) => match find_first(line, '(', dot + 1) {
            Some(paren) => Some(slice(line, dot + 1, paren)),
            None => None,
        },
        None => None,
    }
}

/// Finds the value under `key` among the pieces.
pub fn find_entry(pieces: &Vec<Vec<char>>, key: &Vec<char>) -> (r: Option<Vec<char>>)
    ensures
        optional_chars(r) == lookup(piece_views(pieces@), key@),
{
    let ghost all = piece_views(pieces@);
    let mut i: usize = pieces.len();
    assert(all.take(i as int) == all);
    while i > 0
        invariant
            i <= pieces.len(),
            all == piece_views(pieces@),
            lookup(all, key@) == lookup(all.take(i as int), key@),
        decreases i,
    {
        i -= 1;
        let piece = &pieces[i];
        proof {
            assert(all.take(i + 1).drop_last() == all.take(i as int));
            assert(all.take(i + 1).last() == piece@);
            assert(piece@.skip(0) == piece@);
        }
        match find_first(piece, '=', 0) {
            Some(equals) => {
                let found = trimmed(&slice(piece, 0, equals));
                if same(&found, key) {
                    let value = trimmed(&slice(piece, equals + 1, piece.len()));
                    return Some(value);
                }
            },
            None => {},
        }
    }
    None
}

/// Cuts the context of a call line into its pieces.
pub fn read_context_pieces(line: &Vec<char>) -> (r: Option<Vec<Vec<char>>>)
    ensures
        match r {
            Some(pieces) => context_group(line@) matches Some(group) && piece_views(pieces@)
                == split(group, ','),
            None => context_group(line@) is None,
        },
{
    match find_last(line, '(') {
        Some(open) => match find_last(line, ')') {
            Some(close) => if open < close {
                Some(split_on(&slice(line, open + 1, close), ','))
            } else {
                None
            },
            None => None,
        },
        None => None,
    }
}

/// Reads the arguments of the call on a call line.
pub fn read_call_arguments(line: &Vec<char>) -> (r: Vec<char>)
    ensures
        r@ == call_arguments(line@),
{
    let opening: usize = count_char(line, '(');
    let tail = match find_nth(line, '(', opening / 2) {
        Some(start) => slice(line, start, line.len()),
        None => Vec::new(),
    };
    let doubled = replace_all(&tail, &to_chars(",,"), &to_chars(",'',"));
    let closed = replace_all(&doubled, &to_chars(",)"), &to_chars(",'')"));
    let opened = replace_all(&closed, &to_chars("(,"), &to_chars("('',"));
    let cut = match find_last_match(&opened, &to_chars(" (")) {
        Some(at) => slice(&opened, 0, at),
        None => opened,
    };
    unwrapped(&cut, '(', ')')
}

} // verus!
