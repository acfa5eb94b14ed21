//! What holds of the library as a whole, proved from the contracts of its
//! parts.

use crate::ast::{
    prank_call, roll_call, warp_call, Ast, AstView, FunctionDeclarationView, StatementView,
};
use crate::counter::seen;
use crate::decimal::{decimal, lemma_decimal_injective, lemma_decimal_shape};
use crate::emitter::{emitted, render, render_all};
use crate::output_text;
use crate::parser::{call_statements, new_root, test_name, ParserView};
use crate::reader::{first_error, replay};
use crate::trace::{
    call_context, is_call_line, is_failure_line, is_terminator_line, property_name,
};
use vstd::prelude::*;

verus! {

/// How many of `lines` are failure lines that name the property `name`.
pub open spec fn failures(lines: Seq<Seq<char>>, name: Seq<char>) -> nat
    decreases lines.len(),
{
    if lines.len() == 0 {
        0
    } else {
        failures(lines.drop_last(), name) + if is_failure_line(lines.last()) && property_name(
            lines.last(),
        ) == Some(name) {
            1nat
        } else {
            0nat
        }
    }
}

/// A parser that started fresh has counted each property as often as failure
/// lines have named it.
pub proof fn lemma_failures_counted(lines: Seq<Seq<char>>, name: Seq<char>)
    ensures
        seen(replay(ParserView::initial(), lines).counts, name) == failures(lines, name),
    decreases lines.len(),
{
    if lines.len() > 0 {
        lemma_failures_counted(lines.drop_last(), name);
    }
}

/// In one run, the failure line that names a property for the `k`-th time
/// starts the reproducer `test_<name>` for `k` = 1 and `test_<name><k>` from
/// then on: the identifiers of a property that fails `k` times are `test_N`,
/// `test_N2`, up to `test_N<k>`, in the order of the failures.
pub proof fn lemma_identifiers_numbered(lines: Seq<Seq<char>>, name: Seq<char>)
    requires
        lines.len() > 0,
        is_failure_line(lines.last()),
        property_name(lines.last()) == Some(name),
    ensures
        failures(lines, name) == failures(lines.drop_last(), name) + 1,
        replay(ParserView::initial(), lines).pending == Some(
            new_root(test_name(name, failures(lines, name))),
        ),
{
    lemma_failures_counted(lines.drop_last(), name);
}

/// Two failures of one property never get the same identifier.
pub proof fn lemma_identifiers_distinct(name: Seq<char>, j: nat, k: nat)
    requires
        1 <= j,
        1 <= k,
        test_name(name, j) == test_name(name, k),
    ensures
        j == k,
{
    let stem = "test_"@ + name;
    lemma_decimal_shape(j);
    lemma_decimal_shape(k);
    if j > 1 && k > 1 {
        assert((stem + decimal(j)).skip(stem.len() as int) == decimal(j));
        assert((stem + decimal(k)).skip(stem.len() as int) == decimal(k));
        lemma_decimal_injective(j, k);
    } else if j > 1 {
        assert((stem + decimal(j)).len() > stem.len());
    } else if k > 1 {
        assert((stem + decimal(k)).len() > stem.len());
    }
}

/// A call line that is accepted leaves what the pending reproducer held in
/// place and adds four statements behind it, always in this order: the block
/// is set, the time is set, the caller is set, and the property is called
/// through `this`. Nothing else changes.
pub proof fn lemma_call_line_order(state: ParserView, line: Seq<char>)
    requires
        state.add_call(line).1 is Ok,
    ensures
        ({
            let next = state.add_call(line).0;
            &&& state.pending matches Some(AstView::FunctionDeclaration(before))
            &&& next.pending matches Some(AstView::FunctionDeclaration(after))
            &&& call_context(line) matches Some(context)
            &&& property_name(line) matches Some(property)
            &&& after.name == before.name
            &&& after.children.len() == before.children.len() + 4
            &&& after.children.take(before.children.len() as int) == before.children
            &&& after.children.skip(before.children.len() as int) matches added
            &&& added[0] == AstView::Statement(roll_call(context.block_to_roll))
            &&& added[1] == AstView::Statement(warp_call(context.timestamp_to_warp_to))
            &&& added[2] == AstView::Statement(prank_call(context.caller_to_prank))
            &&& added[3] matches AstView::Statement(StatementView::ContractCall(call))
            &&& call.target == Some("this"@)
            &&& call.function_name == property
            &&& next.counts == state.counts
            &&& next.reproducers == state.reproducers
        }),
{
}

/// Rendering is repeatable: two trees that hold the same, emitted behind the
/// same text, give the same text, character for character.
pub proof fn lemma_rendering_repeatable(
    first: Ast,
    second: Ast,
    before: Seq<char>,
    first_text: Seq<char>,
    second_text: Seq<char>,
)
    requires
        first@ == second@,
        emitted(before, first@, first_text),
        emitted(before, second@, second_text),
    ensures
        first_text == second_text,
{
}


/// Handling lines one after the other is handling the first of them and
/// then, from the state reached, the rest; and the first error is that of
/// the first part if it has one.
pub proof fn lemma_replay_in_parts(
    state: ParserView,
    first: Seq<Seq<char>>,
    second: Seq<Seq<char>>,
)
    ensures
        replay(state, first + second) == replay(replay(state, first), second),
        first_error(state, first + second) == (match first_error(state, first) {
            Some(e) => Some(e),
            None => first_error(replay(state, first), second),
        }),
    decreases second.len(),
{
    if second.len() == 0 {
        assert(first + second == first);
    } else {
        lemma_replay_in_parts(state, first, second.drop_last());
        assert((first + second).drop_last() == first + second.drop_last());
        assert((first + second).last() == second.last());
    }
}

/// Every line is a call line that can be read, and none reports a failure.
pub open spec fn readable_calls(calls: Seq<Seq<char>>) -> bool {
    forall|i: int|
        0 <= i < calls.len() ==> {
            &&& !is_failure_line(#[trigger] calls[i])
            &&& is_call_line(calls[i])
            &&& call_statements(calls[i]) is Ok
        }
}

/// The statements that call lines stand for, line after line.
pub open spec fn expansions(calls: Seq<Seq<char>>) -> Seq<AstView>
    decreases calls.len(),
{
    if calls.len() == 0 {
        Seq::empty()
    } else {
        expansions(calls.drop_last()) + call_statements(calls.last())->Ok_0
    }
}

/// Readable call lines give four statements each, those of line `i` at the
/// positions from `4 * i` on.
pub proof fn lemma_expansions_shape(calls: Seq<Seq<char>>, i: int)
    requires
        readable_calls(calls),
        0 <= i < calls.len(),
    ensures
        expansions(calls).len() == 4 * calls.len(),
        expansions(calls).subrange(4 * i, 4 * i + 4) == call_statements(calls[i])->Ok_0,
    decreases calls.len(),
{
    let head = calls.drop_last();
    let last = call_statements(calls.last())->Ok_0;
    assert(!is_failure_line(calls[calls.len() - 1]));
    assert(last.len() == 4);
    assert(readable_calls(head)) by {
        assert forall|k: int| 0 <= k < head.len() implies {
            &&& !is_failure_line(#[trigger] head[k])
            &&& is_call_line(head[k])
            &&& call_statements(head[k]) is Ok
        } by {
            assert(head[k] == calls[k]);
        }
    }
    if head.len() > 0 {
        lemma_expansions_shape(head, if i < head.len() { i } else { 0 });
    }
    if i < head.len() {
        assert(head[i] == calls[i]);
        assert((expansions(head) + last).subrange(4 * i, 4 * i + 4) == expansions(head).subrange(
            4 * i,
            4 * i + 4,
        ));
    } else {
        assert((expansions(head) + last).subrange(4 * i, 4 * i + 4) == last);
    }
}

/// Readable call lines, handled while a reproducer is pending, add their
/// statements to it in order and change nothing else; none fails.
pub proof fn lemma_calls_accumulate(state: ParserView, calls: Seq<Seq<char>>)
    requires
        state.pending matches Some(AstView::FunctionDeclaration(_)),
        readable_calls(calls),
    ensures
        replay(state, calls) == state.extend(expansions(calls)),
        first_error(state, calls) is None,
    decreases calls.len(),
{
    let root = state.pending->0->FunctionDeclaration_0;
    if calls.len() == 0 {
        assert(root.children + expansions(calls) == root.children);
    } else {
        let head = calls.drop_last();
        let line = calls.last();
        assert(!is_failure_line(calls[calls.len() - 1]));
        assert(readable_calls(head)) by {
            assert forall|k: int| 0 <= k < head.len() implies {
                &&& !is_failure_line(#[trigger] head[k])
                &&& is_call_line(head[k])
                &&& call_statements(head[k]) is Ok
            } by {
                assert(head[k] == calls[k]);
            }
        }
        lemma_calls_accumulate(state, head);
        let added = call_statements(line)->Ok_0;
        assert((root.children + expansions(head)) + added == root.children + (expansions(head)
            + added));
    }
}

/// Handling one line is one step.
pub proof fn lemma_single_line(state: ParserView, line: Seq<char>)
    ensures
        replay(state, seq![line]) == state.step(line).0,
        first_error(state, seq![line]) == (match state.step(line).1 {
            Ok(_) => None,
            Err(e) => Some(e),
        }),
{
    reveal_with_fuel(replay, 2);
    reveal_with_fuel(first_error, 2);
    assert(seq![line].drop_last() == Seq::<Seq<char>>::empty());
    assert(seq![line].last() == line);
}

/// A line that ends a reproducer and is nothing else.
pub open spec fn plain_terminator(line: Seq<char>) -> bool {
    &&& is_terminator_line(line)
    &&& !is_failure_line(line)
    &&& !is_call_line(line)
}

/// The lines of one reproducer: the line that reports the failure, the call
/// lines, and the line that ends them.
pub open spec fn cycle(
    failure: Seq<char>,
    calls: Seq<Seq<char>>,
    terminator: Seq<char>,
) -> Seq<Seq<char>> {
    seq![failure] + calls + seq![terminator]
}

/// The reproducer that a cycle for the `count`-th failure of `name` gives.
pub open spec fn reproducer(name: Seq<char>, count: nat, calls: Seq<Seq<char>>) -> AstView {
    AstView::FunctionDeclaration(
        FunctionDeclarationView { name: test_name(name, count), children: expansions(calls) },
    )
}

/// One whole cycle, whatever the state before it: the property is counted
/// once more, nothing stays pending, and one reproducer joins the finished
/// ones. It is named after the property and its count and holds the
/// statements of the cycle's own call lines, four for each, in order, and
/// nothing else. No line of the cycle fails.
pub proof fn lemma_cycle(
    state: ParserView,
    failure: Seq<char>,
    calls: Seq<Seq<char>>,
    terminator: Seq<char>,
    name: Seq<char>,
)
    requires
        is_failure_line(failure),
        property_name(failure) == Some(name),
        readable_calls(calls),
        plain_terminator(terminator),
    ensures
        replay(state, cycle(failure, calls, terminator)) == (ParserView {
            counts: state.counts.insert(name, seen(state.counts, name) + 1),
            pending: None,
            reproducers: state.reproducers.push(
                reproducer(name, seen(state.counts, name) + 1, calls),
            ),
        }),
        first_error(state, cycle(failure, calls, terminator)) is None,
{
    let started = state.start(name);
    lemma_single_line(state, failure);
    lemma_calls_accumulate(started, calls);
    lemma_replay_in_parts(state, seq![failure], calls);
    let filled = started.extend(expansions(calls));
    assert(Seq::<AstView>::empty() + expansions(calls) == expansions(calls));
    assert(filled.pending == Some(reproducer(name, seen(state.counts, name) + 1, calls)));
    lemma_single_line(filled, terminator);
    lemma_replay_in_parts(state, seq![failure] + calls, seq![terminator]);
}

/// Two whole cycles for one property, from a fresh parser: there are exactly
/// two reproducers, named `test_<name>` and `test_<name>2`, the first with
/// the statements of the first cycle's call lines and the second with those
/// of the second's. The reproducers are not merged, and no line fails.
pub proof fn lemma_two_cycles(
    name: Seq<char>,
    first_failure: Seq<char>,
    first_calls: Seq<Seq<char>>,
    first_terminator: Seq<char>,
    second_failure: Seq<char>,
    second_calls: Seq<Seq<char>>,
    second_terminator: Seq<char>,
)
    requires
        is_failure_line(first_failure),
        property_name(first_failure) == Some(name),
        readable_calls(first_calls),
        plain_terminator(first_terminator),
        is_failure_line(second_failure),
        property_name(second_failure) == Some(name),
        readable_calls(second_calls),
        plain_terminator(second_terminator),
    ensures
        ({
            let lines = cycle(first_failure, first_calls, first_terminator) + cycle(
                second_failure,
                second_calls,
                second_terminator,
            );
            let end = replay(ParserView::initial(), lines);
            &&& first_error(ParserView::initial(), lines) is None
            &&& end.pending is None
            &&& end.reproducers == seq![
                reproducer(name, 1, first_calls),
                reproducer(name, 2, second_calls),
            ]
            &&& test_name(name, 1) == "test_"@ + name
            &&& test_name(name, 2) == "test_"@ + name + seq!['2']
            &&& expansions(first_calls).len() == 4 * first_calls.len()
            &&& expansions(second_calls).len() == 4 * second_calls.len()
        }),
{
    let first = cycle(first_failure, first_calls, first_terminator);
    let second = cycle(second_failure, second_calls, second_terminator);
    let fresh = ParserView::initial();
    lemma_cycle(fresh, first_failure, first_calls, first_terminator, name);
    let between = replay(fresh, first);
    lemma_cycle(between, second_failure, second_calls, second_terminator, name);
    lemma_replay_in_parts(fresh, first, second);
    assert(decimal(2) == seq!['2']);
    if first_calls.len() > 0 {
        lemma_expansions_shape(first_calls, 0);
    }
    if second_calls.len() > 0 {
        lemma_expansions_shape(second_calls, 0);
    }
}

/// The text of two reproducers is two blocks, one after the other: each
/// opens with `function <name>() public {`, holds the text of its own
/// statements, and closes with `}` and an empty line before the next begins.
pub proof fn lemma_two_blocks(first: FunctionDeclarationView, second: FunctionDeclarationView)
    ensures
        output_text(
            seq![AstView::FunctionDeclaration(first), AstView::FunctionDeclaration(second)],
        ) == "function "@ + first.name + "() public {\n"@ + render_all(first.children) + "}\n"@
            + "\n"@ + "function "@ + second.name + "() public {\n"@ + render_all(
            second.children,
        ) + "}\n"@ + "\n"@,
{
    let a = AstView::FunctionDeclaration(first);
    let b = AstView::FunctionDeclaration(second);
    let both = seq![a, b];
    reveal_with_fuel(output_text, 3);
    assert(both.drop_last() == seq![a]);
    assert(seq![a].drop_last() == Seq::<AstView>::empty());
    assert(Seq::<char>::empty() + render(a) + "\n"@ == render(a) + "\n"@);
    assert(output_text(seq![a]) == render(a) + "\n"@);
    assert(output_text(both) == render(a) + "\n"@ + render(b) + "\n"@);
    let head = "function "@ + first.name + "() public {\n"@ + render_all(first.children) + "}\n"@;
    let tail = "function "@ + second.name + "() public {\n"@ + render_all(second.children)
        + "}\n"@;
    assert(render(a) == head);
    assert(render(b) == tail);
    assert(head + "\n"@ + tail + "\n"@ == head + "\n"@ + "function "@ + second.name
        + "() public {\n"@ + render_all(second.children) + "}\n"@ + "\n"@);
}

/// The text for two whole cycles of one property, from a fresh parser: two
/// blocks, the first opening with `function test_<name>() public {` and the
/// second, behind it, with `function test_<name>2() public {`, each with the
/// text of its own call lines and closed before the next begins.
pub proof fn lemma_two_cycles_text(
    name: Seq<char>,
    first_failure: Seq<char>,
    first_calls: Seq<Seq<char>>,
    first_terminator: Seq<char>,
    second_failure: Seq<char>,
    second_calls: Seq<Seq<char>>,
    second_terminator: Seq<char>,
)
    requires
        is_failure_line(first_failure),
        property_name(first_failure) == Some(name),
        readable_calls(first_calls),
        plain_terminator(first_terminator),
        is_failure_line(second_failure),
        property_name(second_failure) == Some(name),
        readable_calls(second_calls),
        plain_terminator(second_terminator),
    ensures
        ({
            let lines = cycle(first_failure, first_calls, first_terminator) + cycle(
                second_failure,
                second_calls,
                second_terminator,
            );
            &&& first_error(ParserView::initial(), lines) is None
            &&& output_text(replay(ParserView::initial(), lines).reproducers) == "function "@
                + ("test_"@ + name) + "() public {\n"@ + render_all(expansions(first_calls))
                + "}\n"@ + "\n"@ + "function "@ + ("test_"@ + name + seq!['2'])
                + "() public {\n"@ + render_all(expansions(second_calls)) + "}\n"@ + "\n"@
        }),
{
    lemma_two_cycles(
        name,
        first_failure,
        first_calls,
        first_terminator,
        second_failure,
        second_calls,
        second_terminator,
    );
    lemma_two_blocks(
        FunctionDeclarationView { name: test_name(name, 1), children: expansions(first_calls) },
        FunctionDeclarationView { name: test_name(name, 2), children: expansions(second_calls) },
    );
}

/// The count of a property's failures never falls as lines are added.
pub proof fn lemma_failures_grow(lines: Seq<Seq<char>>, name: Seq<char>, i: int, j: int)
    requires
        0 <= i <= j <= lines.len(),
    ensures
        failures(lines.take(i), name) <= failures(lines.take(j), name),
    decreases j - i,
{
    if i < j {
        assert(lines.take(j).drop_last() == lines.take(j - 1));
        lemma_failures_grow(lines, name, i, j - 1);
    }
}

/// In one run, two failure lines that name the same property start
/// reproducers with different identifiers.
pub proof fn lemma_identifiers_differ(lines: Seq<Seq<char>>, name: Seq<char>, i: int, j: int)
    requires
        0 <= i < j < lines.len(),
        is_failure_line(lines[i]),
        property_name(lines[i]) == Some(name),
        is_failure_line(lines[j]),
        property_name(lines[j]) == Some(name),
    ensures
        replay(ParserView::initial(), lines.take(i + 1)).pending == Some(
            new_root(test_name(name, failures(lines.take(i + 1), name))),
        ),
        replay(ParserView::initial(), lines.take(j + 1)).pending == Some(
            new_root(test_name(name, failures(lines.take(j + 1), name))),
        ),
        test_name(name, failures(lines.take(i + 1), name)) != test_name(
            name,
            failures(lines.take(j + 1), name),
        ),
{
    let early = lines.take(i + 1);
    let late = lines.take(j + 1);
    assert(early.last() == lines[i]);
    assert(late.last() == lines[j]);
    lemma_identifiers_numbered(early, name);
    lemma_identifiers_numbered(late, name);
    assert(late.drop_last() == lines.take(j));
    lemma_failures_grow(lines, name, i + 1, j);
    if test_name(name, failures(early, name)) == test_name(name, failures(late, name)) {
        lemma_identifiers_distinct(name, failures(early, name), failures(late, name));
    }
}

} // verus!
