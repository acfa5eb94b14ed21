//! Builds reproducers from the lines of a trace, one line at a time.

use crate::amount::Amount;
use crate::ast::{
    optional_text, prank_call, roll_call, texts, views, warp_call, Ast, AstView,
    FunctionDeclaration, FunctionDeclarationView, Statement, StatementView,
};
use crate::counter::{seen, Occurrences};
use crate::decimal::{decimal, push_decimal};
use crate::error::{LineError, ParseError};
use crate::text::{append_str, from_chars, to_chars};
use crate::trace::{
    call_arguments, call_context, call_line, failure_line, find_entry, is_call_line,
    is_failure_line, is_terminator_line, property_call, property_name, read_call_arguments,
    read_context_pieces, read_property_name, terminator_line,
};
use crate::types::{optional_context, CheatsData, CheatsDataView};
use vstd::prelude::*;

verus! {

/// The identifier of the reproducer for the `count`-th failure of `name`:
/// `test_<name>` for the first, `test_<name><count>` from the second on.
pub open spec fn test_name(name: Seq<char>, count: nat) -> Seq<char> {
    if count > 1 {
        "test_"@ + name + decimal(count)
    } else {
        "test_"@ + name
    }
}

/// A function declaration of this name with an empty body.
pub open spec fn new_root(name: Seq<char>) -> AstView {
    AstView::FunctionDeclaration(FunctionDeclarationView { name, children: Seq::empty() })
}

/// What a call in `context` becomes: block, time and caller are set, in this
/// order, and then the property is called.
pub open spec fn expansion(context: CheatsDataView, call: StatementView) -> Seq<AstView> {
    seq![
        AstView::Statement(roll_call(context.block_to_roll)),
        AstView::Statement(warp_call(context.timestamp_to_warp_to)),
        AstView::Statement(prank_call(context.caller_to_prank)),
        AstView::Statement(call),
    ]
}

/// The statements that a call line stands for, or the step at which reading
/// it fails: the context first, then the property.
pub open spec fn call_statements(line: Seq<char>) -> Result<Seq<AstView>, ParseError> {
    match call_context(line) {
        Some(context) => match property_call(line, context.value) {
            Some(call) => Ok(expansion(context, call)),
            None => Err(ParseError::PropertyCall),
        },
        None => Err(ParseError::CallContext),
    }
}

/// What a parser holds: how often each property has failed, the reproducer
/// under construction, and the finished ones, oldest first.
pub struct ParserView {
    pub counts: Map<Seq<char>, nat>,
    pub pending: Option<AstView>,
    pub reproducers: Seq<AstView>,
}

impl ParserView {
    /// The state of a parser that has seen nothing.
    pub open spec fn initial() -> ParserView {
        ParserView { counts: Map::empty(), pending: None, reproducers: Seq::empty() }
    }

    /// One more failure of `name`: it is counted, and an empty reproducer
    /// named after it and its count takes the place of whatever was pending.
    pub open spec fn start(self, name: Seq<char>) -> ParserView {
        let count = seen(self.counts, name) + 1;
        ParserView {
            counts: self.counts.insert(name, count as nat),
            pending: Some(new_root(test_name(name, count as nat))),
            reproducers: self.reproducers,
        }
    }

    /// The pending reproducer with `statements` added at the end of its body.
    pub open spec fn extend(self, statements: Seq<AstView>) -> ParserView {
        match self.pending {
            Some(AstView::FunctionDeclaration(root)) => ParserView {
                pending: Some(
                    AstView::FunctionDeclaration(
                        FunctionDeclarationView {
                            name: root.name,
                            children: root.children + statements,
                        },
                    ),
                ),
                ..self
            },
            _ => self,
        }
    }

    /// A call line: its four statements are added to the pending reproducer.
    /// Where the line cannot be read, or nothing is pending to add to, the
    /// state stays as it is.
    pub open spec fn add_call(self, line: Seq<char>) -> (ParserView, Result<(), ParseError>) {
        match call_statements(line) {
            Ok(statements) => if self.pending matches Some(AstView::FunctionDeclaration(_)) {
                (self.extend(statements), Ok(()))
            } else {
                (self, Err(ParseError::WrongParent))
            },
            Err(e) => (self, Err(e)),
        }
    }

    /// A failure line: a reproducer is started, unless the line names no
    /// property.
    pub open spec fn add_failure(self, line: Seq<char>) -> (ParserView, Result<(), ParseError>) {
        match property_name(line) {
            Some(name) => (self.start(name), Ok(())),
            None => (self, Err(ParseError::PropertyName)),
        }
    }

    /// A terminator line: the pending reproducer, if there is one, joins the
    /// finished ones.
    pub open spec fn finish(self) -> ParserView {
        match self.pending {
            Some(root) => ParserView {
                pending: None,
                reproducers: self.reproducers.push(root),
                ..self
            },
            None => self,
        }
    }

    /// What one line does. A line with the failure marker is a failure line;
    /// else a line that starts a call, while a reproducer is pending, is a
    /// call line; else a line with the end marker is a terminator. Any other
    /// line changes nothing.
    pub open spec fn step(self, line: Seq<char>) -> (ParserView, Result<(), LineError>) {
        if is_failure_line(line) {
            match self.add_failure(line) {
                (next, Ok(_)) => (next, Ok(())),
                (next, Err(e)) => (next, Err(LineError::NewFailure(e))),
            }
        } else if is_call_line(line) && self.pending is Some {
            match self.add_call(line) {
                (next, Ok(_)) => (next, Ok(())),
                (next, Err(e)) => (next, Err(LineError::NewCall(e))),
            }
        } else if is_terminator_line(line) {
            (self.finish(), Ok(()))
        } else {
            (self, Ok(()))
        }
    }

    /// The failure that `line` may report can still be counted.
    pub open spec fn can_count(self, line: Seq<char>) -> bool {
        is_failure_line(line) ==> match property_name(line) {
            Some(name) => seen(self.counts, name) < u64::MAX,
            None => true,
        }
    }
}

/// The view of an optional node.
pub open spec fn optional_view(node: Option<Ast>) -> Option<AstView> {
    match node {
        Some(n) => Some(n@),
        None => None,
    }
}

/// Reads a trace line by line and builds the reproducers it describes.
#[derive(Debug)]
pub struct Parser {
    /// How often each property has been seen to fail: a property that fails
    /// again gets a number behind its name.
    unique_function_counter: Occurrences,
    /// The reproducer under construction.
    current_ast_root: Option<Ast>,
    /// The finished reproducers.
    reproducers: Vec<Ast>,
}

impl View for Parser {
    type V = ParserView;

    closed spec fn view(&self) -> ParserView {
        ParserView {
            counts: self.unique_function_counter@,
            pending: optional_view(self.current_ast_root),
            reproducers: views(self.reproducers@),
        }
    }
}

impl Parser {
    /// Handles one line of the trace.
    pub fn process_line(&mut self, line: String) -> (r: Result<(), LineError>)
        requires
            old(self)@.can_count(line@),
        ensures
            (final(self)@, r) == old(self)@.step(line@),
    {
        let chars = to_chars(line.as_str());
        if failure_line(&chars) {
            match self.create_new_reproducer(line.as_str()) {
                Ok(_) => Ok(()),
                Err(e) => Err(LineError::NewFailure(e)),
            }
        } else if call_line(&chars) && self.current_ast_root.is_some() {
            match self.add_new_call_to_ast(line) {
                Ok(_) => Ok(()),
                Err(e) => Err(LineError::NewCall(e)),
            }
        } else if terminator_line(&chars) {
            if let Some(ast) = self.current_ast_root.take() {
                let ghost before = self.reproducers@;
                self.reproducers.push(ast);
                assert(views(self.reproducers@) == views(before).push(ast@));
            }
            Ok(())
        } else {
            Ok(())
        }
    }

    /// Whether `process_line` can take this line: it can, unless the line
    /// reports a failure of a property that has been counted `u64::MAX`
    /// times.
    pub fn can_count(&self, line: &str) -> (b: bool)
        ensures
            b == self@.can_count(line@),
    {
        let chars = to_chars(line);
        if failure_line(&chars) {
            match read_property_name(&chars) {
                Some(name) => self.unique_function_counter.count_of(from_chars(&name).as_str())
                    < u64::MAX,
                None => true,
            }
        } else {
            true
        }
    }

    /// The finished reproducers, if there is any.
    pub fn get_reproducers(self) -> (r: Option<Vec<Ast>>)
        ensures
            match r {
                Some(roots) => roots.len() > 0 && views(roots@) == self@.reproducers,
                None => self@.reproducers.len() == 0,
            },
    {
        if self.reproducers.len() > 0 {
            Some(self.reproducers)
        } else {
            None
        }
    }

    /// A parser that has seen nothing.
    pub fn new() -> (r: Self)
        ensures
            r@ == ParserView::initial(),
    {
        let r = Self {
            unique_function_counter: Occurrences::new(),
            current_ast_root: None,
            reproducers: Vec::new(),
        };
        assert(views(r.reproducers@) == Seq::<AstView>::empty());
        r
    }

    /// The reproducer under construction.
    pub fn current_ast_root(&self) -> (r: &Option<Ast>)
        ensures
            optional_view(*r) == self@.pending,
    {
        &self.current_ast_root
    }

    /// The finished reproducers, oldest first.
    pub fn reproducers(&self) -> (r: &Vec<Ast>)
        ensures
            views(r@) == self@.reproducers,
    {
        &self.reproducers
    }

    /// Starts a reproducer for the property that a failure line names.
    pub fn create_new_reproducer(&mut self, line: &str) -> (r: Result<(), ParseError>)
        requires
            property_name(line@) matches Some(name) ==> seen(old(self)@.counts, name) < u64::MAX,
        ensures
            (final(self)@, r) == old(self)@.add_failure(line@),
    {
        match self.extract_property_name(line) {
            Some(name) => {
                let unique_name = self.generate_unique_test_name(name);
                self.create_new_ast(unique_name);
                Ok(())
            },
            None => Err(ParseError::PropertyName),
        }
    }

    /// The name of the property on a line: in `FuzzTest.prop_x(uint256)`,
    /// `prop_x`.
    pub fn extract_property_name(&self, line: &str) -> (r: Option<String>)
        ensures
            optional_text(r) == property_name(line@),
    {
        match read_property_name(&to_chars(line)) {
            Some(name) => Some(from_chars(&name)),
            None => None,
        }
    }

    /// Counts one more failure of `name` and gives the identifier of its
    /// reproducer.
    pub fn generate_unique_test_name(&mut self, name: String) -> (r: String)
        requires
            seen(old(self)@.counts, name@) < u64::MAX,
        ensures
            r@ == test_name(name@, seen(old(self)@.counts, name@) + 1),
            final(self)@ == (ParserView {
                counts: old(self)@.counts.insert(name@, seen(old(self)@.counts, name@) + 1),
                ..old(self)@
            }),
    {
        let counter: u64 = self.unique_function_counter.bump(name.as_str());
        let mut unique: Vec<char> = Vec::new();
        append_str(&mut unique, "test_");
        append_str(&mut unique, name.as_str());
        if counter > 1 {
            push_decimal(&mut unique, counter);
        }
        from_chars(&unique)
    }

    /// Makes an empty function of this name the reproducer under
    /// construction, in place of the one before.
    pub fn create_new_ast(&mut self, name: String)
        ensures
            final(self)@ == (ParserView { pending: Some(new_root(name@)), ..old(self)@ }),
    {
        let new_fn = Ast::FunctionDeclaration(FunctionDeclaration::new(name.as_str()));
        self.current_ast_root = Some(new_fn);
    }

    /// Reads a call line and adds what it stands for to the reproducer under
    /// construction: the cheat codes for block, time and caller, then the
    /// call of the property.
    pub fn add_new_call_to_ast(&mut self, line: String) -> (r: Result<(), ParseError>)
        ensures
            (final(self)@, r) == old(self)@.add_call(line@),
    {
        let cheats_data = match self.parse_cheats_data(line.clone()) {
            Some(data) => data,
            None => {
                return Err(ParseError::CallContext);
            },
        };
        let property_call = match self.generate_call_to_medusa_property(
            line.clone(),
            cheats_data.value,
        ) {
            Ok(call) => call,
            Err(_) => {
                return Err(ParseError::PropertyCall);
            },
        };
        let ghost statements = call_statements(line@)->Ok_0;
        match &mut self.current_ast_root {
            Some(Ast::FunctionDeclaration(function_root)) => {
                let ghost before = function_root@;
                function_root.add_child(
                    Ast::Statement(Statement::new_roll(cheats_data.block_to_roll)),
                );
                function_root.add_child(
                    Ast::Statement(Statement::new_warp(cheats_data.timestamp_to_warp_to)),
                );
                function_root.add_child(
                    Ast::Statement(Statement::new_prank(cheats_data.caller_to_prank.as_str())),
                );
                function_root.add_child(Ast::Statement(property_call));
                assert(function_root@.children == before.children + statements);
            },
            _ => {
                return Err(ParseError::WrongParent);
            },
        }
        Ok(())
    }

    /// The call of the property on a call line, through `this`, sending
    /// `value` where it is not zero.
    pub fn generate_call_to_medusa_property(&self, line: String, value: Amount) -> (r: Result<
        Statement,
        ParseError,
    >)
        ensures
            match r {
                Ok(call) => property_call(line@, value@) == Some(call@),
                Err(e) => e == ParseError::CalledName && property_call(line@, value@) is None,
            },
    {
        let property_name = match self.extract_property_name(line.as_str()) {
            Some(name) => name,
            None => {
                return Err(ParseError::CalledName);
            },
        };
        let arguments = match self.parse_medusa_call_arguments(line.as_str()) {
            Ok(arguments) => arguments,
            Err(e) => {
                return Err(e);
            },
        };
        let sent = if value.is_zero() {
            None
        } else {
            Some(value)
        };
        Ok(Statement::new_contract_call(Some("this".to_string()), property_name, sent, arguments))
    }

    /// The context of a call line: block, time, sender and value, which stand
    /// in the last parentheses as `key=value`.
    pub fn parse_cheats_data(&self, line: String) -> (r: Option<CheatsData>)
        ensures
            optional_context(r) == call_context(line@),
    {
        let chars = to_chars(line.as_str());
        let pieces = match read_context_pieces(&chars) {
            Some(pieces) => pieces,
            None => {
                return None;
            },
        };
        let block = find_entry(&pieces, &to_chars("block"));
        let time = find_entry(&pieces, &to_chars("time"));
        let sender = find_entry(&pieces, &to_chars("sender"));
        let value = match find_entry(&pieces, &to_chars("value")) {
            Some(text) => Amount::parse(from_chars(&text).as_str()),
            None => None,
        };
        CheatsData::from_fields(block, time, sender, value)
    }

    /// The arguments of the call on a call line, kept as one text. This never
    /// fails.
    pub fn parse_medusa_call_arguments(&self, line: &str) -> (r: Result<Vec<String>, ParseError>)
        ensures
            r matches Ok(arguments) && texts(arguments@) == seq![call_arguments(line@)],
    {
        let mut arguments: Vec<String> = Vec::new();
        arguments.push(from_chars(&read_call_arguments(&to_chars(line))));
        assert(texts(arguments@) =~= seq![call_arguments(line@)]);
        Ok(arguments)
    }
}

} // verus!
