//! Writes a tree out as source text.

use crate::ast::{
    Ast, AstView, FunctionCall, FunctionCallView, FunctionDeclaration, FunctionDeclarationView,
    Statement, StatementView, views,
};
use crate::decimal::decimal;
use crate::error::EmitError;
use vstd::prelude::*;
use vstd::string::StringExecFns;

verus! {

/// The parts, with `separator` between each two of them.
pub open spec fn join(parts: Seq<Seq<char>>, separator: Seq<char>) -> Seq<char>
    decreases parts.len(),
{
    if parts.len() == 0 {
        Seq::empty()
    } else if parts.len() == 1 {
        parts[0]
    } else {
        join(parts.drop_last(), separator) + separator + parts.last()
    }
}

/// One line for a call: four spaces, the target and a dot if there is one,
/// the name, the value in braces if there is one, the arguments in
/// parentheses and a semicolon. A call with a target is followed by an empty
/// line.
pub open spec fn render_call(call: FunctionCallView) -> Seq<char> {
    "    "@ + (match call.target {
        Some(target) => target + "."@,
        None => Seq::empty(),
    }) + call.function_name + (match call.value {
        Some(value) => "{ value: "@ + decimal(value) + " }"@,
        None => Seq::empty(),
    }) + "("@ + join(call.arguments, ", "@) + ");\n"@ + (if call.target is Some {
        "\n"@
    } else {
        Seq::empty()
    })
}

/// The text of a statement.
pub open spec fn render_statement(statement: StatementView) -> Seq<char> {
    match statement {
        StatementView::ContractCall(call) => render_call(call),
    }
}

/// The text of a node: a statement's line, or a function's header, the text
/// of each child in order, and the closing brace.
pub open spec fn render(node: AstView) -> Seq<char>
    decreases node,
{
    match node {
        AstView::FunctionDeclaration(declaration) => "function "@ + declaration.name
            + "() public {\n"@ + render_all(declaration.children) + "}\n"@,
        AstView::Statement(statement) => render_statement(statement),
    }
}

/// The texts of the nodes, one after the other.
pub open spec fn render_all(nodes: Seq<AstView>) -> Seq<char>
    decreases nodes,
{
    if nodes.len() == 0 {
        Seq::empty()
    } else {
        render_all(nodes.drop_last()) + render(nodes.last())
    }
}

/// The text of a function declaration.
pub open spec fn render_declaration(declaration: FunctionDeclarationView) -> Seq<char> {
    render(AstView::FunctionDeclaration(declaration))
}

/// What emitting `node` does to the text collected so far: the text of the
/// node is added behind it.
pub open spec fn emitted(before: Seq<char>, node: AstView, after: Seq<char>) -> bool {
    after == before + render(node)
}

/// Collects the text of the trees emitted into it.
pub struct Emitter {
    output: String,
}

impl View for Emitter {
    type V = Seq<char>;

    closed spec fn view(&self) -> Seq<char> {
        self.output@
    }
}

impl Emitter {
    /// An emitter that has emitted nothing.
    pub fn new() -> (r: Self)
        ensures
            r@ == Seq::<char>::empty(),
    {
        Self { output: String::new() }
    }

    /// Appends the text of `ast`. This never fails.
    pub fn emit(&mut self, ast: &Ast) -> (r: Result<(), EmitError>)
        ensures
            r is Ok,
            emitted(old(self)@, ast@, final(self)@),
    {
        match ast {
            Ast::FunctionDeclaration(fn_declaration) => self.emit_function_declaration(
                fn_declaration,
            ),
            Ast::Statement(statement) => self.emit_statement(statement),
        }
        Ok(())
    }

    /// The text emitted so far.
    pub fn get_emitted(self) -> (r: String)
        ensures
            r@ == self@,
    {
        self.output
    }

    /// Appends the text of a function declaration.
    pub fn emit_function_declaration(&mut self, fn_declaration: &FunctionDeclaration)
        ensures
            final(self)@ == old(self)@ + render_declaration(fn_declaration@),
        decreases fn_declaration@,
    {
        self.output.append("function ");
        self.output.append(fn_declaration.name());
        self.output.append("() public {\n");
        let ghost head = self.output@;
        let children = fn_declaration.children();
        let mut i: usize = 0;
        while i < children.len()
            invariant
                i <= children.len(),
                views(children@) == fn_declaration@.children,
                self.output@ == head + render_all(fn_declaration@.children.take(i as int)),
            decreases children.len() - i,
        {
            let ghost nodes = fn_declaration@.children;
            let ghost so_far = self.output@;
            proof {
                assert(nodes.take(i + 1).drop_last() == nodes.take(i as int));
                assert(views(children@)[i as int] == children@[i as int]@);
                assert(nodes.take(i + 1).last() == children@[i as int]@);
            }
            match &children[i] {
                Ast::Statement(statement) => self.emit_statement(statement),
                Ast::FunctionDeclaration(inner) => {
                    proof {
                        assert(nodes[i as int] == AstView::FunctionDeclaration(inner@));
                        assert(decreases_to!(fn_declaration@ => nodes));
                        assert(decreases_to!(nodes => nodes[i as int]));
                        assert(decreases_to!(nodes[i as int] => nodes[i as int]->FunctionDeclaration_0));
                    }
                    self.emit_function_declaration(inner)
                },
            }
            assert(self.output@ == so_far + render(nodes[i as int]));
            assert(self.output@ == head + render_all(nodes.take(i + 1)));
            i += 1;
        }
        assert(fn_declaration@.children.take(i as int) == fn_declaration@.children);
        self.output.append("}\n");
    }

    /// Appends the text of a statement.
    pub fn emit_statement(&mut self, statement: &Statement)
        ensures
            final(self)@ == old(self)@ + render_statement(statement@),
    {
        match statement {
            Statement::ContractCall(contract_call) => self.emit_contract_call(contract_call),
        }
    }

    /// Appends the line of a call: `target.foo{ value: X }(a, b, c);`
    pub fn emit_contract_call(&mut self, contract_call: &FunctionCall)
        ensures
            final(self)@ == old(self)@ + render_call(contract_call@),
    {
        let mut line = String::new();
        line.append("    ");
        if let Some(to_call) = &contract_call.target {
            line.append(to_call.as_str());
            line.append(".");
        }
        line.append(contract_call.function_name.as_str());
        if let Some(value) = &contract_call.value {
            line.append("{ value: ");
            line.append(value.to_string().as_str());
            line.append(" }");
        }
        line.append("(");
        let ghost before = line@;
        let ghost parts = contract_call@.arguments;
        let mut i: usize = 0;
        while i < contract_call.arguments.len()
            invariant
                i <= contract_call.arguments.len(),
                parts == contract_call@.arguments,
                line@ == before + join(parts.take(i as int), ", "@),
            decreases contract_call.arguments.len() - i,
        {
            proof {
                assert(parts.take(i + 1).drop_last() == parts.take(i as int));
                assert(parts.take(i + 1).last() == contract_call.arguments@[i as int]@);
            }
            if i > 0 {
                line.append(", ");
            }
            line.append(contract_call.arguments[i].as_str());
            i += 1;
        }
        assert(parts.take(i as int) == parts);
        line.append(");\n");
        if contract_call.target.is_some() {
            line.append("\n");
        }
        self.output.append(line.as_str());
    }
}

} // verus!
