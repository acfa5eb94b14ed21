//! The tree that a reproducer is built as: function declarations, and the
//! calls that stand in their bodies.

use crate::amount::Amount;
use crate::decimal::{i32_text, signed_decimal};
use crate::text::{append_str, from_chars};
use vstd::prelude::*;

verus! {

/// A node of the tree: a function declaration, which is a root, or a statement
/// in a body.
#[derive(Debug, PartialEq)]
pub enum Ast {
    FunctionDeclaration(FunctionDeclaration),
    Statement(Statement),
}

/// A function with its body. Its children are emitted in the order they were
/// added.
#[derive(Debug, PartialEq)]
pub struct FunctionDeclaration {
    name: String,
    visibility: Visibility,
    arguments: Vec<Argument>,
    return_type: Type,
    children: Vec<Ast>,
}

/// Who may call a function; so far every function is public.
#[derive(Debug, PartialEq)]
pub enum Visibility {
    Public,
}

/// An argument of a function declaration. No function takes one so far.
#[derive(Debug, PartialEq)]
pub struct Argument {
    name: String,
    type_: Type,
}

/// The type a function returns; so far functions return nothing.
#[derive(Debug, PartialEq)]
pub enum Type {
    Nothing,
}

/// A statement in a body; so far every statement is a call.
#[derive(Debug, PartialEq)]
pub enum Statement {
    ContractCall(FunctionCall),
}

/// A call. Without a target it is a call inside the contract; with one it goes
/// through the collaborator of that name. The arguments are text that is
/// written out as it stands.
#[derive(Debug, PartialEq)]
pub struct FunctionCall {
    pub target: Option<String>,
    pub function_name: String,
    pub value: Option<Amount>,
    pub arguments: Vec<String>,
}

/// What a call holds, as plain values.
pub struct FunctionCallView {
    pub target: Option<Seq<char>>,
    pub function_name: Seq<char>,
    pub value: Option<nat>,
    pub arguments: Seq<Seq<char>>,
}

/// What a statement holds.
pub enum StatementView {
    ContractCall(FunctionCallView),
}

/// What a function declaration holds: its name and its children, first to
/// last.
pub struct FunctionDeclarationView {
    pub name: Seq<char>,
    pub children: Seq<AstView>,
}

/// What a node holds.
pub enum AstView {
    FunctionDeclaration(FunctionDeclarationView),
    Statement(StatementView),
}

/// The texts of a list of strings.
pub open spec fn texts(strings: Seq<String>) -> Seq<Seq<char>> {
    Seq::new(strings.len(), |i: int| strings[i]@)
}

/// The text of an optional string.
pub open spec fn optional_text(string: Option<String>) -> Option<Seq<char>> {
    match string {
        Some(s) => Some(s@),
        None => None,
    }
}

/// The text of an optional string slice.
pub open spec fn optional_text_of(string: Option<&str>) -> Option<Seq<char>> {
    match string {
        Some(s) => Some(s@),
        None => None,
    }
}

impl View for FunctionCall {
    type V = FunctionCallView;

    open spec fn view(&self) -> FunctionCallView {
        FunctionCallView {
            target: optional_text(self.target),
            function_name: self.function_name@,
            value: crate::amount::value_of(self.value),
            arguments: texts(self.arguments@),
        }
    }
}

impl View for Statement {
    type V = StatementView;

    open spec fn view(&self) -> StatementView {
        match self {
            Statement::ContractCall(call) => StatementView::ContractCall(call@),
        }
    }
}

/// The views of a list of nodes.
pub open spec fn views(nodes: Seq<Ast>) -> Seq<AstView> {
    Seq::new(nodes.len(), |i: int| nodes[i]@)
}

impl View for Ast {
    type V = AstView;

    open spec fn view(&self) -> AstView
        decreases self,
    {
        match self {
            Ast::FunctionDeclaration(declaration) => AstView::FunctionDeclaration(
                declaration.view(),
            ),
            Ast::Statement(statement) => AstView::Statement(statement@),
        }
    }
}

impl View for FunctionDeclaration {
    type V = FunctionDeclarationView;

    closed spec fn view(&self) -> FunctionDeclarationView
        decreases self,
    {
        FunctionDeclarationView {
            name: self.name@,
            children: Seq::new(
                self.children@.len(),
                |i: int|
                    if 0 <= i < self.children@.len() {
                        self.children@[i].view()
                    } else {
                        arbitrary()
                    },
            ),
        }
    }
}

impl FunctionDeclaration {
    /// A public function of this name that takes nothing, returns nothing and
    /// has an empty body.
    pub fn new(name: &str) -> (r: Self)
        ensures
            r@.name == name@,
            r@.children == Seq::<AstView>::empty(),
    {
        Self {
            name: name.to_string(),
            visibility: Visibility::Public,
            arguments: Vec::new(),
            return_type: Type::Nothing,
            children: Vec::new(),
        }
    }

    /// Adds `child` at the end of the body.
    pub fn add_child(&mut self, child: Ast)
        ensures
            final(self)@.name == old(self)@.name,
            final(self)@.children == old(self)@.children.push(child@),
    {
        self.children.push(child);
    }

    /// The name of the function.
    pub fn name(&self) -> (r: &str)
        ensures
            r@ == self@.name,
    {
        self.name.as_str()
    }

    /// The body of the function, first statement first.
    pub fn children(&self) -> (r: &[Ast])
        ensures
            views(r@) == self@.children,
    {
        self.children.as_slice()
    }
}


/// A call of a cheat code: no target, no value, one argument.
pub open spec fn cheat_call(function_name: Seq<char>, argument: Seq<char>) -> StatementView {
    StatementView::ContractCall(
        FunctionCallView {
            target: None,
            function_name,
            value: None,
            arguments: seq![argument],
        },
    )
}

/// The call that sets the block number.
pub open spec fn roll_call(block: int) -> StatementView {
    cheat_call("vm.roll"@, signed_decimal(block))
}

/// The call that sets the block's timestamp.
pub open spec fn warp_call(timestamp: int) -> StatementView {
    cheat_call("vm.warp"@, signed_decimal(timestamp))
}

/// The call that sets the caller of the next call.
pub open spec fn prank_call(address: Seq<char>) -> StatementView {
    cheat_call("vm.prank"@, "address("@ + address + ")"@)
}

impl Statement {
    /// `vm.prank(address(<pranked_address>))`
    pub fn new_prank(pranked_address: &str) -> (r: Self)
        ensures
            r@ == prank_call(pranked_address@),
    {
        let mut argument: Vec<char> = Vec::new();
        append_str(&mut argument, "address(");
        append_str(&mut argument, pranked_address);
        append_str(&mut argument, ")");
        let mut arguments: Vec<String> = Vec::new();
        arguments.push(from_chars(&argument));
        let r = Self::ContractCall(
            FunctionCall {
                target: None,
                function_name: "vm.prank".to_string(),
                value: None,
                arguments,
            },
        );
        assert(r@->ContractCall_0.arguments =~= seq!["address("@ + pranked_address@ + ")"@]);
        r
    }

    /// `vm.roll(<block_to_roll>)`
    pub fn new_roll(block_to_roll: i32) -> (r: Self)
        ensures
            r@ == roll_call(block_to_roll as int),
    {
        let mut arguments: Vec<String> = Vec::new();
        arguments.push(from_chars(&i32_text(block_to_roll)));
        let r = Self::ContractCall(
            FunctionCall {
                target: None,
                function_name: "vm.roll".to_string(),
                value: None,
                arguments,
            },
        );
        assert(r@->ContractCall_0.arguments =~= seq![signed_decimal(block_to_roll as int)]);
        r
    }

    /// `vm.warp(<timestamp_to_warp_to>)`
    pub fn new_warp(timestamp_to_warp_to: i32) -> (r: Self)
        ensures
            r@ == warp_call(timestamp_to_warp_to as int),
    {
        let mut arguments: Vec<String> = Vec::new();
        arguments.push(from_chars(&i32_text(timestamp_to_warp_to)));
        let r = Self::ContractCall(
            FunctionCall {
                target: None,
                function_name: "vm.warp".to_string(),
                value: None,
                arguments,
            },
        );
        assert(r@->ContractCall_0.arguments =~= seq![signed_decimal(timestamp_to_warp_to as int)]);
        r
    }

    /// The call with these four parts.
    pub fn new_contract_call(
        target: Option<String>,
        function_name: String,
        value: Option<Amount>,
        arguments: Vec<String>,
    ) -> (r: Self)
        ensures
            r@ == StatementView::ContractCall(
                FunctionCallView {
                    target: optional_text(target),
                    function_name: function_name@,
                    value: crate::amount::value_of(value),
                    arguments: texts(arguments@),
                },
            ),
    {
        Self::ContractCall(FunctionCall { target, function_name, value, arguments })
    }
}

} // verus!
