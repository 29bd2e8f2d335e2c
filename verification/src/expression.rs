//! The immutable expression-tree model and its visitor traversal.
//!
//! The tree is a closed sum over four node shapes — binary, grouping,
//! literal, unary — each owning its children, so a tree is finite and
//! acyclic by construction. Traversals are written as visitors: a node's
//! `accept` dispatches on its shape to the matching handler of a
//! `Visitor`, whose associated type picks the result. The one traversal
//! here is `AstPrinter`, a fully parenthesizing renderer whose output is
//! pinned to the `print_expr` model.

use vstd::prelude::*;
use vstd::slice::{slice_subrange, slice_to_vec};
use crate::scanner::token::{Literal as LiteralValue, Token};

verus! {

/// An expression: one of the four node shapes.
pub enum Expr {
    Binary(Binary),
    Grouping(Grouping),
    Literal(Literal),
    Unary(Unary),
}

/// A two-operand application: left operand, operator token, right operand.
pub struct Binary {
    pub left: Box<Expr>,
    pub operator: Token,
    pub right: Box<Expr>,
}

/// A parenthesized sub-expression.
pub struct Grouping {
    pub expression: Box<Expr>,
}

/// A literal value at a leaf of the tree.
pub struct Literal {
    pub value: LiteralValue,
}

/// A one-operand application: operator token, then its operand.
pub struct Unary {
    pub operator: Token,
    pub right: Box<Expr>,
}

impl Binary {
    pub fn new(left: Box<Expr>, operator: Token, right: Box<Expr>) -> (r: Binary)
        ensures
            r.left == left,
            r.operator == operator,
            r.right == right,
    {
        Binary { left, right, operator }
    }
}

impl Grouping {
    pub fn new(expression: Box<Expr>) -> (r: Grouping)
        ensures
            r.expression == expression,
    {
        Grouping { expression }
    }
}

impl Literal {
    pub fn new(value: LiteralValue) -> (r: Literal)
        ensures
            r.value == value,
    {
        Literal { value }
    }
}

impl Unary {
    pub fn new(operator: Token, right: Box<Expr>) -> (r: Unary)
        ensures
            r.operator == operator,
            r.right == right,
    {
        Unary { operator, right }
    }
}

/// The height of a tree: the measure that grounds the printer's mutual
/// recursion.
pub open spec fn height(e: Expr) -> nat
    decreases e,
{
    match e {
        Expr::Binary(b) => 1 + vstd::math::max(height(*b.left) as int, height(*b.right) as int) as nat,
        Expr::Grouping(g) => 1 + height(*g.expression),
        Expr::Literal(_) => 0,
        Expr::Unary(u) => 1 + height(*u.right),
    }
}

/// The text of a literal leaf: fixed words for the three constants, the
/// canonical decimal text of a number, the raw (unquoted) text of a string.
pub open spec fn literal_text(v: LiteralValue) -> Seq<char> {
    match v {
        LiteralValue::Nil => seq!['n', 'i', 'l'],
        LiteralValue::True => seq!['t', 'r', 'u', 'e'],
        LiteralValue::False => seq!['f', 'a', 'l', 's', 'e'],
        LiteralValue::Number(d) => d@,
        LiteralValue::Str(s) => s@,
    }
}

/// The fully parenthesized rendering of a tree: what `AstPrinter`
/// produces, character for character.
pub open spec fn print_expr(e: Expr) -> Seq<char>
    decreases e,
{
    match e {
        Expr::Binary(b) => seq!['('] + print_expr(*b.left) + seq![' '] + b.operator.lexeme@
            + seq![' '] + print_expr(*b.right) + seq![')'],
        Expr::Grouping(g) => seq!['(', 'g', 'r', 'o', 'u', 'p', ' '] + print_expr(*g.expression)
            + seq![')'],
        Expr::Literal(l) => literal_text(l.value),
        Expr::Unary(u) => seq!['('] + u.operator.lexeme@ + seq![' '] + print_expr(*u.right)
            + seq![')'],
    }
}

/// A traversal over expression trees. The implementor picks the result
/// type and says, through `post`, what each handler's result means; every
/// handler then answers for the node it was dispatched.
pub trait Visitor {
    type Output;

    /// What this visitor promises of its result for a given node.
    spec fn post(&self, e: Expr, r: Self::Output) -> bool;

    fn visit_binary_expression(&self, expression: &Binary) -> (r: Self::Output)
        ensures
            self.post(Expr::Binary(*expression), r),
    ;

    fn visit_grouping_expression(&self, expression: &Grouping) -> (r: Self::Output)
        ensures
            self.post(Expr::Grouping(*expression), r),
    ;

    fn visit_literal_expression(&self, expression: &Literal) -> (r: Self::Output)
        ensures
            self.post(Expr::Literal(*expression), r),
    ;

    fn visit_unary_expression(&self, expression: &Unary) -> (r: Self::Output)
        ensures
            self.post(Expr::Unary(*expression), r),
    ;
}

/// Double dispatch: a node hands itself to the handler matching its
/// shape, so that new traversals can be added without touching the node
/// definitions.
pub trait Expression {
    /// The node, seen as a tree.
    spec fn as_expr(&self) -> Expr;

    fn accept<V: Visitor>(&self, visitor: &V) -> (r: V::Output)
        ensures
            visitor.post(self.as_expr(), r),
    ;
}

impl Expression for Binary {
    open spec fn as_expr(&self) -> Expr {
        Expr::Binary(*self)
    }

    fn accept<V: Visitor>(&self, visitor: &V) -> (r: V::Output)
        ensures
            visitor.post(self.as_expr(), r),
    {
        visitor.visit_binary_expression(self)
    }
}

impl Expression for Grouping {
    open spec fn as_expr(&self) -> Expr {
        Expr::Grouping(*self)
    }

    fn accept<V: Visitor>(&self, visitor: &V) -> (r: V::Output)
        ensures
            visitor.post(self.as_expr(), r),
    {
        visitor.visit_grouping_expression(self)
    }
}

impl Expression for Literal {
    open spec fn as_expr(&self) -> Expr {
        Expr::Literal(*self)
    }

    fn accept<V: Visitor>(&self, visitor: &V) -> (r: V::Output)
        ensures
            visitor.post(self.as_expr(), r),
    {
        visitor.visit_literal_expression(self)
    }
}

impl Expression for Unary {
    open spec fn as_expr(&self) -> Expr {
        Expr::Unary(*self)
    }

    fn accept<V: Visitor>(&self, visitor: &V) -> (r: V::Output)
        ensures
            visitor.post(self.as_expr(), r),
    {
        visitor.visit_unary_expression(self)
    }
}

impl Expression for Expr {
    open spec fn as_expr(&self) -> Expr {
        *self
    }

    fn accept<V: Visitor>(&self, visitor: &V) -> (r: V::Output)
        ensures
            visitor.post(self.as_expr(), r),
    {
        match self {
            Expr::Binary(b) => visitor.visit_binary_expression(b),
            Expr::Grouping(g) => visitor.visit_grouping_expression(g),
            Expr::Literal(l) => visitor.visit_literal_expression(l),
            Expr::Unary(u) => visitor.visit_unary_expression(u),
        }
    }
}

/// The fully parenthesizing renderer: the concrete visitor whose result
/// for every node is the `print_expr` text of that node.
pub struct AstPrinter;

/// The text of a literal leaf.
fn literal_chars(v: &LiteralValue) -> (r: Vec<char>)
    ensures
        r@ == literal_text(*v),
{
    match v {
        LiteralValue::Nil => vec!['n', 'i', 'l'],
        LiteralValue::True => vec!['t', 'r', 'u', 'e'],
        LiteralValue::False => vec!['f', 'a', 'l', 's', 'e'],
        LiteralValue::Number(d) => slice_to_vec(d.as_slice()),
        LiteralValue::Str(s) => slice_to_vec(s.as_slice()),
    }
}

/// Renders `(name first)`: the shape shared by unary operators and
/// groupings.
fn parenthesize_single(name: &Vec<char>, first: &Expr) -> (r: Vec<char>)
    ensures
        r@ == seq!['('] + name@ + seq![' '] + print_expr(*first) + seq![')'],
    decreases height(*first) as int, 1int,
{
    let printer = AstPrinter {};
    let mut out: Vec<char> = Vec::new();
    out.push('(');
    let mut part = slice_to_vec(name.as_slice());
    out.append(&mut part);
    out.push(' ');
    let mut inner = printer.print(first);
    out.append(&mut inner);
    out.push(')');
    proof {
        assert(out@ =~= seq!['('] + name@ + seq![' '] + print_expr(*first) + seq![')']);
    }
    out
}

/// Renders `(first name second)`: the shape of binary operators.
fn parenthesize_double(name: &Vec<char>, first: &Expr, second: &Expr) -> (r: Vec<char>)
    ensures
        r@ == seq!['('] + print_expr(*first) + seq![' '] + name@ + seq![' ']
            + print_expr(*second) + seq![')'],
    decreases vstd::math::max(height(*first) as int, height(*second) as int), 1int,
{
    let printer = AstPrinter {};
    let mut out: Vec<char> = Vec::new();
    out.push('(');
    let mut first_part = printer.print(first);
    out.append(&mut first_part);
    out.push(' ');
    let mut name_part = slice_to_vec(name.as_slice());
    out.append(&mut name_part);
    out.push(' ');
    let mut second_part = printer.print(second);
    out.append(&mut second_part);
    out.push(')');
    proof {
        assert(out@ =~= seq!['('] + print_expr(*first) + seq![' '] + name@ + seq![' ']
            + print_expr(*second) + seq![')']);
    }
    out
}

impl AstPrinter {
    /// Renders a whole tree. The recursion is grounded by the tree's
    /// height, which is finite by construction.
    pub fn print(&self, expression: &Expr) -> (r: Vec<char>)
        ensures
            r@ == print_expr(*expression),
        decreases height(*expression) as int, 0int,
    {
        match expression {
            Expr::Binary(b) => {
                let r = parenthesize_double(&b.operator.lexeme, &b.left, &b.right);
                proof {
                    assert(r@ =~= print_expr(*expression));
                }
                r
            },
            Expr::Grouping(g) => {
                let name: Vec<char> = vec!['g', 'r', 'o', 'u', 'p'];
                let r = parenthesize_single(&name, &g.expression);
                proof {
                    assert(r@ =~= print_expr(*expression));
                }
                r
            },
            Expr::Literal(l) => literal_chars(&l.value),
            Expr::Unary(u) => {
                let r = parenthesize_single(&u.operator.lexeme, &u.right);
                proof {
                    assert(r@ =~= print_expr(*expression));
                }
                r
            },
        }
    }
}

impl Visitor for AstPrinter {
    type Output = Vec<char>;

    /// The printer's promise: the result is the node's `print_expr` text.
    open spec fn post(&self, e: Expr, r: Vec<char>) -> bool {
        r@ == print_expr(e)
    }

    fn visit_binary_expression(&self, expression: &Binary) -> (r: Vec<char>)
        ensures
            self.post(Expr::Binary(*expression), r),
    {
        let r = parenthesize_double(&expression.operator.lexeme, &expression.left, &expression.right);
        proof {
            assert(r@ =~= print_expr(Expr::Binary(*expression)));
        }
        r
    }

    fn visit_grouping_expression(&self, expression: &Grouping) -> (r: Vec<char>)
        ensures
            self.post(Expr::Grouping(*expression), r),
    {
        let name: Vec<char> = vec!['g', 'r', 'o', 'u', 'p'];
        let r = parenthesize_single(&name, &expression.expression);
        proof {
            assert(r@ =~= print_expr(Expr::Grouping(*expression)));
        }
        r
    }

    fn visit_literal_expression(&self, expression: &Literal) -> (r: Vec<char>)
        ensures
            self.post(Expr::Literal(*expression), r),
    {
        literal_chars(&expression.value)
    }

    fn visit_unary_expression(&self, expression: &Unary) -> (r: Vec<char>)
        ensures
            self.post(Expr::Unary(*expression), r),
    {
        let r = parenthesize_single(&expression.operator.lexeme, &expression.right);
        proof {
            assert(r@ =~= print_expr(Expr::Unary(*expression)));
        }
        r
    }
}

/// Law: the printer is deterministic — any two renderings of the same
/// tree, each meeting the printer's contract, are the same text.
pub proof fn lemma_print_deterministic(e: Expr, r1: Seq<char>, r2: Seq<char>)
    requires
        r1 == print_expr(e),
        r2 == print_expr(e),
    ensures
        r1 == r2,
{
}

} // verus!
