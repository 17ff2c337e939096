//! A printer of expressions in prefix notation, with parentheses round
//! every operator and its operands.

use vstd::prelude::*;
use vstd::string::*;
use crate::ast::{expr_view, expr_views, lemma_expr_views_index, lemma_expr_views_len, ExprView};
use crate::expr::Expr;
use crate::float_unit::FloatUnit;
use crate::text::{isize_text, signed_decimal};
use crate::token::Literal;

verus! {

/// The text of a literal that is no floating-point number.
pub open spec fn show_literal(value: Literal) -> Seq<char> {
    match value {
        Literal::Nil => "nil"@,
        Literal::Isize(i) => signed_decimal(i as int),
        Literal::Float(_) => Seq::empty(),
        Literal::String(s) => s@,
        Literal::Bool(b) => if b {
            "true"@
        } else {
            "false"@
        },
    }
}

/// How many floating-point literals occur in an expression.
pub open spec fn floats(e: ExprView) -> nat
    decreases e,
{
    match e {
        ExprView::Binary { left, operator, right } => floats(*left) + floats(*right),
        ExprView::Unary { operator, right } => floats(*right),
        ExprView::Grouping { expression } => floats(*expression),
        ExprView::Literal { value } => if value is Float {
            1
        } else {
            0
        },
        ExprView::Logical { left, operator, right } => floats(*left) + floats(*right),
        ExprView::Variable { name, id } => 0,
        ExprView::Assign { name, value, id } => floats(*value),
        ExprView::Call { callee, paren, arguments } => floats(*callee) + floats_first(
            arguments,
            arguments.len(),
        ),
        ExprView::Get { object, name } => floats(*object),
        ExprView::SetField { object, name, value } => floats(*object) + floats(*value),
        ExprView::This { keyword, id } => 0,
    }
}

/// How many floating-point literals occur in the first `count`
/// expressions of a list.
pub open spec fn floats_first(list: Seq<ExprView>, count: nat) -> nat
    decreases list, count,
{
    if count == 0 || count > list.len() {
        0
    } else {
        floats_first(list, (count - 1) as nat) + floats(list[count - 1])
    }
}

/// An operator and one operand in parentheses.
pub open spec fn wrap_one(name: Seq<char>, only: Seq<char>) -> Seq<char> {
    "("@ + name + " "@ + only + ")"@
}

/// An operator and two operands in parentheses.
pub open spec fn wrap_two(name: Seq<char>, first: Seq<char>, second: Seq<char>) -> Seq<char> {
    "("@ + name + " "@ + first + " "@ + second + ")"@
}

/// The text of an expression: a literal as it is written, a variable by
/// its name, and every other expression as its operator and its operands
/// in parentheses. The texts of the floating-point literals are those of
/// `texts`, in the order in which the literals occur.
pub open spec fn shown(e: ExprView, texts: Seq<Seq<char>>) -> Seq<char>
    decreases e,
{
    match e {
        ExprView::Binary { left, operator, right } => wrap_two(
            operator.lexeme@,
            shown(*left, texts.take(floats(*left) as int)),
            shown(*right, texts.skip(floats(*left) as int)),
        ),
        ExprView::Unary { operator, right } => wrap_one(operator.lexeme@, shown(*right, texts)),
        ExprView::Grouping { expression } => wrap_one("group"@, shown(*expression, texts)),
        ExprView::Literal { value } => if value is Float {
            if texts.len() > 0 {
                texts[0]
            } else {
                Seq::empty()
            }
        } else {
            show_literal(value)
        },
        ExprView::Logical { left, operator, right } => wrap_two(
            operator.lexeme@,
            shown(*left, texts.take(floats(*left) as int)),
            shown(*right, texts.skip(floats(*left) as int)),
        ),
        ExprView::Variable { name, id } => name.lexeme@,
        ExprView::Assign { name, value, id } => wrap_two("="@, name.lexeme@, shown(*value, texts)),
        ExprView::Call { callee, paren, arguments } => "(call "@ + shown(
            *callee,
            texts.take(floats(*callee) as int),
        ) + shown_first(arguments, arguments.len(), texts.skip(floats(*callee) as int)) + ")"@,
        ExprView::Get { object, name } => wrap_two("."@, shown(*object, texts), name.lexeme@),
        ExprView::SetField { object, name, value } => wrap_two(
            "="@,
            wrap_two("."@, shown(*object, texts.take(floats(*object) as int)), name.lexeme@),
            shown(*value, texts.skip(floats(*object) as int)),
        ),
        ExprView::This { keyword, id } => keyword.lexeme@,
    }
}

/// The texts of the first `count` expressions of a list, a blank before
/// each.
pub open spec fn shown_first(list: Seq<ExprView>, count: nat, texts: Seq<Seq<char>>) -> Seq<char>
    decreases list, count,
{
    if count == 0 || count > list.len() {
        Seq::empty()
    } else {
        shown_first(
            list,
            (count - 1) as nat,
            texts.take(floats_first(list, (count - 1) as nat) as int),
        ) + " "@ + shown(
            list[count - 1],
            texts.skip(floats_first(list, (count - 1) as nat) as int),
        )
    }
}

/// The text of an expression without floating-point literals.
pub open spec fn show(e: ExprView) -> Seq<char> {
    shown(e, Seq::empty())
}

/// A text is that of an expression, with some text for each of its
/// floating-point literals.
pub open spec fn printed_as(text: Seq<char>, e: ExprView) -> bool {
    exists|texts: Seq<Seq<char>>| texts.len() == floats(e) && text == #[trigger] shown(e, texts)
}

/// The texts that a printed text holds for the floating-point literals.
pub open spec fn texts_of(text: Seq<char>, e: ExprView) -> Seq<Seq<char>> {
    choose|texts: Seq<Seq<char>>| texts.len() == floats(e) && text == #[trigger] shown(e, texts)
}

/// Two lists of texts, one after the other, split where the first ends.
pub proof fn lemma_split(first: Seq<Seq<char>>, second: Seq<Seq<char>>)
    ensures
        (first + second).take(first.len() as int) == first,
        (first + second).skip(first.len() as int) == second,
{
    assert((first + second).take(first.len() as int) =~= first);
    assert((first + second).skip(first.len() as int) =~= second);
}

/// An operator and one operand in parentheses.
fn parenthesize_one(name: &str, only: &String) -> (text: String)
    ensures
        text@ == wrap_one(name@, only@),
{
    let mut text = String::from_str("(");
    text.append(name);
    text.append(" ");
    text.append(only.as_str());
    text.append(")");
    text
}

/// An operator and two operands in parentheses.
fn parenthesize(name: &str, first: &String, second: &String) -> (text: String)
    ensures
        text@ == wrap_two(name@, first@, second@),
{
    let mut text = String::from_str("(");
    text.append(name);
    text.append(" ");
    text.append(first.as_str());
    text.append(" ");
    text.append(second.as_str());
    text.append(")");
    text
}

/// The printer.
#[derive(Debug, Clone, Copy)]
pub struct AstPrinter {}

impl AstPrinter {
    /// The text of a literal. That of a floating-point number comes from
    /// the unit.
    fn visit_literal<F: FloatUnit>(&self, unit: &F, value: &Literal) -> (text: String)
        ensures
            printed_as(text@, ExprView::Literal { value: *value }),
    {
        let text = match value {
            Literal::Nil => String::from_str("nil"),
            Literal::Isize(i) => isize_text(*i),
            Literal::Float(bits) => unit.render(*bits),
            Literal::String(s) => s.clone(),
            Literal::Bool(b) => if *b {
                String::from_str("true")
            } else {
                String::from_str("false")
            },
        };
        proof {
            let e = ExprView::Literal { value: *value };
            if value is Float {
                assert(text@ == shown(e, seq![text@]));
            } else {
                assert(text@ == shown(e, Seq::empty()));
            }
        }
        text
    }

    /// The text of an expression in prefix notation: what [`shown`] says,
    /// with the texts that the unit gives for the floating-point literals
    /// in the order in which they occur. Of an expression without such
    /// literals it is [`show`].
    #[verifier::loop_isolation(false)]
    pub fn print<F: FloatUnit>(&self, unit: &F, expr: &Expr) -> (text: String)
        ensures
            printed_as(text@, expr_view(*expr)),
            floats(expr_view(*expr)) == 0 ==> text@ == show(expr_view(*expr)),
        decreases expr,
    {
        let ghost view = expr_view(*expr);
        let text = match expr {
            Expr::Binary { left, operator, right } => {
                let first = self.print(unit, left);
                let second = self.print(unit, right);
                proof {
                    let t1 = texts_of(first@, expr_view(**left));
                    let t2 = texts_of(second@, expr_view(**right));
                    lemma_split(t1, t2);
                    assert(wrap_two(operator.lexeme@, first@, second@) == shown(view, t1 + t2));
                }
                parenthesize(operator.lexeme.as_str(), &first, &second)
            },
            Expr::Unary { operator, right } => {
                let only = self.print(unit, right);
                proof {
                    let t = texts_of(only@, expr_view(**right));
                    assert(wrap_one(operator.lexeme@, only@) == shown(view, t));
                }
                parenthesize_one(operator.lexeme.as_str(), &only)
            },
            Expr::Grouping { expression } => {
                let only = self.print(unit, expression);
                proof {
                    let t = texts_of(only@, expr_view(**expression));
                    assert(wrap_one("group"@, only@) == shown(view, t));
                }
                parenthesize_one("group", &only)
            },
            Expr::Literal { value } => self.visit_literal(unit, value),
            Expr::Logical { left, operator, right } => {
                let first = self.print(unit, left);
                let second = self.print(unit, right);
                proof {
                    let t1 = texts_of(first@, expr_view(**left));
                    let t2 = texts_of(second@, expr_view(**right));
                    lemma_split(t1, t2);
                    assert(wrap_two(operator.lexeme@, first@, second@) == shown(view, t1 + t2));
                }
                parenthesize(operator.lexeme.as_str(), &first, &second)
            },
            Expr::Variable { name, id } => {
                assert(name.lexeme@ == shown(view, Seq::empty()));
                name.lexeme.clone()
            },
            Expr::Assign { name, value, id } => {
                let second = self.print(unit, value);
                proof {
                    let t = texts_of(second@, expr_view(**value));
                    assert(wrap_two("="@, name.lexeme@, second@) == shown(view, t));
                }
                parenthesize("=", &name.lexeme, &second)
            },
            Expr::Call { callee, paren, arguments } => {
                let ghost views = expr_views(*arguments, arguments.len() as nat);
                let mut text = String::from_str("(call ");
                let target = self.print(unit, callee);
                text.append(target.as_str());
                let ghost head = text@;
                let ghost t0 = texts_of(target@, expr_view(**callee));
                let ghost mut rest: Seq<Seq<char>> = Seq::empty();
                let mut i: usize = 0;
                proof {
                    lemma_expr_views_len(*arguments, arguments.len() as nat);
                }
                while i < arguments.len()
                    invariant
                        i <= arguments.len(),
                        views.len() == arguments.len(),
                        rest.len() == floats_first(views, i as nat),
                        text@ == head + shown_first(views, i as nat, rest),
                    decreases arguments.len() - i,
                {
                    proof {
                        lemma_expr_views_index(*arguments, arguments.len() as nat, i as int);
                    }
                    let next = self.print(unit, &arguments[i]);
                    text.append(" ");
                    text.append(next.as_str());
                    proof {
                        let tn = texts_of(next@, views[i as int]);
                        lemma_split(rest, tn);
                        assert(text@ =~= head + shown_first(views, (i + 1) as nat, rest + tn));
                        rest = rest + tn;
                    }
                    i = i + 1;
                }
                text.append(")");
                proof {
                    lemma_split(t0, rest);
                    assert(text@ =~= shown(view, t0 + rest));
                }
                text
            },
            Expr::Get { object, name } => {
                let first = self.print(unit, object);
                proof {
                    let t = texts_of(first@, expr_view(**object));
                    assert(wrap_two("."@, first@, name.lexeme@) == shown(view, t));
                }
                parenthesize(".", &first, &name.lexeme)
            },
            Expr::SetField { object, name, value } => {
                let target = self.print(unit, object);
                let first = parenthesize(".", &target, &name.lexeme);
                let second = self.print(unit, value);
                proof {
                    let t1 = texts_of(target@, expr_view(**object));
                    let t2 = texts_of(second@, expr_view(**value));
                    lemma_split(t1, t2);
                    assert(wrap_two("="@, first@, second@) == shown(view, t1 + t2));
                }
                parenthesize("=", &first, &second)
            },
            Expr::This { keyword, id } => {
                assert(keyword.lexeme@ == shown(view, Seq::empty()));
                keyword.lexeme.clone()
            },
        };
        proof {
            if floats(view) == 0 {
                let t = texts_of(text@, view);
                assert(t =~= Seq::<Seq<char>>::empty());
            }
        }
        text
    }
}

} // verus!
