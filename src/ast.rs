//! The expression tree and the closed set of built-in functions.
use vstd::prelude::*;

use crate::text::same_text;

verus! {

/// A built-in unary function.
#[derive(Clone, Copy, Debug, PartialEq, Eq)]
pub enum FunctionID {
    Sqrt,
    Ln,
    Lb,
    Ld,
    Sin,
    Cos,
    Tan,
    Sinh,
    Cosh,
}

/// A parsed expression. Each node owns its children.
///
/// A constant is held as the bit pattern of its IEEE-754 binary64 value
/// (what `f64::to_bits` gives), so that a tree compares exactly, bit for bit.
#[derive(Debug, PartialEq, Eq)]
pub enum Expr {
    Add(Box<Expr>, Box<Expr>),
    Sub(Box<Expr>, Box<Expr>),
    Mul(Box<Expr>, Box<Expr>),
    Div(Box<Expr>, Box<Expr>),
    Function(FunctionID, Box<Expr>),
    Exponent(Box<Expr>, Box<Expr>),
    Neg(Box<Expr>),
    Abs(Box<Expr>),
    Var(String),
    Const(u64),
}

/// The function that a name denotes: `√` and `sqrt` both name the square
/// root; every other name stands for one function.
pub open spec fn function_of_name(name: Seq<char>) -> Option<FunctionID> {
    if name == seq!['√'] || name == seq!['s', 'q', 'r', 't'] {
        Some(FunctionID::Sqrt)
    } else if name == seq!['l', 'n'] {
        Some(FunctionID::Ln)
    } else if name == seq!['l', 'b'] {
        Some(FunctionID::Lb)
    } else if name == seq!['l', 'd'] {
        Some(FunctionID::Ld)
    } else if name == seq!['s', 'i', 'n'] {
        Some(FunctionID::Sin)
    } else if name == seq!['c', 'o', 's'] {
        Some(FunctionID::Cos)
    } else if name == seq!['t', 'a', 'n'] {
        Some(FunctionID::Tan)
    } else if name == seq!['s', 'i', 'n', 'h'] {
        Some(FunctionID::Sinh)
    } else if name == seq!['c', 'o', 's', 'h'] {
        Some(FunctionID::Cosh)
    } else {
        None
    }
}

impl FunctionID {
    /// Resolves a function name; any text that names no built-in function
    /// gives `None`.
    pub fn from_str(s: &str) -> (r: Option<FunctionID>)
        ensures
            r == function_of_name(s@),
    {
        proof {
            reveal_strlit("√");
            reveal_strlit("sqrt");
            reveal_strlit("ln");
            reveal_strlit("lb");
            reveal_strlit("ld");
            reveal_strlit("sin");
            reveal_strlit("cos");
            reveal_strlit("tan");
            reveal_strlit("sinh");
            reveal_strlit("cosh");
            assert("√"@ =~= seq!['√']);
            assert("sqrt"@ =~= seq!['s', 'q', 'r', 't']);
            assert("ln"@ =~= seq!['l', 'n']);
            assert("lb"@ =~= seq!['l', 'b']);
            assert("ld"@ =~= seq!['l', 'd']);
            assert("sin"@ =~= seq!['s', 'i', 'n']);
            assert("cos"@ =~= seq!['c', 'o', 's']);
            assert("tan"@ =~= seq!['t', 'a', 'n']);
            assert("sinh"@ =~= seq!['s', 'i', 'n', 'h']);
            assert("cosh"@ =~= seq!['c', 'o', 's', 'h']);
        }
        if same_text(s, "√") || same_text(s, "sqrt") {
            Some(FunctionID::Sqrt)
        } else if same_text(s, "ln") {
            Some(FunctionID::Ln)
        } else if same_text(s, "lb") {
            Some(FunctionID::Lb)
        } else if same_text(s, "ld") {
            Some(FunctionID::Ld)
        } else if same_text(s, "sin") {
            Some(FunctionID::Sin)
        } else if same_text(s, "cos") {
            Some(FunctionID::Cos)
        } else if same_text(s, "tan") {
            Some(FunctionID::Tan)
        } else if same_text(s, "sinh") {
            Some(FunctionID::Sinh)
        } else if same_text(s, "cosh") {
            Some(FunctionID::Cosh)
        } else {
            None
        }
    }
}

} // verus!
