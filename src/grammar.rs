//! The expression grammar, tightest binding first:
//!
//! 1. a literal: `( expr )`, a numeral, or `π`;
//! 2. a literal with at most one leading `-`;
//! 3. `a ^ b ^ ...` over level 2;
//! 4. function names written one after another, then level 3;
//! 5. `a / b / ...`, 6. `a * b * ...`, 7. `a - b - ...`, 8. `a + b + ...`.
//!
//! Every infix level parses one operand at the next tighter level and then
//! folds each `<operator><operand>` pair onto the left. Each level reads a
//! prefix of its input and leaves the rest; no whitespace is skipped.
//!
//! The grammar is written here as spec functions over a character sequence
//! and a position; the parsing functions are proved to compute it exactly.
use vstd::prelude::*;

use crate::ast::{function_of_name, Expr, FunctionID};
use crate::numeral::{double_prefix, scan_double};
use crate::text::{starts_at, tag_at};

verus! {

/// The binary64 bit pattern of 3.141592653589793, the value of `π`.
pub const PI_BITS: u64 = 0x400921FB54442D18;

/// An input that the grammar does not accept at the start. `position` is
/// the character position of the literal that could not be read.
#[derive(Clone, Copy, Debug, PartialEq, Eq)]
pub struct ParseError {
    pub position: usize,
}

/// An infix operator. Each one is a precedence level of its own, folded to
/// the left.
#[derive(Clone, Copy, Debug, PartialEq, Eq)]
pub enum Infix {
    Add,
    Sub,
    Mul,
    Div,
    Pow,
}

/// The character that writes the operator.
pub open spec fn infix_symbol(op: Infix) -> char {
    match op {
        Infix::Add => '+',
        Infix::Sub => '-',
        Infix::Mul => '*',
        Infix::Div => '/',
        Infix::Pow => '^',
    }
}

/// The operator's level in the grammar: higher binds more loosely.
pub open spec fn infix_rank(op: Infix) -> int {
    match op {
        Infix::Add => 8,
        Infix::Sub => 7,
        Infix::Mul => 6,
        Infix::Div => 5,
        Infix::Pow => 3,
    }
}

/// The node that joins two operands.
pub open spec fn infix_node(op: Infix, l: Expr, r: Expr) -> Expr {
    match op {
        Infix::Add => Expr::Add(Box::new(l), Box::new(r)),
        Infix::Sub => Expr::Sub(Box::new(l), Box::new(r)),
        Infix::Mul => Expr::Mul(Box::new(l), Box::new(r)),
        Infix::Div => Expr::Div(Box::new(l), Box::new(r)),
        Infix::Pow => Expr::Exponent(Box::new(l), Box::new(r)),
    }
}

/// The function name that starts at `i`, if any. Names are tried in this
/// order, which puts `sinh` before `sin` and `cosh` before `cos`, so the
/// longest name that fits is taken.
pub open spec fn function_token(s: Seq<char>, i: int) -> Option<Seq<char>> {
    if starts_at(s, i, seq!['√']) {
        Some(seq!['√'])
    } else if starts_at(s, i, seq!['s', 'q', 'r', 't']) {
        Some(seq!['s', 'q', 'r', 't'])
    } else if starts_at(s, i, seq!['l', 'n']) {
        Some(seq!['l', 'n'])
    } else if starts_at(s, i, seq!['l', 'b']) {
        Some(seq!['l', 'b'])
    } else if starts_at(s, i, seq!['l', 'd']) {
        Some(seq!['l', 'd'])
    } else if starts_at(s, i, seq!['s', 'i', 'n', 'h']) {
        Some(seq!['s', 'i', 'n', 'h'])
    } else if starts_at(s, i, seq!['s', 'i', 'n']) {
        Some(seq!['s', 'i', 'n'])
    } else if starts_at(s, i, seq!['c', 'o', 's', 'h']) {
        Some(seq!['c', 'o', 's', 'h'])
    } else if starts_at(s, i, seq!['c', 'o', 's']) {
        Some(seq!['c', 'o', 's'])
    } else if starts_at(s, i, seq!['t', 'a', 'n']) {
        Some(seq!['t', 'a', 'n'])
    } else {
        None
    }
}

/// Level 1, read at position `i` of `s`: the end position and the tree.
/// A parenthesised group is tried first, then a numeral, then `π`.
pub open spec fn literal(s: Seq<char>, i: int) -> Option<(int, Expr)>
    decreases s.len() - i, 1int, 0int,
{
    let group = if 0 <= i < s.len() && s[i] == '(' {
        match level(Infix::Add, s, i + 1) {
            Some((j, e)) => if 0 <= j < s.len() && s[j] == ')' {
                Some((j + 1, e))
            } else {
                None
            },
            None => None,
        }
    } else {
        None
    };
    if group is Some {
        group
    } else {
        match double_prefix(s.subrange(i, s.len() as int)) {
            Some((n, bits)) => Some((i + n, Expr::Const(bits))),
            None => if 0 <= i < s.len() && s[i] == 'π' {
                Some((i + 1, Expr::Const(PI_BITS)))
            } else {
                None
            },
        }
    }
}

/// Level 2: a literal, or `-` and a literal under `Neg`.
pub open spec fn signed_literal(s: Seq<char>, i: int) -> Option<(int, Expr)>
    decreases s.len() - i, 2int, 0int,
{
    if 0 <= i < s.len() && s[i] == '-' {
        match literal(s, i + 1) {
            Some((j, e)) => Some((j, Expr::Neg(Box::new(e)))),
            None => None,
        }
    } else {
        literal(s, i)
    }
}

/// Level 4: function names, then an operand of level 3. The name written
/// first becomes the outermost call.
pub open spec fn function_level(s: Seq<char>, i: int) -> Option<(int, Expr)>
    decreases s.len() - i, 4int, 0int,
{
    match function_token(s, i) {
        Some(t) => if 0 < t.len() && i + t.len() <= s.len() {
            match function_of_name(t) {
                Some(f) => match function_level(s, i + t.len()) {
                    Some((j, e)) => Some((j, Expr::Function(f, Box::new(e)))),
                    None => None,
                },
                None => None,
            }
        } else {
            None
        },
        None => level(Infix::Pow, s, i),
    }
}

/// The operand of an infix level: the next tighter level.
pub open spec fn operand(op: Infix, s: Seq<char>, i: int) -> Option<(int, Expr)>
    decreases s.len() - i, infix_rank(op), 0int,
{
    match op {
        Infix::Add => level(Infix::Sub, s, i),
        Infix::Sub => level(Infix::Mul, s, i),
        Infix::Mul => level(Infix::Div, s, i),
        Infix::Div => function_level(s, i),
        Infix::Pow => signed_literal(s, i),
    }
}

/// An infix level: one operand, then the `<op><operand>` pairs that follow.
pub open spec fn level(op: Infix, s: Seq<char>, i: int) -> Option<(int, Expr)>
    decreases s.len() - i, infix_rank(op), 1int,
{
    match operand(op, s, i) {
        Some((j, e)) => if i < j <= s.len() {
            Some(fold_rest(op, s, j, e))
        } else {
            None
        },
        None => None,
    }
}

/// The pairs `<op><operand>` from position `i` on, each folded onto `acc`
/// from the left. The run ends where no operator follows, or where the
/// operand after it fails; the operator is then left unread. An operand
/// always reads at least one character, which the bound on `j` records so
/// that the definition is well founded.
pub open spec fn fold_rest(op: Infix, s: Seq<char>, i: int, acc: Expr) -> (int, Expr)
    decreases s.len() - i, infix_rank(op), 2int,
{
    if 0 <= i < s.len() && s[i] == infix_symbol(op) {
        match operand(op, s, i + 1) {
            Some((j, e)) => if i < j <= s.len() {
                fold_rest(op, s, j, infix_node(op, acc, e))
            } else {
                (i, acc)
            },
            None => (i, acc),
        }
    } else {
        (i, acc)
    }
}

/// Where an expression that starts at `i` expects its first literal: past
/// the function names and the one `-` that may lead it. An input that
/// [`level`] rejects is stuck there.
pub open spec fn stuck_at(s: Seq<char>, i: int) -> int
    decreases s.len() - i,
{
    match function_token(s, i) {
        Some(t) => if 0 < t.len() && i + t.len() <= s.len() {
            stuck_at(s, i + t.len())
        } else {
            i
        },
        None => if 0 <= i < s.len() && s[i] == '-' {
            i + 1
        } else {
            i
        },
    }
}

fn symbol_of(op: Infix) -> (c: char)
    ensures
        c == infix_symbol(op),
{
    match op {
        Infix::Add => '+',
        Infix::Sub => '-',
        Infix::Mul => '*',
        Infix::Div => '/',
        Infix::Pow => '^',
    }
}

fn join(op: Infix, l: Expr, r: Expr) -> (e: Expr)
    ensures
        e == infix_node(op, l, r),
{
    match op {
        Infix::Add => Expr::Add(Box::new(l), Box::new(r)),
        Infix::Sub => Expr::Sub(Box::new(l), Box::new(r)),
        Infix::Mul => Expr::Mul(Box::new(l), Box::new(r)),
        Infix::Div => Expr::Div(Box::new(l), Box::new(r)),
        Infix::Pow => Expr::Exponent(Box::new(l), Box::new(r)),
    }
}

/// The function name at `pos`, as [`function_token`] picks it, and the
/// position just past it.
fn function_token_at(s: &str, pos: usize) -> (r: Option<(&'static str, usize)>)
    ensures
        match r {
            Some((t, end)) => {
                &&& function_token(s@, pos as int) == Some(t@)
                &&& starts_at(s@, pos as int, t@)
                &&& 0 < t@.len()
                &&& end == pos + t@.len()
            },
            None => function_token(s@, pos as int) is None,
        },
{
    proof {
        reveal_strlit("√");
        reveal_strlit("sqrt");
        reveal_strlit("ln");
        reveal_strlit("lb");
        reveal_strlit("ld");
        reveal_strlit("sinh");
        reveal_strlit("sin");
        reveal_strlit("cosh");
        reveal_strlit("cos");
        reveal_strlit("tan");
        assert("√"@ =~= seq!['√']);
        assert("sqrt"@ =~= seq!['s', 'q', 'r', 't']);
        assert("ln"@ =~= seq!['l', 'n']);
        assert("lb"@ =~= seq!['l', 'b']);
        assert("ld"@ =~= seq!['l', 'd']);
        assert("sinh"@ =~= seq!['s', 'i', 'n', 'h']);
        assert("sin"@ =~= seq!['s', 'i', 'n']);
        assert("cosh"@ =~= seq!['c', 'o', 's', 'h']);
        assert("cos"@ =~= seq!['c', 'o', 's']);
        assert("tan"@ =~= seq!['t', 'a', 'n']);
    }
    if let Some(end) = tag_at(s, pos, "√") {
        Some(("√", end))
    } else if let Some(end) = tag_at(s, pos, "sqrt") {
        Some(("sqrt", end))
    } else if let Some(end) = tag_at(s, pos, "ln") {
        Some(("ln", end))
    } else if let Some(end) = tag_at(s, pos, "lb") {
        Some(("lb", end))
    } else if let Some(end) = tag_at(s, pos, "ld") {
        Some(("ld", end))
    } else if let Some(end) = tag_at(s, pos, "sinh") {
        Some(("sinh", end))
    } else if let Some(end) = tag_at(s, pos, "sin") {
        Some(("sin", end))
    } else if let Some(end) = tag_at(s, pos, "cosh") {
        Some(("cosh", end))
    } else if let Some(end) = tag_at(s, pos, "cos") {
        Some(("cos", end))
    } else if let Some(end) = tag_at(s, pos, "tan") {
        Some(("tan", end))
    } else {
        None
    }
}

/// Level 1 at `pos`: see [`literal`].
fn parse_literal_at(s: &str, pos: usize) -> (r: Option<(usize, Expr)>)
    requires
        pos <= s@.len(),
    ensures
        match r {
            Some((j, e)) => pos < j <= s@.len() && literal(s@, pos as int) == Some((j as int, e)),
            None => literal(s@, pos as int) is None,
        },
    decreases s@.len() - pos, 1int, 0int,
{
    let n = s.unicode_len();
    if pos < n && s.get_char(pos) == '(' {
        match parse_level(Infix::Add, s, pos + 1) {
            Some((j, e)) => {
                if j < n && s.get_char(j) == ')' {
                    return Some((j + 1, e));
                }
            },
            None => {},
        }
    }
    let tail = s.substring_char(pos, n);
    match scan_double(tail) {
        Some((rest, bits)) => {
            let j = n - rest.unicode_len();
            Some((j, Expr::Const(bits)))
        },
        None => {
            if pos < n && s.get_char(pos) == 'π' {
                Some((pos + 1, Expr::Const(PI_BITS)))
            } else {
                None
            }
        },
    }
}

/// Level 2 at `pos`: see [`signed_literal`].
fn parse_signed_literal(s: &str, pos: usize) -> (r: Option<(usize, Expr)>)
    requires
        pos <= s@.len(),
    ensures
        match r {
            Some((j, e)) => pos < j <= s@.len() && signed_literal(s@, pos as int) == Some((j as int, e)),
            None => signed_literal(s@, pos as int) is None,
        },
    decreases s@.len() - pos, 2int, 0int,
{
    if pos < s.unicode_len() && s.get_char(pos) == '-' {
        match parse_literal_at(s, pos + 1) {
            Some((j, e)) => Some((j, Expr::Neg(Box::new(e)))),
            None => None,
        }
    } else {
        parse_literal_at(s, pos)
    }
}

/// Level 4 at `pos`: see [`function_level`].
fn parse_function(s: &str, pos: usize) -> (r: Option<(usize, Expr)>)
    requires
        pos <= s@.len(),
    ensures
        match r {
            Some((j, e)) => pos < j <= s@.len() && function_level(s@, pos as int) == Some((j as int, e)),
            None => function_level(s@, pos as int) is None,
        },
    decreases s@.len() - pos, 4int, 0int,
{
    match function_token_at(s, pos) {
        Some((t, end)) => {
            match FunctionID::from_str(t) {
                Some(f) => match parse_function(s, end) {
                    Some((j, e)) => Some((j, Expr::Function(f, Box::new(e)))),
                    None => None,
                },
                None => None,
            }
        },
        None => parse_level(Infix::Pow, s, pos),
    }
}

/// The operand of `op` at `pos`: see [`operand`].
fn parse_operand(op: Infix, s: &str, pos: usize) -> (r: Option<(usize, Expr)>)
    requires
        pos <= s@.len(),
    ensures
        match r {
            Some((j, e)) => pos < j <= s@.len() && operand(op, s@, pos as int) == Some((j as int, e)),
            None => operand(op, s@, pos as int) is None,
        },
    decreases s@.len() - pos, infix_rank(op), 0int,
{
    match op {
        Infix::Add => parse_level(Infix::Sub, s, pos),
        Infix::Sub => parse_level(Infix::Mul, s, pos),
        Infix::Mul => parse_level(Infix::Div, s, pos),
        Infix::Div => parse_function(s, pos),
        Infix::Pow => parse_signed_literal(s, pos),
    }
}

/// The infix level of `op` at `pos`: see [`level`].
fn parse_level(op: Infix, s: &str, pos: usize) -> (r: Option<(usize, Expr)>)
    requires
        pos <= s@.len(),
    ensures
        match r {
            Some((j, e)) => pos < j <= s@.len() && level(op, s@, pos as int) == Some((j as int, e)),
            None => level(op, s@, pos as int) is None,
        },
    decreases s@.len() - pos, infix_rank(op), 1int,
{
    let (mut j, mut acc) = match parse_operand(op, s, pos) {
        Some(first) => first,
        None => return None,
    };
    let ghost whole = fold_rest(op, s@, j as int, acc);
    let n = s.unicode_len();
    let sym = symbol_of(op);
    loop
        invariant
            pos < j <= n,
            n == s@.len(),
            sym == infix_symbol(op),
            level(op, s@, pos as int) == Some(whole),
            fold_rest(op, s@, j as int, acc) == whole,
        decreases n - j,
    {
        if j < n && s.get_char(j) == sym {
            match parse_operand(op, s, j + 1) {
                Some((k, e)) => {
                    acc = join(op, acc, e);
                    j = k;
                },
                None => return Some((j, acc)),
            }
        } else {
            return Some((j, acc));
        }
    }
}

/// The position [`stuck_at`] gives.
fn stuck_position(s: &str, pos: usize) -> (r: usize)
    requires
        pos <= s@.len(),
    ensures
        r == stuck_at(s@, pos as int),
{
    let n = s.unicode_len();
    let mut p = pos;
    loop
        invariant
            pos <= p <= n,
            n == s@.len(),
            stuck_at(s@, p as int) == stuck_at(s@, pos as int),
        decreases n - p,
    {
        match function_token_at(s, p) {
            Some((_, end)) => {
                p = end;
            },
            None => {
                if p < n && s.get_char(p) == '-' {
                    return p + 1;
                }
                return p;
            },
        }
    }
}

/// Parses an expression at the start of `input`: the tree, and the rest of
/// `input` that it did not read. Whether the whole input was read is the
/// caller's to check, by testing that the rest is empty.
///
/// The rest is always a proper suffix of `input`: what was read, followed by
/// the rest, is `input` again, with no character dropped or repeated.
pub fn parse_expr<'a>(input: &'a str) -> (r: Result<(&'a str, Expr), ParseError>)
    ensures
        match r {
            Ok((rest, e)) => {
                &&& rest@.len() < input@.len()
                &&& input@ == input@.subrange(0, input@.len() - rest@.len()) + rest@
                &&& level(Infix::Add, input@, 0) == Some(((input@.len() - rest@.len()) as int, e))
            },
            Err(e) => level(Infix::Add, input@, 0) is None && e.position == stuck_at(input@, 0),
        },
{
    match parse_level(Infix::Add, input, 0) {
        Some((j, e)) => {
            let rest = input.substring_char(j, input.unicode_len());
            assert(input@ =~= input@.subrange(0, j as int) + rest@);
            Ok((rest, e))
        },
        None => Err(ParseError { position: stuck_position(input, 0) }),
    }
}

/// Parses a single literal at the start of `input`: a parenthesised
/// expression, a numeral or `π`, with the rest of `input` that it did not
/// read.
pub fn parse_literal<'a>(input: &'a str) -> (r: Result<(&'a str, Expr), ParseError>)
    ensures
        match r {
            Ok((rest, e)) => {
                &&& rest@.len() < input@.len()
                &&& input@ == input@.subrange(0, input@.len() - rest@.len()) + rest@
                &&& literal(input@, 0) == Some(((input@.len() - rest@.len()) as int, e))
            },
            Err(e) => literal(input@, 0) is None && e.position == 0,
        },
{
    match parse_literal_at(input, 0) {
        Some((j, e)) => {
            let rest = input.substring_char(j, input.unicode_len());
            assert(input@ =~= input@.subrange(0, j as int) + rest@);
            Ok((rest, e))
        },
        None => Err(ParseError { position: 0 }),
    }
}

/// A numeral is a literal: where nom reads a numeral of `n` characters with
/// value `bits` at the start of `s`, and `s` does not open a group, the
/// literal level reads the same `n` characters and gives `Const(bits)`.
pub proof fn lemma_numeral_is_literal(s: Seq<char>, n: nat, bits: u64)
    requires
        double_prefix(s) == Some((n, bits)),
        s.len() == 0 || s[0] != '(',
    ensures
        literal(s, 0) == Some((n as int, Expr::Const(bits))),
{
    assert(s.subrange(0, s.len() as int) =~= s);
}

/// The symbol `π` is the literal whose value is exactly [`PI_BITS`].
pub proof fn lemma_pi_is_literal(s: Seq<char>)
    requires
        s.len() > 0,
        s[0] == 'π',
        double_prefix(s) is None,
    ensures
        literal(s, 0) == Some((1int, Expr::Const(PI_BITS))),
{
    assert(s.subrange(0, s.len() as int) =~= s);
}

} // verus!
