//! Expression front end of the calculator: decimal-comma normalisation, the
//! tokenizer and the shunting-yard conversion to postfix (RPN). Operators
//! `+ - * / % ^`, parentheses, unary minus (a no-op unary plus), `^` binding
//! tighter than unary minus and associating to the right. Number tokens keep
//! their position in the input; evaluating them is floating point, outside.
use vstd::prelude::*;
use crate::text::{owned, push_char, push_str};

verus! {

/// A token. `Num(a, b)` is the number written at chars `a..b` of the input.
#[derive(Clone, Copy, PartialEq, Eq, Debug)]
pub enum Tok {
    Num(usize, usize),
    Neg,
    Add,
    Sub,
    Mul,
    Div,
    Mod,
    Pow,
    L,
    R,
}

/// Why an expression was refused.
#[derive(Clone, Copy, PartialEq, Eq, Debug)]
pub enum CalcError {
    /// A number where an operator was expected.
    UnexpectedNumber,
    /// Digits and dots that do not make a number (`1..2`, `.`).
    InvalidNumber,
    /// A parenthesis where it cannot stand.
    UnexpectedParen,
    /// A binary operator with nothing on its left.
    MissingLeftOperand(char),
    /// A character outside the expression language.
    InvalidChar(char),
    /// Nothing but blanks.
    Empty,
    /// `)` without a matching `(`.
    UnopenedParen,
    /// `(` never closed.
    UnclosedParen,
}

pub open spec fn is_digit(c: char) -> bool {
    '0' <= c && c <= '9'
}

pub open spec fn is_num_char(c: char) -> bool {
    is_digit(c) || c == '.'
}

pub open spec fn is_blank(c: char) -> bool {
    c == ' ' || c == '\t'
}

pub open spec fn is_op_char(c: char) -> bool {
    c == '+' || c == '-' || c == '*' || c == '/' || c == '%' || c == '^'
}

/// The binary operator token a character stands for.
pub open spec fn op_tok(c: char) -> Tok {
    if c == '+' {
        Tok::Add
    } else if c == '-' {
        Tok::Sub
    } else if c == '*' {
        Tok::Mul
    } else if c == '/' {
        Tok::Div
    } else if c == '%' {
        Tok::Mod
    } else {
        Tok::Pow
    }
}

/// End of the run of digits and dots that starts at `i`.
pub open spec fn run_end(s: Seq<char>, i: int) -> int
    decreases s.len() - i,
{
    if 0 <= i < s.len() && is_num_char(s[i]) {
        run_end(s, i + 1)
    } else {
        i
    }
}

pub open spec fn dot_count(s: Seq<char>) -> nat
    decreases s.len(),
{
    if s.len() == 0 {
        0
    } else {
        dot_count(s.drop_last()) + if s.last() == '.' { 1nat } else { 0nat }
    }
}

pub open spec fn digit_count(s: Seq<char>) -> nat
    decreases s.len(),
{
    if s.len() == 0 {
        0
    } else {
        digit_count(s.drop_last()) + if is_digit(s.last()) { 1nat } else { 0nat }
    }
}

/// A run of digits and dots is a number (as `f64` parsing reads one) when it
/// has at most one dot and at least one digit: `1`, `1.5`, `1.`, `.5`.
pub open spec fn valid_number(lexeme: Seq<char>) -> bool {
    dot_count(lexeme) <= 1 && digit_count(lexeme) >= 1
}

/// Puts `t` in front of a token result.
pub open spec fn cons(t: Tok, r: Result<Seq<Tok>, CalcError>) -> Result<Seq<Tok>, CalcError> {
    match r {
        Ok(ts) => Ok(seq![t] + ts),
        Err(e) => Err(e),
    }
}

/// Puts `p` in front of a token result.
pub open spec fn prefixed(p: Seq<Tok>, r: Result<Seq<Tok>, CalcError>) -> Result<Seq<Tok>, CalcError> {
    match r {
        Ok(ts) => Ok(p + ts),
        Err(e) => Err(e),
    }
}

pub proof fn lemma_run_end(s: Seq<char>, i: int)
    requires
        0 <= i <= s.len(),
    ensures
        i <= run_end(s, i) <= s.len(),
        forall|k: int| i <= k < run_end(s, i) ==> is_num_char(#[trigger] s[k]),
        run_end(s, i) < s.len() ==> !is_num_char(s[run_end(s, i)]),
        0 <= i < s.len() && is_num_char(s[i]) ==> run_end(s, i) > i,
    decreases s.len() - i,
{
    if i < s.len() && is_num_char(s[i]) {
        lemma_run_end(s, i + 1);
    }
}

/// The tokens of `s` from position `i`, when an operand (`expect`) or an
/// operator is due: blanks are skipped, a run of digits and dots is one number,
/// `-` where an operand is due is unary minus, `+` there is ignored.
pub open spec fn lex(s: Seq<char>, i: int, expect: bool) -> Result<Seq<Tok>, CalcError>
    decreases s.len() - i,
{
    if i < 0 || i >= s.len() {
        Ok(Seq::empty())
    } else {
        let c = s[i];
        if is_blank(c) {
            lex(s, i + 1, expect)
        } else if is_num_char(c) {
            if !expect {
                Err(CalcError::UnexpectedNumber)
            } else {
                let e = run_end(s, i);
                proof {
                    lemma_run_end(s, i);
                }
                if !valid_number(s.subrange(i, e)) {
                    Err(CalcError::InvalidNumber)
                } else {
                    cons(Tok::Num(i as usize, e as usize), lex(s, e, false))
                }
            }
        } else if c == '(' {
            if !expect {
                Err(CalcError::UnexpectedParen)
            } else {
                cons(Tok::L, lex(s, i + 1, true))
            }
        } else if c == ')' {
            if expect {
                Err(CalcError::UnexpectedParen)
            } else {
                cons(Tok::R, lex(s, i + 1, false))
            }
        } else if is_op_char(c) {
            if expect {
                if c == '-' {
                    cons(Tok::Neg, lex(s, i + 1, true))
                } else if c == '+' {
                    lex(s, i + 1, true)
                } else {
                    Err(CalcError::MissingLeftOperand(c))
                }
            } else {
                cons(op_tok(c), lex(s, i + 1, true))
            }
        } else {
            Err(CalcError::InvalidChar(c))
        }
    }
}

/// The tokens of a whole expression; no token at all is an error.
pub open spec fn tokenize_spec(s: Seq<char>) -> Result<Seq<Tok>, CalcError> {
    match lex(s, 0, true) {
        Ok(ts) => if ts.len() == 0 {
            Err(CalcError::Empty)
        } else {
            Ok(ts)
        },
        Err(e) => Err(e),
    }
}

/// The input with every decimal comma read as a dot.
pub open spec fn normalize_spec(s: Seq<char>) -> Seq<char> {
    Seq::new(s.len(), |i: int| if s[i] == ',' { '.' } else { s[i] })
}

/// The chars of `input` with decimal commas turned into dots.
pub fn normalize(input: &str) -> (r: Vec<char>)
    ensures
        r@ == normalize_spec(input@),
{
    let mut out: Vec<char> = Vec::new();
    for c in it: input.chars()
        invariant
            out@ == normalize_spec(it.seq().take(it.index() as int)),
    {
        let ghost before = it.seq().take(it.index() as int);
        out.push(if c == ',' { '.' } else { c });
        proof {
            assert(it.seq().take(it.index() + 1) =~= before.push(c));
            assert(out@ =~= normalize_spec(before.push(c)));
        }
    }
    out
}

fn is_digit_exec(c: char) -> (b: bool)
    ensures
        b == is_digit(c),
{
    '0' <= c && c <= '9'
}

fn is_num_char_exec(c: char) -> (b: bool)
    ensures
        b == is_num_char(c),
{
    is_digit_exec(c) || c == '.'
}

/// Whether `s[a..b]` is a number: at most one dot and some digit.
fn valid_number_exec(s: &[char], a: usize, b: usize) -> (ok: bool)
    requires
        a <= b <= s@.len(),
    ensures
        ok == valid_number(s@.subrange(a as int, b as int)),
{
    let mut dots: usize = 0;
    let mut digits: usize = 0;
    let mut k = a;
    while k < b
        invariant
            a <= k <= b <= s@.len(),
            dots as nat == dot_count(s@.subrange(a as int, k as int)),
            digits as nat == digit_count(s@.subrange(a as int, k as int)),
            dots <= k - a,
            digits <= k - a,
        decreases b - k,
    {
        proof {
            assert(s@.subrange(a as int, k + 1).drop_last() =~= s@.subrange(a as int, k as int));
        }
        if s[k] == '.' {
            dots = dots + 1;
        }
        if is_digit_exec(s[k]) {
            digits = digits + 1;
        }
        k = k + 1;
    }
    dots <= 1 && digits >= 1
}

proof fn lemma_prefixed_cons(p: Seq<Tok>, t: Tok, r: Result<Seq<Tok>, CalcError>)
    ensures
        prefixed(p, cons(t, r)) == prefixed(p.push(t), r),
{
    match r {
        Ok(ts) => {
            assert(p + (seq![t] + ts) =~= p.push(t) + ts);
        },
        Err(e) => {},
    }
}

/// Splits an expression into tokens (left to right; the first problem met is
/// the error).
pub fn tokenize(s: &[char]) -> (r: Result<Vec<Tok>, CalcError>)
    ensures
        match r {
            Ok(ts) => tokenize_spec(s@) == Ok::<_, CalcError>(ts@),
            Err(e) => tokenize_spec(s@) == Err::<Seq<Tok>, _>(e),
        },
{
    let n = s.len();
    let mut out: Vec<Tok> = Vec::new();
    let mut i: usize = 0;
    let mut expect = true;
    while i < n
        invariant
            n == s@.len(),
            i <= n,
            lex(s@, 0, true) == prefixed(out@, lex(s@, i as int, expect)),
        decreases n - i,
    {
        let c = s[i];
        if c == ' ' || c == '\t' {
            i = i + 1;
        } else if is_num_char_exec(c) {
            if !expect {
                return Err(CalcError::UnexpectedNumber);
            }
            let start = i;
            let mut j = i;
            proof {
                lemma_run_end(s@, i as int);
            }
            while j < n && is_num_char_exec(s[j])
                invariant
                    n == s@.len(),
                    start <= j <= n,
                    run_end(s@, start as int) == run_end(s@, j as int),
                decreases n - j,
            {
                j = j + 1;
            }
            proof {
                lemma_run_end(s@, j as int);
            }
            if !valid_number_exec(s, start, j) {
                return Err(CalcError::InvalidNumber);
            }
            proof {
                lemma_prefixed_cons(out@, Tok::Num(start, j), lex(s@, j as int, false));
            }
            out.push(Tok::Num(start, j));
            expect = false;
            i = j;
        } else if c == '(' {
            if !expect {
                return Err(CalcError::UnexpectedParen);
            }
            proof {
                lemma_prefixed_cons(out@, Tok::L, lex(s@, i + 1, true));
            }
            out.push(Tok::L);
            i = i + 1;
        } else if c == ')' {
            if expect {
                return Err(CalcError::UnexpectedParen);
            }
            proof {
                lemma_prefixed_cons(out@, Tok::R, lex(s@, i + 1, false));
            }
            out.push(Tok::R);
            i = i + 1;
        } else if c == '+' || c == '-' || c == '*' || c == '/' || c == '%' || c == '^' {
            if expect {
                if c == '-' {
                    proof {
                        lemma_prefixed_cons(out@, Tok::Neg, lex(s@, i + 1, true));
                    }
                    out.push(Tok::Neg);
                } else if c == '+' {
                } else {
                    return Err(CalcError::MissingLeftOperand(c));
                }
            } else {
                let t = if c == '+' {
                    Tok::Add
                } else if c == '-' {
                    Tok::Sub
                } else if c == '*' {
                    Tok::Mul
                } else if c == '/' {
                    Tok::Div
                } else if c == '%' {
                    Tok::Mod
                } else {
                    Tok::Pow
                };
                proof {
                    lemma_prefixed_cons(out@, t, lex(s@, i + 1, true));
                }
                out.push(t);
                expect = true;
            }
            i = i + 1;
        } else {
            return Err(CalcError::InvalidChar(c));
        }
    }
    proof {
        assert(out@ + Seq::<Tok>::empty() =~= out@);
    }
    if out.len() == 0 {
        return Err(CalcError::Empty);
    }
    Ok(out)
}


pub open spec fn is_op(t: Tok) -> bool {
    match t {
        Tok::Neg | Tok::Add | Tok::Sub | Tok::Mul | Tok::Div | Tok::Mod | Tok::Pow => true,
        _ => false,
    }
}

/// Binding strength: `+ -` 1, `* / %` 2, unary minus 3, `^` 4.
pub open spec fn prec(t: Tok) -> int {
    match t {
        Tok::Add | Tok::Sub => 1,
        Tok::Mul | Tok::Div | Tok::Mod => 2,
        Tok::Neg => 3,
        Tok::Pow => 4,
        _ => 0,
    }
}

pub open spec fn right_assoc(t: Tok) -> bool {
    match t {
        Tok::Neg | Tok::Pow => true,
        _ => false,
    }
}

/// Whether the operator `top` on the stack leaves before `op` is pushed.
pub open spec fn yields_to(top: Tok, op: Tok) -> bool {
    is_op(top) && (prec(top) > prec(op) || (prec(top) == prec(op) && !right_assoc(op)))
}

/// Moves operators from the stack top to the output while they bind at
/// least as tightly as `op` (more tightly, for a right-associative `op`).
pub open spec fn pop_ops(out: Seq<Tok>, stack: Seq<Tok>, op: Tok) -> (Seq<Tok>, Seq<Tok>)
    decreases stack.len(),
{
    if stack.len() > 0 && yields_to(stack.last(), op) {
        pop_ops(out.push(stack.last()), stack.drop_last(), op)
    } else {
        (out, stack)
    }
}

/// On `)`: moves operators to the output down to the matching `(`, which is
/// dropped; `None` when there is none.
pub open spec fn pop_to_paren(out: Seq<Tok>, stack: Seq<Tok>) -> Option<(Seq<Tok>, Seq<Tok>)>
    decreases stack.len(),
{
    if stack.len() == 0 {
        None
    } else if stack.last() == Tok::L {
        Some((out, stack.drop_last()))
    } else {
        pop_to_paren(out.push(stack.last()), stack.drop_last())
    }
}

/// At the end: moves the remaining operators to the output; a `(` left on
/// the stack was never closed.
pub open spec fn flush(out: Seq<Tok>, stack: Seq<Tok>) -> Result<Seq<Tok>, CalcError>
    decreases stack.len(),
{
    if stack.len() == 0 {
        Ok(out)
    } else if stack.last() == Tok::L {
        Err(CalcError::UnclosedParen)
    } else {
        flush(out.push(stack.last()), stack.drop_last())
    }
}

/// The shunting-yard from token `i` on, with the output and operator stack
/// built so far.
pub open spec fn shunt(toks: Seq<Tok>, i: int, out: Seq<Tok>, stack: Seq<Tok>) -> Result<Seq<Tok>, CalcError>
    decreases toks.len() - i,
{
    if i < 0 || i >= toks.len() {
        flush(out, stack)
    } else {
        match toks[i] {
            Tok::Num(a, b) => shunt(toks, i + 1, out.push(toks[i]), stack),
            Tok::L => shunt(toks, i + 1, out, stack.push(Tok::L)),
            Tok::R => match pop_to_paren(out, stack) {
                None => Err(CalcError::UnopenedParen),
                Some((o, st)) => shunt(toks, i + 1, o, st),
            },
            _ => {
                let (o, st) = pop_ops(out, stack, toks[i]);
                shunt(toks, i + 1, o, st.push(toks[i]))
            },
        }
    }
}

/// Infix tokens to postfix (RPN).
pub open spec fn to_postfix_spec(toks: Seq<Tok>) -> Result<Seq<Tok>, CalcError> {
    shunt(toks, 0, Seq::empty(), Seq::empty())
}

fn prec_exec(t: Tok) -> (p: u8)
    ensures
        p as int == prec(t),
{
    match t {
        Tok::Add | Tok::Sub => 1,
        Tok::Mul | Tok::Div | Tok::Mod => 2,
        Tok::Neg => 3,
        Tok::Pow => 4,
        _ => 0,
    }
}

fn yields_to_exec(top: Tok, op: Tok) -> (b: bool)
    ensures
        b == yields_to(top, op),
{
    let is_op = match top {
        Tok::Neg | Tok::Add | Tok::Sub | Tok::Mul | Tok::Div | Tok::Mod | Tok::Pow => true,
        _ => false,
    };
    let right = match op {
        Tok::Neg | Tok::Pow => true,
        _ => false,
    };
    is_op && (prec_exec(top) > prec_exec(op) || (prec_exec(top) == prec_exec(op) && !right))
}

/// Converts infix tokens to postfix with the shunting-yard algorithm.
pub fn to_postfix(toks: &[Tok]) -> (r: Result<Vec<Tok>, CalcError>)
    ensures
        match r {
            Ok(ts) => to_postfix_spec(toks@) == Ok::<_, CalcError>(ts@),
            Err(e) => to_postfix_spec(toks@) == Err::<Seq<Tok>, _>(e),
        },
{
    let n = toks.len();
    let mut out: Vec<Tok> = Vec::new();
    let mut stack: Vec<Tok> = Vec::new();
    let mut i: usize = 0;
    while i < n
        invariant
            n == toks@.len(),
            i <= n,
            to_postfix_spec(toks@) == shunt(toks@, i as int, out@, stack@),
        decreases n - i,
    {
        let t = toks[i];
        let ghost out0 = out@;
        let ghost stack0 = stack@;
        match t {
            Tok::Num(_, _) => {
                out.push(t);
            },
            Tok::L => {
                stack.push(Tok::L);
            },
            Tok::R => {
                loop
                    invariant_except_break
                        pop_to_paren(out0, stack0) == pop_to_paren(out@, stack@),
                        i < n,
                        n == toks@.len(),
                        toks@[i as int] == Tok::R,
                        to_postfix_spec(toks@) == shunt(toks@, i as int, out0, stack0),
                    ensures
                        pop_to_paren(out0, stack0) == Some((out@, stack@)),
                    decreases stack@.len(),
                {
                    let ghost before_out = out@;
                    let ghost before_stack = stack@;
                    match stack.pop() {
                        Some(Tok::L) => {
                            assert(before_stack.drop_last() =~= stack@);
                            break;
                        },
                        Some(op) => {
                            assert(before_stack.drop_last() =~= stack@);
                            out.push(op);
                        },
                        None => {
                            assert(pop_to_paren(out@, stack@) is None);
                            assert(toks@[i as int] == Tok::R);
                            assert(shunt(toks@, i as int, out0, stack0) == Err::<Seq<Tok>, _>(CalcError::UnopenedParen));
                            return Err(CalcError::UnopenedParen);
                        },
                    }
                }
            },
            _ => {
                loop
                    invariant_except_break
                        pop_ops(out0, stack0, t) == pop_ops(out@, stack@, t),
                    ensures
                        pop_ops(out0, stack0, t) == (out@, stack@),
                    decreases stack@.len(),
                {
                    if stack.len() == 0 {
                        break;
                    }
                    let top = stack[stack.len() - 1];
                    if !yields_to_exec(top, t) {
                        break;
                    }
                    let ghost before_stack = stack@;
                    let popped = stack.pop().unwrap();
                    assert(before_stack.drop_last() =~= stack@);
                    out.push(popped);
                }
                stack.push(t);
            },
        }
        i = i + 1;
    }
    loop
        invariant_except_break
            flush(out@, stack@) == to_postfix_spec(toks@),
        ensures
            to_postfix_spec(toks@) == Ok::<_, CalcError>(out@),
        decreases stack@.len(),
    {
        let ghost before_stack = stack@;
        match stack.pop() {
            None => {
                break;
            },
            Some(Tok::L) => {
                return Err(CalcError::UnclosedParen);
            },
            Some(t) => {
                assert(before_stack.drop_last() =~= stack@);
                out.push(t);
            },
        }
    }
    Ok(out)
}


// ---------------------------------------------------------------------------
// Laws of the shunting-yard
// ---------------------------------------------------------------------------

pub open spec fn paren_delta(t: Tok) -> int {
    match t {
        Tok::L => 1,
        Tok::R => -1,
        _ => 0,
    }
}

/// Open parentheses minus closed ones.
pub open spec fn depth(toks: Seq<Tok>) -> int
    decreases toks.len(),
{
    if toks.len() == 0 {
        0
    } else {
        depth(toks.drop_last()) + paren_delta(toks.last())
    }
}

/// Every `)` closes an earlier `(` and every `(` is closed.
pub open spec fn balanced(toks: Seq<Tok>) -> bool {
    &&& forall|k: int| 0 <= k <= toks.len() ==> depth(#[trigger] toks.take(k)) >= 0
    &&& depth(toks) == 0
}

/// Neither parenthesis occurs.
pub open spec fn paren_free(toks: Seq<Tok>) -> bool {
    forall|j: int| 0 <= j < toks.len() ==> #[trigger] toks[j] != Tok::L && toks[j] != Tok::R
}

/// No `)` occurs.
pub open spec fn no_close(toks: Seq<Tok>) -> bool {
    forall|j: int| 0 <= j < toks.len() ==> #[trigger] toks[j] != Tok::R
}

/// Number of `(` on a stack.
pub open spec fn open_count(stack: Seq<Tok>) -> int
    decreases stack.len(),
{
    if stack.len() == 0 {
        0
    } else {
        open_count(stack.drop_last()) + if stack.last() == Tok::L { 1int } else { 0int }
    }
}

proof fn lemma_open_count_nonneg(stack: Seq<Tok>)
    ensures
        open_count(stack) >= 0,
    decreases stack.len(),
{
    if stack.len() > 0 {
        lemma_open_count_nonneg(stack.drop_last());
    }
}

proof fn lemma_depth_cons(x: Tok, s: Seq<Tok>)
    ensures
        depth(seq![x] + s) == paren_delta(x) + depth(s),
    decreases s.len(),
{
    if s.len() == 0 {
        assert(seq![x] + s =~= seq![x]);
        assert(seq![x].drop_last() =~= Seq::<Tok>::empty());
        assert(depth(seq![x].drop_last()) == 0);
        assert(seq![x].last() == x);
    } else {
        lemma_depth_cons(x, s.drop_last());
        assert((seq![x] + s).drop_last() =~= seq![x] + s.drop_last());
        assert((seq![x] + s).last() == s.last());
    }
}

proof fn lemma_pop_ops(out: Seq<Tok>, stack: Seq<Tok>, op: Tok)
    requires
        paren_free(out),
        no_close(stack),
    ensures
        open_count(pop_ops(out, stack, op).1) == open_count(stack),
        paren_free(pop_ops(out, stack, op).0),
        no_close(pop_ops(out, stack, op).1),
    decreases stack.len(),
{
    if stack.len() > 0 && yields_to(stack.last(), op) {
        let x = stack.last();
        assert(paren_free(out.push(x))) by {
            assert forall|j: int| 0 <= j < out.push(x).len() implies #[trigger] out.push(x)[j] != Tok::L && out.push(x)[j] != Tok::R by {
                if j < out.len() {
                    assert(out.push(x)[j] == out[j]);
                }
            }
        }
        assert(no_close(stack.drop_last())) by {
            assert forall|j: int| 0 <= j < stack.drop_last().len() implies #[trigger] stack.drop_last()[j] != Tok::R by {
                assert(stack.drop_last()[j] == stack[j]);
            }
        }
        lemma_pop_ops(out.push(x), stack.drop_last(), op);
    }
}

proof fn lemma_pop_to_paren(out: Seq<Tok>, stack: Seq<Tok>)
    requires
        paren_free(out),
        no_close(stack),
    ensures
        pop_to_paren(out, stack) is None <==> open_count(stack) == 0,
        pop_to_paren(out, stack) matches Some((o, st)) ==> open_count(st) == open_count(stack) - 1
            && paren_free(o) && no_close(st),
    decreases stack.len(),
{
    lemma_open_count_nonneg(stack);
    if stack.len() > 0 {
        let x = stack.last();
        let p = stack.drop_last();
        lemma_open_count_nonneg(p);
        assert(no_close(p)) by {
            assert forall|j: int| 0 <= j < p.len() implies #[trigger] p[j] != Tok::R by {
                assert(p[j] == stack[j]);
            }
        }
        if x != Tok::L {
            assert(x != Tok::R) by {
                assert(stack[stack.len() - 1] == x);
            }
            assert(paren_free(out.push(x))) by {
                assert forall|j: int| 0 <= j < out.push(x).len() implies #[trigger] out.push(x)[j] != Tok::L && out.push(x)[j] != Tok::R by {
                    if j < out.len() {
                        assert(out.push(x)[j] == out[j]);
                    }
                }
            }
            lemma_pop_to_paren(out.push(x), p);
        }
    }
}

proof fn lemma_flush(out: Seq<Tok>, stack: Seq<Tok>)
    requires
        paren_free(out),
        no_close(stack),
    ensures
        flush(out, stack) is Ok <==> open_count(stack) == 0,
        flush(out, stack) matches Ok(ts) ==> paren_free(ts),
    decreases stack.len(),
{
    lemma_open_count_nonneg(stack);
    if stack.len() > 0 {
        let x = stack.last();
        let p = stack.drop_last();
        lemma_open_count_nonneg(p);
        assert(no_close(p)) by {
            assert forall|j: int| 0 <= j < p.len() implies #[trigger] p[j] != Tok::R by {
                assert(p[j] == stack[j]);
            }
        }
        if x != Tok::L {
            assert(x != Tok::R) by {
                assert(stack[stack.len() - 1] == x);
            }
            assert(paren_free(out.push(x))) by {
                assert forall|j: int| 0 <= j < out.push(x).len() implies #[trigger] out.push(x)[j] != Tok::L && out.push(x)[j] != Tok::R by {
                    if j < out.len() {
                        assert(out.push(x)[j] == out[j]);
                    }
                }
            }
            lemma_flush(out.push(x), p);
        }
    }
}

proof fn lemma_shunt(toks: Seq<Tok>, i: int, out: Seq<Tok>, stack: Seq<Tok>)
    requires
        0 <= i <= toks.len(),
        paren_free(out),
        no_close(stack),
    ensures
        shunt(toks, i, out, stack) is Ok <==> (
            (forall|k: int| i <= k <= toks.len() ==> open_count(stack) + depth(#[trigger] toks.subrange(i, k)) >= 0)
            && open_count(stack) + depth(toks.subrange(i, toks.len() as int)) == 0),
        shunt(toks, i, out, stack) matches Ok(ts) ==> paren_free(ts),
    decreases toks.len() - i,
{
    lemma_open_count_nonneg(stack);
    assert(toks.subrange(i, i) =~= Seq::<Tok>::empty());
    if i >= toks.len() {
        lemma_flush(out, stack);
    } else {
        let t = toks[i];
        assert forall|k: int| i + 1 <= k <= toks.len() implies depth(#[trigger] toks.subrange(i, k)) == paren_delta(t) + depth(toks.subrange(i + 1, k)) by {
            assert(toks.subrange(i, k) =~= seq![t] + toks.subrange(i + 1, k));
            lemma_depth_cons(t, toks.subrange(i + 1, k));
        }
        match t {
            Tok::Num(a, b) => {
                assert(paren_free(out.push(t))) by {
                    assert forall|j: int| 0 <= j < out.push(t).len() implies #[trigger] out.push(t)[j] != Tok::L && out.push(t)[j] != Tok::R by {
                        if j < out.len() {
                            assert(out.push(t)[j] == out[j]);
                        }
                    }
                }
                lemma_shunt(toks, i + 1, out.push(t), stack);
                lemma_shunt_split(toks, i, open_count(stack), open_count(stack));
            },
            Tok::L => {
                let st = stack.push(Tok::L);
                assert(st.drop_last() =~= stack);
                assert(no_close(st)) by {
                    assert forall|j: int| 0 <= j < st.len() implies #[trigger] st[j] != Tok::R by {
                        if j < stack.len() {
                            assert(st[j] == stack[j]);
                        }
                    }
                }
                lemma_shunt(toks, i + 1, out, st);
                lemma_shunt_split(toks, i, open_count(stack), open_count(st));
            },
            Tok::R => {
                lemma_pop_to_paren(out, stack);
                match pop_to_paren(out, stack) {
                    None => {
                        assert(depth(toks.subrange(i, i + 1)) == -1) by {
                            assert(toks.subrange(i + 1, i + 1) =~= Seq::<Tok>::empty());
                        }
                    },
                    Some((o, st)) => {
                        lemma_shunt(toks, i + 1, o, st);
                        lemma_shunt_split(toks, i, open_count(stack), open_count(st));
                    },
                }
            },
            _ => {
                lemma_pop_ops(out, stack, t);
                let (o, st) = pop_ops(out, stack, t);
                let st2 = st.push(t);
                assert(st2.drop_last() =~= st);
                assert(no_close(st2)) by {
                    assert forall|j: int| 0 <= j < st2.len() implies #[trigger] st2[j] != Tok::R by {
                        if j < st.len() {
                            assert(st2[j] == st[j]);
                        }
                    }
                }
                lemma_shunt(toks, i + 1, o, st2);
                lemma_shunt_split(toks, i, open_count(stack), open_count(st2));
            },
        }
    }
}

/// Bookkeeping for one step of `lemma_shunt`: the depth condition from `i`
/// with `d` open parentheses is the one from `i + 1` with `d2`, when the
/// token at `i` turns `d` into `d2`.
proof fn lemma_shunt_split(toks: Seq<Tok>, i: int, d: int, d2: int)
    requires
        0 <= i < toks.len(),
        d >= 0,
        d2 == d + paren_delta(toks[i]),
        d2 >= 0,
        forall|k: int| i + 1 <= k <= toks.len() ==> depth(#[trigger] toks.subrange(i, k)) == paren_delta(toks[i]) + depth(toks.subrange(i + 1, k)),
        toks.subrange(i, i) == Seq::<Tok>::empty(),
    ensures
        ((forall|k: int| i <= k <= toks.len() ==> d + depth(#[trigger] toks.subrange(i, k)) >= 0)
            && d + depth(toks.subrange(i, toks.len() as int)) == 0) <==> (
        (forall|k: int| i + 1 <= k <= toks.len() ==> d2 + depth(#[trigger] toks.subrange(i + 1, k)) >= 0)
            && d2 + depth(toks.subrange(i + 1, toks.len() as int)) == 0),
{
    if (forall|k: int| i + 1 <= k <= toks.len() ==> d2 + depth(#[trigger] toks.subrange(i + 1, k)) >= 0) {
        assert forall|k: int| i <= k <= toks.len() implies d + depth(#[trigger] toks.subrange(i, k)) >= 0 by {
            if k == i {
                assert(depth(toks.subrange(i, i)) == 0);
            } else {
                assert(d2 + depth(toks.subrange(i + 1, k)) >= 0);
            }
        }
    }
    if (forall|k: int| i <= k <= toks.len() ==> d + depth(#[trigger] toks.subrange(i, k)) >= 0) {
        assert forall|k: int| i + 1 <= k <= toks.len() implies d2 + depth(#[trigger] toks.subrange(i + 1, k)) >= 0 by {
            assert(d + depth(toks.subrange(i, k)) >= 0);
        }
    }
}

/// The conversion succeeds exactly on balanced parentheses, and its output
/// holds no parenthesis.
pub proof fn lemma_to_postfix_balanced(toks: Seq<Tok>)
    ensures
        to_postfix_spec(toks) is Ok <==> balanced(toks),
        to_postfix_spec(toks) matches Ok(ts) ==> paren_free(ts),
{
    let e = Seq::<Tok>::empty();
    assert(paren_free(e));
    assert(no_close(e));
    assert(open_count(e) == 0);
    lemma_shunt(toks, 0, e, e);
    assert forall|k: int| 0 <= k <= toks.len() implies #[trigger] toks.subrange(0, k) == toks.take(k) by {
        assert(toks.subrange(0, k) =~= toks.take(k));
    }
    assert(toks.subrange(0, toks.len() as int) =~= toks);
}


/// The binary operators.
pub open spec fn is_binary(t: Tok) -> bool {
    is_op(t) && t != Tok::Neg
}

/// How operators group, for any numbers `x`, `y`, `z` and binary operators
/// `p`, `q`: the one that binds tighter applies first; at equal strength the
/// left one applies first, except `^`, which groups to the right (`2^3^2` is
/// `2^(3^2)`); parentheses apply first whatever the strengths.
pub proof fn lemma_binary_grouping(x: Tok, y: Tok, z: Tok, p: Tok, q: Tok)
    requires
        x is Num,
        y is Num,
        z is Num,
        is_binary(p),
        is_binary(q),
    ensures
        prec(p) > prec(q) || (prec(p) == prec(q) && q != Tok::Pow)
            ==> to_postfix_spec(seq![x, p, y, q, z]) == Ok::<_, CalcError>(seq![x, y, p, z, q]),
        prec(p) < prec(q) || (p == Tok::Pow && q == Tok::Pow)
            ==> to_postfix_spec(seq![x, p, y, q, z]) == Ok::<_, CalcError>(seq![x, y, z, q, p]),
        to_postfix_spec(seq![Tok::L, x, p, y, Tok::R, q, z]) == Ok::<_, CalcError>(seq![x, y, p, z, q]),
        to_postfix_spec(seq![x, p, Tok::L, y, q, z, Tok::R]) == Ok::<_, CalcError>(seq![x, y, z, q, p]),
{
    let e = Seq::<Tok>::empty();
    let t = seq![x, p, y, q, z];
    reveal_with_fuel(pop_ops, 3);
    reveal_with_fuel(flush, 3);
    reveal_with_fuel(pop_to_paren, 3);
    assert(shunt(t, 0, e, e) == shunt(t, 1, e.push(x), e));
    assert(shunt(t, 1, e.push(x), e) == shunt(t, 2, seq![x], seq![p])) by {
        assert(e.push(x) =~= seq![x]);
        assert(e.push(p) =~= seq![p]);
    }
    assert(shunt(t, 2, seq![x], seq![p]) == shunt(t, 3, seq![x, y], seq![p])) by {
        assert(seq![x].push(y) =~= seq![x, y]);
    }
    if yields_to(p, q) {
        assert(pop_ops(seq![x, y], seq![p], q) == (seq![x, y, p], e)) by {
            assert(seq![x, y].push(p) =~= seq![x, y, p]);
            assert(seq![p].drop_last() =~= e);
        }
        assert(shunt(t, 3, seq![x, y], seq![p]) == shunt(t, 4, seq![x, y, p], seq![q])) by {
            assert(e.push(q) =~= seq![q]);
        }
        assert(shunt(t, 4, seq![x, y, p], seq![q]) == shunt(t, 5, seq![x, y, p, z], seq![q])) by {
            assert(seq![x, y, p].push(z) =~= seq![x, y, p, z]);
        }
        assert(flush(seq![x, y, p, z], seq![q]) == Ok::<_, CalcError>(seq![x, y, p, z, q])) by {
            assert(seq![x, y, p, z].push(q) =~= seq![x, y, p, z, q]);
            assert(seq![q].drop_last() =~= e);
        }
    } else {
        assert(pop_ops(seq![x, y], seq![p], q) == (seq![x, y], seq![p]));
        assert(shunt(t, 3, seq![x, y], seq![p]) == shunt(t, 4, seq![x, y], seq![p, q])) by {
            assert(seq![p].push(q) =~= seq![p, q]);
        }
        assert(shunt(t, 4, seq![x, y], seq![p, q]) == shunt(t, 5, seq![x, y, z], seq![p, q])) by {
            assert(seq![x, y].push(z) =~= seq![x, y, z]);
        }
        assert(flush(seq![x, y, z], seq![p, q]) == Ok::<_, CalcError>(seq![x, y, z, q, p])) by {
            assert(seq![x, y, z].push(q) =~= seq![x, y, z, q]);
            assert(seq![p, q].drop_last() =~= seq![p]);
            assert(seq![x, y, z, q].push(p) =~= seq![x, y, z, q, p]);
            assert(seq![p].drop_last() =~= e);
        }
    }
    lemma_paren_grouping(x, y, z, p, q);
}

/// The precedence table, operator by operator, for any numbers `x`, `y`,
/// `z`: `*`, `/` and `%` bind tighter than `+` and `-` on either side
/// (`x + y % z` is `x + (y % z)`); `*`, `/`, `%` group among themselves to
/// the left, and so do `+` and `-`; `^` binds tighter than all of them and
/// groups to the right.
pub proof fn lemma_precedence_table(x: Tok, y: Tok, z: Tok)
    requires
        x is Num,
        y is Num,
        z is Num,
    ensures
        forall|a: Tok, m: Tok|
            (a == Tok::Add || a == Tok::Sub) && (m == Tok::Mul || m == Tok::Div || m == Tok::Mod) ==> {
                &&& to_postfix_spec(seq![x, a, y, m, z]) == Ok::<_, CalcError>(seq![x, y, z, m, a])
                &&& to_postfix_spec(seq![x, m, y, a, z]) == Ok::<_, CalcError>(seq![x, y, m, z, a])
            },
        forall|p: Tok, q: Tok|
            (p == Tok::Mul || p == Tok::Div || p == Tok::Mod) && (q == Tok::Mul || q == Tok::Div || q == Tok::Mod)
                ==> to_postfix_spec(seq![x, p, y, q, z]) == Ok::<_, CalcError>(seq![x, y, p, z, q]),
        forall|p: Tok, q: Tok|
            (p == Tok::Add || p == Tok::Sub) && (q == Tok::Add || q == Tok::Sub)
                ==> to_postfix_spec(seq![x, p, y, q, z]) == Ok::<_, CalcError>(seq![x, y, p, z, q]),
        forall|p: Tok|
            (p == Tok::Add || p == Tok::Sub || p == Tok::Mul || p == Tok::Div || p == Tok::Mod) ==> {
                &&& to_postfix_spec(seq![x, p, y, Tok::Pow, z]) == Ok::<_, CalcError>(seq![x, y, z, Tok::Pow, p])
                &&& to_postfix_spec(seq![x, Tok::Pow, y, p, z]) == Ok::<_, CalcError>(seq![x, y, Tok::Pow, z, p])
            },
        to_postfix_spec(seq![x, Tok::Pow, y, Tok::Pow, z]) == Ok::<_, CalcError>(seq![x, y, z, Tok::Pow, Tok::Pow]),
{
    assert forall|a: Tok, m: Tok|
        (a == Tok::Add || a == Tok::Sub) && (m == Tok::Mul || m == Tok::Div || m == Tok::Mod) implies {
            &&& to_postfix_spec(seq![x, a, y, m, z]) == Ok::<_, CalcError>(seq![x, y, z, m, a])
            &&& to_postfix_spec(seq![x, m, y, a, z]) == Ok::<_, CalcError>(seq![x, y, m, z, a])
        } by {
        lemma_binary_grouping(x, y, z, a, m);
        lemma_binary_grouping(x, y, z, m, a);
    }
    assert forall|p: Tok, q: Tok|
        (p == Tok::Mul || p == Tok::Div || p == Tok::Mod) && (q == Tok::Mul || q == Tok::Div || q == Tok::Mod)
            implies to_postfix_spec(seq![x, p, y, q, z]) == Ok::<_, CalcError>(seq![x, y, p, z, q]) by {
        lemma_binary_grouping(x, y, z, p, q);
    }
    assert forall|p: Tok, q: Tok|
        (p == Tok::Add || p == Tok::Sub) && (q == Tok::Add || q == Tok::Sub)
            implies to_postfix_spec(seq![x, p, y, q, z]) == Ok::<_, CalcError>(seq![x, y, p, z, q]) by {
        lemma_binary_grouping(x, y, z, p, q);
    }
    assert forall|p: Tok|
        (p == Tok::Add || p == Tok::Sub || p == Tok::Mul || p == Tok::Div || p == Tok::Mod) implies {
            &&& to_postfix_spec(seq![x, p, y, Tok::Pow, z]) == Ok::<_, CalcError>(seq![x, y, z, Tok::Pow, p])
            &&& to_postfix_spec(seq![x, Tok::Pow, y, p, z]) == Ok::<_, CalcError>(seq![x, y, Tok::Pow, z, p])
        } by {
        lemma_binary_grouping(x, y, z, p, Tok::Pow);
        lemma_binary_grouping(x, y, z, Tok::Pow, p);
    }
    lemma_binary_grouping(x, y, z, Tok::Pow, Tok::Pow);
}

proof fn lemma_paren_grouping(x: Tok, y: Tok, z: Tok, p: Tok, q: Tok)
    requires
        x is Num,
        y is Num,
        z is Num,
        is_binary(p),
        is_binary(q),
    ensures
        to_postfix_spec(seq![Tok::L, x, p, y, Tok::R, q, z]) == Ok::<_, CalcError>(seq![x, y, p, z, q]),
        to_postfix_spec(seq![x, p, Tok::L, y, q, z, Tok::R]) == Ok::<_, CalcError>(seq![x, y, z, q, p]),
{
    let e = Seq::<Tok>::empty();
    reveal_with_fuel(pop_ops, 3);
    reveal_with_fuel(flush, 3);
    reveal_with_fuel(pop_to_paren, 3);
    let a = seq![Tok::L, x, p, y, Tok::R, q, z];
    assert(shunt(a, 0, e, e) == shunt(a, 1, e, seq![Tok::L])) by {
        assert(e.push(Tok::L) =~= seq![Tok::L]);
    }
    assert(shunt(a, 1, e, seq![Tok::L]) == shunt(a, 2, seq![x], seq![Tok::L])) by {
        assert(e.push(x) =~= seq![x]);
    }
    assert(pop_ops(seq![x], seq![Tok::L], p) == (seq![x], seq![Tok::L]));
    assert(shunt(a, 2, seq![x], seq![Tok::L]) == shunt(a, 3, seq![x], seq![Tok::L, p])) by {
        assert(seq![Tok::L].push(p) =~= seq![Tok::L, p]);
    }
    assert(shunt(a, 3, seq![x], seq![Tok::L, p]) == shunt(a, 4, seq![x, y], seq![Tok::L, p])) by {
        assert(seq![x].push(y) =~= seq![x, y]);
    }
    assert(pop_to_paren(seq![x, y], seq![Tok::L, p]) == Some((seq![x, y, p], e))) by {
        assert(seq![x, y].push(p) =~= seq![x, y, p]);
        assert(seq![Tok::L, p].drop_last() =~= seq![Tok::L]);
        assert(seq![Tok::L].drop_last() =~= e);
    }
    assert(shunt(a, 4, seq![x, y], seq![Tok::L, p]) == shunt(a, 5, seq![x, y, p], e));
    assert(pop_ops(seq![x, y, p], e, q) == (seq![x, y, p], e));
    assert(shunt(a, 5, seq![x, y, p], e) == shunt(a, 6, seq![x, y, p], seq![q])) by {
        assert(e.push(q) =~= seq![q]);
    }
    assert(shunt(a, 6, seq![x, y, p], seq![q]) == shunt(a, 7, seq![x, y, p, z], seq![q])) by {
        assert(seq![x, y, p].push(z) =~= seq![x, y, p, z]);
    }
    assert(flush(seq![x, y, p, z], seq![q]) == Ok::<_, CalcError>(seq![x, y, p, z, q])) by {
        assert(seq![x, y, p, z].push(q) =~= seq![x, y, p, z, q]);
        assert(seq![q].drop_last() =~= e);
    }
    let b = seq![x, p, Tok::L, y, q, z, Tok::R];
    assert(shunt(b, 0, e, e) == shunt(b, 1, seq![x], e)) by {
        assert(e.push(x) =~= seq![x]);
    }
    assert(pop_ops(seq![x], e, p) == (seq![x], e));
    assert(shunt(b, 1, seq![x], e) == shunt(b, 2, seq![x], seq![p])) by {
        assert(e.push(p) =~= seq![p]);
    }
    assert(shunt(b, 2, seq![x], seq![p]) == shunt(b, 3, seq![x], seq![p, Tok::L])) by {
        assert(seq![p].push(Tok::L) =~= seq![p, Tok::L]);
    }
    assert(shunt(b, 3, seq![x], seq![p, Tok::L]) == shunt(b, 4, seq![x, y], seq![p, Tok::L])) by {
        assert(seq![x].push(y) =~= seq![x, y]);
    }
    assert(pop_ops(seq![x, y], seq![p, Tok::L], q) == (seq![x, y], seq![p, Tok::L]));
    assert(shunt(b, 4, seq![x, y], seq![p, Tok::L]) == shunt(b, 5, seq![x, y], seq![p, Tok::L, q])) by {
        assert(seq![p, Tok::L].push(q) =~= seq![p, Tok::L, q]);
    }
    assert(shunt(b, 5, seq![x, y], seq![p, Tok::L, q]) == shunt(b, 6, seq![x, y, z], seq![p, Tok::L, q])) by {
        assert(seq![x, y].push(z) =~= seq![x, y, z]);
    }
    assert(pop_to_paren(seq![x, y, z], seq![p, Tok::L, q]) == Some((seq![x, y, z, q], seq![p]))) by {
        assert(seq![x, y, z].push(q) =~= seq![x, y, z, q]);
        assert(seq![p, Tok::L, q].drop_last() =~= seq![p, Tok::L]);
        assert(seq![p, Tok::L].drop_last() =~= seq![p]);
    }
    assert(shunt(b, 6, seq![x, y, z], seq![p, Tok::L, q]) == shunt(b, 7, seq![x, y, z, q], seq![p]));
    assert(flush(seq![x, y, z, q], seq![p]) == Ok::<_, CalcError>(seq![x, y, z, q, p])) by {
        assert(seq![x, y, z, q].push(p) =~= seq![x, y, z, q, p]);
        assert(seq![p].drop_last() =~= e);
    }
}

/// Unary minus binds looser than `^` and tighter than the other operators:
/// `-x^y` is `-(x^y)`, and `-x * y` is `(-x) * y`.
pub proof fn lemma_unary_minus_grouping(x: Tok, y: Tok, p: Tok)
    requires
        x is Num,
        y is Num,
        is_binary(p),
    ensures
        p == Tok::Pow ==> to_postfix_spec(seq![Tok::Neg, x, p, y]) == Ok::<_, CalcError>(seq![x, y, p, Tok::Neg]),
        p != Tok::Pow ==> to_postfix_spec(seq![Tok::Neg, x, p, y]) == Ok::<_, CalcError>(seq![x, Tok::Neg, y, p]),
{
    let e = Seq::<Tok>::empty();
    reveal_with_fuel(pop_ops, 3);
    reveal_with_fuel(flush, 3);
    let t = seq![Tok::Neg, x, p, y];
    assert(pop_ops(e, e, Tok::Neg) == (e, e));
    assert(shunt(t, 0, e, e) == shunt(t, 1, e, seq![Tok::Neg])) by {
        assert(e.push(Tok::Neg) =~= seq![Tok::Neg]);
    }
    assert(shunt(t, 1, e, seq![Tok::Neg]) == shunt(t, 2, seq![x], seq![Tok::Neg])) by {
        assert(e.push(x) =~= seq![x]);
    }
    if p == Tok::Pow {
        assert(pop_ops(seq![x], seq![Tok::Neg], p) == (seq![x], seq![Tok::Neg]));
        assert(shunt(t, 2, seq![x], seq![Tok::Neg]) == shunt(t, 3, seq![x], seq![Tok::Neg, p])) by {
            assert(seq![Tok::Neg].push(p) =~= seq![Tok::Neg, p]);
        }
        assert(shunt(t, 3, seq![x], seq![Tok::Neg, p]) == shunt(t, 4, seq![x, y], seq![Tok::Neg, p])) by {
            assert(seq![x].push(y) =~= seq![x, y]);
        }
        assert(flush(seq![x, y], seq![Tok::Neg, p]) == Ok::<_, CalcError>(seq![x, y, p, Tok::Neg])) by {
            assert(seq![x, y].push(p) =~= seq![x, y, p]);
            assert(seq![Tok::Neg, p].drop_last() =~= seq![Tok::Neg]);
            assert(seq![x, y, p].push(Tok::Neg) =~= seq![x, y, p, Tok::Neg]);
            assert(seq![Tok::Neg].drop_last() =~= e);
        }
    } else {
        assert(pop_ops(seq![x], seq![Tok::Neg], p) == (seq![x, Tok::Neg], e)) by {
            assert(seq![x].push(Tok::Neg) =~= seq![x, Tok::Neg]);
            assert(seq![Tok::Neg].drop_last() =~= e);
        }
        assert(shunt(t, 2, seq![x], seq![Tok::Neg]) == shunt(t, 3, seq![x, Tok::Neg], seq![p])) by {
            assert(e.push(p) =~= seq![p]);
        }
        assert(shunt(t, 3, seq![x, Tok::Neg], seq![p]) == shunt(t, 4, seq![x, Tok::Neg, y], seq![p])) by {
            assert(seq![x, Tok::Neg].push(y) =~= seq![x, Tok::Neg, y]);
        }
        assert(flush(seq![x, Tok::Neg, y], seq![p]) == Ok::<_, CalcError>(seq![x, Tok::Neg, y, p])) by {
            assert(seq![x, Tok::Neg, y].push(p) =~= seq![x, Tok::Neg, y, p]);
            assert(seq![p].drop_last() =~= e);
        }
    }
}

/// The message shown for each error.
pub open spec fn message_spec(e: CalcError) -> Seq<char> {
    match e {
        CalcError::UnexpectedNumber => "número inesperado"@,
        CalcError::InvalidNumber => "número inválido"@,
        CalcError::UnexpectedParen => "parêntese inesperado"@,
        CalcError::MissingLeftOperand(c) => "operador '"@.push(c) + "' sem operando à esquerda"@,
        CalcError::InvalidChar(c) => "caractere inválido: '"@.push(c).push('\''),
        CalcError::Empty => "expressão vazia"@,
        CalcError::UnopenedParen => "parêntese não aberto"@,
        CalcError::UnclosedParen => "parêntese não fechado"@,
    }
}

impl CalcError {
    /// The message shown to the user.
    pub fn message(&self) -> (m: String)
        ensures
            m@ == message_spec(*self),
    {
        let r = match self {
            CalcError::UnexpectedNumber => owned("número inesperado"),
            CalcError::InvalidNumber => owned("número inválido"),
            CalcError::UnexpectedParen => owned("parêntese inesperado"),
            CalcError::MissingLeftOperand(c) => {
                let mut m = owned("operador '");
                push_char(&mut m, *c);
                push_str(&mut m, "' sem operando à esquerda");
                m
            },
            CalcError::InvalidChar(c) => {
                let mut m = owned("caractere inválido: '");
                push_char(&mut m, *c);
                push_char(&mut m, '\'');
                m
            },
            CalcError::Empty => owned("expressão vazia"),
            CalcError::UnopenedParen => owned("parêntese não aberto"),
            CalcError::UnclosedParen => owned("parêntese não fechado"),
        };
        r
    }
}

/// Reads an expression: decimal commas, tokens, then postfix order. Returns
/// the normalised chars (the numbers' tokens index into them) and the RPN.
pub fn parse_expression(input: &str) -> (r: Result<(Vec<char>, Vec<Tok>), CalcError>)
    ensures
        match r {
            Ok((chars, rpn)) => {
                &&& chars@ == normalize_spec(input@)
                &&& tokenize_spec(chars@) matches Ok(toks)
                &&& to_postfix_spec(toks) == Ok::<_, CalcError>(rpn@)
            },
            Err(e) => match tokenize_spec(normalize_spec(input@)) {
                Err(e2) => e == e2,
                Ok(toks) => to_postfix_spec(toks) == Err::<Seq<Tok>, _>(e),
            },
        },
{
    let chars = normalize(input);
    let toks = tokenize(chars.as_slice())?;
    let rpn = to_postfix(toks.as_slice())?;
    Ok((chars, rpn))
}

/// Why a postfix program cannot be evaluated: an operator without its
/// operands or a value left over (`Incomplete`), or a parenthesis.
#[derive(Clone, Copy, PartialEq, Eq, Debug)]
pub enum RpnError {
    Incomplete,
    UnexpectedParen,
}

/// Running a postfix program on a stack of `depth` values from token `i` on:
/// the first error, or the final depth.
pub open spec fn rpn_run(rpn: Seq<Tok>, i: int, depth: int) -> Result<int, RpnError>
    decreases rpn.len() - i,
{
    if i >= rpn.len() {
        Ok(depth)
    } else {
        match rpn[i] {
            Tok::Num(_, _) => rpn_run(rpn, i + 1, depth + 1),
            Tok::Neg => if depth < 1 { Err(RpnError::Incomplete) } else { rpn_run(rpn, i + 1, depth) },
            Tok::L => Err(RpnError::UnexpectedParen),
            Tok::R => Err(RpnError::UnexpectedParen),
            _ => if depth < 2 { Err(RpnError::Incomplete) } else { rpn_run(rpn, i + 1, depth - 1) },
        }
    }
}

/// Whether a postfix program evaluates to one value, and its error otherwise.
pub open spec fn rpn_check_spec(rpn: Seq<Tok>) -> Result<(), RpnError> {
    match rpn_run(rpn, 0, 0) {
        Ok(d) => if d == 1 { Ok(()) } else { Err(RpnError::Incomplete) },
        Err(e) => Err(e),
    }
}

/// Checks that a postfix program leaves exactly one value and that every
/// operator finds its operands; the arithmetic itself is done outside.
pub fn check_rpn(rpn: &[Tok]) -> (r: Result<(), RpnError>)
    ensures
        r == rpn_check_spec(rpn@),
{
    let mut depth: usize = 0;
    let mut i: usize = 0;
    while i < rpn.len()
        invariant
            i <= rpn@.len(),
            depth <= i,
            rpn_run(rpn@, 0, 0) == rpn_run(rpn@, i as int, depth as int),
        decreases rpn@.len() - i,
    {
        match rpn[i] {
            Tok::Num(_, _) => {
                depth = depth + 1;
            },
            Tok::Neg => {
                if depth < 1 {
                    return Err(RpnError::Incomplete);
                }
            },
            Tok::L => {
                return Err(RpnError::UnexpectedParen);
            },
            Tok::R => {
                return Err(RpnError::UnexpectedParen);
            },
            _ => {
                if depth < 2 {
                    return Err(RpnError::Incomplete);
                }
                depth = depth - 1;
            },
        }
        i = i + 1;
    }
    if depth == 1 {
        Ok(())
    } else {
        Err(RpnError::Incomplete)
    }
}

impl RpnError {
    /// The message shown to the user.
    pub fn message(&self) -> (m: String)
        ensures
            m@ == (match self {
                RpnError::Incomplete => "expressão incompleta"@,
                RpnError::UnexpectedParen => "parêntese inesperado"@,
            }),
    {
        match self {
            RpnError::Incomplete => owned("expressão incompleta"),
            RpnError::UnexpectedParen => owned("parêntese inesperado"),
        }
    }
}

} // verus!
