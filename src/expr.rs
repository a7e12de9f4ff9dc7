use vstd::prelude::*;
use vstd::string::StrSliceExecFns;

verus! {

/// Binary operators of assembler expressions.
#[derive(Clone, Copy, Debug, PartialEq, Eq, Structural)]
pub enum Op {
    Add,
    Sub,
    Mul,
    Div,
    Mod,
    And,
    Or,
    Xor,
    Shr,
    Shl,
}

/// Unary operators of assembler expressions.
#[derive(Clone, Copy, Debug, PartialEq, Eq, Structural)]
pub enum UnOp {
    Minus,
    Not,
}

/// Tokens of an assembler expression.
#[derive(Clone, Copy, Debug, PartialEq, Eq, Structural)]
pub enum Token {
    Number(i32),
    Operator(Op),
    Parenthesis(char),
    Unary(UnOp),
}

/// An item of an expression in postfix order.
#[derive(Clone, Copy, Debug, PartialEq, Eq, Structural)]
pub enum Item {
    Number(i32),
    Operator(Op),
}

/// Binding strength: OR and XOR lowest, then AND, then + and -, then * / MOD SHL SHR.
pub open spec fn precedence(op: Op) -> int {
    match op {
        Op::Or | Op::Xor => -2,
        Op::And => -1,
        Op::Add | Op::Sub => 1,
        _ => 2,
    }
}

pub open spec fn op_symbol(op: Op) -> Seq<char> {
    match op {
        Op::Add => "+"@,
        Op::Sub => "-"@,
        Op::Mul => "*"@,
        Op::Div => "/"@,
        Op::Mod => "MOD"@,
        Op::And => "AND"@,
        Op::Or => "OR"@,
        Op::Xor => "XOR"@,
        Op::Shr => "SHR"@,
        Op::Shl => "SHL"@,
    }
}

pub open spec fn unop_symbol(u: UnOp) -> Seq<char> {
    match u {
        UnOp::Minus => "-"@,
        UnOp::Not => "NOT"@,
    }
}

/// Two's-complement wrap of an integer into 32 bits.
pub open spec fn wrap32(x: int) -> i32 {
    (((x + 0x8000_0000) % 0x1_0000_0000) - 0x8000_0000) as i32
}

pub open spec fn two_pow(n: nat) -> int
    decreases n,
{
    if n == 0 {
        1
    } else {
        2 * two_pow((n - 1) as nat)
    }
}

pub open spec fn abs(x: int) -> int {
    if x < 0 {
        -x
    } else {
        x
    }
}

/// Division rounding toward zero.
pub open spec fn trunc_div(a: int, b: int) -> int {
    if (a < 0) == (b < 0) {
        abs(a) / abs(b)
    } else {
        -(abs(a) / abs(b))
    }
}

/// Remainder taking the sign of the dividend.
pub open spec fn trunc_rem(a: int, b: int) -> int {
    if a < 0 {
        -(abs(a) % abs(b))
    } else {
        abs(a) % abs(b)
    }
}

/// Value of `a op b` in wrapping 32-bit arithmetic; division and remainder
/// by zero and shifts outside 0..32 have none.
pub open spec fn op_value(op: Op, a: i32, b: i32) -> Option<i32> {
    match op {
        Op::Add => Some(wrap32(a + b)),
        Op::Sub => Some(wrap32(a - b)),
        Op::Mul => Some(wrap32(a * b)),
        Op::Div => if b == 0 { None } else { Some(wrap32(trunc_div(a as int, b as int))) },
        Op::Mod => if b == 0 { None } else { Some(wrap32(trunc_rem(a as int, b as int))) },
        Op::And => Some(a & b),
        Op::Or => Some(a | b),
        Op::Xor => Some(a ^ b),
        Op::Shl => if 0 <= b < 32 { Some(wrap32(a * two_pow(b as nat))) } else { None },
        Op::Shr => if 0 <= b < 32 { Some((a as int / two_pow(b as nat)) as i32) } else { None },
    }
}

pub open spec fn unop_value(u: UnOp, a: i32) -> i32 {
    match u {
        UnOp::Minus => wrap32(-a),
        UnOp::Not => wrap32(-a - 1),
    }
}

fn wrap32_exec(x: i64) -> (r: i32)
    requires
        -0x8000_0000_0000_0000 + 0x1_0000_0000 <= x <= 0x7fff_ffff_ffff_ffff - 0x1_0000_0000,
    ensures
        r == wrap32(x as int),
{
    let m: i64 = (x + 0x8000_0000) % 0x1_0000_0000;
    let m2: i64 = if m < 0 { m + 0x1_0000_0000 } else { m };
    assert(m2 as int == (x as int + 0x8000_0000) % 0x1_0000_0000) by {
        assert(m2 >= 0 && m2 < 0x1_0000_0000);
    }
    (m2 - 0x8000_0000) as i32
}

proof fn lemma_two_pow_bounds(n: nat)
    requires
        n <= 31,
    ensures
        1 <= two_pow(n) <= 0x8000_0000,
    decreases 31 - n,
{
    if n == 31 {
        reveal_with_fuel(two_pow, 32);
    } else {
        lemma_two_pow_bounds(n + 1);
        assert(two_pow(n + 1) == 2 * two_pow(n));
        lemma_two_pow_positive(n);
    }
}

proof fn lemma_two_pow_positive(n: nat)
    ensures
        two_pow(n) >= 1,
    decreases n,
{
    if n > 0 {
        lemma_two_pow_positive((n - 1) as nat);
    }
}

fn two_pow_exec(n: u32) -> (p: i64)
    requires
        n < 32,
    ensures
        p == two_pow(n as nat),
        1 <= p <= 0x8000_0000,
{
    let mut p: i64 = 1;
    let mut i: u32 = 0;
    while i < n
        invariant
            i <= n < 32,
            p == two_pow(i as nat),
        decreases n - i,
    {
        proof {
            lemma_two_pow_bounds(i as nat);
        }
        p = p * 2;
        i = i + 1;
    }
    proof {
        lemma_two_pow_bounds(n as nat);
    }
    p
}

impl Op {
    pub fn precedence(&self) -> (p: i32)
        ensures
            p == precedence(*self),
    {
        match self {
            Op::Or | Op::Xor => -2,
            Op::And => -1,
            Op::Add | Op::Sub => 1,
            _ => 2,
        }
    }

    pub fn symbol(&self) -> (s: &'static str)
        ensures
            s@ == op_symbol(*self),
    {
        match self {
            Op::Add => "+",
            Op::Sub => "-",
            Op::Mul => "*",
            Op::Div => "/",
            Op::Mod => "MOD",
            Op::And => "AND",
            Op::Or => "OR",
            Op::Xor => "XOR",
            Op::Shr => "SHR",
            Op::Shl => "SHL",
        }
    }

    pub fn apply(&self, a: i32, b: i32) -> (r: Option<i32>)
        ensures
            r == op_value(*self, a, b),
    {
        match self {
            Op::Add => Some(wrap32_exec(a as i64 + b as i64)),
            Op::Sub => Some(wrap32_exec(a as i64 - b as i64)),
            Op::Mul => {
                assert(-0x4000_0000_0000_0000 <= a as int * b as int <= 0x4000_0000_0000_0000) by (nonlinear_arith)
                    requires
                        -0x8000_0000 <= a <= 0x7fff_ffff,
                        -0x8000_0000 <= b <= 0x7fff_ffff,
                ;
                Some(wrap32_exec(a as i64 * b as i64))
            },
            Op::Div | Op::Mod => {
                if b == 0 {
                    return None;
                }
                let ua: u64 = if a < 0 { (-(a as i64)) as u64 } else { a as u64 };
                let ub: u64 = if b < 0 { (-(b as i64)) as u64 } else { b as u64 };
                if *self == Op::Div {
                    let q = (ua / ub) as i64;
                    Some(wrap32_exec(if (a < 0) == (b < 0) { q } else { -q }))
                } else {
                    let m = (ua % ub) as i64;
                    Some(wrap32_exec(if a < 0 { -m } else { m }))
                }
            },
            Op::And => Some(a & b),
            Op::Or => Some(a | b),
            Op::Xor => Some(a ^ b),
            Op::Shl => {
                if b < 0 || b >= 32 {
                    return None;
                }
                let p = two_pow_exec(b as u32);
                assert(-0x4000_0000_0000_0000 <= a as int * p as int <= 0x4000_0000_0000_0000) by (nonlinear_arith)
                    requires
                        -0x8000_0000 <= a <= 0x7fff_ffff,
                        1 <= p <= 0x8000_0000,
                ;
                Some(wrap32_exec(a as i64 * p))
            },
            Op::Shr => {
                if b < 0 || b >= 32 {
                    return None;
                }
                let p = two_pow_exec(b as u32);
                if a >= 0 {
                    Some(((a as u64) / (p as u64)) as i32)
                } else {
                    let m: u64 = (-(a as i64)) as u64;
                    let q: u64 = (m + (p as u64) - 1) / (p as u64);
                    proof {
                        lemma_floor_neg(a as int, p as int);
                    }
                    Some((-(q as i64)) as i32)
                }
            },
        }
    }
}

proof fn lemma_floor_neg(a: int, p: int)
    requires
        a < 0,
        p >= 1,
    ensures
        a / p == -((-a + p - 1) / p),
        a / p >= a,
{
    let q = (-a + p - 1) / p;
    let r = (-a + p - 1) % p;
    vstd::arithmetic::div_mod::lemma_fundamental_div_mod(-a + p - 1, p);
    assert(-a + p - 1 == p * q + r && 0 <= r < p);
    assert(q * p == p * q) by (nonlinear_arith);
    assert((-q) * p <= a) by (nonlinear_arith)
        requires -a + p - 1 == q * p + r, 0 <= r < p;
    assert(a < (-q + 1) * p) by (nonlinear_arith)
        requires -a + p - 1 == q * p + r, 0 <= r < p;
    assert((-q + 1) * p == (-q) * p + p) by (nonlinear_arith);
    assert(0 <= a - (-q) * p < p);
    vstd::arithmetic::div_mod::lemma_fundamental_div_mod_converse(a, p, -q, a - (-q) * p);
    assert(a / p >= a) by (nonlinear_arith)
        requires a < 0, p >= 1, a / p == -q, (-q) * p <= a;
}

impl UnOp {
    pub fn symbol(&self) -> (s: &'static str)
        ensures
            s@ == unop_symbol(*self),
    {
        match self {
            UnOp::Minus => "-",
            UnOp::Not => "NOT",
        }
    }

    pub fn apply(&self, a: i32) -> (r: i32)
        ensures
            r == unop_value(*self, a),
    {
        match self {
            UnOp::Minus => wrap32_exec(-(a as i64)),
            UnOp::Not => wrap32_exec(-(a as i64) - 1),
        }
    }
}

/// Operator stack and argument stack of the evaluator.
pub type Stacks = (Seq<Token>, Seq<i32>);

pub open spec fn binary_error(op: Op) -> Seq<char> {
    "Not enough arguments for operator: "@ + op_symbol(op)
}

pub open spec fn unary_error(u: UnOp) -> Seq<char> {
    "Not enough arguments for unary operator: "@ + unop_symbol(u)
}

pub open spec fn arith_error(op: Op) -> Seq<char> {
    if op == Op::Div || op == Op::Mod {
        "Division by zero"@
    } else {
        "Shift amount out of range"@
    }
}

/// Applies the operator on top of the stack to the top arguments.
pub open spec fn apply_top(st: Stacks) -> Result<Stacks, Seq<char>> {
    let (stack, args) = st;
    match stack.last() {
        Token::Unary(u) => if args.len() == 0 {
            Err(unary_error(u))
        } else {
            Ok((stack.drop_last(), args.drop_last().push(unop_value(u, args.last()))))
        },
        Token::Operator(op) => if args.len() < 2 {
            Err(binary_error(op))
        } else {
            match op_value(op, args[args.len() - 2], args.last()) {
                Some(v) => Ok((stack.drop_last(), args.drop_last().drop_last().push(v))),
                None => Err(arith_error(op)),
            }
        },
        _ => Ok((stack.drop_last(), args)),
    }
}

/// Whether an operator arriving may go on the stack above `top`.
pub open spec fn stacks_above(top: Token, op: Op) -> bool {
    match top {
        Token::Parenthesis(_) => true,
        Token::Operator(t) => precedence(t) < precedence(op),
        _ => false,
    }
}

/// Reduces what binds at least as tightly as `op`, then stacks `op`.
pub open spec fn push_operator(st: Stacks, op: Op) -> Result<Stacks, Seq<char>>
    decreases st.0.len(),
{
    if st.0.len() == 0 || stacks_above(st.0.last(), op) {
        Ok((st.0.push(Token::Operator(op)), st.1))
    } else {
        match apply_top(st) {
            Ok(next) => if next.0.len() < st.0.len() {
                push_operator(next, op)
            } else {
                Err(Seq::empty())
            },
            Err(e) => Err(e),
        }
    }
}

/// Reduces down to the nearest opening parenthesis and drops it.
pub open spec fn close_paren(st: Stacks) -> Result<Stacks, Seq<char>>
    decreases st.0.len(),
{
    if st.0.len() == 0 {
        Ok(st)
    } else if st.0.last() is Parenthesis {
        Ok((st.0.drop_last(), st.1))
    } else {
        match apply_top(st) {
            Ok(next) => if next.0.len() < st.0.len() {
                close_paren(next)
            } else {
                Err(Seq::empty())
            },
            Err(e) => Err(e),
        }
    }
}

/// Reduces what is left once the input is consumed; the result is the last argument.
pub open spec fn finish(st: Stacks) -> Result<i32, Seq<char>>
    decreases st.0.len(),
{
    if st.0.len() == 0 {
        if st.1.len() == 0 {
            Err("Empty expression"@)
        } else {
            Ok(st.1.last())
        }
    } else if st.0.last() is Parenthesis {
        Err("Unbalanced parenthesis"@)
    } else {
        match apply_top(st) {
            Ok(next) => if next.0.len() < st.0.len() {
                finish(next)
            } else {
                Err(Seq::empty())
            },
            Err(e) => Err(e),
        }
    }
}

pub open spec fn feed(st: Stacks, t: Token) -> Result<Stacks, Seq<char>> {
    match t {
        Token::Number(v) => Ok((st.0, st.1.push(v))),
        Token::Unary(_) => Ok((st.0.push(t), st.1)),
        Token::Operator(op) => push_operator(st, op),
        Token::Parenthesis(c) => if c == '(' {
            Ok((st.0.push(t), st.1))
        } else if c == ')' {
            close_paren(st)
        } else {
            Ok(st)
        },
    }
}

/// The stacks after feeding every token, left to right.
pub open spec fn run(tokens: Seq<Token>) -> Result<Stacks, Seq<char>>
    decreases tokens.len(),
{
    if tokens.len() == 0 {
        Ok((Seq::empty(), Seq::empty()))
    } else {
        match run(tokens.drop_last()) {
            Ok(st) => feed(st, tokens.last()),
            Err(e) => Err(e),
        }
    }
}

/// Value of a token sequence by operator precedence (shunting yard).
pub open spec fn eval_spec(tokens: Seq<Token>) -> Result<i32, Seq<char>> {
    match run(tokens) {
        Ok(st) => finish(st),
        Err(e) => Err(e),
    }
}

pub open spec fn stacks_result(r: Result<(), String>, stack: Seq<Token>, args: Seq<i32>, spec: Result<Stacks, Seq<char>>) -> bool {
    match spec {
        Ok(st) => r is Ok && stack == st.0 && args == st.1,
        Err(e) => r is Err && r->Err_0@ == e,
    }
}

fn error_with(prefix: &str, sym: &str) -> (s: String)
    ensures
        s@ == prefix@ + sym@,
{
    String::from_str(prefix).concat(sym)
}

fn apply_top_exec(stack: &mut Vec<Token>, args: &mut Vec<i32>) -> (r: Result<(), String>)
    requires
        old(stack).len() > 0,
    ensures
        stacks_result(r, final(stack)@, final(args)@, apply_top((old(stack)@, old(args)@))),
        r is Ok ==> final(stack)@.len() < old(stack)@.len(),
{
    let top = stack[stack.len() - 1];
    match top {
        Token::Unary(u) => {
            if args.len() == 0 {
                return Err(error_with("Not enough arguments for unary operator: ", u.symbol()));
            }
            let a = args.pop().unwrap();
            args.push(u.apply(a));
            stack.pop();
            Ok(())
        },
        Token::Operator(op) => {
            if args.len() < 2 {
                return Err(error_with("Not enough arguments for operator: ", op.symbol()));
            }
            let right = args[args.len() - 1];
            let left = args[args.len() - 2];
            match op.apply(left, right) {
                Some(v) => {
                    args.pop();
                    args.pop();
                    args.push(v);
                    stack.pop();
                    Ok(())
                },
                None => {
                    if op == Op::Div || op == Op::Mod {
                        Err(String::from_str("Division by zero"))
                    } else {
                        Err(String::from_str("Shift amount out of range"))
                    }
                },
            }
        },
        _ => {
            stack.pop();
            Ok(())
        },
    }
}

fn stacks_above_exec(top: Token, op: Op) -> (b: bool)
    ensures
        b == stacks_above(top, op),
{
    match top {
        Token::Parenthesis(_) => true,
        Token::Operator(t) => t.precedence() < op.precedence(),
        _ => false,
    }
}

fn push_operator_exec(stack: &mut Vec<Token>, args: &mut Vec<i32>, op: Op) -> (r: Result<(), String>)
    ensures
        stacks_result(r, final(stack)@, final(args)@, push_operator((old(stack)@, old(args)@), op)),
{
    loop
        invariant
            push_operator((stack@, args@), op) == push_operator((old(stack)@, old(args)@), op),
        decreases stack@.len(),
    {
        if stack.len() == 0 || stacks_above_exec(stack[stack.len() - 1], op) {
            stack.push(Token::Operator(op));
            return Ok(());
        }
        let r = apply_top_exec(stack, args);
        if r.is_err() {
            return r;
        }
    }
}

fn close_paren_exec(stack: &mut Vec<Token>, args: &mut Vec<i32>) -> (r: Result<(), String>)
    ensures
        stacks_result(r, final(stack)@, final(args)@, close_paren((old(stack)@, old(args)@))),
{
    loop
        invariant
            close_paren((stack@, args@)) == close_paren((old(stack)@, old(args)@)),
        decreases stack@.len(),
    {
        if stack.len() == 0 {
            return Ok(());
        }
        if let Token::Parenthesis(_) = stack[stack.len() - 1] {
            stack.pop();
            return Ok(());
        }
        let r = apply_top_exec(stack, args);
        if r.is_err() {
            return r;
        }
    }
}

/// Evaluates tokens in infix order: operators by precedence, left to right
/// within a level, unary operators binding tightest.
pub fn eval_tokens(tokens: Vec<Token>) -> (r: Result<i32, String>)
    ensures
        match eval_spec(tokens@) {
            Ok(v) => r == Ok::<i32, String>(v),
            Err(e) => r is Err && r->Err_0@ == e,
        },
{
    let mut stack: Vec<Token> = Vec::new();
    let mut args: Vec<i32> = Vec::new();
    let mut i: usize = 0;
    while i < tokens.len()
        invariant
            i <= tokens@.len(),
            run(tokens@.take(i as int)) == Ok::<Stacks, Seq<char>>((stack@, args@)),
        decreases tokens@.len() - i,
    {
        let t = tokens[i];
        proof {
            assert(tokens@.take(i as int + 1).drop_last() =~= tokens@.take(i as int));
        }
        let r = match t {
            Token::Number(v) => {
                args.push(v);
                Ok(())
            },
            Token::Unary(_) => {
                stack.push(t);
                Ok(())
            },
            Token::Operator(op) => push_operator_exec(&mut stack, &mut args, op),
            Token::Parenthesis(c) => {
                if c == '(' {
                    stack.push(t);
                    Ok(())
                } else if c == ')' {
                    close_paren_exec(&mut stack, &mut args)
                } else {
                    Ok(())
                }
            },
        };
        match r {
            Ok(()) => {},
            Err(e) => {
                proof {
                    lemma_run_prefix_err(tokens@, i as int + 1);
                    assert(tokens@.take(tokens@.len() as int) =~= tokens@);
                }
                return Err(e);
            },
        }
        i = i + 1;
    }
    proof {
        assert(tokens@.take(tokens@.len() as int) =~= tokens@);
    }
    loop
        invariant
            finish((stack@, args@)) == finish(run(tokens@)->Ok_0),
            run(tokens@) is Ok,
        decreases stack@.len(),
    {
        if stack.len() == 0 {
            if args.len() == 0 {
                return Err(String::from_str("Empty expression"));
            }
            return Ok(args[args.len() - 1]);
        }
        if let Token::Parenthesis(_) = stack[stack.len() - 1] {
            return Err(String::from_str("Unbalanced parenthesis"));
        }
        let r = apply_top_exec(&mut stack, &mut args);
        if let Err(e) = r {
            return Err(e);
        }
    }
}

/// An error in a prefix of the tokens is the error of the whole sequence.
proof fn lemma_run_prefix_err(tokens: Seq<Token>, n: int)
    requires
        0 <= n <= tokens.len(),
        run(tokens.take(n)) is Err,
    ensures
        run(tokens) == run(tokens.take(n)),
    decreases tokens.len() - n,
{
    if n < tokens.len() {
        assert(tokens.take(n + 1).drop_last() =~= tokens.take(n));
        lemma_run_prefix_err(tokens, n + 1);
    } else {
        assert(tokens.take(n) =~= tokens);
    }
}

pub open spec fn is_hex_digit(c: char) -> bool {
    ('0' <= c && c <= '9') || ('a' <= c && c <= 'f') || ('A' <= c && c <= 'F')
}

pub open spec fn digit_val(c: char) -> int {
    if '0' <= c && c <= '9' {
        c as int - '0' as int
    } else if 'a' <= c && c <= 'f' {
        c as int - 'a' as int + 10
    } else if 'A' <= c && c <= 'F' {
        c as int - 'A' as int + 10
    } else {
        99
    }
}

/// Value of a digit string in a radix, most significant digit first.
pub open spec fn digits_value(ds: Seq<char>, radix: int) -> int
    decreases ds.len(),
{
    if ds.len() == 0 {
        0
    } else {
        digits_value(ds.drop_last(), radix) * radix + digit_val(ds.last())
    }
}

/// The number a digit string denotes, if every digit fits the radix and the value fits 31 bits.
pub open spec fn parse_digits(ds: Seq<char>, radix: int) -> Option<i32> {
    if ds.len() > 0 && (forall|k: int| 0 <= k < ds.len() ==> digit_val(#[trigger] ds[k]) < radix)
        && digits_value(ds, radix) <= 0x7fff_ffff {
        Some(digits_value(ds, radix) as i32)
    } else {
        None
    }
}

/// End of the run of hex digits starting at `i`.
pub open spec fn hex_run_end(cs: Seq<char>, i: int) -> int
    decreases cs.len() - i,
{
    if 0 <= i < cs.len() && is_hex_digit(cs[i]) {
        hex_run_end(cs, i + 1)
    } else {
        i
    }
}

/// A number starting at `i`: its value and the position after it. A run of
/// hex digits followed by `H` is hexadecimal, by `O` or `Q` octal; otherwise
/// a run ending in `B` is binary and one ending in `D` (or nothing) decimal.
pub open spec fn lex_number(cs: Seq<char>, i: int) -> Option<(i32, int)> {
    let j = hex_run_end(cs, i);
    let run = cs.subrange(i, j);
    let next = if j < cs.len() { cs[j] } else { ' ' };
    let parsed = if next == 'H' {
        (parse_digits(run, 16), j + 1)
    } else if next == 'O' || next == 'Q' {
        (parse_digits(run, 8), j + 1)
    } else if run.len() > 1 && run.last() == 'B' {
        (parse_digits(run.drop_last(), 2), j)
    } else if run.len() > 1 && run.last() == 'D' {
        (parse_digits(run.drop_last(), 10), j)
    } else {
        (parse_digits(run, 10), j)
    };
    match parsed.0 {
        Some(v) => Some((v, parsed.1)),
        None => None,
    }
}

/// Whether `word` stands in `cs` at `i`.
pub open spec fn at(cs: Seq<char>, i: int, word: Seq<char>) -> bool {
    0 <= i && i + word.len() <= cs.len() && cs.subrange(i, i + word.len()) == word
}

/// The keyword operator at `i`, with its length.
pub open spec fn lex_keyword(cs: Seq<char>, i: int) -> Option<(Token, int)> {
    if at(cs, i, "XOR"@) {
        Some((Token::Operator(Op::Xor), 3))
    } else if at(cs, i, "AND"@) {
        Some((Token::Operator(Op::And), 3))
    } else if at(cs, i, "OR"@) {
        Some((Token::Operator(Op::Or), 2))
    } else if at(cs, i, "SHL"@) {
        Some((Token::Operator(Op::Shl), 3))
    } else if at(cs, i, "SHR"@) {
        Some((Token::Operator(Op::Shr), 3))
    } else if at(cs, i, "MOD"@) {
        Some((Token::Operator(Op::Mod), 3))
    } else if at(cs, i, "NOT"@) {
        Some((Token::Unary(UnOp::Not), 3))
    } else {
        None
    }
}

pub open spec fn is_space(c: char) -> bool {
    c == ' ' || c == '\t' || c == '\r' || c == '\n'
}

/// A minus is unary at the start, after an operator and after an opening parenthesis.
pub open spec fn minus_token(prev: Option<Token>) -> Token {
    match prev {
        None => Token::Unary(UnOp::Minus),
        Some(Token::Operator(_)) => Token::Unary(UnOp::Minus),
        Some(Token::Parenthesis(c)) => if c == '(' {
            Token::Unary(UnOp::Minus)
        } else {
            Token::Operator(Op::Sub)
        },
        _ => Token::Operator(Op::Sub),
    }
}

/// The token at `i` (after no spaces) and the position after it.
pub open spec fn lex_one(cs: Seq<char>, i: int, prev: Option<Token>) -> Result<(Token, int), Seq<char>> {
    let len = cs.len();
    let c = cs[i];
    if c == '(' || c == ')' {
        Ok((Token::Parenthesis(c), i + 1))
    } else if c == '+' {
        Ok((Token::Operator(Op::Add), i + 1))
    } else if c == '-' {
        Ok((minus_token(prev), i + 1))
    } else if c == '*' {
        Ok((Token::Operator(Op::Mul), i + 1))
    } else if c == '/' {
        Ok((Token::Operator(Op::Div), i + 1))
    } else if lex_keyword(cs, i) is Some {
        Ok((lex_keyword(cs, i)->Some_0.0, i + lex_keyword(cs, i)->Some_0.1))
    } else if is_hex_digit(c) {
        match lex_number(cs, i) {
            Some((v, j)) => Ok((Token::Number(v), j)),
            None => Err("Invalid number"@),
        }
    } else {
        Err("Unexpected character"@)
    }
}

/// Tokens of `cs` from `i` on, the previous token being `prev`.
pub open spec fn lex(cs: Seq<char>, i: int, prev: Option<Token>) -> Result<Seq<Token>, Seq<char>>
    decreases cs.len() - i,
{
    if i < 0 || i >= cs.len() {
        Ok(Seq::empty())
    } else if is_space(cs[i]) {
        lex(cs, i + 1, prev)
    } else {
        match lex_one(cs, i, prev) {
            Ok((t, j)) => if i < j && j <= cs.len() {
                match lex(cs, j, Some(t)) {
                    Ok(rest) => Ok(seq![t] + rest),
                    Err(e) => Err(e),
                }
            } else {
                Err(Seq::empty())
            },
            Err(e) => Err(e),
        }
    }
}

/// The characters of a string.
pub fn to_chars(s: &str) -> (cs: Vec<char>)
    ensures
        cs@ == s@,
{
    let n = s.unicode_len();
    let mut cs: Vec<char> = Vec::new();
    let mut i: usize = 0;
    while i < n
        invariant
            n == s@.len(),
            i <= n,
            cs@ == s@.take(i as int),
        decreases n - i,
    {
        cs.push(s.get_char(i));
        i = i + 1;
        proof {
            assert(cs@ =~= s@.take(i as int));
        }
    }
    assert(s@.take(n as int) =~= s@);
    cs
}

fn is_hex_digit_exec(c: char) -> (b: bool)
    ensures
        b == is_hex_digit(c),
{
    ('0' <= c && c <= '9') || ('a' <= c && c <= 'f') || ('A' <= c && c <= 'F')
}

fn digit_val_exec(c: char) -> (d: u32)
    ensures
        d == digit_val(c),
{
    if '0' <= c && c <= '9' {
        (c as u32) - ('0' as u32)
    } else if 'a' <= c && c <= 'f' {
        (c as u32) - ('a' as u32) + 10
    } else if 'A' <= c && c <= 'F' {
        (c as u32) - ('A' as u32) + 10
    } else {
        99
    }
}

proof fn lemma_digits_prefix(ds: Seq<char>, k: int, radix: int)
    requires
        0 <= k <= ds.len(),
        radix >= 1,
    ensures
        0 <= digits_value(ds.take(k), radix) <= digits_value(ds, radix),
    decreases ds.len(),
{
    if k == ds.len() {
        assert(ds.take(k) =~= ds);
        lemma_digits_nonneg(ds, radix);
    } else {
        let init = ds.drop_last();
        assert(init.take(k) =~= ds.take(k));
        lemma_digits_prefix(init, k, radix);
        lemma_digits_nonneg(init, radix);
        let x = digits_value(init, radix);
        assert(x * radix >= x) by (nonlinear_arith)
            requires x >= 0, radix >= 1;
    }
}

proof fn lemma_digits_nonneg(ds: Seq<char>, radix: int)
    requires
        radix >= 1,
    ensures
        digits_value(ds, radix) >= 0,
    decreases ds.len(),
{
    if ds.len() > 0 {
        lemma_digits_nonneg(ds.drop_last(), radix);
        let x = digits_value(ds.drop_last(), radix);
        assert(x * radix >= 0) by (nonlinear_arith)
            requires x >= 0, radix >= 1;
    }
}

fn parse_digits_exec(cs: &Vec<char>, from: usize, to: usize, radix: u32) -> (r: Option<i32>)
    requires
        from <= to <= cs@.len(),
        2 <= radix <= 16,
    ensures
        r == parse_digits(cs@.subrange(from as int, to as int), radix as int),
{
    let ghost ds = cs@.subrange(from as int, to as int);
    if from >= to {
        return None;
    }
    let mut v: i64 = 0;
    let mut k: usize = from;
    while k < to
        invariant
            from <= k <= to <= cs@.len(),
            2 <= radix <= 16,
            ds == cs@.subrange(from as int, to as int),
            v == digits_value(ds.take(k - from), radix as int),
            0 <= v <= 0x7fff_ffff,
            forall|m: int| 0 <= m < k - from ==> digit_val(#[trigger] ds[m]) < radix,
        decreases to - k,
    {
        let d = digit_val_exec(cs[k]);
        proof {
            assert(ds[k - from] == cs@[k as int]);
        }
        if d >= radix {
            return None;
        }
        proof {
            assert(ds.take(k - from + 1).drop_last() =~= ds.take(k - from));
            assert(ds.take(k - from + 1).last() == ds[k - from]);
        }
        assert(0 <= v * radix <= 0x7fff_ffff * 16) by (nonlinear_arith)
            requires 0 <= v <= 0x7fff_ffff, 2 <= radix <= 16;
        v = v * (radix as i64) + d as i64;
        k = k + 1;
        if v > 0x7fff_ffff {
            proof {
                lemma_digits_prefix(ds, k - from, radix as int);
            }
            return None;
        }
    }
    proof {
        assert(ds.take(to - from) =~= ds);
    }
    Some(v as i32)
}

fn hex_run_end_exec(cs: &Vec<char>, i: usize) -> (j: usize)
    requires
        i <= cs@.len(),
    ensures
        j as int == hex_run_end(cs@, i as int),
        i <= j <= cs@.len(),
{
    let mut j = i;
    while j < cs.len() && is_hex_digit_exec(cs[j])
        invariant
            i <= j <= cs@.len(),
            hex_run_end(cs@, j as int) == hex_run_end(cs@, i as int),
        decreases cs@.len() - j,
    {
        j = j + 1;
    }
    j
}

fn lex_number_exec(cs: &Vec<char>, i: usize) -> (r: Option<(i32, usize)>)
    requires
        i < cs@.len(),
        is_hex_digit(cs@[i as int]),
    ensures
        match lex_number(cs@, i as int) {
            Some((v, j)) => r == Some((v, j as usize)) && i < j <= cs@.len(),
            None => r is None,
        },
{
    let j = hex_run_end_exec(cs, i);
    proof {
        assert(hex_run_end(cs@, i as int) == hex_run_end(cs@, i as int + 1));
    }
    let next = if j < cs.len() { cs[j] } else { ' ' };
    let ghost run = cs@.subrange(i as int, j as int);
    let parsed = if next == 'H' {
        (parse_digits_exec(cs, i, j, 16), j + 1)
    } else if next == 'O' || next == 'Q' {
        (parse_digits_exec(cs, i, j, 8), j + 1)
    } else if j - i > 1 && cs[j - 1] == 'B' {
        proof {
            assert(run.drop_last() =~= cs@.subrange(i as int, j - 1));
        }
        (parse_digits_exec(cs, i, j - 1, 2), j)
    } else if j - i > 1 && cs[j - 1] == 'D' {
        proof {
            assert(run.drop_last() =~= cs@.subrange(i as int, j - 1));
        }
        (parse_digits_exec(cs, i, j - 1, 10), j)
    } else {
        (parse_digits_exec(cs, i, j, 10), j)
    };
    match parsed.0 {
        Some(v) => Some((v, parsed.1)),
        None => None,
    }
}

fn at_exec(cs: &Vec<char>, i: usize, word: &str) -> (b: bool)
    ensures
        b == at(cs@, i as int, word@),
{
    let n = word.unicode_len();
    let len = cs.len();
    if i > len || n > len - i {
        return false;
    }
    let mut k: usize = 0;
    while k < n
        invariant
            n == word@.len(),
            len == cs@.len(),
            i + n <= len,
            k <= n,
            cs@.subrange(i as int, i + k) == word@.take(k as int),
        decreases n - k,
    {
        if cs[i + k] != word.get_char(k) {
            proof {
                assert(cs@.subrange(i as int, i + n)[k as int] != word@[k as int]);
            }
            return false;
        }
        k = k + 1;
        proof {
            assert(cs@.subrange(i as int, i + k) =~= word@.take(k as int));
        }
    }
    proof {
        assert(word@.take(n as int) =~= word@);
    }
    true
}

fn lex_keyword_exec(cs: &Vec<char>, i: usize) -> (r: Option<(Token, usize)>)
    ensures
        match lex_keyword(cs@, i as int) {
            Some((t, n)) => r == Some((t, n as usize)) && i + n <= cs@.len() && n > 0,
            None => r is None,
        },
{
    proof {
        reveal_strlit("XOR");
        reveal_strlit("AND");
        reveal_strlit("OR");
        reveal_strlit("SHL");
        reveal_strlit("SHR");
        reveal_strlit("MOD");
        reveal_strlit("NOT");
    }
    if at_exec(cs, i, "XOR") {
        Some((Token::Operator(Op::Xor), 3))
    } else if at_exec(cs, i, "AND") {
        Some((Token::Operator(Op::And), 3))
    } else if at_exec(cs, i, "OR") {
        Some((Token::Operator(Op::Or), 2))
    } else if at_exec(cs, i, "SHL") {
        Some((Token::Operator(Op::Shl), 3))
    } else if at_exec(cs, i, "SHR") {
        Some((Token::Operator(Op::Shr), 3))
    } else if at_exec(cs, i, "MOD") {
        Some((Token::Operator(Op::Mod), 3))
    } else if at_exec(cs, i, "NOT") {
        Some((Token::Unary(UnOp::Not), 3))
    } else {
        None
    }
}

fn minus_token_exec(prev: Option<Token>) -> (t: Token)
    ensures
        t == minus_token(prev),
{
    match prev {
        None => Token::Unary(UnOp::Minus),
        Some(Token::Operator(_)) => Token::Unary(UnOp::Minus),
        Some(Token::Parenthesis(c)) => if c == '(' {
            Token::Unary(UnOp::Minus)
        } else {
            Token::Operator(Op::Sub)
        },
        _ => Token::Operator(Op::Sub),
    }
}

fn lex_one_exec(cs: &Vec<char>, i: usize, prev: Option<Token>) -> (r: Result<(Token, usize), String>)
    requires
        i < cs@.len(),
    ensures
        match lex_one(cs@, i as int, prev) {
            Ok((t, j)) => r == Ok::<(Token, usize), String>((t, j as usize)) && i < j <= cs@.len(),
            Err(e) => r is Err && r->Err_0@ == e,
        },
{
    let len = cs.len();
    let c = cs[i];
    if c == '(' || c == ')' {
        Ok((Token::Parenthesis(c), i + 1))
    } else if c == '+' {
        Ok((Token::Operator(Op::Add), i + 1))
    } else if c == '-' {
        Ok((minus_token_exec(prev), i + 1))
    } else if c == '*' {
        Ok((Token::Operator(Op::Mul), i + 1))
    } else if c == '/' {
        Ok((Token::Operator(Op::Div), i + 1))
    } else if let Some((t, n)) = lex_keyword_exec(cs, i) {
        Ok((t, i + n))
    } else if is_hex_digit_exec(c) {
        match lex_number_exec(cs, i) {
            Some((v, j)) => Ok((Token::Number(v), j)),
            None => Err(String::from_str("Invalid number")),
        }
    } else {
        Err(String::from_str("Unexpected character"))
    }
}

pub open spec fn after_prefix(out: Seq<Token>, rest: Result<Seq<Token>, Seq<char>>) -> Result<Seq<Token>, Seq<char>> {
    match rest {
        Ok(ts) => Ok(out + ts),
        Err(e) => Err(e),
    }
}

/// Splits an expression into tokens.
pub fn tokenize(expression: &str) -> (r: Result<Vec<Token>, String>)
    ensures
        match lex(expression@, 0, None) {
            Ok(ts) => r is Ok && r->Ok_0@ == ts,
            Err(e) => r is Err && r->Err_0@ == e,
        },
{
    let cs = to_chars(expression);
    let mut out: Vec<Token> = Vec::new();
    let mut prev: Option<Token> = None;
    let mut i: usize = 0;
    assert(out@ + Seq::<Token>::empty() =~= Seq::<Token>::empty());
    while i < cs.len()
        invariant
            cs@ == expression@,
            i <= cs@.len(),
            lex(cs@, 0, None) == after_prefix(out@, lex(cs@, i as int, prev)),
        decreases cs@.len() - i,
    {
        if is_space_exec(cs[i]) {
            i = i + 1;
        } else {
            match lex_one_exec(&cs, i, prev) {
                Ok((t, j)) => {
                    proof {
                        match lex(cs@, j as int, Some(t)) {
                            Ok(rest) => {
                                assert(out@.push(t) + rest =~= out@ + (seq![t] + rest));
                            },
                            Err(_) => {},
                        }
                    }
                    out.push(t);
                    prev = Some(t);
                    i = j;
                },
                Err(e) => {
                    return Err(e);
                },
            }
        }
    }
    assert(out@ + Seq::<Token>::empty() =~= out@);
    Ok(out)
}

fn is_space_exec(c: char) -> (b: bool)
    ensures
        b == is_space(c),
{
    c == ' ' || c == '\t' || c == '\r' || c == '\n'
}

/// The value of an expression.
pub fn eval(expression: &str) -> (r: Result<i32, String>)
    ensures
        match lex(expression@, 0, None) {
            Ok(ts) => match eval_spec(ts) {
                Ok(v) => r == Ok::<i32, String>(v),
                Err(e) => r is Err && r->Err_0@ == e,
            },
            Err(e) => r is Err && r->Err_0@ == e,
        },
{
    let tokens = tokenize(expression)?;
    eval_tokens(tokens)
}

} // verus!
