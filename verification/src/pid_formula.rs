//! Grammar of the signal formulas (`((A*256)+B)/4`, `(A << 8) | B`, `raw`).
//!
//! Parsing is verified here; it yields a postfix program whose operations
//! appear in exactly the order in which a left-to-right evaluator meets them,
//! together with the syntax or missing-byte error that stops the parse.  The
//! floating-point evaluation of that program lives with the callers.

use vstd::prelude::*;
use crate::text::{
    ascii_lower, chars_of, decimal, push_decimal, push_str, string_from_chars, to_lower, trim,
    trim_chars,
};
use vstd::string::StringSliceAdditionalSpecFns;

verus! {

/// Errors a formula can produce.
#[derive(Clone, Copy, Debug, PartialEq, Eq, Structural)]
pub enum FormulaError {
    Empty,
    /// Invalid syntax at the given byte offset.
    Syntax(usize),
    /// The formula reads a response byte (`A`..`H`) that the response lacks.
    MissingByte(char),
    DivisionByZero,
    NonFinite,
}

impl FormulaError {
    /// What `message` spells for this error.
    pub open spec fn message_text(self) -> Seq<char> {
        match self {
            FormulaError::Empty => "empty formula"@,
            FormulaError::Syntax(p) => "invalid syntax at byte "@ + decimal(p as nat),
            FormulaError::MissingByte(c) => "response byte "@ + seq![c] + " is not available"@,
            FormulaError::DivisionByZero => "division by zero"@,
            FormulaError::NonFinite => "non-finite result"@,
        }
    }

    /// Human readable description of the error.
    pub fn message(&self) -> (m: String)
        ensures
            m@ == self.message_text(),
    {
        let mut v: Vec<char> = Vec::new();
        match self {
            FormulaError::Empty => push_str(&mut v, "empty formula"),
            FormulaError::Syntax(p) => {
                push_str(&mut v, "invalid syntax at byte ");
                push_decimal(&mut v, *p as u64);
            },
            FormulaError::MissingByte(c) => {
                push_str(&mut v, "response byte ");
                v.push(*c);
                push_str(&mut v, " is not available");
            },
            FormulaError::DivisionByZero => push_str(&mut v, "division by zero"),
            FormulaError::NonFinite => push_str(&mut v, "non-finite result"),
        }
        assert(v@ =~= self.message_text());
        string_from_chars(v.as_slice())
    }
}

/// One step of a postfix formula program.
#[derive(Clone, Copy, Debug, PartialEq, Eq, Structural)]
pub enum Op {
    /// Decimal literal spelled by the formula bytes `start..end`.
    Number { start: usize, end: usize },
    /// Response byte at the given index (`A` is 0).
    Byte(u8),
    Neg,
    Not,
    Add,
    Sub,
    Mul,
    Div,
    Rem,
    Shl,
    Shr,
    And,
    Xor,
    Or,
}

/// A formula ready for evaluation.
#[derive(Clone, Debug, PartialEq, Eq)]
pub enum Formula {
    /// The whole response, read as a big-endian unsigned integer.
    Raw,
    /// Operations to run in order; `end` is the error met after them, if any.
    Program { ops: Vec<Op>, end: Option<FormulaError> },
}

/// Spec-level counterpart of `Formula`.
pub enum FormulaSpec {
    Raw,
    Program { ops: Seq<Op>, end: Option<FormulaError> },
}

impl View for Formula {
    type V = FormulaSpec;

    open spec fn view(&self) -> FormulaSpec {
        match self {
            Formula::Raw => FormulaSpec::Raw,
            Formula::Program { ops, end } => FormulaSpec::Program { ops: ops@, end: *end },
        }
    }
}

/// Outcome of parsing one grammar level from some position.
pub struct Step {
    /// Operations emitted, in evaluation order.
    pub ops: Seq<Op>,
    /// Position after the parse (meaningful on success).
    pub pos: int,
    pub fail: Option<FormulaError>,
}

// Grammar levels are numbered loosest first: 0 `|`, 1 `^`, 2 `&`,
// 3 shifts, 4 `+ -`, 5 `* / %`.
/// `u8::is_ascii_whitespace`.
pub open spec fn is_ws(b: u8) -> bool {
    b == 32 || b == 9 || b == 10 || b == 12 || b == 13
}

pub open spec fn is_digit(b: u8) -> bool {
    48 <= b <= 57
}

pub open spec fn is_number_byte(b: u8) -> bool {
    is_digit(b) || b == 46
}

pub open spec fn byte_at(s: Seq<u8>, i: int) -> Option<u8> {
    if 0 <= i < s.len() {
        Some(s[i])
    } else {
        None
    }
}

/// First position at or after `p` that is not ASCII white space.
pub open spec fn skip_ws(s: Seq<u8>, p: int) -> int
    decreases s.len() - p,
{
    if 0 <= p < s.len() && is_ws(s[p]) {
        skip_ws(s, p + 1)
    } else {
        p
    }
}

/// End of the run of digits and dots that starts at `p`.
pub open spec fn number_end(s: Seq<u8>, p: int) -> int
    decreases s.len() - p,
{
    if 0 <= p < s.len() && is_number_byte(s[p]) {
        number_end(s, p + 1)
    } else {
        p
    }
}

pub open spec fn dot_count(t: Seq<u8>) -> nat
    decreases t.len(),
{
    if t.len() == 0 {
        0
    } else {
        dot_count(t.drop_last()) + if t.last() == 46 {
            1nat
        } else {
            0nat
        }
    }
}

pub open spec fn has_digit(t: Seq<u8>) -> bool {
    exists|i: int| 0 <= i < t.len() && is_digit(#[trigger] t[i])
}

/// A run of digits and dots that `f64::from_str` accepts: at most one dot
/// and at least one digit.
pub open spec fn valid_number(t: Seq<u8>) -> bool {
    dot_count(t) <= 1 && has_digit(t)
}

/// The binary operator of level `k` found after white space at `q`, with the
/// position behind it.
pub open spec fn op_at(s: Seq<u8>, q: int, k: int) -> Option<(Op, int)> {
    let r = skip_ws(s, q);
    let b = byte_at(s, r);
    let c = byte_at(s, r + 1);
    if k == 0 {
        if b == Some(124u8) { Some((Op::Or, r + 1)) } else { None }
    } else if k == 1 {
        if b == Some(94u8) { Some((Op::Xor, r + 1)) } else { None }
    } else if k == 2 {
        if b == Some(38u8) { Some((Op::And, r + 1)) } else { None }
    } else if k == 3 {
        if b == Some(60u8) && c == Some(60u8) {
            Some((Op::Shl, r + 2))
        } else if b == Some(62u8) && c == Some(62u8) {
            Some((Op::Shr, r + 2))
        } else {
            None
        }
    } else if k == 4 {
        if b == Some(43u8) {
            Some((Op::Add, r + 1))
        } else if b == Some(45u8) {
            Some((Op::Sub, r + 1))
        } else {
            None
        }
    } else {
        if b == Some(42u8) {
            Some((Op::Mul, r + 1))
        } else if b == Some(47u8) {
            Some((Op::Div, r + 1))
        } else if b == Some(37u8) {
            Some((Op::Rem, r + 1))
        } else {
            None
        }
    }
}

pub open spec fn stuck(p: int) -> Step {
    Step { ops: Seq::empty(), pos: p, fail: Some(FormulaError::Syntax(0)) }
}

/// Level `k` of the grammar: an operand of the next tighter level followed by
/// any number of `op operand` pairs of this level.
pub open spec fn parse_level(s: Seq<u8>, n: nat, k: int, p: int) -> Step
    decreases s.len() - p, 13 - 2 * k,
{
    if !(0 <= p <= s.len() && 0 <= k <= 5) {
        stuck(p)
    } else {
        let first = if k < 5 {
            parse_level(s, n, k + 1, p)
        } else {
            parse_factor(s, n, p)
        };
        if first.fail is Some {
            first
        } else if p <= first.pos <= s.len() {
            let tail = parse_tail(s, n, k, first.pos);
            Step { ops: first.ops + tail.ops, pos: tail.pos, fail: tail.fail }
        } else {
            stuck(p)
        }
    }
}

/// The `op operand` pairs of level `k` that follow position `q`.
pub open spec fn parse_tail(s: Seq<u8>, n: nat, k: int, q: int) -> Step
    decreases s.len() - q, 12 - 2 * k,
{
    if !(0 <= q <= s.len() && 0 <= k <= 5 && q <= skip_ws(s, q) <= s.len()) {
        stuck(q)
    } else {
        match op_at(s, q, k) {
            None => Step { ops: Seq::empty(), pos: skip_ws(s, q), fail: None },
            Some((op, q2)) => {
                if !(q < q2 <= s.len()) {
                    stuck(q)
                } else {
                    let operand = if k < 5 {
                        parse_level(s, n, k + 1, q2)
                    } else {
                        parse_factor(s, n, q2)
                    };
                    if operand.fail is Some {
                        operand
                    } else if q2 <= operand.pos <= s.len() {
                        let more = parse_tail(s, n, k, operand.pos);
                        Step {
                            ops: operand.ops.push(op) + more.ops,
                            pos: more.pos,
                            fail: more.fail,
                        }
                    } else {
                        stuck(q)
                    }
                }
            },
        }
    }
}

/// Parenthesised formula, unary `-` or `~`, response byte or number.
pub open spec fn parse_factor(s: Seq<u8>, n: nat, p: int) -> Step
    decreases s.len() - p, 1int,
{
    let q = skip_ws(s, p);
    if !(0 <= p <= q <= s.len()) {
        stuck(p)
    } else if q == s.len() {
        Step { ops: Seq::empty(), pos: q, fail: Some(FormulaError::Syntax(q as usize)) }
    } else {
        let b = s[q];
        if b == 40u8 {
            let inner = parse_level(s, n, 0, q + 1);
            if inner.fail is Some {
                inner
            } else if q + 1 <= inner.pos <= s.len() {
                let close = skip_ws(s, inner.pos);
                if byte_at(s, close) == Some(41u8) {
                    Step { ops: inner.ops, pos: close + 1, fail: None }
                } else {
                    Step {
                        ops: inner.ops,
                        pos: close,
                        fail: Some(FormulaError::Syntax(close as usize)),
                    }
                }
            } else {
                stuck(p)
            }
        } else if b == 45u8 || b == 126u8 {
            let inner = parse_factor(s, n, q + 1);
            if inner.fail is Some {
                inner
            } else {
                Step {
                    ops: inner.ops.push(if b == 45u8 { Op::Neg } else { Op::Not }),
                    pos: inner.pos,
                    fail: None,
                }
            }
        } else if (65u8 <= b <= 72u8) || (97u8 <= b <= 104u8) {
            let index = if b >= 97u8 { b - 97 } else { b - 65 };
            if index < n {
                Step { ops: seq![Op::Byte(index as u8)], pos: q + 1, fail: None }
            } else {
                Step {
                    ops: Seq::empty(),
                    pos: q + 1,
                    fail: Some(FormulaError::MissingByte((65 + index) as char)),
                }
            }
        } else if is_number_byte(b) {
            let end = number_end(s, q);
            if valid_number(s.subrange(q, end)) {
                Step { ops: seq![Op::Number { start: q as usize, end: end as usize }], pos: end, fail: None }
            } else {
                Step { ops: Seq::empty(), pos: end, fail: Some(FormulaError::Syntax(q as usize)) }
            }
        } else {
            Step { ops: Seq::empty(), pos: q, fail: Some(FormulaError::Syntax(q as usize)) }
        }
    }
}

/// The program for a whole formula given as bytes.
pub open spec fn program_of(s: Seq<u8>, n: nat) -> FormulaSpec {
    let r = parse_level(s, n, 0, 0);
    if r.fail is Some {
        FormulaSpec::Program { ops: r.ops, end: r.fail }
    } else {
        let last = skip_ws(s, r.pos);
        FormulaSpec::Program {
            ops: r.ops,
            end: if last == s.len() { None } else { Some(FormulaError::Syntax(last as usize)) },
        }
    }
}

/// `formula.trim().eq_ignore_ascii_case("raw")`.
pub open spec fn is_raw(t: Seq<char>) -> bool {
    t.len() == 3 && ascii_lower(t[0]) == 'r' && ascii_lower(t[1]) == 'a' && ascii_lower(t[2]) == 'w'
}

/// What a formula with the given characters and bytes compiles to, for
/// responses of `n` bytes.
pub open spec fn compiled(chars: Seq<char>, bytes: Seq<u8>, n: nat) -> Result<FormulaSpec, FormulaError> {
    if trim(chars).len() == 0 {
        Err(FormulaError::Empty)
    } else if is_raw(trim(chars)) {
        Ok(FormulaSpec::Raw)
    } else {
        Ok(program_of(bytes, n))
    }
}

/// The response read as a big-endian integer; earlier bytes shift out once
/// more than eight are present.
pub open spec fn raw_fold(data: Seq<u8>) -> u64
    decreases data.len(),
{
    if data.len() == 0 {
        0
    } else {
        (raw_fold(data.drop_last()) << 8u64) | (data.last() as u64)
    }
}

/// Values an operation takes from and puts on the evaluation stack.
pub open spec fn arity(op: Op) -> (int, int) {
    match op {
        Op::Number { .. } | Op::Byte(_) => (0, 1),
        Op::Neg | Op::Not => (1, 1),
        _ => (2, 1),
    }
}

/// Stack depth after running `ops` from depth `d`, or `None` when some
/// operation finds fewer values than it needs.
pub open spec fn run_depth(ops: Seq<Op>, d: int) -> Option<int>
    decreases ops.len(),
{
    if ops.len() == 0 {
        Some(d)
    } else if d < arity(ops[0]).0 {
        None
    } else {
        run_depth(ops.drop_first(), d - arity(ops[0]).0 + arity(ops[0]).1)
    }
}

/// From any depth the operations leave exactly one more value.
pub open spec fn yields_one(ops: Seq<Op>) -> bool {
    forall|d: int| d >= 0 ==> #[trigger] run_depth(ops, d) == Some(d + 1)
}

/// Given at least one value, the operations leave the depth unchanged.
pub open spec fn keeps_depth(ops: Seq<Op>) -> bool {
    forall|d: int| d >= 1 ==> #[trigger] run_depth(ops, d) == Some(d)
}

/// From depth `low` or more, no operation runs short of values.
pub open spec fn never_short(ops: Seq<Op>, low: int) -> bool {
    forall|d: int| d >= low ==> (#[trigger] run_depth(ops, d) matches Some(e) && e >= d)
}

pub proof fn lemma_run_depth_concat(a: Seq<Op>, b: Seq<Op>, d: int)
    ensures
        run_depth(a + b, d) == match run_depth(a, d) {
            Some(e) => run_depth(b, e),
            None => None,
        },
    decreases a.len(),
{
    if a.len() == 0 {
        assert(a + b =~= b);
    } else {
        assert((a + b).drop_first() =~= a.drop_first() + b);
        assert((a + b)[0] == a[0]);
        if d >= arity(a[0]).0 {
            lemma_run_depth_concat(a.drop_first(), b, d - arity(a[0]).0 + arity(a[0]).1);
        }
    }
}

proof fn lemma_single(op: Op, d: int)
    ensures
        run_depth(seq![op], d) == if d < arity(op).0 {
            None
        } else {
            Some(d - arity(op).0 + arity(op).1)
        },
{
    reveal_with_fuel(run_depth, 2);
    assert(seq![op][0] == op);
    assert(seq![op].drop_first() =~= Seq::<Op>::empty());
}

/// A single operand leaves one value behind.
proof fn lemma_operand(op: Op)
    requires
        arity(op) == (0int, 1int),
    ensures
        yields_one(seq![op]),
        never_short(seq![op], 0),
{
    assert forall|d: int| d >= 0 implies #[trigger] run_depth(seq![op], d) == Some(d + 1) by {
        lemma_single(op, d);
    }
}

/// A unary operation applied to one operand still leaves one value.
proof fn lemma_unary(a: Seq<Op>, op: Op)
    requires
        yields_one(a),
        arity(op) == (1int, 1int),
    ensures
        yields_one(a.push(op)),
        never_short(a.push(op), 0),
{
    assert(a.push(op) =~= a + seq![op]);
    assert forall|d: int| d >= 0 implies #[trigger] run_depth(a.push(op), d) == Some(d + 1) by {
        lemma_run_depth_concat(a, seq![op], d);
        assert(run_depth(a, d) == Some(d + 1));
        lemma_single(op, d + 1);
    }
}

/// An operand followed by a binary operation consumes the value below it.
proof fn lemma_binary(a: Seq<Op>, op: Op)
    requires
        yields_one(a),
        arity(op) == (2int, 1int),
    ensures
        keeps_depth(a.push(op)),
        never_short(a.push(op), 1),
{
    assert(a.push(op) =~= a + seq![op]);
    assert forall|d: int| d >= 1 implies #[trigger] run_depth(a.push(op), d) == Some(d) by {
        lemma_run_depth_concat(a, seq![op], d);
        assert(run_depth(a, d) == Some(d + 1));
        lemma_single(op, d + 1);
    }
}

/// Sequencing: something that yields a value, then something that keeps the
/// depth.
proof fn lemma_yields_then(a: Seq<Op>, b: Seq<Op>)
    requires
        yields_one(a),
        never_short(b, 1),
    ensures
        never_short(a + b, 0),
        keeps_depth(b) ==> yields_one(a + b),
{
    assert forall|d: int| d >= 0 implies (#[trigger] run_depth(a + b, d) matches Some(e) && e
        >= d) by {
        lemma_run_depth_concat(a, b, d);
        assert(run_depth(a, d) == Some(d + 1));
        assert(run_depth(b, d + 1) matches Some(x) && x >= d + 1);
    }
    if keeps_depth(b) {
        assert forall|d: int| d >= 0 implies #[trigger] run_depth(a + b, d) == Some(d + 1) by {
            lemma_run_depth_concat(a, b, d);
            assert(run_depth(a, d) == Some(d + 1));
            assert(run_depth(b, d + 1) == Some(d + 1));
        }
    }
}

/// Sequencing two parts that each keep the depth from one value up.
proof fn lemma_keeps_then(a: Seq<Op>, b: Seq<Op>)
    requires
        keeps_depth(a),
        never_short(b, 1),
    ensures
        never_short(a + b, 1),
        keeps_depth(b) ==> keeps_depth(a + b),
{
    assert forall|d: int| d >= 1 implies (#[trigger] run_depth(a + b, d) matches Some(e) && e
        >= d) by {
        lemma_run_depth_concat(a, b, d);
        assert(run_depth(a, d) == Some(d));
        assert(run_depth(b, d) matches Some(x) && x >= d);
    }
    if keeps_depth(b) {
        assert forall|d: int| d >= 1 implies #[trigger] run_depth(a + b, d) == Some(d) by {
            lemma_run_depth_concat(a, b, d);
            assert(run_depth(a, d) == Some(d));
            assert(run_depth(b, d) == Some(d));
        }
    }
}

proof fn lemma_empty_program()
    ensures
        keeps_depth(Seq::<Op>::empty()),
        never_short(Seq::<Op>::empty(), 0),
{
}

/// A program that never runs short from some depth never does from a larger one.
proof fn lemma_never_short_weaken(a: Seq<Op>, low: int, high: int)
    requires
        never_short(a, low),
        low <= high,
    ensures
        never_short(a, high),
{
}

proof fn lemma_skip_ws_bounds(s: Seq<u8>, p: int)
    requires
        0 <= p <= s.len(),
    ensures
        p <= skip_ws(s, p) <= s.len(),
    decreases s.len() - p,
{
    if p < s.len() && is_ws(s[p]) {
        lemma_skip_ws_bounds(s, p + 1);
    }
}

/// Each binary operator is read from its own characters, after any white
/// space, at the precedence level that owns it: `|` is Or, `^` Xor, `&` And,
/// `<<` Shl, `>>` Shr, `+` Add, `-` Sub, `*` Mul, `/` Div and `%` Rem, and
/// reading continues behind those characters.  Nothing else is read as an
/// operator.
pub proof fn law_operator_characters(s: Seq<u8>, q: int, k: int)
    requires
        0 <= k <= 5,
    ensures
        ({
            let r = skip_ws(s, q);
            let b = byte_at(s, r);
            let c = byte_at(s, r + 1);
            &&& k == 0 && b == Some(124u8) ==> op_at(s, q, k) == Some((Op::Or, r + 1))
            &&& k == 1 && b == Some(94u8) ==> op_at(s, q, k) == Some((Op::Xor, r + 1))
            &&& k == 2 && b == Some(38u8) ==> op_at(s, q, k) == Some((Op::And, r + 1))
            &&& k == 3 && b == Some(60u8) && c == Some(60u8) ==> op_at(s, q, k) == Some(
                (Op::Shl, r + 2),
            )
            &&& k == 3 && b == Some(62u8) && c == Some(62u8) ==> op_at(s, q, k) == Some(
                (Op::Shr, r + 2),
            )
            &&& k == 4 && b == Some(43u8) ==> op_at(s, q, k) == Some((Op::Add, r + 1))
            &&& k == 4 && b == Some(45u8) ==> op_at(s, q, k) == Some((Op::Sub, r + 1))
            &&& k == 5 && b == Some(42u8) ==> op_at(s, q, k) == Some((Op::Mul, r + 1))
            &&& k == 5 && b == Some(47u8) ==> op_at(s, q, k) == Some((Op::Div, r + 1))
            &&& k == 5 && b == Some(37u8) ==> op_at(s, q, k) == Some((Op::Rem, r + 1))
            &&& op_at(s, q, k) is Some ==> {
                ||| k == 0 && b == Some(124u8)
                ||| k == 1 && b == Some(94u8)
                ||| k == 2 && b == Some(38u8)
                ||| k == 3 && b == Some(60u8) && c == Some(60u8)
                ||| k == 3 && b == Some(62u8) && c == Some(62u8)
                ||| k == 4 && (b == Some(43u8) || b == Some(45u8))
                ||| k == 5 && (b == Some(42u8) || b == Some(47u8) || b == Some(37u8))
            }
        }),
{
}

/// A leading `-` negates and a leading `~` inverts the operand that follows
/// it: the operand's program, then Neg or Not.
pub proof fn law_unary_operators(s: Seq<u8>, n: nat, p: int)
    requires
        0 <= p <= s.len(),
        parse_factor(s, n, p).fail is None,
    ensures
        ({
            let q = skip_ws(s, p);
            &&& q < s.len() && s[q] == 45u8 ==> parse_factor(s, n, p).ops == parse_factor(
                s,
                n,
                q + 1,
            ).ops.push(Op::Neg)
            &&& q < s.len() && s[q] == 126u8 ==> parse_factor(s, n, p).ops == parse_factor(
                s,
                n,
                q + 1,
            ).ops.push(Op::Not)
        }),
{
    lemma_skip_ws_bounds(s, p);
}

/// An operator read at some level is emitted right behind the program of
/// its right operand: the operations of `X op Y op' ...` after `X` begin with
/// the program of `Y` followed by `op` itself.
pub proof fn law_operator_follows_its_operand(s: Seq<u8>, n: nat, k: int, q: int, op: Op, q2: int)
    requires
        0 <= q <= s.len(),
        0 <= k <= 5,
        op_at(s, q, k) == Some((op, q2)),
        parse_tail(s, n, k, q).fail is None,
    ensures
        ({
            let operand = if k < 5 {
                parse_level(s, n, k + 1, q2)
            } else {
                parse_factor(s, n, q2)
            };
            let ops = parse_tail(s, n, k, q).ops;
            &&& operand.ops.len() < ops.len()
            &&& ops.subrange(0, operand.ops.len() + 1int) == operand.ops.push(op)
        }),
{
    lemma_skip_ws_bounds(s, q);
    let operand = if k < 5 {
        parse_level(s, n, k + 1, q2)
    } else {
        parse_factor(s, n, q2)
    };
    let t = parse_tail(s, n, k, q);
    if q < q2 <= s.len() && operand.fail is None && q2 <= operand.pos <= s.len() {
        let more = parse_tail(s, n, k, operand.pos);
        assert(t.ops == operand.ops.push(op) + more.ops);
        assert(t.ops.subrange(0, operand.ops.len() + 1int) =~= operand.ops.push(op));
    }
}

fn skip(s: &[u8], p: usize) -> (q: usize)
    requires
        p <= s@.len(),
    ensures
        q == skip_ws(s@, p as int),
        p <= q <= s@.len(),
{
    let mut i = p;
    while i < s.len() && (s[i] == 32 || s[i] == 9 || s[i] == 10 || s[i] == 12 || s[i] == 13)
        invariant
            p <= i <= s@.len(),
            skip_ws(s@, i as int) == skip_ws(s@, p as int),
        decreases s@.len() - i,
    {
        i = i + 1;
    }
    i
}

fn peek(s: &[u8], i: usize) -> (b: Option<u8>)
    ensures
        b == byte_at(s@, i as int),
{
    if i < s.len() {
        Some(s[i])
    } else {
        None
    }
}

fn find_op(s: &[u8], q: usize, k: usize) -> (r: Option<(Op, usize)>)
    requires
        q <= s@.len(),
        k <= 5,
    ensures
        match r {
            None => op_at(s@, q as int, k as int) is None,
            Some((op, q2)) => op_at(s@, q as int, k as int) == Some((op, q2 as int)) && q < q2
                <= s@.len(),
        },
{
    let r = skip(s, q);
    let b = peek(s, r);
    let c = if r < s.len() { peek(s, r + 1) } else { None };
    assert(r < s@.len() ==> c == byte_at(s@, r + 1));
    assert(r >= s@.len() ==> byte_at(s@, r + 1) is None);
    if k == 0 {
        if b == Some(124u8) { Some((Op::Or, r + 1)) } else { None }
    } else if k == 1 {
        if b == Some(94u8) { Some((Op::Xor, r + 1)) } else { None }
    } else if k == 2 {
        if b == Some(38u8) { Some((Op::And, r + 1)) } else { None }
    } else if k == 3 {
        if b == Some(60u8) && c == Some(60u8) {
            Some((Op::Shl, r + 2))
        } else if b == Some(62u8) && c == Some(62u8) {
            Some((Op::Shr, r + 2))
        } else {
            None
        }
    } else if k == 4 {
        if b == Some(43u8) {
            Some((Op::Add, r + 1))
        } else if b == Some(45u8) {
            Some((Op::Sub, r + 1))
        } else {
            None
        }
    } else {
        if b == Some(42u8) {
            Some((Op::Mul, r + 1))
        } else if b == Some(47u8) {
            Some((Op::Div, r + 1))
        } else if b == Some(37u8) {
            Some((Op::Rem, r + 1))
        } else {
            None
        }
    }
}

/// Scans a number token; returns its end and whether `f64` parsing accepts it.
fn scan_number(s: &[u8], q: usize) -> (r: (usize, bool))
    requires
        q <= s@.len(),
    ensures
        r.0 == number_end(s@, q as int),
        q <= r.0 <= s@.len(),
        r.1 == valid_number(s@.subrange(q as int, r.0 as int)),
{
    let mut i = q;
    let mut dots: usize = 0;
    let mut digit = false;
    while i < s.len() && ((48 <= s[i] && s[i] <= 57) || s[i] == 46)
        invariant
            q <= i <= s@.len(),
            number_end(s@, i as int) == number_end(s@, q as int),
            dots == dot_count(s@.subrange(q as int, i as int)),
            dots <= i - q,
            digit == has_digit(s@.subrange(q as int, i as int)),
        decreases s@.len() - i,
    {
        let ghost before = s@.subrange(q as int, i as int);
        assert(s@.subrange(q as int, i + 1).drop_last() =~= before);
        if s[i] == 46 {
            dots = dots + 1;
        } else {
            digit = true;
        }
        proof {
            let after = s@.subrange(q as int, i + 1);
            assert(after.last() == s@[i as int]);
            if has_digit(before) {
                let w = choose|j: int| 0 <= j < before.len() && is_digit(before[j]);
                assert(after[w] == before[w]);
            }
            if is_digit(s@[i as int]) {
                assert(is_digit(after[after.len() - 1]));
            }
            if has_digit(after) {
                let w = choose|j: int| 0 <= j < after.len() && is_digit(after[j]);
                if w < before.len() {
                    assert(before[w] == after[w]);
                }
            }
        }
        i = i + 1;
    }
    (i, dots <= 1 && digit)
}

fn parse_level_exec(s: &[u8], n: usize, k: usize, p: usize, out: &mut Vec<Op>) -> (res: Result<
    usize,
    FormulaError,
>)
    requires
        p <= s@.len(),
        k <= 5,
    ensures
        ({
            let r = parse_level(s@, n as nat, k as int, p as int);
            &&& final(out)@ == old(out)@ + r.ops
            &&& match res {
                Ok(q) => r.fail is None && r.pos == q && p <= q <= s@.len(),
                Err(e) => r.fail == Some(e),
            }
            &&& r.fail is None ==> yields_one(r.ops)
            &&& never_short(r.ops, 0)
        }),
    decreases s@.len() - p, 13 - 2 * k,
{
    let ghost start = out@;
    let ghost r1 = if k < 5 {
        parse_level(s@, n as nat, k + 1, p as int)
    } else {
        parse_factor(s@, n as nat, p as int)
    };
    let first = if k < 5 {
        parse_level_exec(s, n, k + 1, p, out)
    } else {
        parse_factor_exec(s, n, p, out)
    };
    match first {
        Err(e) => Err(e),
        Ok(q) => {
            let ghost mid = out@;
            let ghost r2 = parse_tail(s@, n as nat, k as int, q as int);
            let res = parse_tail_exec(s, n, k, q, out);
            proof {
                assert(out@ =~= start + (r1.ops + r2.ops));
                lemma_yields_then(r1.ops, r2.ops);
            }
            res
        },
    }
}

fn parse_tail_exec(s: &[u8], n: usize, k: usize, q: usize, out: &mut Vec<Op>) -> (res: Result<
    usize,
    FormulaError,
>)
    requires
        q <= s@.len(),
        k <= 5,
    ensures
        ({
            let r = parse_tail(s@, n as nat, k as int, q as int);
            &&& final(out)@ == old(out)@ + r.ops
            &&& match res {
                Ok(e) => r.fail is None && r.pos == e && q <= e <= s@.len(),
                Err(e) => r.fail == Some(e),
            }
            &&& r.fail is None ==> keeps_depth(r.ops)
            &&& never_short(r.ops, 1)
        }),
    decreases s@.len() - q, 12 - 2 * k,
{
    let ghost start = out@;
    let sk = skip(s, q);
    match find_op(s, q, k) {
        None => {
            assert(out@ =~= start + Seq::<Op>::empty());
            proof {
                lemma_empty_program();
            }
            Ok(sk)
        },
        Some((op, q2)) => {
            let ghost r1 = if k < 5 {
                parse_level(s@, n as nat, k + 1, q2 as int)
            } else {
                parse_factor(s@, n as nat, q2 as int)
            };
            let operand = if k < 5 {
                parse_level_exec(s, n, k + 1, q2, out)
            } else {
                parse_factor_exec(s, n, q2, out)
            };
            match operand {
                Err(e) => {
                    proof {
                        lemma_never_short_weaken(r1.ops, 0, 1);
                    }
                    Err(e)
                },
                Ok(e) => {
                    out.push(op);
                    let ghost r2 = parse_tail(s@, n as nat, k as int, e as int);
                    let res = parse_tail_exec(s, n, k, e, out);
                    proof {
                        assert(out@ =~= start + (r1.ops.push(op) + r2.ops));
                        lemma_binary(r1.ops, op);
                        lemma_keeps_then(r1.ops.push(op), r2.ops);
                    }
                    res
                },
            }
        },
    }
}

fn parse_factor_exec(s: &[u8], n: usize, p: usize, out: &mut Vec<Op>) -> (res: Result<
    usize,
    FormulaError,
>)
    requires
        p <= s@.len(),
    ensures
        ({
            let r = parse_factor(s@, n as nat, p as int);
            &&& final(out)@ == old(out)@ + r.ops
            &&& match res {
                Ok(e) => r.fail is None && r.pos == e && p <= e <= s@.len(),
                Err(e) => r.fail == Some(e),
            }
            &&& r.fail is None ==> yields_one(r.ops)
            &&& never_short(r.ops, 0)
        }),
    decreases s@.len() - p, 1int,
{
    let ghost start = out@;
    proof {
        lemma_empty_program();
    }
    let q = skip(s, p);
    if q == s.len() {
        assert(out@ =~= start + Seq::<Op>::empty());
        return Err(FormulaError::Syntax(q));
    }
    let b = s[q];
    if b == 40u8 {
        let inner = parse_level_exec(s, n, 0, q + 1, out);
        match inner {
            Err(e) => Err(e),
            Ok(e) => {
                let close = skip(s, e);
                if close < s.len() && s[close] == 41u8 {
                    Ok(close + 1)
                } else {
                    Err(FormulaError::Syntax(close))
                }
            },
        }
    } else if b == 45u8 || b == 126u8 {
        let ghost r1 = parse_factor(s@, n as nat, q + 1);
        let inner = parse_factor_exec(s, n, q + 1, out);
        match inner {
            Err(e) => Err(e),
            Ok(e) => {
                let op = if b == 45u8 {
                    Op::Neg
                } else {
                    Op::Not
                };
                out.push(op);
                proof {
                    assert(out@ =~= start + r1.ops.push(op));
                    lemma_unary(r1.ops, op);
                }
                Ok(e)
            },
        }
    } else if (65u8 <= b && b <= 72u8) || (97u8 <= b && b <= 104u8) {
        let index = if b >= 97u8 {
            b - 97
        } else {
            b - 65
        };
        if (index as usize) < n {
            out.push(Op::Byte(index));
            assert(out@ =~= start + seq![Op::Byte(index)]);
            proof {
                lemma_operand(Op::Byte(index));
            }
            Ok(q + 1)
        } else {
            assert(out@ =~= start + Seq::<Op>::empty());
            Err(FormulaError::MissingByte((65u8 + index) as char))
        }
    } else if (48u8 <= b && b <= 57u8) || b == 46u8 {
        let (end, ok) = scan_number(s, q);
        if ok {
            out.push(Op::Number { start: q, end });
            assert(out@ =~= start + seq![Op::Number { start: q, end }]);
            proof {
                lemma_operand(Op::Number { start: q, end });
            }
            Ok(end)
        } else {
            assert(out@ =~= start + Seq::<Op>::empty());
            Err(FormulaError::Syntax(q))
        }
    } else {
        assert(out@ =~= start + Seq::<Op>::empty());
        Err(FormulaError::Syntax(q))
    }
}

/// Compiles `formula` for responses of `data_len` bytes.
///
/// Blank formulas are rejected, `raw` (in any case, surrounded by white space)
/// reads the whole response, and anything else is parsed into a postfix
/// program.  A program never pops from an empty evaluation stack, and one
/// that parsed completely leaves exactly one value.
pub fn compile(formula: &str, data_len: usize) -> (res: Result<Formula, FormulaError>)
    ensures
        match res {
            Ok(f) => compiled(formula@, formula.spec_bytes(), data_len as nat) == Ok::<
                FormulaSpec,
                FormulaError,
            >(f@),
            Err(e) => compiled(formula@, formula.spec_bytes(), data_len as nat) == Err::<
                FormulaSpec,
                FormulaError,
            >(e),
        },
        res matches Ok(Formula::Program { ops, end }) ==> never_short(ops@, 0) && (end is None
            ==> run_depth(ops@, 0) == Some(1int)),
{
    let chars = chars_of(formula);
    let t = trim_chars(chars.as_slice());
    if t.len() == 0 {
        return Err(FormulaError::Empty);
    }
    if t.len() == 3 && to_lower(t[0]) == 'r' && to_lower(t[1]) == 'a' && to_lower(t[2]) == 'w' {
        return Ok(Formula::Raw);
    }
    let bytes = formula.as_bytes();
    let mut ops: Vec<Op> = Vec::new();
    let parsed = parse_level_exec(bytes, data_len, 0, 0, &mut ops);
    assert(ops@ =~= parse_level(bytes@, data_len as nat, 0, 0).ops);
    let end = match parsed {
        Err(e) => Some(e),
        Ok(p) => {
            let last = skip(bytes, p);
            if last == bytes.len() {
                None
            } else {
                Some(FormulaError::Syntax(last))
            }
        },
    };
    Ok(Formula::Program { ops, end })
}

/// The response read as one big-endian unsigned integer, as `raw` formulas
/// do; with more than eight bytes only the last eight count.
pub fn raw_value(data: &[u8]) -> (v: u64)
    ensures
        v == raw_fold(data@),
{
    let mut value: u64 = 0;
    let mut i: usize = 0;
    assert(data@.subrange(0, 0) =~= Seq::<u8>::empty());
    while i < data.len()
        invariant
            0 <= i <= data@.len(),
            value == raw_fold(data@.subrange(0, i as int)),
        decreases data@.len() - i,
    {
        assert(data@.subrange(0, i + 1).drop_last() =~= data@.subrange(0, i as int));
        value = (value << 8u64) | (data[i] as u64);
        i = i + 1;
    }
    assert(data@.subrange(0, data@.len() as int) =~= data@);
    value
}

} // verus!
