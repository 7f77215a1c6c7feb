//! Tree-walking evaluator. `eval_expr` and `eval_stmt` are the semantics of
//! the language: what every expression and statement yields and how it
//! changes the environment, the output and the break flag. The methods of
//! `Interpreter` are proved to follow them exactly. Loops run on an explicit
//! budget of `u64::MAX` iterations per program, a machine limit in place of
//! the unbounded loop the language itself allows.
use crate::environment::{
    env_assign, env_contains, env_define, env_lookup, lemma_env_assign_len, EnvModel, Environment,
};
use crate::errors::{RuntimeError, RuntimeErrorKind};
use crate::expression::{ExprV, Expression};
use crate::num::{
    add_bits, div_bits, eq_bits, ge_bits, gt_bits, le_bits, lt_bits, mul_bits, neg_bits, num_add,
    num_div, num_eq, num_ge, num_gt, num_le, num_lt, num_mul, num_neg, num_sub, sub_bits,
};
use crate::statement::{stmts_view, Statement, StmtV};
use crate::token::{lit_eq, lit_text, truthy, LitV, Literal, Token, TokenV};
use crate::token_type::TokenType;
use crate::LocationInfo;
use vstd::prelude::*;

verus! {

broadcast use vstd::std_specs::vec::axiom_vec_index_decreases;

/// Mathematical model of a runtime error.
pub enum RtErrV {
    UndefinedVariable(Seq<char>),
    UnaryMinusOnNonNumber,
    UnexpectedUnaryOperator(TokenType),
    UnexpectedBinaryOperator(TokenType),
    InvalidExpression,
    LoopLimitReached,
}

impl View for RuntimeErrorKind {
    type V = RtErrV;

    open spec fn view(&self) -> RtErrV {
        match self {
            RuntimeErrorKind::UndefinedVariable(n) => RtErrV::UndefinedVariable(n@),
            RuntimeErrorKind::UnaryMinusOnNonNumber => RtErrV::UnaryMinusOnNonNumber,
            RuntimeErrorKind::UnexpectedUnaryOperator(t) => RtErrV::UnexpectedUnaryOperator(*t),
            RuntimeErrorKind::UnexpectedBinaryOperator(t) => RtErrV::UnexpectedBinaryOperator(*t),
            RuntimeErrorKind::InvalidExpression => RtErrV::InvalidExpression,
            RuntimeErrorKind::LoopLimitReached => RtErrV::LoopLimitReached,
        }
    }
}

/// What an expression evaluation yields: a value, or a runtime error; either
/// way the environment as the evaluation left it.
pub enum ERes {
    Val { v: LitV, env: EnvModel },
    Throw { err: RtErrV, loc: LocationInfo, env: EnvModel },
}

/// The value of an expression, and the environment after it: literals are
/// themselves; a variable reads the nearest binding; assignment writes the
/// nearest binding and yields the assigned value; `!` negates truthiness;
/// unary `-` negates a number; arithmetic and comparisons take two numbers;
/// `==`/`!=` use value equality on anything; `and`/`or` short-circuit and
/// yield the deciding operand itself.
pub open spec fn eval_expr(env: EnvModel, e: ExprV) -> ERes
    decreases e,
{
    match e {
        ExprV::Literal(l) => ERes::Val { v: l, env },
        ExprV::Variable(t) => match env_lookup(env, t.lexeme) {
            Option::Some(v) => ERes::Val { v, env },
            Option::None => ERes::Throw {
                err: RtErrV::UndefinedVariable(t.lexeme),
                loc: t.loc,
                env,
            },
        },
        ExprV::Assignment(t, e1) => match eval_expr(env, *e1) {
            ERes::Val { v, env: env1 } => if env_contains(env1, t.lexeme) {
                ERes::Val { v, env: env_assign(env1, t.lexeme, v) }
            } else {
                ERes::Throw { err: RtErrV::UndefinedVariable(t.lexeme), loc: t.loc, env: env1 }
            },
            ERes::Throw { err, loc, env: env1 } => ERes::Throw { err, loc, env: env1 },
        },
        ExprV::Group(g) => eval_expr(env, *g),
        ExprV::Unary(op, r) => match eval_expr(env, *r) {
            ERes::Val { v, env: env1 } => {
                if op.token_type == TokenType::Minus {
                    match v {
                        LitV::Number(b) => ERes::Val { v: LitV::Number(neg_bits(b)), env: env1 },
                        _ => ERes::Throw {
                            err: RtErrV::UnaryMinusOnNonNumber,
                            loc: op.loc,
                            env: env1,
                        },
                    }
                } else if op.token_type == TokenType::Bang {
                    ERes::Val { v: LitV::Boolean(!truthy(v)), env: env1 }
                } else {
                    ERes::Throw {
                        err: RtErrV::UnexpectedUnaryOperator(op.token_type),
                        loc: op.loc,
                        env: env1,
                    }
                }
            },
            ERes::Throw { err, loc, env: env1 } => ERes::Throw { err, loc, env: env1 },
        },
        ExprV::Logical(l, op, r) => match eval_expr(env, *l) {
            ERes::Val { v, env: env1 } => {
                if op.token_type == TokenType::Or {
                    if truthy(v) {
                        ERes::Val { v, env: env1 }
                    } else {
                        eval_expr(env1, *r)
                    }
                } else {
                    if !truthy(v) {
                        ERes::Val { v, env: env1 }
                    } else {
                        eval_expr(env1, *r)
                    }
                }
            },
            ERes::Throw { err, loc, env: env1 } => ERes::Throw { err, loc, env: env1 },
        },
        ExprV::Binary(l, op, r) => match eval_expr(env, *l) {
            ERes::Val { v: lv, env: env1 } => match eval_expr(env1, *r) {
                ERes::Val { v: rv, env: env2 } => eval_binary(op, lv, rv, env2),
                ERes::Throw { err, loc, env: env2 } => ERes::Throw { err, loc, env: env2 },
            },
            ERes::Throw { err, loc, env: env1 } => ERes::Throw { err, loc, env: env1 },
        },
    }
}

/// The result of a binary operator on two evaluated operands.
pub open spec fn eval_binary(op: TokenV, lv: LitV, rv: LitV, env: EnvModel) -> ERes {
    let ty = op.token_type;
    if ty == TokenType::EqualEqual {
        ERes::Val { v: LitV::Boolean(lit_eq(lv, rv)), env }
    } else if ty == TokenType::BangEqual {
        ERes::Val { v: LitV::Boolean(!lit_eq(lv, rv)), env }
    } else if ty == TokenType::Plus || ty == TokenType::Minus || ty == TokenType::Star || ty
        == TokenType::Slash || ty == TokenType::Greater || ty == TokenType::GreaterEqual || ty
        == TokenType::Less || ty == TokenType::LessEqual {
        match (lv, rv) {
            (LitV::Number(a), LitV::Number(b)) => {
                if ty == TokenType::Plus {
                    ERes::Val { v: LitV::Number(add_bits(a, b)), env }
                } else if ty == TokenType::Minus {
                    ERes::Val { v: LitV::Number(sub_bits(a, b)), env }
                } else if ty == TokenType::Star {
                    ERes::Val { v: LitV::Number(mul_bits(a, b)), env }
                } else if ty == TokenType::Slash {
                    ERes::Val { v: LitV::Number(div_bits(a, b)), env }
                } else if ty == TokenType::Greater {
                    ERes::Val { v: LitV::Boolean(gt_bits(a, b)), env }
                } else if ty == TokenType::GreaterEqual {
                    ERes::Val { v: LitV::Boolean(ge_bits(a, b)), env }
                } else if ty == TokenType::Less {
                    ERes::Val { v: LitV::Boolean(lt_bits(a, b)), env }
                } else {
                    ERes::Val { v: LitV::Boolean(le_bits(a, b)), env }
                }
            },
            _ => ERes::Throw { err: RtErrV::InvalidExpression, loc: op.loc, env },
        }
    } else {
        ERes::Throw { err: RtErrV::UnexpectedBinaryOperator(ty), loc: op.loc, env }
    }
}

/// The whole evaluator state: the environment, the lines written so far, and
/// whether a `break` is pending.
#[verifier::ext_equal]
pub struct StateV {
    pub env: EnvModel,
    pub out: Seq<Seq<char>>,
    pub brk: bool,
}

/// What a statement evaluation yields: completion with the remaining loop
/// budget, a runtime error, or an exhausted loop budget; each with the state
/// as evaluation left it.
pub enum SRes {
    Done { st: StateV, fuel: nat },
    Throw { err: RtErrV, loc: LocationInfo, st: StateV },
    Spent { st: StateV },
}

/// The meaning of one statement, with a loop budget: an expression statement
/// evaluates for effect (and echoes the value when `dbg` is set); `print`
/// writes the canonical text of the value; a declaration binds in the
/// innermost scope; a block runs its statements in a fresh scope, stopping at
/// an error or a pending break, and always leaves the scope again; `if`
/// picks a branch by truthiness; `while` re-evaluates its condition before
/// each round, spends one unit of budget per round, and clears the break
/// flag when it leaves; `break` sets the break flag.
pub open spec fn eval_stmt(fuel: nat, st: StateV, s: StmtV, dbg: bool) -> SRes
    decreases fuel, s, 2int,
{
    match s {
        StmtV::Expr(e) => match eval_expr(st.env, e) {
            ERes::Val { v, env } => {
                let out2 = if dbg {
                    st.out.push(lit_text(v))
                } else {
                    st.out
                };
                SRes::Done { st: StateV { env, out: out2, brk: st.brk }, fuel }
            },
            ERes::Throw { err, loc, env } => SRes::Throw {
                err,
                loc,
                st: StateV { env, out: st.out, brk: st.brk },
            },
        },
        StmtV::Print(e) => match eval_expr(st.env, e) {
            ERes::Val { v, env } => SRes::Done {
                st: StateV { env, out: st.out.push(lit_text(v)), brk: st.brk },
                fuel,
            },
            ERes::Throw { err, loc, env } => SRes::Throw {
                err,
                loc,
                st: StateV { env, out: st.out, brk: st.brk },
            },
        },
        StmtV::Var(t, init) => {
            let vres = match init {
                Option::Some(e) => eval_expr(st.env, e),
                Option::None => ERes::Val { v: LitV::Nil, env: st.env },
            };
            match vres {
                ERes::Val { v, env } => SRes::Done {
                    st: StateV {
                        env: env_define(env, t.lexeme, v),
                        out: st.out,
                        brk: st.brk,
                    },
                    fuel,
                },
                ERes::Throw { err, loc, env } => SRes::Throw {
                    err,
                    loc,
                    st: StateV { env, out: st.out, brk: st.brk },
                },
            }
        },
        StmtV::Break => SRes::Done {
            st: StateV { env: st.env, out: st.out, brk: true },
            fuel,
        },
        StmtV::If(c, th, el) => match eval_expr(st.env, c) {
            ERes::Val { v, env } => {
                let st1 = StateV { env, out: st.out, brk: st.brk };
                if truthy(v) {
                    eval_stmt(fuel, st1, *th, dbg)
                } else {
                    match el {
                        Option::Some(e) => eval_stmt(fuel, st1, *e, dbg),
                        Option::None => SRes::Done { st: st1, fuel },
                    }
                }
            },
            ERes::Throw { err, loc, env } => SRes::Throw {
                err,
                loc,
                st: StateV { env, out: st.out, brk: st.brk },
            },
        },
        StmtV::While(c, b) => match eval_expr(st.env, c) {
            ERes::Val { v, env } => eval_while_tail(
                fuel,
                v,
                StateV { env, out: st.out, brk: st.brk },
                s,
                dbg,
            ),
            ERes::Throw { err, loc, env } => SRes::Throw {
                err,
                loc,
                st: StateV { env, out: st.out, brk: st.brk },
            },
        },
        StmtV::Block(ss) => {
            let entered = StateV { env: st.env.push(Map::empty()), out: st.out, brk: st.brk };
            match eval_block(fuel, entered, ss, 0, dbg) {
                SRes::Done { st: st2, fuel: f2 } => SRes::Done {
                    st: StateV { env: st2.env.drop_last(), out: st2.out, brk: st2.brk },
                    fuel: f2,
                },
                SRes::Throw { err, loc, st: st2 } => SRes::Throw {
                    err,
                    loc,
                    st: StateV { env: st2.env.drop_last(), out: st2.out, brk: st2.brk },
                },
                SRes::Spent { st: st2 } => SRes::Spent {
                    st: StateV { env: st2.env.drop_last(), out: st2.out, brk: st2.brk },
                },
            }
        },
    }
}

/// The rest of a `while` whose condition has just evaluated to `v` in state
/// `st`: if it is true and no break is pending, the body runs, one unit of
/// budget goes, and the loop comes back to its condition; otherwise the loop
/// is over and the break flag clears.
pub open spec fn eval_while_tail(fuel: nat, v: LitV, st: StateV, w: StmtV, dbg: bool) -> SRes
    decreases fuel, w, 1int,
{
    match w {
        StmtV::While(c, b) => {
            if truthy(v) && !st.brk {
                match eval_stmt(fuel, st, *b, dbg) {
                    SRes::Done { st: st2, fuel: f2 } => if f2 == 0 {
                        SRes::Spent { st: st2 }
                    } else if f2 <= fuel {
                        match eval_expr(st2.env, c) {
                            ERes::Val { v: v2, env } => eval_while_tail(
                                (f2 - 1) as nat,
                                v2,
                                StateV { env, out: st2.out, brk: st2.brk },
                                w,
                                dbg,
                            ),
                            ERes::Throw { err, loc, env } => SRes::Throw {
                                err,
                                loc,
                                st: StateV { env, out: st2.out, brk: st2.brk },
                            },
                        }
                    } else {
                        SRes::Spent { st: st2 }
                    },
                    SRes::Throw { err, loc, st: st2 } => SRes::Throw { err, loc, st: st2 },
                    SRes::Spent { st: st2 } => SRes::Spent { st: st2 },
                }
            } else {
                SRes::Done { st: StateV { env: st.env, out: st.out, brk: false }, fuel }
            }
        },
        _ => SRes::Done { st, fuel },
    }
}

/// The statements of a block from index `i` on: stop at the end, at an
/// error, or once a break is pending.
pub open spec fn eval_block(fuel: nat, st: StateV, ss: Seq<StmtV>, i: int, dbg: bool) -> SRes
    decreases fuel, ss, ss.len() - i,
{
    if i < 0 || i >= ss.len() || st.brk {
        SRes::Done { st, fuel }
    } else {
        match eval_stmt(fuel, st, ss[i], dbg) {
            SRes::Done { st: st2, fuel: f2 } => if f2 <= fuel {
                eval_block(f2, st2, ss, i + 1, dbg)
            } else {
                SRes::Spent { st: st2 }
            },
            SRes::Throw { err, loc, st: st2 } => SRes::Throw { err, loc, st: st2 },
            SRes::Spent { st: st2 } => SRes::Spent { st: st2 },
        }
    }
}

/// The statements of a program from index `i` on: stop at the end or at an
/// error; unlike a block, a pending break does not stop the sequence.
pub open spec fn eval_program(fuel: nat, st: StateV, ss: Seq<StmtV>, i: int, dbg: bool) -> SRes
    decreases fuel, ss, ss.len() - i,
{
    if i < 0 || i >= ss.len() {
        SRes::Done { st, fuel }
    } else {
        match eval_stmt(fuel, st, ss[i], dbg) {
            SRes::Done { st: st2, fuel: f2 } => if f2 <= fuel {
                eval_program(f2, st2, ss, i + 1, dbg)
            } else {
                SRes::Spent { st: st2 }
            },
            SRes::Throw { err, loc, st: st2 } => SRes::Throw { err, loc, st: st2 },
            SRes::Spent { st: st2 } => SRes::Spent { st: st2 },
        }
    }
}

/// The lines behind a vector of character vectors.
pub open spec fn out_view(o: Seq<Vec<char>>) -> Seq<Seq<char>> {
    o.map(|i: int, v: Vec<char>| v@)
}

/// Tree-walking interpreter: owns the environment, the output lines and the
/// break flag. In debug mode (the interactive prompt) expression statements
/// echo their value.
pub struct Interpreter {
    pub env: Environment,
    pub out: Vec<Vec<char>>,
    pub break_encountered: bool,
    pub debug: bool,
}

impl Interpreter {
    /// The state of the evaluator, as the semantics sees it.
    pub open spec fn state(&self) -> StateV {
        StateV { env: self.env@, out: out_view(self.out@), brk: self.break_encountered }
    }

    pub open spec fn wf(&self) -> bool {
        self.env.wf()
    }

    /// A fresh interpreter: empty global scope, no output, not in debug mode.
    pub fn new() -> (r: Interpreter)
        ensures
            r.wf(),
            r.state() =~= (StateV {
                env: seq![Map::empty()],
                out: Seq::empty(),
                brk: false,
            }),
            r.debug == false,
    {
        let r = Interpreter {
            env: Environment::new(),
            out: Vec::new(),
            break_encountered: false,
            debug: false,
        };
        proof {
            assert(out_view(r.out@) =~= Seq::<Seq<char>>::empty());
        }
        r
    }

    /// Switches debug mode, in which expression statements echo their value.
    pub fn debug(&mut self, mode: bool)
        ensures
            final(self).env == old(self).env,
            final(self).out == old(self).out,
            final(self).break_encountered == old(self).break_encountered,
            final(self).debug == mode,
    {
        self.debug = mode;
    }

    /// Evaluates one expression, exactly as `eval_expr` says. Output and the
    /// break flag are untouched; the environment changes as assignments in
    /// the expression demand.
    fn evaluate_expression(&mut self, expr: &Expression) -> (r: Result<Literal, RuntimeError>)
        requires
            old(self).wf(),
        ensures
            final(self).wf(),
            final(self).out == old(self).out,
            final(self).break_encountered == old(self).break_encountered,
            final(self).debug == old(self).debug,
            final(self).env@.len() == old(self).env@.len(),
            match r {
                Ok(v) => eval_expr(old(self).env@, expr@) == (ERes::Val {
                    v: v@,
                    env: final(self).env@,
                }),
                Err(e) => eval_expr(old(self).env@, expr@) == (ERes::Throw {
                    err: e.cause@,
                    loc: e.location,
                    env: final(self).env@,
                }) && !(e.cause is LoopLimitReached),
            },
        decreases expr,
    {
        match expr {
            Expression::Literal(l) => Ok(l.dup()),
            Expression::Variable(t) => match self.env.get(&t.lexeme) {
                Ok(v) => Ok(v),
                Err(e) => Err(RuntimeError { cause: e.cause, location: t.loc }),
            },
            Expression::Assignment(t, e1) => {
                let v = match self.evaluate_expression(e1) {
                    Ok(v) => v,
                    Err(e) => {
                        return Err(e);
                    },
                };
                let ghost env1 = self.env@;
                match self.env.assign(&t.lexeme, v.dup()) {
                    Ok(_) => {
                        proof {
                            lemma_env_assign_len(env1, t.lexeme@, v@);
                        }
                        Ok(v)
                    },
                    Err(e) => Err(RuntimeError { cause: e.cause, location: t.loc }),
                }
            },
            Expression::Group(g) => self.evaluate_expression(g),
            Expression::Unary(op, r0) => {
                let v = match self.evaluate_expression(r0) {
                    Ok(v) => v,
                    Err(e) => {
                        return Err(e);
                    },
                };
                if op.token_type == TokenType::Minus {
                    match v {
                        Literal::Number(b) => Ok(Literal::Number(num_neg(b))),
                        _ => Err(
                            RuntimeError {
                                cause: RuntimeErrorKind::UnaryMinusOnNonNumber,
                                location: op.loc,
                            },
                        ),
                    }
                } else if op.token_type == TokenType::Bang {
                    Ok(Literal::Boolean(!v.is_truthy()))
                } else {
                    Err(
                        RuntimeError {
                            cause: RuntimeErrorKind::UnexpectedUnaryOperator(op.token_type),
                            location: op.loc,
                        },
                    )
                }
            },
            Expression::Logical(l, op, r0) => {
                let lv = match self.evaluate_expression(l) {
                    Ok(v) => v,
                    Err(e) => {
                        return Err(e);
                    },
                };
                if op.token_type == TokenType::Or {
                    if lv.is_truthy() {
                        return Ok(lv);
                    }
                } else {
                    if !lv.is_truthy() {
                        return Ok(lv);
                    }
                }
                self.evaluate_expression(r0)
            },
            Expression::Binary(l, op, r0) => {
                let lv = match self.evaluate_expression(l) {
                    Ok(v) => v,
                    Err(e) => {
                        return Err(e);
                    },
                };
                let rv = match self.evaluate_expression(r0) {
                    Ok(v) => v,
                    Err(e) => {
                        return Err(e);
                    },
                };
                apply_binary(op, lv, rv)
            },
        }
    }
}

/// Applies one binary operator to two evaluated operands, exactly as
/// `eval_binary` says.
fn apply_binary(op: &Token, lv: Literal, rv: Literal) -> (r: Result<Literal, RuntimeError>)
    ensures
        match r {
            Ok(v) => forall|env: EnvModel|
                eval_binary(op@, lv@, rv@, env) == (ERes::Val { v: v@, env }),
            Err(e) => forall|env: EnvModel|
                eval_binary(op@, lv@, rv@, env) == (ERes::Throw {
                    err: e.cause@,
                    loc: e.location,
                    env,
                }),
        },
{
    let ty = op.token_type;
    if ty == TokenType::EqualEqual {
        Ok(Literal::Boolean(lv.equals(&rv)))
    } else if ty == TokenType::BangEqual {
        Ok(Literal::Boolean(!lv.equals(&rv)))
    } else if ty == TokenType::Plus || ty == TokenType::Minus || ty == TokenType::Star || ty
        == TokenType::Slash || ty == TokenType::Greater || ty == TokenType::GreaterEqual || ty
        == TokenType::Less || ty == TokenType::LessEqual {
        match (lv, rv) {
            (Literal::Number(a), Literal::Number(b)) => {
                if ty == TokenType::Plus {
                    Ok(Literal::Number(num_add(a, b)))
                } else if ty == TokenType::Minus {
                    Ok(Literal::Number(num_sub(a, b)))
                } else if ty == TokenType::Star {
                    Ok(Literal::Number(num_mul(a, b)))
                } else if ty == TokenType::Slash {
                    Ok(Literal::Number(num_div(a, b)))
                } else if ty == TokenType::Greater {
                    Ok(Literal::Boolean(num_gt(a, b)))
                } else if ty == TokenType::GreaterEqual {
                    Ok(Literal::Boolean(num_ge(a, b)))
                } else if ty == TokenType::Less {
                    Ok(Literal::Boolean(num_lt(a, b)))
                } else {
                    Ok(Literal::Boolean(num_le(a, b)))
                }
            },
            _ => Err(
                RuntimeError { cause: RuntimeErrorKind::InvalidExpression, location: op.loc },
            ),
        }
    } else {
        Err(
            RuntimeError {
                cause: RuntimeErrorKind::UnexpectedBinaryOperator(ty),
                location: op.loc,
            },
        )
    }
}

} // verus!

verus! {

impl Interpreter {
    /// Evaluates one statement, exactly as `eval_stmt` says, spending loop
    /// budget from `fuel`. An exhausted budget reports `LoopLimitReached`.
    #[verifier::rlimit(100)]
    fn evaluate_statement(&mut self, stmt: &Statement, fuel: u64) -> (r: (
        Result<(), RuntimeError>,
        u64,
    ))
        requires
            old(self).wf(),
        ensures
            final(self).wf(),
            final(self).debug == old(self).debug,
            final(self).env@.len() == old(self).env@.len(),
            r.1 <= fuel,
            match r.0 {
                Ok(()) => eval_stmt(fuel as nat, old(self).state(), stmt@, old(self).debug)
                    == (SRes::Done { st: final(self).state(), fuel: r.1 as nat }),
                Err(e) => (match e.cause {
                    RuntimeErrorKind::LoopLimitReached => eval_stmt(
                        fuel as nat,
                        old(self).state(),
                        stmt@,
                        old(self).debug,
                    ) == (SRes::Spent { st: final(self).state() }),
                    _ => eval_stmt(fuel as nat, old(self).state(), stmt@, old(self).debug)
                        == (SRes::Throw {
                        err: e.cause@,
                        loc: e.location,
                        st: final(self).state(),
                    }),
                }),
            },
        decreases fuel, stmt, 0int,
    {
        proof {
            crate::environment::lemma_wf_depth(&self.env);
        }
        match stmt {
            Statement::Expr(e) => {
                let v = match self.evaluate_expression(e) {
                    Ok(v) => v,
                    Err(er) => {
                        return (Err(er), fuel);
                    },
                };
                if self.debug {
                    let ghost pre_out = out_view(self.out@);
                    self.out.push(v.to_text());
                    proof {
                        assert(out_view(self.out@) =~= pre_out.push(lit_text(v@)));
                        assert(self.state() =~= (StateV {
                            env: self.env@,
                            out: out_view(old(self).out@).push(lit_text(v@)),
                            brk: old(self).break_encountered,
                        }));
                    }
                }
                (Ok(()), fuel)
            },
            Statement::Print(e) => {
                let v = match self.evaluate_expression(e) {
                    Ok(v) => v,
                    Err(er) => {
                        return (Err(er), fuel);
                    },
                };
                let ghost pre_out = out_view(self.out@);
                self.out.push(v.to_text());
                proof {
                    assert(out_view(self.out@) =~= pre_out.push(lit_text(v@)));
                }
                (Ok(()), fuel)
            },
            Statement::Var(t, init) => {
                let v = match init {
                    Option::Some(e) => match self.evaluate_expression(e) {
                        Ok(v) => v,
                        Err(er) => {
                            return (Err(er), fuel);
                        },
                    },
                    Option::None => Literal::Nil,
                };
                match self.env.define(crate::token::clone_chars(&t.lexeme), v) {
                    Ok(_) => (Ok(()), fuel),
                    Err(er) => (Err(er), fuel),
                }
            },
            Statement::Break => {
                self.break_encountered = true;
                (Ok(()), fuel)
            },
            Statement::If(c, th, el) => {
                let v = match self.evaluate_expression(c) {
                    Ok(v) => v,
                    Err(er) => {
                        return (Err(er), fuel);
                    },
                };
                if v.is_truthy() {
                    self.evaluate_statement(th, fuel)
                } else {
                    match el {
                        Option::Some(e) => self.evaluate_statement(e, fuel),
                        Option::None => (Ok(()), fuel),
                    }
                }
            },
            Statement::While(c, b) => {
                let ghost st0 = self.state();
                let ghost w = stmt@;
                let ghost dbg = self.debug;
                let mut left = fuel;
                let mut literal = match self.evaluate_expression(c) {
                    Ok(v) => v,
                    Err(er) => {
                        return (Err(er), fuel);
                    },
                };
                while literal.is_truthy() && !self.break_encountered
                    invariant
                        self.wf(),
                        self.debug == dbg,
                        dbg == old(self).debug,
                        st0 == old(self).state(),
                        self.env@.len() == old(self).env@.len(),
                        left <= fuel,
                        *stmt == Statement::While(*c, *b),
                        w == stmt@,
                        w matches StmtV::While(_, _),
                        eval_stmt(fuel as nat, st0, w, dbg) == eval_while_tail(
                            left as nat,
                            literal@,
                            self.state(),
                            w,
                            dbg,
                        ),
                    decreases left,
                {
                    let (res, f1) = self.evaluate_statement(b, left);
                    match res {
                        Ok(()) => {},
                        Err(er) => {
                            return (Err(er), f1);
                        },
                    }
                    if f1 == 0 {
                        return (
                            Err(
                                RuntimeError {
                                    cause: RuntimeErrorKind::LoopLimitReached,
                                    location: LocationInfo { column: 0, line: 0, len: 0 },
                                },
                            ),
                            f1,
                        );
                    }
                    left = f1 - 1;
                    literal = match self.evaluate_expression(c) {
                        Ok(v) => v,
                        Err(er) => {
                            return (Err(er), left);
                        },
                    };
                }
                self.break_encountered = false;
                (Ok(()), left)
            },
            Statement::Block(ss) => {
                let ghost dbg = self.debug;
                let ghost ssv = match stmt@ {
                    StmtV::Block(x) => x,
                    _ => Seq::empty(),
                };
                self.env.push_scope();
                let ghost entered = self.state();
                proof {
                    assert(entered =~= (StateV {
                        env: old(self).state().env.push(Map::empty()),
                        out: old(self).state().out,
                        brk: old(self).state().brk,
                    }));
                }
                proof {
                    crate::environment::lemma_wf_depth(&old(self).env);
                }
                let mut left = fuel;
                let mut i: usize = 0;
                while i < ss.len() && !self.break_encountered
                    invariant
                        self.wf(),
                        self.debug == dbg,
                        dbg == old(self).debug,
                        stmt@ == StmtV::Block(ssv),
                        entered == (StateV {
                            env: old(self).state().env.push(Map::empty()),
                            out: old(self).state().out,
                            brk: old(self).state().brk,
                        }),
                        self.env@.len() == old(self).env@.len() + 1,
                        old(self).env@.len() >= 1,
                        left <= fuel,
                        *stmt == Statement::Block(*ss),
                        i <= ss@.len(),
                        ssv.len() == ss@.len(),
                        forall|k: int| 0 <= k < ss@.len() ==> ssv[k] == ss@[k]@,
                        eval_block(fuel as nat, entered, ssv, 0, dbg) == eval_block(
                            left as nat,
                            self.state(),
                            ssv,
                            i as int,
                            dbg,
                        ),
                    decreases ss@.len() - i,
                {
                    let (res, f1) = self.evaluate_statement(&ss[i], left);
                    left = f1;
                    match res {
                        Ok(()) => {},
                        Err(er) => {
                            self.env.pop_scope();
                            return (Err(er), left);
                        },
                    }
                    i += 1;
                }
                let ghost exited = self.state();
                self.env.pop_scope();
                proof {
                    assert(self.state() =~= (StateV {
                        env: exited.env.drop_last(),
                        out: exited.out,
                        brk: exited.brk,
                    }));
                }
                (Ok(()), left)
            },
        }
    }

    /// Runs a sequence of statements in order, exactly as `eval_program`
    /// says, with a loop budget of `u64::MAX` for the whole run. The first
    /// runtime error aborts the rest; environment and output keep whatever
    /// the run reached.
    #[verifier::rlimit(100)]
    pub fn interpret(&mut self, stmts: Vec<Statement>) -> (r: Result<(), RuntimeError>)
        requires
            old(self).wf(),
        ensures
            final(self).wf(),
            final(self).debug == old(self).debug,
            match r {
                Ok(()) => exists|f2: nat|
                    eval_program(
                        u64::MAX as nat,
                        old(self).state(),
                        stmts_view(stmts@),
                        0,
                        old(self).debug,
                    ) == (SRes::Done { st: final(self).state(), fuel: f2 }),
                Err(e) => (match e.cause {
                    RuntimeErrorKind::LoopLimitReached => eval_program(
                        u64::MAX as nat,
                        old(self).state(),
                        stmts_view(stmts@),
                        0,
                        old(self).debug,
                    ) == (SRes::Spent { st: final(self).state() }),
                    _ => eval_program(
                        u64::MAX as nat,
                        old(self).state(),
                        stmts_view(stmts@),
                        0,
                        old(self).debug,
                    ) == (SRes::Throw {
                        err: e.cause@,
                        loc: e.location,
                        st: final(self).state(),
                    }),
                }),
            },
    {
        let mut fuel: u64 = u64::MAX;
        let ghost f0: nat = u64::MAX as nat;
        let ghost st0 = self.state();
        let ghost ssv = stmts_view(stmts@);
        let ghost dbg = self.debug;
        let mut i: usize = 0;
        while i < stmts.len()
            invariant
                self.wf(),
                self.debug == dbg,
                dbg == old(self).debug,
                fuel as nat <= f0,
                f0 == u64::MAX as nat,
                i <= stmts@.len(),
                ssv == stmts_view(stmts@),
                st0 == old(self).state(),
                eval_program(f0, st0, ssv, 0, dbg) == eval_program(
                    fuel as nat,
                    self.state(),
                    ssv,
                    i as int,
                    dbg,
                ),
            decreases stmts@.len() - i,
        {
            let (res, f1) = self.evaluate_statement(&stmts[i], fuel);
            fuel = f1;
            match res {
                Ok(()) => {},
                Err(er) => {
                    return Err(er);
                },
            }
            i += 1;
        }
        Ok(())
    }
}

} // verus!

verus! {

/// Evaluating an expression never changes how many scopes are on the stack:
/// assignment rewrites a binding in place, nothing else touches the
/// environment.
pub proof fn lemma_eval_expr_depth(env: EnvModel, e: ExprV)
    ensures
        match eval_expr(env, e) {
            ERes::Val { env: e2, .. } => e2.len() == env.len(),
            ERes::Throw { env: e2, .. } => e2.len() == env.len(),
        },
    decreases e,
{
    match e {
        ExprV::Literal(_) => {},
        ExprV::Variable(_) => {},
        ExprV::Assignment(t, e1) => {
            lemma_eval_expr_depth(env, *e1);
            match eval_expr(env, *e1) {
                ERes::Val { v, env: env1 } => {
                    lemma_env_assign_len(env1, t.lexeme, v);
                },
                ERes::Throw { .. } => {},
            }
        },
        ExprV::Group(g) => {
            lemma_eval_expr_depth(env, *g);
        },
        ExprV::Unary(_, r) => {
            lemma_eval_expr_depth(env, *r);
        },
        ExprV::Logical(l, _, r) => {
            lemma_eval_expr_depth(env, *l);
            match eval_expr(env, *l) {
                ERes::Val { env: env1, .. } => {
                    lemma_eval_expr_depth(env1, *r);
                },
                ERes::Throw { .. } => {},
            }
        },
        ExprV::Binary(l, _, r) => {
            lemma_eval_expr_depth(env, *l);
            match eval_expr(env, *l) {
                ERes::Val { env: env1, .. } => {
                    lemma_eval_expr_depth(env1, *r);
                },
                ERes::Throw { .. } => {},
            }
        },
    }
}

/// Statement evaluation leaves the scope stack exactly as deep as it found
/// it, on every outcome: each scope a block pushes is popped again on every
/// way out, so nothing outside the pushed scope is added or removed.
pub proof fn lemma_eval_stmt_depth(fuel: nat, st: StateV, s: StmtV, dbg: bool)
    requires
        st.env.len() >= 1,
    ensures
        match eval_stmt(fuel, st, s, dbg) {
            SRes::Done { st: st2, .. } => st2.env.len() == st.env.len(),
            SRes::Throw { st: st2, .. } => st2.env.len() == st.env.len(),
            SRes::Spent { st: st2 } => st2.env.len() == st.env.len(),
        },
    decreases fuel, s, 2int,
{
    match s {
        StmtV::Expr(e) => {
            lemma_eval_expr_depth(st.env, e);
        },
        StmtV::Print(e) => {
            lemma_eval_expr_depth(st.env, e);
        },
        StmtV::Var(_, init) => {
            match init {
                Option::Some(e) => {
                    lemma_eval_expr_depth(st.env, e);
                },
                Option::None => {},
            }
        },
        StmtV::Break => {},
        StmtV::If(c, th, el) => {
            lemma_eval_expr_depth(st.env, c);
            match eval_expr(st.env, c) {
                ERes::Val { v, env } => {
                    let st1 = StateV { env, out: st.out, brk: st.brk };
                    if truthy(v) {
                        lemma_eval_stmt_depth(fuel, st1, *th, dbg);
                    } else {
                        match el {
                            Option::Some(e) => {
                                lemma_eval_stmt_depth(fuel, st1, *e, dbg);
                            },
                            Option::None => {},
                        }
                    }
                },
                ERes::Throw { .. } => {},
            }
        },
        StmtV::While(c, _) => {
            lemma_eval_expr_depth(st.env, c);
            match eval_expr(st.env, c) {
                ERes::Val { v, env } => {
                    lemma_eval_while_tail_depth(
                        fuel,
                        v,
                        StateV { env, out: st.out, brk: st.brk },
                        s,
                        dbg,
                    );
                },
                ERes::Throw { .. } => {},
            }
        },
        StmtV::Block(ss) => {
            let entered = StateV { env: st.env.push(Map::empty()), out: st.out, brk: st.brk };
            lemma_eval_block_depth(fuel, entered, ss, 0, dbg);
        },
    }
}

/// Depth preservation for the rest of a `while` whose condition has just
/// been evaluated.
pub proof fn lemma_eval_while_tail_depth(fuel: nat, v: LitV, st: StateV, w: StmtV, dbg: bool)
    requires
        st.env.len() >= 1,
    ensures
        match eval_while_tail(fuel, v, st, w, dbg) {
            SRes::Done { st: st2, .. } => st2.env.len() == st.env.len(),
            SRes::Throw { st: st2, .. } => st2.env.len() == st.env.len(),
            SRes::Spent { st: st2 } => st2.env.len() == st.env.len(),
        },
    decreases fuel, w, 1int,
{
    match w {
        StmtV::While(c, b) => {
            if truthy(v) && !st.brk {
                lemma_eval_stmt_depth(fuel, st, *b, dbg);
                match eval_stmt(fuel, st, *b, dbg) {
                    SRes::Done { st: st2, fuel: f2 } => {
                        if f2 == 0 {
                        } else if f2 <= fuel {
                            lemma_eval_expr_depth(st2.env, c);
                            match eval_expr(st2.env, c) {
                                ERes::Val { v: v2, env } => {
                                    lemma_eval_while_tail_depth(
                                        (f2 - 1) as nat,
                                        v2,
                                        StateV { env, out: st2.out, brk: st2.brk },
                                        w,
                                        dbg,
                                    );
                                },
                                ERes::Throw { .. } => {},
                            }
                        }
                    },
                    SRes::Throw { .. } => {},
                    SRes::Spent { .. } => {},
                }
            }
        },
        _ => {},
    }
}

/// Depth preservation for the statements of a block from index `i` on.
pub proof fn lemma_eval_block_depth(fuel: nat, st: StateV, ss: Seq<StmtV>, i: int, dbg: bool)
    requires
        st.env.len() >= 1,
    ensures
        match eval_block(fuel, st, ss, i, dbg) {
            SRes::Done { st: st2, .. } => st2.env.len() == st.env.len(),
            SRes::Throw { st: st2, .. } => st2.env.len() == st.env.len(),
            SRes::Spent { st: st2 } => st2.env.len() == st.env.len(),
        },
    decreases fuel, ss, ss.len() - i,
{
    if i < 0 || i >= ss.len() || st.brk {
    } else {
        lemma_eval_stmt_depth(fuel, st, ss[i], dbg);
        match eval_stmt(fuel, st, ss[i], dbg) {
            SRes::Done { st: st2, fuel: f2 } => {
                if f2 <= fuel {
                    lemma_eval_block_depth(f2, st2, ss, i + 1, dbg);
                }
            },
            SRes::Throw { .. } => {},
            SRes::Spent { .. } => {},
        }
    }
}

} // verus!
