//! Lowering of functions to the steps that build their machine code.
//!
//! Each step is one request to an instruction builder.  Values, stack slots,
//! basic blocks and functions are named by number, in the order in which the
//! steps make them.  Besides the steps, lowering keeps what the builder would
//! be asked about: the type of each value and whether it is a constant (an
//! operation on constants only is folded into a constant and inserts no
//! instruction), the local variables, the functions of the module, and
//! whether the current block already ends in a terminator.

use vstd::prelude::*;
use crate::ast::{BlockOrSemi, CompilationUnit, ElseBranch, Expression, FnDecl, IfExpr, LValue, Literal, Param, Pattern, Statement, TopLevelDecl};
use crate::machine::{MachineType, declared_return, emitted_return, fn_shape, machine_type, map_type, passed_as};
use crate::scope::{Ty, names_of, ty_of_type_ref};
use crate::text::{ascii_digit, chars_of, string_of};

verus! {

/// An integer operation on two operands.
#[derive(Debug, Clone, Copy, PartialEq, Eq, Structural)]
pub enum IntOp {
    Add,
    Sub,
    Mul,
}

/// What a basic block is for.
#[derive(Debug, Clone, Copy, PartialEq, Eq, Structural)]
pub enum BlockRole {
    WhileCond,
    WhileBody,
    WhileEnd,
    LoopBody,
    LoopEnd,
    IfThen,
    IfElse,
    IfEnd,
}

/// A value that lowering made: its number, its machine type, and whether it
/// is a constant.
#[derive(Debug, Clone, Copy, PartialEq, Eq, Structural)]
pub struct Val {
    pub id: usize,
    pub ty: MachineType,
    pub constant: bool,
}

/// One request to the instruction builder.
#[derive(Debug)]
pub enum Step {
    /// Adds the next function with this name, return type and parameter
    /// types, adds its entry block and moves there.
    Function { name: String, ret: MachineType, params: Vec<MachineType> },
    /// Gives parameter `index` the stack slot `slot` of type `ty`, named `name`,
    /// and stores the parameter there.
    Param { index: usize, slot: usize, ty: MachineType, name: String },
    /// The integer constant of type `ty` whose bits are `bits`.
    Int { dst: usize, ty: MachineType, bits: u64 },
    /// The 64-bit float constant written `text` (0 where it reads as none).
    Float { dst: usize, text: String },
    /// A pointer to a new global string `text`, named `strtmp`.
    Text { dst: usize, text: String },
    /// The null pointer.
    Null { dst: usize },
    /// Loads the value held in stack slot `slot`, naming it `name`.
    Load { dst: usize, slot: usize, name: String },
    /// Loads a 32-bit integer from the global named `strtmp`.
    LoadText { dst: usize },
    /// An integer operation.
    Arith { dst: usize, op: IntOp, lhs: usize, rhs: usize },
    /// The 32-bit integer zero minus `operand`.
    Neg { dst: usize, operand: usize },
    /// The float negation of `operand`.
    FNeg { dst: usize, operand: usize },
    /// The bitwise complement of `operand`.
    Not { dst: usize, operand: usize },
    /// Calls function `callee` with `args`; its result is `dst`.
    Call { dst: usize, callee: usize, args: Vec<usize> },
    /// Calls function `callee`, which gives no value, where a value is needed:
    /// code generation stops there.
    CallWithoutValue { callee: usize, args: Vec<usize> },
    /// A new stack slot of type `ty`.
    Alloca { slot: usize, ty: MachineType },
    /// Stores `value` in stack slot `slot`.
    Store { slot: usize, value: usize },
    /// Returns `value`, or nothing.
    Return { value: Option<usize> },
    /// Returns the integer zero of type `ty`.
    ReturnZero { ty: MachineType },
    /// Adds basic block `block` to the current function.
    Block { block: usize, role: BlockRole },
    /// Branches to `target`.
    Branch { target: usize },
    /// Branches on `cond` to `then_` or `else_`.
    CondBranch { cond: usize, then_: usize, else_: usize },
    /// Moves to the end of `block`.
    Position { block: usize },
}

/// A step, with text as characters.
pub enum StepModel {
    Function { name: Seq<char>, ret: MachineType, params: Seq<MachineType> },
    Param { index: nat, slot: nat, ty: MachineType, name: Seq<char> },
    Int { dst: nat, ty: MachineType, bits: u64 },
    Float { dst: nat, text: Seq<char> },
    Text { dst: nat, text: Seq<char> },
    Null { dst: nat },
    Load { dst: nat, slot: nat, name: Seq<char> },
    LoadText { dst: nat },
    Arith { dst: nat, op: IntOp, lhs: nat, rhs: nat },
    Neg { dst: nat, operand: nat },
    FNeg { dst: nat, operand: nat },
    Not { dst: nat, operand: nat },
    Call { dst: nat, callee: nat, args: Seq<nat> },
    CallWithoutValue { callee: nat, args: Seq<nat> },
    Alloca { slot: nat, ty: MachineType },
    Store { slot: nat, value: nat },
    Return { value: Option<nat> },
    ReturnZero { ty: MachineType },
    Block { block: nat, role: BlockRole },
    Branch { target: nat },
    CondBranch { cond: nat, then_: nat, else_: nat },
    Position { block: nat },
}

/// The numbers in `v`.
pub open spec fn ids_model(v: Seq<usize>) -> Seq<nat> {
    v.map_values(|x: usize| x as nat)
}

impl Step {
    pub open spec fn model(self) -> StepModel {
        match self {
            Step::Function { name, ret, params } => StepModel::Function { name: name@, ret, params: params@ },
            Step::Param { index, slot, ty, name } => StepModel::Param {
                index: index as nat,
                slot: slot as nat,
                ty,
                name: name@,
            },
            Step::Int { dst, ty, bits } => StepModel::Int { dst: dst as nat, ty, bits },
            Step::Float { dst, text } => StepModel::Float { dst: dst as nat, text: text@ },
            Step::Text { dst, text } => StepModel::Text { dst: dst as nat, text: text@ },
            Step::Null { dst } => StepModel::Null { dst: dst as nat },
            Step::Load { dst, slot, name } => StepModel::Load { dst: dst as nat, slot: slot as nat, name: name@ },
            Step::LoadText { dst } => StepModel::LoadText { dst: dst as nat },
            Step::Arith { dst, op, lhs, rhs } => StepModel::Arith {
                dst: dst as nat,
                op,
                lhs: lhs as nat,
                rhs: rhs as nat,
            },
            Step::Neg { dst, operand } => StepModel::Neg { dst: dst as nat, operand: operand as nat },
            Step::FNeg { dst, operand } => StepModel::FNeg { dst: dst as nat, operand: operand as nat },
            Step::Not { dst, operand } => StepModel::Not { dst: dst as nat, operand: operand as nat },
            Step::Call { dst, callee, args } => StepModel::Call {
                dst: dst as nat,
                callee: callee as nat,
                args: ids_model(args@),
            },
            Step::CallWithoutValue { callee, args } => StepModel::CallWithoutValue {
                callee: callee as nat,
                args: ids_model(args@),
            },
            Step::Alloca { slot, ty } => StepModel::Alloca { slot: slot as nat, ty },
            Step::Store { slot, value } => StepModel::Store { slot: slot as nat, value: value as nat },
            Step::Return { value } => StepModel::Return {
                value: match value {
                    Some(v) => Some(v as nat),
                    None => None,
                },
            },
            Step::ReturnZero { ty } => StepModel::ReturnZero { ty },
            Step::Block { block, role } => StepModel::Block { block: block as nat, role },
            Step::Branch { target } => StepModel::Branch { target: target as nat },
            Step::CondBranch { cond, then_, else_ } => StepModel::CondBranch {
                cond: cond as nat,
                then_: then_ as nat,
                else_: else_ as nat,
            },
            Step::Position { block } => StepModel::Position { block: block as nat },
        }
    }
}

/// The models of `s`, in order.
pub open spec fn steps_model(s: Seq<Step>) -> Seq<StepModel> {
    s.map_values(|x: Step| x.model())
}

/// A value as lowering describes it.
pub struct ValModel {
    pub id: nat,
    pub ty: MachineType,
    pub constant: bool,
}

impl Val {
    pub open spec fn model(self) -> ValModel {
        ValModel { id: self.id as nat, ty: self.ty, constant: self.constant }
    }
}

/// The model of a value that may be missing.
pub open spec fn val_model(v: Option<Val>) -> Option<ValModel> {
    match v {
        Some(x) => Some(x.model()),
        None => None,
    }
}

/// A local variable: its name, its stack slot and the type held there.
pub struct Local {
    pub name: String,
    pub slot: usize,
    pub ty: MachineType,
}

/// A local variable, with its name as characters.
pub struct LocalModel {
    pub name: Seq<char>,
    pub slot: nat,
    pub ty: MachineType,
}

impl Local {
    pub open spec fn model(self) -> LocalModel {
        LocalModel { name: self.name@, slot: self.slot as nat, ty: self.ty }
    }
}

/// A function of the module: its name and the type of what it returns.
pub struct Callee {
    pub name: String,
    pub ret: MachineType,
}

/// A function of the module, with its name as characters.
pub struct CalleeModel {
    pub name: Seq<char>,
    pub ret: MachineType,
}

impl Callee {
    pub open spec fn model(self) -> CalleeModel {
        CalleeModel { name: self.name@, ret: self.ret }
    }
}

/// The state of lowering.
pub struct LowerModel {
    /// The steps so far.
    pub steps: Seq<StepModel>,
    /// How many values, stack slots and blocks have been made.
    pub values: nat,
    pub slots: nat,
    pub blocks: nat,
    /// The local variables of the current function; a later one of a name
    /// hides an earlier one.
    pub locals: Seq<LocalModel>,
    /// The functions of the module, in the order they were added.
    pub functions: Seq<CalleeModel>,
    /// Whether a global string has been made.
    pub has_text: bool,
    /// Whether the current block ends in a terminator.
    pub terminated: bool,
}

/// Lowering in progress.
pub struct Lowering {
    pub steps: Vec<Step>,
    pub values: usize,
    pub slots: usize,
    pub blocks: usize,
    pub locals: Vec<Local>,
    pub functions: Vec<Callee>,
    pub has_text: bool,
    pub terminated: bool,
}

impl Lowering {
    pub open spec fn model(self) -> LowerModel {
        LowerModel {
            steps: steps_model(self.steps@),
            values: self.values as nat,
            slots: self.slots as nat,
            blocks: self.blocks as nat,
            locals: self.locals@.map_values(|l: Local| l.model()),
            functions: self.functions@.map_values(|c: Callee| c.model()),
            has_text: self.has_text,
            terminated: self.terminated,
        }
    }

    /// No more values, slots or blocks than steps.
    pub open spec fn wf(self) -> bool {
        &&& self.values <= self.steps@.len()
        &&& self.slots <= self.steps@.len()
        &&& self.blocks <= self.steps@.len()
    }
}

// ----------------------------------------------------------------------------
// Integer literals
// ----------------------------------------------------------------------------

/// The number that the decimal digits `d` spell.
pub open spec fn digits_value(d: Seq<char>) -> int
    decreases d.len(),
{
    if d.len() == 0 {
        0
    } else {
        digits_value(d.drop_last()) * 10 + (d.last() as int - '0' as int)
    }
}

/// Whether `d` is one or more decimal digits.
pub open spec fn all_digits(d: Seq<char>) -> bool {
    d.len() > 0 && forall|i: int| 0 <= i < d.len() ==> '0' <= #[trigger] d[i] <= '9'
}

/// The 64-bit integer that `s` reads as: an optional sign, then decimal
/// digits, within range; `None` for any other text.
pub open spec fn i64_of(s: Seq<char>) -> Option<int> {
    let neg = s.len() > 0 && s[0] == '-';
    let d = if s.len() > 0 && (s[0] == '-' || s[0] == '+') { s.drop_first() } else { s };
    let v = if neg { -digits_value(d) } else { digits_value(d) };
    if all_digits(d) && i64::MIN <= v <= i64::MAX {
        Some(v)
    } else {
        None
    }
}

/// The bits of an integer literal's constant: its value, 0 where it reads as
/// none.
pub open spec fn literal_bits(s: Seq<char>) -> u64 {
    match i64_of(s) {
        Some(v) => (v as i64) as u64,
        None => 0,
    }
}

proof fn lemma_digits_value_nonneg(d: Seq<char>)
    requires
        forall|i: int| 0 <= i < d.len() ==> '0' <= #[trigger] d[i] <= '9',
    ensures
        digits_value(d) >= 0,
        d.len() > 0 ==> digits_value(d) >= digits_value(d.drop_last()),
    decreases d.len(),
{
    if d.len() > 0 {
        lemma_digits_value_nonneg(d.drop_last());
    }
}

/// What `s` reads as, as a 64-bit integer.
pub fn parse_i64(s: &str) -> (r: Option<i64>)
    ensures
        match r {
            Some(v) => i64_of(s@) == Some(v as int),
            None => i64_of(s@) is None,
        },
{
    let chars = chars_of(s);
    let n = chars.len();
    let neg = n > 0 && chars[0] == '-';
    let start: usize = if n > 0 && (chars[0] == '-' || chars[0] == '+') { 1 } else { 0 };
    let ghost d = if s@.len() > 0 && (s@[0] == '-' || s@[0] == '+') { s@.drop_first() } else { s@ };
    proof {
        assert(d =~= s@.subrange(start as int, n as int));
    }
    if start == n {
        return None;
    }
    let limit: u128 = if neg { 9223372036854775808 } else { 9223372036854775807 };
    let mut acc: u128 = 0;
    let mut i = start;
    while i < n
        invariant
            chars@ == s@,
            n == chars@.len(),
            start <= i <= n,
            d == s@.subrange(start as int, n as int),
            d == (if s@.len() > 0 && (s@[0] == '-' || s@[0] == '+') { s@.drop_first() } else { s@ }),
            neg == (s@.len() > 0 && s@[0] == '-'),
            limit == (if neg { 9223372036854775808u128 } else { 9223372036854775807u128 }),
            forall|j: int| start <= j < i ==> '0' <= #[trigger] s@[j] <= '9',
            acc == digits_value(s@.subrange(start as int, i as int)),
            acc <= limit,
        decreases n - i,
    {
        let c = chars[i];
        if !ascii_digit(c) {
            proof {
                assert(d[i - start] == c);
            }
            return None;
        }
        proof {
            let t = s@.subrange(start as int, i + 1);
            assert(t.drop_last() =~= s@.subrange(start as int, i as int));
            assert(t.last() == c);
        }
        let digit = (c as u32 - '0' as u32) as u128;
        acc = acc * 10 + digit;
        i = i + 1;
        if acc > limit {
            proof {
                if all_digits(d) {
                    lemma_digits_grow(d, (i - start) as int);
                    assert(d.subrange(0, (i - start) as int) =~= s@.subrange(start as int, i as int));
                }
            }
            return None;
        }
    }
    proof {
        assert(s@.subrange(start as int, n as int) =~= d);
        assert forall|j: int| 0 <= j < d.len() implies '0' <= #[trigger] d[j] <= '9' by {
            assert(d[j] == s@[start + j]);
        }
    }
    if neg {
        Some((0 - acc as i128) as i64)
    } else {
        Some(acc as i64)
    }
}

/// The value of all digits is at least that of any prefix.
proof fn lemma_digits_grow(d: Seq<char>, k: int)
    requires
        all_digits(d),
        0 <= k <= d.len(),
    ensures
        digits_value(d) >= digits_value(d.subrange(0, k)),
    decreases d.len() - k,
{
    if k < d.len() {
        lemma_digits_grow(d, k + 1);
        let t = d.subrange(0, k + 1);
        assert(t.drop_last() =~= d.subrange(0, k));
        assert forall|i: int| 0 <= i < t.len() implies '0' <= #[trigger] t[i] <= '9' by {
            assert(t[i] == d[i]);
        }
        lemma_digits_value_nonneg(t);
    } else {
        assert(d.subrange(0, k) =~= d);
    }
}

// ----------------------------------------------------------------------------
// Expressions
// ----------------------------------------------------------------------------

/// The machine types of integer values: integers of each width and booleans.
pub open spec fn is_int_type(m: MachineType) -> bool {
    m == MachineType::I8 || m == MachineType::I32 || m == MachineType::I64 || m == MachineType::Bool
}

/// The machine types of float values.
pub open spec fn is_float_type(m: MachineType) -> bool {
    m == MachineType::F32 || m == MachineType::F64
}

/// `st` after step `s`, which makes the next value, of type `ty`; only a
/// value that is no constant is an instruction in the current block.
pub open spec fn with_value(st: LowerModel, s: StepModel, ty: MachineType, constant: bool) -> (LowerModel, Option<ValModel>) {
    (
        LowerModel {
            steps: st.steps.push(s),
            values: st.values + 1,
            terminated: st.terminated && constant,
            ..st
        },
        Some(ValModel { id: st.values, ty, constant }),
    )
}

/// `st` after the instruction `s`.
pub open spec fn with_instruction(st: LowerModel, s: StepModel) -> LowerModel {
    LowerModel { steps: st.steps.push(s), terminated: false, ..st }
}

/// `st` after the terminator `s`.
pub open spec fn with_terminator(st: LowerModel, s: StepModel) -> LowerModel {
    LowerModel { steps: st.steps.push(s), terminated: true, ..st }
}

/// The local variable named `name`: the last one so named.
pub open spec fn local_of(ls: Seq<LocalModel>, name: Seq<char>) -> Option<LocalModel>
    decreases ls.len(),
{
    if ls.len() == 0 {
        None
    } else if ls.last().name == name {
        Some(ls.last())
    } else {
        local_of(ls.drop_last(), name)
    }
}

/// The number of the first function named `name`, from `i` on.
pub open spec fn callee_from(fs: Seq<CalleeModel>, name: Seq<char>, i: int) -> Option<nat>
    decreases fs.len() - i,
{
    if i < 0 || i >= fs.len() {
        None
    } else if fs[i].name == name {
        Some(i as nat)
    } else {
        callee_from(fs, name, i + 1)
    }
}

/// A literal: integers and characters are 32-bit integers, booleans are
/// booleans, floats are 64-bit floats, strings are pointers to new globals.
pub open spec fn gen_literal(st: LowerModel, l: Literal) -> (LowerModel, Option<ValModel>) {
    let d = st.values;
    match l {
        Literal::Int(s) => with_value(st, StepModel::Int { dst: d, ty: MachineType::I32, bits: literal_bits(s@) }, MachineType::I32, true),
        Literal::Float(s) => with_value(st, StepModel::Float { dst: d, text: s@ }, MachineType::F64, true),
        Literal::Bool(b) => with_value(
            st,
            StepModel::Int { dst: d, ty: MachineType::Bool, bits: if b { 1 } else { 0 } },
            MachineType::Bool,
            true,
        ),
        Literal::String(s) => {
            let r = with_value(st, StepModel::Text { dst: d, text: s@ }, MachineType::Ptr, true);
            (LowerModel { has_text: true, ..r.0 }, r.1)
        },
        Literal::Char(c) => with_value(st, StepModel::Int { dst: d, ty: MachineType::I32, bits: c as u64 }, MachineType::I32, true),
        Literal::Null => with_value(st, StepModel::Null { dst: d }, MachineType::Ptr, true),
    }
}

/// A name: a local variable is loaded; else the global string `strtmp`, once
/// one exists, is loaded as a 32-bit integer; any other name has no value.
pub open spec fn gen_identifier(st: LowerModel, name: Seq<char>) -> (LowerModel, Option<ValModel>) {
    match local_of(st.locals, name) {
        Some(l) => with_value(st, StepModel::Load { dst: st.values, slot: l.slot, name }, l.ty, false),
        None => if st.has_text && name == "strtmp"@ {
            with_value(st, StepModel::LoadText { dst: st.values }, MachineType::I32, false)
        } else {
            (st, None)
        },
    }
}

/// An integer operation on the values of `l` and `r`, lowered in that order.
pub open spec fn gen_arith(st: LowerModel, op: IntOp, a: Option<ValModel>, b: Option<ValModel>) -> (LowerModel, Option<ValModel>) {
    match (a, b) {
        (Some(x), Some(y)) => if is_int_type(x.ty) && is_int_type(y.ty) {
            with_value(st, StepModel::Arith { dst: st.values, op, lhs: x.id, rhs: y.id }, x.ty, x.constant && y.constant)
        } else {
            (st, None)
        },
        _ => (st, None),
    }
}

/// An expression: literals, names, `+`, `-`, `*`, negation, `!`, calls of
/// functions of the module by name, and parentheses have values; any other
/// expression has none.
pub open spec fn gen_expr(st: LowerModel, e: Expression) -> (LowerModel, Option<ValModel>)
    decreases e,
{
    match e {
        Expression::Literal(l) => gen_literal(st, l),
        Expression::Identifier(n) => gen_identifier(st, n@),
        Expression::Add(l, r) => {
            let a = gen_expr(st, *l);
            if a.1 is Some {
                let b = gen_expr(a.0, *r);
                gen_arith(b.0, IntOp::Add, a.1, b.1)
            } else {
                a
            }
        },
        Expression::Sub(l, r) => {
            let a = gen_expr(st, *l);
            if a.1 is Some {
                let b = gen_expr(a.0, *r);
                gen_arith(b.0, IntOp::Sub, a.1, b.1)
            } else {
                a
            }
        },
        Expression::Mul(l, r) => {
            let a = gen_expr(st, *l);
            if a.1 is Some {
                let b = gen_expr(a.0, *r);
                gen_arith(b.0, IntOp::Mul, a.1, b.1)
            } else {
                a
            }
        },
        Expression::Neg(x) => {
            let a = gen_expr(st, *x);
            match a.1 {
                Some(v) => if is_int_type(v.ty) {
                    with_value(a.0, StepModel::Neg { dst: a.0.values, operand: v.id }, MachineType::I32, v.constant)
                } else if is_float_type(v.ty) {
                    with_value(a.0, StepModel::FNeg { dst: a.0.values, operand: v.id }, v.ty, v.constant)
                } else {
                    (a.0, None)
                },
                None => a,
            }
        },
        Expression::Not(x) => {
            let a = gen_expr(st, *x);
            match a.1 {
                Some(v) => if is_int_type(v.ty) {
                    with_value(a.0, StepModel::Not { dst: a.0.values, operand: v.id }, v.ty, v.constant)
                } else {
                    (a.0, None)
                },
                None => a,
            }
        },
        Expression::Call(c, args) => match *c {
            Expression::Identifier(n) => match callee_from(st.functions, n@, 0) {
                Some(f) => {
                    let a = gen_args(st, args@);
                    match a.1 {
                        Some(ids) => if st.functions[f as int].ret == MachineType::Void {
                            (with_instruction(a.0, StepModel::CallWithoutValue { callee: f, args: ids }), None)
                        } else {
                            with_value(
                                a.0,
                                StepModel::Call { dst: a.0.values, callee: f, args: ids },
                                st.functions[f as int].ret,
                                false,
                            )
                        },
                        None => (a.0, None),
                    }
                },
                None => (st, None),
            },
            _ => (st, None),
        },
        Expression::Paren(x) => gen_expr(st, *x),
        _ => (st, None),
    }
}

/// The arguments of a call, in order: the numbers of their values, or none
/// from the first that has none.
pub open spec fn gen_args(st: LowerModel, args: Seq<Expression>) -> (LowerModel, Option<Seq<nat>>)
    decreases args,
{
    if args.len() == 0 {
        (st, Some(Seq::empty()))
    } else {
        let a = gen_expr(st, args[0]);
        match a.1 {
            Some(x) => {
                let rest = gen_args(a.0, args.drop_first());
                match rest.1 {
                    Some(ids) => (rest.0, Some(seq![x.id] + ids)),
                    None => (rest.0, None),
                }
            },
            None => (a.0, None),
        }
    }
}

proof fn lemma_steps_push(v: Seq<Step>, x: Step)
    ensures
        steps_model(v.push(x)) == steps_model(v).push(x.model()),
{
    assert(steps_model(v.push(x)) =~= steps_model(v).push(x.model()));
}

proof fn lemma_ids_push(v: Seq<usize>, x: usize)
    ensures
        ids_model(v.push(x)) == ids_model(v).push(x as nat),
{
    assert(ids_model(v.push(x)) =~= ids_model(v).push(x as nat));
}

impl Lowering {
    /// Adds step `s`, which makes the next value.
    fn add_value(&mut self, s: Step, ty: MachineType, constant: bool) -> (r: Val)
        requires
            old(self).wf(),
        ensures
            final(self).wf(),
            (final(self).model(), Some(r.model())) == with_value(old(self).model(), s.model(), ty, constant),
            r.id == old(self).values,
    {
        let id = self.values;
        proof {
            lemma_steps_push(self.steps@, s);
        }
        self.steps.push(s);
        let n = self.steps.len();
        self.values = self.values + 1;
        self.terminated = self.terminated && constant;
        Val { id, ty, constant }
    }

    /// Adds the instruction `s`.
    fn add_instruction(&mut self, s: Step)
        requires
            old(self).wf(),
        ensures
            final(self).wf(),
            final(self).model() == with_instruction(old(self).model(), s.model()),
            final(self).steps@.len() == old(self).steps@.len() + 1,
    {
        proof {
            lemma_steps_push(self.steps@, s);
        }
        self.steps.push(s);
        self.terminated = false;
    }

    /// Adds the terminator `s`.
    fn add_terminator(&mut self, s: Step)
        requires
            old(self).wf(),
        ensures
            final(self).wf(),
            final(self).model() == with_terminator(old(self).model(), s.model()),
            final(self).steps@.len() == old(self).steps@.len() + 1,
    {
        proof {
            lemma_steps_push(self.steps@, s);
        }
        self.steps.push(s);
        self.terminated = true;
    }

    /// The stack slot and type of the local variable named `name`.
    fn find_local(&self, name: &String) -> (r: Option<(usize, MachineType)>)
        ensures
            match r {
                Some((slot, ty)) => local_of(self.model().locals, name@) == Some(
                    LocalModel { name: name@, slot: slot as nat, ty },
                ),
                None => local_of(self.model().locals, name@) is None,
            },
    {
        let ghost ls = self.model().locals;
        let mut i = self.locals.len();
        proof {
            assert(ls.take(i as int) =~= ls);
        }
        while i > 0
            invariant
                i <= self.locals.len(),
                ls == self.model().locals,
                local_of(ls, name@) == local_of(ls.take(i as int), name@),
            decreases i,
        {
            i = i - 1;
            proof {
                assert(ls.take(i + 1).last() == self.locals@[i as int].model());
                assert(ls.take(i + 1).drop_last() =~= ls.take(i as int));
            }
            if self.locals[i].name == *name {
                return Some((self.locals[i].slot, self.locals[i].ty));
            }
        }
        None
    }

    /// The number of the first function of the module named `name`.
    fn find_callee(&self, name: &String) -> (r: Option<usize>)
        ensures
            match r {
                Some(f) => callee_from(self.model().functions, name@, 0) == Some(f as nat) && f
                    < self.functions@.len(),
                None => callee_from(self.model().functions, name@, 0) is None,
            },
    {
        let ghost fs = self.model().functions;
        let mut i: usize = 0;
        while i < self.functions.len()
            invariant
                i <= self.functions.len(),
                fs == self.model().functions,
                callee_from(fs, name@, 0) == callee_from(fs, name@, i as int),
            decreases self.functions.len() - i,
        {
            if self.functions[i].name == *name {
                return Some(i);
            }
            i = i + 1;
        }
        None
    }

    /// Lowers a literal.
    fn gen_literal(&mut self, l: &Literal) -> (r: Option<Val>)
        requires
            old(self).wf(),
        ensures
            final(self).wf(),
            (final(self).model(), val_model(r)) == gen_literal(old(self).model(), *l),
    {
        let d = self.values;
        match l {
            Literal::Int(s) => {
                let bits: u64 = match parse_i64(s.as_str()) {
                    Some(v) => v as u64,
                    None => 0,
                };
                Some(self.add_value(Step::Int { dst: d, ty: MachineType::I32, bits }, MachineType::I32, true))
            },
            Literal::Float(s) => Some(self.add_value(Step::Float { dst: d, text: s.clone() }, MachineType::F64, true)),
            Literal::Bool(b) => {
                let bits: u64 = if *b { 1 } else { 0 };
                Some(self.add_value(Step::Int { dst: d, ty: MachineType::Bool, bits }, MachineType::Bool, true))
            },
            Literal::String(s) => {
                let v = self.add_value(Step::Text { dst: d, text: s.clone() }, MachineType::Ptr, true);
                self.has_text = true;
                Some(v)
            },
            Literal::Char(c) => {
                let bits: u64 = *c as u64;
                Some(self.add_value(Step::Int { dst: d, ty: MachineType::I32, bits }, MachineType::I32, true))
            },
            Literal::Null => Some(self.add_value(Step::Null { dst: d }, MachineType::Ptr, true)),
        }
    }

    /// Lowers a name.
    fn gen_identifier(&mut self, name: &String) -> (r: Option<Val>)
        requires
            old(self).wf(),
        ensures
            final(self).wf(),
            (final(self).model(), val_model(r)) == gen_identifier(old(self).model(), name@),
    {
        let d = self.values;
        match self.find_local(name) {
            Some((slot, ty)) => Some(self.add_value(Step::Load { dst: d, slot, name: name.clone() }, ty, false)),
            None => {
                if self.has_text && *name == string_of("strtmp") {
                    Some(self.add_value(Step::LoadText { dst: d }, MachineType::I32, false))
                } else {
                    None
                }
            },
        }
    }

    /// Lowers an integer operation on two values that were lowered.
    fn gen_arith(&mut self, op: IntOp, a: Option<Val>, b: Option<Val>) -> (r: Option<Val>)
        requires
            old(self).wf(),
        ensures
            final(self).wf(),
            (final(self).model(), val_model(r)) == gen_arith(old(self).model(), op, val_model(a), val_model(b)),
    {
        match (a, b) {
            (Some(x), Some(y)) => {
                if is_int(x.ty) && is_int(y.ty) {
                    let d = self.values;
                    Some(self.add_value(Step::Arith { dst: d, op, lhs: x.id, rhs: y.id }, x.ty, x.constant && y.constant))
                } else {
                    None
                }
            },
            _ => None,
        }
    }

    /// Lowers an expression.
    pub fn gen_expr(&mut self, e: &Expression) -> (r: Option<Val>)
        requires
            old(self).wf(),
        ensures
            final(self).wf(),
            (final(self).model(), val_model(r)) == gen_expr(old(self).model(), *e),
        decreases e,
    {
        match e {
            Expression::Literal(l) => self.gen_literal(l),
            Expression::Identifier(n) => self.gen_identifier(n),
            Expression::Add(l, r) => {
                let a = self.gen_expr(l);
                if a.is_none() {
                    return None;
                }
                let b = self.gen_expr(r);
                self.gen_arith(IntOp::Add, a, b)
            },
            Expression::Sub(l, r) => {
                let a = self.gen_expr(l);
                if a.is_none() {
                    return None;
                }
                let b = self.gen_expr(r);
                self.gen_arith(IntOp::Sub, a, b)
            },
            Expression::Mul(l, r) => {
                let a = self.gen_expr(l);
                if a.is_none() {
                    return None;
                }
                let b = self.gen_expr(r);
                self.gen_arith(IntOp::Mul, a, b)
            },
            Expression::Neg(x) => {
                let v = self.gen_expr(x)?;
                let d = self.values;
                if is_int(v.ty) {
                    Some(self.add_value(Step::Neg { dst: d, operand: v.id }, MachineType::I32, v.constant))
                } else if v.ty == MachineType::F32 || v.ty == MachineType::F64 {
                    Some(self.add_value(Step::FNeg { dst: d, operand: v.id }, v.ty, v.constant))
                } else {
                    None
                }
            },
            Expression::Not(x) => {
                let v = self.gen_expr(x)?;
                let d = self.values;
                if is_int(v.ty) {
                    Some(self.add_value(Step::Not { dst: d, operand: v.id }, v.ty, v.constant))
                } else {
                    None
                }
            },
            Expression::Call(c, args) => {
                let name = match &**c {
                    Expression::Identifier(n) => n,
                    _ => return None,
                };
                let f = self.find_callee(name)?;
                let ret = self.functions[f].ret;
                let ids = self.gen_args(args)?;
                if ret == MachineType::Void {
                    self.add_instruction(Step::CallWithoutValue { callee: f, args: ids });
                    None
                } else {
                    let d = self.values;
                    Some(self.add_value(Step::Call { dst: d, callee: f, args: ids }, ret, false))
                }
            },
            Expression::Paren(x) => self.gen_expr(x),
            _ => None,
        }
    }

    /// Lowers the arguments of a call.
    fn gen_args(&mut self, args: &Vec<Expression>) -> (r: Option<Vec<usize>>)
        requires
            old(self).wf(),
        ensures
            final(self).wf(),
            ({
                let g = gen_args(old(self).model(), args@);
                &&& final(self).model() == g.0
                &&& match r {
                    Some(ids) => g.1 == Some(ids_model(ids@)),
                    None => g.1 is None,
                }
            }),
        decreases args,
    {
        let mut ids: Vec<usize> = Vec::new();
        let mut i: usize = 0;
        let ghost st0 = self.model();
        proof {
            assert(args@.subrange(0, args@.len() as int) =~= args@);
            assert(ids_model(ids@) =~= Seq::<nat>::empty());
        }
        while i < args.len()
            invariant
                self.wf(),
                i <= args.len(),
                st0 == old(self).model(),
                ({
                    let g = gen_args(self.model(), args@.subrange(i as int, args@.len() as int));
                    gen_args(st0, args@) == (g.0, match g.1 {
                        Some(rest) => Some(ids_model(ids@) + rest),
                        None => None,
                    })
                }),
            decreases args.len() - i,
        {
            assert(decreases_to!(args => args@[i as int]));
            let ghost sub = args@.subrange(i as int, args@.len() as int);
            proof {
                assert(sub[0] == args@[i as int]);
                assert(sub.drop_first() =~= args@.subrange(i + 1, args@.len() as int));
            }
            let v = self.gen_expr(&args[i]);
            match v {
                Some(x) => {
                    proof {
                        lemma_ids_push(ids@, x.id);
                        let g = gen_args(self.model(), args@.subrange(i + 1, args@.len() as int));
                        match g.1 {
                            Some(rest) => {
                                assert(ids_model(ids@) + (seq![x.id as nat] + rest) =~= ids_model(ids@).push(x.id as nat) + rest);
                            },
                            None => {},
                        }
                    }
                    ids.push(x.id);
                },
                None => {
                    return None;
                },
            }
            i = i + 1;
        }
        proof {
            assert(args@.subrange(i as int, args@.len() as int) =~= Seq::<Expression>::empty());
            assert(ids_model(ids@) + Seq::<nat>::empty() =~= ids_model(ids@));
        }
        Some(ids)
    }
}

// ----------------------------------------------------------------------------
// Statements and functions
// ----------------------------------------------------------------------------

/// `st` with the next block added, for `role`.
pub open spec fn add_block(st: LowerModel, role: BlockRole) -> LowerModel {
    LowerModel { steps: st.steps.push(StepModel::Block { block: st.blocks, role }), blocks: st.blocks + 1, ..st }
}

/// `st` moved to the end of the new, empty block `b`.
pub open spec fn at_block(st: LowerModel, b: nat) -> LowerModel {
    LowerModel { steps: st.steps.push(StepModel::Position { block: b }), terminated: false, ..st }
}

/// `st` followed by a branch to `target`, unless its block is terminated.
pub open spec fn maybe_branch(st: LowerModel, target: nat) -> LowerModel {
    if st.terminated {
        st
    } else {
        with_terminator(st, StepModel::Branch { target })
    }
}

/// A branch on `c`: to `t` or `f` on an integer value, else to `t`.
pub open spec fn branch_on(st: LowerModel, c: Option<ValModel>, t: nat, f: nat) -> LowerModel {
    match c {
        Some(v) => if is_int_type(v.ty) {
            with_terminator(st, StepModel::CondBranch { cond: v.id, then_: t, else_: f })
        } else {
            with_terminator(st, StepModel::Branch { target: t })
        },
        None => with_terminator(st, StepModel::Branch { target: t }),
    }
}

/// A statement: `let`, assignment to a variable, `return`, `if`, `while`,
/// `loop` and blocks are lowered; other statements give no step.
pub open spec fn lower_stmt(st: LowerModel, s: Statement) -> LowerModel
    decreases s,
{
    match s {
        Statement::Let(d) => {
            let a = gen_expr(st, d.value);
            match a.1 {
                Some(v) => {
                    let slot = a.0.slots;
                    let s1 = with_instruction(
                        LowerModel { slots: a.0.slots + 1, ..a.0 },
                        StepModel::Alloca { slot, ty: v.ty },
                    );
                    let s2 = with_instruction(s1, StepModel::Store { slot, value: v.id });
                    match d.pattern {
                        Pattern::Identifier(n) => LowerModel {
                            locals: s2.locals.push(LocalModel { name: n@, slot, ty: v.ty }),
                            ..s2
                        },
                        _ => s2,
                    }
                },
                None => a.0,
            }
        },
        Statement::Assignment(asg) => match asg.lvalue {
            LValue::Variable(n) => {
                let a = gen_expr(st, asg.value);
                match a.1 {
                    Some(v) => match local_of(a.0.locals, n@) {
                        Some(l) => with_instruction(a.0, StepModel::Store { slot: l.slot, value: v.id }),
                        None => a.0,
                    },
                    None => a.0,
                }
            },
            _ => st,
        },
        Statement::Return(r) => match r {
            Some(e) => {
                let a = gen_expr(st, e);
                match a.1 {
                    Some(v) => with_terminator(a.0, StepModel::Return { value: Some(v.id) }),
                    None => a.0,
                }
            },
            None => with_terminator(st, StepModel::Return { value: None }),
        },
        Statement::If(ie) => lower_if(st, ie),
        Statement::While(w) => {
            let c = st.blocks;
            let s1 = add_block(add_block(add_block(st, BlockRole::WhileCond), BlockRole::WhileBody), BlockRole::WhileEnd);
            let s2 = at_block(with_terminator(s1, StepModel::Branch { target: c }), c);
            let a = gen_expr(s2, *w.condition);
            let s3 = at_block(branch_on(a.0, a.1, c + 1, c + 2), c + 1);
            let s4 = lower_stmts(s3, w.body@);
            at_block(with_terminator(s4, StepModel::Branch { target: c }), c + 2)
        },
        Statement::Loop(l) => {
            let b = st.blocks;
            let s1 = add_block(add_block(st, BlockRole::LoopBody), BlockRole::LoopEnd);
            let s2 = at_block(with_terminator(s1, StepModel::Branch { target: b }), b);
            let s3 = lower_stmts(s2, l.body@);
            at_block(with_terminator(s3, StepModel::Branch { target: b }), b + 1)
        },
        Statement::Block(b) => lower_stmts(st, b@),
        _ => st,
    }
}

/// Statements in order.
pub open spec fn lower_stmts(st: LowerModel, ss: Seq<Statement>) -> LowerModel
    decreases ss,
{
    if ss.len() == 0 {
        st
    } else {
        lower_stmts(lower_stmt(st, ss[0]), ss.drop_first())
    }
}

/// An `if`: blocks for the branches and the end, a branch on the condition,
/// each branch followed by a branch to the end unless it is terminated (an
/// `else if` leads to its own end).
pub open spec fn lower_if(st: LowerModel, ie: IfExpr) -> LowerModel
    decreases ie,
{
    let t = st.blocks;
    let s1 = add_block(add_block(add_block(st, BlockRole::IfThen), BlockRole::IfElse), BlockRole::IfEnd);
    let a = gen_expr(s1, *ie.condition);
    let s2 = at_block(branch_on(a.0, a.1, t, t + 1), t);
    let s3 = maybe_branch(lower_stmts(s2, ie.then_block@), t + 2);
    let s4 = at_block(s3, t + 1);
    let s5 = match ie.else_branch {
        Some(eb) => match *eb {
            ElseBranch::If(inner) => lower_if(s4, inner),
            ElseBranch::Block(b) => maybe_branch(lower_stmts(s4, b@), t + 2),
        },
        None => maybe_branch(s4, t + 2),
    };
    at_block(s5, t + 2)
}

/// The machine type of a parameter's declared type.
pub open spec fn param_type(p: Param) -> MachineType {
    machine_type(ty_of_type_ref(p.type_, Seq::empty()))
}

/// Parameters from `i` on: each that holds a value gets a stack slot.
pub open spec fn lower_params(st: LowerModel, ps: Seq<Param>, i: int) -> LowerModel
    decreases ps.len() - i,
{
    if i < 0 || i >= ps.len() {
        st
    } else {
        let m = param_type(ps[i]);
        let s1 = if m == MachineType::Void {
            st
        } else {
            let slot = st.slots;
            let s0 = with_instruction(
                LowerModel { slots: st.slots + 1, ..st },
                StepModel::Param { index: i as nat, slot, ty: m, name: ps[i].name@ },
            );
            LowerModel { locals: s0.locals.push(LocalModel { name: ps[i].name@, slot, ty: m }), ..s0 }
        };
        lower_params(s1, ps, i + 1)
    }
}

/// The return that ends a function whose last block is not terminated: zero
/// of an integer return type, else no value.
pub open spec fn final_return(st: LowerModel, ret: MachineType) -> LowerModel {
    if st.terminated {
        st
    } else if ret == MachineType::I8 || ret == MachineType::I32 || ret == MachineType::I64 {
        with_terminator(st, StepModel::ReturnZero { ty: ret })
    } else {
        with_terminator(st, StepModel::Return { value: None })
    }
}

/// The parameter types of a function as passed.
pub open spec fn shape_params(fd: FnDecl) -> Seq<MachineType> {
    Seq::new(fd.parameters@.len(), |i: int| passed_as(param_type(fd.parameters@[i])))
}

/// A function: added to the module, its parameters stored, its body lowered
/// and a final return added where needed.
pub open spec fn lower_fn(st: LowerModel, fd: FnDecl) -> LowerModel {
    let ret = declared_return(fd);
    let emitted = emitted_return(ret);
    let s1 = LowerModel {
        steps: st.steps.push(StepModel::Function { name: fd.name@, ret: emitted, params: shape_params(fd) }),
        functions: st.functions.push(CalleeModel { name: fd.name@, ret: emitted }),
        locals: Seq::empty(),
        terminated: false,
        ..st
    };
    let s2 = lower_params(s1, fd.parameters@, 0);
    let s3 = match fd.body {
        BlockOrSemi::Block(b) => lower_stmts(s2, b@),
        BlockOrSemi::Semi => s2,
    };
    final_return(s3, ret)
}

/// The functions among `ds`, in order.
pub open spec fn lower_decls(st: LowerModel, ds: Seq<TopLevelDecl>) -> LowerModel
    decreases ds.len(),
{
    if ds.len() == 0 {
        st
    } else {
        let s1 = match ds[0] {
            TopLevelDecl::Fn(fd) => lower_fn(st, fd),
            _ => st,
        };
        lower_decls(s1, ds.drop_first())
    }
}

/// Nothing lowered yet.
pub open spec fn empty_lowering() -> LowerModel {
    LowerModel {
        steps: Seq::empty(),
        values: 0,
        slots: 0,
        blocks: 0,
        locals: Seq::empty(),
        functions: Seq::empty(),
        has_text: false,
        terminated: false,
    }
}

/// The steps that build the module of `cu`: its top-level functions, in order.
pub open spec fn unit_steps(cu: CompilationUnit) -> Seq<StepModel> {
    lower_decls(empty_lowering(), cu.declarations@).steps
}

proof fn lemma_locals_push(v: Seq<Local>, x: Local)
    ensures
        v.push(x).map_values(|l: Local| l.model()) == v.map_values(|l: Local| l.model()).push(x.model()),
{
    assert(v.push(x).map_values(|l: Local| l.model()) =~= v.map_values(|l: Local| l.model()).push(x.model()));
}

proof fn lemma_callees_push(v: Seq<Callee>, x: Callee)
    ensures
        v.push(x).map_values(|c: Callee| c.model()) == v.map_values(|c: Callee| c.model()).push(x.model()),
{
    assert(v.push(x).map_values(|c: Callee| c.model()) =~= v.map_values(|c: Callee| c.model()).push(x.model()));
}

impl Lowering {
    /// Nothing lowered yet.
    pub fn new() -> (r: Lowering)
        ensures
            r.wf(),
            r.model() == empty_lowering(),
    {
        let r = Lowering {
            steps: Vec::new(),
            values: 0,
            slots: 0,
            blocks: 0,
            locals: Vec::new(),
            functions: Vec::new(),
            has_text: false,
            terminated: false,
        };
        assert(r.model().steps =~= Seq::<StepModel>::empty());
        assert(r.model().locals =~= Seq::<LocalModel>::empty());
        assert(r.model().functions =~= Seq::<CalleeModel>::empty());
        r
    }

    /// Adds the next block, for `role`.
    fn add_block(&mut self, role: BlockRole) -> (b: usize)
        requires
            old(self).wf(),
        ensures
            final(self).wf(),
            final(self).model() == add_block(old(self).model(), role),
            b == old(self).blocks,
    {
        let b = self.blocks;
        proof {
            lemma_steps_push(self.steps@, Step::Block { block: b, role });
        }
        self.steps.push(Step::Block { block: b, role });
        let n = self.steps.len();
        self.blocks = self.blocks + 1;
        b
    }

    /// Moves to the end of the new block `b`.
    fn position(&mut self, b: usize)
        requires
            old(self).wf(),
        ensures
            final(self).wf(),
            final(self).model() == at_block(old(self).model(), b as nat),
    {
        proof {
            lemma_steps_push(self.steps@, Step::Position { block: b });
        }
        self.steps.push(Step::Position { block: b });
        self.terminated = false;
    }

    /// Branches to `target` unless the current block is terminated.
    fn maybe_branch(&mut self, target: usize)
        requires
            old(self).wf(),
        ensures
            final(self).wf(),
            final(self).model() == maybe_branch(old(self).model(), target as nat),
    {
        if !self.terminated {
            self.add_terminator(Step::Branch { target });
        }
    }

    /// Branches on `c` to `t` or `f`.
    fn branch_on(&mut self, c: Option<Val>, t: usize, f: usize)
        requires
            old(self).wf(),
        ensures
            final(self).wf(),
            final(self).model() == branch_on(old(self).model(), val_model(c), t as nat, f as nat),
    {
        match c {
            Some(v) => {
                if is_int(v.ty) {
                    self.add_terminator(Step::CondBranch { cond: v.id, then_: t, else_: f });
                } else {
                    self.add_terminator(Step::Branch { target: t });
                }
            },
            None => self.add_terminator(Step::Branch { target: t }),
        }
    }

    /// Adds stack slot of type `ty` for the local `name`.
    fn add_local(&mut self, name: String, slot: usize, ty: MachineType)
        ensures
            final(self).model() == (LowerModel {
                locals: old(self).model().locals.push(LocalModel { name: name@, slot: slot as nat, ty }),
                ..old(self).model()
            }),
            final(self).steps@ == old(self).steps@,
            final(self).values == old(self).values,
            final(self).slots == old(self).slots,
            final(self).blocks == old(self).blocks,
    {
        let l = Local { name, slot, ty };
        proof {
            lemma_locals_push(self.locals@, l);
        }
        self.locals.push(l);
    }

    /// Lowers a statement.
    pub fn lower_stmt(&mut self, s: &Statement)
        requires
            old(self).wf(),
        ensures
            final(self).wf(),
            final(self).model() == lower_stmt(old(self).model(), *s),
        decreases s,
    {
        match s {
            Statement::Let(d) => {
                if let Some(v) = self.gen_expr(&d.value) {
                    let slot = self.slots;
                    self.add_instruction(Step::Alloca { slot, ty: v.ty });
                    let n = self.steps.len();
                    self.slots = self.slots + 1;
                    self.add_instruction(Step::Store { slot, value: v.id });
                    if let Pattern::Identifier(name) = &d.pattern {
                        self.add_local(name.clone(), slot, v.ty);
                    }
                }
            },
            Statement::Assignment(asg) => {
                let name = match &asg.lvalue {
                    LValue::Variable(n) => n,
                    _ => return,
                };
                if let Some(v) = self.gen_expr(&asg.value) {
                    if let Some((slot, _)) = self.find_local(name) {
                        self.add_instruction(Step::Store { slot, value: v.id });
                    }
                }
            },
            Statement::Return(r) => {
                match r {
                    Some(e) => {
                        if let Some(v) = self.gen_expr(e) {
                            self.add_terminator(Step::Return { value: Some(v.id) });
                        }
                    },
                    None => self.add_terminator(Step::Return { value: None }),
                }
            },
            Statement::If(ie) => self.lower_if(ie),
            Statement::While(w) => {
                let c = self.add_block(BlockRole::WhileCond);
                let b = self.add_block(BlockRole::WhileBody);
                let e = self.add_block(BlockRole::WhileEnd);
                self.add_terminator(Step::Branch { target: c });
                self.position(c);
                let cond = self.gen_expr(&w.condition);
                self.branch_on(cond, b, e);
                self.position(b);
                self.lower_stmts(&w.body);
                self.add_terminator(Step::Branch { target: c });
                self.position(e);
            },
            Statement::Loop(l) => {
                let b = self.add_block(BlockRole::LoopBody);
                let e = self.add_block(BlockRole::LoopEnd);
                self.add_terminator(Step::Branch { target: b });
                self.position(b);
                self.lower_stmts(&l.body);
                self.add_terminator(Step::Branch { target: b });
                self.position(e);
            },
            Statement::Block(b) => self.lower_stmts(b),
            _ => {},
        }
    }

    /// Lowers statements in order.
    pub fn lower_stmts(&mut self, ss: &Vec<Statement>)
        requires
            old(self).wf(),
        ensures
            final(self).wf(),
            final(self).model() == lower_stmts(old(self).model(), ss@),
        decreases ss,
    {
        let ghost st0 = self.model();
        let mut i: usize = 0;
        proof {
            assert(ss@.subrange(0, ss@.len() as int) =~= ss@);
        }
        while i < ss.len()
            invariant
                self.wf(),
                i <= ss.len(),
                st0 == old(self).model(),
                lower_stmts(st0, ss@) == lower_stmts(self.model(), ss@.subrange(i as int, ss@.len() as int)),
            decreases ss.len() - i,
        {
            assert(decreases_to!(ss => ss@[i as int]));
            proof {
                let sub = ss@.subrange(i as int, ss@.len() as int);
                assert(sub[0] == ss@[i as int]);
                assert(sub.drop_first() =~= ss@.subrange(i + 1, ss@.len() as int));
            }
            self.lower_stmt(&ss[i]);
            i = i + 1;
        }
        proof {
            assert(ss@.subrange(i as int, ss@.len() as int) =~= Seq::<Statement>::empty());
        }
    }

    /// Lowers an `if`.
    pub fn lower_if(&mut self, ie: &IfExpr)
        requires
            old(self).wf(),
        ensures
            final(self).wf(),
            final(self).model() == lower_if(old(self).model(), *ie),
        decreases ie,
    {
        let t = self.add_block(BlockRole::IfThen);
        let el = self.add_block(BlockRole::IfElse);
        let en = self.add_block(BlockRole::IfEnd);
        let cond = self.gen_expr(&ie.condition);
        self.branch_on(cond, t, el);
        self.position(t);
        self.lower_stmts(&ie.then_block);
        self.maybe_branch(en);
        self.position(el);
        match &ie.else_branch {
            Some(eb) => match &**eb {
                ElseBranch::If(inner) => self.lower_if(inner),
                ElseBranch::Block(b) => {
                    self.lower_stmts(b);
                    self.maybe_branch(en);
                },
            },
            None => self.maybe_branch(en),
        }
        self.position(en);
    }
}

impl Lowering {
    /// Adds the function `name` to the module and starts its body.
    fn begin_function(&mut self, name: String, ret: MachineType, params: Vec<MachineType>)
        requires
            old(self).wf(),
        ensures
            final(self).wf(),
            final(self).model() == (LowerModel {
                steps: old(self).model().steps.push(StepModel::Function { name: name@, ret, params: params@ }),
                functions: old(self).model().functions.push(CalleeModel { name: name@, ret }),
                locals: Seq::empty(),
                terminated: false,
                ..old(self).model()
            }),
    {
        let c = Callee { name: name.clone(), ret };
        let s = Step::Function { name, ret, params };
        proof {
            lemma_steps_push(self.steps@, s);
            lemma_callees_push(self.functions@, c);
        }
        self.steps.push(s);
        self.functions.push(c);
        self.locals = Vec::new();
        self.terminated = false;
        assert(self.model().locals =~= Seq::<LocalModel>::empty());
    }

    /// Lowers the parameters of a function.
    fn lower_params(&mut self, ps: &Vec<Param>)
        requires
            old(self).wf(),
        ensures
            final(self).wf(),
            final(self).model() == lower_params(old(self).model(), ps@, 0),
    {
        let none: Vec<String> = Vec::new();
        assert(names_of(none@) =~= Seq::<Seq<char>>::empty());
        let ghost st0 = self.model();
        let mut i: usize = 0;
        while i < ps.len()
            invariant
                self.wf(),
                i <= ps.len(),
                names_of(none@) == Seq::<Seq<char>>::empty(),
                st0 == old(self).model(),
                lower_params(st0, ps@, 0) == lower_params(self.model(), ps@, i as int),
            decreases ps.len() - i,
        {
            let m = map_type(&Ty::from_type_ref(&ps[i].type_, none.as_slice()));
            if m != MachineType::Void {
                let slot = self.slots;
                self.add_instruction(Step::Param { index: i, slot, ty: m, name: ps[i].name.clone() });
                let n = self.steps.len();
                self.slots = self.slots + 1;
                self.add_local(ps[i].name.clone(), slot, m);
            }
            i = i + 1;
        }
    }

    /// Lowers a function.
    pub fn lower_fn(&mut self, fd: &FnDecl)
        requires
            old(self).wf(),
        ensures
            final(self).wf(),
            final(self).model() == lower_fn(old(self).model(), *fd),
    {
        let shape = fn_shape(fd);
        assert(shape.params@ =~= shape_params(*fd));
        let ret = shape.ret;
        self.begin_function(fd.name.clone(), shape.emitted_ret, shape.params);
        self.lower_params(&fd.parameters);
        match &fd.body {
            BlockOrSemi::Block(b) => self.lower_stmts(b),
            BlockOrSemi::Semi => {},
        }
        if !self.terminated {
            if ret == MachineType::I8 || ret == MachineType::I32 || ret == MachineType::I64 {
                self.add_terminator(Step::ReturnZero { ty: ret });
            } else {
                self.add_terminator(Step::Return { value: None });
            }
        }
    }
}

/// The steps that build the module of `cu`.
pub fn lower_unit(cu: &CompilationUnit) -> (r: Vec<Step>)
    ensures
        steps_model(r@) == unit_steps(*cu),
{
    let mut lw = Lowering::new();
    let ghost ds = cu.declarations@;
    let mut i: usize = 0;
    proof {
        assert(ds.subrange(0, ds.len() as int) =~= ds);
    }
    while i < cu.declarations.len()
        invariant
            lw.wf(),
            i <= cu.declarations.len(),
            ds == cu.declarations@,
            lower_decls(empty_lowering(), ds) == lower_decls(lw.model(), ds.subrange(i as int, ds.len() as int)),
        decreases cu.declarations.len() - i,
    {
        proof {
            let sub = ds.subrange(i as int, ds.len() as int);
            assert(sub[0] == ds[i as int]);
            assert(sub.drop_first() =~= ds.subrange(i + 1, ds.len() as int));
        }
        if let TopLevelDecl::Fn(fd) = &cu.declarations[i] {
            lw.lower_fn(fd);
        }
        i = i + 1;
    }
    proof {
        assert(ds.subrange(i as int, ds.len() as int) =~= Seq::<TopLevelDecl>::empty());
    }
    lw.steps
}

// ----------------------------------------------------------------------------
// Values are made before they are used
// ----------------------------------------------------------------------------

/// The numbers of the values that step `s` uses.
pub open spec fn uses(s: StepModel) -> Seq<nat> {
    match s {
        StepModel::Arith { lhs, rhs, .. } => seq![lhs, rhs],
        StepModel::Neg { operand, .. } => seq![operand],
        StepModel::FNeg { operand, .. } => seq![operand],
        StepModel::Not { operand, .. } => seq![operand],
        StepModel::Call { args, .. } => args,
        StepModel::CallWithoutValue { args, .. } => args,
        StepModel::Store { value, .. } => seq![value],
        StepModel::Return { value } => match value {
            Some(v) => seq![v],
            None => Seq::empty(),
        },
        StepModel::CondBranch { cond, .. } => seq![cond],
        _ => Seq::empty(),
    }
}

/// The number of the value that step `s` makes, if it makes one.
pub open spec fn made(s: StepModel) -> Option<nat> {
    match s {
        StepModel::Int { dst, .. } => Some(dst),
        StepModel::Float { dst, .. } => Some(dst),
        StepModel::Text { dst, .. } => Some(dst),
        StepModel::Null { dst } => Some(dst),
        StepModel::Load { dst, .. } => Some(dst),
        StepModel::LoadText { dst } => Some(dst),
        StepModel::Arith { dst, .. } => Some(dst),
        StepModel::Neg { dst, .. } => Some(dst),
        StepModel::FNeg { dst, .. } => Some(dst),
        StepModel::Not { dst, .. } => Some(dst),
        StepModel::Call { dst, .. } => Some(dst),
        _ => None,
    }
}

/// How many of the first `k` steps make a value.
pub open spec fn made_count(steps: Seq<StepModel>, k: int) -> nat
    decreases k,
{
    if k <= 0 {
        0
    } else {
        made_count(steps, k - 1) + if made(steps[k - 1]) is Some { 1nat } else { 0nat }
    }
}

/// Values are numbered in the order in which steps make them, and each step
/// uses only values that earlier steps made.
pub open spec fn defined_before_use(steps: Seq<StepModel>) -> bool {
    forall|k: int|
        #![trigger steps[k]]
        0 <= k < steps.len() ==> {
            &&& (made(steps[k]) is Some ==> made(steps[k]) == Some(made_count(steps, k)))
            &&& forall|j: int| 0 <= j < uses(steps[k]).len() ==> #[trigger] uses(steps[k])[j] < made_count(steps, k)
        }
}

/// A state whose steps make and use values in order, and that counts the
/// values made.
pub open spec fn in_order(st: LowerModel) -> bool {
    &&& defined_before_use(st.steps)
    &&& st.values == made_count(st.steps, st.steps.len() as int)
}

/// `st` is `before` with steps added after: no value counted before is lost.
pub open spec fn grows(before: LowerModel, st: LowerModel) -> bool {
    &&& in_order(st)
    &&& before.values <= st.values
}

proof fn lemma_made_count_push(steps: Seq<StepModel>, s: StepModel, k: int)
    requires
        0 <= k <= steps.len(),
    ensures
        made_count(steps.push(s), k) == made_count(steps, k),
    decreases k,
{
    if k > 0 {
        lemma_made_count_push(steps, s, k - 1);
        assert(steps.push(s)[k - 1] == steps[k - 1]);
    }
}

/// Adding a step that makes the next value, if any, and uses only values
/// made before keeps the order.
proof fn lemma_push_in_order(st: LowerModel, s: StepModel, values: nat)
    requires
        in_order(st),
        made(s) is Some ==> made(s) == Some(st.values),
        forall|j: int| 0 <= j < uses(s).len() ==> #[trigger] uses(s)[j] < st.values,
        values == st.values + if made(s) is Some { 1nat } else { 0nat },
    ensures
        in_order(LowerModel { steps: st.steps.push(s), values, ..st }),
{
    let n = st.steps.len() as int;
    let t = st.steps.push(s);
    assert forall|k: int| 0 <= k <= n implies made_count(t, k) == made_count(st.steps, k) by {
        lemma_made_count_push(st.steps, s, k);
    }
    assert(t[n] == s);
    assert(made_count(t, n + 1) == made_count(t, n) + if made(s) is Some { 1nat } else { 0nat });
    assert(t.len() == n + 1);
    assert forall|k: int|
        #![trigger t[k]]
        0 <= k < t.len() implies {
            &&& (made(t[k]) is Some ==> made(t[k]) == Some(made_count(t, k)))
            &&& forall|j: int| 0 <= j < uses(t[k]).len() ==> #[trigger] uses(t[k])[j] < made_count(t, k)
        } by {
        if k < n {
            assert(t[k] == st.steps[k]);
        }
    }
    assert(defined_before_use(t));
}

proof fn lemma_with_value(st: LowerModel, s: StepModel, ty: MachineType, constant: bool)
    requires
        in_order(st),
        made(s) == Some(st.values),
        forall|j: int| 0 <= j < uses(s).len() ==> #[trigger] uses(s)[j] < st.values,
    ensures
        grows(st, with_value(st, s, ty, constant).0),
        with_value(st, s, ty, constant).1->0.id < with_value(st, s, ty, constant).0.values,
{
    lemma_push_in_order(st, s, st.values + 1);
    assert(with_value(st, s, ty, constant).0 == (LowerModel {
        steps: st.steps.push(s),
        values: st.values + 1,
        ..LowerModel { terminated: st.terminated && constant, ..st }
    }));
}

proof fn lemma_with_step(st: LowerModel, s: StepModel)
    requires
        in_order(st),
        made(s) is None,
        forall|j: int| 0 <= j < uses(s).len() ==> #[trigger] uses(s)[j] < st.values,
    ensures
        grows(st, with_instruction(st, s)),
        grows(st, with_terminator(st, s)),
        grows(st, LowerModel { steps: st.steps.push(s), ..st }),
{
    lemma_push_in_order(st, s, st.values);
    lemma_push_in_order(LowerModel { terminated: false, ..st }, s, st.values);
    lemma_push_in_order(LowerModel { terminated: true, ..st }, s, st.values);
}

proof fn lemma_gen_literal(st: LowerModel, l: Literal)
    requires
        in_order(st),
    ensures
        grows(st, gen_literal(st, l).0),
        gen_literal(st, l).1 is Some ==> gen_literal(st, l).1->0.id < gen_literal(st, l).0.values,
{
    let d = st.values;
    match l {
        Literal::Int(s) => lemma_with_value(st, StepModel::Int { dst: d, ty: MachineType::I32, bits: literal_bits(s@) }, MachineType::I32, true),
        Literal::Float(s) => lemma_with_value(st, StepModel::Float { dst: d, text: s@ }, MachineType::F64, true),
        Literal::Bool(b) => lemma_with_value(
            st,
            StepModel::Int { dst: d, ty: MachineType::Bool, bits: if b { 1 } else { 0 } },
            MachineType::Bool,
            true,
        ),
        Literal::String(s) => lemma_with_value(st, StepModel::Text { dst: d, text: s@ }, MachineType::Ptr, true),
        Literal::Char(c) => lemma_with_value(st, StepModel::Int { dst: d, ty: MachineType::I32, bits: c as u64 }, MachineType::I32, true),
        Literal::Null => lemma_with_value(st, StepModel::Null { dst: d }, MachineType::Ptr, true),
    }
}

proof fn lemma_gen_arith(st: LowerModel, op: IntOp, a: Option<ValModel>, b: Option<ValModel>)
    requires
        in_order(st),
        a is Some ==> a->0.id < st.values,
        b is Some ==> b->0.id < st.values,
    ensures
        grows(st, gen_arith(st, op, a, b).0),
        gen_arith(st, op, a, b).1 is Some ==> gen_arith(st, op, a, b).1->0.id < gen_arith(st, op, a, b).0.values,
{
    match (a, b) {
        (Some(x), Some(y)) => if is_int_type(x.ty) && is_int_type(y.ty) {
            let s = StepModel::Arith { dst: st.values, op, lhs: x.id, rhs: y.id };
            assert(uses(s) =~= seq![x.id, y.id]);
            lemma_with_value(st, s, x.ty, x.constant && y.constant);
        },
        _ => {},
    }
}

proof fn lemma_gen_expr(st: LowerModel, e: Expression)
    requires
        in_order(st),
    ensures
        grows(st, gen_expr(st, e).0),
        gen_expr(st, e).1 is Some ==> gen_expr(st, e).1->0.id < gen_expr(st, e).0.values,
    decreases e,
{
    match e {
        Expression::Literal(l) => lemma_gen_literal(st, l),
        Expression::Identifier(n) => {
            match local_of(st.locals, n@) {
                Some(l) => lemma_with_value(st, StepModel::Load { dst: st.values, slot: l.slot, name: n@ }, l.ty, false),
                None => if st.has_text && n@ == "strtmp"@ {
                    lemma_with_value(st, StepModel::LoadText { dst: st.values }, MachineType::I32, false);
                },
            }
        },
        Expression::Add(l, r) | Expression::Sub(l, r) | Expression::Mul(l, r) => {
            lemma_gen_expr(st, *l);
            let a = gen_expr(st, *l);
            if a.1 is Some {
                lemma_gen_expr(a.0, *r);
                let b = gen_expr(a.0, *r);
                lemma_gen_arith(b.0, IntOp::Add, a.1, b.1);
                lemma_gen_arith(b.0, IntOp::Sub, a.1, b.1);
                lemma_gen_arith(b.0, IntOp::Mul, a.1, b.1);
            }
        },
        Expression::Neg(x) => {
            lemma_gen_expr(st, *x);
            let a = gen_expr(st, *x);
            if let Some(v) = a.1 {
                let s1 = StepModel::Neg { dst: a.0.values, operand: v.id };
                let s2 = StepModel::FNeg { dst: a.0.values, operand: v.id };
                assert(uses(s1) =~= seq![v.id]);
                assert(uses(s2) =~= seq![v.id]);
                lemma_with_value(a.0, s1, MachineType::I32, v.constant);
                lemma_with_value(a.0, s2, v.ty, v.constant);
            }
        },
        Expression::Not(x) => {
            lemma_gen_expr(st, *x);
            let a = gen_expr(st, *x);
            if let Some(v) = a.1 {
                let s1 = StepModel::Not { dst: a.0.values, operand: v.id };
                assert(uses(s1) =~= seq![v.id]);
                lemma_with_value(a.0, s1, v.ty, v.constant);
            }
        },
        Expression::Call(c, args) => match *c {
            Expression::Identifier(n) => match callee_from(st.functions, n@, 0) {
                Some(f) => {
                    lemma_gen_args(st, args@);
                    let a = gen_args(st, args@);
                    if let Some(ids) = a.1 {
                        lemma_with_step(a.0, StepModel::CallWithoutValue { callee: f, args: ids });
                        lemma_with_value(
                            a.0,
                            StepModel::Call { dst: a.0.values, callee: f, args: ids },
                            st.functions[f as int].ret,
                            false,
                        );
                    }
                },
                None => {},
            },
            _ => {},
        },
        Expression::Paren(x) => lemma_gen_expr(st, *x),
        _ => {},
    }
}

proof fn lemma_gen_args(st: LowerModel, args: Seq<Expression>)
    requires
        in_order(st),
    ensures
        grows(st, gen_args(st, args).0),
        gen_args(st, args).1 is Some ==> forall|j: int|
            0 <= j < gen_args(st, args).1->0.len() ==> #[trigger] gen_args(st, args).1->0[j] < gen_args(st, args).0.values,
    decreases args,
{
    if args.len() > 0 {
        lemma_gen_expr(st, args[0]);
        let a = gen_expr(st, args[0]);
        if let Some(x) = a.1 {
            lemma_gen_args(a.0, args.drop_first());
            let rest = gen_args(a.0, args.drop_first());
            if let Some(ids) = rest.1 {
                let all = seq![x.id] + ids;
                assert forall|j: int| 0 <= j < all.len() implies #[trigger] all[j] < rest.0.values by {
                    if j > 0 {
                        assert(all[j] == ids[j - 1]);
                    }
                }
            }
        }
    }
}

proof fn lemma_branch_on(st: LowerModel, c: Option<ValModel>, t: nat, f: nat)
    requires
        in_order(st),
        c is Some ==> c->0.id < st.values,
    ensures
        grows(st, branch_on(st, c, t, f)),
{
    match c {
        Some(v) => {
            let s = StepModel::CondBranch { cond: v.id, then_: t, else_: f };
            assert(uses(s) =~= seq![v.id]);
            lemma_with_step(st, s);
            lemma_with_step(st, StepModel::Branch { target: t });
        },
        None => lemma_with_step(st, StepModel::Branch { target: t }),
    }
}

proof fn lemma_add_block(st: LowerModel, role: BlockRole)
    requires
        in_order(st),
    ensures
        grows(st, add_block(st, role)),
{
    lemma_with_step(st, StepModel::Block { block: st.blocks, role });
    assert(add_block(st, role) == (LowerModel {
        blocks: st.blocks + 1,
        ..LowerModel { steps: st.steps.push(StepModel::Block { block: st.blocks, role }), ..st }
    }));
}

proof fn lemma_lower_stmt(st: LowerModel, s: Statement)
    requires
        in_order(st),
    ensures
        grows(st, lower_stmt(st, s)),
    decreases s,
{
    match s {
        Statement::Let(d) => {
            lemma_gen_expr(st, d.value);
            let a = gen_expr(st, d.value);
            if let Some(v) = a.1 {
                let slot = a.0.slots;
                let s0 = LowerModel { slots: a.0.slots + 1, ..a.0 };
                lemma_with_step(s0, StepModel::Alloca { slot, ty: v.ty });
                let s1 = with_instruction(s0, StepModel::Alloca { slot, ty: v.ty });
                let st2 = StepModel::Store { slot, value: v.id };
                assert(uses(st2) =~= seq![v.id]);
                lemma_with_step(s1, st2);
            }
        },
        Statement::Assignment(asg) => match asg.lvalue {
            LValue::Variable(n) => {
                lemma_gen_expr(st, asg.value);
                let a = gen_expr(st, asg.value);
                if let Some(v) = a.1 {
                    if let Some(l) = local_of(a.0.locals, n@) {
                        let st2 = StepModel::Store { slot: l.slot, value: v.id };
                        assert(uses(st2) =~= seq![v.id]);
                        lemma_with_step(a.0, st2);
                    }
                }
            },
            _ => {},
        },
        Statement::Return(r) => match r {
            Some(e) => {
                lemma_gen_expr(st, e);
                let a = gen_expr(st, e);
                if let Some(v) = a.1 {
                    let st2 = StepModel::Return { value: Some(v.id) };
                    assert(uses(st2) =~= seq![v.id]);
                    lemma_with_step(a.0, st2);
                }
            },
            None => lemma_with_step(st, StepModel::Return { value: None }),
        },
        Statement::If(ie) => lemma_lower_if(st, ie),
        Statement::While(w) => {
            let c = st.blocks;
            lemma_add_block(st, BlockRole::WhileCond);
            let b1 = add_block(st, BlockRole::WhileCond);
            lemma_add_block(b1, BlockRole::WhileBody);
            let b2 = add_block(b1, BlockRole::WhileBody);
            lemma_add_block(b2, BlockRole::WhileEnd);
            let s1 = add_block(b2, BlockRole::WhileEnd);
            lemma_with_step(s1, StepModel::Branch { target: c });
            let s1b = with_terminator(s1, StepModel::Branch { target: c });
            lemma_with_step(s1b, StepModel::Position { block: c });
            let s2 = at_block(s1b, c);
            lemma_gen_expr(s2, *w.condition);
            let a = gen_expr(s2, *w.condition);
            lemma_branch_on(a.0, a.1, c + 1, c + 2);
            let s2b = branch_on(a.0, a.1, c + 1, c + 2);
            lemma_with_step(s2b, StepModel::Position { block: c + 1 });
            let s3 = at_block(s2b, c + 1);
            lemma_lower_stmts(s3, w.body@);
            let s4 = lower_stmts(s3, w.body@);
            lemma_with_step(s4, StepModel::Branch { target: c });
            let s4b = with_terminator(s4, StepModel::Branch { target: c });
            lemma_with_step(s4b, StepModel::Position { block: c + 2 });
        },
        Statement::Loop(l) => {
            let b = st.blocks;
            lemma_add_block(st, BlockRole::LoopBody);
            let b1 = add_block(st, BlockRole::LoopBody);
            lemma_add_block(b1, BlockRole::LoopEnd);
            let s1 = add_block(b1, BlockRole::LoopEnd);
            lemma_with_step(s1, StepModel::Branch { target: b });
            let s1b = with_terminator(s1, StepModel::Branch { target: b });
            lemma_with_step(s1b, StepModel::Position { block: b });
            let s2 = at_block(s1b, b);
            lemma_lower_stmts(s2, l.body@);
            let s3 = lower_stmts(s2, l.body@);
            lemma_with_step(s3, StepModel::Branch { target: b });
            let s3b = with_terminator(s3, StepModel::Branch { target: b });
            lemma_with_step(s3b, StepModel::Position { block: b + 1 });
        },
        Statement::Block(b) => lemma_lower_stmts(st, b@),
        _ => {},
    }
}

proof fn lemma_lower_stmts(st: LowerModel, ss: Seq<Statement>)
    requires
        in_order(st),
    ensures
        grows(st, lower_stmts(st, ss)),
    decreases ss,
{
    if ss.len() > 0 {
        lemma_lower_stmt(st, ss[0]);
        lemma_lower_stmts(lower_stmt(st, ss[0]), ss.drop_first());
    }
}

proof fn lemma_maybe_branch(st: LowerModel, target: nat)
    requires
        in_order(st),
    ensures
        grows(st, maybe_branch(st, target)),
{
    lemma_with_step(st, StepModel::Branch { target });
}

proof fn lemma_lower_if(st: LowerModel, ie: IfExpr)
    requires
        in_order(st),
    ensures
        grows(st, lower_if(st, ie)),
    decreases ie,
{
    let t = st.blocks;
    lemma_add_block(st, BlockRole::IfThen);
    let b1 = add_block(st, BlockRole::IfThen);
    lemma_add_block(b1, BlockRole::IfElse);
    let b2 = add_block(b1, BlockRole::IfElse);
    lemma_add_block(b2, BlockRole::IfEnd);
    let s1 = add_block(b2, BlockRole::IfEnd);
    lemma_gen_expr(s1, *ie.condition);
    let a = gen_expr(s1, *ie.condition);
    lemma_branch_on(a.0, a.1, t, t + 1);
    let s1b = branch_on(a.0, a.1, t, t + 1);
    lemma_with_step(s1b, StepModel::Position { block: t });
    let s2 = at_block(s1b, t);
    lemma_lower_stmts(s2, ie.then_block@);
    let s2b = lower_stmts(s2, ie.then_block@);
    lemma_maybe_branch(s2b, t + 2);
    let s3 = maybe_branch(s2b, t + 2);
    lemma_with_step(s3, StepModel::Position { block: t + 1 });
    let s4 = at_block(s3, t + 1);
    let s5 = match ie.else_branch {
        Some(eb) => match *eb {
            ElseBranch::If(inner) => {
                lemma_lower_if(s4, inner);
                lower_if(s4, inner)
            },
            ElseBranch::Block(b) => {
                lemma_lower_stmts(s4, b@);
                lemma_maybe_branch(lower_stmts(s4, b@), t + 2);
                maybe_branch(lower_stmts(s4, b@), t + 2)
            },
        },
        None => {
            lemma_maybe_branch(s4, t + 2);
            maybe_branch(s4, t + 2)
        },
    };
    lemma_with_step(s5, StepModel::Position { block: t + 2 });
}

proof fn lemma_lower_params(st: LowerModel, ps: Seq<Param>, i: int)
    requires
        in_order(st),
    ensures
        grows(st, lower_params(st, ps, i)),
    decreases ps.len() - i,
{
    if 0 <= i < ps.len() {
        let m = param_type(ps[i]);
        let s1 = if m == MachineType::Void {
            st
        } else {
            let slot = st.slots;
            let s0 = LowerModel { slots: st.slots + 1, ..st };
            let p = StepModel::Param { index: i as nat, slot, ty: m, name: ps[i].name@ };
            lemma_with_step(s0, p);
            let s0b = with_instruction(s0, p);
            LowerModel { locals: s0b.locals.push(LocalModel { name: ps[i].name@, slot, ty: m }), ..s0b }
        };
        lemma_lower_params(s1, ps, i + 1);
    }
}

proof fn lemma_lower_fn(st: LowerModel, fd: FnDecl)
    requires
        in_order(st),
    ensures
        grows(st, lower_fn(st, fd)),
{
    let ret = declared_return(fd);
    let emitted = emitted_return(ret);
    let f = StepModel::Function { name: fd.name@, ret: emitted, params: shape_params(fd) };
    lemma_with_step(st, f);
    let s1 = LowerModel {
        steps: st.steps.push(f),
        functions: st.functions.push(CalleeModel { name: fd.name@, ret: emitted }),
        locals: Seq::empty(),
        terminated: false,
        ..st
    };
    lemma_lower_params(s1, fd.parameters@, 0);
    let s2 = lower_params(s1, fd.parameters@, 0);
    let s3 = match fd.body {
        BlockOrSemi::Block(b) => {
            lemma_lower_stmts(s2, b@);
            lower_stmts(s2, b@)
        },
        BlockOrSemi::Semi => s2,
    };
    lemma_with_step(s3, StepModel::ReturnZero { ty: ret });
    lemma_with_step(s3, StepModel::Return { value: None });
}

proof fn lemma_lower_decls(st: LowerModel, ds: Seq<TopLevelDecl>)
    requires
        in_order(st),
    ensures
        grows(st, lower_decls(st, ds)),
    decreases ds.len(),
{
    if ds.len() > 0 {
        let s1 = match ds[0] {
            TopLevelDecl::Fn(fd) => {
                lemma_lower_fn(st, fd);
                lower_fn(st, fd)
            },
            _ => st,
        };
        lemma_lower_decls(s1, ds.drop_first());
    }
}

/// Lowering a unit numbers values in the order in which its steps make them,
/// and every step uses only values that earlier steps made.
pub proof fn lemma_lowering_defines_before_use(cu: CompilationUnit)
    ensures
        defined_before_use(unit_steps(cu)),
{
    lemma_lower_decls(empty_lowering(), cu.declarations@);
}

/// Whether values of type `m` are integers.
fn is_int(m: MachineType) -> (r: bool)
    ensures
        r == is_int_type(m),
{
    m == MachineType::I8 || m == MachineType::I32 || m == MachineType::I64 || m == MachineType::Bool
}


/// `(after, v)` is what combining the values `x` and `y` with `op` gives, once
/// `before` holds both: one `Arith` step of that operation appended, writing a
/// new value with the type of `x`.
pub open spec fn combines(before: LowerModel, after: (LowerModel, Option<ValModel>), op: IntOp, x: ValModel, y: ValModel) -> bool {
    &&& after.0.steps == before.steps.push(StepModel::Arith { dst: before.values, op, lhs: x.id, rhs: y.id })
    &&& after.0.values == before.values + 1
    &&& after.1 == Some(ValModel { id: before.values, ty: x.ty, constant: x.constant && y.constant })
}

/// The operation that lowering emits for `+`, `-` and `*` is the one the source
/// writes: when both operands lower to integer values (left operand first),
/// `l + r` gives an `Arith` step with `Add`, `l - r` one with `Sub`, and `l * r`
/// one with `Mul`, combining the operands' values into the next value.
pub proof fn lemma_arith_matches_operator(st: LowerModel, l: Expression, r: Expression)
    ensures
        ({
            let (sl, vl) = gen_expr(st, l);
            let (sr, vr) = gen_expr(sl, r);
            match (vl, vr) {
                (Some(x), Some(y)) => (is_int_type(x.ty) && is_int_type(y.ty)) ==> {
                    &&& combines(sr, gen_expr(st, Expression::Add(Box::new(l), Box::new(r))), IntOp::Add, x, y)
                    &&& combines(sr, gen_expr(st, Expression::Sub(Box::new(l), Box::new(r))), IntOp::Sub, x, y)
                    &&& combines(sr, gen_expr(st, Expression::Mul(Box::new(l), Box::new(r))), IntOp::Mul, x, y)
                },
                _ => true,
            }
        }),
{
}


/// Negation and `!` follow their operand's type: on an integer value `-x` gives a
/// `Neg` step and `!x` a `Not` step; on a float value `-x` gives an `FNeg` step;
/// each writes the next value.
pub proof fn lemma_unary_matches_operator(st: LowerModel, x: Expression)
    ensures
        ({
            let (sx, vx) = gen_expr(st, x);
            let neg = gen_expr(st, Expression::Neg(Box::new(x)));
            let not = gen_expr(st, Expression::Not(Box::new(x)));
            match vx {
                Some(v) => {
                    &&& is_int_type(v.ty) ==> neg.0.steps == sx.steps.push(
                        StepModel::Neg { dst: sx.values, operand: v.id },
                    ) && neg.1 == Some(ValModel { id: sx.values, ty: MachineType::I32, constant: v.constant })
                    &&& is_int_type(v.ty) ==> not.0.steps == sx.steps.push(
                        StepModel::Not { dst: sx.values, operand: v.id },
                    ) && not.1 == Some(ValModel { id: sx.values, ty: v.ty, constant: v.constant })
                    &&& is_float_type(v.ty) ==> neg.0.steps == sx.steps.push(
                        StepModel::FNeg { dst: sx.values, operand: v.id },
                    ) && neg.1 == Some(ValModel { id: sx.values, ty: v.ty, constant: v.constant })
                },
                None => true,
            }
        }),
{
}

} // verus!
