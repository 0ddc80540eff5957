//! Instruction lowering: each IR instruction becomes rewrite rules over the
//! `~`-separated slots of the pattern space, while a compile-time depth
//! tracks how many slots the stack holds.

use vstd::prelude::*;
use crate::ir::{
    lookup, slot_in, slots_in, slots_in_instr, CallFunc, CompileErr, ConstVal, ErrView, FuncDef,
    IfProc, SedCode, SedInstruction, Value, ArgVal, LocalVal, find_function_definition_by_name,
    find_function_index,
};
use crate::text::{dec, lbl, rep, repeat_str, label};

verus! {

/// A pattern that matches one slot.
pub open(crate) spec fn slot() -> Seq<char> {
    "~[^\\~]*"@
}

/// The fixed frame of a function: its arguments and its locals.
pub open(crate) spec fn fixed(f: FuncDef) -> nat {
    (f.argc + f.localc) as nat
}

/// The stack position of a frame slot.
pub open(crate) spec fn slot_index(f: FuncDef, v: Value) -> nat {
    match v {
        Value::Arg(i) => i as nat,
        Value::Local(i) => (f.argc + i) as nat,
    }
}

/// Raw script, on a line of its own.
pub open(crate) spec fn sed_code(s: Seq<char>) -> Seq<char> {
    s + "\n"@
}

/// Appends a copy of slot `off` to a stack of `d` slots.
pub open(crate) spec fn push_code(d: nat, off: nat) -> Seq<char> {
    "s/\\("@ + rep(slot(), off) + "\\)\\(~[^\\~]*\\)\\("@ + rep(slot(), (d - off - 1) as nat)
        + "\\)/\\1\\2\\3\\2/\n"@
}

/// Appends the slot `~data` to a stack of `d` slots.
pub open(crate) spec fn const_code(d: nat, data: Seq<char>) -> Seq<char> {
    "s/\\("@ + rep(slot(), d) + "\\)/\\1~"@ + data + "/\n"@
}

/// Moves the top of a stack of `d` slots into slot `off`.
pub open(crate) spec fn set_code(d: nat, off: nat) -> Seq<char> {
    "s/\\("@ + rep(slot(), off) + "\\)~[^\\~]*\\("@ + rep(slot(), (d - off - 2) as nat)
        + "\\)\\(~[^\\~]*\\)/\\1\\3\\2/\n"@
}

/// Keeps the top `retc` slots of a stack of `d` as the payload, ended by `;`,
/// and jumps to the function's return label.
pub open(crate) spec fn ret_code(retc: nat, id: nat, d: nat) -> Seq<char> {
    "s/"@ + rep(slot(), (d - retc) as nat) + "\\("@ + rep(slot(), retc) + "\\)/\\1;/\nb return"@
        + dec(id) + "\n"@
}

/// Calls `g` from call site `k` at depth `d`: the top `g.argc` slots become
/// a return marker saved in the hold space, then control jumps to `g`.
pub open(crate) spec fn call_code(g: FuncDef, k: nat, d: nat) -> Seq<char> {
    "\n# function call: "@ + g.name@ + "\ns/\\("@ + rep(slot(), (d - g.argc) as nat) + "\\)\\("@
        + rep(slot(), g.argc as nat) + "\\)/:retlabel"@ + dec(k) + "\\2\\1|/\nH\nb func"@ + dec(
        g.id as nat,
    ) + "\n:retlabel"@ + dec(k) + "\n"@
}

/// The scaffolding of conditional `c` around its lowered branches.
pub open(crate) spec fn if_code(c: nat, then_code: Seq<char>, else_code: Seq<char>) -> Seq<char> {
    lbl("\ntreset_flag"@, c) + lbl("\n:reset_flag"@, c) + lbl("\ns/\\(.*\\)~[0]\\+$/\\1/\nt else"@, c)
        + lbl("\nb then"@, c) + lbl("\n:then"@, c) + "\ns/\\(.*\\)~\\([^\\~]*\\)\\+$/\\1/\n"@
        + then_code + lbl("\nb endif"@, c) + lbl("\n:else"@, c) + "\n"@ + else_code + lbl(
        "\nb endif"@,
        c,
    ) + lbl("\n:endif"@, c) + "\n"@
}

/// The lowering of a body of `f` that starts at depth `d`: the script and
/// the depth after it, or the first error.
pub open(crate) spec fn lower_body(f: FuncDef, t: Seq<FuncDef>, b: Seq<SedInstruction>, d: nat) -> Result<
    (Seq<char>, nat),
    ErrView,
>
    decreases b,
{
    if b.len() == 0 {
        Ok((Seq::empty(), d))
    } else {
        match lower_body(f, t, b.subrange(0, b.len() - 1), d) {
            Err(e) => Err(e),
            Ok((c1, d1)) => match lower_instr(f, t, b[b.len() - 1], d1) {
                Err(e) => Err(e),
                Ok((c2, d2)) => Ok((c1 + c2, d2)),
            },
        }
    }
}

/// The lowering of one instruction of `f` at depth `d`.
pub open(crate) spec fn lower_instr(f: FuncDef, t: Seq<FuncDef>, i: SedInstruction, d: nat) -> Result<
    (Seq<char>, nat),
    ErrView,
>
    decreases i,
{
    match i {
        SedInstruction::Sed(s) => Ok((sed_code(s.0@), d)),
        SedInstruction::Val(v) => if slot_index(f, v) < d {
            Ok((push_code(d, slot_index(f, v)), d + 1))
        } else {
            Err(ErrView::StackUnderFlow(d, fixed(f)))
        },
        SedInstruction::ConstVal(c) => Ok((const_code(d, c.data@), d + 1)),
        SedInstruction::Call(c) => match lookup(t, c.func_name@) {
            None => Err(ErrView::UndefinedFunction(c.func_name@)),
            Some(j) => if d >= t[j as int].argc + fixed(f) {
                Ok(
                    (
                        call_code(t[j as int], c.return_addr_marker.0 as nat, d),
                        (d - t[j as int].argc + t[j as int].retc) as nat,
                    ),
                )
            } else {
                Err(ErrView::StackUnderFlow(d, fixed(f)))
            },
        },
        SedInstruction::Store(v) => if d > fixed(f) {
            Ok((set_code(d, slot_index(f, v)), (d - 1) as nat))
        } else {
            Err(ErrView::StackUnderFlow(d, fixed(f)))
        },
        SedInstruction::Ret => if fixed(f) + f.retc <= d {
            Ok((ret_code(f.retc as nat, f.id as nat, d), fixed(f)))
        } else {
            Err(ErrView::PoppingValueFromEmptyStack(f.name@))
        },
        SedInstruction::IfProc(p) => lower_if(f, t, p, d),
    }
}

/// A conditional pops its condition; both branches start from the depth
/// after that pop, which is also the depth after the conditional.
pub open(crate) spec fn lower_if(f: FuncDef, t: Seq<FuncDef>, p: IfProc, d: nat) -> Result<
    (Seq<char>, nat),
    ErrView,
>
    decreases p,
{
    if d > fixed(f) {
        match lower_body(f, t, p.then_proc@, (d - 1) as nat) {
            Err(e) => Err(e),
            Ok((tc, _)) => match lower_body(f, t, p.else_proc@, (d - 1) as nat) {
                Err(e) => Err(e),
                Ok((ec, _)) => Ok((if_code(p.id as nat, tc, ec), (d - 1) as nat)),
            },
        }
    } else {
        Err(ErrView::StackUnderFlow(d, fixed(f)))
    }
}

/// The most a body can raise the depth: one slot per push, the results of
/// each call, and both branches of each conditional.
pub open(crate) spec fn growth(t: Seq<FuncDef>, b: Seq<SedInstruction>) -> nat
    decreases b,
{
    if b.len() == 0 {
        0
    } else {
        growth(t, b.subrange(0, b.len() - 1)) + growth_instr(t, b[b.len() - 1])
    }
}

pub open(crate) spec fn growth_instr(t: Seq<FuncDef>, i: SedInstruction) -> nat
    decreases i,
{
    match i {
        SedInstruction::Val(_) => 1,
        SedInstruction::ConstVal(_) => 1,
        SedInstruction::Call(c) => match lookup(t, c.func_name@) {
            Some(j) => t[j as int].retc as nat,
            None => 0,
        },
        SedInstruction::IfProc(p) => growth(t, p.then_proc@) + growth(t, p.else_proc@),
        _ => 0,
    }
}

/// `out` is `before` followed by what the lowering `s` produced, and `r`
/// reports its depth; or both carry the same error.
pub open(crate) spec fn lowered(
    out: Seq<char>,
    before: Seq<char>,
    r: Result<usize, CompileErr>,
    s: Result<(Seq<char>, nat), ErrView>,
) -> bool {
    match s {
        Ok((c, d)) => r matches Ok(x) && x == d && out == before + c,
        Err(e) => r matches Err(x) && x@ == e,
    }
}

pub(crate) proof fn lemma_growth_prefix(t: Seq<FuncDef>, b: Seq<SedInstruction>, i: int)
    requires
        0 <= i <= b.len(),
    ensures
        growth(t, b.subrange(0, i)) <= growth(t, b),
    decreases b.len() - i,
{
    if i < b.len() {
        assert(b.subrange(0, i + 1).subrange(0, i) =~= b.subrange(0, i));
        lemma_growth_prefix(t, b, i + 1);
    } else {
        assert(b.subrange(0, i) =~= b);
    }
}

pub(crate) proof fn lemma_slots_each(b: Seq<SedInstruction>, argc: nat, localc: nat)
    requires
        slots_in(b, argc, localc),
    ensures
        forall|i: int| 0 <= i < b.len() ==> slots_in_instr(#[trigger] b[i], argc, localc),
    decreases b.len(),
{
    if b.len() > 0 {
        let s = b.subrange(0, b.len() - 1);
        lemma_slots_each(s, argc, localc);
        assert forall|i: int| 0 <= i < b.len() implies slots_in_instr(#[trigger] b[i], argc, localc) by {
            if i < b.len() - 1 {
                assert(s[i] == b[i]);
            }
        }
    }
}

/// Once a prefix of a body fails, the whole body fails with that error.
pub(crate) proof fn lemma_lower_err_prefix(
    f: FuncDef,
    t: Seq<FuncDef>,
    b: Seq<SedInstruction>,
    d: nat,
    i: int,
)
    requires
        0 <= i <= b.len(),
        lower_body(f, t, b.subrange(0, i), d) is Err,
    ensures
        lower_body(f, t, b, d) == lower_body(f, t, b.subrange(0, i), d),
    decreases b.len() - i,
{
    if i < b.len() {
        assert(b.subrange(0, i + 1).subrange(0, i) =~= b.subrange(0, i));
        lemma_lower_err_prefix(f, t, b, d, i + 1);
    } else {
        assert(b.subrange(0, i) =~= b);
    }
}

/// A body that ends with a return finishes at the fixed frame: the return
/// empties the expression stack, and the frame itself never shrinks.
pub proof fn lemma_return_empties_expression_stack(
    f: FuncDef,
    t: Seq<FuncDef>,
    b: Seq<SedInstruction>,
    d: nat,
)
    requires
        b.len() > 0,
        b[b.len() - 1] is Ret,
        lower_body(f, t, b, d) is Ok,
    ensures
        lower_body(f, t, b, d)->Ok_0.1 == f.spec_argc() + f.spec_localc(),
{
    let s = b.subrange(0, b.len() - 1);
    assert(lower_body(f, t, s, d) is Ok);
    let d1 = lower_body(f, t, s, d)->Ok_0.1;
    assert(lower_instr(f, t, b[b.len() - 1], d1) is Ok);
}

/// Lowered from a depth at or above the fixed frame, a body never ends
/// below it: every pop, call, conditional and return first checks that the
/// expression stack holds what it takes.
pub proof fn lemma_depth_stays_above_frame(f: FuncDef, t: Seq<FuncDef>, b: Seq<SedInstruction>, d: nat)
    requires
        d >= fixed(f),
        lower_body(f, t, b, d) is Ok,
    ensures
        lower_body(f, t, b, d)->Ok_0.1 >= fixed(f),
    decreases b.len(),
{
    if b.len() > 0 {
        let s = b.subrange(0, b.len() - 1);
        assert(lower_body(f, t, s, d) is Ok);
        lemma_depth_stays_above_frame(f, t, s, d);
        let d1 = lower_body(f, t, s, d)->Ok_0.1;
        let last = b[b.len() - 1];
        assert(lower_instr(f, t, last, d1) is Ok);
        if let SedInstruction::IfProc(p) = last {
            assert(lower_if(f, t, p, d1) is Ok);
        }
    }
}

/// Tells whether every slot that a body reads or writes lies in a frame of
/// `argc` arguments and `localc` locals.
pub(crate) fn slots_ok(body: &Vec<SedInstruction>, argc: usize, localc: usize) -> (r: bool)
    ensures
        r == slots_in(body@, argc as nat, localc as nat),
    decreases body@,
{
    let ghost b = body@;
    let mut i: usize = 0;
    proof {
        assert(b.subrange(0, 0) =~= Seq::<SedInstruction>::empty());
    }
    while i < body.len()
        invariant
            i <= b.len(),
            b == body@,
            slots_in(b.subrange(0, i as int), argc as nat, localc as nat),
        decreases b.len() - i,
    {
        proof {
            assert(b.subrange(0, i + 1).subrange(0, i as int) =~= b.subrange(0, i as int));
            assert(b.subrange(0, i + 1)[i as int] == b[i as int]);
            assert(decreases_to!(b => b[i as int]));
            if slots_in(b, argc as nat, localc as nat) {
                lemma_slots_each(b, argc as nat, localc as nat);
            }
        }
        let ok = match &body[i] {
            SedInstruction::Val(v) => match v {
                Value::Arg(k) => *k < argc,
                Value::Local(k) => *k < localc,
            },
            SedInstruction::Store(v) => match v {
                Value::Arg(k) => *k < argc,
                Value::Local(k) => *k < localc,
            },
            SedInstruction::IfProc(p) => {
                proof {
                    assert(decreases_to!(b[i as int] => p.then_proc@));
                    assert(decreases_to!(b[i as int] => p.else_proc@));
                }
                slots_ok(&p.then_proc, argc, localc) && slots_ok(&p.else_proc, argc, localc)
            },
            _ => true,
        };
        if !ok {
            assert(!slots_in_instr(b[i as int], argc as nat, localc as nat));
            return false;
        }
        i = i + 1;
    }
    proof {
        assert(b.subrange(0, i as int) =~= b);
    }
    true
}

/// The depth a body can add, when it is at most `budget`.
pub(crate) fn growth_within(func_table: &Vec<FuncDef>, body: &Vec<SedInstruction>, budget: usize) -> (r:
    Option<usize>)
    ensures
        r matches Some(g) ==> g == growth(func_table@, body@) && g <= budget,
        r is None ==> growth(func_table@, body@) > budget,
    decreases body@,
{
    let ghost b = body@;
    let ghost t = func_table@;
    let mut g: usize = 0;
    let mut i: usize = 0;
    proof {
        assert(b.subrange(0, 0) =~= Seq::<SedInstruction>::empty());
    }
    while i < body.len()
        invariant
            i <= b.len(),
            b == body@,
            t == func_table@,
            g == growth(t, b.subrange(0, i as int)),
            g <= budget,
        decreases b.len() - i,
    {
        proof {
            lemma_growth_prefix(t, b, i + 1);
            assert(b.subrange(0, i + 1).subrange(0, i as int) =~= b.subrange(0, i as int));
            assert(b.subrange(0, i + 1)[i as int] == b[i as int]);
            assert(decreases_to!(b => b[i as int]));
            assert(growth(t, b.subrange(0, i + 1)) == growth(t, b.subrange(0, i as int)) + growth_instr(t, b[i as int]));
        }
        proof {
            crate::ir::lemma_lookup_found(t, b[i as int]->Call_0.func_name@);
        }
        let step: usize = match &body[i] {
            SedInstruction::Val(_) => 1,
            SedInstruction::ConstVal(_) => 1,
            SedInstruction::Call(c) => match find_function_index(&c.func_name, func_table) {
                Some(j) => func_table[j].retc,
                None => 0,
            },
            SedInstruction::IfProc(p) => {
                proof {
                    assert(decreases_to!(b[i as int] => p.then_proc@));
                    assert(decreases_to!(b[i as int] => p.else_proc@));
                }
                let g1 = match growth_within(func_table, &p.then_proc, budget - g) {
                    Some(x) => x,
                    None => {
                        return None;
                    },
                };
                let g2 = match growth_within(func_table, &p.else_proc, budget - g - g1) {
                    Some(x) => x,
                    None => {
                        return None;
                    },
                };
                g1 + g2
            },
            _ => 0,
        };
        assert(step == growth_instr(t, b[i as int]));
        if step > budget - g {
            return None;
        }
        g = g + step;
        i = i + 1;
    }
    proof {
        assert(b.subrange(0, i as int) =~= b);
    }
    Some(g)
}

/// A conditional with an empty then-branch still gets its full scaffolding:
/// the reset, test, then, else and endif labels around an empty then-code.
pub proof fn lemma_empty_then_keeps_scaffolding(f: FuncDef, t: Seq<FuncDef>, p: IfProc, d: nat)
    requires
        p.then_body().len() == 0,
        lower_if(f, t, p, d) is Ok,
    ensures
        lower_if(f, t, p, d)->Ok_0.0 == if_code(
            p.cond_id(),
            Seq::empty(),
            lower_body(f, t, p.else_body(), (d - 1) as nat)->Ok_0.0,
        ),
{
}

/// Raw script passes through.
fn resolve_sed_instruction(rstr: &mut String, sed: &SedCode, stack_size: usize) -> (r: usize)
    ensures
        final(rstr)@ == old(rstr)@ + sed_code(sed.0@),
        r == stack_size,
{
    rstr.append(sed.0.as_str());
    rstr.append("\n");
    stack_size
}

/// The rule that appends a copy of slot `offset` to `stack_size` slots.
fn resolve_stack_push_proc(stack_size: usize, offset: usize) -> (r: String)
    requires
        offset < stack_size,
    ensures
        r@ == push_code(stack_size as nat, offset as nat),
{
    let mut r = String::from_str("s/\\(");
    r.append(repeat_str("~[^\\~]*", offset).as_str());
    r.append("\\)\\(~[^\\~]*\\)\\(");
    r.append(repeat_str("~[^\\~]*", stack_size - offset - 1).as_str());
    r.append("\\)/\\1\\2\\3\\2/\n");
    r
}

/// Pushes argument `a`.
fn resolve_argval_instruction(rstr: &mut String, a: &ArgVal, stack_size: usize) -> (r: usize)
    requires
        a.id < stack_size < usize::MAX,
    ensures
        final(rstr)@ == old(rstr)@ + push_code(stack_size as nat, a.id as nat),
        r == stack_size + 1,
{
    rstr.append(resolve_stack_push_proc(stack_size, a.id).as_str());
    stack_size + 1
}

/// Pushes local `a`, which sits after the arguments.
fn resolve_localval_instruction(rstr: &mut String, a: &LocalVal, func_def: &FuncDef, stack_size: usize) -> (r:
    usize)
    requires
        func_def.argc + a.id < stack_size < usize::MAX,
    ensures
        final(rstr)@ == old(rstr)@ + push_code(stack_size as nat, (func_def.argc + a.id) as nat),
        r == stack_size + 1,
{
    rstr.append(resolve_stack_push_proc(stack_size, func_def.argc + a.id).as_str());
    stack_size + 1
}

/// Pushes a constant.
fn resolve_constval_instruction(rstr: &mut String, a: &ConstVal, stack_size: usize) -> (r: usize)
    requires
        stack_size < usize::MAX,
    ensures
        final(rstr)@ == old(rstr)@ + const_code(stack_size as nat, a.data@),
        r == stack_size + 1,
{
    rstr.append("s/\\(");
    rstr.append(repeat_str("~[^\\~]*", stack_size).as_str());
    rstr.append("\\)/\\1~");
    rstr.append(a.data.as_str());
    rstr.append("/\n");
    stack_size + 1
}

/// The rule that pops the top of `stack_size` slots into slot `offset`.
pub(crate) fn resolve_pop_and_set_proc(stack_size: usize, offset: usize) -> (r: String)
    requires
        offset + 2 <= stack_size,
    ensures
        r@ == set_code(stack_size as nat, offset as nat),
{
    let mut r = String::from_str("s/\\(");
    r.append(repeat_str("~[^\\~]*", offset).as_str());
    r.append("\\)~[^\\~]*\\(");
    r.append(repeat_str("~[^\\~]*", stack_size - offset - 2).as_str());
    r.append("\\)\\(~[^\\~]*\\)/\\1\\3\\2/\n");
    r
}

/// A frame slot that the top of stack can be popped into.
pub trait ResolvePopAndSetProc {
    /// The stack position of the slot in a frame of `func_def`.
    spec fn slot_position(&self, func_def: &FuncDef) -> nat;

    /// The rule that pops the top of `stack_size` slots into this slot.
    fn resolve_pop_and_set_proc(&self, stack_size: usize, func_def: &FuncDef) -> (r: String)
        requires
            self.slot_position(func_def) + 2 <= stack_size,
        ensures
            r@ == set_code(stack_size as nat, self.slot_position(func_def)),
    ;
}

impl ResolvePopAndSetProc for ArgVal {
    /// Arguments come first in the frame.
    closed spec fn slot_position(&self, func_def: &FuncDef) -> nat {
        self.id as nat
    }

    fn resolve_pop_and_set_proc(&self, stack_size: usize, func_def: &FuncDef) -> (r: String) {
        resolve_pop_and_set_proc(stack_size, self.id)
    }
}

impl ResolvePopAndSetProc for LocalVal {
    /// Locals follow the function's arguments.
    closed spec fn slot_position(&self, func_def: &FuncDef) -> nat {
        (func_def.argc + self.id) as nat
    }

    fn resolve_pop_and_set_proc(&self, stack_size: usize, func_def: &FuncDef) -> (r: String) {
        resolve_pop_and_set_proc(stack_size, func_def.argc + self.id)
    }
}

/// Pops the top of stack into slot `v`; the expression stack must not be
/// empty.
fn resolve_set_instruction(
    rstr: &mut String,
    v: Value,
    func_def: &FuncDef,
    fixed_offset: usize,
    stack_size: usize,
) -> (r: Result<usize, CompileErr>)
    requires
        fixed_offset == fixed(*func_def),
        slot_in(v, func_def.argc as nat, func_def.localc as nat),
    ensures
        r is Err ==> final(rstr)@ == old(rstr)@,
        lowered(final(rstr)@, old(rstr)@, r, lower_instr(*func_def, Seq::empty(), SedInstruction::Store(v), stack_size as nat)),
{
    if stack_size <= fixed_offset {
        return Err(CompileErr::StackUnderFlow(stack_size, fixed_offset));
    }
    let code = match v {
        Value::Arg(i) => ArgVal::new(i).resolve_pop_and_set_proc(stack_size, func_def),
        Value::Local(i) => LocalVal::new(i).resolve_pop_and_set_proc(stack_size, func_def),
    };
    rstr.append(code.as_str());
    Ok(stack_size - 1)
}

/// Returns the top `retc` slots and jumps to the function's return label.
fn resolve_ret_instructions(
    rstr: &mut String,
    func_def: &FuncDef,
    stack_size: usize,
    fixed_offset: usize,
) -> (r: Result<usize, CompileErr>)
    requires
        fixed_offset == fixed(*func_def),
    ensures
        r is Err ==> final(rstr)@ == old(rstr)@,
        lowered(final(rstr)@, old(rstr)@, r, lower_instr(*func_def, Seq::empty(), SedInstruction::Ret, stack_size as nat)),
{
    if stack_size < fixed_offset || stack_size - fixed_offset < func_def.retc {
        return Err(CompileErr::PoppingValueFromEmptyStack(func_def.name.clone()));
    }
    let mut code = String::from_str("s/");
    code.append(repeat_str("~[^\\~]*", stack_size - func_def.retc).as_str());
    code.append("\\(");
    code.append(repeat_str("~[^\\~]*", func_def.retc).as_str());
    code.append(label("\\)/\\1;/\nb return", func_def.id).as_str());
    code.append("\n");
    assert(code@ =~= ret_code(func_def.retc as nat, func_def.id as nat, stack_size as nat));
    rstr.append(code.as_str());
    Ok(fixed_offset)
}

/// The rules that call `func_def` from call site `return_addr_marker` at
/// depth `stack_size`.
fn sedgen_func_call(func_def: &FuncDef, return_addr_marker: usize, stack_size: usize) -> (r: String)
    requires
        func_def.argc <= stack_size,
    ensures
        r@ == call_code(*func_def, return_addr_marker as nat, stack_size as nat),
{
    let mut r = String::from_str("\n# function call: ");
    r.append(func_def.name.as_str());
    r.append("\ns/\\(");
    r.append(repeat_str("~[^\\~]*", stack_size - func_def.argc).as_str());
    r.append("\\)\\(");
    r.append(repeat_str("~[^\\~]*", func_def.argc).as_str());
    r.append(label("\\)/:retlabel", return_addr_marker).as_str());
    r.append(label("\\2\\1|/\nH\nb func", func_def.id).as_str());
    r.append(label("\n:retlabel", return_addr_marker).as_str());
    r.append("\n");
    r
}

/// Calls a function: consumes its arguments from the stack and pushes its
/// results.
fn resolve_call_instruction(
    rstr: &mut String,
    func_call: &CallFunc,
    func_table: &Vec<FuncDef>,
    fixed_offset: usize,
    stack_size: usize,
    Ghost(f): Ghost<FuncDef>,
) -> (r: Result<usize, CompileErr>)
    requires
        fixed_offset == fixed(f),
        lookup(func_table@, func_call.func_name@) matches Some(j) ==> stack_size
            + func_table@[j as int].retc <= usize::MAX,
    ensures
        r is Err ==> final(rstr)@ == old(rstr)@,
        lowered(final(rstr)@, old(rstr)@, r, lower_instr(f, func_table@, SedInstruction::Call(*func_call), stack_size as nat)),
{
    let func_def = match find_function_definition_by_name(&func_call.func_name, func_table) {
        Ok(g) => g,
        Err(e) => {
            return Err(e);
        },
    };
    if stack_size < fixed_offset || stack_size - fixed_offset < func_def.argc {
        return Err(CompileErr::StackUnderFlow(stack_size, fixed_offset));
    }
    rstr.append(sedgen_func_call(func_def, func_call.return_addr_marker.0, stack_size).as_str());
    Ok(stack_size - func_def.argc + func_def.retc)
}

/// The rules of conditional `id` around its lowered branches.
fn if_scaffold(id: usize, then_code: &String, else_code: &String) -> (r: String)
    ensures
        r@ == if_code(id as nat, then_code@, else_code@),
{
    let mut code = label("\ntreset_flag", id);
    code.append(label("\n:reset_flag", id).as_str());
    code.append(label("\ns/\\(.*\\)~[0]\\+$/\\1/\nt else", id).as_str());
    code.append(label("\nb then", id).as_str());
    code.append(label("\n:then", id).as_str());
    code.append("\ns/\\(.*\\)~\\([^\\~]*\\)\\+$/\\1/\n");
    code.append(then_code.as_str());
    code.append(label("\nb endif", id).as_str());
    code.append(label("\n:else", id).as_str());
    code.append("\n");
    code.append(else_code.as_str());
    code.append(label("\nb endif", id).as_str());
    code.append(label("\n:endif", id).as_str());
    code.append("\n");
    code
}

/// Lowers a conditional: the condition slot is popped, then both branches
/// are lowered from the depth that remains.
fn resolve_if_instructions(
    rstr: &mut String,
    a: &IfProc,
    func_def: &FuncDef,
    fixed_offset: usize,
    stack_size: usize,
    func_table: &Vec<FuncDef>,
) -> (r: Result<usize, CompileErr>)
    requires
        fixed_offset == fixed(*func_def),
        stack_size + growth(func_table@, a.then_proc@) + growth(func_table@, a.else_proc@)
            <= usize::MAX,
        slots_in(a.then_proc@, func_def.argc as nat, func_def.localc as nat),
        slots_in(a.else_proc@, func_def.argc as nat, func_def.localc as nat),
    ensures
        lowered(final(rstr)@, old(rstr)@, r, lower_if(*func_def, func_table@, *a, stack_size as nat)),
    decreases a,
{
    if stack_size <= fixed_offset {
        return Err(CompileErr::StackUnderFlow(stack_size, fixed_offset));
    }
    let inner = stack_size - 1;
    let mut then_code = String::new();
    let mut else_code = String::new();
    match resolve_instructions(&mut then_code, func_def, &a.then_proc, fixed_offset, inner, func_table) {
        Ok(_) => {},
        Err(e) => {
            return Err(e);
        },
    }
    match resolve_instructions(&mut else_code, func_def, &a.else_proc, fixed_offset, inner, func_table) {
        Ok(_) => {},
        Err(e) => {
            return Err(e);
        },
    }
    let code = if_scaffold(a.id, &then_code, &else_code);
    rstr.append(code.as_str());
    Ok(inner)
}

/// Lowers a body of `func_def` that starts at depth `stack_size`, appending
/// the script to `rstr`; returns the depth after it.
pub(crate) fn resolve_instructions(
    rstr: &mut String,
    func_def: &FuncDef,
    proc_contents: &Vec<SedInstruction>,
    fixed_offset: usize,
    stack_size: usize,
    func_table: &Vec<FuncDef>,
) -> (r: Result<usize, CompileErr>)
    requires
        fixed_offset == fixed(*func_def),
        fixed_offset <= stack_size,
        stack_size + growth(func_table@, proc_contents@) <= usize::MAX,
        slots_in(proc_contents@, func_def.argc as nat, func_def.localc as nat),
    ensures
        lowered(final(rstr)@, old(rstr)@, r, lower_body(*func_def, func_table@, proc_contents@, stack_size as nat)),
    decreases proc_contents@,
{
    let ghost b = proc_contents@;
    let ghost t = func_table@;
    let ghost f = *func_def;
    let ghost before = rstr@;
    let ghost mut code: Seq<char> = Seq::empty();
    proof {
        lemma_slots_each(b, func_def.argc as nat, func_def.localc as nat);
        assert(b.subrange(0, 0) =~= Seq::<SedInstruction>::empty());
        assert(rstr@ =~= before + code);
    }
    let mut depth = stack_size;
    let mut i: usize = 0;
    while i < proc_contents.len()
        invariant
            i <= b.len(),
            b == proc_contents@,
            t == func_table@,
            f == *func_def,
            fixed_offset == fixed(f),
            fixed_offset <= stack_size,
            stack_size + growth(t, b) <= usize::MAX,
            forall|j: int| 0 <= j < b.len() ==> slots_in_instr(#[trigger] b[j], f.argc as nat, f.localc as nat),
            rstr@ == before + code,
            lower_body(f, t, b.subrange(0, i as int), stack_size as nat) == Ok::<(Seq<char>, nat), ErrView>((code, depth as nat)),
            depth <= stack_size + growth(t, b.subrange(0, i as int)),
        decreases b.len() - i,
    {
        proof {
            lemma_growth_prefix(t, b, i + 1);
            assert(b.subrange(0, i + 1).subrange(0, i as int) =~= b.subrange(0, i as int));
            assert(b.subrange(0, i + 1)[i as int] == b[i as int]);
            assert(decreases_to!(b => b[i as int]));
            assert(growth(t, b.subrange(0, i + 1)) == growth(t, b.subrange(0, i as int)) + growth_instr(t, b[i as int]));
        }
        let ghost r0 = rstr@;
        let ghost d0 = depth;
        let step: Result<usize, CompileErr> = match &proc_contents[i] {
            SedInstruction::Sed(sed) => Ok(resolve_sed_instruction(rstr, sed, depth)),
            SedInstruction::Call(c) => resolve_call_instruction(rstr, c, func_table, fixed_offset, depth, Ghost(f)),
            SedInstruction::Val(v) => match v {
                Value::Arg(idx) => if *idx < depth {
                    Ok(resolve_argval_instruction(rstr, &ArgVal::new(*idx), depth))
                } else {
                    Err(CompileErr::StackUnderFlow(depth, fixed_offset))
                },
                Value::Local(idx) => if func_def.argc + *idx < depth {
                    Ok(resolve_localval_instruction(rstr, &LocalVal::new(*idx), func_def, depth))
                } else {
                    Err(CompileErr::StackUnderFlow(depth, fixed_offset))
                },
            },
            SedInstruction::ConstVal(a) => Ok(resolve_constval_instruction(rstr, a, depth)),
            SedInstruction::Store(v) => resolve_set_instruction(rstr, *v, func_def, fixed_offset, depth),
            SedInstruction::IfProc(a) => resolve_if_instructions(rstr, a, func_def, fixed_offset, depth, func_table),
            SedInstruction::Ret => resolve_ret_instructions(rstr, func_def, depth, fixed_offset),
        };
        assert(lowered(rstr@, r0, step, lower_instr(f, t, b[i as int], d0 as nat)));
        match step {
            Ok(d) => {
                proof {
                    code = code + lower_instr(f, t, b[i as int], d0 as nat)->Ok_0.0;
                }
                depth = d;
            },
            Err(e) => {
                proof {
                    lemma_lower_err_prefix(f, t, b, stack_size as nat, i + 1);
                }
                return Err(e);
            },
        }
        i = i + 1;
    }
    proof {
        assert(b.subrange(0, i as int) =~= b);
    }
    Ok(depth)
}

} // verus!
