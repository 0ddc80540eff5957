//! The stack-oriented IR that the back-end consumes: function records and a
//! tree of instructions, with the views the passes' contracts speak of.

use vstd::prelude::*;
use crate::text::{lbl, label};

verus! {

/// A fragment of target script, emitted verbatim.
#[derive(Debug)]
pub struct SedCode(pub String);

/// A fixed-frame slot: argument `i` or local variable `i`.
#[derive(Debug, Clone, Copy, PartialEq, Eq, Structural)]
pub enum Value {
    Arg(usize),
    Local(usize),
}

/// Argument slot `id` of the current frame.
#[derive(Debug)]
pub struct ArgVal {
    pub(crate) id: usize,
}

impl ArgVal {
    pub open(crate) spec fn index(&self) -> nat {
        self.id as nat
    }

    pub fn new(id: usize) -> (r: Self)
        ensures
            r.index() == id,
    {
        Self { id }
    }

    pub fn id(&self) -> (r: usize)
        ensures
            r == self.index(),
    {
        self.id
    }
}

/// Local-variable slot `id` of the current frame.
#[derive(Debug)]
pub struct LocalVal {
    pub(crate) id: usize,
}

impl LocalVal {
    pub open(crate) spec fn index(&self) -> nat {
        self.id as nat
    }

    pub fn new(id: usize) -> (r: Self)
        ensures
            r.index() == id,
    {
        Self { id }
    }

    pub fn id(&self) -> (r: usize)
        ensures
            r == self.index(),
    {
        self.id
    }
}

/// A constant string pushed onto the stack.
#[derive(Debug)]
pub struct ConstVal {
    pub(crate) data: String,
}

impl ConstVal {
    pub open(crate) spec fn text(&self) -> Seq<char> {
        self.data@
    }

    pub fn new(data: &str) -> (r: Self)
        ensures
            r.text() == data@,
    {
        Self { data: String::from_str(data) }
    }

    pub fn data(&self) -> (r: &str)
        ensures
            r@ == self.text(),
    {
        self.data.as_str()
    }
}

/// The number of a call site: where a callee returns to.
#[derive(Debug)]
pub struct ReturnAddrMarker(pub usize);

impl ReturnAddrMarker {
    pub open(crate) spec fn spec_value(&self) -> nat {
        self.0 as nat
    }

    /// Moves the marker `d` places further.
    pub fn incr(&mut self, d: usize)
        requires
            old(self).spec_value() + d <= usize::MAX,
        ensures
            final(self).spec_value() == old(self).spec_value() + d,
    {
        self.0 = self.0 + d;
    }

    /// The label that a call returns to.
    pub fn get_retlabel(&self) -> (r: String)
        ensures
            r@ == lbl("retlabel"@, self.spec_value()),
    {
        label("retlabel", self.0)
    }
}

/// A call of the function named `func_name`.
#[derive(Debug)]
pub struct CallFunc {
    pub(crate) func_name: String,
    /// The caller's fixed-frame size: its arguments plus its locals.
    pub(crate) localc: usize,
    pub(crate) return_addr_marker: ReturnAddrMarker,
}

impl CallFunc {
    pub open(crate) spec fn callee(&self) -> Seq<char> {
        self.func_name@
    }

    pub open(crate) spec fn site(&self) -> nat {
        self.return_addr_marker.0 as nat
    }

    pub open(crate) spec fn frame(&self) -> nat {
        self.localc as nat
    }

    pub fn new(func_name: &str) -> (r: Self)
        ensures
            r.callee() == func_name@,
            r.site() == 0,
            r.frame() == 0,
    {
        Self {
            func_name: String::from_str(func_name),
            localc: 0,
            return_addr_marker: ReturnAddrMarker(0),
        }
    }

    /// The name of the called function.
    pub fn func_name(&self) -> (r: &str)
        ensures
            r@ == self.callee(),
    {
        self.func_name.as_str()
    }

    /// The number of this call site.
    pub fn call_site(&self) -> (r: usize)
        ensures
            r == self.site(),
    {
        self.return_addr_marker.0
    }

    /// The fixed-frame size of the calling function.
    pub fn caller_frame_size(&self) -> (r: usize)
        ensures
            r == self.frame(),
    {
        self.localc
    }
}

/// A conditional: the top of stack selects `then_proc` (non-zero) or
/// `else_proc` (zero).
#[derive(Debug)]
pub struct IfProc {
    pub(crate) id: usize,
    pub(crate) then_proc: Vec<SedInstruction>,
    pub(crate) else_proc: Vec<SedInstruction>,
}

impl IfProc {
    pub open(crate) spec fn cond_id(&self) -> nat {
        self.id as nat
    }

    pub open(crate) spec fn then_body(&self) -> Seq<SedInstruction> {
        self.then_proc@
    }

    pub open(crate) spec fn else_body(&self) -> Seq<SedInstruction> {
        self.else_proc@
    }

    pub fn new(then_proc: Vec<SedInstruction>, else_proc: Vec<SedInstruction>) -> (r: Self)
        ensures
            r.cond_id() == 0,
            r.then_body() == then_proc@,
            r.else_body() == else_proc@,
    {
        Self { id: 0, then_proc, else_proc }
    }

    /// The conditional's id, from which its labels are made.
    pub fn id(&self) -> (r: usize)
        ensures
            r == self.cond_id(),
    {
        self.id
    }

    pub fn then_proc(&self) -> (r: &Vec<SedInstruction>)
        ensures
            r@ == self.then_body(),
    {
        &self.then_proc
    }

    pub fn else_proc(&self) -> (r: &Vec<SedInstruction>)
        ensures
            r@ == self.else_body(),
    {
        &self.else_proc
    }
}

/// One IR instruction.
#[derive(Debug)]
pub enum SedInstruction {
    /// Raw target script.
    Sed(SedCode),
    /// Push the value of a frame slot.
    Val(Value),
    /// Push a constant.
    ConstVal(ConstVal),
    /// Consume the callee's arguments from the stack, push its results.
    Call(CallFunc),
    /// Pop the top of stack into a frame slot.
    Store(Value),
    /// Consume the function's results from the stack and return.
    Ret,
    /// Pop the top of stack and branch on it.
    IfProc(IfProc),
}

/// A function record.
#[derive(Debug)]
pub struct FuncDef {
    pub(crate) name: String,
    pub(crate) id: usize,
    pub(crate) argc: usize,
    pub(crate) localc: usize,
    pub(crate) retc: usize,
    pub(crate) return_addr_offset: ReturnAddrMarker,
    pub(crate) proc_contents: Vec<SedInstruction>,
}

impl FuncDef {
    pub open(crate) spec fn spec_name(&self) -> Seq<char> {
        self.name@
    }

    pub open(crate) spec fn spec_id(&self) -> nat {
        self.id as nat
    }

    pub open(crate) spec fn spec_argc(&self) -> nat {
        self.argc as nat
    }

    pub open(crate) spec fn spec_localc(&self) -> nat {
        self.localc as nat
    }

    pub open(crate) spec fn spec_retc(&self) -> nat {
        self.retc as nat
    }

    /// The number of the function's first call site.
    pub open(crate) spec fn spec_offset(&self) -> nat {
        self.return_addr_offset.0 as nat
    }

    pub open(crate) spec fn body(&self) -> Seq<SedInstruction> {
        self.proc_contents@
    }

    pub fn name(&self) -> (r: &str)
        ensures
            r@ == self.spec_name(),
    {
        self.name.as_str()
    }

    /// The function's id: its position in an assembled table.
    pub fn id(&self) -> (r: usize)
        ensures
            r == self.spec_id(),
    {
        self.id
    }

    pub fn argc(&self) -> (r: usize)
        ensures
            r == self.spec_argc(),
    {
        self.argc
    }

    pub fn localc(&self) -> (r: usize)
        ensures
            r == self.spec_localc(),
    {
        self.localc
    }

    pub fn retc(&self) -> (r: usize)
        ensures
            r == self.spec_retc(),
    {
        self.retc
    }

    /// The number of the function's first call site.
    pub fn call_site_offset(&self) -> (r: usize)
        ensures
            r == self.spec_offset(),
    {
        self.return_addr_offset.0
    }

    pub fn proc_contents(&self) -> (r: &Vec<SedInstruction>)
        ensures
            r@ == self.body(),
    {
        &self.proc_contents
    }
}

/// The errors of code generation.
#[derive(Debug)]
pub enum CompileErr {
    /// A call names a function that the table does not hold.
    UndefinedFunction(String),
    /// An instruction needs more stack than there is: the depth and the
    /// fixed-frame size at that point.
    StackUnderFlow(usize, usize),
    /// A return finds fewer values on the expression stack than the
    /// function returns; it carries the function's name.
    PoppingValueFromEmptyStack(String),
    /// The passes disagree: a function that no call site reaches.
    Fatal,
}

/// What a `CompileErr` says, as plain values.
pub enum ErrView {
    UndefinedFunction(Seq<char>),
    StackUnderFlow(nat, nat),
    PoppingValueFromEmptyStack(Seq<char>),
    Fatal,
}

impl View for CompileErr {
    type V = ErrView;

    open spec fn view(&self) -> ErrView {
        match self {
            CompileErr::UndefinedFunction(n) => ErrView::UndefinedFunction(n@),
            CompileErr::StackUnderFlow(d, f) => ErrView::StackUnderFlow(*d as nat, *f as nat),
            CompileErr::PoppingValueFromEmptyStack(n) => ErrView::PoppingValueFromEmptyStack(n@),
            CompileErr::Fatal => ErrView::Fatal,
        }
    }
}

/// The calls of a body, in pre-order: a conditional's then-branch before its
/// else-branch.
pub open(crate) spec fn calls_of(b: Seq<SedInstruction>) -> Seq<CallFunc>
    decreases b,
{
    if b.len() == 0 {
        Seq::empty()
    } else {
        calls_of(b.subrange(0, b.len() - 1)) + calls_of_instr(b[b.len() - 1])
    }
}

pub open(crate) spec fn calls_of_instr(i: SedInstruction) -> Seq<CallFunc>
    decreases i,
{
    match i {
        SedInstruction::Call(c) => seq![c],
        SedInstruction::IfProc(p) => calls_of(p.then_proc@) + calls_of(p.else_proc@),
        _ => Seq::empty(),
    }
}

/// The ids of the conditionals of a body, in pre-order.
pub open(crate) spec fn conds_of(b: Seq<SedInstruction>) -> Seq<nat>
    decreases b,
{
    if b.len() == 0 {
        Seq::empty()
    } else {
        conds_of(b.subrange(0, b.len() - 1)) + conds_of_instr(b[b.len() - 1])
    }
}

pub open(crate) spec fn conds_of_instr(i: SedInstruction) -> Seq<nat>
    decreases i,
{
    match i {
        SedInstruction::IfProc(p) => seq![p.id as nat] + conds_of(p.then_proc@) + conds_of(
            p.else_proc@,
        ),
        _ => Seq::empty(),
    }
}

/// Two bodies are the same program up to the numbers that assembly assigns
/// (call sites, caller frame sizes, conditional ids).
pub open(crate) spec fn same_shape(a: Seq<SedInstruction>, b: Seq<SedInstruction>) -> bool
    decreases a,
{
    &&& a.len() == b.len()
    &&& a.len() > 0 ==> {
        &&& same_shape(a.subrange(0, a.len() - 1), b.subrange(0, b.len() - 1))
        &&& same_instr(a[a.len() - 1], b[b.len() - 1])
    }
}

pub open(crate) spec fn same_instr(x: SedInstruction, y: SedInstruction) -> bool
    decreases x,
{
    match x {
        SedInstruction::Call(c) => y matches SedInstruction::Call(d) && d.func_name@
            == c.func_name@,
        SedInstruction::IfProc(p) => y matches SedInstruction::IfProc(q) && same_shape(
            p.then_proc@,
            q.then_proc@,
        ) && same_shape(p.else_proc@, q.else_proc@),
        _ => y == x,
    }
}

pub(crate) proof fn lemma_same_shape_refl(a: Seq<SedInstruction>)
    ensures
        same_shape(a, a),
    decreases a,
{
    if a.len() > 0 {
        assert(decreases_to!(a => a[a.len() - 1]));
        lemma_same_shape_refl(a.subrange(0, a.len() - 1));
        lemma_same_instr_refl(a[a.len() - 1]);
    }
}

pub(crate) proof fn lemma_same_instr_refl(x: SedInstruction)
    ensures
        same_instr(x, x),
    decreases x,
{
    if let SedInstruction::IfProc(p) = x {
        assert(decreases_to!(x => p.then_proc@));
        assert(decreases_to!(x => p.else_proc@));
        lemma_same_shape_refl(p.then_proc@);
        lemma_same_shape_refl(p.else_proc@);
    }
}

/// Bodies of the same shape match instruction by instruction.
pub(crate) proof fn lemma_same_shape_each(a: Seq<SedInstruction>, b: Seq<SedInstruction>)
    requires
        same_shape(a, b),
    ensures
        a.len() == b.len(),
        forall|i: int| 0 <= i < a.len() ==> same_instr(#[trigger] a[i], b[i]),
    decreases a.len(),
{
    if a.len() > 0 {
        let a1 = a.subrange(0, a.len() - 1);
        let b1 = b.subrange(0, b.len() - 1);
        lemma_same_shape_each(a1, b1);
        assert forall|i: int| 0 <= i < a.len() implies same_instr(#[trigger] a[i], b[i]) by {
            if i < a.len() - 1 {
                assert(a1[i] == a[i]);
                assert(b1[i] == b[i]);
            }
        }
    }
}

/// Every slot that a body reads or writes lies in a frame of `argc`
/// arguments and `localc` locals.
pub open(crate) spec fn slots_in(b: Seq<SedInstruction>, argc: nat, localc: nat) -> bool
    decreases b,
{
    b.len() > 0 ==> {
        &&& slots_in(b.subrange(0, b.len() - 1), argc, localc)
        &&& slots_in_instr(b[b.len() - 1], argc, localc)
    }
}

pub open(crate) spec fn slot_in(v: Value, argc: nat, localc: nat) -> bool {
    match v {
        Value::Arg(i) => i < argc,
        Value::Local(i) => i < localc,
    }
}

pub open(crate) spec fn slots_in_instr(i: SedInstruction, argc: nat, localc: nat) -> bool
    decreases i,
{
    match i {
        SedInstruction::Val(v) => slot_in(v, argc, localc),
        SedInstruction::Store(v) => slot_in(v, argc, localc),
        SedInstruction::IfProc(p) => slots_in(p.then_proc@, argc, localc) && slots_in(
            p.else_proc@,
            argc,
            localc,
        ),
        _ => true,
    }
}

/// The index of the first function of `t` named `name`.
pub open(crate) spec fn lookup(t: Seq<FuncDef>, name: Seq<char>) -> Option<nat>
    decreases t.len(),
{
    if t.len() == 0 {
        None
    } else {
        match lookup(t.subrange(0, t.len() - 1), name) {
            Some(j) => Some(j),
            None => if t[t.len() - 1].name@ == name {
                Some((t.len() - 1) as nat)
            } else {
                None
            },
        }
    }
}

/// A name found in a prefix of the table is found at the same place in the
/// whole table.
pub(crate) proof fn lemma_lookup_prefix(t: Seq<FuncDef>, name: Seq<char>, i: int)
    requires
        0 <= i <= t.len(),
        lookup(t.subrange(0, i), name) is Some,
    ensures
        lookup(t, name) == lookup(t.subrange(0, i), name),
    decreases t.len() - i,
{
    if i < t.len() {
        assert(t.subrange(0, i + 1).subrange(0, i) =~= t.subrange(0, i));
        lemma_lookup_prefix(t, name, i + 1);
    } else {
        assert(t.subrange(0, i) =~= t);
    }
}

/// What a lookup finds is a function of that name.
pub(crate) proof fn lemma_lookup_found(t: Seq<FuncDef>, name: Seq<char>)
    ensures
        lookup(t, name) matches Some(j) ==> j < t.len() && t[j as int].name@ == name,
        lookup(t, name) is None ==> forall|j: int| 0 <= j < t.len() ==> t[j].name@ != name,
    decreases t.len(),
{
    if t.len() > 0 {
        let s = t.subrange(0, t.len() - 1);
        lemma_lookup_found(s, name);
        assert forall|j: int| 0 <= j < s.len() implies s[j] == t[j] by {}
    }
}

/// The index of the first function of the table with the given name.
pub(crate) fn find_function_index(name: &String, func_table: &Vec<FuncDef>) -> (r: Option<usize>)
    ensures
        r matches Some(j) ==> lookup(func_table@, name@) == Some(j as nat),
        r is None ==> lookup(func_table@, name@) is None,
{
    let mut i: usize = 0;
    while i < func_table.len()
        invariant
            i <= func_table.len(),
            lookup(func_table@.subrange(0, i as int), name@) is None,
        decreases func_table.len() - i,
    {
        assert(func_table@.subrange(0, i + 1).subrange(0, i as int) =~= func_table@.subrange(
            0,
            i as int,
        ));
        if func_table[i].name == *name {
            proof {
                lemma_lookup_prefix(func_table@, name@, i + 1);
            }
            return Some(i);
        }
        i = i + 1;
    }
    assert(func_table@.subrange(0, i as int) =~= func_table@);
    None
}

/// Finds the first function of the table with the given name.
pub(crate) fn find_function_definition_by_name<'a>(name: &String, func_table: &'a Vec<FuncDef>) -> (r:
    Result<&'a FuncDef, CompileErr>)
    ensures
        match lookup(func_table@, name@) {
            Some(j) => r matches Ok(f) && *f == func_table@[j as int],
            None => r matches Err(e) && e@ == ErrView::UndefinedFunction(name@),
        },
{
    proof {
        lemma_lookup_found(func_table@, name@);
    }
    match find_function_index(name, func_table) {
        Some(j) => Ok(&func_table[j]),
        None => Err(CompileErr::UndefinedFunction(name.clone())),
    }
}

} // verus!
