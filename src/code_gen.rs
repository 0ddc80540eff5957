//! The compiler builder and the script assembler.
//!
//! The script starts with the `entry` function, which ends by jumping to
//! `done`; every other function follows with its label, its preamble, its
//! lowered body, its return label and its return trampoline; `:done` closes
//! the script.

use vstd::prelude::*;
use std::marker::PhantomData;
use crate::assembly::{
    assemble_funcs, assembled_from, assign_ids, count_ids, entry_name, hoist_entry, hoisted,
    lemma_hoisted_counts, lemma_prog_prefix_len, prog_calls, prog_conds, ConsumedTable,
};
use crate::dispatch::{
    create_return_dispatcher_table, entries_prog, entries_view, has_caller, push_trampoline,
    trampoline, ReturnAddrResolveCode,
};
use crate::ir::{
    calls_of, conds_of, same_shape, slots_in, CompileErr, ErrView, FuncDef, ReturnAddrMarker,
    SedInstruction,
};
use crate::lowering::{fixed, growth, growth_within, lower_body, resolve_instructions, slot, slots_ok};
use crate::text::{lbl, rep, repeat_str, label};

verus! {

/// The phase of a builder whose functions are not numbered yet.
pub struct Unassembled;

/// The phase of a builder whose functions are numbered: it can generate.
pub struct Assembled;

/// A phase reserved for builders joined from several assembled ones.
pub struct Linked;

/// The function table, in one of the phases `Unassembled` or `Assembled`.
pub struct CompilerBuilder<State> {
    func_table: Vec<FuncDef>,
    consumed_table: ConsumedTable,
    _state: PhantomData<State>,
}

impl<State> CompilerBuilder<State> {
    /// The functions, in table order.
    pub closed spec fn table(&self) -> Seq<FuncDef> {
        self.func_table@
    }

    /// The functions, in table order.
    pub fn func_table(&self) -> (r: &Vec<FuncDef>)
        ensures
            r@ == self.table(),
    {
        &self.func_table
    }
}

impl Default for CompilerBuilder<Unassembled> {
    fn default() -> (r: Self)
        ensures
            r.table() == Seq::<FuncDef>::empty(),
    {
        Self::new()
    }
}

/// The total number of call sites and of conditionals of a table fits in a
/// `usize`, and so does each fixed frame.
pub open(crate) spec fn counts_fit(t: Seq<FuncDef>) -> bool {
    &&& prog_calls(t).len() <= usize::MAX
    &&& prog_conds(t).len() <= usize::MAX
    &&& forall|i: int| 0 <= i < t.len() ==> #[trigger] t[i].argc + t[i].localc <= usize::MAX
}

/// Every body reads and writes only slots of its own frame, and the deepest
/// stack a function can reach fits in a `usize`.
pub open(crate) spec fn table_well_formed(t: Seq<FuncDef>) -> bool {
    forall|i: int|
        0 <= i < t.len() ==> {
            &&& #[trigger] t[i].argc + t[i].localc + growth(t, t[i].proc_contents@) <= usize::MAX
            &&& slots_in(t[i].proc_contents@, t[i].argc as nat, t[i].localc as nat)
        }
}

/// The entry function's preamble: `localc` initial locals after its
/// arguments.
pub open(crate) spec fn entry_pre(f: FuncDef) -> Seq<char> {
    "s/\\("@ + rep(slot(), f.argc as nat) + "\\)/\\1"@ + rep("~init"@, f.localc as nat) + "/\n"@
}

/// Another function's label and preamble: the arguments are taken from the
/// return marker, `localc` initial locals follow, and the hold space is
/// cleaned.
pub open(crate) spec fn func_pre(f: FuncDef) -> Seq<char> {
    lbl(":func"@, f.id as nat) + "\n\ns/:retlabel[0-9]\\+\\("@ + rep(slot(), f.argc as nat)
        + "\\)[^\\|]*|$/\\1"@ + rep("~init"@, f.localc as nat) + "/\ns/\\n\\(.*\\)/\\1/\n"@
}

/// The entry function's return label, which ends the run.
pub open(crate) spec fn entry_post(f: FuncDef) -> Seq<char> {
    lbl(":return"@, f.id as nat) + "\nb done\n"@
}

/// Another function's return label: the latest return marker is moved back
/// from the hold space, ahead of the trampoline rules.
pub open(crate) spec fn func_post(f: FuncDef) -> Seq<char> {
    lbl("\n:return"@, f.id as nat)
        + "\nH\nx\nh\ns/^\\(.*\\)\\(\\n:retlabel[0-9]\\+[^|]*|.*\\)$/\\1/\nx\ns/^\\(.*\\)\\(\\n:retlabel[0-9]\\+[^|]*|.*\\)$/\\2/\n"@
}

/// The script block of function `f` of table `t`, given the trampoline
/// entries `es` of the whole program.
pub open(crate) spec fn func_code(f: FuncDef, t: Seq<FuncDef>, es: Seq<(Seq<char>, Seq<char>)>) -> Result<
    Seq<char>,
    ErrView,
> {
    match lower_body(f, t, f.proc_contents@, fixed(f)) {
        Err(e) => Err(e),
        Ok((c, _)) => if f.name@ == entry_name() {
            Ok(entry_pre(f) + c + entry_post(f))
        } else if has_caller(es, f.name@) {
            Ok(func_pre(f) + c + func_post(f) + trampoline(es, f.name@))
        } else {
            Err(ErrView::Fatal)
        },
    }
}

/// The blocks of the functions `fs`, in order.
pub open(crate) spec fn funcs_code(
    t: Seq<FuncDef>,
    fs: Seq<FuncDef>,
    es: Seq<(Seq<char>, Seq<char>)>,
) -> Result<Seq<char>, ErrView>
    decreases fs.len(),
{
    if fs.len() == 0 {
        Ok(Seq::empty())
    } else {
        match funcs_code(t, fs.subrange(0, fs.len() - 1), es) {
            Err(e) => Err(e),
            Ok(c1) => match func_code(fs[fs.len() - 1], t, es) {
                Err(e) => Err(e),
                Ok(c2) => Ok(c1 + c2),
            },
        }
    }
}

/// The script of an assembled table: the trampoline entries are collected
/// first, then every function's block follows in table order, then `:done`.
pub open(crate) spec fn script(t: Seq<FuncDef>) -> Result<Seq<char>, ErrView> {
    match entries_prog(t, t) {
        Err(e) => Err(e),
        Ok(es) => match funcs_code(t, t, es) {
            Err(e) => Err(e),
            Ok(c) => Ok(c + ":done"@),
        },
    }
}

/// A function with no arguments and no locals gets no `~init` slots: its
/// preamble only matches the empty frame.
pub proof fn lemma_empty_frame_preamble(f: FuncDef)
    requires
        f.spec_argc() == 0,
        f.spec_localc() == 0,
    ensures
        entry_pre(f) == "s/\\("@ + "\\)/\\1"@ + "/\n"@,
        func_pre(f) == lbl(":func"@, f.spec_id()) + "\n\ns/:retlabel[0-9]\\+\\("@
            + "\\)[^\\|]*|$/\\1"@ + "/\ns/\\n\\(.*\\)/\\1/\n"@,
{
    assert(rep(slot(), 0) =~= Seq::empty());
    assert(rep("~init"@, 0) =~= Seq::empty());
    assert(entry_pre(f) =~= "s/\\("@ + "\\)/\\1"@ + "/\n"@);
    assert(func_pre(f) =~= lbl(":func"@, f.spec_id()) + "\n\ns/:retlabel[0-9]\\+\\("@
        + "\\)[^\\|]*|$/\\1"@ + "/\ns/\\n\\(.*\\)/\\1/\n"@);
}

pub(crate) proof fn lemma_funcs_err_prefix(
    t: Seq<FuncDef>,
    fs: Seq<FuncDef>,
    es: Seq<(Seq<char>, Seq<char>)>,
    i: int,
)
    requires
        0 <= i <= fs.len(),
        funcs_code(t, fs.subrange(0, i), es) is Err,
    ensures
        funcs_code(t, fs, es) == funcs_code(t, fs.subrange(0, i), es),
    decreases fs.len() - i,
{
    if i < fs.len() {
        assert(fs.subrange(0, i + 1).subrange(0, i) =~= fs.subrange(0, i));
        lemma_funcs_err_prefix(t, fs, es, i + 1);
    } else {
        assert(fs.subrange(0, i) =~= fs);
    }
}

impl FuncDef {
    /// A function with no body yet.
    pub fn new(name: &str, argc: usize, localc: usize, retc: usize) -> (r: Self)
        ensures
            r.spec_name() == name@,
            r.spec_argc() == argc,
            r.spec_localc() == localc,
            r.spec_retc() == retc,
            r.spec_id() == 0,
            r.spec_offset() == 0,
            r.body() == Seq::<SedInstruction>::empty(),
    {
        FuncDef {
            name: String::from_str(name),
            id: 0,
            argc,
            localc,
            retc,
            return_addr_offset: ReturnAddrMarker(0),
            proc_contents: Vec::new(),
        }
    }

    /// Sets the body and numbers its call sites from 0, in pre-order;
    /// returns how many there are. The same walk also numbers the body's
    /// conditionals from 0 and clears every call's caller frame size; both
    /// are set for good by assembly. (A body whose call sites or
    /// conditionals outnumber `usize` is stored as it is, and `usize::MAX`
    /// is returned.)
    pub fn set_proc_contents(&mut self, proc_contents: Vec<SedInstruction>) -> (r: usize)
        ensures
            final(self).spec_name() == old(self).spec_name(),
            final(self).spec_argc() == old(self).spec_argc(),
            final(self).spec_localc() == old(self).spec_localc(),
            final(self).spec_retc() == old(self).spec_retc(),
            final(self).spec_id() == old(self).spec_id(),
            final(self).spec_offset() == old(self).spec_offset(),
            same_shape(proc_contents@, final(self).body()),
            calls_of(proc_contents@).len() <= usize::MAX && conds_of(proc_contents@).len()
                <= usize::MAX ==> {
                &&& r == calls_of(proc_contents@).len()
                &&& calls_of(final(self).body()).len() == r
                &&& forall|k: int|
                    0 <= k < calls_of(final(self).body()).len() ==> (#[trigger] calls_of(
                        final(self).body(),
                    )[k]).site() == k && calls_of(final(self).body())[k].frame() == 0
                &&& conds_of(final(self).body()).len() == conds_of(proc_contents@).len()
                &&& forall|k: int|
                    0 <= k < conds_of(final(self).body()).len() ==> #[trigger] conds_of(
                        final(self).body(),
                    )[k] == k
            },
            !(calls_of(proc_contents@).len() <= usize::MAX && conds_of(proc_contents@).len()
                <= usize::MAX) ==> final(self).body() == proc_contents@ && r == usize::MAX,
    {
        proof {
            crate::ir::lemma_same_shape_refl(proc_contents@);
        }
        self.proc_contents = proc_contents;
        match count_ids(&self.proc_contents) {
            Some(_) => {
                let (counter, _) = assign_ids(&mut self.proc_contents, 0, 0, 0);
                counter
            },
            None => usize::MAX,
        }
    }
}

/// The block of one function of the table.
fn sedgen_func_def(
    func_def: &FuncDef,
    func_table: &Vec<FuncDef>,
    tree: &Vec<ReturnAddrResolveCode>,
) -> (r: Result<String, CompileErr>)
    requires
        func_def.argc + func_def.localc + growth(func_table@, func_def.proc_contents@) <= usize::MAX,
        slots_in(func_def.proc_contents@, func_def.argc as nat, func_def.localc as nat),
    ensures
        match func_code(*func_def, func_table@, entries_view(tree@)) {
            Ok(c) => r matches Ok(s) && s@ == c,
            Err(e) => r matches Err(x) && x@ == e,
        },
{
    let entry = String::from_str("entry");
    let is_entry = func_def.name == entry;
    let fixed_offset = func_def.argc + func_def.localc;
    let mut rstr = if is_entry {
        let mut s = String::from_str("s/\\(");
        s.append(repeat_str("~[^\\~]*", func_def.argc).as_str());
        s.append("\\)/\\1");
        s.append(repeat_str("~init", func_def.localc).as_str());
        s.append("/\n");
        s
    } else {
        let mut s = label(":func", func_def.id);
        s.append("\n\ns/:retlabel[0-9]\\+\\(");
        s.append(repeat_str("~[^\\~]*", func_def.argc).as_str());
        s.append("\\)[^\\|]*|$/\\1");
        s.append(repeat_str("~init", func_def.localc).as_str());
        s.append("/\ns/\\n\\(.*\\)/\\1/\n");
        s
    };
    let lowered_body = resolve_instructions(
        &mut rstr,
        func_def,
        &func_def.proc_contents,
        fixed_offset,
        fixed_offset,
        func_table,
    );
    match lowered_body {
        Ok(_) => {},
        Err(e) => {
            return Err(e);
        },
    }
    if is_entry {
        rstr.append(label(":return", func_def.id).as_str());
        rstr.append("\nb done\n");
        assert(rstr@ =~= entry_pre(*func_def) + lower_body(
            *func_def,
            func_table@,
            func_def.proc_contents@,
            fixed(*func_def),
        )->Ok_0.0 + entry_post(*func_def));
    } else {
        rstr.append(label("\n:return", func_def.id).as_str());
        rstr.append(
            "\nH\nx\nh\ns/^\\(.*\\)\\(\\n:retlabel[0-9]\\+[^|]*|.*\\)$/\\1/\nx\ns/^\\(.*\\)\\(\\n:retlabel[0-9]\\+[^|]*|.*\\)$/\\2/\n",
        );
        let found = push_trampoline(tree, &func_def.name, &mut rstr);
        if !found {
            return Err(CompileErr::Fatal);
        }
        assert(rstr@ =~= func_pre(*func_def) + lower_body(
            *func_def,
            func_table@,
            func_def.proc_contents@,
            fixed(*func_def),
        )->Ok_0.0 + func_post(*func_def) + trampoline(entries_view(tree@), func_def.name@));
    }
    Ok(rstr)
}

/// The whole script of an assembled table.
fn sedgen_func_table(func_table: &Vec<FuncDef>) -> (r: Result<String, CompileErr>)
    requires
        table_well_formed(func_table@),
    ensures
        match script(func_table@) {
            Ok(c) => r matches Ok(s) && s@ == c,
            Err(e) => r matches Err(x) && x@ == e,
        },
{
    let ghost t = func_table@;
    let tree = match create_return_dispatcher_table(func_table) {
        Ok(tree) => tree,
        Err(e) => {
            return Err(e);
        },
    };
    let ghost es = entries_view(tree@);
    let mut rstr = String::new();
    let mut i: usize = 0;
    proof {
        assert(t.subrange(0, 0) =~= Seq::<FuncDef>::empty());
    }
    while i < func_table.len()
        invariant
            i <= t.len(),
            t == func_table@,
            es == entries_view(tree@),
            entries_prog(t, t) == Ok::<Seq<(Seq<char>, Seq<char>)>, ErrView>(es),
            table_well_formed(t),
            funcs_code(t, t.subrange(0, i as int), es) == Ok::<Seq<char>, ErrView>(rstr@),
        decreases t.len() - i,
    {
        proof {
            assert(t.subrange(0, i + 1).subrange(0, i as int) =~= t.subrange(0, i as int));
            assert(t.subrange(0, i + 1)[i as int] == t[i as int]);
        }
        match sedgen_func_def(&func_table[i], func_table, &tree) {
            Ok(code) => {
                rstr.append(code.as_str());
            },
            Err(e) => {
                proof {
                    assert(funcs_code(t, t.subrange(0, i + 1), es) is Err);
                    lemma_funcs_err_prefix(t, t, es, i + 1);
                }
                return Err(e);
            },
        }
        i = i + 1;
    }
    proof {
        assert(t.subrange(0, i as int) =~= t);
    }
    rstr.append(":done");
    Ok(rstr)
}

impl CompilerBuilder<Unassembled> {
    /// An empty table.
    pub fn new() -> (r: Self)
        ensures
            r.table() == Seq::<FuncDef>::empty(),
    {
        Self {
            func_table: Vec::new(),
            consumed_table: ConsumedTable { func_label_id: 0, if_id: 0 },
            _state: PhantomData,
        }
    }

    /// Adds a function definition at the end of the table.
    pub fn add_func(self, func: FuncDef) -> (r: Self)
        ensures
            r.table() == self.table().push(func),
    {
        let mut func_table = self.func_table;
        func_table.push(func);
        CompilerBuilder { func_table, consumed_table: self.consumed_table, _state: PhantomData }
    }

    /// Numbers the table: the function named `entry` moves to the front,
    /// every function gets its position as id, call sites and conditionals
    /// are numbered across the whole program, and every call records its
    /// caller's frame size.
    pub fn assemble(self) -> (r: CompilerBuilder<Assembled>)
        requires
            counts_fit(self.table()),
        ensures
            assembled_from(hoisted(self.table()), r.table()),
    {
        let mut func_table = self.func_table;
        let ghost t = func_table@;
        proof {
            lemma_hoisted_counts(t);
            crate::ir::lemma_lookup_found(t, entry_name());
        }
        hoist_entry(&mut func_table);
        proof {
            assert forall|i: int| 0 <= i < func_table@.len() implies #[trigger] func_table@[i].argc
                + func_table@[i].localc <= usize::MAX by {
                if let Some(j) = crate::ir::lookup(t, entry_name()) {
                    if i == 0 {
                        assert(func_table@[i] == t[j as int]);
                    } else if i <= j {
                        assert(func_table@[i] == t[i - 1]);
                    } else {
                        assert(func_table@[i] == t[i]);
                    }
                }
            }
        }
        let consumed = assemble_funcs(&mut func_table);
        CompilerBuilder { func_table, consumed_table: consumed, _state: PhantomData }
    }
}

/// After assembly no two call sites of the program share a number: return
/// trampolines, which match a site by its number, never confuse two sites.
pub proof fn lemma_call_sites_unique(b: CompilerBuilder<Unassembled>, a: CompilerBuilder<Assembled>)
    requires
        assembled_from(hoisted(b.table()), a.table()),
    ensures
        forall|i: int, j: int|
            0 <= i < j < prog_calls(a.table()).len() ==> (#[trigger] prog_calls(a.table())[i]).site()
                != (#[trigger] prog_calls(a.table())[j]).site(),
{
}

/// After assembly no two conditionals of the program share an id, so their
/// labels never collide.
pub proof fn lemma_cond_ids_unique(b: CompilerBuilder<Unassembled>, a: CompilerBuilder<Assembled>)
    requires
        assembled_from(hoisted(b.table()), a.table()),
    ensures
        forall|i: int, j: int|
            0 <= i < j < prog_conds(a.table()).len() ==> #[trigger] prog_conds(a.table())[i]
                != #[trigger] prog_conds(a.table())[j],
{
}

/// After assembly every function's id is its position in the table.
pub proof fn lemma_ids_are_positions(b: CompilerBuilder<Unassembled>, a: CompilerBuilder<Assembled>)
    requires
        assembled_from(hoisted(b.table()), a.table()),
    ensures
        forall|i: int| 0 <= i < a.table().len() ==> (#[trigger] a.table()[i]).spec_id() == i,
{
}

/// If some function is named `entry`, assembly puts a function of that name
/// first.
pub proof fn lemma_entry_first(b: CompilerBuilder<Unassembled>, a: CompilerBuilder<Assembled>)
    requires
        assembled_from(hoisted(b.table()), a.table()),
    ensures
        (exists|i: int| 0 <= i < b.table().len() && (#[trigger] b.table()[i]).spec_name() == entry_name())
            ==> a.table().len() > 0 && a.table()[0].spec_name() == entry_name(),
{
    crate::ir::lemma_lookup_found(b.table(), entry_name());
    if let Some(j) = crate::ir::lookup(b.table(), entry_name()) {
        assert(hoisted(b.table())[0] == b.table()[j as int]);
        assert(a.table().len() == hoisted(b.table()).len());
    }
}

/// After assembly every call records the frame size of the function it
/// stands in: that function's arguments plus its locals.
pub proof fn lemma_caller_frames(b: CompilerBuilder<Unassembled>, a: CompilerBuilder<Assembled>)
    requires
        assembled_from(hoisted(b.table()), a.table()),
    ensures
        forall|i: int, k: int|
            0 <= i < a.table().len() && 0 <= k < calls_of(a.table()[i].body()).len() ==> (
            #[trigger] calls_of(a.table()[i].body())[k]).frame() == a.table()[i].spec_argc()
                + a.table()[i].spec_localc(),
{
}

impl CompilerBuilder<Unassembled> {
    /// Tells whether the table can be assembled: its call sites, its
    /// conditionals and each function's fixed frame can be numbered in a
    /// `usize`.
    pub fn can_assemble(&self) -> (r: bool)
        ensures
            r == counts_fit(self.table()),
    {
        let ghost t = self.func_table@;
        let mut calls: usize = 0;
        let mut conds: usize = 0;
        let mut i: usize = 0;
        proof {
            assert(t.subrange(0, 0) =~= Seq::<FuncDef>::empty());
        }
        while i < self.func_table.len()
            invariant
                i <= t.len(),
                t == self.func_table@,
                calls == prog_calls(t.subrange(0, i as int)).len(),
                conds == prog_conds(t.subrange(0, i as int)).len(),
                forall|j: int| 0 <= j < i ==> #[trigger] t[j].argc + t[j].localc <= usize::MAX,
            decreases t.len() - i,
        {
            proof {
                lemma_prog_prefix_len(t, i + 1);
                assert(t.subrange(0, i + 1).subrange(0, i as int) =~= t.subrange(0, i as int));
                assert(t.subrange(0, i + 1)[i as int] == t[i as int]);
                assert(prog_calls(t.subrange(0, i + 1)).len() == calls + calls_of(t[i as int].proc_contents@).len());
                assert(prog_conds(t.subrange(0, i + 1)).len() == conds + conds_of(t[i as int].proc_contents@).len());
            }
            let f = &self.func_table[i];
            if f.argc > usize::MAX - f.localc {
                return false;
            }
            match count_ids(&f.proc_contents) {
                Some((a, b)) => {
                    if a > usize::MAX - calls || b > usize::MAX - conds {
                        return false;
                    }
                    calls = calls + a;
                    conds = conds + b;
                },
                None => {
                    return false;
                },
            }
            i = i + 1;
        }
        proof {
            assert(t.subrange(0, i as int) =~= t);
        }
        true
    }
}

impl CompilerBuilder<Assembled> {
    /// Tells whether the table can be generated from: every body uses only
    /// slots of its own frame, and the deepest stack each function can reach
    /// fits in a `usize`.
    pub fn well_formed(&self) -> (r: bool)
        ensures
            r == table_well_formed(self.table()),
    {
        let ghost t = self.func_table@;
        let mut i: usize = 0;
        while i < self.func_table.len()
            invariant
                i <= t.len(),
                t == self.func_table@,
                forall|j: int|
                    0 <= j < i ==> {
                        &&& #[trigger] t[j].argc + t[j].localc + growth(t, t[j].proc_contents@)
                            <= usize::MAX
                        &&& slots_in(t[j].proc_contents@, t[j].argc as nat, t[j].localc as nat)
                    },
            decreases t.len() - i,
        {
            let f = &self.func_table[i];
            if f.argc > usize::MAX - f.localc {
                return false;
            }
            if !slots_ok(&f.proc_contents, f.argc, f.localc) {
                return false;
            }
            if growth_within(&self.func_table, &f.proc_contents, usize::MAX - f.argc - f.localc).is_none() {
                return false;
            }
            i = i + 1;
        }
        true
    }
}

impl CompilerBuilder<Assembled> {
    /// Generates the script, or the first error: a call of an unknown
    /// function, a stack violation, or a function that no call site reaches.
    pub fn generate(self) -> (r: Result<String, CompileErr>)
        requires
            table_well_formed(self.table()),
        ensures
            match script(self.table()) {
                Ok(c) => r matches Ok(s) && s@ == c,
                Err(e) => r matches Err(x) && x@ == e,
            },
    {
        sedgen_func_table(&self.func_table)
    }
}

} // verus!
