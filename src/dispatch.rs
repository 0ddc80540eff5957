//! Return dispatch: for every call site, a guarded rule that recognises the
//! site's return marker in the hold space, restores the caller's frame,
//! splices in the callee's results and jumps back to the site.

use vstd::prelude::*;
use crate::ir::{
    find_function_definition_by_name, lookup, CallFunc, CompileErr, ErrView, FuncDef,
    SedInstruction,
};
use crate::text::{lbl, rep, repeat_str};

verus! {

/// The trampoline rule of one call site, filed under the callee's name.
#[derive(Debug)]
pub struct ReturnAddrResolveCode {
    pub(crate) func_name: String,
    pub(crate) code: String,
}

impl ReturnAddrResolveCode {
    /// The callee's name and the rule.
    pub open(crate) spec fn entry(&self) -> (Seq<char>, Seq<char>) {
        (self.func_name@, self.code@)
    }

    /// The name of the function that returns through this rule.
    pub fn func_name(&self) -> (r: &str)
        ensures
            r@ == self.entry().0,
    {
        self.func_name.as_str()
    }

    /// The rule.
    pub fn code(&self) -> (r: &str)
        ensures
            r@ == self.entry().1,
    {
        self.code.as_str()
    }
}

/// The entries of a list of trampoline rules.
pub open(crate) spec fn entries_view(v: Seq<ReturnAddrResolveCode>) -> Seq<(Seq<char>, Seq<char>)> {
    Seq::new(v.len(), |i: int| v[i].entry())
}

/// The group that captures the caller's `frame` fixed slots.
pub open(crate) spec fn frame_group(frame: nat) -> Seq<char> {
    if frame > 0 {
        "\\("@ + rep("~[^\\~]*"@, (frame - 1) as nat) + "~[^\\|]*"@ + "\\)"@
    } else {
        "\\(\\)"@
    }
}

/// The rule for call site `c` of callee `g`.
pub open(crate) spec fn dispatch_code(c: CallFunc, g: FuncDef) -> Seq<char> {
    "/^.*\\n:"@ + lbl("retlabel"@, c.return_addr_marker.0 as nat) + "~[^\\|]*|.*$/ {\n"@
        + "s/.*\\n:"@ + lbl("retlabel"@, c.return_addr_marker.0 as nat) + rep(
        "~[^\\~]*"@,
        g.argc as nat,
    ) + frame_group(c.localc as nat) + "|\\n"@ + "\\("@ + rep("~[^\\~;]*"@, g.retc as nat)
        + "\\)"@ + ";$/"@ + "\\1\\2"@ + "/\n"@ + "b "@ + lbl(
        "retlabel"@,
        c.return_addr_marker.0 as nat,
    ) + "\n"@ + "}\n"@
}

/// The trampoline entries of a body's call sites, in pre-order; the first
/// call of an unknown function is an error.
pub open(crate) spec fn entries_body(t: Seq<FuncDef>, b: Seq<SedInstruction>) -> Result<
    Seq<(Seq<char>, Seq<char>)>,
    ErrView,
>
    decreases b,
{
    if b.len() == 0 {
        Ok(Seq::empty())
    } else {
        match entries_body(t, b.subrange(0, b.len() - 1)) {
            Err(e) => Err(e),
            Ok(e1) => match entries_instr(t, b[b.len() - 1]) {
                Err(e) => Err(e),
                Ok(e2) => Ok(e1 + e2),
            },
        }
    }
}

pub open(crate) spec fn entries_instr(t: Seq<FuncDef>, i: SedInstruction) -> Result<
    Seq<(Seq<char>, Seq<char>)>,
    ErrView,
>
    decreases i,
{
    match i {
        SedInstruction::Call(c) => match lookup(t, c.func_name@) {
            None => Err(ErrView::UndefinedFunction(c.func_name@)),
            Some(j) => Ok(seq![(c.func_name@, dispatch_code(c, t[j as int]))]),
        },
        SedInstruction::IfProc(p) => match entries_body(t, p.then_proc@) {
            Err(e) => Err(e),
            Ok(e1) => match entries_body(t, p.else_proc@) {
                Err(e) => Err(e),
                Ok(e2) => Ok(e1 + e2),
            },
        },
        _ => Ok(Seq::empty()),
    }
}

/// The trampoline entries of the functions `fs`, in order, whose callees
/// are looked up in `t`.
pub open(crate) spec fn entries_prog(t: Seq<FuncDef>, fs: Seq<FuncDef>) -> Result<
    Seq<(Seq<char>, Seq<char>)>,
    ErrView,
>
    decreases fs.len(),
{
    if fs.len() == 0 {
        Ok(Seq::empty())
    } else {
        match entries_prog(t, fs.subrange(0, fs.len() - 1)) {
            Err(e) => Err(e),
            Ok(e1) => match entries_body(t, fs[fs.len() - 1].proc_contents@) {
                Err(e) => Err(e),
                Ok(e2) => Ok(e1 + e2),
            },
        }
    }
}

/// The rules filed under `name`, in order.
pub open(crate) spec fn trampoline(es: Seq<(Seq<char>, Seq<char>)>, name: Seq<char>) -> Seq<char>
    decreases es.len(),
{
    if es.len() == 0 {
        Seq::empty()
    } else {
        trampoline(es.subrange(0, es.len() - 1), name) + if es[es.len() - 1].0 == name {
            es[es.len() - 1].1
        } else {
            Seq::empty()
        }
    }
}

/// Some rule is filed under `name`.
pub open(crate) spec fn has_caller(es: Seq<(Seq<char>, Seq<char>)>, name: Seq<char>) -> bool {
    exists|i: int| 0 <= i < es.len() && #[trigger] es[i].0 == name
}

pub(crate) proof fn lemma_entries_push(v: Seq<ReturnAddrResolveCode>, x: ReturnAddrResolveCode)
    ensures
        entries_view(v.push(x)) == entries_view(v).push(x.entry()),
{
    assert(entries_view(v.push(x)) =~= entries_view(v).push(x.entry()));
}

pub(crate) proof fn lemma_entries_err_prefix(t: Seq<FuncDef>, b: Seq<SedInstruction>, i: int)
    requires
        0 <= i <= b.len(),
        entries_body(t, b.subrange(0, i)) is Err,
    ensures
        entries_body(t, b) == entries_body(t, b.subrange(0, i)),
    decreases b.len() - i,
{
    if i < b.len() {
        assert(b.subrange(0, i + 1).subrange(0, i) =~= b.subrange(0, i));
        lemma_entries_err_prefix(t, b, i + 1);
    } else {
        assert(b.subrange(0, i) =~= b);
    }
}

pub(crate) proof fn lemma_prog_err_prefix(t: Seq<FuncDef>, fs: Seq<FuncDef>, i: int)
    requires
        0 <= i <= fs.len(),
        entries_prog(t, fs.subrange(0, i)) is Err,
    ensures
        entries_prog(t, fs) == entries_prog(t, fs.subrange(0, i)),
    decreases fs.len() - i,
{
    if i < fs.len() {
        assert(fs.subrange(0, i + 1).subrange(0, i) =~= fs.subrange(0, i));
        lemma_prog_err_prefix(t, fs, i + 1);
    } else {
        assert(fs.subrange(0, i) =~= fs);
    }
}

/// The trampoline rule of call site `func_call`, whose callee is `func_def`.
fn dispatch_rule(func_call: &CallFunc, func_def: &FuncDef) -> (r: String)
    ensures
        r@ == dispatch_code(*func_call, *func_def),
{
    let k = func_call.return_addr_marker.0;
    let retlabel = func_call.return_addr_marker.get_retlabel();
    let mut rstr = String::from_str("/^.*\\n:");
    rstr.append(retlabel.as_str());
    rstr.append("~[^\\|]*|.*$/ {\n");
    rstr.append("s/.*\\n:");
    rstr.append(retlabel.as_str());
    rstr.append(repeat_str("~[^\\~]*", func_def.argc).as_str());
    // the caller's fixed slots are captured and restored
    if 0 < func_call.localc {
        rstr.append("\\(");
        rstr.append(repeat_str("~[^\\~]*", func_call.localc - 1).as_str());
        rstr.append("~[^\\|]*");
        rstr.append("\\)");
    } else {
        rstr.append("\\(\\)");
    }
    rstr.append("|\\n");
    rstr.append("\\(");
    rstr.append(repeat_str("~[^\\~;]*", func_def.retc).as_str());
    rstr.append("\\)");
    rstr.append(";$/");
    rstr.append("\\1\\2");
    rstr.append("/\n");
    rstr.append("b ");
    rstr.append(retlabel.as_str());
    rstr.append("\n");
    rstr.append("}\n");
    assert(rstr@ =~= dispatch_code(*func_call, *func_def));
    rstr
}

/// Appends the trampoline rules of a body's call sites to `rvec`.
pub(crate) fn sedgen_return_dispatcher(
    proc_contents: &Vec<SedInstruction>,
    func_table: &Vec<FuncDef>,
    rvec: &mut Vec<ReturnAddrResolveCode>,
) -> (r: Result<(), CompileErr>)
    ensures
        match entries_body(func_table@, proc_contents@) {
            Ok(es) => r is Ok && entries_view(final(rvec)@) == entries_view(old(rvec)@) + es,
            Err(e) => r matches Err(x) && x@ == e,
        },
    decreases proc_contents@,
{
    let ghost b = proc_contents@;
    let ghost t = func_table@;
    let ghost start = entries_view(rvec@);
    let ghost mut es: Seq<(Seq<char>, Seq<char>)> = Seq::empty();
    proof {
        assert(b.subrange(0, 0) =~= Seq::<SedInstruction>::empty());
        assert(entries_view(rvec@) =~= start + es);
    }
    let mut i: usize = 0;
    while i < proc_contents.len()
        invariant
            i <= b.len(),
            b == proc_contents@,
            t == func_table@,
            entries_view(rvec@) == start + es,
            entries_body(t, b.subrange(0, i as int)) == Ok::<Seq<(Seq<char>, Seq<char>)>, ErrView>(es),
        decreases b.len() - i,
    {
        proof {
            assert(b.subrange(0, i + 1).subrange(0, i as int) =~= b.subrange(0, i as int));
            assert(b.subrange(0, i + 1)[i as int] == b[i as int]);
            assert(decreases_to!(b => b[i as int]));
        }
        match &proc_contents[i] {
            SedInstruction::Call(f) => {
                match find_function_definition_by_name(&f.func_name, func_table) {
                    Ok(g) => {
                        let code = dispatch_rule(f, g);
                        let item = ReturnAddrResolveCode { func_name: f.func_name.clone(), code };
                        proof {
                            lemma_entries_push(rvec@, item);
                        }
                        rvec.push(item);
                        proof {
                            es = es + seq![(f.func_name@, dispatch_code(*f, *g))];
                            assert(entries_view(rvec@) =~= start + es);
                        }
                    },
                    Err(e) => {
                        proof {
                            assert(entries_instr(t, b[i as int]) is Err);
                            assert(entries_body(t, b.subrange(0, i + 1)) is Err);
                            lemma_entries_err_prefix(t, b, i + 1);
                        }
                        return Err(e);
                    },
                }
            },
            SedInstruction::IfProc(if_proc) => {
                proof {
                    assert(decreases_to!(b[i as int] => if_proc.then_proc@));
                    assert(decreases_to!(b[i as int] => if_proc.else_proc@));
                }
                match sedgen_return_dispatcher(&if_proc.then_proc, func_table, rvec) {
                    Ok(()) => {},
                    Err(e) => {
                        proof {
                            lemma_entries_err_prefix(t, b, i + 1);
                        }
                        return Err(e);
                    },
                }
                match sedgen_return_dispatcher(&if_proc.else_proc, func_table, rvec) {
                    Ok(()) => {},
                    Err(e) => {
                        proof {
                            lemma_entries_err_prefix(t, b, i + 1);
                        }
                        return Err(e);
                    },
                }
                proof {
                    let e1 = entries_body(t, if_proc.then_proc@)->Ok_0;
                    let e2 = entries_body(t, if_proc.else_proc@)->Ok_0;
                    es = es + (e1 + e2);
                    assert(entries_view(rvec@) =~= start + es);
                }
            },
            _ => {
                proof {
                    assert(es + Seq::<(Seq<char>, Seq<char>)>::empty() =~= es);
                }
            },
        }
        i = i + 1;
    }
    proof {
        assert(b.subrange(0, i as int) =~= b);
    }
    Ok(())
}

/// The trampoline rules of every call site of the table, function by
/// function, each filed under its callee's name.
pub fn create_return_dispatcher_table(func_table: &Vec<FuncDef>) -> (r: Result<
    Vec<ReturnAddrResolveCode>,
    CompileErr,
>)
    ensures
        match entries_prog(func_table@, func_table@) {
            Ok(es) => r matches Ok(v) && entries_view(v@) == es,
            Err(e) => r matches Err(x) && x@ == e,
        },
{
    let ghost t = func_table@;
    let mut rdic: Vec<ReturnAddrResolveCode> = Vec::new();
    proof {
        assert(t.subrange(0, 0) =~= Seq::<FuncDef>::empty());
        assert(entries_view(rdic@) =~= Seq::empty());
    }
    let mut i: usize = 0;
    while i < func_table.len()
        invariant
            i <= t.len(),
            t == func_table@,
            entries_prog(t, t.subrange(0, i as int)) == Ok::<Seq<(Seq<char>, Seq<char>)>, ErrView>(
                entries_view(rdic@),
            ),
        decreases t.len() - i,
    {
        proof {
            assert(t.subrange(0, i + 1).subrange(0, i as int) =~= t.subrange(0, i as int));
            assert(t.subrange(0, i + 1)[i as int] == t[i as int]);
        }
        match sedgen_return_dispatcher(&func_table[i].proc_contents, func_table, &mut rdic) {
            Ok(()) => {},
            Err(e) => {
                proof {
                    lemma_prog_err_prefix(t, t, i + 1);
                }
                return Err(e);
            },
        }
        i = i + 1;
    }
    proof {
        assert(t.subrange(0, i as int) =~= t);
    }
    Ok(rdic)
}

/// Appends the rules filed under `name` to `rstr`; tells whether there was
/// any.
pub(crate) fn push_trampoline(codes: &Vec<ReturnAddrResolveCode>, name: &String, rstr: &mut String) -> (r:
    bool)
    ensures
        final(rstr)@ == old(rstr)@ + trampoline(entries_view(codes@), name@),
        r == has_caller(entries_view(codes@), name@),
{
    let ghost es = entries_view(codes@);
    let ghost before = rstr@;
    let mut found = false;
    let mut i: usize = 0;
    proof {
        assert(es.subrange(0, 0) =~= Seq::<(Seq<char>, Seq<char>)>::empty());
        assert(rstr@ =~= before + trampoline(es.subrange(0, 0), name@));
    }
    while i < codes.len()
        invariant
            i <= codes.len(),
            es == entries_view(codes@),
            rstr@ == before + trampoline(es.subrange(0, i as int), name@),
            found == exists|j: int| 0 <= j < i && #[trigger] es[j].0 == name@,
        decreases codes.len() - i,
    {
        proof {
            assert(es.subrange(0, i + 1).subrange(0, i as int) =~= es.subrange(0, i as int));
            assert(es.subrange(0, i + 1)[i as int] == es[i as int]);
        }
        if codes[i].func_name == *name {
            rstr.append(codes[i].code.as_str());
            found = true;
            assert(rstr@ =~= before + trampoline(es.subrange(0, i + 1), name@));
        } else {
            assert(rstr@ =~= before + trampoline(es.subrange(0, i + 1), name@));
        }
        i = i + 1;
    }
    proof {
        assert(es.subrange(0, i as int) =~= es);
    }
    found
}

} // verus!
