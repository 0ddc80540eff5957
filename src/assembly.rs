//! The assembly pass: entry hoisting, call-site numbering, function ids,
//! caller frame sizes and conditional ids.

use vstd::prelude::*;
use crate::ir::{
    calls_of, calls_of_instr, conds_of, conds_of_instr, lookup, lemma_lookup_found,
    same_instr, same_shape, find_function_index, FuncDef, ReturnAddrMarker,
    SedInstruction,
};

verus! {

/// The calls of a table's bodies, function by function.
pub open(crate) spec fn prog_calls(t: Seq<FuncDef>) -> Seq<crate::ir::CallFunc>
    decreases t.len(),
{
    if t.len() == 0 {
        Seq::empty()
    } else {
        prog_calls(t.subrange(0, t.len() - 1)) + calls_of(t[t.len() - 1].proc_contents@)
    }
}

/// The conditional ids of a table's bodies, function by function.
pub open(crate) spec fn prog_conds(t: Seq<FuncDef>) -> Seq<nat>
    decreases t.len(),
{
    if t.len() == 0 {
        Seq::empty()
    } else {
        prog_conds(t.subrange(0, t.len() - 1)) + conds_of(t[t.len() - 1].proc_contents@)
    }
}

/// The name of the function that the script starts with.
pub open(crate) spec fn entry_name() -> Seq<char> {
    "entry"@
}

/// The table with its first function named `entry` moved to the front.
pub open(crate) spec fn hoisted(t: Seq<FuncDef>) -> Seq<FuncDef> {
    match lookup(t, entry_name()) {
        Some(j) => seq![t[j as int]] + t.remove(j as int),
        None => t,
    }
}

/// `g` is `f` up to the numbers that assembly assigns: the same name,
/// arities and body shape.
pub open(crate) spec fn same_header(f: FuncDef, g: FuncDef) -> bool {
    &&& g.name@ == f.name@
    &&& g.argc == f.argc
    &&& g.localc == f.localc
    &&& g.retc == f.retc
    &&& same_shape(f.proc_contents@, g.proc_contents@)
}

pub(crate) proof fn lemma_calls_prefix_len(b: Seq<SedInstruction>, i: int)
    requires
        0 <= i <= b.len(),
    ensures
        calls_of(b.subrange(0, i)).len() <= calls_of(b).len(),
        conds_of(b.subrange(0, i)).len() <= conds_of(b).len(),
    decreases b.len() - i,
{
    if i < b.len() {
        assert(b.subrange(0, i + 1).subrange(0, i) =~= b.subrange(0, i));
        lemma_calls_prefix_len(b, i + 1);
    } else {
        assert(b.subrange(0, i) =~= b);
    }
}

pub(crate) proof fn lemma_prog_prefix_len(t: Seq<FuncDef>, i: int)
    requires
        0 <= i <= t.len(),
    ensures
        prog_calls(t.subrange(0, i)).len() <= prog_calls(t).len(),
        prog_conds(t.subrange(0, i)).len() <= prog_conds(t).len(),
    decreases t.len() - i,
{
    if i < t.len() {
        assert(t.subrange(0, i + 1).subrange(0, i) =~= t.subrange(0, i));
        lemma_prog_prefix_len(t, i + 1);
    } else {
        assert(t.subrange(0, i) =~= t);
    }
}

/// Numbers the calls of a body from `call_start` and its conditionals from
/// `cond_start`, in pre-order, and records `frame` as every call's caller
/// frame size. Returns the next free call-site and conditional numbers.
pub(crate) fn assign_ids(
    body: &mut Vec<SedInstruction>,
    call_start: usize,
    frame: usize,
    cond_start: usize,
) -> (r: (usize, usize))
    requires
        call_start + calls_of(old(body)@).len() <= usize::MAX,
        cond_start + conds_of(old(body)@).len() <= usize::MAX,
    ensures
        same_shape(old(body)@, final(body)@),
        calls_of(final(body)@).len() == calls_of(old(body)@).len(),
        forall|k: int|
            0 <= k < calls_of(final(body)@).len() ==> (#[trigger] calls_of(final(body)@)[k]).site()
                == call_start + k && calls_of(final(body)@)[k].frame() == frame,
        conds_of(final(body)@).len() == conds_of(old(body)@).len(),
        forall|k: int|
            0 <= k < conds_of(final(body)@).len() ==> #[trigger] conds_of(final(body)@)[k]
                == cond_start + k,
        r.0 == call_start + calls_of(old(body)@).len(),
        r.1 == cond_start + conds_of(old(body)@).len(),
    decreases old(body)@,
{
    let ghost b0 = body@;
    let mut calls = call_start;
    let mut conds = cond_start;
    let mut i: usize = 0;
    proof {
        assert(b0.subrange(0, 0) =~= Seq::<SedInstruction>::empty());
        assert(body@.subrange(0, 0) =~= Seq::<SedInstruction>::empty());
    }
    while i < body.len()
        invariant
            i <= body.len(),
            b0 == old(body)@,
            body.len() == b0.len(),
            call_start + calls_of(b0).len() <= usize::MAX,
            cond_start + conds_of(b0).len() <= usize::MAX,
            forall|j: int| i <= j < body.len() ==> body@[j] == b0[j],
            same_shape(b0.subrange(0, i as int), body@.subrange(0, i as int)),
            calls_of(body@.subrange(0, i as int)).len() == calls_of(b0.subrange(0, i as int)).len(),
            forall|k: int|
                0 <= k < calls_of(body@.subrange(0, i as int)).len() ==> (#[trigger] calls_of(
                    body@.subrange(0, i as int),
                )[k]).site() == call_start + k && calls_of(body@.subrange(0, i as int))[k].frame()
                    == frame,
            conds_of(body@.subrange(0, i as int)).len() == conds_of(b0.subrange(0, i as int)).len(),
            forall|k: int|
                0 <= k < conds_of(body@.subrange(0, i as int)).len() ==> #[trigger] conds_of(
                    body@.subrange(0, i as int),
                )[k] == cond_start + k,
            calls == call_start + calls_of(b0.subrange(0, i as int)).len(),
            conds == cond_start + conds_of(b0.subrange(0, i as int)).len(),
        decreases b0.len() - i,
    {
        let ghost pre = body@.subrange(0, i as int);
        proof {
            lemma_calls_prefix_len(b0, i + 1);
            assert(b0.subrange(0, i + 1).subrange(0, i as int) =~= b0.subrange(0, i as int));
            assert(b0.subrange(0, i + 1)[i as int] == b0[i as int]);
            assert(decreases_to!(b0 => b0[i as int]));
            assert(calls_of(b0.subrange(0, i + 1)) == calls_of(b0.subrange(0, i as int)) + calls_of_instr(b0[i as int]));
            assert(conds_of(b0.subrange(0, i + 1)) == conds_of(b0.subrange(0, i as int)) + conds_of_instr(b0[i as int]));
        }
        match &mut body[i] {
            SedInstruction::Call(f) => {
                f.return_addr_marker = ReturnAddrMarker(calls);
                f.localc = frame;
                calls = calls + 1;
            },
            SedInstruction::IfProc(if_proc) => {
                proof {
                    assert(decreases_to!(b0[i as int] => if_proc.then_proc@));
                    assert(decreases_to!(b0[i as int] => if_proc.else_proc@));
                }
                if_proc.id = conds;
                let (c1, d1) = assign_ids(&mut if_proc.then_proc, calls, frame, conds + 1);
                let (c2, d2) = assign_ids(&mut if_proc.else_proc, c1, frame, d1);
                calls = c2;
                conds = d2;
            },
            _ => {},
        }
        proof {
            let post = body@.subrange(0, i + 1);
            assert(post.subrange(0, i as int) =~= pre);
            assert(post[i as int] == body@[i as int]);
            assert(same_instr(b0[i as int], body@[i as int]));
            let cs = calls_of(post);
            assert(cs =~= calls_of(pre) + calls_of_instr(body@[i as int]));
            assert forall|k: int| 0 <= k < cs.len() implies (#[trigger] cs[k]).site() == call_start
                + k && cs[k].frame() == frame by {
                if k >= calls_of(pre).len() {
                    match body@[i as int] {
                        SedInstruction::IfProc(p) => {
                            let n1 = calls_of(p.then_proc@).len();
                            let k2 = k - calls_of(pre).len();
                            if k2 < n1 {
                                assert(cs[k] == calls_of(p.then_proc@)[k2]);
                            } else {
                                assert(cs[k] == calls_of(p.else_proc@)[k2 - n1]);
                            }
                        },
                        _ => {},
                    }
                }
            }
            let ds = conds_of(post);
            assert(ds =~= conds_of(pre) + conds_of_instr(body@[i as int]));
            assert forall|k: int| 0 <= k < ds.len() implies #[trigger] ds[k] == cond_start + k by {
                if k >= conds_of(pre).len() {
                    match body@[i as int] {
                        SedInstruction::IfProc(p) => {
                            let n1 = conds_of(p.then_proc@).len();
                            let k2 = k - conds_of(pre).len();
                            if k2 == 0 {
                            } else if k2 - 1 < n1 {
                                assert(ds[k] == conds_of(p.then_proc@)[k2 - 1]);
                            } else {
                                assert(ds[k] == conds_of(p.else_proc@)[k2 - 1 - n1]);
                            }
                        },
                        _ => {},
                    }
                }
            }
        }
        i = i + 1;
    }
    proof {
        assert(b0.subrange(0, i as int) =~= b0);
        assert(body@.subrange(0, i as int) =~= body@);
    }
    (calls, conds)
}

pub(crate) proof fn lemma_prog_concat(a: Seq<FuncDef>, b: Seq<FuncDef>)
    ensures
        prog_calls(a + b).len() == prog_calls(a).len() + prog_calls(b).len(),
        prog_conds(a + b).len() == prog_conds(a).len() + prog_conds(b).len(),
    decreases b.len(),
{
    if b.len() > 0 {
        let b1 = b.subrange(0, b.len() - 1);
        assert((a + b).subrange(0, (a + b).len() - 1) =~= a + b1);
        assert((a + b)[(a + b).len() - 1] == b[b.len() - 1]);
        lemma_prog_concat(a, b1);
    } else {
        assert(a + b =~= a);
    }
}

/// Moving the entry function to the front keeps the number of call sites
/// and conditionals.
pub(crate) proof fn lemma_hoisted_counts(t: Seq<FuncDef>)
    ensures
        hoisted(t).len() == t.len(),
        prog_calls(hoisted(t)).len() == prog_calls(t).len(),
        prog_conds(hoisted(t)).len() == prog_conds(t).len(),
{
    lemma_lookup_found(t, entry_name());
    if let Some(j) = lookup(t, entry_name()) {
        let j = j as int;
        let pre = t.subrange(0, j);
        let x = seq![t[j]];
        let post = t.subrange(j + 1, t.len() as int);
        assert(t =~= pre + x + post);
        assert(t.remove(j) =~= pre + post);
        assert(hoisted(t) =~= x + (pre + post));
        lemma_prog_concat(pre + x, post);
        lemma_prog_concat(pre, x);
        lemma_prog_concat(x, pre + post);
        lemma_prog_concat(pre, post);
    }
}

/// Moves the first function named `entry` to the front of the table.
pub(crate) fn hoist_entry(func_table: &mut Vec<FuncDef>)
    ensures
        final(func_table)@ == hoisted(old(func_table)@),
{
    let entry = String::from_str("entry");
    proof {
        lemma_lookup_found(func_table@, entry@);
    }
    if let Some(j) = find_function_index(&entry, func_table) {
        let elem = func_table.remove(j);
        func_table.insert(0, elem);
        assert(func_table@ =~= hoisted(old(func_table)@));
    }
}

/// What the assembly pass leaves: the next free call-site number and the
/// next free conditional id.
pub struct ConsumedTable {
    pub(crate) func_label_id: usize,
    pub(crate) if_id: usize,
}

/// The table `n` is the table `h` assembled: the same functions in the same
/// order, each with its position as id, call sites numbered across the
/// whole program, every call recording its caller's frame size, and
/// conditionals numbered across the whole program.
pub open(crate) spec fn assembled_from(h: Seq<FuncDef>, n: Seq<FuncDef>) -> bool {
    &&& n.len() == h.len()
    &&& forall|i: int| 0 <= i < n.len() ==> same_header(h[i], #[trigger] n[i])
    &&& forall|i: int| 0 <= i < n.len() ==> (#[trigger] n[i]).id == i
    &&& forall|i: int|
        0 <= i < n.len() ==> (#[trigger] n[i]).return_addr_offset.0 == prog_calls(
            n.subrange(0, i),
        ).len()
    &&& forall|i: int, k: int|
        0 <= i < n.len() && 0 <= k < calls_of(n[i].proc_contents@).len() ==> (#[trigger] calls_of(
            n[i].proc_contents@,
        )[k]).frame() == n[i].argc + n[i].localc
    &&& prog_calls(n).len() == prog_calls(h).len()
    &&& forall|k: int| 0 <= k < prog_calls(n).len() ==> (#[trigger] prog_calls(n)[k]).site() == k
    &&& prog_conds(n).len() == prog_conds(h).len()
    &&& forall|k: int| 0 <= k < prog_conds(n).len() ==> #[trigger] prog_conds(n)[k] == k
}

/// Numbers every function, call site and conditional of the table.
pub(crate) fn assemble_funcs(func_table: &mut Vec<FuncDef>) -> (r: ConsumedTable)
    requires
        prog_calls(old(func_table)@).len() <= usize::MAX,
        prog_conds(old(func_table)@).len() <= usize::MAX,
        forall|i: int|
            0 <= i < old(func_table)@.len() ==> #[trigger] old(func_table)@[i].argc
                + old(func_table)@[i].localc <= usize::MAX,
    ensures
        assembled_from(old(func_table)@, final(func_table)@),
        r.func_label_id == prog_calls(old(func_table)@).len(),
        r.if_id == prog_conds(old(func_table)@).len(),
{
    let ghost t0 = func_table@;
    let mut pad: usize = 0;
    let mut if_min_id: usize = 0;
    let mut i: usize = 0;
    proof {
        assert(t0.subrange(0, 0) =~= Seq::<FuncDef>::empty());
        assert(func_table@.subrange(0, 0) =~= Seq::<FuncDef>::empty());
    }
    while i < func_table.len()
        invariant
            i <= func_table.len(),
            func_table.len() == t0.len(),
            t0 == old(func_table)@,
            prog_calls(t0).len() <= usize::MAX,
            prog_conds(t0).len() <= usize::MAX,
            forall|j: int| 0 <= j < t0.len() ==> #[trigger] t0[j].argc + t0[j].localc <= usize::MAX,
            forall|j: int| i <= j < t0.len() ==> func_table@[j] == t0[j],
            forall|j: int| 0 <= j < i ==> same_header(t0[j], #[trigger] func_table@[j]),
            forall|j: int| 0 <= j < i ==> (#[trigger] func_table@[j]).id == j,
            forall|j: int|
                0 <= j < i ==> (#[trigger] func_table@[j]).return_addr_offset.0 == prog_calls(
                    func_table@.subrange(0, j),
                ).len(),
            forall|j: int, k: int|
                0 <= j < i && 0 <= k < calls_of(func_table@[j].proc_contents@).len() ==> (
                #[trigger] calls_of(func_table@[j].proc_contents@)[k]).frame() == func_table@[j].argc
                    + func_table@[j].localc,
            prog_calls(func_table@.subrange(0, i as int)).len() == prog_calls(t0.subrange(0, i as int)).len(),
            forall|k: int|
                0 <= k < prog_calls(func_table@.subrange(0, i as int)).len() ==> (#[trigger] prog_calls(
                    func_table@.subrange(0, i as int),
                )[k]).site() == k,
            prog_conds(func_table@.subrange(0, i as int)).len() == prog_conds(t0.subrange(0, i as int)).len(),
            forall|k: int|
                0 <= k < prog_conds(func_table@.subrange(0, i as int)).len() ==> #[trigger] prog_conds(
                    func_table@.subrange(0, i as int),
                )[k] == k,
            pad == prog_calls(t0.subrange(0, i as int)).len(),
            if_min_id == prog_conds(t0.subrange(0, i as int)).len(),
        decreases t0.len() - i,
    {
        let ghost pre = func_table@.subrange(0, i as int);
        let ghost ft0 = func_table@;
        proof {
            lemma_prog_prefix_len(t0, i + 1);
            assert(t0.subrange(0, i + 1).subrange(0, i as int) =~= t0.subrange(0, i as int));
            assert(t0.subrange(0, i + 1)[i as int] == t0[i as int]);
        }
        let frame = func_table[i].argc + func_table[i].localc;
        let (next_pad, next_if) = assign_ids(&mut func_table[i].proc_contents, pad, frame, if_min_id);
        func_table[i].id = i;
        func_table[i].return_addr_offset = ReturnAddrMarker(pad);
        proof {
            let post = func_table@.subrange(0, i + 1);
            assert(post.subrange(0, i as int) =~= pre);
            assert(post[i as int] == func_table@[i as int]);
            assert forall|j: int| 0 <= j <= i implies (#[trigger] func_table@[j]).return_addr_offset.0
                == prog_calls(func_table@.subrange(0, j)).len() by {
                assert(func_table@.subrange(0, j) =~= ft0.subrange(0, j));
                if j < i {
                    assert(func_table@[j] == ft0[j]);
                }
            }
            assert(func_table@.subrange(0, i as int) =~= pre);
            let cs = prog_calls(post);
            let own = calls_of(func_table@[i as int].proc_contents@);
            assert(cs =~= prog_calls(pre) + own);
            assert forall|k: int| 0 <= k < cs.len() implies (#[trigger] cs[k]).site() == k by {
                if k >= prog_calls(pre).len() {
                    assert(cs[k] == own[k - prog_calls(pre).len()]);
                }
            }
            let ds = prog_conds(post);
            let own_d = conds_of(func_table@[i as int].proc_contents@);
            assert(ds =~= prog_conds(pre) + own_d);
            assert forall|k: int| 0 <= k < ds.len() implies #[trigger] ds[k] == k by {
                if k >= prog_conds(pre).len() {
                    assert(ds[k] == own_d[k - prog_conds(pre).len()]);
                }
            }
        }
        pad = next_pad;
        if_min_id = next_if;
        i = i + 1;
    }
    proof {
        assert(t0.subrange(0, i as int) =~= t0);
        assert(func_table@.subrange(0, i as int) =~= func_table@);
    }
    ConsumedTable { func_label_id: pad, if_id: if_min_id }
}

/// Counts the call sites and the conditionals of a body; `None` when
/// either count does not fit in a `usize`.
pub(crate) fn count_ids(body: &Vec<SedInstruction>) -> (r: Option<(usize, usize)>)
    ensures
        r matches Some((a, b)) ==> a == calls_of(body@).len() && b == conds_of(body@).len(),
        r is None ==> calls_of(body@).len() > usize::MAX || conds_of(body@).len() > usize::MAX,
    decreases body@,
{
    let ghost b0 = body@;
    let mut calls: usize = 0;
    let mut conds: usize = 0;
    let mut i: usize = 0;
    proof {
        assert(b0.subrange(0, 0) =~= Seq::<SedInstruction>::empty());
    }
    while i < body.len()
        invariant
            i <= body.len(),
            b0 == body@,
            calls == calls_of(b0.subrange(0, i as int)).len(),
            conds == conds_of(b0.subrange(0, i as int)).len(),
        decreases b0.len() - i,
    {
        proof {
            lemma_calls_prefix_len(b0, i + 1);
            assert(b0.subrange(0, i + 1).subrange(0, i as int) =~= b0.subrange(0, i as int));
            assert(b0.subrange(0, i + 1)[i as int] == b0[i as int]);
            assert(decreases_to!(b0 => b0[i as int]));
            assert(calls_of(b0.subrange(0, i + 1)) == calls_of(b0.subrange(0, i as int)) + calls_of_instr(b0[i as int]));
            assert(conds_of(b0.subrange(0, i + 1)) == conds_of(b0.subrange(0, i as int)) + conds_of_instr(b0[i as int]));
        }
        match &body[i] {
            SedInstruction::Call(_) => {
                if calls == usize::MAX {
                    return None;
                }
                calls = calls + 1;
            },
            SedInstruction::IfProc(if_proc) => {
                proof {
                    assert(decreases_to!(b0[i as int] => if_proc.then_proc@));
                    assert(decreases_to!(b0[i as int] => if_proc.else_proc@));
                }
                let (c1, d1) = match count_ids(&if_proc.then_proc) {
                    Some(x) => x,
                    None => {
                        return None;
                    },
                };
                let (c2, d2) = match count_ids(&if_proc.else_proc) {
                    Some(x) => x,
                    None => {
                        return None;
                    },
                };
                if c1 > usize::MAX - calls || c2 > usize::MAX - calls - c1 {
                    return None;
                }
                if conds == usize::MAX || d1 > usize::MAX - conds - 1 || d2 > usize::MAX - conds - 1 - d1 {
                    return None;
                }
                calls = calls + c1 + c2;
                conds = conds + 1 + d1 + d2;
            },
            _ => {},
        }
        i = i + 1;
    }
    proof {
        assert(b0.subrange(0, i as int) =~= b0);
    }
    Some((calls, conds))
}

} // verus!
