use sed_compiler::code_gen::{CompilerBuilder, Assembled};
use sed_compiler::dispatch::create_return_dispatcher_table;
use sed_compiler::embedded::{
    em_add, em_ends_with_zero, em_is_empty, em_mul, em_shift_left1, em_shift_right1, em_sub32,
    em_twos_complement, em_zero_padding32,
};
use sed_compiler::ir::{
    CallFunc, CompileErr, ConstVal, FuncDef, IfProc, SedCode, SedInstruction, Value,
};

fn raw(s: &str) -> SedInstruction {
    SedInstruction::Sed(SedCode(s.to_string()))
}

fn call(name: &str) -> SedInstruction {
    SedInstruction::Call(CallFunc::new(name))
}

fn push_const(s: &str) -> SedInstruction {
    SedInstruction::ConstVal(ConstVal::new(s))
}

fn mul_program() -> CompilerBuilder<Assembled> {
    let mut entry = FuncDef::new("entry", 0, 2, 1);
    entry.set_proc_contents(vec![
        raw("s/.*/~init~init/"),
        push_const("101101110"),
        SedInstruction::Store(Value::Local(0)),
        push_const("11101110111"),
        SedInstruction::Store(Value::Local(1)),
        SedInstruction::Val(Value::Local(0)),
        SedInstruction::Val(Value::Local(1)),
        call("mul"),
        SedInstruction::Store(Value::Local(0)),
        SedInstruction::Val(Value::Local(0)),
        SedInstruction::Ret,
    ]);
    CompilerBuilder::new()
        .add_func(entry)
        .add_func(em_mul())
        .add_func(em_add())
        .add_func(em_is_empty())
        .add_func(em_shift_left1())
        .add_func(em_shift_right1())
        .add_func(em_ends_with_zero())
        .assemble()
}

fn all_call_sites(body: &[SedInstruction], out: &mut Vec<usize>) {
    for i in body {
        match i {
            SedInstruction::Call(c) => out.push(c.call_site()),
            SedInstruction::IfProc(p) => {
                all_call_sites(p.then_proc(), out);
                all_call_sites(p.else_proc(), out);
            }
            _ => {}
        }
    }
}

fn all_cond_ids(body: &[SedInstruction], out: &mut Vec<usize>) {
    for i in body {
        if let SedInstruction::IfProc(p) = i {
            out.push(p.id());
            all_cond_ids(p.then_proc(), out);
            all_cond_ids(p.else_proc(), out);
        }
    }
}

#[test]
fn code_gen_create_return_dispatcher_btree_map_test00() {
    let mut entry = FuncDef::new("entry", 0, 2, 1);
    let func_mul = em_mul();
    let func_add = em_add();
    let func_shift_left1 = em_shift_left1();
    let func_shift_right1 = em_shift_right1();
    let func_is_empty = em_is_empty();
    let func_ends_with_zero = em_ends_with_zero();

    entry.set_proc_contents(vec![
        raw("s/.*/~init~init/"),
        push_const("101101110"),
        SedInstruction::Store(Value::Local(0)),
        push_const("11101110111"),
        SedInstruction::Store(Value::Local(1)),
        SedInstruction::Val(Value::Local(0)),
        SedInstruction::Val(Value::Local(1)),
        call("mul"),
        SedInstruction::Store(Value::Local(0)),
        SedInstruction::Val(Value::Local(0)),
        SedInstruction::Ret,
    ]);

    let func_def_table = vec![
        entry,
        func_mul,
        func_add,
        func_shift_left1,
        func_shift_right1,
        func_is_empty,
        func_ends_with_zero,
    ];
    if let Ok(tree) = create_return_dispatcher_table(&func_def_table) {
        println!("{:#?}", tree);
        // one rule per call site: one in entry, nine in mul
        assert_eq!(tree.len(), 10);
        assert_eq!(tree[0].func_name(), "mul");
        assert_eq!(tree[1].func_name(), "is_empty");
    } else {
        println!("Something wrong");
        panic!("the dispatcher table could not be built");
    }
}

#[test]
fn identity_via_entry() {
    let entry = FuncDef::new("entry", 0, 0, 0);
    let script = CompilerBuilder::new().add_func(entry).assemble().generate();
    match script {
        Ok(s) => assert_eq!(s, "s/\\(\\)/\\1/\n:return0\nb done\n:done"),
        Err(e) => panic!("{:?}", e),
    }
}

#[test]
fn constant_push_and_return() {
    let mut entry = FuncDef::new("entry", 0, 1, 1);
    entry.set_proc_contents(vec![
        push_const("hello"),
        SedInstruction::Store(Value::Local(0)),
        SedInstruction::Val(Value::Local(0)),
        SedInstruction::Ret,
    ]);
    let script = CompilerBuilder::new().add_func(entry).assemble().generate().unwrap();
    let expected = [
        "s/\\(\\)/\\1~init/\n",
        "s/\\(~[^\\~]*\\)/\\1~hello/\n",
        "s/\\(\\)~[^\\~]*\\(\\)\\(~[^\\~]*\\)/\\1\\3\\2/\n",
        "s/\\(\\)\\(~[^\\~]*\\)\\(\\)/\\1\\2\\3\\2/\n",
        "s/~[^\\~]*\\(~[^\\~]*\\)/\\1;/\nb return0\n",
        ":return0\nb done\n",
        ":done",
    ]
    .concat();
    assert_eq!(script, expected);
}

#[test]
fn two_argument_call() {
    let mut entry = FuncDef::new("entry", 2, 0, 1);
    entry.set_proc_contents(vec![
        SedInstruction::Val(Value::Arg(0)),
        SedInstruction::Val(Value::Arg(1)),
        call("add"),
        SedInstruction::Ret,
    ]);
    let mut add = FuncDef::new("add", 2, 0, 1);
    add.set_proc_contents(vec![raw("s/~\\([^~]*\\)~\\([^~]*\\)/~\\1\\2;/")]);
    let script = CompilerBuilder::new().add_func(add).add_func(entry).assemble().generate().unwrap();
    // entry comes first, add is function 1
    assert!(script.starts_with("s/\\(~[^\\~]*~[^\\~]*\\)/\\1/\n"));
    let call_code = [
        "\n# function call: add\n",
        "s/\\(~[^\\~]*~[^\\~]*\\)\\(~[^\\~]*~[^\\~]*\\)/:retlabel0\\2\\1|/\n",
        "H\nb func1\n:retlabel0\n",
    ]
    .concat();
    assert!(script.contains(&call_code));
    assert!(script.contains(":func1\n\ns/:retlabel[0-9]\\+\\(~[^\\~]*~[^\\~]*\\)[^\\|]*|$/\\1/\n"));
    assert!(script.contains("s/~\\([^~]*\\)~\\([^~]*\\)/~\\1\\2;/\n"));
    let trampoline = [
        "/^.*\\n:retlabel0~[^\\|]*|.*$/ {\n",
        "s/.*\\n:retlabel0~[^\\~]*~[^\\~]*\\(~[^\\~]*~[^\\|]*\\)|\\n\\(~[^\\~;]*\\);$/\\1\\2/\n",
        "b retlabel0\n}\n",
    ]
    .concat();
    assert!(script.contains(&trampoline));
    assert!(script.ends_with(":done"));
}

#[test]
fn recursion_through_conditional() {
    let script = mul_program().generate().unwrap();
    assert!(script.starts_with("s/\\(\\)/\\1~init~init/\n"));
    for label in [":then0\n", ":else0\n", ":endif0\n", ":then1\n", ":else1\n", ":endif1\n"] {
        assert_eq!(script.matches(label).count(), 1, "{}", label);
    }
    // mul calls itself twice: both sites dispatch back through mul's trampoline
    assert!(script.contains("# function call: mul\n"));
    assert!(script.ends_with(":done"));
}

#[test]
fn call_sites_distinct_after_assembly() {
    let assembled = mul_program();
    let mut sites = Vec::new();
    for f in assembled.func_table() {
        all_call_sites(f.proc_contents(), &mut sites);
    }
    assert_eq!(sites, (0..10).collect::<Vec<usize>>());
}

#[test]
fn function_ids_are_positions() {
    let assembled = mul_program();
    for (i, f) in assembled.func_table().iter().enumerate() {
        assert_eq!(f.id(), i);
    }
    let offsets: Vec<usize> = assembled.func_table().iter().map(|f| f.call_site_offset()).collect();
    assert_eq!(offsets, vec![0, 1, 10, 10, 10, 10, 10]);
}

#[test]
fn entry_is_hoisted() {
    let mut a = FuncDef::new("a", 0, 0, 0);
    a.set_proc_contents(vec![call("entry")]);
    let b = FuncDef::new("b", 0, 0, 0);
    let entry = FuncDef::new("entry", 0, 0, 0);
    let c = FuncDef::new("c", 0, 0, 0);
    let assembled = CompilerBuilder::new().add_func(a).add_func(b).add_func(entry).add_func(c).assemble();
    let names: Vec<&str> = assembled.func_table().iter().map(|f| f.name()).collect();
    assert_eq!(names, vec!["entry", "a", "b", "c"]);
}

#[test]
fn caller_frame_sizes() {
    let assembled = mul_program();
    for f in assembled.func_table() {
        let mut frames = Vec::new();
        collect_frames(f.proc_contents(), &mut frames);
        for fr in frames {
            assert_eq!(fr, f.argc() + f.localc());
        }
    }
}

fn collect_frames(body: &[SedInstruction], out: &mut Vec<usize>) {
    for i in body {
        match i {
            SedInstruction::Call(c) => out.push(c.caller_frame_size()),
            SedInstruction::IfProc(p) => {
                collect_frames(p.then_proc(), out);
                collect_frames(p.else_proc(), out);
            }
            _ => {}
        }
    }
}

#[test]
fn nested_conditionals_get_distinct_ids() {
    let mut entry = FuncDef::new("entry", 0, 0, 0);
    entry.set_proc_contents(vec![
        push_const("1"),
        SedInstruction::IfProc(IfProc::new(
            vec![push_const("0"), SedInstruction::IfProc(IfProc::new(vec![], vec![]))],
            vec![push_const("1"), SedInstruction::IfProc(IfProc::new(vec![], vec![]))],
        )),
    ]);
    let assembled = CompilerBuilder::new().add_func(entry).assemble();
    let mut ids = Vec::new();
    all_cond_ids(assembled.func_table()[0].proc_contents(), &mut ids);
    assert_eq!(ids, vec![0, 1, 2]);
    let script = assembled.generate().unwrap();
    for c in 0..3 {
        for kind in ["then", "else", "endif", "reset_flag"] {
            let label = format!(":{}{}\n", kind, c);
            assert_eq!(script.matches(&label).count(), 1, "{}", label);
        }
    }
}

#[test]
fn unknown_callee() {
    let mut entry = FuncDef::new("entry", 0, 0, 0);
    entry.set_proc_contents(vec![call("bogus")]);
    let r = CompilerBuilder::new().add_func(entry).assemble().generate();
    assert!(matches!(r, Err(CompileErr::UndefinedFunction(ref n)) if n == "bogus"));
}

#[test]
fn no_locals_no_init() {
    let f = FuncDef::new("f", 0, 0, 0);
    let mut entry = FuncDef::new("entry", 0, 0, 0);
    entry.set_proc_contents(vec![call("f")]);
    let script = CompilerBuilder::new().add_func(entry).add_func(f).assemble().generate().unwrap();
    assert!(!script.contains("~init"));
    assert!(script.starts_with("s/\\(\\)/\\1/\n"));
    assert!(script.contains(":func1\n\ns/:retlabel[0-9]\\+\\(\\)[^\\|]*|$/\\1/\n"));
}

#[test]
fn store_on_empty_expression_stack() {
    let mut entry = FuncDef::new("entry", 1, 1, 0);
    entry.set_proc_contents(vec![SedInstruction::Store(Value::Local(0))]);
    let r = CompilerBuilder::new().add_func(entry).assemble().generate();
    assert!(matches!(r, Err(CompileErr::StackUnderFlow(2, 2))));
}

#[test]
fn return_with_too_few_values() {
    let mut entry = FuncDef::new("entry", 0, 1, 2);
    entry.set_proc_contents(vec![push_const("x"), SedInstruction::Ret]);
    let r = CompilerBuilder::new().add_func(entry).assemble().generate();
    assert!(matches!(r, Err(CompileErr::PoppingValueFromEmptyStack(ref n)) if n == "entry"));
}

#[test]
fn empty_then_branch_keeps_scaffolding() {
    let mut entry = FuncDef::new("entry", 0, 1, 0);
    entry.set_proc_contents(vec![
        push_const("1"),
        SedInstruction::IfProc(IfProc::new(vec![], vec![push_const("2"), SedInstruction::Store(Value::Local(0))])),
    ]);
    let script = CompilerBuilder::new().add_func(entry).assemble().generate().unwrap();
    let scaffold = [
        "\ntreset_flag0\n:reset_flag0\ns/\\(.*\\)~[0]\\+$/\\1/\nt else0\nb then0\n:then0\n",
        "s/\\(.*\\)~\\([^\\~]*\\)\\+$/\\1/\n",
        "\nb endif0\n:else0\n",
    ]
    .concat();
    assert!(script.contains(&scaffold));
    assert!(script.contains("\nb endif0\n:endif0\n"));
}

#[test]
fn uncalled_function_is_fatal() {
    let entry = FuncDef::new("entry", 0, 0, 0);
    let lonely = FuncDef::new("lonely", 0, 0, 0);
    let r = CompilerBuilder::new().add_func(entry).add_func(lonely).assemble().generate();
    assert!(matches!(r, Err(CompileErr::Fatal)));
}

#[test]
fn return_empties_expression_stack() {
    // after a return the depth is the fixed frame again, so the code that
    // follows is lowered from there
    let mut entry = FuncDef::new("entry", 1, 0, 1);
    entry.set_proc_contents(vec![
        SedInstruction::Val(Value::Arg(0)),
        SedInstruction::Ret,
        SedInstruction::Val(Value::Arg(0)),
        SedInstruction::Ret,
    ]);
    let script = CompilerBuilder::new().add_func(entry).assemble().generate().unwrap();
    let push = "s/\\(\\)\\(~[^\\~]*\\)\\(\\)/\\1\\2\\3\\2/\n";
    let ret = "s/~[^\\~]*\\(~[^\\~]*\\)/\\1;/\nb return0\n";
    assert_eq!(script.matches(push).count(), 2);
    assert_eq!(script.matches(ret).count(), 2);
}

#[test]
fn precondition_checks() {
    let mut entry = FuncDef::new("entry", 1, 0, 0);
    entry.set_proc_contents(vec![SedInstruction::Val(Value::Arg(0))]);
    let b = CompilerBuilder::new().add_func(entry);
    assert!(b.can_assemble());
    assert!(b.assemble().well_formed());
    let mut bad = FuncDef::new("entry", 1, 0, 0);
    bad.set_proc_contents(vec![SedInstruction::Val(Value::Local(0))]);
    let b = CompilerBuilder::new().add_func(bad);
    assert!(b.can_assemble());
    assert!(!b.assemble().well_formed());
    let huge = FuncDef::new("entry", usize::MAX, 1, 0);
    assert!(!CompilerBuilder::new().add_func(huge).can_assemble());
}

#[test]
fn call_needs_its_arguments() {
    let mut entry = FuncDef::new("entry", 0, 1, 0);
    entry.set_proc_contents(vec![push_const("a"), call("two")]);
    let mut two = FuncDef::new("two", 2, 0, 1);
    two.set_proc_contents(vec![raw("s/.*/~x;/")]);
    let r = CompilerBuilder::new().add_func(entry).add_func(two).assemble().generate();
    assert!(matches!(r, Err(CompileErr::StackUnderFlow(2, 1))));
}

#[test]
fn set_body_numbers_call_sites_locally() {
    let mut f = FuncDef::new("f", 1, 0, 0);
    let n = f.set_proc_contents(vec![
        call("g"),
        SedInstruction::IfProc(IfProc::new(vec![call("h")], vec![call("g"), call("h")])),
        call("g"),
    ]);
    assert_eq!(n, 5);
    let mut sites = Vec::new();
    all_call_sites(f.proc_contents(), &mut sites);
    assert_eq!(sites, vec![0, 1, 2, 3, 4]);
    let mut ids = Vec::new();
    all_cond_ids(f.proc_contents(), &mut ids);
    assert_eq!(ids, vec![0]);
    let mut frames = Vec::new();
    collect_frames(f.proc_contents(), &mut frames);
    assert_eq!(frames, vec![0; 5]);
}

#[test]
fn default_builder_is_empty() {
    let b: CompilerBuilder<sed_compiler::code_gen::Unassembled> = Default::default();
    assert_eq!(b.func_table().len(), 0);
}

#[test]
fn gen_test00() {
    let code = mul_program().generate().unwrap();
    assert!(code.contains("# function call: mul\n"));
    assert!(code.ends_with(":done"));
}

#[test]
fn gen_test01() {
    let mut entry = FuncDef::new("entry", 0, 2, 1);
    entry.set_proc_contents(vec![
        raw("s/.*/~init~init/"),
        push_const("10011011010111111"),
        SedInstruction::Store(Value::Local(0)),
        push_const("11101101"),
        SedInstruction::Store(Value::Local(1)),
        SedInstruction::Val(Value::Local(0)),
        SedInstruction::Val(Value::Local(1)),
        call("sub32"),
        SedInstruction::Ret,
    ]);
    let code = CompilerBuilder::new()
        .add_func(entry)
        .add_func(em_add())
        .add_func(em_twos_complement())
        .add_func(em_zero_padding32())
        .add_func(em_sub32())
        .assemble()
        .generate()
        .unwrap();
    // sub32 is function 4 and holds call sites 1 to 5
    assert!(code.contains(":func4\n"));
    assert!(code.contains("b retlabel5\n"));
    assert!(!code.contains("retlabel6"));
    assert!(code.ends_with(":done"));
}

#[test]
fn gen_test02() {
    let entry = FuncDef::new("entry", 0, 2, 1);
    let code = CompilerBuilder::new().add_func(entry).assemble().generate().unwrap();
    assert_eq!(code, "s/\\(\\)/\\1~init~init/\n:return0\nb done\n:done");
}
