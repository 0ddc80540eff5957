//! A small library of helper functions in the IR, written mostly as raw
//! script: binary arithmetic on `~`-slots of `0`/`1` digits.

use vstd::prelude::*;
use crate::ir::{lemma_same_shape_each, same_instr, CallFunc, ConstVal, FuncDef, IfProc, SedCode, SedInstruction, Value};

verus! {

/// `shift_left1(a)`: appends a `0` digit.
pub fn em_shift_left1() -> (r: FuncDef)
    ensures
        r.spec_name() == "shift_left1"@,
        r.spec_argc() == 1,
        r.spec_localc() == 0,
        r.spec_retc() == 1,
{
    let mut func_shift_left1 = FuncDef::new("shift_left1", 1, 0, 1);
    func_shift_left1.set_proc_contents(vec![SedInstruction::Sed(SedCode(String::from_str(
        "s/\\(~[01]*\\)/\\10;/",
    )))]);
    func_shift_left1
}

/// `shift_right1(a)`: drops the last digit.
pub fn em_shift_right1() -> (r: FuncDef)
    ensures
        r.spec_name() == "shift_right1"@,
        r.spec_argc() == 1,
        r.spec_localc() == 0,
        r.spec_retc() == 1,
{
    let mut func_shift_right1 = FuncDef::new("shift_right1", 1, 0, 1);
    func_shift_right1.set_proc_contents(vec![SedInstruction::Sed(SedCode(String::from_str(
        "s/\\(~[01]*\\)[01]/\\1;/",
    )))]);
    func_shift_right1
}

/// `is_empty(a)`: `1` when the slot is empty, else `0`.
pub fn em_is_empty() -> (r: FuncDef)
    ensures
        r.spec_name() == "is_empty"@,
        r.spec_argc() == 1,
        r.spec_localc() == 0,
        r.spec_retc() == 1,
{
    let mut func_is_empty = FuncDef::new("is_empty", 1, 0, 1);
    func_is_empty.set_proc_contents(vec![
        SedInstruction::Sed(SedCode(String::from_str("s/~$/T/   "))),
        SedInstruction::Sed(SedCode(String::from_str("s/~.*$/F/ "))),
        SedInstruction::Sed(SedCode(String::from_str("s/T/~1;/  "))),
        SedInstruction::Sed(SedCode(String::from_str("s/F/~0;/  "))),
    ]);
    func_is_empty
}

/// `ends_with_zero(a)`: `1` when the last digit is `0`, else `0`.
pub fn em_ends_with_zero() -> (r: FuncDef)
    ensures
        r.spec_name() == "ends_with_zero"@,
        r.spec_argc() == 1,
        r.spec_localc() == 0,
        r.spec_retc() == 1,
{
    let mut func_ends_with_zero = FuncDef::new("ends_with_zero", 1, 0, 1);
    func_ends_with_zero.set_proc_contents(vec![
        SedInstruction::Sed(SedCode(String::from_str("s/.*0$/~1;/ "))),
        SedInstruction::Sed(SedCode(String::from_str("s/.*1$/~0;/ "))),
    ]);
    func_ends_with_zero
}

/// `mul(a, b)`: binary multiplication by shifting and adding; calls
/// `is_empty`, `ends_with_zero`, `shift_left1`, `shift_right1` and `add`.
pub fn em_mul() -> (r: FuncDef)
    ensures
        r.spec_name() == "mul"@,
        r.spec_argc() == 2,
        r.spec_localc() == 1,
        r.spec_retc() == 1,
        r.body().len() == 5,
        r.body()[0] == SedInstruction::Val(Value::Arg(1)),
        r.body()[1] matches SedInstruction::Call(c) && c.callee() == "is_empty"@,
        r.body()[2] matches SedInstruction::IfProc(p) && p.then_body().len() == 2
            && p.else_body().len() == 3,
        r.body()[3] == SedInstruction::Val(Value::Local(0)),
        r.body()[4] is Ret,
{
    let mut func_mul = FuncDef::new("mul", 2, 1, 1);
    let body = vec![
        SedInstruction::Val(Value::Arg(1)),
        SedInstruction::Call(CallFunc::new("is_empty")),
        SedInstruction::IfProc(IfProc::new(
            vec![
                SedInstruction::ConstVal(ConstVal::new("0")),
                SedInstruction::Store(Value::Local(0)), // rstr
            ],
            vec![
                SedInstruction::Val(Value::Arg(1)),
                SedInstruction::Call(CallFunc::new("ends_with_zero")),
                SedInstruction::IfProc(IfProc::new(
                    vec![
                        // rstr = mul(shift_left1(a), shift_right1(b))
                        SedInstruction::Val(Value::Arg(0)), // a
                        SedInstruction::Call(CallFunc::new("shift_left1")),
                        SedInstruction::Val(Value::Arg(1)), // b
                        SedInstruction::Call(CallFunc::new("shift_right1")),
                        SedInstruction::Call(CallFunc::new("mul")),
                        SedInstruction::Store(Value::Local(0)), // rstr
                    ],
                    vec![
                        // rstr = add(a, mul(shift_left1(a), shift_right1(b)))
                        SedInstruction::Val(Value::Arg(0)), // a
                        SedInstruction::Call(CallFunc::new("shift_left1")),
                        SedInstruction::Val(Value::Arg(1)), // b
                        SedInstruction::Call(CallFunc::new("shift_right1")),
                        SedInstruction::Call(CallFunc::new("mul")),
                        SedInstruction::Val(Value::Arg(0)), // a
                        SedInstruction::Call(CallFunc::new("add")),
                        SedInstruction::Store(Value::Local(0)), // rstr
                    ],
                )),
            ],
        )),
        // return rstr;
        SedInstruction::Val(Value::Local(0)),
        SedInstruction::Ret,
    ];
    let ghost b = body@;
    func_mul.set_proc_contents(body);
    proof {
        lemma_same_shape_each(b, func_mul.body());
        assert(same_instr(b[1], func_mul.body()[1]));
        assert(same_instr(b[2], func_mul.body()[2]));
    }
    func_mul
}

/// `add(a, b)`: binary addition.
pub fn em_add() -> (r: FuncDef)
    ensures
        r.spec_name() == "add"@,
        r.spec_argc() == 2,
        r.spec_localc() == 0,
        r.spec_retc() == 1,
{
    let mut func_add = FuncDef::new("add", 2, 0, 1);
    func_add.set_proc_contents(
        vec![
            SedInstruction::Sed(SedCode(String::from_str("# convert the input to the addloop form"))),
            SedInstruction::Sed(SedCode(String::from_str("s/~\\([^\\~]*\\)~\\([^\\~]*\\)/add 0;;\\1;\\2;/"))),
            SedInstruction::Sed(SedCode(String::from_str("b addloop"))),
            SedInstruction::Sed(SedCode(String::from_str(":addloop"))),
            SedInstruction::Sed(SedCode(String::from_str("s/add 1;\\([01]*\\);;;/1\\1/"))),
            SedInstruction::Sed(SedCode(String::from_str("s/add 0;\\([01]*\\);;;/\\1/"))),
            SedInstruction::Sed(SedCode(String::from_str("s/add \\([01]\\);\\([01]*\\);\\([01]*\\);;/add \\1;\\2;\\3;0;/"))),
            SedInstruction::Sed(SedCode(String::from_str("s/add \\([01]\\);\\([01]*\\);;\\([01]*\\);/add \\1;\\2;0;\\3;/"))),
            SedInstruction::Sed(SedCode(String::from_str("s/add \\([01]\\);\\([01]*\\);\\([01]*\\)\\([01]\\);\\([01]*\\)\\([01]\\);/add \\1\\4\\6;\\2;\\3;\\5;/"))),
            SedInstruction::Sed(SedCode(String::from_str("s/add 000;\\([01]*\\);\\([01]*\\);\\([01]*\\);/add 0;0\\1;\\2;\\3;/"))),
            SedInstruction::Sed(SedCode(String::from_str("s/add 001;\\([01]*\\);\\([01]*\\);\\([01]*\\);/add 0;1\\1;\\2;\\3;/"))),
            SedInstruction::Sed(SedCode(String::from_str("s/add 010;\\([01]*\\);\\([01]*\\);\\([01]*\\);/add 0;1\\1;\\2;\\3;/"))),
            SedInstruction::Sed(SedCode(String::from_str("s/add 011;\\([01]*\\);\\([01]*\\);\\([01]*\\);/add 1;0\\1;\\2;\\3;/"))),
            SedInstruction::Sed(SedCode(String::from_str("s/add 100;\\([01]*\\);\\([01]*\\);\\([01]*\\);/add 0;1\\1;\\2;\\3;/"))),
            SedInstruction::Sed(SedCode(String::from_str("s/add 101;\\([01]*\\);\\([01]*\\);\\([01]*\\);/add 1;0\\1;\\2;\\3;/"))),
            SedInstruction::Sed(SedCode(String::from_str("s/add 110;\\([01]*\\);\\([01]*\\);\\([01]*\\);/add 1;0\\1;\\2;\\3;/"))),
            SedInstruction::Sed(SedCode(String::from_str("s/add 111;\\([01]*\\);\\([01]*\\);\\([01]*\\);/add 1;1\\1;\\2;\\3;/"))),
            SedInstruction::Sed(SedCode(String::from_str("t addloop"))),
            SedInstruction::Sed(SedCode(String::from_str("s/\\(.*\\)/~\\1;/"))),
        ]
    );
    func_add
}

/// `sub32(a, b)`: 32-bit subtraction; calls `zero_padding32`,
/// `twos_complement` and `add`.
pub fn em_sub32() -> (r: FuncDef)
    ensures
        r.spec_name() == "sub32"@,
        r.spec_argc() == 2,
        r.spec_localc() == 0,
        r.spec_retc() == 1,
{
    let mut func_sub32 = FuncDef::new("sub32", 2, 0, 1);
    func_sub32.set_proc_contents(vec![
        SedInstruction::Val(Value::Arg(0)),
        SedInstruction::Call(CallFunc::new("zero_padding32")),
        SedInstruction::Val(Value::Arg(1)),
        SedInstruction::Call(CallFunc::new("zero_padding32")),
        SedInstruction::Call(CallFunc::new("twos_complement")),
        SedInstruction::Call(CallFunc::new("add")),
        SedInstruction::Call(CallFunc::new("zero_padding32")),
        SedInstruction::Ret,
    ]);
    func_sub32
}

/// `twos_complement(a)`: the two's complement of a binary number.
pub fn em_twos_complement() -> (r: FuncDef)
    ensures
        r.spec_name() == "twos_complement"@,
        r.spec_argc() == 1,
        r.spec_localc() == 0,
        r.spec_retc() == 1,
{
    let mut twos_complement = FuncDef::new("twos_complement", 1, 0, 1);

    twos_complement.set_proc_contents(vec![
        SedInstruction::Sed(SedCode(String::from_str("
s/~\\([^\\~]*\\)/\\1/
y/01/10/
s/$/+/
:add_one_loop
s/0+$/1/
t add_one_done
s/1+$/+0/
b add_one_loop
:add_one_done
s/^\\+/1/

s/\\(.*\\)/~\\1;/
"))),
    ]);
    twos_complement
}

/// `zero_padding32(a)`: the last 32 digits of `a`, padded with zeros.
pub fn em_zero_padding32() -> (r: FuncDef)
    ensures
        r.spec_name() == "zero_padding32"@,
        r.spec_argc() == 1,
        r.spec_localc() == 0,
        r.spec_retc() == 1,
{
    let mut func_zero_padding32 = FuncDef::new("zero_padding32", 1, 0, 1);

    func_zero_padding32.set_proc_contents(vec![
        SedInstruction::Sed(SedCode(String::from_str("
s/~\\([^\\~]*\\)/\\1/
s/^/00000000000000000000000000000000/
s/.*\\(................................\\)$/~\\1;/
"))),
    ]);
    func_zero_padding32
}

} // verus!
