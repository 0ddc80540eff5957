use sed_compiler::ir::{ArgVal, CallFunc, ConstVal, FuncDef, LocalVal, ReturnAddrMarker};
use sed_compiler::text::{decimal, label, repeat_str};

#[test]
fn decimal_numbers() {
    assert_eq!(decimal(0), "0");
    assert_eq!(decimal(7), "7");
    assert_eq!(decimal(10), "10");
    assert_eq!(decimal(1234), "1234");
    assert_eq!(decimal(usize::MAX), usize::MAX.to_string());
}

#[test]
fn repeated_text() {
    assert_eq!(repeat_str("~[^\\~]*", 0), "");
    assert_eq!(repeat_str("ab", 3), "ababab");
}

#[test]
fn labels() {
    assert_eq!(label("retlabel", 42), "retlabel42");
    assert_eq!(ReturnAddrMarker(5).get_retlabel(), "retlabel5");
}

#[test]
fn marker_moves_forward() {
    let mut m = ReturnAddrMarker(3);
    m.incr(4);
    assert_eq!(m.0, 7);
}

#[test]
fn constructors() {
    assert_eq!(ArgVal::new(2).id(), 2);
    assert_eq!(LocalVal::new(5).id(), 5);
    assert_eq!(ConstVal::new("101").data(), "101");
    let c = CallFunc::new("mul");
    assert_eq!(c.func_name(), "mul");
    assert_eq!(c.call_site(), 0);
    assert_eq!(c.caller_frame_size(), 0);
    let f = FuncDef::new("add", 2, 1, 1);
    assert_eq!((f.name(), f.argc(), f.localc(), f.retc(), f.id()), ("add", 2, 1, 1, 0));
    assert!(f.proc_contents().is_empty());
}
