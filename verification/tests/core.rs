//! Core-level behavior: truncation, builder errors, fixpoint divergence,
//! and the completeness check for transition tables.

use rtl_core::errors::HdlError;
use rtl_core::expr::Expr;
use rtl_core::graph::{check_total_transitions, Dir, ModuleGraph};
use rtl_core::sim::{run_script, CycleSim, TbStep};
use rtl_core::value::{in_range_i64, trunc_i128, Signedness};

#[test]
fn trunc_unsigned_wraps_modulo() {
    assert_eq!(trunc_i128(300, 8, Signedness::Unsigned), 44);
    assert_eq!(trunc_i128(256, 8, Signedness::Unsigned), 0);
    assert_eq!(trunc_i128(-1, 8, Signedness::Unsigned), 255);
    assert_eq!(trunc_i128(65535, 16, Signedness::Unsigned), 65535);
}

#[test]
fn trunc_signed_two_complement() {
    assert_eq!(trunc_i128(127, 8, Signedness::Signed), 127);
    assert_eq!(trunc_i128(128, 8, Signedness::Signed), -128);
    assert_eq!(trunc_i128(-129, 8, Signedness::Signed), 127);
    assert_eq!(trunc_i128(-256, 9, Signedness::Signed), -256);
    assert_eq!(trunc_i128(0, 1, Signedness::Unsigned), 0);
}

#[test]
fn in_range_checks_declared_width() {
    assert!(in_range_i64(255, 8, Signedness::Unsigned));
    assert!(!in_range_i64(256, 8, Signedness::Unsigned));
    assert!(!in_range_i64(-1, 8, Signedness::Unsigned));
    assert!(in_range_i64(-128, 8, Signedness::Signed));
    assert!(!in_range_i64(128, 8, Signedness::Signed));
}

#[test]
fn builder_rejects_bad_widths() {
    let mut g = ModuleGraph::new(String::from("m"));
    match g.add_signal(String::from("z"), 0, Signedness::Unsigned, Dir::Input) {
        Err(HdlError::WidthMismatch { signal }) => assert_eq!(signal, 0),
        _ => panic!("width 0 must be rejected"),
    }
    match g.add_signal(String::from("w"), 63, Signedness::Unsigned, Dir::Input) {
        Err(HdlError::WidthMismatch { signal }) => assert_eq!(signal, 0),
        _ => panic!("width 63 must be rejected"),
    }
    assert!(g.add_signal(String::from("ok"), 62, Signedness::Unsigned, Dir::Internal).is_ok());
}

#[test]
fn builder_rejects_multiple_drivers() {
    let mut g = ModuleGraph::new(String::from("m"));
    let a = g.add_signal(String::from("a"), 8, Signedness::Unsigned, Dir::Internal).unwrap();
    g.add_rule(a, Expr::Const(1)).unwrap();
    match g.add_rule(a, Expr::Const(2)) {
        Err(HdlError::MultipleDrivers { signal }) => assert_eq!(signal, a),
        _ => panic!("second driver must be rejected"),
    }
}

#[test]
fn builder_rejects_driving_an_input() {
    let mut g = ModuleGraph::new(String::from("m"));
    let a = g.add_signal(String::from("a"), 8, Signedness::Unsigned, Dir::Input).unwrap();
    match g.add_rule(a, Expr::Const(1)) {
        Err(HdlError::WidthMismatch { signal }) => assert_eq!(signal, a),
        _ => panic!("driving an input must be rejected"),
    }
}

#[test]
fn combinational_cycle_diverges() {
    // A signal defined as its own negation never settles.
    let mut g = ModuleGraph::new(String::from("osc"));
    let a = g.add_signal(String::from("a"), 1, Signedness::Unsigned, Dir::Internal).unwrap();
    g.add_rule(
        a,
        Expr::Eq(Box::new(Expr::Sig(a)), Box::new(Expr::Const(0))),
    )
    .unwrap();
    let script = vec![TbStep::Advance(1)];
    match run_script(g, &script) {
        Err(HdlError::CombinationalDivergence { tick }) => assert_eq!(tick, 0),
        _ => panic!("the oscillator must diverge at tick 0"),
    }
}

#[test]
fn stimulus_must_address_inputs_in_range() {
    let mut g = ModuleGraph::new(String::from("m"));
    let a = g.add_signal(String::from("a"), 8, Signedness::Signed, Dir::Input).unwrap();
    let o = g.add_signal(String::from("o"), 8, Signedness::Signed, Dir::Output).unwrap();
    g.add_rule(o, Expr::Sig(a)).unwrap();
    let mut sim = CycleSim::new(g);
    // Out-of-range value for a signed 8-bit input.
    match sim.set_inputs(&vec![(a, 128)]) {
        Err(HdlError::WidthMismatch { signal }) => assert_eq!(signal, a),
        _ => panic!("an out-of-range stimulus must be rejected"),
    }
    // A non-input signal cannot be driven by stimulus.
    match sim.set_inputs(&vec![(o, 0)]) {
        Err(HdlError::WidthMismatch { signal }) => assert_eq!(signal, o),
        _ => panic!("stimulus on an output must be rejected"),
    }
    assert!(sim.set_inputs(&vec![(a, -128)]).is_ok());
}

#[test]
fn transition_table_completeness() {
    let full = vec![
        (0i64, Expr::Const(1)),
        (1i64, Expr::Const(2)),
        (2i64, Expr::Const(0)),
    ];
    assert!(check_total_transitions(&full, 3).is_ok());
    let holed = vec![(0i64, Expr::Const(1)), (2i64, Expr::Const(0))];
    match check_total_transitions(&holed, 3) {
        Err(HdlError::UnhandledState { state }) => assert_eq!(state, 1),
        _ => panic!("the missing state must be reported"),
    }
}
