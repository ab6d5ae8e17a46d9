//! The RTL emitter and the cross-validation comparator, plus simulator-level
//! behavior: determinism of a scripted run, trace contents, and reset.

use rtl_core::circuits::adder::build_adder;
use rtl_core::circuits::matmul_seq::build_matmul_seq;
use rtl_core::circuits::pattern::build_pattern;
use rtl_core::emit::emit_verilog;
use rtl_core::errors::HdlError;
use rtl_core::sim::{run_script, CycleSim, TbStep, TraceEntry};
use rtl_core::vcd::emit_vcd;
use rtl_core::xval::compare_traces;

#[test]
fn adder_verilog_text() {
    let (g, _) = build_adder(8);
    let text = emit_verilog(&g);
    let expected = "module adder(a, b, sum);\n\
                    \x20 input wire signed [7:0] a;\n\
                    \x20 input wire signed [7:0] b;\n\
                    \x20 output wire signed [8:0] sum;\n\
                    \x20 assign sum = (a + b);\n\
                    endmodule\n";
    assert_eq!(text, expected);
}

#[test]
fn pattern_verilog_structure() {
    let (g, _) = build_pattern();
    let text = emit_verilog(&g);
    assert!(text.starts_with("module reconocedor_patrones(clk, rst, entrada, salida);\n"));
    assert!(text.contains("  input wire [0:0] clk;\n"));
    assert!(text.contains("  output wire [0:0] salida;\n"));
    assert!(text.contains("  reg [2:0] state;\n"));
    assert!(text.contains("  wire [2:0] state_next;\n"));
    assert!(text.contains("  assign salida = (rst ? 0 : (state == 4));\n"));
    assert!(text.contains(
        "  always @(posedge clk) begin if (rst) state <= 0; else state <= state_next; end\n"
    ));
    assert!(text.ends_with("endmodule\n"));
}

#[test]
fn adder_vcd_text() {
    let (g, ports) = build_adder(8);
    let script = vec![
        TbStep::SetInputs(vec![(ports.a, 100), (ports.b, -30)]),
        TbStep::Advance(1),
    ];
    let (g2, _) = build_adder(8);
    let trace = run_script(g, &script).unwrap();
    let text = emit_vcd(&g2, &trace);
    let expected = "$timescale 1ns $end\n$scope module adder $end\n$var wire 9 s2 sum $end\n$upscope $end\n$enddefinitions $end\n#0\nb001000110 s2\n";
    assert_eq!(text, expected);
}

#[test]
fn vcd_negative_two_complement() {
    let (g, _) = build_adder(8);
    let trace = vec![TraceEntry { time: 3, signal: 2, value: -1 }];
    let text = emit_vcd(&g, &trace);
    assert!(text.ends_with("#3\nb111111111 s2\n"));
}

#[test]
fn scripted_run_collects_output_trace() {
    let (g, ports) = build_adder(8);
    let script = vec![
        TbStep::SetInputs(vec![(ports.a, 100), (ports.b, -30)]),
        TbStep::Advance(1),
        TbStep::SetInputs(vec![(ports.a, 1), (ports.b, 2)]),
        TbStep::Advance(1),
    ];
    let trace = run_script(g, &script).unwrap();
    assert_eq!(trace.len(), 2);
    assert_eq!(trace[0], TraceEntry { time: 0, signal: ports.sum, value: 70 });
    assert_eq!(trace[1], TraceEntry { time: 1, signal: ports.sum, value: 3 });
}

#[test]
fn scripted_runs_are_deterministic() {
    let script = vec![
        TbStep::SetInputs(vec![(0, -5), (1, 100)]),
        TbStep::Advance(3),
    ];
    let (g1, _) = build_adder(8);
    let (g2, _) = build_adder(8);
    let t1 = run_script(g1, &script).unwrap();
    let t2 = run_script(g2, &script).unwrap();
    assert_eq!(t1, t2);
}

#[test]
fn trace_comparison_reports_first_mismatch() {
    let (g, _) = build_adder(8);
    let ours = vec![
        TraceEntry { time: 0, signal: 2, value: 7 },
        TraceEntry { time: 1, signal: 2, value: 9 },
    ];
    let same = ours.clone();
    assert!(compare_traces(&g, &ours, &same).is_ok());
    let mut reference = ours.clone();
    reference[1].value = 10;
    match compare_traces(&g, &ours, &reference) {
        Err(HdlError::CrossValidationMismatch { name, time, expected, actual }) => {
            assert_eq!(name, "sum");
            assert_eq!(time, 1);
            assert_eq!(expected, 10);
            assert_eq!(actual, 9);
        },
        _ => panic!("the mismatch must be reported"),
    }
    let shorter = vec![ours[0]];
    match compare_traces(&g, &ours, &shorter) {
        Err(HdlError::CrossValidationMismatch { expected, actual, .. }) => {
            assert_eq!(expected, 1);
            assert_eq!(actual, 2);
        },
        _ => panic!("the length mismatch must be reported"),
    }
}

#[test]
fn sequential_multiplier_reset_silences_outputs() {
    // Drive the machine into its done state, then hold reset without a
    // clock edge: done and every result output settle to zero at once,
    // while the registers still hold their values until the next edge.
    let (g, ports) = build_matmul_seq();
    let mut sim = CycleSim::new(g);
    let a = [1i64, 2, 3, 4];
    let b = [5i64, 6, 7, -8];
    for c in 0..5 {
        let sv = if c == 0 { 1 } else { 0 };
        sim.wait(
            1,
            &vec![
                (0, 1),
                (ports.start, sv),
                (ports.a, a[0]),
                (ports.a + 1, a[1]),
                (ports.a + 2, a[2]),
                (ports.a + 3, a[3]),
                (ports.b, b[0]),
                (ports.b + 1, b[1]),
                (ports.b + 2, b[2]),
                (ports.b + 3, b[3]),
            ],
        )
        .unwrap();
        sim.wait(1, &vec![(0, 0)]).unwrap();
    }
    // In the done state the completion output is up and the first three
    // results are published.
    assert_eq!(sim.read(ports.done), 1);
    assert_eq!(sim.read(ports.result), 19);
    // Hold reset with the clock low: the outputs drop combinationally,
    // before any edge commits.
    sim.wait(1, &vec![(ports.rst, 1)]).unwrap();
    assert_eq!(sim.read(ports.done), 0);
    assert_eq!(sim.read(ports.result), 0);
    assert_eq!(sim.read(ports.result + 1), 0);
    assert_eq!(sim.read(ports.result + 2), 0);
    assert_eq!(sim.read(ports.result + 3), 0);
    // The reset edge then forces the registers to their reset values, and
    // releasing reset shows a machine back in idle: nothing left to report.
    sim.wait(1, &vec![(0, 1)]).unwrap();
    sim.wait(1, &vec![(0, 0), (ports.rst, 0)]).unwrap();
    assert_eq!(sim.read(ports.done), 0);
    assert_eq!(sim.read(ports.result), 0);
}

#[test]
fn reset_forces_registers_from_any_state() {
    // Drive the detector to a nonzero state, then hold reset for one edge:
    // the next occurrence is detected as if the stream had just begun.
    let (g, ports) = build_pattern();
    let mut sim = CycleSim::new(g);
    let feed = |sim: &mut CycleSim, rst: i64, bit: i64| {
        sim.wait(1, &vec![(ports.clk, 1), (ports.rst, rst), (ports.entrada, bit)]).unwrap();
        sim.wait(1, &vec![(ports.clk, 0)]).unwrap();
    };
    // Three bits of the pattern...
    feed(&mut sim, 0, 1);
    feed(&mut sim, 0, 0);
    feed(&mut sim, 0, 1);
    // ...then one reset edge wipes the progress, whatever the state was.
    feed(&mut sim, 1, 1);
    // The final pattern bit alone no longer completes a match.
    feed(&mut sim, 0, 1);
    assert_eq!(sim.read(ports.salida), 0);
    // A fresh, full occurrence is detected again after the reset.
    feed(&mut sim, 0, 0);
    feed(&mut sim, 0, 1);
    feed(&mut sim, 0, 1);
    assert_eq!(sim.read(ports.salida), 1);
}
