//! The example circuits, driven cycle-accurately through the simulator.

use rtl_core::circuits::adder::adder_sum;
use rtl_core::circuits::dot_product::dot_product_run;
use rtl_core::circuits::matmul::matmul_product;
use rtl_core::circuits::matmul_seq::matmul_seq_run;
use rtl_core::circuits::max_pipeline::max_pipeline_run;
use rtl_core::circuits::pattern::pattern_run;
use rtl_core::circuits::tree_pipeline::tree_pipeline_run;

#[test]
fn test_sumador() {
    // The widened output keeps the exact sum at both extremes.
    assert_eq!(adder_sum(8, -128, -128), -256);
    assert_eq!(adder_sum(8, 127, 127), 254);
    assert_eq!(adder_sum(8, -50, 75), 25);
    assert_eq!(adder_sum(8, -50, 50), 0);
    for a in -127i64..128 {
        for b in -127i64..128 {
            assert_eq!(adder_sum(8, a, b), a + b);
        }
    }
}

#[test]
fn adder_other_widths() {
    assert_eq!(adder_sum(4, -8, -8), -16);
    assert_eq!(adder_sum(4, 7, 7), 14);
    assert_eq!(adder_sum(16, -32768, -32768), -65536);
}

#[test]
fn test_reconocedor_patrones() {
    // The example stream: the watched subsequence completes after the first
    // four bits and again, overlapping, on the final bit.
    let bits = vec![true, false, true, true, true, false, true, true];
    let outs = pattern_run(&bits);
    assert_eq!(
        outs,
        vec![false, false, false, true, false, false, false, true]
    );
    // A longer stream with noise and partial matches, checked against a
    // naive last-four-bits matcher.
    let stream = vec![
        true, false, true, true, true, false, true, false, true, false, true, false, true, true,
    ];
    let outs = pattern_run(&stream);
    for i in 0..stream.len() {
        let expect = i >= 3
            && stream[i - 3]
            && !stream[i - 2]
            && stream[i - 1]
            && stream[i];
        assert_eq!(outs[i], expect, "cycle {}", i);
    }
}

#[test]
fn test_maximo_vector() {
    let xs: Vec<Vec<i64>> = vec![
        vec![-50, -20, -100, -5, -30, -90, -10, -60],
        vec![-128, 0, 50, 120, -100, 50, 120, 127],
        vec![30, 50, -80, 120, 0, 60, 70, 110],
        vec![0; 8],
        vec![0; 8],
        vec![0; 8],
    ];
    let ws = vec![true, true, true, false, false, false];
    let outs = max_pipeline_run(&xs, &ws);
    assert_eq!(outs.len(), 6);
    // Three stages of latency, a validity tag alongside.
    assert!(!outs[0].1 && !outs[1].1);
    assert!(outs[2].1 && outs[2].0 == -5);
    assert!(outs[3].1 && outs[3].0 == 127);
    assert!(outs[4].1 && outs[4].0 == 120);
    assert!(!outs[5].1);
}

#[test]
fn max_pipeline_single_valid_vector() {
    // One valid vector surrounded by invalid traffic leaves exactly once,
    // three cycles later.
    let xs: Vec<Vec<i64>> = vec![
        vec![9, 2, 3, 4, 5, 6, 7, 8],
        vec![1, 1, 1, 1, 1, 1, 1, 1],
        vec![90, 2, 3, 4, 5, 6, 7, 8],
        vec![0; 8],
        vec![0; 8],
        vec![0; 8],
    ];
    let ws = vec![false, false, true, false, false, false];
    let outs = max_pipeline_run(&xs, &ws);
    let raised: Vec<usize> = (0..6).filter(|&i| outs[i].1).collect();
    // Presented at cycle 2, observed after cycle 4: three edges of latency.
    assert_eq!(raised, vec![4]);
    assert_eq!(outs[4].0, 90);
}

#[test]
fn test_reduccion_arbol() {
    let xs: Vec<Vec<i64>> = vec![
        vec![0, -1, 2, 3, 4, 5, 6, -7],
        vec![-127, -127, -127, -127, -127, -127, -127, -127],
        vec![10, 15, 20, 5, 30, 25, 12, 8],
        vec![127, 127, 127, 127, 127, 127, 127, 127],
        vec![0; 8],
        vec![0; 8],
    ];
    let outs = tree_pipeline_run(&xs);
    assert_eq!(outs.len(), 6);
    // Each total arrives exactly three cycles after its vector.
    assert_eq!(outs[2], 12);
    assert_eq!(outs[3], -1016);
    assert_eq!(outs[4], 125);
    assert_eq!(outs[5], 1016);
}

#[test]
fn test_multiplicacion_matrices() {
    // [1 2; 3 4] x [5 6; 7 -8] = [19 -10; 43 -14]
    let a = vec![1i64, 2, 3, 4];
    let b = vec![5i64, 6, 7, -8];
    let r = matmul_product(&a, &b);
    assert_eq!(r, (19, -10, 43, -14));
    let a = vec![-8i64, 7, -8, 7];
    let b = vec![7i64, -8, 7, -8];
    let r = matmul_product(&a, &b);
    assert_eq!(r.0, -8 * 7 + 7 * 7);
    assert_eq!(r.3, -8 * -8 + 7 * -8);
}

#[test]
fn test_multiplicacion_matrices_sec() {
    let a = vec![1i64, 2, 3, 4];
    let b = vec![5i64, 6, 7, -8];
    let (r0, r1, r2, r3, dones) = matmul_seq_run(&a, &b);
    assert_eq!((r0, r1, r2, r3), (19, -10, 43, -14));
    // Completion is reported exactly once per run.
    assert_eq!(dones, vec![false, false, false, false, true, false]);
    let a = vec![-8i64, -8, -8, -8];
    let b = vec![-8i64, -8, -8, -8];
    let (r0, r1, r2, r3, _) = matmul_seq_run(&a, &b);
    assert_eq!((r0, r1, r2, r3), (128, 128, 128, 128));
}

#[test]
fn main_test_multiplicacion_matrices() {
    // A worked scalar product: 12 + 30 + 56 + 90 = 188.
    let ps = vec![(3i64, 4i64), (5, 6), (7, 8), (9, 10)];
    let (total, busys) = dot_product_run(&ps);
    assert_eq!(total, 188);
    // Busy reads true from the accepted start through the accumulation, and
    // false in the completion cycle that publishes the sum.
    assert_eq!(busys, vec![true, true, true, true, true, false]);
    // The 16-bit accumulator wraps modulo 2^16.
    let ps = vec![(255i64, 255i64), (255, 255), (255, 255), (255, 255)];
    let expect = (4i64 * 255 * 255) % 65536;
    let (total, _) = dot_product_run(&ps);
    assert_eq!(total, expect);
}
