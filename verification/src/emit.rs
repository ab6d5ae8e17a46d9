//! The RTL emitter: serializes a Module Graph into a Verilog-compatible
//! textual hardware description.  Every signal becomes a declaration of
//! matching width and signedness, every combinational rule a continuous
//! assignment, and every register an edge-triggered always-block gated by
//! its domain's clock and reset.  The emitted text is pinned, character for
//! character, to a spec-level serialization of the same graph.

use crate::expr::Expr;
use crate::graph::{Dir, ModuleGraph};
use crate::value::Signedness;
use vstd::string::StringExecFns;
use vstd::prelude::*;

verus! {

/// One decimal digit as a character.
pub open spec fn digit_char(d: nat) -> char {
    if d == 0 {
        '0'
    } else if d == 1 {
        '1'
    } else if d == 2 {
        '2'
    } else if d == 3 {
        '3'
    } else if d == 4 {
        '4'
    } else if d == 5 {
        '5'
    } else if d == 6 {
        '6'
    } else if d == 7 {
        '7'
    } else if d == 8 {
        '8'
    } else {
        '9'
    }
}

/// The decimal representation of a nonnegative number, most significant
/// digit first.
pub open spec fn dec_rep(n: nat) -> Seq<char>
    decreases n,
{
    if n < 10 {
        seq![digit_char(n)]
    } else {
        dec_rep(n / 10).push(digit_char(n % 10))
    }
}

/// The decimal representation of an integer: a minus sign for negatives.
pub open spec fn dec_int(v: int) -> Seq<char> {
    if v < 0 {
        seq!['-'] + dec_rep((-v) as nat)
    } else {
        dec_rep(v as nat)
    }
}

/// Appends one decimal digit to a string.
fn push_digit(s: &mut String, d: u64)
    requires
        d < 10,
    ensures
        final(s)@ == old(s)@.push(digit_char(d as nat)),
{
    let lit: &str = match d {
        0 => "0",
        1 => "1",
        2 => "2",
        3 => "3",
        4 => "4",
        5 => "5",
        6 => "6",
        7 => "7",
        8 => "8",
        _ => "9",
    };
    s.append(lit);
    proof {
        reveal_strlit("0");
        reveal_strlit("1");
        reveal_strlit("2");
        reveal_strlit("3");
        reveal_strlit("4");
        reveal_strlit("5");
        reveal_strlit("6");
        reveal_strlit("7");
        reveal_strlit("8");
        reveal_strlit("9");
        assert(s@ =~= old(s)@.push(digit_char(d as nat)));
    }
}

/// Appends the decimal representation of `n`.
pub fn push_u64(s: &mut String, n: u64)
    ensures
        final(s)@ == old(s)@ + dec_rep(n as nat),
    decreases n,
{
    if n < 10 {
        push_digit(s, n);
        proof {
            assert(s@ =~= old(s)@ + dec_rep(n as nat));
        }
    } else {
        push_u64(s, n / 10);
        push_digit(s, n % 10);
        proof {
            assert(s@ =~= old(s)@ + dec_rep(n as nat));
        }
    }
}

/// Appends the decimal representation of a signed value.
fn push_i64(s: &mut String, v: i64)
    ensures
        final(s)@ == old(s)@ + dec_int(v as int),
{
    if v < 0 {
        s.append("-");
        let m: u64 = if v == i64::MIN {
            0x8000000000000000u64
        } else {
            (-v) as u64
        };
        push_u64(s, m);
        proof {
            reveal_strlit("-");
            assert(s@ =~= old(s)@ + dec_int(v as int));
        }
    } else {
        push_u64(s, v as u64);
    }
}

/// The name of signal `i`.
pub open spec fn sig_name(g: ModuleGraph, i: int) -> Seq<char> {
    g.signals@[i].name@
}

/// A parenthesized binary operation.
pub open spec fn wrap_bin(l: Seq<char>, op: Seq<char>, r: Seq<char>) -> Seq<char> {
    seq!['('] + l + op + r + seq![')']
}

/// The Verilog text of an expression, fully parenthesized.
pub open spec fn expr_txt(e: Expr, g: ModuleGraph) -> Seq<char>
    decreases e,
{
    match e {
        Expr::Const(c) => dec_int(c as int),
        Expr::Sig(i) => sig_name(g, i as int),
        Expr::Add(a, b) => wrap_bin(expr_txt(*a, g), seq![' ', '+', ' '], expr_txt(*b, g)),
        Expr::Sub(a, b) => wrap_bin(expr_txt(*a, g), seq![' ', '-', ' '], expr_txt(*b, g)),
        Expr::Mul(a, b) => wrap_bin(expr_txt(*a, g), seq![' ', '*', ' '], expr_txt(*b, g)),
        Expr::Eq(a, b) => wrap_bin(
            expr_txt(*a, g),
            seq![' ', '=', '=', ' '],
            expr_txt(*b, g),
        ),
        Expr::Lt(a, b) => wrap_bin(expr_txt(*a, g), seq![' ', '<', ' '], expr_txt(*b, g)),
        Expr::Mux(c, t, f) => seq!['('] + expr_txt(*c, g) + seq![' ', '?', ' '] + expr_txt(*t, g)
            + seq![' ', ':', ' '] + expr_txt(*f, g) + seq![')'],
        Expr::GetBit(a, k) => seq!['(', '('] + expr_txt(*a, g) + seq![' ', '>', '>', ' ']
            + dec_rep(k as nat) + seq![')', ' ', '&', ' ', '1', ')'],
        Expr::Shl(a, k) => seq!['('] + expr_txt(*a, g) + seq![' ', '<', '<', ' '] + dec_rep(
            k as nat,
        ) + seq![')'],
    }
}

/// Appends the Verilog text of an expression.
fn push_expr(out: &mut String, g: &ModuleGraph, e: &Expr)
    requires
        crate::expr::sigs_below(*e, g.signals@.len()),
    ensures
        final(out)@ == old(out)@ + expr_txt(*e, *g),
    decreases *e,
{
    match e {
        Expr::Const(c) => {
            push_i64(out, *c);
        },
        Expr::Sig(i) => {
            out.append(g.signals[*i].name.as_str());
            proof {
                assert(out@ =~= old(out)@ + expr_txt(*e, *g));
            }
        },
        Expr::Add(a, b) => {
            out.append("(");
            push_expr(out, g, a);
            out.append(" + ");
            push_expr(out, g, b);
            out.append(")");
            proof {
                reveal_strlit("(");
                reveal_strlit(" + ");
                reveal_strlit(")");
                assert(out@ =~= old(out)@ + expr_txt(*e, *g));
            }
        },
        Expr::Sub(a, b) => {
            out.append("(");
            push_expr(out, g, a);
            out.append(" - ");
            push_expr(out, g, b);
            out.append(")");
            proof {
                reveal_strlit("(");
                reveal_strlit(" - ");
                reveal_strlit(")");
                assert(out@ =~= old(out)@ + expr_txt(*e, *g));
            }
        },
        Expr::Mul(a, b) => {
            out.append("(");
            push_expr(out, g, a);
            out.append(" * ");
            push_expr(out, g, b);
            out.append(")");
            proof {
                reveal_strlit("(");
                reveal_strlit(" * ");
                reveal_strlit(")");
                assert(out@ =~= old(out)@ + expr_txt(*e, *g));
            }
        },
        Expr::Eq(a, b) => {
            out.append("(");
            push_expr(out, g, a);
            out.append(" == ");
            push_expr(out, g, b);
            out.append(")");
            proof {
                reveal_strlit("(");
                reveal_strlit(" == ");
                reveal_strlit(")");
                assert(out@ =~= old(out)@ + expr_txt(*e, *g));
            }
        },
        Expr::Lt(a, b) => {
            out.append("(");
            push_expr(out, g, a);
            out.append(" < ");
            push_expr(out, g, b);
            out.append(")");
            proof {
                reveal_strlit("(");
                reveal_strlit(" < ");
                reveal_strlit(")");
                assert(out@ =~= old(out)@ + expr_txt(*e, *g));
            }
        },
        Expr::Mux(c, t, f) => {
            out.append("(");
            push_expr(out, g, c);
            out.append(" ? ");
            push_expr(out, g, t);
            out.append(" : ");
            push_expr(out, g, f);
            out.append(")");
            proof {
                reveal_strlit("(");
                reveal_strlit(" ? ");
                reveal_strlit(" : ");
                reveal_strlit(")");
                assert(out@ =~= old(out)@ + expr_txt(*e, *g));
            }
        },
        Expr::GetBit(a, k) => {
            out.append("((");
            push_expr(out, g, a);
            out.append(" >> ");
            push_u64(out, *k as u64);
            out.append(") & 1)");
            proof {
                reveal_strlit("((");
                reveal_strlit(" >> ");
                reveal_strlit(") & 1)");
                assert(out@ =~= old(out)@ + expr_txt(*e, *g));
            }
        },
        Expr::Shl(a, k) => {
            out.append("(");
            push_expr(out, g, a);
            out.append(" << ");
            push_u64(out, *k as u64);
            out.append(")");
            proof {
                reveal_strlit("(");
                reveal_strlit(" << ");
                reveal_strlit(")");
                assert(out@ =~= old(out)@ + expr_txt(*e, *g));
            }
        },
    }
}

/// Whether signal `i` appears in the port list.
pub open spec fn is_port(g: ModuleGraph, i: int) -> bool {
    g.signals@[i].dir != Dir::Internal
}

/// Whether a port precedes signal `i` in declaration order.
pub open spec fn has_port_before(g: ModuleGraph, i: int) -> bool {
    exists|j: int| 0 <= j < i && is_port(g, j)
}

/// The port name list over the first `n` signals, comma separated.
pub open spec fn ports_upto(g: ModuleGraph, n: int) -> Seq<char>
    decreases n,
{
    if n <= 0 {
        Seq::empty()
    } else {
        ports_upto(g, n - 1) + (if is_port(g, n - 1) {
            (if has_port_before(g, n - 1) {
                seq![',', ' ']
            } else {
                Seq::<char>::empty()
            }) + sig_name(g, n - 1)
        } else {
            Seq::<char>::empty()
        })
    }
}

/// The signedness marker of a declaration.
pub open spec fn sgn_txt(s: Signedness) -> Seq<char> {
    if s == Signedness::Signed {
        seq!['s', 'i', 'g', 'n', 'e', 'd', ' ']
    } else {
        Seq::empty()
    }
}

/// The bit range of a declaration: `[w-1:0] `.
pub open spec fn rng_txt(w: nat) -> Seq<char> {
    seq!['['] + dec_rep((w - 1) as nat) + seq![':', '0', ']', ' ']
}

/// The declaration keyword of a signal: its direction, and `reg` for
/// register outputs.
pub open spec fn decl_kind_txt(g: ModuleGraph, i: int) -> Seq<char> {
    if g.signals@[i].dir == Dir::Input {
        seq!['i', 'n', 'p', 'u', 't', ' ', 'w', 'i', 'r', 'e', ' ']
    } else {
        (if g.signals@[i].dir == Dir::Output {
            seq!['o', 'u', 't', 'p', 'u', 't', ' ']
        } else {
            Seq::<char>::empty()
        }) + (if g.reg_drives(i) {
            seq!['r', 'e', 'g', ' ']
        } else {
            seq!['w', 'i', 'r', 'e', ' ']
        })
    }
}

/// One signal declaration line.
pub open spec fn decl_txt(g: ModuleGraph, i: int) -> Seq<char> {
    seq![' ', ' '] + decl_kind_txt(g, i) + sgn_txt(g.signals@[i].sign) + rng_txt(
        g.signals@[i].width as nat,
    ) + sig_name(g, i) + seq![';', '\n']
}

/// The declaration lines of the first `n` signals.
pub open spec fn decls_upto(g: ModuleGraph, n: int) -> Seq<char>
    decreases n,
{
    if n <= 0 {
        Seq::empty()
    } else {
        decls_upto(g, n - 1) + decl_txt(g, n - 1)
    }
}

/// One continuous assignment line.
pub open spec fn assign_txt(g: ModuleGraph, r: int) -> Seq<char> {
    seq![' ', ' ', 'a', 's', 's', 'i', 'g', 'n', ' '] + sig_name(g, g.rules@[r].target as int)
        + seq![' ', '=', ' '] + expr_txt(g.rules@[r].expr, g) + seq![';', '\n']
}

/// The assignment lines of the first `n` rules.
pub open spec fn assigns_upto(g: ModuleGraph, n: int) -> Seq<char>
    decreases n,
{
    if n <= 0 {
        Seq::empty()
    } else {
        assigns_upto(g, n - 1) + assign_txt(g, n - 1)
    }
}

/// One register's always block: edge-triggered, gated by its domain's
/// clock and reset.
pub open spec fn always_txt(g: ModuleGraph, r: int) -> Seq<char> {
    let rg = g.regs@[r];
    let dom = g.domains@[rg.domain as int];
    seq![' ', ' '] + "always @(posedge "@ + sig_name(g, dom.clock as int) + ") begin if ("@
        + sig_name(g, dom.reset as int) + ") "@ + sig_name(g, rg.out as int) + " <= "@ + dec_int(
        rg.reset_val as int,
    ) + "; else "@ + sig_name(g, rg.out as int) + " <= "@ + sig_name(g, rg.driver as int)
        + "; end\n"@
}

/// The always blocks of the first `n` registers.
pub open spec fn always_upto(g: ModuleGraph, n: int) -> Seq<char>
    decreases n,
{
    if n <= 0 {
        Seq::empty()
    } else {
        always_upto(g, n - 1) + always_txt(g, n - 1)
    }
}

/// The whole module text.
pub open spec fn emit_spec(g: ModuleGraph) -> Seq<char> {
    "module "@ + g.name@ + "("@ + ports_upto(g, g.signals@.len() as int) + ");\n"@ + decls_upto(
        g,
        g.signals@.len() as int,
    ) + assigns_upto(g, g.rules@.len() as int) + always_upto(g, g.regs@.len() as int)
        + "endmodule\n"@
}

/// Whether any register's output is signal `i`: the executable form of
/// `reg_drives`.
fn reg_out_exec(g: &ModuleGraph, i: usize) -> (r: bool)
    ensures
        r == g.reg_drives(i as int),
{
    let mut k: usize = 0;
    while k < g.regs.len()
        invariant
            k <= g.regs@.len(),
            forall|j: int| 0 <= j < k ==> #[trigger] g.regs@[j].out != i,
        decreases g.regs@.len() - k,
    {
        if g.regs[k].out == i {
            return true;
        }
        k = k + 1;
    }
    false
}

/// Serializes a well-formed Module Graph into its Verilog-compatible text:
/// the caller-supplied module name, one port per non-internal signal, one
/// declaration per signal with matching width and signedness, one
/// continuous assignment per combinational rule, and one edge-triggered,
/// reset-gated always block per register.
#[verifier::rlimit(60)]
pub fn emit_verilog(g: &ModuleGraph) -> (out: String)
    requires
        g.wf(),
    ensures
        out@ == emit_spec(*g),
{
    let mut out = String::new();
    out.append("module ");
    out.append(g.name.as_str());
    out.append("(");
    let n = g.signals.len();
    let mut i: usize = 0;
    let mut any_port = false;
    while i < n
        invariant
            g.wf(),
            i <= n == g.signals@.len(),
            any_port == has_port_before(*g, i as int),
            out@ == "module "@ + g.name@ + "("@ + ports_upto(*g, i as int),
        decreases n - i,
    {
        let d = g.signals[i].dir;
        if d != Dir::Internal {
            if any_port {
                out.append(", ");
                proof {
                    reveal_strlit(", ");
                }
            }
            out.append(g.signals[i].name.as_str());
            any_port = true;
        }
        proof {
            assert(has_port_before(*g, i + 1) == (has_port_before(*g, i as int) || is_port(
                *g,
                i as int,
            ))) by {
                if has_port_before(*g, i as int) || is_port(*g, i as int) {
                    if is_port(*g, i as int) {
                        assert(0 <= i < i + 1 && is_port(*g, i as int));
                    }
                }
            }
            assert(out@ =~= "module "@ + g.name@ + "("@ + ports_upto(*g, i + 1));
        }
        i = i + 1;
    }
    out.append(");\n");
    let ghost head = "module "@ + g.name@ + "("@ + ports_upto(*g, g.signals@.len() as int)
        + ");\n"@;
    proof {
        assert(out@ =~= head);
    }
    let mut i: usize = 0;
    while i < n
        invariant
            g.wf(),
            i <= n == g.signals@.len(),
            out@ == head + decls_upto(*g, i as int),
        decreases n - i,
    {
        out.append("  ");
        let d = g.signals[i].dir;
        let is_reg = reg_out_exec(g, i);
        if d == Dir::Input {
            out.append("input wire ");
        } else {
            if d == Dir::Output {
                out.append("output ");
            }
            if is_reg {
                out.append("reg ");
            } else {
                out.append("wire ");
            }
        }
        if g.signals[i].sign == Signedness::Signed {
            out.append("signed ");
        }
        out.append("[");
        let w = g.signals[i].width;
        push_u64(&mut out, (w - 1) as u64);
        out.append(":0] ");
        out.append(g.signals[i].name.as_str());
        out.append(";\n");
        proof {
            reveal_strlit("  ");
            reveal_strlit("input wire ");
            reveal_strlit("output ");
            reveal_strlit("reg ");
            reveal_strlit("wire ");
            reveal_strlit("signed ");
            reveal_strlit("[");
            reveal_strlit(":0] ");
            reveal_strlit(";\n");
            assert(out@ =~= head + decls_upto(*g, i + 1));
        }
        i = i + 1;
    }
    let ghost head2 = head + decls_upto(*g, g.signals@.len() as int);
    let nr = g.rules.len();
    let mut i: usize = 0;
    while i < nr
        invariant
            g.wf(),
            i <= nr == g.rules@.len(),
            out@ == head2 + assigns_upto(*g, i as int),
        decreases nr - i,
    {
        proof {
            assert(g.rule_wf(i as int));
        }
        out.append("  assign ");
        out.append(g.signals[g.rules[i].target].name.as_str());
        out.append(" = ");
        push_expr(&mut out, g, &g.rules[i].expr);
        out.append(";\n");
        proof {
            reveal_strlit("  assign ");
            reveal_strlit(" = ");
            reveal_strlit(";\n");
            assert(out@ =~= head2 + assigns_upto(*g, i + 1));
        }
        i = i + 1;
    }
    let ghost head3 = head2 + assigns_upto(*g, g.rules@.len() as int);
    let ng = g.regs.len();
    let mut i: usize = 0;
    while i < ng
        invariant
            g.wf(),
            i <= ng == g.regs@.len(),
            out@ == head3 + always_upto(*g, i as int),
        decreases ng - i,
    {
        proof {
            assert(g.reg_wf(i as int));
            assert(g.domain_wf(g.regs@[i as int].domain as int));
        }
        let rg_out = g.regs[i].out;
        let rg_driver = g.regs[i].driver;
        let rg_domain = g.regs[i].domain;
        let rg_reset_val = g.regs[i].reset_val;
        out.append("  ");
        out.append("always @(posedge ");
        out.append(g.signals[g.domains[rg_domain].clock].name.as_str());
        out.append(") begin if (");
        out.append(g.signals[g.domains[rg_domain].reset].name.as_str());
        out.append(") ");
        out.append(g.signals[rg_out].name.as_str());
        out.append(" <= ");
        push_i64(&mut out, rg_reset_val);
        out.append("; else ");
        out.append(g.signals[rg_out].name.as_str());
        out.append(" <= ");
        out.append(g.signals[rg_driver].name.as_str());
        out.append("; end\n");
        proof {
            reveal_strlit("  ");
            assert(out@ =~= head3 + always_upto(*g, i + 1));
        }
        i = i + 1;
    }
    out.append("endmodule\n");
    proof {
        assert(out@ =~= emit_spec(*g));
    }
    out
}

} // verus!
