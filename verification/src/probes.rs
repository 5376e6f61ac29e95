//! Builders for the BPF C handler attached to one probe: one handler text
//! per probe and direction, with the probe's name interpolated.

use vstd::prelude::*;

verus! {

/// The part of a handler shared by both directions: parameter list and body,
/// with the probe name interpolated once more inside `strcpy`.
pub open spec fn usdt_code_tail(name: Seq<char>) -> Seq<char> {
    " (struct pt_regs *ctx) {\n  uint64_t addr;\n  struct trace_event trace_event = {0};\n\n  trace_event.ts = bpf_ktime_get_ns();\n\n  bpf_usdt_readarg(1, ctx, &trace_event.expr_id);\n\n  bpf_usdt_readarg(2, ctx, &trace_event.line);\n\n  bpf_usdt_readarg(3, ctx, &trace_event.column);\n\n  bpf_usdt_readarg(4, ctx, &addr);\n  bpf_probe_read_user_str(&trace_event.file, sizeof(char) * 128, (void *)addr);\n\n  strcpy(trace_event.probe_name, \""@
        + name
        + "\");\n\n  events.perf_submit(ctx, &trace_event, sizeof(struct trace_event));\n  return 0;\n}\n"@
}

/// The whole handler for the enter direction of a probe.
pub open spec fn usdt_code_in_model(name: Seq<char>) -> Seq<char> {
    "\nint usdt_trace_in_"@ + name + usdt_code_tail(name)
}

/// The whole handler for the exit direction of a probe.
pub open spec fn usdt_code_out_model(name: Seq<char>) -> Seq<char> {
    "\nint usdt_trace_out_"@ + name + usdt_code_tail(name)
}

/// Builds the C source of the handler that records one enter firing of the
/// named probe.
pub fn create_usdt_code_in(usdt_name: &str) -> (r: String)
    ensures
        r@ == usdt_code_in_model(usdt_name@),
{
    let r = String::from_str("\nint usdt_trace_in_").concat(usdt_name).concat(
        " (struct pt_regs *ctx) {\n  uint64_t addr;\n  struct trace_event trace_event = {0};\n\n  trace_event.ts = bpf_ktime_get_ns();\n\n  bpf_usdt_readarg(1, ctx, &trace_event.expr_id);\n\n  bpf_usdt_readarg(2, ctx, &trace_event.line);\n\n  bpf_usdt_readarg(3, ctx, &trace_event.column);\n\n  bpf_usdt_readarg(4, ctx, &addr);\n  bpf_probe_read_user_str(&trace_event.file, sizeof(char) * 128, (void *)addr);\n\n  strcpy(trace_event.probe_name, \"",
    ).concat(usdt_name).concat(
        "\");\n\n  events.perf_submit(ctx, &trace_event, sizeof(struct trace_event));\n  return 0;\n}\n",
    );
    proof {
        assert(r@ =~= usdt_code_in_model(usdt_name@));
    }
    r
}

/// Builds the C source of the handler that records one exit firing of the
/// named probe.
pub fn create_usdt_code_out(usdt_name: &str) -> (r: String)
    ensures
        r@ == usdt_code_out_model(usdt_name@),
{
    let r = String::from_str("\nint usdt_trace_out_").concat(usdt_name).concat(
        " (struct pt_regs *ctx) {\n  uint64_t addr;\n  struct trace_event trace_event = {0};\n\n  trace_event.ts = bpf_ktime_get_ns();\n\n  bpf_usdt_readarg(1, ctx, &trace_event.expr_id);\n\n  bpf_usdt_readarg(2, ctx, &trace_event.line);\n\n  bpf_usdt_readarg(3, ctx, &trace_event.column);\n\n  bpf_usdt_readarg(4, ctx, &addr);\n  bpf_probe_read_user_str(&trace_event.file, sizeof(char) * 128, (void *)addr);\n\n  strcpy(trace_event.probe_name, \"",
    ).concat(usdt_name).concat(
        "\");\n\n  events.perf_submit(ctx, &trace_event, sizeof(struct trace_event));\n  return 0;\n}\n",
    );
    proof {
        assert(r@ =~= usdt_code_out_model(usdt_name@));
    }
    r
}

} // verus!
