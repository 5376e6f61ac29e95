use fold_trace::decode::decode_line;
use fold_trace::event::{DecodeError, Direction, Event, FoldError, TraceError};
use fold_trace::folder::Folder;
use fold_trace::probes::{create_usdt_code_in, create_usdt_code_out};
use fold_trace::render::{print_stack_names, u64_to_string};

fn enter(ts: u64, id: u64, name: &str, loc: &str, file: &str) -> Event {
    Event {
        timestamp: ts,
        activation_id: id,
        line_number: 0,
        probe_name: String::from(name),
        location: String::from(loc),
        filename: String::from(file),
        direction: Direction::Enter,
    }
}

#[test]
fn decode_enter_line() {
    let e = decode_line("100 1 call__in 3:4 /tmp/a.nix\n", 7).unwrap();
    assert_eq!(e.timestamp, 100);
    assert_eq!(e.activation_id, 1);
    assert_eq!(e.line_number, 7);
    assert_eq!(e.probe_name, "call");
    assert_eq!(e.location, "3:4");
    assert_eq!(e.filename, "/tmp/a.nix");
    assert_eq!(e.direction, Direction::Enter);
}

#[test]
fn decode_exit_line() {
    let e = decode_line("200 2 call__out 0 0\n", 3).unwrap();
    assert_eq!(e.timestamp, 200);
    assert_eq!(e.activation_id, 2);
    assert_eq!(e.direction, Direction::Exit);
    assert_eq!(e.probe_name, "call");
    assert_eq!(e.location, "");
    assert_eq!(e.filename, "");
}

#[test]
fn decode_exit_needs_only_three_fields() {
    let e = decode_line("200 2 lambda__out", 1).unwrap();
    assert_eq!(e.direction, Direction::Exit);
    assert_eq!(e.timestamp, 200);
}

#[test]
fn decode_too_few_fields() {
    assert_eq!(
        decode_line("100 1\n", 4),
        Err(DecodeError::MissingFields { line_number: 4 })
    );
}

#[test]
fn decode_enter_needs_five_fields() {
    assert_eq!(
        decode_line("100 1 call__in 3:4", 2),
        Err(DecodeError::MissingFields { line_number: 2 })
    );
}

#[test]
fn decode_empty_filename_field() {
    assert_eq!(
        decode_line("100 1 call__in 3:4 ", 2),
        Err(DecodeError::MissingFields { line_number: 2 })
    );
}

#[test]
fn decode_unknown_direction_tag() {
    assert_eq!(
        decode_line("100 1 call__sideways 3:4 /tmp/a.nix\n", 9),
        Err(DecodeError::BadDirection { line_number: 9 })
    );
}

#[test]
fn decode_token_without_tag() {
    assert_eq!(
        decode_line("100 1 call 3:4 /tmp/a.nix\n", 1),
        Err(DecodeError::BadDirection { line_number: 1 })
    );
}

#[test]
fn decode_bad_timestamp() {
    assert_eq!(
        decode_line("x00 1 call__in 3:4 /tmp/a.nix\n", 5),
        Err(DecodeError::BadTimestamp { line_number: 5 })
    );
}

#[test]
fn decode_timestamp_overflow() {
    assert_eq!(
        decode_line("18446744073709551616 1 call__out 0 0\n", 5),
        Err(DecodeError::BadTimestamp { line_number: 5 })
    );
}

#[test]
fn decode_timestamp_at_max() {
    let e = decode_line("18446744073709551615 1 call__out 0 0\n", 1).unwrap();
    assert_eq!(e.timestamp, u64::MAX);
}

#[test]
fn decode_bad_activation_id() {
    assert_eq!(
        decode_line("100 1x call__in 3:4 /tmp/a.nix\n", 6),
        Err(DecodeError::BadActivationId { line_number: 6 })
    );
}

#[test]
fn decode_probe_name_keeps_single_underscores() {
    let e = decode_line("1 1 op_update__in 2:2 f\n", 1).unwrap();
    assert_eq!(e.probe_name, "op_update");
}

#[test]
fn end_to_end_scenario() {
    let mut folder = Folder::new();
    let lines = [
        "100 1 call__in 3:4 /tmp/a.nix\n",
        "150 2 call__in 5:6 /tmp/a.nix\n",
        "200 2 call__out 0 0\n",
        "250 1 call__out 0 0\n",
    ];
    let mut emitted: Vec<String> = Vec::new();
    for line in lines.iter() {
        if let Some(out) = folder.process_line(line).unwrap() {
            emitted.push(out.to_line());
        }
    }
    assert_eq!(emitted, vec![String::from(";call:/tmp/a.nix:3:4 50")]);
    assert_eq!(folder.stack.len(), 0);
    assert_eq!(folder.lines, 4);
}

#[test]
fn duration_is_exact_difference() {
    let mut folder = Folder::new();
    folder.process_line("7 1 if__in 1:1 a.nix\n").unwrap();
    folder.process_line("10 2 var__in 2:2 a.nix\n").unwrap();
    let out = folder.process_line("52 2 var__out 0 0\n").unwrap().unwrap();
    assert_eq!(out.duration, 42);
    assert_eq!(out.frames, ";if:a.nix:1:1");
}

#[test]
fn mismatched_activation_is_fatal_and_restores_stack() {
    let mut folder = Folder::new();
    folder.process_line("100 1 call__in 3:4 a.nix\n").unwrap();
    folder.process_line("150 2 call__in 5:6 a.nix\n").unwrap();
    let r = folder.process_line("200 1 call__out 0 0\n");
    match r {
        Err(TraceError::Fold(FoldError::MismatchedActivation { enter, exit })) => {
            assert_eq!(enter.activation_id, 2);
            assert_eq!(exit.activation_id, 1);
            assert_eq!(exit.line_number, 3);
        }
        other => panic!("expected a mismatch, got {:?}", other),
    }
    // The popped enter is restored: the stack still holds both frames.
    assert_eq!(folder.stack.len(), 2);
    assert_eq!(folder.stack[1].activation_id, 2);
}

#[test]
fn unbalanced_exit_on_empty_stack() {
    let mut folder = Folder::new();
    let r = folder.process_line("500 5 call__out 0 0\n");
    match r {
        Err(TraceError::Fold(FoldError::UnbalancedExit { exit })) => {
            assert_eq!(exit.activation_id, 5);
            assert_eq!(exit.timestamp, 500);
        }
        other => panic!("expected an unbalanced exit, got {:?}", other),
    }
    assert_eq!(folder.stack.len(), 0);
}

#[test]
fn duration_underflow_is_fatal() {
    let mut folder = Folder::new();
    folder.process_line("100 1 call__in 3:4 a.nix\n").unwrap();
    let r = folder.process_line("99 1 call__out 0 0\n");
    match r {
        Err(TraceError::Fold(FoldError::DurationUnderflow { enter, exit })) => {
            assert_eq!(enter.timestamp, 100);
            assert_eq!(exit.timestamp, 99);
        }
        other => panic!("expected a duration underflow, got {:?}", other),
    }
    assert_eq!(folder.stack.len(), 1);
}

#[test]
fn outermost_exit_emits_nothing() {
    let mut folder = Folder::new();
    folder.process_line("100 1 call__in 3:4 a.nix\n").unwrap();
    let r = folder.process_line("250 1 call__out 0 0\n").unwrap();
    assert!(r.is_none());
    assert_eq!(folder.stack.len(), 0);
}

#[test]
fn emitted_line_count_over_nested_input() {
    // Three properly nested activations: only the two inner exits emit.
    let mut folder = Folder::new();
    let lines = [
        "10 1 call__in 1:1 a.nix\n",
        "20 2 lambda__in 2:2 a.nix\n",
        "30 3 if__in 3:3 a.nix\n",
        "40 3 if__out 0 0\n",
        "50 2 lambda__out 0 0\n",
        "60 1 call__out 0 0\n",
    ];
    let mut emitted: Vec<String> = Vec::new();
    for line in lines.iter() {
        if let Some(out) = folder.process_line(line).unwrap() {
            emitted.push(out.to_line());
        }
    }
    assert_eq!(
        emitted,
        vec![
            String::from(";call:a.nix:1:1;lambda:a.nix:2:2 10"),
            String::from(";call:a.nix:1:1 30"),
        ]
    );
    assert_eq!(folder.stack.len(), 0);
}

#[test]
fn decode_error_leaves_stack_unchanged() {
    let mut folder = Folder::new();
    folder.process_line("100 1 call__in 3:4 a.nix\n").unwrap();
    let r = folder.process_line("not a trace line\n");
    assert!(matches!(r, Err(TraceError::Decode(_))));
    assert_eq!(folder.stack.len(), 1);
    assert_eq!(folder.lines, 2);
}

#[test]
fn stack_names_render_outermost_first() {
    let stack = vec![
        enter(1, 1, "call", "3:4", "/tmp/a.nix"),
        enter(2, 2, "lambda", "5:6", "/tmp/b.nix"),
    ];
    assert_eq!(
        print_stack_names(&stack),
        ";call:/tmp/a.nix:3:4;lambda:/tmp/b.nix:5:6"
    );
}

#[test]
fn stack_names_of_empty_stack() {
    let stack: Vec<Event> = Vec::new();
    assert_eq!(print_stack_names(&stack), "");
}

#[test]
fn decimal_rendering() {
    assert_eq!(u64_to_string(0), "0");
    assert_eq!(u64_to_string(50), "50");
    assert_eq!(u64_to_string(1009), "1009");
    assert_eq!(u64_to_string(u64::MAX), "18446744073709551615");
}

#[test]
fn usdt_code_interpolates_probe_name() {
    let expected_in = format!(
        "
int usdt_trace_in_{probe_name} (struct pt_regs *ctx) {{
  uint64_t addr;
  struct trace_event trace_event = {{0}};

  trace_event.ts = bpf_ktime_get_ns();

  bpf_usdt_readarg(1, ctx, &trace_event.expr_id);

  bpf_usdt_readarg(2, ctx, &trace_event.line);

  bpf_usdt_readarg(3, ctx, &trace_event.column);

  bpf_usdt_readarg(4, ctx, &addr);
  bpf_probe_read_user_str(&trace_event.file, sizeof(char) * 128, (void *)addr);

  strcpy(trace_event.probe_name, \"{probe_name}\");

  events.perf_submit(ctx, &trace_event, sizeof(struct trace_event));
  return 0;
}}
",
        probe_name = "call"
    );
    assert_eq!(create_usdt_code_in("call"), expected_in);
    let out = create_usdt_code_out("lambda");
    assert!(out.starts_with("\nint usdt_trace_out_lambda (struct pt_regs *ctx) {"));
    assert!(out.contains("strcpy(trace_event.probe_name, \"lambda\");"));
}
