use catr::args::parse_args;
use catr::config::Config;
use catr::emit::LineRead;
use catr::emit::SourceEmitter;
use catr::emit::SourceRead;
use catr::emit::emit_all;
use catr::emit::emit_source;
use catr::emit::open_failure_message;
use catr::numbering::dec_string;
use catr::numbering::render_line;
use catr::numbering::should_number;

fn s(x: &str) -> String {
    x.to_string()
}

fn line(x: &str) -> LineRead {
    LineRead::Line(s(x))
}

fn opened(lines: &[&str]) -> SourceRead {
    SourceRead::Opened { reads: lines.iter().map(|l| line(l)).collect() }
}

#[test]
fn plain_output_is_the_lines_unprefixed() {
    let cfg = Config::new(vec![s("a"), s("b")], false, false);
    let srcs = vec![opened(&["x", "", "y"]), opened(&["z"])];
    let (out, diags) = emit_all(&cfg, &srcs);
    assert_eq!(out, vec![s("x"), s(""), s("y"), s("z")]);
    assert_eq!(diags, Vec::<String>::new());
}

#[test]
fn number_all_lines_counts_every_line() {
    let cfg = Config::new(vec![s("a")], true, false);
    let reads = vec![line("x"), line(""), line("y")];
    let (out, diags) = emit_source(&cfg, &reads);
    assert_eq!(out, vec![s("     1\tx"), s("     2\t"), s("     3\ty")]);
    assert!(diags.is_empty());
}

#[test]
fn scenario_counter_resets_at_second_source() {
    let cfg = Config::new(vec![s("a.txt"), s("-")], true, false);
    let srcs = vec![opened(&["x", "", "y"]), opened(&["z"])];
    let (out, diags) = emit_all(&cfg, &srcs);
    assert_eq!(out, vec![s("     1\tx"), s("     2\t"), s("     3\ty"), s("     1\tz")]);
    assert!(diags.is_empty());
}

#[test]
fn number_nonblank_skips_blank_lines() {
    let cfg = Config::new(vec![s("a")], false, true);
    let reads = vec![line("x"), line(""), line("y")];
    let (out, diags) = emit_source(&cfg, &reads);
    assert_eq!(out, vec![s("     1\tx"), s(""), s("     2\ty")]);
    assert!(diags.is_empty());
}

#[test]
fn both_flags_behave_as_nonblank_alone() {
    let both = Config::new(vec![s("a")], true, true);
    let nonblank_only = Config::new(vec![s("a")], false, true);
    assert!(!both.number_all_lines);
    assert!(both.number_nonblank_lines);
    let reads = vec![line("x"), line(""), line("y")];
    let (out_both, _) = emit_source(&both, &reads);
    let (out_nonblank, _) = emit_source(&nonblank_only, &reads);
    assert_eq!(out_both, out_nonblank);
}

#[test]
fn open_failure_is_reported_and_the_rest_still_emitted() {
    let cfg = Config::new(vec![s("nope.txt"), s("b")], false, false);
    let srcs = vec![
        SourceRead::OpenFailed { name: s("nope.txt"), cause: s("no such file") },
        opened(&["y"]),
    ];
    let (out, diags) = emit_all(&cfg, &srcs);
    assert_eq!(diags, vec![s("Failed to open nope.txt: no such file")]);
    assert_eq!(out, vec![s("y")]);
}

#[test]
fn read_failure_is_reported_and_consumes_no_counter() {
    let cfg = Config::new(vec![s("a")], true, false);
    let reads = vec![line("a"), LineRead::Failure(s("stream did not contain valid UTF-8")), line("b")];
    let (out, diags) = emit_source(&cfg, &reads);
    assert_eq!(out, vec![s("     1\ta"), s("     2\tb")]);
    assert_eq!(diags, vec![s("stream did not contain valid UTF-8")]);
}

#[test]
fn open_failure_message_names_the_source() {
    let msg = open_failure_message("a.txt", "permission denied");
    assert_eq!(msg, s("Failed to open a.txt: permission denied"));
}

#[test]
fn no_sources_defaults_to_stdin() {
    let cfg = parse_args(&Vec::new()).unwrap();
    assert_eq!(cfg.sources, vec![s("-")]);
    assert!(!cfg.number_all_lines);
    assert!(!cfg.number_nonblank_lines);
}

#[test]
fn flags_only_still_defaults_to_stdin() {
    let cfg = parse_args(&vec![s("-n")]).unwrap();
    assert_eq!(cfg.sources, vec![s("-")]);
    assert!(cfg.number_all_lines);
}

#[test]
fn short_flags_are_recognized() {
    let cfg = parse_args(&vec![s("-b"), s("a.txt")]).unwrap();
    assert!(cfg.number_nonblank_lines);
    assert!(!cfg.number_all_lines);
    assert_eq!(cfg.sources, vec![s("a.txt")]);
}

#[test]
fn long_flags_are_recognized() {
    let cfg = parse_args(&vec![s("--number"), s("a"), s("--number-nonblank"), s("b")]).unwrap();
    assert!(cfg.number_nonblank_lines);
    assert!(!cfg.number_all_lines);
    assert_eq!(cfg.sources, vec![s("a"), s("b")]);
}

#[test]
fn nonblank_flag_overrides_number_flag() {
    let cfg = parse_args(&vec![s("-b"), s("-n"), s("a")]).unwrap();
    assert!(cfg.number_nonblank_lines);
    assert!(!cfg.number_all_lines);
}

#[test]
fn dash_is_a_source_not_a_flag() {
    let cfg = parse_args(&vec![s("a"), s("-"), s("b")]).unwrap();
    assert_eq!(cfg.sources, vec![s("a"), s("-"), s("b")]);
}

#[test]
fn unknown_flag_is_a_usage_error() {
    let err = parse_args(&vec![s("-x")]).unwrap_err();
    assert_eq!(err.token, s("-x"));
    assert_eq!(err.message(), s("Unrecognized flag: -x"));
}

#[test]
fn first_unknown_flag_is_reported() {
    let err = parse_args(&vec![s("a"), s("--zap"), s("-q")]).unwrap_err();
    assert_eq!(err.token, s("--zap"));
}

#[test]
fn decimal_rendering_is_exact() {
    assert_eq!(dec_string(0), s("0"));
    assert_eq!(dec_string(7), s("7"));
    assert_eq!(dec_string(10), s("10"));
    assert_eq!(dec_string(105), s("105"));
    assert_eq!(dec_string(u64::MAX), s("18446744073709551615"));
}

#[test]
fn numbered_line_is_right_justified_value_tab_text() {
    assert_eq!(render_line(true, false, 0, "hi"), s("     1\thi"));
    assert_eq!(render_line(true, false, 9, "hi"), s("    10\thi"));
    assert_eq!(render_line(true, false, 99, "hi"), s("   100\thi"));
    assert_eq!(render_line(false, false, 0, "hi"), s("hi"));
    assert_eq!(render_line(false, true, 3, ""), s(""));
}

#[test]
fn counter_field_is_six_wide_until_it_overflows_the_field() {
    assert_eq!(render_line(true, false, 99998, "x"), s(" 99999\tx"));
    assert_eq!(render_line(true, false, 99999, "x"), s("100000\tx"));
    assert_eq!(render_line(true, false, 999999, "x"), s("1000000\tx"));
}

#[test]
fn tenth_line_shrinks_the_padding() {
    let cfg = Config::new(vec![s("a")], true, false);
    let reads: Vec<LineRead> = (0..10).map(|_| line("x")).collect();
    let (out, _) = emit_source(&cfg, &reads);
    assert_eq!(out[8], s("     9\tx"));
    assert_eq!(out[9], s("    10\tx"));
}

#[test]
fn streaming_emitter_matches_the_batch_form() {
    let cfg = Config::new(vec![s("a")], false, true);
    let mut emitter = SourceEmitter::start(&cfg);
    assert_eq!(emitter.next_line("x"), s("     1\tx"));
    assert_eq!(emitter.next_line(""), s(""));
    assert_eq!(emitter.next_line("y"), s("     2\ty"));
    assert_eq!(emitter.counter, 2);
}

#[test]
fn numbering_decision_matches_the_flags() {
    assert!(!should_number(false, false, "x"));
    assert!(should_number(true, false, ""));
    assert!(should_number(false, true, "x"));
    assert!(!should_number(false, true, ""));
    assert!(!should_number(true, true, ""));
}

#[test]
fn empty_source_list_gets_the_stdin_token() {
    let cfg = Config::new(Vec::new(), true, false);
    assert_eq!(cfg.sources, vec![s("-")]);
    assert!(cfg.number_all_lines);
}

#[test]
fn empty_opened_source_emits_nothing() {
    let cfg = Config::new(vec![s("a")], true, false);
    let (out, diags) = emit_source(&cfg, &Vec::new());
    assert!(out.is_empty());
    assert!(diags.is_empty());
}
