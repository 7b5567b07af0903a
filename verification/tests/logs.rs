use actioneer::ansi::AnsiColor;
use actioneer::log_parse::{
    build_annotation_meta, group_title, is_group_end, is_plain_error_line, parse_command_params,
    parse_workflow_command, split_command_prefix, split_error_prefix, split_timestamp,
    timestamp_padding, WorkflowCommandKind,
};
use actioneer::log_render::{plan_log_render, LogTag};

fn ts(line: &str) -> (Option<String>, String) {
    split_timestamp(line)
}

#[test]
fn split_timestamp_strips_bom_prefix() {
    let line = "\u{FEFF}2026-02-06T07:28:18Z first line";
    let (timestamp, rest) = ts(line);
    assert_eq!(timestamp.as_deref(), Some("2026-02-06T07:28:18Z"));
    assert_eq!(rest, "first line");
}

#[test]
fn split_timestamp_parses_without_bom() {
    let line = "2026-02-06T07:28:18Z   message";
    let (timestamp, rest) = ts(line);
    assert_eq!(timestamp.as_deref(), Some("2026-02-06T07:28:18Z"));
    assert_eq!(rest, "message");
}

#[test]
fn split_timestamp_rejects_non_timestamp_lines() {
    let (timestamp, rest) = ts("2026-02");
    assert_eq!(timestamp, None);
    assert_eq!(rest, "2026-02");

    let line = "INFO 2026-02-06T07:28:18Z message";
    let (timestamp, rest) = ts(line);
    assert_eq!(timestamp, None);
    assert_eq!(rest, line);
}

#[test]
fn split_timestamp_rejects_missing_or_long_timestamps() {
    let line = "2026-02-06T07:28:18Zmessage";
    let (timestamp, rest) = ts(line);
    assert_eq!(timestamp, None);
    assert_eq!(rest, line);

    let line = "2026-02-06T07:28:18.123456789012Z message";
    let (timestamp, rest) = ts(line);
    assert_eq!(timestamp, None);
    assert_eq!(rest, line);
}

#[test]
fn padding_fills_the_timestamp_column() {
    assert_eq!(timestamp_padding("2026-02-06T07:28:18Z"), 11);
    assert_eq!(timestamp_padding(&"1".repeat(30)), 1);
    assert_eq!(timestamp_padding(&"1".repeat(45)), 1);
}

#[test]
fn group_markers_are_recognised() {
    assert!(is_group_end("##[endgroup]"));
    assert!(!is_group_end(" ##[endgroup]"));
    assert_eq!(group_title("##[group]  Run tests  ").as_deref(), Some("Run tests"));
    assert_eq!(group_title("##[group]   "), None);
    assert_eq!(group_title("[group]x"), None);
}

#[test]
fn command_lines_keep_their_indentation() {
    let (lead, tail) = split_command_prefix("  ##[command]  cargo test").expect("a command");
    assert_eq!(lead, "  ");
    assert_eq!(tail, "cargo test");
    let (lead, tail) = split_command_prefix("[command]make").expect("a command");
    assert_eq!(lead, "");
    assert_eq!(tail, "make");
    assert!(split_command_prefix("\u{25B6} [command]ls").is_some());
    assert!(split_command_prefix("command").is_none());
}

#[test]
fn error_lines_are_recognised() {
    assert_eq!(split_error_prefix("##[error]  boom").as_deref(), Some("boom"));
    assert_eq!(split_error_prefix("##[error]   "), None);
    assert!(is_plain_error_line("   Error: nope"));
    assert!(is_plain_error_line("ERROR: nope"));
    assert!(!is_plain_error_line("Err: nope"));
}

#[test]
fn workflow_commands_parse_kind_message_and_params() {
    let cmd = parse_workflow_command("::warning file=src/a.rs,line=3,col=7,title=Lint::Unused value")
        .expect("a warning");
    assert_eq!(cmd.kind, WorkflowCommandKind::Warning);
    assert_eq!(cmd.message, "Unused value");
    let meta = build_annotation_meta(&cmd.params).expect("a location");
    assert_eq!(meta, "\u{2014} (Lint) src/a.rs:3:7");

    assert!(parse_workflow_command("::warning::   ").is_none());
    assert!(parse_workflow_command("::shout::hey").is_none());
    let dbg = parse_workflow_command("  ::debug::::hello").expect("a debug command");
    assert_eq!(dbg.kind, WorkflowCommandKind::Debug);
    assert_eq!(dbg.message, "hello");
    assert!(build_annotation_meta(&dbg.params).is_none());
}

#[test]
fn params_drop_empty_sides_and_keep_the_last_value() {
    let params = parse_command_params("a=1, b = 2 ,=3,c=,a=4");
    let keys: Vec<&str> = params.iter().map(|(k, _)| k.as_str()).collect();
    assert_eq!(keys, vec!["a", "b", "a"]);
    let meta = build_annotation_meta(&parse_command_params("file=x,line=1,line=9")).unwrap();
    assert_eq!(meta, "\u{2014} x:9");
}

#[test]
fn the_render_plan_folds_groups_and_marks_secrets() {
    let logs = "2026-02-06T07:28:18Z ##[group]Build\nstep one\n##[endgroup]\ntoken *** used";
    let plan = plan_log_render(logs);
    let texts: Vec<&str> = plan.iter().map(|s| s.text.as_str()).collect();
    assert_eq!(
        texts,
        vec![
            "2026-02-06T07:28:18Z",
            "           ",
            "\u{25BE} ",
            "Build",
            "\n",
            "  ",
            "step one",
            "\n",
            "\n",
            "token ",
            "***",
            " used",
        ]
    );
    assert_eq!(plan[0].tags, vec![LogTag::Timestamp]);
    assert_eq!(plan[2].tags, vec![LogTag::Group]);
    assert_eq!(plan[10].tags, vec![LogTag::Secret]);
    assert!(plan[9].tags.is_empty());
}

#[test]
fn the_render_plan_styles_errors_and_colours() {
    let plan = plan_log_render("##[error]\u{1b}[31mfailed\u{1b}[0m ***");
    assert_eq!(plan[0].text, "\u{26D4} ");
    assert_eq!(plan[0].tags, vec![LogTag::ErrorLine]);
    assert_eq!(plan[1].text, "failed");
    match plan[1].tags[0] {
        LogTag::Ansi(style) => assert_eq!(style.fg, Some(AnsiColor::Basic(1))),
        _ => panic!("expected a colour tag"),
    }
    assert_eq!(plan[1].tags[1], LogTag::ErrorLine);
    assert_eq!(plan[2].text, " ");
    assert_eq!(plan[3].text, "***");
    assert_eq!(plan[3].tags, vec![LogTag::Secret]);
}

#[test]
fn the_render_plan_marks_commands_and_annotations() {
    let plan = plan_log_render("  ##[command]echo hi\n::notice file=a.txt::Look");
    let texts: Vec<&str> = plan.iter().map(|s| s.text.as_str()).collect();
    assert_eq!(
        texts,
        vec!["  ", "\u{25B6} [command] ", "echo hi", "\n", "\u{2139}", " ", "Look", " ", "\u{2014} a.txt"]
    );
    assert_eq!(plan[4].tags, vec![LogTag::Annotation(WorkflowCommandKind::Notice)]);
    assert_eq!(plan[8].tags, vec![LogTag::AnnotationMeta]);
}
