use triage::config::Config;
use triage::dispatch::dispatch;
use triage::lines::split_lines;
use triage::session::{opening, Answer, Session};
use triage::sink::{terminated, Effect};

fn config(left_sink: Option<&str>, right_sink: Option<&str>) -> Config {
    Config {
        left_label: "keep".to_string(),
        right_label: "drop".to_string(),
        left_sink: left_sink.map(|s| s.to_string()),
        right_sink: right_sink.map(|s| s.to_string()),
        input_source: None,
        treat_as_image_paths: false,
        use_gui: false,
    }
}

/// Drives a session with the given answers; returns the prompts shown and
/// the effects, in order.
fn drive(cfg: Config, text: &str, answers: &[Answer]) -> (Vec<String>, Vec<Effect>) {
    let mut session = Session::new(cfg, split_lines(text));
    let mut prompts = Vec::new();
    let mut effects = Vec::new();
    let mut k = 0;
    while let Some(c) = session.pending() {
        prompts.push(c);
        effects.push(session.answer(answers[k]));
        k += 1;
    }
    (prompts, effects)
}

/// Applies effects to an in-memory set of files and a standard output.
fn perform(effects: &[Effect]) -> (Vec<(String, String)>, String) {
    let mut files: Vec<(String, String)> = Vec::new();
    let mut out = String::new();
    for e in effects {
        match e {
            Effect::Append { path, text } => match files.iter_mut().find(|f| &f.0 == path) {
                Some(f) => f.1.push_str(text),
                None => files.push((path.clone(), text.clone())),
            },
            Effect::Print { text } => out.push_str(text),
        }
    }
    (files, out)
}

fn file<'a>(files: &'a [(String, String)], path: &str) -> Option<&'a str> {
    files.iter().find(|f| f.0 == path).map(|f| f.1.as_str())
}

#[test]
fn two_way_split_to_files() {
    let (prompts, effects) = drive(
        config(Some("k.txt"), Some("d.txt")),
        "apple\nbanana\ncherry\n",
        &[Answer::Chose(0), Answer::Chose(1), Answer::Chose(0)],
    );
    assert_eq!(prompts, vec!["apple", "banana", "cherry"]);
    let (files, out) = perform(&effects);
    assert_eq!(file(&files, "k.txt"), Some("apple\ncherry\n"));
    assert_eq!(file(&files, "d.txt"), Some("banana\n"));
    assert_eq!(out, "");
}

#[test]
fn split_to_standard_output() {
    let (_, effects) = drive(
        config(None, None),
        "apple\nbanana\ncherry\n",
        &[Answer::Chose(0), Answer::Chose(1), Answer::Chose(0)],
    );
    let (files, out) = perform(&effects);
    assert!(files.is_empty());
    assert_eq!(out, "keep - apple\ndrop - banana\nkeep - cherry\n");
}

#[test]
fn cancellation_mid_stream() {
    let (prompts, effects) = drive(
        config(Some("k.txt"), Some("d.txt")),
        "apple\nbanana\ncherry\n",
        &[Answer::Chose(0), Answer::Cancelled],
    );
    assert_eq!(prompts, vec!["apple", "banana"]);
    let (files, out) = perform(&effects);
    assert_eq!(file(&files, "k.txt"), Some("apple\n"));
    assert_eq!(file(&files, "d.txt"), None);
    assert_eq!(out, "No input\n");
}

#[test]
fn shared_sink_interleaves_in_order() {
    let (_, effects) = drive(
        config(Some("s.txt"), Some("s.txt")),
        "x\ny\n",
        &[Answer::Chose(0), Answer::Chose(1)],
    );
    let (files, out) = perform(&effects);
    assert_eq!(file(&files, "s.txt"), Some("x\ny\n"));
    assert_eq!(out, "");
}

#[test]
fn nested_sink_path() {
    let (_, effects) = drive(config(Some("a/b/c.txt"), None), "only\n", &[Answer::Chose(0)]);
    assert_eq!(
        effects,
        vec![Effect::Append { path: "a/b/c.txt".to_string(), text: "only\n".to_string() }]
    );
}

#[test]
fn gui_stub_prints_notice() {
    let mut cfg = config(Some("k.txt"), Some("d.txt"));
    cfg.use_gui = true;
    assert_eq!(
        opening(&cfg),
        Some(Effect::Print { text: "GUI not implemented yet, check back soon!\n".to_string() })
    );
}

#[test]
fn no_gui_no_opening() {
    assert_eq!(opening(&config(None, None)), None);
}

#[test]
fn empty_input_has_no_prompt() {
    let (prompts, effects) = drive(config(Some("k.txt"), Some("d.txt")), "", &[]);
    assert!(prompts.is_empty());
    assert!(effects.is_empty());
}

#[test]
fn single_candidate_single_prompt() {
    let (prompts, effects) = drive(config(None, None), "solo", &[Answer::Chose(1)]);
    assert_eq!(prompts, vec!["solo"]);
    assert_eq!(effects.len(), 1);
}

#[test]
fn cancel_at_first_candidate_writes_nothing() {
    let (_, effects) = drive(config(Some("k.txt"), Some("d.txt")), "a\nb\n", &[Answer::Cancelled]);
    let (files, out) = perform(&effects);
    assert!(files.is_empty());
    assert_eq!(out, "No input\n");
}

#[test]
fn missing_left_file_prints_left_decisions() {
    let (_, effects) = drive(
        config(None, Some("d.txt")),
        "p\nq\n",
        &[Answer::Chose(0), Answer::Chose(0)],
    );
    let (files, out) = perform(&effects);
    assert_eq!(out, "keep - p\nkeep - q\n");
    assert_eq!(file(&files, "d.txt"), None);
}

#[test]
fn two_batches_accumulate() {
    let (_, first) = drive(config(Some("k.txt"), Some("d.txt")), "a\nb\n", &[Answer::Chose(0), Answer::Chose(1)]);
    let (_, second) = drive(config(Some("k.txt"), Some("d.txt")), "c\nd\n", &[Answer::Chose(0), Answer::Chose(1)]);
    let mut all = first;
    all.extend(second);
    let (files, _) = perform(&all);
    assert_eq!(file(&files, "k.txt"), Some("a\nc\n"));
    assert_eq!(file(&files, "d.txt"), Some("b\nd\n"));
}

#[test]
fn equal_labels_go_left() {
    let mut cfg = config(Some("l.txt"), Some("r.txt"));
    cfg.right_label = "keep".to_string();
    let (_, effects) = drive(cfg, "z\n", &[Answer::Chose(1)]);
    let (files, _) = perform(&effects);
    assert_eq!(file(&files, "l.txt"), Some("z\n"));
    assert_eq!(file(&files, "r.txt"), None);
}

#[test]
fn dispatch_unknown_label_reports() {
    let cfg = config(Some("k.txt"), Some("d.txt"));
    let e = dispatch(&cfg, &"item".to_string(), &"other".to_string());
    assert_eq!(
        e,
        Effect::Print {
            text: "Item item was somehow classified as an option that was not provided\nClassification: other\nOptions: keep or drop\n".to_string()
        }
    );
}

#[test]
fn dispatch_right_to_file() {
    let cfg = config(None, Some("d.txt"));
    let e = dispatch(&cfg, &"item".to_string(), &"drop".to_string());
    assert_eq!(e, Effect::Append { path: "d.txt".to_string(), text: "item\n".to_string() });
}

#[test]
fn split_lines_terminators() {
    assert_eq!(split_lines("a\r\nb\n\nc"), vec!["a", "b", "", "c"]);
    assert_eq!(split_lines("x\n"), vec!["x"]);
    assert_eq!(split_lines("tail\r"), vec!["tail\r"]);
    assert_eq!(split_lines("\n"), vec![""]);
    assert!(split_lines("").is_empty());
}

#[test]
fn split_lines_keeps_unicode() {
    assert_eq!(split_lines("héllo\nwörld"), vec!["héllo", "wörld"]);
}

#[test]
fn terminated_adds_one_line_feed() {
    assert_eq!(terminated("abc"), "abc\n");
    assert_eq!(terminated(""), "\n");
}

#[test]
fn labels_in_menu_order() {
    let cfg = config(None, None);
    assert_eq!(cfg.labels(), vec!["keep", "drop"]);
    let session = Session::new(config(None, None), Vec::new());
    assert_eq!(session.labels(), vec!["keep", "drop"]);
}
