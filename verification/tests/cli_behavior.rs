use htmd_cli::config::{parse_cli_options, CliOptions, CliStyleArgs, HeadingStyle};
use htmd_cli::engine::{convert_html, convert_text, new_converter};
use htmd_cli::paths::PathRep;
use htmd_cli::plan::{plan_conversion, BatchPlan, OutputTarget, PlanError};
use htmd_cli::resolve::{
    classify_input_arg, ensure_nonempty, filter_html_files, input_is_stdin,
    input_not_found_message, output_is_stdout, resolve_after_glob, GlobOutcome, InputKind,
};

fn path(rooted: bool, parts: &[&str]) -> PathRep {
    PathRep {
        rooted,
        parts: parts.iter().map(|s| s.to_string()).collect(),
    }
}

fn parts(v: &[&str]) -> Vec<String> {
    v.iter().map(|s| s.to_string()).collect()
}

fn no_flags() -> CliStyleArgs {
    CliStyleArgs {
        heading_style: None,
        hr_style: None,
        br_style: None,
        link_style: None,
        link_reference_style: None,
        code_block_style: None,
        code_block_fence: None,
        bullet_list_marker: None,
        preformatted_code: false,
        ignored_tags: None,
        flatten_output: false,
    }
}

fn default_options() -> CliOptions {
    parse_cli_options(&no_flags(), &None).expect("default options must merge")
}

fn plan_jobs(plan: BatchPlan) -> Vec<htmd_cli::plan::Job> {
    match plan {
        BatchPlan::Jobs(jobs) => jobs,
        _ => panic!("expected a job list"),
    }
}

#[test]
fn stdin_in_stdout_out() {
    let html = "<h1>Hello</h1>";
    let opts = default_options();
    let converter = new_converter(&opts);
    let md = convert_html(&converter, html);
    assert!(input_is_stdin(&None));
    assert!(output_is_stdout(&None));
    assert_eq!("# Hello", md);
}

#[test]
fn stdin_in_stdout_out_with_explicit_input() {
    let html = "<h1>Hello</h1>";
    assert!(input_is_stdin(&Some("-".to_string())));
    assert!(!input_is_stdin(&Some("hello.html".to_string())));
    assert!(matches!(classify_input_arg("-"), InputKind::Stdin));
    let opts = default_options();
    let converter = new_converter(&opts);
    let md = convert_html(&converter, html);
    assert_eq!("# Hello", md);
}

#[test]
fn stdin_in_file_out() {
    let html = "<h1>Hello</h1>";
    assert!(!output_is_stdout(&Some("output.md".to_string())));
    let opts = default_options();
    let converter = new_converter(&opts);
    let md = convert_text(&converter, html, false).expect("a plain file target is accepted");
    assert_eq!("# Hello", md);
}

#[test]
fn stdin_in_folder_out() {
    let html = "<h1>Hello</h1>";
    let opts = default_options();
    let converter = new_converter(&opts);
    let err = convert_text(&converter, html, true).expect_err("a directory target is refused");
    assert!(err.contains("Output cannot be a directory."));
}

#[test]
fn unnamed_file_in_folder_out() {
    assert!(matches!(classify_input_arg("hello.html"), InputKind::Pattern));
    let matches = filter_html_files(vec![path(false, &["hello.html"])]);
    let files = ensure_nonempty(matches, "hello.html").expect("the file resolves");
    let out = OutputTarget::Fs(path(false, &["."]));
    let plan = plan_conversion(&files, &out, false, true, false).expect("a folder target plans");
    let jobs = plan_jobs(plan);
    assert_eq!(jobs.len(), 1);
    assert_eq!(jobs[0].dest.parts, parts(&[".", "hello.md"]));
}

#[test]
fn file_in_with_input_option() {
    assert!(matches!(classify_input_arg("hello.html"), InputKind::Pattern));
    let files = vec![path(false, &["hello.html"])];
    let out = OutputTarget::Fs(path(false, &["."]));
    let plan = plan_conversion(&files, &out, false, true, false).expect("a folder target plans");
    let jobs = plan_jobs(plan);
    assert_eq!(jobs[0].dest.parts, parts(&[".", "hello.md"]));
}

#[test]
fn file_in_not_found() {
    let outcome = resolve_after_glob(Vec::new(), false, false);
    assert!(matches!(outcome, GlobOutcome::NotFound));
    let message = input_not_found_message("404.html");
    assert!(message.contains("File or directory does not exist"));
}

#[test]
fn file_in_file_out() {
    let files = vec![path(false, &["hello.html"])];
    let out = OutputTarget::Fs(path(false, &["hello_converted.md"]));
    let plan = plan_conversion(&files, &out, false, false, false).expect("a file target plans");
    let jobs = plan_jobs(plan);
    assert_eq!(jobs.len(), 1);
    assert_eq!(jobs[0].dest.parts, parts(&["hello_converted.md"]));
}

#[test]
fn file_in_folder_out() {
    let files = vec![path(false, &["hello.html"])];
    let out = OutputTarget::Fs(path(false, &["converted"]));
    let plan = plan_conversion(&files, &out, false, false, false).expect("a folder target plans");
    let jobs = plan_jobs(plan);
    assert_eq!(jobs.len(), 1);
    assert_eq!(jobs[0].dest.parts, parts(&["converted", "hello.md"]));
}

#[test]
fn folder_in_folder_out() {
    let listing = vec![
        path(false, &["sub-folder2", "a.html"]),
        path(false, &["sub-folder2", "notes.txt"]),
        path(false, &["sub-folder2", "b.htm"]),
    ];
    let files = filter_html_files(listing);
    assert_eq!(files.len(), 2);
    let out = OutputTarget::Fs(path(false, &["."]));
    let plan = plan_conversion(&files, &out, false, true, false).expect("a folder target plans");
    let jobs = plan_jobs(plan);
    assert_eq!(jobs.len(), files.len());
}

#[test]
fn folder_in_default_out() {
    let files = vec![
        path(false, &["a.html"]),
        path(false, &["sub-folder", "b.html"]),
    ];
    assert!(output_is_stdout(&None));
    let err = plan_conversion(&files, &OutputTarget::Stdout, false, false, false)
        .expect_err("multiple files cannot go to stdout");
    assert_eq!(err, PlanError::MultiFileStdout);
    assert!(err
        .message()
        .contains("Output to stdout doesn't support multiple files as the input."));
}

#[test]
fn folder_in_stdout_out() {
    let files = vec![
        path(false, &["a.html"]),
        path(false, &["sub-folder", "b.html"]),
    ];
    assert!(output_is_stdout(&Some("-".to_string())));
    let err = plan_conversion(&files, &OutputTarget::Stdout, false, false, false)
        .expect_err("multiple files cannot go to stdout");
    assert!(err
        .message()
        .contains("Output to stdout doesn't support multiple files as the input."));
}

#[test]
fn glob_in_folder_out_hierarchy() {
    let files = vec![
        path(false, &["a.html"]),
        path(false, &["sub-folder", "c.html"]),
        path(false, &["sub-folder2", "d.html"]),
    ];
    let out = OutputTarget::Fs(path(false, &["."]));
    let plan = plan_conversion(&files, &out, false, true, false).expect("mirroring plans");
    let jobs = plan_jobs(plan);
    assert_eq!(jobs.len(), 3);
    assert_eq!(jobs[0].dest.parts, parts(&[".", "a.md"]));
    assert_eq!(jobs[1].dest.parts, parts(&[".", "sub-folder", "c.md"]));
    assert_eq!(jobs[2].dest.parts, parts(&[".", "sub-folder2", "d.md"]));
}

#[test]
fn glob_in_folder_out_flatten() {
    let files = vec![
        path(false, &["a.html"]),
        path(false, &["sub-folder", "c.html"]),
        path(false, &["sub-folder2", "d.html"]),
    ];
    let out = OutputTarget::Fs(path(false, &["."]));
    let plan = plan_conversion(&files, &out, true, true, false).expect("flattening plans");
    let jobs = plan_jobs(plan);
    assert_eq!(jobs.len(), 3);
    assert_eq!(jobs[0].dest.parts, parts(&[".", "a.md"]));
    assert_eq!(jobs[1].dest.parts, parts(&[".", "c.md"]));
    assert_eq!(jobs[2].dest.parts, parts(&[".", "d.md"]));
}

#[test]
fn read_options_toml() {
    let toml_text = "[options]\nheading-style = \"setex\"\n";
    let mut args = no_flags();
    args.heading_style = Some("atx".to_string());
    let opts = parse_cli_options(&args, &Some(toml_text.to_string()))
        .expect("the config file parses");
    assert_eq!(opts.converter_options.heading_style, HeadingStyle::Setex);
    let converter = new_converter(&opts);
    let md = convert_html(&converter, "<h1>Hello World!</h1>");
    assert!(md.contains("Hello World!\n============"));
}
