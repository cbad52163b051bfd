use htmd_cli::config::{
    parse_cli_options, parse_config_err, parse_converter_options_from_cli_args,
    parse_ignored_tags, read_cli_options_from_toml, BulletListMarker, CliStyleArgs,
    CodeBlockFence, CodeBlockStyle, HeadingStyle, HrStyle, ParseConfigError,
};
use htmd_cli::engine::{convert_html, new_converter};
use htmd_cli::names::{md_file_name, possible_html_file};
use htmd_cli::paths::{common_ancestor, find_common_prefix, relativize, PathRep};
use htmd_cli::plan::{plan_conversion, BatchPlan, OutputTarget, PlanError};
use htmd_cli::resolve::{ensure_nonempty, resolve_after_glob, GlobOutcome};

fn path(rooted: bool, parts: &[&str]) -> PathRep {
    PathRep {
        rooted,
        parts: parts.iter().map(|s| s.to_string()).collect(),
    }
}

fn parts(v: &[&str]) -> Vec<String> {
    v.iter().map(|s| s.to_string()).collect()
}

fn no_flags() -> CliStyleArgs {
    CliStyleArgs {
        heading_style: None,
        hr_style: None,
        br_style: None,
        link_style: None,
        link_reference_style: None,
        code_block_style: None,
        code_block_fence: None,
        bullet_list_marker: None,
        preformatted_code: false,
        ignored_tags: None,
        flatten_output: false,
    }
}

#[test]
fn common_ancestor_of_two_rooted_paths() {
    let files = vec![path(true, &["a", "b", "c.html"]), path(true, &["a", "d", "e.html"])];
    let anc = common_ancestor(&files).expect("a nonempty set has an ancestor");
    assert!(anc.rooted);
    assert_eq!(anc.parts, parts(&["a"]));
}

#[test]
fn common_ancestor_of_one_path_is_its_parent() {
    let files = vec![path(true, &["a", "b", "c.html"])];
    let anc = common_ancestor(&files).expect("a nonempty set has an ancestor");
    assert!(anc.rooted);
    assert_eq!(anc.parts, parts(&["a", "b"]));
}

#[test]
fn common_ancestor_of_empty_set_is_none() {
    let files: Vec<PathRep> = Vec::new();
    assert!(common_ancestor(&files).is_none());
}

#[test]
fn common_ancestor_of_mixed_paths_is_the_root() {
    let files = vec![path(true, &["a", "x.html"]), path(false, &["b", "y.html"])];
    let anc = common_ancestor(&files).expect("a nonempty set has an ancestor");
    assert!(anc.rooted);
    assert_eq!(anc.parts, parts(&[]));
}

#[test]
fn common_ancestor_of_disjoint_relative_paths_is_empty() {
    let files = vec![path(false, &["a", "x.html"]), path(false, &["b", "y.html"])];
    let anc = common_ancestor(&files).expect("a nonempty set has an ancestor");
    assert!(!anc.rooted);
    assert_eq!(anc.parts, parts(&[]));
}

#[test]
fn rooted_batch_stays_under_the_output_root() {
    let files = vec![
        path(true, &["s1", "a.html"]),
        path(true, &["s2", "a.html"]),
    ];
    let out = OutputTarget::Fs(path(false, &["out"]));
    let plan = plan_conversion(&files, &out, false, false, false).expect("mirroring plans");
    match plan {
        BatchPlan::Jobs(jobs) => {
            assert_eq!(jobs.len(), 2);
            assert!(!jobs[0].dest.rooted);
            assert_eq!(jobs[0].dest.parts, parts(&["out", "s1", "a.md"]));
            assert!(!jobs[1].dest.rooted);
            assert_eq!(jobs[1].dest.parts, parts(&["out", "s2", "a.md"]));
        }
        _ => panic!("expected a job list"),
    }
}

#[test]
fn flattened_collision_is_detected() {
    let files = vec![
        path(false, &["sub1", "a.html"]),
        path(false, &["sub2", "a.html"]),
    ];
    let out = OutputTarget::Fs(path(false, &["out"]));
    let err = plan_conversion(&files, &out, true, false, false)
        .expect_err("two inputs cannot share one output file");
    assert_eq!(err, PlanError::DuplicateDestination);
    assert!(err
        .message()
        .contains("Multiple input files map to the same output file."));
}

#[test]
fn single_file_to_existing_directory_named_like_a_file_is_refused() {
    let files = vec![path(false, &["hello.html"])];
    let out = OutputTarget::Fs(path(false, &["taken.md"]));
    let err = plan_conversion(&files, &out, false, true, false)
        .expect_err("an existing directory cannot be the output file");
    assert_eq!(err, PlanError::OutputIsDirectory);
    assert!(err.message().contains("Output cannot be a directory."));
}

#[test]
fn empty_ignored_tags_list_still_builds_an_engine() {
    let opts = read_cli_options_from_toml("[options]\nignored-tags = []\n")
        .expect("an empty tag list parses");
    assert_eq!(opts.ignored_tags, Some(Vec::new()));
    let converter = new_converter(&opts);
    assert_eq!(convert_html(&converter, "<h1>Hello</h1>"), "# Hello");
}

#[test]
fn find_common_prefix_keeps_shared_run() {
    let a = path(true, &["a", "b", "c"]);
    let b = path(true, &["a", "b", "d", "e"]);
    let c = find_common_prefix(&a, &b);
    assert!(c.rooted);
    assert_eq!(c.parts, parts(&["a", "b"]));
}

#[test]
fn relativize_strips_the_ancestor() {
    let p = path(true, &["a", "b", "c.html"]);
    let anc = path(true, &["a"]);
    let rel = relativize(&p, &anc).expect("the path lies under the ancestor");
    assert!(!rel.rooted);
    assert_eq!(rel.parts, parts(&["b", "c.html"]));
}

#[test]
fn relativize_rejects_unrelated_paths() {
    let p = path(true, &["x", "c.html"]);
    let anc = path(true, &["a"]);
    assert!(relativize(&p, &anc).is_err());
}

#[test]
fn relativize_every_member_under_the_ancestor() {
    let files = vec![
        path(true, &["r", "a", "x.html"]),
        path(true, &["r", "b", "y.html"]),
        path(true, &["r", "z.html"]),
    ];
    let anc = common_ancestor(&files).expect("a nonempty set has an ancestor");
    assert_eq!(anc.parts, parts(&["r"]));
    for f in &files {
        assert!(relativize(f, &anc).is_ok());
    }
}

#[test]
fn html_extensions_are_recognized_case_insensitively() {
    assert!(possible_html_file(&path(false, &["x.html"])));
    assert!(possible_html_file(&path(false, &["x.HTML"])));
    assert!(possible_html_file(&path(false, &["sub", "x.Htm"])));
    assert!(!possible_html_file(&path(false, &["x.txt"])));
    assert!(!possible_html_file(&path(false, &["html"])));
    assert!(!possible_html_file(&path(false, &[".html"])));
}

#[test]
fn md_name_replaces_the_extension() {
    assert_eq!(md_file_name("hello.html"), "hello.md");
    assert_eq!(md_file_name("a.b.html"), "a.b.md");
    assert_eq!(md_file_name("noext"), "noext.md");
}

#[test]
fn ignored_tags_split_at_commas() {
    let v = parse_ignored_tags(&Some("script,style".to_string())).expect("a value splits");
    assert_eq!(v, parts(&["script", "style"]));
    let w = parse_ignored_tags(&Some("a,,b".to_string())).expect("a value splits");
    assert_eq!(w, parts(&["a", "", "b"]));
    assert!(parse_ignored_tags(&None).is_none());
}

#[test]
fn cli_flags_without_config_use_flag_defaults() {
    let opts = parse_cli_options(&no_flags(), &None).expect("flags alone always merge");
    let c = opts.converter_options;
    assert_eq!(c.heading_style, HeadingStyle::Atx);
    assert_eq!(c.hr_style, HrStyle::Asterisks);
    assert_eq!(c.code_block_style, CodeBlockStyle::Fenced);
    assert_eq!(c.code_block_fence, CodeBlockFence::Backticks);
    assert_eq!(c.bullet_list_marker, BulletListMarker::Asterisk);
    assert_eq!(c.ul_bullet_spacing, 3);
    assert_eq!(c.ol_number_spacing, 2);
    assert!(!c.preformatted_code);
    assert!(!opts.flatten_output);
    assert!(opts.scripting_enabled);
}

#[test]
fn cli_style_flags_select_variants() {
    let mut args = no_flags();
    args.heading_style = Some("setex".to_string());
    args.hr_style = Some("dashes".to_string());
    args.bullet_list_marker = Some("dash".to_string());
    let c = parse_converter_options_from_cli_args(&args);
    assert_eq!(c.heading_style, HeadingStyle::Setex);
    assert_eq!(c.hr_style, HrStyle::Dashes);
    assert_eq!(c.bullet_list_marker, BulletListMarker::Dash);
}

#[test]
fn config_file_wins_over_conflicting_flags() {
    let toml_text = "[options]\nheading-style = \"setex\"\n";
    let mut args = no_flags();
    args.heading_style = Some("atx".to_string());
    args.hr_style = Some("dashes".to_string());
    args.flatten_output = true;
    let opts = parse_cli_options(&args, &Some(toml_text.to_string()))
        .expect("the config file parses");
    assert_eq!(opts.converter_options.heading_style, HeadingStyle::Setex);
    assert_eq!(opts.converter_options.hr_style, HrStyle::Asterisks);
    assert!(!opts.flatten_output);
    assert!(opts.scripting_enabled);
}

#[test]
fn config_missing_options_section_is_fatal() {
    let err = read_cli_options_from_toml("title = \"x\"\n").expect_err("no [options] section");
    assert_eq!(err.message, "No [options] in the config file.");
}

#[test]
fn config_unparseable_text_is_fatal() {
    assert!(read_cli_options_from_toml("= nonsense =").is_err());
}

#[test]
fn config_wrong_field_type_is_fatal() {
    let err = read_cli_options_from_toml("[options]\nheading-style = 1\n")
        .expect_err("a number is not a string");
    assert_eq!(err.message, "options.heading-style must be a string");
    let err = read_cli_options_from_toml("[options]\nul-bullet-spacing = \"x\"\n")
        .expect_err("a string is not a small integer");
    assert_eq!(err.message, "options.ul-bullet-spacing must be an u8 integer");
    let err = read_cli_options_from_toml("[options]\npreformatted-code = 3\n")
        .expect_err("a number is not a boolean");
    assert_eq!(err.message, "options.preformatted-code must be a boolean");
}

#[test]
fn config_unknown_enum_literal_is_fatal() {
    let err = read_cli_options_from_toml("[options]\nheading-style = \"bogus\"\n")
        .expect_err("an unknown literal is rejected");
    assert_eq!(err.message, "Unknown heading-style value 'bogus'");
}

#[test]
fn config_ignored_tags_must_be_string_array() {
    let err = read_cli_options_from_toml("[options]\nignored-tags = 5\n")
        .expect_err("a number is not an array");
    assert_eq!(err.message, "options.ignored-tags must be an string array");
    let err = read_cli_options_from_toml("[options]\nignored-tags = [1]\n")
        .expect_err("a number is not a tag");
    assert_eq!(err.message, "Non-string element found in options.ignored-tags");
    let opts = read_cli_options_from_toml("[options]\nignored-tags = [\"script\", \"style\"]\n")
        .expect("a string array parses");
    assert_eq!(opts.ignored_tags, Some(parts(&["script", "style"])));
}

#[test]
fn config_reads_every_field_kind() {
    let toml_text = "[options]\nhr-style = \"underscores\"\nul-bullet-spacing = 1\n\
                     preformatted-code = true\nflatten-output = true\nscripting-enabled = false\n";
    let opts = read_cli_options_from_toml(toml_text).expect("the config parses");
    assert_eq!(opts.converter_options.hr_style, HrStyle::Underscores);
    assert_eq!(opts.converter_options.ul_bullet_spacing, 1);
    assert!(opts.converter_options.preformatted_code);
    assert!(opts.flatten_output);
    assert!(!opts.scripting_enabled);
}

#[test]
fn parse_config_err_keeps_the_message() {
    let e = parse_config_err("boom");
    assert_eq!(e.message, "boom");
    let e2 = ParseConfigError::new("pow");
    assert_eq!(e2.message, "pow");
}

#[test]
fn empty_file_set_plans_nothing_to_convert() {
    let files: Vec<PathRep> = Vec::new();
    let out = OutputTarget::Fs(path(false, &["out"]));
    let plan = plan_conversion(&files, &out, false, false, false).expect("emptiness is not fatal");
    assert!(matches!(plan, BatchPlan::NothingToConvert));
}

#[test]
fn single_file_to_stdout_plans_inline_conversion() {
    let files = vec![path(false, &["a.html"])];
    let plan = plan_conversion(&files, &OutputTarget::Stdout, false, false, false)
        .expect("one file fits stdout");
    assert!(matches!(plan, BatchPlan::SingleToStdout));
}

#[test]
fn multiple_files_need_a_directory_output() {
    let files = vec![path(false, &["a.html"]), path(false, &["b.html"])];
    let out = OutputTarget::Fs(path(false, &["taken.md"]));
    let err = plan_conversion(&files, &out, false, true, true)
        .expect_err("an existing file cannot take a batch");
    assert_eq!(err, PlanError::MultiFileNonDirectoryOutput);
    assert!(err
        .message()
        .contains("Multiple input files with non-directory output is unsupported."));
}

#[test]
fn empty_resolution_is_an_error() {
    let err = ensure_nonempty(Vec::new(), "pages").expect_err("an empty set is refused");
    assert!(err.message.contains("File or directory does not exist"));
    let kept = ensure_nonempty(vec![path(false, &["a.html"])], "a.html")
        .expect("a nonempty set passes");
    assert_eq!(kept.len(), 1);
}

#[test]
fn ignored_tags_reach_the_engine() {
    let html = "<p>Hi <b>there</b></p>";
    let plain = parse_cli_options(&no_flags(), &None).expect("flags alone always merge");
    let with_default = convert_html(&new_converter(&plain), html);
    assert!(with_default.contains("there"));
    let mut args = no_flags();
    args.ignored_tags = Some("b".to_string());
    let skipping = parse_cli_options(&args, &None).expect("flags alone always merge");
    let with_skip = convert_html(&new_converter(&skipping), html);
    assert!(!with_skip.contains("there"));
}

#[test]
fn replanning_the_same_batch_gives_the_same_destinations() {
    let files = vec![
        path(true, &["in", "a.html"]),
        path(true, &["in", "sub", "b.html"]),
    ];
    let out = OutputTarget::Fs(path(false, &["out"]));
    let first = plan_conversion(&files, &out, false, false, false).expect("mirroring plans");
    let second = plan_conversion(&files, &out, false, false, false).expect("mirroring plans");
    match (first, second) {
        (BatchPlan::Jobs(a), BatchPlan::Jobs(b)) => {
            assert_eq!(a.len(), b.len());
            for (x, y) in a.iter().zip(b.iter()) {
                assert_eq!(x.dest.parts, y.dest.parts);
                assert_eq!(x.dest.rooted, y.dest.rooted);
            }
        }
        _ => panic!("expected job lists"),
    }
}

#[test]
fn glob_fallback_prefers_matches_then_literal() {
    let found = resolve_after_glob(vec![path(false, &["a.html"])], false, false);
    assert!(matches!(found, GlobOutcome::Files(v) if v.len() == 1));
    assert!(matches!(resolve_after_glob(Vec::new(), true, true), GlobOutcome::ListDirectory));
    assert!(matches!(resolve_after_glob(Vec::new(), true, false), GlobOutcome::SingleFile));
}
