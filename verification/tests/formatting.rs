use sessionizer::format::colorize;
use sessionizer::format::display_name;
use sessionizer::format::display_options_from_options;
use sessionizer::format::options_from_path;

const ATTACHED_PREFIX: &str = "\u{1b}[33m";
const LIVE_PREFIX: &str = "\u{1b}[34m";
const RESET: &str = "\u{1b}[0m";

/// Removes a color wrapper if the line carries one, as selection lookup
/// would have to before matching against the uncolored labels.
fn strip(line: &str) -> &str {
    if (line.starts_with(ATTACHED_PREFIX) || line.starts_with(LIVE_PREFIX))
        && line.ends_with(RESET)
    {
        &line[ATTACHED_PREFIX.len()..line.len() - RESET.len()]
    } else {
        line
    }
}

#[test]
fn one_label_per_path_same_order() {
    let paths = vec![
        "/home/u/work/siteA".to_string(),
        "/home/u/play/siteB".to_string(),
    ];
    let labels = options_from_path(paths);
    assert_eq!(labels, vec!["work/siteA".to_string(), "play/siteB".to_string()]);
}

#[test]
fn label_is_parent_name_and_final_component() {
    assert_eq!(display_name("/home/u/work/siteA"), "work/siteA");
}

#[test]
fn label_ignores_trailing_slash() {
    assert_eq!(display_name("/home/u/work/siteA/"), "work/siteA");
}

#[test]
fn label_of_relative_path() {
    assert_eq!(display_name("work/siteA"), "work/siteA");
}

#[test]
fn attached_label_gets_attached_color() {
    let live = vec!["work/siteA".to_string()];
    let attached = "work/siteA".to_string();
    let colored = colorize(&"work/siteA".to_string(), &live, &attached);
    assert_eq!(colored, format!("{}work/siteA{}", ATTACHED_PREFIX, RESET));
}

#[test]
fn live_label_gets_live_color() {
    let live = vec!["work/siteA".to_string()];
    let attached = "other".to_string();
    let colored = colorize(&"work/siteA".to_string(), &live, &attached);
    assert_eq!(colored, format!("{}work/siteA{}", LIVE_PREFIX, RESET));
}

#[test]
fn plain_label_is_unchanged() {
    let live = vec!["other".to_string()];
    let attached = "another".to_string();
    let colored = colorize(&"work/siteA".to_string(), &live, &attached);
    assert_eq!(colored, "work/siteA");
}

#[test]
fn stripping_color_recovers_each_label() {
    let live = vec!["live/one".to_string(), "both/two".to_string()];
    let attached = "both/two".to_string();
    for label in ["plain/zero", "live/one", "both/two"] {
        let colored = colorize(&label.to_string(), &live, &attached);
        assert_eq!(strip(&colored), label);
    }
}

#[test]
fn coloring_keeps_count_and_order() {
    let options = vec![
        "plain/zero".to_string(),
        "live/one".to_string(),
        "both/two".to_string(),
    ];
    let live = vec!["live/one".to_string(), "both/two".to_string()];
    let attached = "both/two".to_string();
    let display = display_options_from_options(options.clone(), &live, &attached);
    assert_eq!(display.len(), options.len());
    assert_eq!(display[0], "plain/zero");
    assert_eq!(display[1], format!("{}live/one{}", LIVE_PREFIX, RESET));
    assert_eq!(display[2], format!("{}both/two{}", ATTACHED_PREFIX, RESET));
}
