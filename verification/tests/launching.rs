use sessionizer::launch::plan_launch;
use sessionizer::launch::resolve_selection;
use sessionizer::launch::MuxCommand;

#[test]
fn selection_resolves_to_its_index() {
    let paths = vec![
        "/h/a/one".to_string(),
        "/h/b/two".to_string(),
        "/h/work/siteA".to_string(),
    ];
    let options = vec![
        "a/one".to_string(),
        "b/two".to_string(),
        "work/siteA".to_string(),
    ];
    let selection = "work/siteA".to_string();
    let index = resolve_selection(&options, &selection);
    assert_eq!(index, Some(2));
    let index = index.unwrap();
    assert_eq!(paths[index], "/h/work/siteA");
    assert_eq!(options[index], "work/siteA");
}

#[test]
fn unmatched_selection_resolves_to_none() {
    let options = vec!["a/one".to_string(), "b/two".to_string()];
    let selection = "missing/three".to_string();
    assert_eq!(resolve_selection(&options, &selection), None);
}

#[test]
fn resolution_picks_the_first_match() {
    let options = vec!["same".to_string(), "same".to_string()];
    assert_eq!(resolve_selection(&options, &"same".to_string()), Some(0));
}

#[test]
fn dead_session_is_created_then_attached() {
    let plan = plan_launch(false, false);
    assert_eq!(plan, vec![MuxCommand::Create, MuxCommand::Attach]);
}

#[test]
fn dead_session_inside_multiplexer_is_created_then_switched() {
    let plan = plan_launch(false, true);
    assert_eq!(plan, vec![MuxCommand::Create, MuxCommand::Switch]);
}

#[test]
fn live_session_outside_multiplexer_is_attached() {
    let plan = plan_launch(true, false);
    assert_eq!(plan, vec![MuxCommand::Attach]);
}

#[test]
fn live_session_inside_multiplexer_is_switched() {
    let plan = plan_launch(true, true);
    assert_eq!(plan, vec![MuxCommand::Switch]);
}
