use home_control::automations::AutomationSet;
use home_control::combine_results;
use home_control::Group;

#[test]
fn single_automation_has_size_one() {
    let s = AutomationSet::automation(10u32);
    assert_eq!(s.size(), 1);
    let mut out: Vec<u32> = Vec::new();
    s.futures(&mut out);
    assert_eq!(out, vec![10]);
}

#[test]
fn group_concatenates_children_in_order() {
    let s = AutomationSet::group(vec![
        AutomationSet::automation(1u32),
        AutomationSet::automation(2),
        AutomationSet::automation(3),
    ]);
    assert_eq!(s.size(), 3);
    let mut out: Vec<u32> = Vec::new();
    s.futures(&mut out);
    assert_eq!(out, vec![1, 2, 3]);
}

#[test]
fn materialize_count_matches_size_recursively() {
    // nested groups of varying arities, with an empty set among them
    let inner = AutomationSet::group(vec![
        AutomationSet::automation(4u32),
        AutomationSet::automation(5),
    ]);
    let deeper = AutomationSet::group(vec![
        AutomationSet::automation(6u32),
        AutomationSet::group(vec![
            AutomationSet::automation(7),
            AutomationSet::automation(8),
            AutomationSet::automation(9),
        ]),
        AutomationSet::empty(),
    ]);
    let s = AutomationSet::group(vec![
        AutomationSet::automation(3u32),
        inner,
        deeper,
    ]);
    let size = s.size();
    let mut out: Vec<u32> = Vec::new();
    s.futures(&mut out);
    assert_eq!(out.len(), size);
    assert_eq!(out, vec![3, 4, 5, 6, 7, 8, 9]);
}

#[test]
fn empty_set_materializes_nothing() {
    let s = AutomationSet::<u32>::empty();
    assert_eq!(s.size(), 0);
    let mut out: Vec<u32> = Vec::new();
    s.futures(&mut out);
    assert!(out.is_empty());
}

#[test]
fn futures_appends_after_existing_tasks() {
    let s = AutomationSet::group(vec![
        AutomationSet::automation(2u32),
        AutomationSet::automation(3),
    ]);
    let mut out: Vec<u32> = vec![1];
    s.futures(&mut out);
    assert_eq!(out, vec![1, 2, 3]);
}

#[test]
fn group_members_keep_their_order() {
    let g = Group::new(vec!["lamp", "strip", "spot"]);
    assert_eq!(g.len(), 3);
    assert_eq!(*g.get(0), "lamp");
    assert_eq!(*g.get(2), "spot");
}

#[test]
fn combine_results_reports_first_failure() {
    let all_ok: Vec<Result<(), String>> = vec![Ok(()), Ok(()), Ok(())];
    assert_eq!(combine_results(all_ok), Ok(()));

    let none: Vec<Result<(), String>> = Vec::new();
    assert_eq!(combine_results(none), Ok(()));

    let mixed: Vec<Result<(), String>> = vec![
        Ok(()),
        Err(String::from("lamp unreachable")),
        Err(String::from("strip unreachable")),
    ];
    assert_eq!(combine_results(mixed), Err(String::from("lamp unreachable")));
}
