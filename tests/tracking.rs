use customer_tracker::tracking::{blank_to_none, CustomerGroup, NextAction, NextActionsResponse, TrackListQuery};

#[test]
fn action_labels_round_trip() {
    assert_eq!(NextAction::Continue.as_str(), "继续跟进");
    assert_eq!(NextAction::End.as_str(), "结束跟进");
    assert_eq!(NextAction::from_str("继续跟进"), Some(NextAction::Continue));
    assert_eq!(NextAction::from_str("结束跟进"), Some(NextAction::End));
    assert_eq!(NextAction::from_str("Continue"), None);
    assert_eq!(NextAction::from_str(""), None);
    assert_eq!(NextAction::variants(), vec!["继续跟进", "结束跟进"]);
    assert_eq!(NextAction::default_action(), NextAction::Continue);
}

#[test]
fn next_actions_lists_all_labels() {
    assert_eq!(NextActionsResponse::all().actions, vec!["继续跟进".to_string(), "结束跟进".to_string()]);
}

#[test]
fn group_labels_and_names() {
    assert_eq!(CustomerGroup::Personal.label(), "私教");
    assert_eq!(CustomerGroup::parse("小班"), Some(CustomerGroup::SmallClass));
    assert_eq!(CustomerGroup::parse("Training"), Some(CustomerGroup::Training));
    assert_eq!(CustomerGroup::parse("团课"), Some(CustomerGroup::GroupClass));
    assert_eq!(CustomerGroup::parse("training"), None);
    assert_eq!(CustomerGroup::default_group(), CustomerGroup::GroupClass);
    for g in [CustomerGroup::GroupClass, CustomerGroup::SmallClass, CustomerGroup::Personal, CustomerGroup::Training] {
        assert_eq!(CustomerGroup::parse(g.label()), Some(g));
    }
}

#[test]
fn track_query_defaults() {
    let q = TrackListQuery::for_customer(9);
    assert_eq!(q, TrackListQuery { customer_id: 9, page: 1, limit: 20 });
}

#[test]
fn current_action_and_filter() {
    assert_eq!(NextAction::current(None), NextAction::Continue);
    assert_eq!(NextAction::current(Some(NextAction::End)), NextAction::End);
    assert!(NextAction::End.passes(None));
    assert!(NextAction::End.passes(Some(NextAction::End)));
    assert!(!NextAction::End.passes(Some(NextAction::Continue)));
    assert!(!NextAction::Continue.passes(Some(NextAction::End)));
    assert_eq!(blank_to_none(String::new()), None);
    assert_eq!(blank_to_none("138".to_string()), Some("138".to_string()));
}
