use trowel::diff::{
    get_after_value, get_before_value, TrowelDiff, TrowelDiffEntry, TrowelDiffEntryBefore,
    TrowelDiffEntryBeforeAfter,
};
use trowel::error::TrowelError;
use trowel::json::JsonValue;
use trowel::plan::{
    SensitiveValues, TfPlan, TfPlanConfiguration, TfPlanPlannedValues,
    TfPlanPlannedValuesRootModule, TfPlanPriorState, TfPlanResourceChange,
    TfPlanResourceChangeChange,
};
use trowel::verb::Verb;

fn text(v: &str) -> JsonValue {
    JsonValue::Text(v.to_string())
}

fn empty_planned_values() -> TfPlanPlannedValues {
    TfPlanPlannedValues {
        root_module: TfPlanPlannedValuesRootModule {
            resources: Some(vec![]),
            child_modules: Some(vec![]),
        },
    }
}

fn plan_with(resource_changes: Option<Vec<TfPlanResourceChange>>) -> TfPlan {
    TfPlan {
        format_version: "".to_string(),
        terraform_version: "".to_string(),
        planned_values: empty_planned_values(),
        resource_changes,
        prior_state: Some(TfPlanPriorState {
            format_version: "".to_string(),
            terraform_version: "".to_string(),
            values: empty_planned_values(),
        }),
        configuration: TfPlanConfiguration {
            provider_config: Some(vec![]),
            root_module: JsonValue::Null,
        },
        relevant_attributes: Some(vec![]),
        checks: Some(vec![]),
        timestamp: "".to_string(),
        errored: false,
        resource_drift: None,
        applyable: None,
        complete: None,
    }
}

fn change_with(
    actions: Vec<&str>,
    before: Option<Vec<(String, JsonValue)>>,
    after: Option<Vec<(String, JsonValue)>>,
    after_unknown: Vec<(String, JsonValue)>,
    before_sensitive: SensitiveValues,
    after_sensitive: SensitiveValues,
) -> TfPlanResourceChangeChange {
    TfPlanResourceChangeChange {
        actions: actions.into_iter().map(|a| a.to_string()).collect(),
        before,
        after,
        after_unknown,
        before_sensitive,
        after_sensitive,
        importing: None,
        replace_paths: None,
    }
}

fn resource_change(address: &str, change: TfPlanResourceChangeChange) -> TfPlanResourceChange {
    TfPlanResourceChange {
        address: address.to_string(),
        mode: "orange".to_string(),
        resource_type: "banana".to_string(),
        name: "mango".to_string(),
        provider_name: "guava".to_string(),
        change,
        action_reason: None,
        module_address: None,
        index: None,
    }
}

#[test]
fn test_from_tf_plan_empty() {
    let plan = plan_with(Some(vec![]));
    let diff = TrowelDiff::from_tf_plan(&plan);
    assert_eq!(diff.unwrap().0.len(), 0)
}

#[test]
fn test_from_tf_plan_resource_change() {
    let plan = plan_with(Some(vec![
        resource_change(
            "apple",
            change_with(
                vec!["create"],
                None,
                None,
                vec![],
                SensitiveValues::new(None),
                SensitiveValues::new(None),
            ),
        ),
    ]));
    let diff = TrowelDiff::from_tf_plan(&plan).unwrap();
    assert_eq!(diff.0.len(), 1);
    assert_eq!(diff.0[0].verb, Verb::Create);
    assert_eq!(diff.0[0].resource_path, "apple");
    assert_eq!(diff.0[0].values.len(), 0);
}

#[test]
fn test_to_tree_items_empty() {
    let diff = TrowelDiff(vec![]);
    let tree_items = diff.to_tree_items();
    assert_eq!(tree_items.unwrap().len(), 0);
}

#[test]
fn test_to_tree_items_one_empty() {
    let diff = TrowelDiff(vec![TrowelDiffEntry {
        verb: Verb::Create,
        resource_path: "apple".to_string(),
        values: vec![],
    }]);
    let tree_items = diff.to_tree_items().unwrap();
    assert_eq!(tree_items.len(), 1);
    let item = &tree_items[0];
    assert_eq!(item.identifier(), "apple");
    assert_eq!(item.children().len(), 0);
}

#[test]
fn test_to_tree_items_one_empty_nonempty() {
    let diff = TrowelDiff(vec![TrowelDiffEntry {
        verb: Verb::Create,
        resource_path: "apple".to_string(),
        values: vec![
            (
                "c".to_string(),
                TrowelDiffEntryBeforeAfter {
                    before: TrowelDiffEntryBefore::Known(text("old")),
                    after: TrowelDiffEntryBefore::Known(text("new")),
                },
            ),
            (
                "b".to_string(),
                TrowelDiffEntryBeforeAfter {
                    before: TrowelDiffEntryBefore::Known(text("old")),
                    after: TrowelDiffEntryBefore::Known(text("old")),
                },
            ),
            (
                "d".to_string(),
                TrowelDiffEntryBeforeAfter {
                    before: TrowelDiffEntryBefore::Sensitive(text("old")),
                    after: TrowelDiffEntryBefore::Sensitive(text("old")),
                },
            ),
            (
                "e".to_string(),
                TrowelDiffEntryBeforeAfter {
                    before: TrowelDiffEntryBefore::Sensitive(text("old")),
                    after: TrowelDiffEntryBefore::Sensitive(text("new")),
                },
            ),
            (
                "a".to_string(),
                TrowelDiffEntryBeforeAfter {
                    before: TrowelDiffEntryBefore::Unknown,
                    after: TrowelDiffEntryBefore::Unknown,
                },
            ),
        ],
    }]);
    let tree_items = diff.to_tree_items().unwrap();
    assert_eq!(tree_items.len(), 1);
    let item = &tree_items[0];
    assert_eq!(item.identifier(), "apple");
    assert_eq!(item.children().len(), 4);

    // Resource attributes are alphabetized, with unchanged at the end
    let value_identifiers: Vec<_> = item.children().iter().map(|i| i.identifier()).collect();
    assert_eq!(
        value_identifiers,
        vec!["apple a", "apple c", "apple e", "apple unchanged"]
    );
}

#[test]
fn test_to_tree_items_multiple_empty() {
    let diff = TrowelDiff(vec![
        TrowelDiffEntry {
            verb: Verb::Create,
            resource_path: "orange".to_string(),
            values: vec![],
        },
        TrowelDiffEntry {
            verb: Verb::Update,
            resource_path: "banana".to_string(),
            values: vec![],
        },
        TrowelDiffEntry {
            verb: Verb::Destroy,
            resource_path: "apple".to_string(),
            values: vec![],
        },
    ]);
    let tree_items = diff.to_tree_items().unwrap();
    assert_eq!(tree_items.len(), 3);
    let identifiers: Vec<_> = tree_items.iter().map(|i| i.identifier()).collect();
    assert_eq!(identifiers, vec!["orange", "banana", "apple"]) // Does not alphabetize resources
}

fn entry(verb: Verb, path: &str) -> TrowelDiffEntry {
    TrowelDiffEntry {
        verb,
        resource_path: path.to_string(),
        values: vec![],
    }
}

#[test]
fn test_verb_uses_empty() {
    let diff = TrowelDiff(vec![]);
    let uses = diff.verb_uses();
    assert_eq!(uses.len(), 0);
}

#[test]
fn test_verb_uses_one() {
    let diff = TrowelDiff(vec![entry(Verb::Create, "foo")]);
    let uses = diff.verb_uses();
    assert_eq!(uses, vec![(Verb::Create, 1)])
}

#[test]
fn test_verb_uses_multiple() {
    let diff = TrowelDiff(vec![
        entry(Verb::Create, "foo"),
        entry(Verb::Update, "bar"),
        entry(Verb::Create, "baz"),
    ]);
    let uses = diff.verb_uses();
    assert_eq!(uses, vec![(Verb::Create, 2), (Verb::Update, 1)])
}

#[test]
fn test_verb_uses_fmt_empty() {
    let diff = TrowelDiff(vec![]);
    let uses = diff.verb_uses_fmt();
    assert_eq!(uses, Vec::<String>::new());
}

#[test]
fn test_verb_uses_fmt_one() {
    let diff = TrowelDiff(vec![entry(Verb::Create, "foo")]);
    let uses = diff.verb_uses_fmt();
    assert_eq!(uses, vec![" ", "create 1", " "]);
}

#[test]
fn test_verb_uses_fmt_multiple() {
    let diff = TrowelDiff(vec![
        entry(Verb::Destroy, "apple"),
        entry(Verb::Update, "banana"),
        entry(Verb::Create, "orange"),
        entry(Verb::Destroy, "mango"),
    ]);
    let uses = diff.verb_uses_fmt();
    // Entries are ordered by the fixed rank of each Verb
    assert_eq!(
        uses,
        vec![" ", "create 1", " | ", "destroy 2", " | ", "update 1", " "]
    );
}

#[test]
fn test_get_before_value() {
    let change = change_with(
        vec![],
        Some(vec![
            ("banana".to_string(), text("mango")),
            ("apple".to_string(), text("orange")),
            ("pineapple".to_string(), text("papaya")),
        ]),
        None,
        vec![],
        SensitiveValues::new(Some(vec![("pineapple".to_string(), JsonValue::Bool(true))])),
        SensitiveValues::new(None),
    );

    match get_before_value(&"apple".to_string(), &change).unwrap() {
        TrowelDiffEntryBefore::Known(v) => assert!(v.deep_eq(&text("orange"))),
        _ => panic!("apple should be a known value"),
    }
    match get_before_value(&"pineapple".to_string(), &change).unwrap() {
        TrowelDiffEntryBefore::Sensitive(v) => assert!(v.deep_eq(&text("papaya"))),
        _ => panic!("pineapple should be a sensitive value"),
    }
    assert!(matches!(
        get_before_value(&"guava".to_string(), &change).unwrap(),
        TrowelDiffEntryBefore::Absent
    ));
}

#[test]
fn test_get_before_value_err() {
    let change = change_with(
        vec![],
        Some(vec![]),
        None,
        vec![],
        SensitiveValues::new(Some(vec![("apple".to_string(), text("banana"))])),
        SensitiveValues::new(None),
    );

    // present in before_sensitive but missing in before
    assert!(get_before_value(&"apple".to_string(), &change).is_err());
}

#[test]
fn test_get_after_value() {
    let change = change_with(
        vec![],
        None,
        Some(vec![
            ("banana".to_string(), text("mango")),
            ("apple".to_string(), text("orange")),
            ("pineapple".to_string(), text("papaya")),
        ]),
        vec![("dragonfruit".to_string(), text("pear"))],
        SensitiveValues::new(None),
        SensitiveValues::new(Some(vec![("pineapple".to_string(), JsonValue::Bool(true))])),
    );

    match get_after_value(&"apple".to_string(), &change).unwrap() {
        TrowelDiffEntryBefore::Known(v) => assert!(v.deep_eq(&text("orange"))),
        _ => panic!("apple should be a known value"),
    }
    match get_after_value(&"pineapple".to_string(), &change).unwrap() {
        TrowelDiffEntryBefore::Sensitive(v) => assert!(v.deep_eq(&text("papaya"))),
        _ => panic!("pineapple should be a sensitive value"),
    }
    assert!(matches!(
        get_after_value(&"guava".to_string(), &change).unwrap(),
        TrowelDiffEntryBefore::Absent
    ));
    assert!(matches!(
        get_after_value(&"dragonfruit".to_string(), &change).unwrap(),
        TrowelDiffEntryBefore::Unknown
    ));
}

#[test]
fn test_get_after_value_err() {
    let change = change_with(
        vec![],
        None,
        Some(vec![]),
        vec![],
        SensitiveValues::new(None),
        SensitiveValues::new(Some(vec![("apple".to_string(), text("banana"))])),
    );

    // present in after_sensitive but missing in after
    assert!(get_after_value(&"apple".to_string(), &change).is_err());
}

#[test]
fn test_sensitive_error_names_attribute() {
    let change = change_with(
        vec![],
        Some(vec![]),
        None,
        vec![],
        SensitiveValues::new(Some(vec![("apple".to_string(), text("banana"))])),
        SensitiveValues::new(None),
    );
    match get_before_value(&"apple".to_string(), &change).unwrap_err() {
        TrowelError::SensitiveValueMissingFromRecord { attribute, after } => {
            assert_eq!(attribute, "apple");
            assert!(!after);
        }
        other => panic!("unexpected error: {:?}", other),
    }
}

#[test]
fn test_unknown_only_attribute_resolution() {
    // An attribute present only in after_unknown: before is absent, after
    // is unknown, and the pair counts as changed.
    let change = change_with(
        vec![],
        None,
        None,
        vec![("addr".to_string(), JsonValue::Bool(true))],
        SensitiveValues::new(None),
        SensitiveValues::new(None),
    );
    let before = get_before_value(&"addr".to_string(), &change).unwrap();
    let after = get_after_value(&"addr".to_string(), &change).unwrap();
    assert!(matches!(before, TrowelDiffEntryBefore::Absent));
    assert!(matches!(after, TrowelDiffEntryBefore::Unknown));
    let pair = TrowelDiffEntryBeforeAfter { before, after };
    assert!(pair.changed());
}

#[test]
fn test_sensitive_wins_over_known() {
    // Present in both before and before_sensitive with equal values:
    // resolves to Sensitive, never Known.
    let change = change_with(
        vec![],
        Some(vec![("token".to_string(), text("hunter2"))]),
        None,
        vec![],
        SensitiveValues::new(Some(vec![("token".to_string(), JsonValue::Bool(true))])),
        SensitiveValues::new(None),
    );
    match get_before_value(&"token".to_string(), &change).unwrap() {
        TrowelDiffEntryBefore::Sensitive(v) => assert!(v.deep_eq(&text("hunter2"))),
        other => panic!("expected a sensitive value, got {:?}", value_kind(&other)),
    }
}

fn value_kind(v: &TrowelDiffEntryBefore) -> &'static str {
    match v {
        TrowelDiffEntryBefore::Known(_) => "known",
        TrowelDiffEntryBefore::Sensitive(_) => "sensitive",
        TrowelDiffEntryBefore::Unknown => "unknown",
        TrowelDiffEntryBefore::Absent => "absent",
    }
}

#[test]
fn test_attribute_union_deduplicated() {
    // An attribute present in three of the five maps appears exactly once.
    let change = change_with(
        vec![],
        Some(vec![("k".to_string(), text("a")), ("z".to_string(), text("b"))]),
        Some(vec![("k".to_string(), text("c"))]),
        vec![("k".to_string(), JsonValue::Bool(true))],
        SensitiveValues::new(None),
        SensitiveValues::new(None),
    );
    let names = trowel::diff::all_resource_names(&change).unwrap();
    assert_eq!(names, vec!["k".to_string(), "z".to_string()]);
}

#[test]
fn test_end_to_end_create() {
    // One resource change with actions=["create"], before=None,
    // after={"name": "web-1"}.
    let plan = plan_with(Some(vec![
        resource_change(
            "aws_instance.web",
            change_with(
                vec!["create"],
                None,
                Some(vec![("name".to_string(), text("web-1"))]),
                vec![],
                SensitiveValues::new(None),
                SensitiveValues::new(None),
            ),
        ),
    ]));
    let diff = TrowelDiff::from_tf_plan(&plan).unwrap();
    assert_eq!(diff.0.len(), 1);
    let e = &diff.0[0];
    assert_eq!(e.verb, Verb::Create);
    assert_eq!(e.resource_path, "aws_instance.web");
    assert_eq!(e.values.len(), 1);
    assert_eq!(e.values[0].0, "name");
    assert!(matches!(e.values[0].1.before, TrowelDiffEntryBefore::Absent));
    match &e.values[0].1.after {
        TrowelDiffEntryBefore::Known(v) => assert!(v.deep_eq(&text("web-1"))),
        _ => panic!("after should be known"),
    }
    assert!(e.values[0].1.changed());
}

#[test]
fn test_end_to_end_noop_excluded() {
    // A no-op change and a delete: the diff holds only the delete.
    let plan = plan_with(Some(vec![
        resource_change(
            "noop_resource",
            change_with(
                vec!["no-op"],
                None,
                None,
                vec![],
                SensitiveValues::new(None),
                SensitiveValues::new(None),
            ),
        ),
        resource_change(
            "doomed_resource",
            change_with(
                vec!["delete"],
                None,
                None,
                vec![],
                SensitiveValues::new(None),
                SensitiveValues::new(None),
            ),
        ),
    ]));
    let diff = TrowelDiff::from_tf_plan(&plan).unwrap();
    assert_eq!(diff.0.len(), 1);
    assert_eq!(diff.0[0].verb, Verb::Destroy);
    assert_eq!(diff.0[0].resource_path, "doomed_resource");
}

#[test]
fn test_histogram_scenario() {
    // 2 creates, 1 destroy, 1 update, plus a no-op in the source: the
    // histogram has no row for the ignored change.
    let mk = |addr: &str, action: &str| {
        resource_change(
            addr,
            change_with(
                vec![action],
                None,
                None,
                vec![],
                SensitiveValues::new(None),
                SensitiveValues::new(None),
            ),
        )
    };
    let plan = plan_with(Some(vec![
        mk("a", "create"),
        mk("b", "delete"),
        mk("c", "update"),
        mk("d", "create"),
        mk("e", "no-op"),
    ]));
    let diff = TrowelDiff::from_tf_plan(&plan).unwrap();
    let uses = diff.verb_uses();
    assert_eq!(
        uses,
        vec![(Verb::Create, 2), (Verb::Destroy, 1), (Verb::Update, 1)]
    );
}

#[test]
fn test_diff_construction_idempotent() {
    let plan = plan_with(Some(vec![
        resource_change(
            "aws_instance.web",
            change_with(
                vec!["update"],
                Some(vec![("name".to_string(), text("old"))]),
                Some(vec![("name".to_string(), text("new"))]),
                vec![],
                SensitiveValues::new(None),
                SensitiveValues::new(None),
            ),
        ),
    ]));
    let d1 = TrowelDiff::from_tf_plan(&plan).unwrap();
    let d2 = TrowelDiff::from_tf_plan(&plan).unwrap();
    assert_eq!(d1.0.len(), d2.0.len());
    for (e1, e2) in d1.0.iter().zip(d2.0.iter()) {
        assert_eq!(e1.verb, e2.verb);
        assert_eq!(e1.resource_path, e2.resource_path);
        assert_eq!(e1.values.len(), e2.values.len());
        for (v1, v2) in e1.values.iter().zip(e2.values.iter()) {
            assert_eq!(v1.0, v2.0);
            assert_eq!(v1.1.fmt(), v2.1.fmt());
        }
    }
    let t1: Vec<String> = d1
        .to_tree_items()
        .unwrap()
        .iter()
        .map(|i| i.identifier().clone())
        .collect();
    let t2: Vec<String> = d2
        .to_tree_items()
        .unwrap()
        .iter()
        .map(|i| i.identifier().clone())
        .collect();
    assert_eq!(t1, t2);
}

#[test]
fn test_unrecognized_action_set_aborts_diff() {
    let plan = plan_with(Some(vec![
        resource_change(
            "first",
            change_with(
                vec!["create"],
                None,
                None,
                vec![],
                SensitiveValues::new(None),
                SensitiveValues::new(None),
            ),
        ),
        resource_change(
            "broken",
            change_with(
                vec!["create", "update"],
                None,
                None,
                vec![],
                SensitiveValues::new(None),
                SensitiveValues::new(None),
            ),
        ),
    ]));
    match TrowelDiff::from_tf_plan(&plan).unwrap_err() {
        TrowelError::UnrecognizedActionSet { actions } => {
            assert_eq!(actions, vec!["create".to_string(), "update".to_string()]);
        }
        other => panic!("unexpected error: {:?}", other),
    }
}

#[test]
fn test_sensitive_missing_aborts_diff() {
    let plan = plan_with(Some(vec![
        resource_change(
            "broken",
            change_with(
                vec!["update"],
                Some(vec![]),
                None,
                vec![],
                SensitiveValues::new(Some(vec![("secret".to_string(), JsonValue::Bool(true))])),
                SensitiveValues::new(None),
            ),
        ),
    ]));
    assert!(matches!(
        TrowelDiff::from_tf_plan(&plan).unwrap_err(),
        TrowelError::SensitiveValueMissingFromRecord { .. }
    ));
}

#[test]
fn test_plaintext_placeholders() {
    let sensitive = TrowelDiffEntryBefore::Sensitive(text("secret"));
    let unknown = TrowelDiffEntryBefore::Unknown;
    let absent = TrowelDiffEntryBefore::Absent;
    let known = TrowelDiffEntryBefore::Known(text("web-1"));
    assert_eq!(
        TrowelDiffEntryBeforeAfter::plaintext(&sensitive),
        "(sensitive value)"
    );
    assert_eq!(
        TrowelDiffEntryBeforeAfter::plaintext(&unknown),
        "(unknown value)"
    );
    assert_eq!(
        TrowelDiffEntryBeforeAfter::plaintext(&absent),
        "(absent value)"
    );
    assert_eq!(TrowelDiffEntryBeforeAfter::plaintext(&known), "\"web-1\"");
}

#[test]
fn test_fmt_segments() {
    let pair = TrowelDiffEntryBeforeAfter {
        before: TrowelDiffEntryBefore::Absent,
        after: TrowelDiffEntryBefore::Known(text("web-1")),
    };
    assert_eq!(pair.fmt(), vec!["(absent value)", " -> ", "\"web-1\""]);
}

#[test]
fn test_values_sorted_orders_keys() {
    let e = TrowelDiffEntry {
        verb: Verb::Update,
        resource_path: "r".to_string(),
        values: vec![
            (
                "b".to_string(),
                TrowelDiffEntryBeforeAfter {
                    before: TrowelDiffEntryBefore::Absent,
                    after: TrowelDiffEntryBefore::Unknown,
                },
            ),
            (
                "a".to_string(),
                TrowelDiffEntryBeforeAfter {
                    before: TrowelDiffEntryBefore::Absent,
                    after: TrowelDiffEntryBefore::Unknown,
                },
            ),
        ],
    };
    let sorted = e.values_sorted();
    let keys: Vec<&String> = sorted.iter().map(|p| &p.0).collect();
    assert_eq!(keys, vec!["a", "b"]);
}
