use trowel::error::TrowelError;
use trowel::plan::{SensitiveValues, TfPlanResourceChange, TfPlanResourceChangeChange};
use trowel::verb::{verb_to_past_tense, Verb};

#[test]
fn test_from_resource_ignore() {
    let mut actions = TfPlanResourceChange {
        address: "".to_string(),
        mode: "".to_string(),
        resource_type: "".to_string(),
        name: "".to_string(),
        provider_name: "".to_string(),
        change: TfPlanResourceChangeChange {
            actions: vec![],
            before: None,
            after: None,
            after_unknown: vec![],
            before_sensitive: SensitiveValues::new(None),
            after_sensitive: SensitiveValues::new(None),
            replace_paths: None,
            importing: None,
        },
        action_reason: None,
        module_address: None,
        index: None,
    };

    assert!(Verb::from_resource(&actions).is_err());
    actions.change.actions = vec!["foo".to_string()];
    assert!(Verb::from_resource(&actions).is_err());
    actions.change.actions = vec!["create".to_string(), "foo".to_string()];
    assert!(Verb::from_resource(&actions).is_err());

    actions.change.actions = vec!["no-op".to_string()];
    assert_eq!(Verb::from_resource(&actions).unwrap(), Verb::Ignore);

    actions.change.actions = vec!["create".to_string()];
    assert_eq!(Verb::from_resource(&actions).unwrap(), Verb::Create);

    actions.change.actions = vec!["update".to_string()];
    assert_eq!(Verb::from_resource(&actions).unwrap(), Verb::Update);

    actions.change.actions = vec!["delete".to_string()];
    assert_eq!(Verb::from_resource(&actions).unwrap(), Verb::Destroy);

    actions.change.actions = vec!["create".to_string(), "delete".to_string()];
    assert_eq!(Verb::from_resource(&actions).unwrap(), Verb::Replace);
    actions.change.actions = vec!["delete".to_string(), "create".to_string()];
    assert_eq!(Verb::from_resource(&actions).unwrap(), Verb::Replace);

    actions.change.actions = vec!["read".to_string()];
    assert_eq!(Verb::from_resource(&actions).unwrap(), Verb::Read);
}

fn actions(tokens: Vec<&str>) -> Vec<String> {
    tokens.into_iter().map(|t| t.to_string()).collect()
}

#[test]
fn test_from_actions_table() {
    assert_eq!(Verb::from_actions(&actions(vec!["no-op"])).unwrap(), Verb::Ignore);
    assert_eq!(Verb::from_actions(&actions(vec!["create"])).unwrap(), Verb::Create);
    assert_eq!(Verb::from_actions(&actions(vec!["update"])).unwrap(), Verb::Update);
    assert_eq!(Verb::from_actions(&actions(vec!["delete"])).unwrap(), Verb::Destroy);
    assert_eq!(
        Verb::from_actions(&actions(vec!["create", "delete"])).unwrap(),
        Verb::Replace
    );
    assert_eq!(Verb::from_actions(&actions(vec!["read"])).unwrap(), Verb::Read);
}

#[test]
fn test_from_actions_order_independent() {
    assert_eq!(
        Verb::from_actions(&actions(vec!["delete", "create"])).unwrap(),
        Verb::Replace
    );
    assert_eq!(
        Verb::from_actions(&actions(vec!["create", "delete"])).unwrap(),
        Verb::Replace
    );
    // Duplicates do not matter either.
    assert_eq!(
        Verb::from_actions(&actions(vec!["no-op", "no-op"])).unwrap(),
        Verb::Ignore
    );
}

#[test]
fn test_from_actions_unrecognized() {
    assert!(Verb::from_actions(&actions(vec!["create", "foo"])).is_err());
    assert!(Verb::from_actions(&actions(vec![])).is_err());
    match Verb::from_actions(&actions(vec!["update", "create"])).unwrap_err() {
        TrowelError::UnrecognizedActionSet { actions } => {
            // The error carries the offending set, sorted and deduplicated.
            assert_eq!(actions, vec!["create".to_string(), "update".to_string()]);
        }
        other => panic!("unexpected error: {:?}", other),
    }
}

#[test]
fn test_unrecognized_error_message() {
    let err = Verb::from_actions(&actions(vec!["foo", "create"])).unwrap_err();
    assert_eq!(
        err.message(),
        "Verb not found for actions: [\"create\", \"foo\"]"
    );
}

#[test]
fn test_verb_names() {
    assert_eq!(Verb::Create.name(), "Create");
    assert_eq!(Verb::Update.name(), "Update");
    assert_eq!(Verb::Replace.name(), "Replace");
    assert_eq!(Verb::Destroy.name(), "Destroy");
    assert_eq!(Verb::Read.name(), "Read");
    assert_eq!(Verb::Ignore.name(), "Ignore");
    assert_eq!(Verb::Create.name_lower(), "create");
    assert_eq!(Verb::Ignore.name_lower(), "ignore");
}

#[test]
fn test_verb_past_tense() {
    assert_eq!(Verb::Create.to_past_tense(), "created");
    assert_eq!(Verb::Update.to_past_tense(), "updated");
    assert_eq!(Verb::Replace.to_past_tense(), "replaced");
    assert_eq!(Verb::Destroy.to_past_tense(), "destroyed");
    assert_eq!(Verb::Read.to_past_tense(), "read");
    assert_eq!(Verb::Ignore.to_past_tense(), "ignored");
    assert_eq!(verb_to_past_tense(&Verb::Create), "created");
}

#[test]
fn test_verb_ranks() {
    assert_eq!(Verb::Create.rank(), 0);
    assert_eq!(Verb::Destroy.rank(), 1);
    assert_eq!(Verb::Replace.rank(), 2);
    assert_eq!(Verb::Update.rank(), 3);
    assert_eq!(Verb::Read.rank(), 4);
    assert_eq!(Verb::Ignore.rank(), 99);
}
