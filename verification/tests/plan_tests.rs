use trowel::diff::TrowelDiff;
use trowel::error::TrowelError;
use trowel::json::JsonValue;
use trowel::plan::{SensitiveValues, TfPlan, TfPlanPlannedValuesChildModule, TfPlanResourceChangeChange};
use trowel::verb::Verb;

fn text(v: &str) -> JsonValue {
    JsonValue::Text(v.to_string())
}

fn obj(fields: Vec<(&str, JsonValue)>) -> JsonValue {
    JsonValue::Object(fields.into_iter().map(|(k, v)| (k.to_string(), v)).collect())
}

fn minimal_plan_fields() -> Vec<(&'static str, JsonValue)> {
    vec![
        ("format_version", text("1.2")),
        ("terraform_version", text("1.6.0")),
        ("planned_values", obj(vec![("root_module", obj(vec![]))])),
        ("configuration", obj(vec![("root_module", JsonValue::Null)])),
        ("timestamp", text("2024-01-01T00:00:00Z")),
        ("errored", JsonValue::Bool(false)),
    ]
}

#[test]
fn test_parse_minimal_plan() {
    let plan = TfPlan::from_json(&obj(minimal_plan_fields())).unwrap();
    assert_eq!(plan.format_version, "1.2");
    assert_eq!(plan.terraform_version, "1.6.0");
    assert_eq!(plan.timestamp, "2024-01-01T00:00:00Z");
    assert!(!plan.errored);
    assert!(plan.resource_changes.is_none());
    assert!(plan.prior_state.is_none());
    assert!(plan.applyable.is_none());
}

#[test]
fn test_parse_rejects_unknown_field() {
    let mut fields = minimal_plan_fields();
    fields.push(("surprise", text("x")));
    match TfPlan::from_json(&obj(fields)).unwrap_err() {
        TrowelError::MalformedPlan { .. } => {}
        other => panic!("unexpected error: {:?}", other),
    }
}

#[test]
fn test_parse_rejects_missing_required_field() {
    let fields: Vec<(&str, JsonValue)> = minimal_plan_fields()
        .into_iter()
        .filter(|(k, _)| *k != "errored")
        .collect();
    assert!(TfPlan::from_json(&obj(fields)).is_err());
}

#[test]
fn test_parse_rejects_mistyped_field() {
    let fields: Vec<(&str, JsonValue)> = minimal_plan_fields()
        .into_iter()
        .map(|(k, v)| if k == "errored" { (k, text("no")) } else { (k, v) })
        .collect();
    assert!(TfPlan::from_json(&obj(fields)).is_err());
}

#[test]
fn test_parse_rejects_non_object() {
    assert!(TfPlan::from_json(&text("nope")).is_err());
}

fn rc_json(address: &str, action: &str) -> JsonValue {
    obj(vec![
        ("address", text(address)),
        ("mode", text("managed")),
        ("type", text("aws_instance")),
        ("name", text("web")),
        ("provider_name", text("registry/aws")),
        (
            "change",
            obj(vec![
                ("actions", JsonValue::Array(vec![text(action)])),
                ("before", JsonValue::Null),
                ("after", obj(vec![("name", text("web-1"))])),
                ("after_unknown", obj(vec![])),
                ("before_sensitive", JsonValue::Bool(false)),
                ("after_sensitive", JsonValue::Bool(false)),
            ]),
        ),
    ])
}

#[test]
fn test_parse_resource_changes() {
    let mut fields = minimal_plan_fields();
    fields.push((
        "resource_changes",
        JsonValue::Array(vec![rc_json("aws_instance.web", "create")]),
    ));
    let plan = TfPlan::from_json(&obj(fields)).unwrap();
    let rcs = plan.resource_changes.as_ref().unwrap();
    assert_eq!(rcs.len(), 1);
    assert_eq!(rcs[0].address, "aws_instance.web");
    assert_eq!(rcs[0].resource_type, "aws_instance");
    assert_eq!(rcs[0].change.actions, vec!["create".to_string()]);
    assert!(rcs[0].change.before.is_none());
    assert!(rcs[0].change.after.is_some());
}

#[test]
fn test_parse_then_diff_end_to_end() {
    let mut fields = minimal_plan_fields();
    fields.push((
        "resource_changes",
        JsonValue::Array(vec![rc_json("aws_instance.web", "create")]),
    ));
    let plan = TfPlan::from_json(&obj(fields)).unwrap();
    let diff = TrowelDiff::from_tf_plan(&plan).unwrap();
    assert_eq!(diff.0.len(), 1);
    assert_eq!(diff.0[0].verb, Verb::Create);
    assert_eq!(diff.0[0].values.len(), 1);
    assert_eq!(diff.0[0].values[0].0, "name");
}

#[test]
fn test_sensitive_values_decoding() {
    // false means "no sensitive attributes".
    let none = SensitiveValues::from_json(&JsonValue::Bool(false), "before_sensitive").unwrap();
    assert!(none.inner().is_none());

    // A map carries the markers.
    let marks =
        SensitiveValues::from_json(&obj(vec![("token", JsonValue::Bool(true))]), "before_sensitive")
            .unwrap();
    assert_eq!(marks.inner().as_ref().unwrap().len(), 1);
    assert_eq!(marks.inner().as_ref().unwrap()[0].0, "token");

    // A true boolean is malformed, as is any other shape.
    assert!(SensitiveValues::from_json(&JsonValue::Bool(true), "before_sensitive").is_err());
    assert!(SensitiveValues::from_json(&text("x"), "before_sensitive").is_err());
}

#[test]
fn test_parse_change_rejects_bad_sensitive() {
    let change = obj(vec![
        ("actions", JsonValue::Array(vec![text("create")])),
        ("before", JsonValue::Null),
        ("after", JsonValue::Null),
        ("after_unknown", obj(vec![])),
        ("before_sensitive", JsonValue::Bool(true)),
        ("after_sensitive", JsonValue::Bool(false)),
    ]);
    assert!(TfPlanResourceChangeChange::from_json(&change).is_err());
}

#[test]
fn test_parse_child_modules_nested() {
    let module = obj(vec![
        ("address", text("module.outer")),
        (
            "child_modules",
            JsonValue::Array(vec![obj(vec![("address", text("module.outer.module.inner"))])]),
        ),
    ]);
    let parsed = TfPlanPlannedValuesChildModule::from_json(&module).unwrap();
    assert_eq!(parsed.address, "module.outer");
    let inner = parsed.child_modules.as_ref().unwrap();
    assert_eq!(inner.len(), 1);
    assert_eq!(inner[0].address, "module.outer.module.inner");
    assert!(inner[0].child_modules.is_none());
}

#[test]
fn test_parse_module_resource_schema_version() {
    let resource = |version: JsonValue| {
        obj(vec![
            ("address", text("aws_instance.web")),
            ("mode", text("managed")),
            ("type", text("aws_instance")),
            ("name", text("web")),
            ("provider_name", text("registry/aws")),
            ("schema_version", version),
            ("values", obj(vec![])),
            ("sensitive_values", obj(vec![])),
        ])
    };
    let ok = trowel::plan::TfPlanPlannedValuesModuleResource::from_json(&resource(
        JsonValue::Number("1".to_string()),
    ))
    .unwrap();
    assert_eq!(ok.schema_version, 1);
    assert!(trowel::plan::TfPlanPlannedValuesModuleResource::from_json(&resource(
        JsonValue::Number("007".to_string()),
    ))
    .is_err());
    assert!(trowel::plan::TfPlanPlannedValuesModuleResource::from_json(&resource(
        JsonValue::Number("256".to_string()),
    ))
    .is_err());
    assert!(trowel::plan::TfPlanPlannedValuesModuleResource::from_json(&resource(text("1")))
        .is_err());
}

#[test]
fn test_parse_change_replace_paths_and_importing() {
    let change = obj(vec![
        ("actions", JsonValue::Array(vec![text("create"), text("delete")])),
        ("before", JsonValue::Null),
        ("after", JsonValue::Null),
        ("after_unknown", obj(vec![])),
        ("before_sensitive", JsonValue::Bool(false)),
        ("after_sensitive", JsonValue::Bool(false)),
        (
            "replace_paths",
            JsonValue::Array(vec![JsonValue::Array(vec![text("ami")])]),
        ),
        ("importing", obj(vec![("id", text("i-123"))])),
    ]);
    let parsed = TfPlanResourceChangeChange::from_json(&change).unwrap();
    let paths = parsed.replace_paths.as_ref().unwrap();
    assert_eq!(paths.len(), 1);
    assert_eq!(paths[0], vec!["ami".to_string()]);
    assert!(parsed.importing.is_some());

    // A non-string path element is malformed.
    let bad = obj(vec![
        ("actions", JsonValue::Array(vec![text("create")])),
        ("after_unknown", obj(vec![])),
        ("before_sensitive", JsonValue::Bool(false)),
        ("after_sensitive", JsonValue::Bool(false)),
        (
            "replace_paths",
            JsonValue::Array(vec![JsonValue::Array(vec![JsonValue::Bool(true)])]),
        ),
    ]);
    assert!(TfPlanResourceChangeChange::from_json(&bad).is_err());
}

#[test]
fn test_parse_configuration_provider_config() {
    let config = obj(vec![
        (
            "provider_config",
            obj(vec![(
                "aws",
                obj(vec![
                    ("name", text("aws")),
                    ("full_name", text("registry.example/aws")),
                    ("version_constraint", text("~> 5.0")),
                ]),
            )]),
        ),
        ("root_module", obj(vec![])),
    ]);
    let parsed = trowel::plan::TfPlanConfiguration::from_json(&config).unwrap();
    let pcs = parsed.provider_config.as_ref().unwrap();
    assert_eq!(pcs.len(), 1);
    assert_eq!(pcs[0].0, "aws");
    assert_eq!(pcs[0].1.name, "aws");
    assert_eq!(
        pcs[0].1.version_constraint.as_deref(),
        Some("~> 5.0")
    );
}

#[test]
fn test_parse_checks() {
    let check = obj(vec![
        (
            "address",
            obj(vec![
                ("kind", text("check")),
                ("module", text("root")),
                ("name", text("health")),
                ("to_display", text("check.health")),
            ]),
        ),
        ("status", text("pass")),
        (
            "instances",
            JsonValue::Array(vec![obj(vec![
                (
                    "address",
                    obj(vec![("module", text("root")), ("to_display", text("check.health"))]),
                ),
                ("status", text("pass")),
            ])]),
        ),
    ]);
    let parsed = trowel::plan::TfPlanCheck::from_json(&check).unwrap();
    assert_eq!(parsed.status, "pass");
    assert_eq!(parsed.address.name, "health");
    assert_eq!(parsed.instances.len(), 1);
    assert_eq!(parsed.instances[0].address.to_display, "check.health");
}

#[test]
fn test_end_to_end_sensitive_and_unknown() {
    let change = obj(vec![
        ("actions", JsonValue::Array(vec![text("update")])),
        (
            "before",
            obj(vec![("password", text("hunter2")), ("name", text("db-1"))]),
        ),
        ("after", obj(vec![("name", text("db-1"))])),
        ("after_unknown", obj(vec![("endpoint", JsonValue::Bool(true))])),
        (
            "before_sensitive",
            obj(vec![("password", JsonValue::Bool(true))]),
        ),
        ("after_sensitive", JsonValue::Bool(false)),
    ]);
    let rc = obj(vec![
        ("address", text("aws_db_instance.main")),
        ("mode", text("managed")),
        ("type", text("aws_db_instance")),
        ("name", text("main")),
        ("provider_name", text("registry/aws")),
        ("change", change),
    ]);
    let mut fields = minimal_plan_fields();
    fields.push(("resource_changes", JsonValue::Array(vec![rc])));
    let plan = TfPlan::from_json(&obj(fields)).unwrap();
    let diff = TrowelDiff::from_tf_plan(&plan).unwrap();
    assert_eq!(diff.0.len(), 1);
    let e = &diff.0[0];
    // The attribute universe is the sorted union of all five maps.
    let keys: Vec<&String> = e.values.iter().map(|p| &p.0).collect();
    assert_eq!(keys, vec!["endpoint", "name", "password"]);
    let items = diff.to_tree_items().unwrap();
    let ids: Vec<&String> = items[0].children.iter().map(|c| c.identifier()).collect();
    // Only the changed attributes get their own line; "name" is unchanged.
    assert_eq!(
        ids,
        vec![
            "aws_db_instance.main endpoint",
            "aws_db_instance.main password",
            "aws_db_instance.main unchanged"
        ]
    );
}

#[test]
fn test_malformed_plan_message() {
    let err = TfPlan::from_json(&text("nope")).unwrap_err();
    assert_eq!(err.message(), "Malformed plan: unexpected or invalid field plan");
}
