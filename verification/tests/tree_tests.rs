use trowel::diff::{TrowelDiff, TrowelDiffEntry, TrowelDiffEntryBefore, TrowelDiffEntryBeforeAfter};
use trowel::json::JsonValue;
use trowel::tree::LabelStyle;
use trowel::verb::Verb;

fn text(v: &str) -> JsonValue {
    JsonValue::Text(v.to_string())
}

#[test]
fn test_tree_item_labels() {
    let diff = TrowelDiff(vec![TrowelDiffEntry {
        verb: Verb::Create,
        resource_path: "aws_instance.web".to_string(),
        values: vec![(
            "name".to_string(),
            TrowelDiffEntryBeforeAfter {
                before: TrowelDiffEntryBefore::Absent,
                after: TrowelDiffEntryBefore::Known(text("web-1")),
            },
        )],
    }]);
    let items = diff.to_tree_items().unwrap();
    assert_eq!(items.len(), 1);
    let item = &items[0];
    assert_eq!(item.label.len(), 2);
    assert_eq!(item.label[0].text, "aws_instance.web");
    assert_eq!(item.label[0].style, LabelStyle::Verb(Verb::Create));
    assert_eq!(item.label[1].text, " will be created");
    assert_eq!(item.label[1].style, LabelStyle::Plain);

    assert_eq!(item.children.len(), 1);
    let leaf = &item.children[0];
    assert_eq!(leaf.identifier(), "aws_instance.web name");
    let texts: Vec<&String> = leaf.label.iter().map(|s| &s.text).collect();
    assert_eq!(texts, vec!["name", " ", "(absent value)", " -> ", "\"web-1\""]);
    assert_eq!(leaf.label[2].style, LabelStyle::Absent);
    assert_eq!(leaf.label[4].style, LabelStyle::Plain);
}

#[test]
fn test_tree_unchanged_summary() {
    let pair_same = || TrowelDiffEntryBeforeAfter {
        before: TrowelDiffEntryBefore::Known(text("same")),
        after: TrowelDiffEntryBefore::Known(text("same")),
    };
    let diff = TrowelDiff(vec![TrowelDiffEntry {
        verb: Verb::Update,
        resource_path: "r".to_string(),
        values: vec![("a".to_string(), pair_same()), ("b".to_string(), pair_same())],
    }]);
    let items = diff.to_tree_items().unwrap();
    let item = &items[0];
    assert_eq!(item.children.len(), 1);
    let leaf = &item.children[0];
    assert_eq!(leaf.identifier(), "r unchanged");
    assert_eq!(leaf.label.len(), 1);
    assert_eq!(leaf.label[0].text, "2 unchanged attributes");
    assert_eq!(leaf.label[0].style, LabelStyle::Muted);
}

#[test]
fn test_tree_sensitive_styles() {
    let diff = TrowelDiff(vec![TrowelDiffEntry {
        verb: Verb::Update,
        resource_path: "r".to_string(),
        values: vec![(
            "token".to_string(),
            TrowelDiffEntryBeforeAfter {
                before: TrowelDiffEntryBefore::Sensitive(text("old")),
                after: TrowelDiffEntryBefore::Unknown,
            },
        )],
    }]);
    let items = diff.to_tree_items().unwrap();
    let leaf = &items[0].children[0];
    assert_eq!(leaf.label[2].text, "(sensitive value)");
    assert_eq!(leaf.label[2].style, LabelStyle::Sensitive);
    assert_eq!(leaf.label[4].text, "(unknown value)");
    assert_eq!(leaf.label[4].style, LabelStyle::Unknown);
}
