//! The presentation adapter: turns the change set into a hierarchical
//! item structure a display layer can render, without reaching into the
//! diff's internals. Styling is conveyed as semantic tags; mapping tags to
//! colors is the consumer's concern.

use crate::diff::{
    changed_spec, plaintext_model, sort_mpairs, values_model, BeforeAfterModel, EntryModel,
    TrowelDiff, TrowelDiffEntryBeforeAfter, ValueStateModel,
};
use crate::error::TrowelError;
use crate::strutil::{dec_digits, decimal_string};
use crate::verb::{verb_past_tense, Verb};
use vstd::prelude::*;

verus! {

/// The semantic style of a display segment.
#[derive(Clone, Copy, Debug, PartialEq, Eq, Structural)]
pub enum LabelStyle {
    /// Ordinary text.
    Plain,
    /// Text colored after a verb.
    Verb(Verb),
    /// A redacted sensitive value.
    Sensitive,
    /// A value pending until apply time.
    Unknown,
    /// A missing value.
    Absent,
    /// De-emphasized summary text.
    Muted,
}

/// One styled display segment.
pub struct TreeLabelSpan {
    pub text: String,
    pub style: LabelStyle,
}

/// The mathematical shape of a display segment.
pub struct SpanModel {
    pub text: Seq<char>,
    pub style: LabelStyle,
}

impl View for TreeLabelSpan {
    type V = SpanModel;

    open spec fn view(&self) -> SpanModel {
        SpanModel { text: self.text@, style: self.style }
    }
}

/// One leaf of the display tree: an attribute line or the unchanged
/// summary line.
pub struct TreeLeaf {
    pub identifier: String,
    pub label: Vec<TreeLabelSpan>,
}

/// The mathematical shape of a leaf.
pub struct LeafModel {
    pub identifier: Seq<char>,
    pub label: Seq<SpanModel>,
}

impl View for TreeLeaf {
    type V = LeafModel;

    open spec fn view(&self) -> LeafModel {
        LeafModel {
            identifier: self.identifier@,
            label: self.label@.map_values(|s: TreeLabelSpan| s@),
        }
    }
}

/// One top-level item of the display tree: a resource with its attribute
/// leaves.
pub struct TrowelTreeItem {
    pub identifier: String,
    pub label: Vec<TreeLabelSpan>,
    pub children: Vec<TreeLeaf>,
}

/// The mathematical shape of a tree item.
pub struct ItemModel {
    pub identifier: Seq<char>,
    pub label: Seq<SpanModel>,
    pub children: Seq<LeafModel>,
}

impl View for TrowelTreeItem {
    type V = ItemModel;

    open spec fn view(&self) -> ItemModel {
        ItemModel {
            identifier: self.identifier@,
            label: self.label@.map_values(|s: TreeLabelSpan| s@),
            children: self.children@.map_values(|c: TreeLeaf| c@),
        }
    }
}

impl TrowelTreeItem {
    /// The unique identity of this item.
    pub fn identifier(&self) -> (r: &String)
        ensures
            r@ == self@.identifier,
    {
        &self.identifier
    }

    /// The attribute leaves of this item.
    pub fn children(&self) -> (r: &Vec<TreeLeaf>)
        ensures
            r@.map_values(|c: TreeLeaf| c@) == self@.children,
    {
        &self.children
    }
}

impl TreeLeaf {
    /// The unique identity of this leaf.
    pub fn identifier(&self) -> (r: &String)
        ensures
            r@ == self@.identifier,
    {
        &self.identifier
    }
}

/// The display style of an attribute state.
pub open spec fn value_style(v: ValueStateModel) -> LabelStyle {
    match v {
        ValueStateModel::Known(_) => LabelStyle::Plain,
        ValueStateModel::Sensitive(_) => LabelStyle::Sensitive,
        ValueStateModel::Unknown => LabelStyle::Unknown,
        ValueStateModel::Absent => LabelStyle::Absent,
    }
}

/// The leaf of one changed attribute: its name, the before text, an
/// arrow, and the after text.
pub open spec fn pair_leaf(path: Seq<char>, p: (Seq<char>, BeforeAfterModel)) -> LeafModel {
    LeafModel {
        identifier: path + seq![' '] + p.0,
        label: seq![
            SpanModel { text: p.0, style: LabelStyle::Plain },
            SpanModel { text: seq![' '], style: LabelStyle::Plain },
            SpanModel { text: plaintext_model(p.1.before), style: value_style(p.1.before) },
            SpanModel { text: " -> "@, style: LabelStyle::Plain },
            SpanModel { text: plaintext_model(p.1.after), style: value_style(p.1.after) },
        ],
    }
}

/// The leaves of the changed attributes, in order.
pub open spec fn changed_leaves(path: Seq<char>, vals: Seq<(Seq<char>, BeforeAfterModel)>) -> Seq<
    LeafModel,
>
    decreases vals.len(),
{
    if vals.len() == 0 {
        Seq::empty()
    } else {
        changed_leaves(path, vals.drop_last()) + (if changed_spec(
            vals.last().1.before,
            vals.last().1.after,
        ) {
            seq![pair_leaf(path, vals.last())]
        } else {
            Seq::empty()
        })
    }
}

/// How many attributes are unchanged.
pub open spec fn unchanged_count(vals: Seq<(Seq<char>, BeforeAfterModel)>) -> nat
    decreases vals.len(),
{
    if vals.len() == 0 {
        0
    } else {
        unchanged_count(vals.drop_last()) + if changed_spec(
            vals.last().1.before,
            vals.last().1.after,
        ) {
            0nat
        } else {
            1nat
        }
    }
}

/// The summary leaf standing in for the unchanged attributes.
pub open spec fn unchanged_leaf(path: Seq<char>, count: nat) -> LeafModel {
    LeafModel {
        identifier: path + " unchanged"@,
        label: seq![
            SpanModel {
                text: dec_digits(count) + " unchanged attributes"@,
                style: LabelStyle::Muted,
            },
        ],
    }
}

/// The display item of one diff entry: the resource line, the changed
/// attributes sorted by name, and an aggregate line for the unchanged
/// ones.
pub open spec fn entry_tree_item(e: EntryModel) -> ItemModel {
    let sorted = sort_mpairs(e.values);
    let leaves = changed_leaves(e.resource_path, sorted);
    let u = unchanged_count(sorted);
    ItemModel {
        identifier: e.resource_path,
        label: seq![
            SpanModel { text: e.resource_path, style: LabelStyle::Verb(e.verb) },
            SpanModel { text: " will be "@ + verb_past_tense(e.verb), style: LabelStyle::Plain },
        ],
        children: if u > 0 {
            leaves.push(unchanged_leaf(e.resource_path, u))
        } else {
            leaves
        },
    }
}

/// The display items of a whole change set, in diff order.
pub open spec fn tree_items_model(entries: Seq<EntryModel>) -> Seq<ItemModel> {
    entries.map_values(|e: EntryModel| entry_tree_item(e))
}

/// Builds the label of one changed attribute.
fn build_pair_label(key: &String, pair: &TrowelDiffEntryBeforeAfter) -> (r: Vec<TreeLabelSpan>)
    ensures
        r@.map_values(|s: TreeLabelSpan| s@) == pair_leaf(Seq::<char>::empty(), (key@, pair@)).label,
{
    let mut label: Vec<TreeLabelSpan> = Vec::new();
    label.push(TreeLabelSpan { text: key.clone(), style: LabelStyle::Plain });
    label.push(TreeLabelSpan { text: " ".to_owned(), style: LabelStyle::Plain });
    let before_style = match &pair.before {
        crate::diff::TrowelDiffEntryBefore::Known(_) => LabelStyle::Plain,
        crate::diff::TrowelDiffEntryBefore::Sensitive(_) => LabelStyle::Sensitive,
        crate::diff::TrowelDiffEntryBefore::Unknown => LabelStyle::Unknown,
        crate::diff::TrowelDiffEntryBefore::Absent => LabelStyle::Absent,
    };
    let after_style = match &pair.after {
        crate::diff::TrowelDiffEntryBefore::Known(_) => LabelStyle::Plain,
        crate::diff::TrowelDiffEntryBefore::Sensitive(_) => LabelStyle::Sensitive,
        crate::diff::TrowelDiffEntryBefore::Unknown => LabelStyle::Unknown,
        crate::diff::TrowelDiffEntryBefore::Absent => LabelStyle::Absent,
    };
    label.push(
        TreeLabelSpan {
            text: TrowelDiffEntryBeforeAfter::plaintext(&pair.before),
            style: before_style,
        },
    );
    label.push(TreeLabelSpan { text: " -> ".to_owned(), style: LabelStyle::Plain });
    label.push(
        TreeLabelSpan {
            text: TrowelDiffEntryBeforeAfter::plaintext(&pair.after),
            style: after_style,
        },
    );
    proof {
        reveal_strlit(" ");
        assert(" "@ =~= seq![' ']);
        assert(label@.map_values(|s: TreeLabelSpan| s@) =~= pair_leaf(
            Seq::<char>::empty(),
            (key@, pair@),
        ).label);
    }
    label
}

impl TrowelDiff {
    /// The display tree of this change set: one item per entry, in order,
    /// each carrying its changed attributes sorted by name and a summary
    /// line for the unchanged ones. It always succeeds; the `Result`
    /// mirrors the construction interface.
    pub fn to_tree_items(&self) -> (r: Result<Vec<TrowelTreeItem>, TrowelError>)
        ensures
            r matches Ok(items) && items@.map_values(|it: TrowelTreeItem| it@) == tree_items_model(
                self@,
            ),
    {
        let n = self.0.len();
        let mut out: Vec<TrowelTreeItem> = Vec::new();
        let mut i: usize = 0;
        while i < n
            invariant
                i <= n,
                n == self.0@.len(),
                out@.len() == i,
                forall|j: int| 0 <= j < i ==> (#[trigger] out@[j])@ == entry_tree_item(
                    self@[j],
                ),
            decreases n - i,
        {
            let entry = &self.0[i];
            let sorted = entry.values_sorted();
            let ghost sorted_model = sort_mpairs(values_model(entry.values@));
            proof {
                assert(values_model(sorted@) == sorted_model);
            }
            let m = sorted.len();
            let mut children: Vec<TreeLeaf> = Vec::new();
            let mut unchanged: usize = 0;
            let mut k: usize = 0;
            while k < m
                invariant
                    k <= m,
                    m == sorted@.len(),
                    i < n,
                    n == self.0@.len(),
                    values_model(sorted@) == sorted_model,
                    sorted_model.len() == m,
                    *entry == self.0@[i as int],
                    unchanged <= k,
                    unchanged as nat == unchanged_count(sorted_model.subrange(0, k as int)),
                    children@.map_values(|c: TreeLeaf| c@) == changed_leaves(
                        entry@.resource_path,
                        sorted_model.subrange(0, k as int),
                    ),
                decreases m - k,
            {
                proof {
                    assert(sorted_model.subrange(0, k + 1).drop_last() =~= sorted_model.subrange(
                        0,
                        k as int,
                    ));
                    assert(sorted_model.subrange(0, k + 1).last() == sorted_model[k as int]);
                    assert(values_model(sorted@)[k as int] == (sorted@[k as int].0@, sorted@[
                        k as int].1@));
                }
                let key = &sorted[k].0;
                let pair = &sorted[k].1;
                if pair.changed() {
                    let mut identifier = entry.resource_path.clone();
                    identifier.append(" ");
                    identifier.append(key.as_str());
                    let label = build_pair_label(key, pair);
                    let ghost old_children = children@;
                    children.push(TreeLeaf { identifier, label });
                    proof {
                        reveal_strlit(" ");
                        assert(" "@ =~= seq![' ']);
                        let leaf = pair_leaf(entry@.resource_path, sorted_model[k as int]);
                        assert(children@.last()@.identifier == leaf.identifier);
                        assert(children@.last()@.label =~= leaf.label);
                        assert(children@.last()@ == leaf);
                        assert(children@.map_values(|c: TreeLeaf| c@) =~= old_children.map_values(
                            |c: TreeLeaf| c@,
                        ).push(leaf));
                    }
                } else {
                    unchanged = unchanged + 1;
                    proof {
                        assert(children@.map_values(|c: TreeLeaf| c@) =~= changed_leaves(
                            entry@.resource_path,
                            sorted_model.subrange(0, k + 1),
                        ));
                    }
                }
                k = k + 1;
            }
            proof {
                assert(sorted_model.subrange(0, m as int) =~= sorted_model);
            }
            if unchanged > 0 {
                let mut identifier = entry.resource_path.clone();
                identifier.append(" unchanged");
                let mut text = decimal_string(unchanged);
                text.append(" unchanged attributes");
                let mut label: Vec<TreeLabelSpan> = Vec::new();
                label.push(TreeLabelSpan { text, style: LabelStyle::Muted });
                let ghost old_children = children@;
                children.push(TreeLeaf { identifier, label });
                proof {
                    let leaf = unchanged_leaf(entry@.resource_path, unchanged as nat);
                    assert(children@.last()@.label =~= leaf.label);
                    assert(children@.last()@ == leaf);
                    assert(children@.map_values(|c: TreeLeaf| c@) =~= old_children.map_values(
                        |c: TreeLeaf| c@,
                    ).push(leaf));
                }
            }
            let mut item_label: Vec<TreeLabelSpan> = Vec::new();
            item_label.push(
                TreeLabelSpan { text: entry.resource_path.clone(), style: LabelStyle::Verb(entry.verb) },
            );
            let mut rest = " will be ".to_owned();
            rest.append(entry.verb.to_past_tense().as_str());
            item_label.push(TreeLabelSpan { text: rest, style: LabelStyle::Plain });
            let item = TrowelTreeItem {
                identifier: entry.resource_path.clone(),
                label: item_label,
                children,
            };
            proof {
                assert(item@.label =~= entry_tree_item(self@[i as int]).label);
                assert(item@.children =~= entry_tree_item(self@[i as int]).children);
                assert(item@ == entry_tree_item(self@[i as int]));
            }
            out.push(item);
            i = i + 1;
        }
        proof {
            assert(out@.map_values(|it: TrowelTreeItem| it@) =~= tree_items_model(self@));
        }
        Ok(out)
    }
}

} // verus!
