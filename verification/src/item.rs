//! Dotfile entries and the per-item records that a deployment run produces.

use vstd::prelude::*;

verus! {

/// Numeric tie-breaker among entries that resolve to the same target path.
/// A higher value wins the contest for the path.
#[derive(Debug, Clone, Copy, PartialEq, Eq, Structural)]
pub struct Priority {
    pub value: i64,
}

impl Priority {
    pub fn new(value: i64) -> (r: Self)
        ensures
            r.value == value,
    {
        Priority { value }
    }
}

/// Policy for handling a target path that already exists.
#[derive(Debug, Clone, Copy, PartialEq, Eq, Structural)]
pub enum MergeStrategy {
    /// Always replace the existing target.
    Overwrite,
    /// Keep the existing target untouched; deploy only when it is absent.
    Keep,
    /// Consult the conflict-resolution callback.
    Ask,
}

/// Answer of the conflict-resolution callback for one existing target.
#[derive(Debug, Clone, Copy, PartialEq, Eq, Structural)]
pub enum MergeAction {
    /// Replace the existing target with the new content.
    Replace,
    /// Keep the existing target untouched.
    Keep,
    /// Abort the whole run; later entries are not processed.
    AbortAll,
}

/// One configured mapping from a source path (relative to the source tree) to
/// a target location, with the optional fields that steer the deployment.
#[derive(Debug)]
pub struct Item {
    /// Source path, relative to the source tree's dotfile directory.
    pub path: String,
    /// Explicit target path override; when absent the target is the effective
    /// target root joined with `path`.
    pub target: Option<String>,
    /// Tie-breaker when several entries resolve to the same target path.
    pub priority: Option<Priority>,
    /// Per-entry merge strategy, overriding the run's default.
    pub merge: Option<MergeStrategy>,
}

impl Item {
    pub fn new(
        path: String,
        target: Option<String>,
        priority: Option<Priority>,
        merge: Option<MergeStrategy>,
    ) -> (r: Self)
        ensures
            r.path == path,
            r.target == target,
            r.priority == priority,
            r.merge == merge,
    {
        Item { path, target, priority, merge }
    }

    /// An identical copy of this entry.
    pub fn duplicate(&self) -> (r: Self)
        ensures
            r == *self,
    {
        let target: Option<String> = match &self.target {
            Some(t) => Some(t.clone()),
            None => None,
        };
        Item { path: self.path.clone(), target, priority: self.priority, merge: self.merge }
    }

    /// The numeric priority used in contests for a target path: the declared
    /// priority, where one is present.
    pub open spec fn spec_priority(&self) -> Option<int> {
        match self.priority {
            Some(p) => Some(p.value as int),
            None => None,
        }
    }
}

/// The models of a sequence of entries.
pub open spec fn items_view(s: Seq<Item>) -> Seq<ItemModel> {
    s.map_values(|it: Item| it@)
}

/// The integer a declared priority stands for, where one is present.
pub open spec fn opt_priority_model(p: Option<Priority>) -> Option<int> {
    match p {
        Some(pr) => Some(pr.value as int),
        None => None,
    }
}

impl PartialEq for Item {
    /// Entries are the same when every configured field is, which is what
    /// deduplication of merged dotfile lists goes by.
    fn eq(&self, other: &Self) -> (r: bool) {
        let path_eq = self.path == other.path;
        let target_eq = match (&self.target, &other.target) {
            (Some(a), Some(b)) => *a == *b,
            (None, None) => true,
            _ => false,
        };
        let priority_eq = match (self.priority, other.priority) {
            (Some(a), Some(b)) => a.value == b.value,
            (None, None) => true,
            _ => false,
        };
        let merge_eq = match (self.merge, other.merge) {
            (Some(a), Some(b)) => a == b,
            (None, None) => true,
            _ => false,
        };
        path_eq && target_eq && priority_eq && merge_eq
    }
}

impl Eq for Item {

}

impl vstd::std_specs::cmp::PartialEqSpecImpl for Item {
    open spec fn obeys_eq_spec() -> bool {
        true
    }

    open spec fn eq_spec(&self, other: &Self) -> bool {
        self@ == other@
    }
}

/// Outcome recorded for one path touched by a run. Immutable once recorded:
/// a later run starts a fresh ledger instead of editing history.
#[derive(Debug)]
pub enum ItemStatus {
    Success,
    Failed(String),
}

impl ItemStatus {
    pub fn success() -> (r: Self)
        ensures
            r is Success,
    {
        ItemStatus::Success
    }

    pub fn failed(reason: String) -> (r: Self)
        ensures
            r == ItemStatus::Failed(reason),
    {
        ItemStatus::Failed(reason)
    }

    pub fn is_success(&self) -> (r: bool)
        ensures
            r == (*self is Success),
    {
        matches!(self, ItemStatus::Success)
    }

    pub fn is_failed(&self) -> (r: bool)
        ensures
            r == (*self is Failed),
    {
        matches!(self, ItemStatus::Failed(_))
    }

    /// An identical copy of this status.
    pub fn duplicate(&self) -> (r: Self)
        ensures
            r == *self,
    {
        match self {
            ItemStatus::Success => ItemStatus::Success,
            ItemStatus::Failed(reason) => ItemStatus::Failed(reason.clone()),
        }
    }
}

/// What a ledger record stands for: a dotfile entry of its own, or a file that
/// a directory entry expanded to, kept as a back-reference to the parent's
/// target path.
#[derive(Debug)]
pub enum DeployedItemKind {
    Item(Item),
    Child(String),
}

/// One ledger record: the kind of the record and the recorded outcome.
#[derive(Debug)]
pub struct DeployedItem {
    pub kind: DeployedItemKind,
    pub status: ItemStatus,
}

impl DeployedItem {
    /// An identical copy of this record.
    pub fn duplicate(&self) -> (r: Self)
        ensures
            r == *self,
    {
        let kind = match &self.kind {
            DeployedItemKind::Item(item) => DeployedItemKind::Item(item.duplicate()),
            DeployedItemKind::Child(parent) => DeployedItemKind::Child(parent.clone()),
        };
        DeployedItem { kind, status: self.status.duplicate() }
    }
}

/// Mathematical model of a dotfile entry: every text field as a sequence of
/// characters, the priority as an unbounded integer.
pub ghost struct ItemModel {
    pub path: Seq<char>,
    pub target: Option<Seq<char>>,
    pub priority: Option<int>,
    pub merge: Option<MergeStrategy>,
}

impl View for Item {
    type V = ItemModel;

    open spec fn view(&self) -> ItemModel {
        ItemModel {
            path: self.path@,
            target: match self.target {
                Some(t) => Some(t@),
                None => None,
            },
            priority: self.spec_priority(),
            merge: self.merge,
        }
    }
}

/// Mathematical model of a recorded outcome.
pub ghost enum ItemStatusModel {
    Success,
    Failed(Seq<char>),
}

impl ItemStatusModel {
    pub open spec fn is_success(self) -> bool {
        self is Success
    }
}

impl View for ItemStatus {
    type V = ItemStatusModel;

    open spec fn view(&self) -> ItemStatusModel {
        match self {
            ItemStatus::Success => ItemStatusModel::Success,
            ItemStatus::Failed(reason) => ItemStatusModel::Failed(reason@),
        }
    }
}

/// Mathematical model of a record's kind.
pub ghost enum DeployedKindModel {
    Item(ItemModel),
    Child(Seq<char>),
}

impl View for DeployedItemKind {
    type V = DeployedKindModel;

    open spec fn view(&self) -> DeployedKindModel {
        match self {
            DeployedItemKind::Item(item) => DeployedKindModel::Item(item@),
            DeployedItemKind::Child(parent) => DeployedKindModel::Child(parent@),
        }
    }
}

/// Mathematical model of one ledger record.
pub ghost struct DeployedModel {
    pub kind: DeployedKindModel,
    pub status: ItemStatusModel,
}

impl View for DeployedItem {
    type V = DeployedModel;

    open spec fn view(&self) -> DeployedModel {
        DeployedModel {
            kind: match &self.kind {
                DeployedItemKind::Item(item) => DeployedKindModel::Item(item@),
                DeployedItemKind::Child(parent) => DeployedKindModel::Child(parent@),
            },
            status: self.status@,
        }
    }
}

} // verus!
