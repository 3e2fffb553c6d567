//! The execution engine: walks the effective profile's dotfile entries in
//! profile order, decides each entry's action under priority contests and
//! merge strategies, expands directory entries into child records, and
//! produces the deployment record together with the filesystem actions the
//! caller is to perform.
//!
//! The engine itself touches no filesystem: the caller describes the world
//! (source kinds, existing targets, failed actions) as plain values and
//! carries out the returned actions. Dry-run therefore changes no outcome;
//! the flag only tells the caller not to perform the actions.

use vstd::prelude::*;
use vstd::string::StringExecFns;

use crate::assoc::{assoc, assoc_get, contains_name, names_view, pairs_view};
use crate::deployment::{Deployment, DeploymentBuilder, DeploymentStatusModel};
use crate::item::{
    DeployedItem, DeployedItemKind, DeployedKindModel, DeployedModel, Item, ItemModel, ItemStatus,
    ItemStatusModel, MergeAction, MergeStrategy, items_view,
};
use crate::resolver::LayeredProfile;

verus! {

/// Options of one deployment run.
#[derive(Debug, Clone, Copy, PartialEq, Eq, Structural)]
pub struct ExecutorOptions {
    /// When set, the caller performs none of the returned actions; the
    /// record is built all the same.
    pub dry_run: bool,
}

/// What a dotfile entry's source path is on disk, as the caller found it.
#[derive(Debug)]
pub enum SourceKind {
    /// A plain file.
    File,
    /// A directory holding the named files, each deployed as a child of the
    /// entry.
    Directory(Vec<String>),
}

/// Mathematical model of a source kind.
pub ghost enum SourceKindModel {
    File,
    Directory(Seq<Seq<char>>),
}

impl View for SourceKind {
    type V = SourceKindModel;

    open spec fn view(&self) -> SourceKindModel {
        match self {
            SourceKind::File => SourceKindModel::File,
            SourceKind::Directory(children) => SourceKindModel::Directory(names_view(children@)),
        }
    }
}

/// The models of a sequence of source kinds.
pub open spec fn kinds_view(s: Seq<SourceKind>) -> Seq<SourceKindModel> {
    s.map_values(|k: SourceKind| k@)
}

/// A filesystem action the caller is to perform, in order.
#[derive(Debug)]
pub enum Action {
    /// Deploy the source path (second field, relative to the source tree) to
    /// the target path (first field): copy or render-and-write.
    WriteFile(String, String),
    /// Create the target directory.
    CreateDir(String),
}

/// Mathematical model of an action.
pub ghost enum ActionModel {
    WriteFile(Seq<char>, Seq<char>),
    CreateDir(Seq<char>),
}

impl View for Action {
    type V = ActionModel;

    open spec fn view(&self) -> ActionModel {
        match self {
            Action::WriteFile(target, source) => ActionModel::WriteFile(target@, source@),
            Action::CreateDir(target) => ActionModel::CreateDir(target@),
        }
    }
}

/// The models of a sequence of actions.
pub open spec fn actions_view(s: Seq<Action>) -> Seq<ActionModel> {
    s.map_values(|a: Action| a@)
}

/// What one run has produced so far.
pub ghost struct RunState {
    pub ledger: Map<Seq<char>, DeployedModel>,
    pub actions: Seq<ActionModel>,
    /// How many conflict answers have been consumed.
    pub used: nat,
    pub aborted: bool,
}

/// The state a run starts from.
pub open spec fn init_state() -> RunState {
    RunState { ledger: Map::empty(), actions: Seq::empty(), used: 0, aborted: false }
}

/// The absolute target path of an entry: its explicit override, else the
/// target root joined with its source path.
pub open spec fn target_path_of(entry: ItemModel, root: Seq<char>) -> Seq<char> {
    match entry.target {
        Some(t) => t,
        None => root + "/"@ + entry.path,
    }
}

/// The merge strategy an entry deploys under: its own, else overwrite.
pub open spec fn strategy_of(entry: ItemModel) -> MergeStrategy {
    match entry.merge {
        Some(s) => s,
        None => MergeStrategy::Overwrite,
    }
}

/// The priority with which a ledger record claims its path: an item record
/// claims with its entry's priority, a directory-expanded child record with
/// none of its own; an unrecorded path claims nothing.
pub open spec fn claim_priority(
    ledger: Map<Seq<char>, DeployedModel>,
    path: Seq<char>,
) -> Option<Option<int>> {
    if !ledger.contains_key(path) {
        None
    } else {
        match ledger[path].kind {
            DeployedKindModel::Item(it) => Some(it.priority),
            DeployedKindModel::Child(_) => Some(None),
        }
    }
}

/// Whether a new entry's priority beats an existing claim: only a strictly
/// higher declared priority wins; on equal or absent priority the earlier
/// claim stands.
pub open spec fn wins_over(new: Option<int>, claim: Option<int>) -> bool {
    match (new, claim) {
        (Some(a), Some(b)) => a > b,
        (Some(_), None) => true,
        _ => false,
    }
}

/// The status an attempted action gets: the failure reason the caller
/// reported for the path, else success.
pub open spec fn status_for(
    failures: Seq<(Seq<char>, Seq<char>)>,
    path: Seq<char>,
) -> ItemStatusModel {
    match assoc(failures, path) {
        Some(reason) => ItemStatusModel::Failed(reason),
        None => ItemStatusModel::Success,
    }
}

/// The conflict answer consumed next: the next scripted answer, or keep once
/// the script is exhausted.
pub open spec fn next_answer(answers: Seq<MergeAction>, used: nat) -> MergeAction {
    if used < answers.len() {
        answers[used as int]
    } else {
        MergeAction::Keep
    }
}

/// The answer count after consuming one answer.
pub open spec fn bump(answers: Seq<MergeAction>, used: nat) -> nat {
    if used < answers.len() {
        (used + 1) as nat
    } else {
        used
    }
}

/// Attempt the write for one record: the action is appended and the record
/// takes the status the caller reported for the path.
pub open spec fn write_step(
    st: RunState,
    target: Seq<char>,
    source: Seq<char>,
    kind: DeployedKindModel,
    failures: Seq<(Seq<char>, Seq<char>)>,
) -> RunState {
    RunState {
        ledger: st.ledger.insert(target, DeployedModel { kind, status: status_for(failures, target) }),
        actions: st.actions.push(ActionModel::WriteFile(target, source)),
        ..st
    }
}

/// Deploy one file record: plain write when the target does not exist, else
/// by the merge strategy; an `Ask` consumes the next conflict answer, and an
/// abort answer stops the whole run.
pub open spec fn file_step(
    st: RunState,
    target: Seq<char>,
    source: Seq<char>,
    strat: MergeStrategy,
    kind: DeployedKindModel,
    existing: Seq<Seq<char>>,
    failures: Seq<(Seq<char>, Seq<char>)>,
    answers: Seq<MergeAction>,
) -> RunState {
    if !existing.contains(target) {
        write_step(st, target, source, kind, failures)
    } else {
        match strat {
            MergeStrategy::Overwrite => write_step(st, target, source, kind, failures),
            MergeStrategy::Keep => RunState {
                ledger: st.ledger.insert(
                    target,
                    DeployedModel { kind, status: ItemStatusModel::Success },
                ),
                ..st
            },
            MergeStrategy::Ask => {
                let a = next_answer(answers, st.used);
                let st1 = RunState { used: bump(answers, st.used), ..st };
                match a {
                    MergeAction::Replace => write_step(st1, target, source, kind, failures),
                    MergeAction::Keep => RunState {
                        ledger: st1.ledger.insert(
                            target,
                            DeployedModel { kind, status: ItemStatusModel::Success },
                        ),
                        ..st1
                    },
                    MergeAction::AbortAll => RunState { aborted: true, ..st1 },
                }
            },
        }
    }
}

/// Deploy the children of a directory entry from index `j` on, each as a
/// child record referring back to the parent's target path.
pub open spec fn children_steps(
    st: RunState,
    children: Seq<Seq<char>>,
    j: nat,
    parent_target: Seq<char>,
    source_dir: Seq<char>,
    strat: MergeStrategy,
    existing: Seq<Seq<char>>,
    failures: Seq<(Seq<char>, Seq<char>)>,
    answers: Seq<MergeAction>,
) -> RunState
    decreases children.len() - j,
{
    if j >= children.len() {
        st
    } else {
        let st1 = if st.aborted {
            st
        } else {
            file_step(
                st,
                parent_target + "/"@ + children[j as int],
                source_dir + "/"@ + children[j as int],
                strat,
                DeployedKindModel::Child(parent_target),
                existing,
                failures,
                answers,
            )
        };
        children_steps(
            st1,
            children,
            (j + 1) as nat,
            parent_target,
            source_dir,
            strat,
            existing,
            failures,
            answers,
        )
    }
}

/// Process one dotfile entry: resolve its target path, let an existing
/// higher-or-equal-priority claim supersede it, else deploy it as a file or
/// expand it as a directory.
pub open spec fn entry_step(
    st: RunState,
    entry: ItemModel,
    kind: SourceKindModel,
    root: Seq<char>,
    existing: Seq<Seq<char>>,
    failures: Seq<(Seq<char>, Seq<char>)>,
    answers: Seq<MergeAction>,
) -> RunState {
    if st.aborted {
        st
    } else {
        let target = target_path_of(entry, root);
        let lose = match claim_priority(st.ledger, target) {
            Some(claim) => !wins_over(entry.priority, claim),
            None => false,
        };
        if lose {
            RunState {
                ledger: st.ledger.insert(
                    target,
                    DeployedModel {
                        kind: DeployedKindModel::Item(entry),
                        status: ItemStatusModel::Failed("superseded by higher-priority entry"@),
                    },
                ),
                ..st
            }
        } else {
            match kind {
                SourceKindModel::File => file_step(
                    st,
                    target,
                    entry.path,
                    strategy_of(entry),
                    DeployedKindModel::Item(entry),
                    existing,
                    failures,
                    answers,
                ),
                SourceKindModel::Directory(children) => {
                    let st1 = RunState {
                        ledger: st.ledger.insert(
                            target,
                            DeployedModel {
                                kind: DeployedKindModel::Item(entry),
                                status: status_for(failures, target),
                            },
                        ),
                        actions: st.actions.push(ActionModel::CreateDir(target)),
                        ..st
                    };
                    children_steps(
                        st1,
                        children,
                        0,
                        target,
                        entry.path,
                        strategy_of(entry),
                        existing,
                        failures,
                        answers,
                    )
                },
            }
        }
    }
}

/// The run state after the first `i` entries.
pub open spec fn run_upto(
    entries: Seq<ItemModel>,
    kinds: Seq<SourceKindModel>,
    root: Seq<char>,
    existing: Seq<Seq<char>>,
    failures: Seq<(Seq<char>, Seq<char>)>,
    answers: Seq<MergeAction>,
    i: int,
) -> RunState
    decreases i,
{
    if i <= 0 {
        init_state()
    } else {
        entry_step(
            run_upto(entries, kinds, root, existing, failures, answers, i - 1),
            entries[i - 1],
            kinds[i - 1],
            root,
            existing,
            failures,
            answers,
        )
    }
}

/// The full run over all entries, in profile order.
pub open spec fn run_spec(
    entries: Seq<ItemModel>,
    kinds: Seq<SourceKindModel>,
    root: Seq<char>,
    existing: Seq<Seq<char>>,
    failures: Seq<(Seq<char>, Seq<char>)>,
    answers: Seq<MergeAction>,
) -> RunState {
    run_upto(entries, kinds, root, existing, failures, answers, entries.len() as int)
}

/// Once a child walk hits an aborted state, the remaining children change
/// nothing.
pub proof fn lemma_children_abort_halts(
    st: RunState,
    children: Seq<Seq<char>>,
    j: nat,
    parent_target: Seq<char>,
    source_dir: Seq<char>,
    strat: MergeStrategy,
    existing: Seq<Seq<char>>,
    failures: Seq<(Seq<char>, Seq<char>)>,
    answers: Seq<MergeAction>,
)
    requires
        st.aborted,
    ensures
        children_steps(st, children, j, parent_target, source_dir, strat, existing, failures, answers)
            == st,
    decreases children.len() - j,
{
    if j < children.len() {
        lemma_children_abort_halts(
            st,
            children,
            (j + 1) as nat,
            parent_target,
            source_dir,
            strat,
            existing,
            failures,
            answers,
        );
    }
}

/// A global abort halts the run: once some prefix of the entries ends in an
/// aborted state, processing further entries changes nothing, so every
/// record written before the abort keeps its pre-abort status.
pub proof fn lemma_abort_halts(
    entries: Seq<ItemModel>,
    kinds: Seq<SourceKindModel>,
    root: Seq<char>,
    existing: Seq<Seq<char>>,
    failures: Seq<(Seq<char>, Seq<char>)>,
    answers: Seq<MergeAction>,
    i: int,
    j: int,
)
    requires
        0 <= i <= j,
        run_upto(entries, kinds, root, existing, failures, answers, i).aborted,
    ensures
        run_upto(entries, kinds, root, existing, failures, answers, j) == run_upto(
            entries,
            kinds,
            root,
            existing,
            failures,
            answers,
            i,
        ),
    decreases j - i,
{
    if j > i {
        lemma_abort_halts(entries, kinds, root, existing, failures, answers, i, j - 1);
    }
}

/// Of two file entries contending for one free target path, the entry whose
/// priority wins the contest performs the write and the other entry never
/// overwrites it, whatever the declaration order. Where the winner is
/// declared first, the loser attempts nothing and the ledger records it as
/// superseded; where the loser is declared first, its write is followed and
/// replaced by the winner's, whose successful record stands.
pub proof fn lemma_priority_contest(
    e_hi: ItemModel,
    e_lo: ItemModel,
    p: Seq<char>,
    root: Seq<char>,
    existing: Seq<Seq<char>>,
    failures: Seq<(Seq<char>, Seq<char>)>,
    answers: Seq<MergeAction>,
)
    requires
        e_hi.target == Some(p),
        e_lo.target == Some(p),
        wins_over(e_hi.priority, e_lo.priority),
        !existing.contains(p),
        assoc(failures, p) is None,
    ensures
        ({
            let run = run_spec(
                seq![e_hi, e_lo],
                seq![SourceKindModel::File, SourceKindModel::File],
                root,
                existing,
                failures,
                answers,
            );
            &&& run.actions == seq![ActionModel::WriteFile(p, e_hi.path)]
            &&& run.ledger[p] == (DeployedModel {
                kind: DeployedKindModel::Item(e_lo),
                status: ItemStatusModel::Failed("superseded by higher-priority entry"@),
            })
            &&& !run.aborted
        }),
        ({
            let run = run_spec(
                seq![e_lo, e_hi],
                seq![SourceKindModel::File, SourceKindModel::File],
                root,
                existing,
                failures,
                answers,
            );
            &&& run.actions == seq![ActionModel::WriteFile(p, e_lo.path), ActionModel::WriteFile(
                p,
                e_hi.path,
            )]
            &&& run.ledger[p] == (DeployedModel {
                kind: DeployedKindModel::Item(e_hi),
                status: ItemStatusModel::Success,
            })
            &&& !run.aborted
        }),
{
    let entries1 = seq![e_hi, e_lo];
    let entries2 = seq![e_lo, e_hi];
    let kinds = seq![SourceKindModel::File, SourceKindModel::File];
    let s10 = run_upto(entries1, kinds, root, existing, failures, answers, 0);
    let s11 = run_upto(entries1, kinds, root, existing, failures, answers, 1);
    let s12 = run_upto(entries1, kinds, root, existing, failures, answers, 2);
    assert(s10 == init_state());
    assert(s11 == entry_step(s10, e_hi, SourceKindModel::File, root, existing, failures, answers));
    assert(s11.actions =~= seq![ActionModel::WriteFile(p, e_hi.path)]);
    assert(s12 == entry_step(s11, e_lo, SourceKindModel::File, root, existing, failures, answers));
    assert(!wins_over(e_lo.priority, e_hi.priority));
    assert(s12.actions =~= seq![ActionModel::WriteFile(p, e_hi.path)]);
    let s20 = run_upto(entries2, kinds, root, existing, failures, answers, 0);
    let s21 = run_upto(entries2, kinds, root, existing, failures, answers, 1);
    let s22 = run_upto(entries2, kinds, root, existing, failures, answers, 2);
    assert(s20 == init_state());
    assert(s21 == entry_step(s20, e_lo, SourceKindModel::File, root, existing, failures, answers));
    assert(s21.actions =~= seq![ActionModel::WriteFile(p, e_lo.path)]);
    assert(s22 == entry_step(s21, e_hi, SourceKindModel::File, root, existing, failures, answers));
    assert(s22.actions =~= seq![ActionModel::WriteFile(p, e_lo.path), ActionModel::WriteFile(
        p,
        e_hi.path,
    )]);
}

/// Of two file entries with the same (or both absent) declared priority
/// aiming at one free target path, the earlier-declared entry wins: it alone
/// performs the write, and the later entry is skipped and recorded
/// superseded.
pub proof fn lemma_first_declared_wins(
    e_a: ItemModel,
    e_b: ItemModel,
    p: Seq<char>,
    root: Seq<char>,
    existing: Seq<Seq<char>>,
    failures: Seq<(Seq<char>, Seq<char>)>,
    answers: Seq<MergeAction>,
)
    requires
        e_a.target == Some(p),
        e_b.target == Some(p),
        e_a.priority == e_b.priority,
        !existing.contains(p),
        assoc(failures, p) is None,
    ensures
        ({
            let run = run_spec(
                seq![e_a, e_b],
                seq![SourceKindModel::File, SourceKindModel::File],
                root,
                existing,
                failures,
                answers,
            );
            &&& run.actions == seq![ActionModel::WriteFile(p, e_a.path)]
            &&& run.ledger[p] == (DeployedModel {
                kind: DeployedKindModel::Item(e_b),
                status: ItemStatusModel::Failed("superseded by higher-priority entry"@),
            })
            &&& !run.aborted
        }),
{
    let entries = seq![e_a, e_b];
    let kinds = seq![SourceKindModel::File, SourceKindModel::File];
    let s0 = run_upto(entries, kinds, root, existing, failures, answers, 0);
    let s1 = run_upto(entries, kinds, root, existing, failures, answers, 1);
    let s2 = run_upto(entries, kinds, root, existing, failures, answers, 2);
    assert(s0 == init_state());
    assert(s1 == entry_step(s0, e_a, SourceKindModel::File, root, existing, failures, answers));
    assert(s1.actions =~= seq![ActionModel::WriteFile(p, e_a.path)]);
    assert(!wins_over(e_b.priority, e_a.priority));
    assert(s2 == entry_step(s1, e_b, SourceKindModel::File, root, existing, failures, answers));
    assert(s2.actions =~= seq![ActionModel::WriteFile(p, e_a.path)]);
}

/// Joins two path components with a separator.
pub fn join_path(base: &String, rel: &String) -> (r: String)
    ensures
        r@ == base@ + "/"@ + rel@,
{
    let mut s = base.clone();
    s.append("/");
    s.append(rel.as_str());
    s
}

/// One file record attempted: the exec mirror of [`file_step`].
#[allow(clippy::too_many_arguments)]
fn exec_file_step(
    builder: &mut DeploymentBuilder,
    actions: &mut Vec<Action>,
    used: &mut usize,
    aborted: &mut bool,
    target: String,
    source: String,
    strat: MergeStrategy,
    record: DeployedItemKind,
    existing: &Vec<String>,
    failures: &Vec<(String, String)>,
    answers: &Vec<MergeAction>,
)
    requires
        !*old(aborted),
        *old(used) <= answers@.len(),
    ensures
        ({
            let st0 = RunState {
                ledger: old(builder).ledger(),
                actions: actions_view(old(actions)@),
                used: *old(used) as nat,
                aborted: false,
            };
            let st1 = file_step(
                st0,
                target@,
                source@,
                strat,
                record@,
                names_view(existing@),
                pairs_view(failures@),
                answers@,
            );
            &&& final(builder).ledger() == st1.ledger
            &&& actions_view(final(actions)@) == st1.actions
            &&& *final(used) as nat == st1.used
            &&& *final(aborted) == st1.aborted
            &&& *final(used) <= answers@.len()
            &&& final(builder).spec_time_start() == old(builder).spec_time_start()
        }),
{
    let ghost record_model = record@;
    let exists = contains_name(existing, &target);
    let write: bool;
    if !exists {
        write = true;
    } else {
        match strat {
            MergeStrategy::Overwrite => {
                write = true;
            },
            MergeStrategy::Keep => {
                insert_record(builder, target, record, ItemStatus::success());
                return ;
            },
            MergeStrategy::Ask => {
                let a: MergeAction = if *used < answers.len() {
                    let x = answers[*used];
                    *used = *used + 1;
                    x
                } else {
                    MergeAction::Keep
                };
                match a {
                    MergeAction::Replace => {
                        write = true;
                    },
                    MergeAction::Keep => {
                        insert_record(builder, target, record, ItemStatus::success());
                        return ;
                    },
                    MergeAction::AbortAll => {
                        *aborted = true;
                        return ;
                    },
                }
            },
        }
    }
    let status = match assoc_get(failures, &target) {
        Some(reason) => ItemStatus::failed(reason.clone()),
        None => ItemStatus::success(),
    };
    let action_target = target.clone();
    insert_record(builder, target, record, status);
    actions.push(Action::WriteFile(action_target, source));
    proof {
        assert(actions_view(actions@) =~= actions_view(old(actions)@).push(
            actions@.last()@,
        ));
    }
}

/// Write one record into the ledger, item or child as the kind says.
fn insert_record(builder: &mut DeploymentBuilder, path: String, record: DeployedItemKind, status: ItemStatus)
    ensures
        final(builder).ledger() == old(builder).ledger().insert(
            path@,
            DeployedModel { kind: record@, status: status@ },
        ),
        final(builder).spec_time_start() == old(builder).spec_time_start(),
{
    match record {
        DeployedItemKind::Item(item) => builder.add_item(path, item, status),
        DeployedItemKind::Child(parent) => builder.add_child(path, parent, status),
    }
}

/// What one run of [`Executor::deploy`] returned: the frozen record and the
/// filesystem actions the caller is to perform, in order.
#[derive(Debug)]
pub struct DeployOutcome {
    pub record: Deployment,
    pub actions: Vec<Action>,
}

/// Drives one deployment run over an effective profile.
#[derive(Debug, Clone, Copy, PartialEq, Eq, Structural)]
pub struct Executor {
    pub options: ExecutorOptions,
}

impl Executor {
    pub fn new(options: ExecutorOptions) -> (r: Self)
        ensures
            r.options == options,
    {
        Executor { options }
    }

    /// Deploy the profile's dotfile set against the world the caller
    /// described: `kinds[i]` says what the i-th entry's source is on disk,
    /// `existing` which target paths already exist, `failures` which target
    /// paths' actions the caller found failing (with the reason), and
    /// `answers` the scripted conflict answers, consumed in order (keep,
    /// once exhausted).
    ///
    /// The run outcome is a function of these values alone — dry-run changes
    /// neither ledger nor actions, only whether the caller performs them.
    /// A profile without a target root deploys nothing and fails; a
    /// consumed abort answer halts the run, keeps every earlier record and
    /// fails the whole run.
    pub fn deploy(
        &self,
        profile: &LayeredProfile,
        kinds: &Vec<SourceKind>,
        existing: &Vec<String>,
        failures: &Vec<(String, String)>,
        answers: &Vec<MergeAction>,
    ) -> (r: DeployOutcome)
        requires
            kinds@.len() == profile.dotfiles_model().len(),
        ensures
            ({
                match profile.spec_target() {
                    None => {
                        &&& r.record.ledger() == Map::<Seq<char>, DeployedModel>::empty()
                        &&& r.record.spec_status() == DeploymentStatusModel::Failed(
                            "no target root configured"@,
                        )
                        &&& r.actions@.len() == 0
                    },
                    Some(root) => {
                        let run = run_spec(
                            profile.dotfiles_model(),
                            kinds_view(kinds@),
                            root,
                            names_view(existing@),
                            pairs_view(failures@),
                            answers@,
                        );
                        &&& r.record.ledger() == run.ledger
                        &&& actions_view(r.actions@) == run.actions
                        &&& r.record.spec_status() == (if run.aborted {
                            DeploymentStatusModel::Failed("deployment aborted by user"@)
                        } else {
                            DeploymentStatusModel::Success
                        })
                    },
                }
            }),
    {
        let builder = Deployment::build();
        let root: String = match profile.target_path() {
            None => {
                let record = builder.failed(String::from_str("no target root configured"));
                return DeployOutcome { record, actions: Vec::new() };
            },
            Some(t) => t.clone(),
        };
        let ghost entries_m = profile.dotfiles_model();
        let ghost kinds_m = kinds_view(kinds@);
        let ghost existing_m = names_view(existing@);
        let ghost failures_m = pairs_view(failures@);
        let mut builder = builder;
        let entries = profile.dotfiles();
        let n = entries.len();
        let mut actions: Vec<Action> = Vec::new();
        let mut used: usize = 0;
        let mut aborted: bool = false;
        let mut i: usize = 0;
        proof {
            assert(actions_view(actions@) =~= Seq::<ActionModel>::empty());
        }
        while i < n && !aborted
            invariant
                i <= n,
                n == entries@.len(),
                items_view(entries@) == entries_m,
                kinds_m == kinds_view(kinds@),
                kinds@.len() == entries_m.len(),
                existing_m == names_view(existing@),
                failures_m == pairs_view(failures@),
                used <= answers@.len(),
                ({
                    let st = run_upto(
                        entries_m,
                        kinds_m,
                        root@,
                        existing_m,
                        failures_m,
                        answers@,
                        i as int,
                    );
                    &&& builder.ledger() == st.ledger
                    &&& actions_view(actions@) == st.actions
                    &&& used as nat == st.used
                    &&& aborted == st.aborted
                }),
            decreases n - i,
        {
            let ghost st_pre = run_upto(
                entries_m,
                kinds_m,
                root@,
                existing_m,
                failures_m,
                answers@,
                i as int,
            );
            let entry = &entries[i];
            proof {
                assert(entry@ == entries_m[i as int]);
                assert(kinds@[i as int]@ == kinds_m[i as int]);
            }
            let target: String = match &entry.target {
                Some(t) => t.clone(),
                None => join_path(&root, &entry.path),
            };
            proof {
                assert(target@ == target_path_of(entries_m[i as int], root@));
            }
            let mut lose = false;
            match builder.find(&target) {
                None => {},
                Some(d) => {
                    let claim: Option<crate::item::Priority> = match &d.kind {
                        DeployedItemKind::Item(it) => it.priority,
                        DeployedItemKind::Child(_) => None,
                    };
                    let win = match (entry.priority, claim) {
                        (Some(a), Some(b)) => a.value > b.value,
                        (Some(_), None) => true,
                        _ => false,
                    };
                    lose = !win;
                },
            }
            if lose {
                insert_record(
                    &mut builder,
                    target,
                    DeployedItemKind::Item(entry.duplicate()),
                    ItemStatus::failed(String::from_str("superseded by higher-priority entry")),
                );
            } else {
                let strat: MergeStrategy = match entry.merge {
                    Some(s) => s,
                    None => MergeStrategy::Overwrite,
                };
                match &kinds[i] {
                    SourceKind::File => {
                        exec_file_step(
                            &mut builder,
                            &mut actions,
                            &mut used,
                            &mut aborted,
                            target,
                            entry.path.clone(),
                            strat,
                            DeployedItemKind::Item(entry.duplicate()),
                            existing,
                            failures,
                            answers,
                        );
                    },
                    SourceKind::Directory(children) => {
                        let status = match assoc_get(failures, &target) {
                            Some(reason) => ItemStatus::failed(reason.clone()),
                            None => ItemStatus::success(),
                        };
                        insert_record(
                            &mut builder,
                            target.clone(),
                            DeployedItemKind::Item(entry.duplicate()),
                            status,
                        );
                        actions.push(Action::CreateDir(target.clone()));
                        proof {
                            assert(actions_view(actions@) =~= st_pre.actions.push(
                                ActionModel::CreateDir(target@),
                            ));
                        }
                        let ghost st_dir = RunState {
                            ledger: builder.ledger(),
                            actions: actions_view(actions@),
                            used: used as nat,
                            aborted: false,
                        };
                        let ghost children_m = names_view(children@);
                        let ghost strat_m = strat;
                        let cn = children.len();
                        let mut j: usize = 0;
                        while j < cn && !aborted
                            invariant
                                j <= cn,
                                cn == children@.len(),
                                i < n,
                                n == entries@.len(),
                                items_view(entries@) == entries_m,
                                entry@ == entries_m[i as int],
                                strat == strat_m,
                                children_m == names_view(children@),
                                existing_m == names_view(existing@),
                                failures_m == pairs_view(failures@),
                                used <= answers@.len(),
                                ({
                                    let st = RunState {
                                        ledger: builder.ledger(),
                                        actions: actions_view(actions@),
                                        used: used as nat,
                                        aborted,
                                    };
                                    children_steps(
                                        st_dir,
                                        children_m,
                                        0,
                                        target@,
                                        entries_m[i as int].path,
                                        strat_m,
                                        existing_m,
                                        failures_m,
                                        answers@,
                                    ) == children_steps(
                                        st,
                                        children_m,
                                        j as nat,
                                        target@,
                                        entries_m[i as int].path,
                                        strat_m,
                                        existing_m,
                                        failures_m,
                                        answers@,
                                    )
                                }),
                            decreases cn - j,
                        {
                            let ghost st_old = RunState {
                                ledger: builder.ledger(),
                                actions: actions_view(actions@),
                                used: used as nat,
                                aborted: false,
                            };
                            let child_target = join_path(&target, &children[j]);
                            let child_source = join_path(&entry.path, &children[j]);
                            let record = DeployedItemKind::Child(target.clone());
                            let ghost ct = child_target@;
                            let ghost cs = child_source@;
                            let ghost rm = record@;
                            proof {
                                assert(children_m[j as int] == children@[j as int]@);
                                assert(ct == target@ + "/"@ + children_m[j as int]);
                                assert(cs == entries_m[i as int].path + "/"@ + children_m[
                                    j as int]);
                                assert(rm == DeployedKindModel::Child(target@));
                            }
                            exec_file_step(
                                &mut builder,
                                &mut actions,
                                &mut used,
                                &mut aborted,
                                child_target,
                                child_source,
                                strat,
                                record,
                                existing,
                                failures,
                                answers,
                            );
                            proof {
                                let st_new = RunState {
                                    ledger: builder.ledger(),
                                    actions: actions_view(actions@),
                                    used: used as nat,
                                    aborted,
                                };
                                let st1 = file_step(
                                    st_old,
                                    ct,
                                    cs,
                                    strat_m,
                                    rm,
                                    existing_m,
                                    failures_m,
                                    answers@,
                                );
                                assert(st_new.ledger == st1.ledger);
                                assert(st_new.actions == st1.actions);
                                assert(st_new.used == st1.used);
                                assert(st_new.aborted == st1.aborted);
                                assert(st_new == st1);
                                assert(children_steps(
                                    st_old,
                                    children_m,
                                    j as nat,
                                    target@,
                                    entries_m[i as int].path,
                                    strat_m,
                                    existing_m,
                                    failures_m,
                                    answers@,
                                ) == children_steps(
                                    st_new,
                                    children_m,
                                    (j + 1) as nat,
                                    target@,
                                    entries_m[i as int].path,
                                    strat_m,
                                    existing_m,
                                    failures_m,
                                    answers@,
                                ));
                            }
                            j = j + 1;
                        }
                        proof {
                            let st_now = RunState {
                                ledger: builder.ledger(),
                                actions: actions_view(actions@),
                                used: used as nat,
                                aborted,
                            };
                            if aborted {
                                lemma_children_abort_halts(
                                    st_now,
                                    children_m,
                                    j as nat,
                                    target@,
                                    entries_m[i as int].path,
                                    strat_m,
                                    existing_m,
                                    failures_m,
                                    answers@,
                                );
                            }
                        }
                    },
                }
            }
            i = i + 1;
        }
        proof {
            if aborted && i < n {
                lemma_abort_halts(
                    entries_m,
                    kinds_m,
                    root@,
                    existing_m,
                    failures_m,
                    answers@,
                    i as int,
                    n as int,
                );
            }
        }
        let record = if aborted {
            builder.failed(String::from_str("deployment aborted by user"))
        } else {
            builder.success()
        };
        DeployOutcome { record, actions }
    }
}

} // verus!
