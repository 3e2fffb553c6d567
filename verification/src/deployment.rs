//! The per-run ledger of deployed items and the frozen deployment record.
//!
//! A builder collects one record per touched target path (last write wins) and
//! is frozen into an immutable `Deployment` when the run ends. Records form
//! parent chains: a `Child` record refers to the target path of the entry it
//! was expanded from, and lookups follow that chain without ever looping.

use vstd::prelude::*;
use vstd::string::StringExecFns;

use crate::item::{
    DeployedItem, DeployedItemKind, DeployedKindModel, DeployedModel, Item, ItemModel, ItemStatus,
    ItemStatusModel, Priority,
};

verus! {

/// Overall outcome of one deployment run.
#[derive(Debug)]
pub enum DeploymentStatus {
    Success,
    Failed(String),
}

/// Mathematical model of the overall outcome.
pub ghost enum DeploymentStatusModel {
    Success,
    Failed(Seq<char>),
}

impl View for DeploymentStatus {
    type V = DeploymentStatusModel;

    open spec fn view(&self) -> DeploymentStatusModel {
        match self {
            DeploymentStatus::Success => DeploymentStatusModel::Success,
            DeploymentStatus::Failed(reason) => DeploymentStatusModel::Failed(reason@),
        }
    }
}

impl DeploymentStatus {
    pub fn success() -> (r: Self)
        ensures
            r@ is Success,
    {
        DeploymentStatus::Success
    }

    pub fn failed(reason: String) -> (r: Self)
        ensures
            r@ == DeploymentStatusModel::Failed(reason@),
    {
        DeploymentStatus::Failed(reason)
    }

    pub fn is_success(&self) -> (r: bool)
        ensures
            r == (self@ is Success),
    {
        matches!(self, DeploymentStatus::Success)
    }

    pub fn is_failed(&self) -> (r: bool)
        ensures
            r == (self@ is Failed),
    {
        matches!(self, DeploymentStatus::Failed(_))
    }

    /// The human-readable form of the status.
    pub fn message(&self) -> (r: String)
        ensures
            r@ == (match self@ {
                DeploymentStatusModel::Success => "Success"@,
                DeploymentStatusModel::Failed(reason) => "Failed: "@ + reason,
            }),
    {
        match self {
            DeploymentStatus::Success => String::from_str("Success"),
            DeploymentStatus::Failed(reason) => String::from_str("Failed: ").concat(
                reason.as_str(),
            ),
        }
    }
}

/// The record found for a path in a sequence of ledger records, where a later
/// record supersedes an earlier one for the same path.
pub open spec fn seq_lookup(s: Seq<(String, DeployedItem)>, p: Seq<char>) -> Option<DeployedModel>
    decreases s.len(),
{
    if s.len() == 0 {
        None
    } else if s.last().0@ == p {
        Some(s.last().1@)
    } else {
        seq_lookup(s.drop_last(), p)
    }
}

/// The ledger that a sequence of records stands for: a mapping from target
/// path to the last record written for that path.
pub open spec fn ledger_of(s: Seq<(String, DeployedItem)>) -> Map<Seq<char>, DeployedModel> {
    Map::new(
        |p: Seq<char>| seq_lookup(s, p) is Some,
        |p: Seq<char>| match seq_lookup(s, p) {
            Some(d) => d,
            None => arbitrary(),
        },
    )
}

pub proof fn lemma_seq_lookup_push(s: Seq<(String, DeployedItem)>, x: (String, DeployedItem), p: Seq<char>)
    ensures
        seq_lookup(s.push(x), p) == (if x.0@ == p {
            Some(x.1@)
        } else {
            seq_lookup(s, p)
        }),
{
    assert(s.push(x).drop_last() =~= s);
    assert(s.push(x).last() == x);
}

pub proof fn lemma_ledger_push(s: Seq<(String, DeployedItem)>, x: (String, DeployedItem))
    ensures
        ledger_of(s.push(x)) == ledger_of(s).insert(x.0@, x.1@),
{
    assert forall|p: Seq<char>| true implies seq_lookup(s.push(x), p) == (if x.0@ == p {
        Some(x.1@)
    } else {
        seq_lookup(s, p)
    }) by {
        lemma_seq_lookup_push(s, x, p);
    }
    assert(ledger_of(s.push(x)) =~= ledger_of(s).insert(x.0@, x.1@));
}

/// Resolution of a target path to the dotfile entry it descends from: follow
/// `Child` links until an `Item` record, for at most `fuel` lookups. A path
/// whose chain is broken, longer than the fuel allows, or cyclic resolves to
/// nothing.
pub open spec fn chain_lookup(m: Map<Seq<char>, DeployedModel>, p: Seq<char>, fuel: nat) -> Option<
    ItemModel,
>
    decreases fuel,
{
    if fuel == 0 {
        None
    } else if !m.contains_key(p) {
        None
    } else {
        match m[p].kind {
            DeployedKindModel::Item(it) => Some(it),
            DeployedKindModel::Child(parent) => chain_lookup(m, parent, (fuel - 1) as nat),
        }
    }
}

/// Like [`chain_lookup`], but resolves to nothing as soon as any record on the
/// chain was not recorded successful.
pub open spec fn chain_deployed(m: Map<Seq<char>, DeployedModel>, p: Seq<char>, fuel: nat) -> Option<
    ItemModel,
>
    decreases fuel,
{
    if fuel == 0 {
        None
    } else if !m.contains_key(p) {
        None
    } else if !(m[p].status is Success) {
        None
    } else {
        match m[p].kind {
            DeployedKindModel::Item(it) => Some(it),
            DeployedKindModel::Child(parent) => chain_deployed(m, parent, (fuel - 1) as nat),
        }
    }
}

/// Every record that the chain walk from `p` visits carries a successful
/// status, as far as the fuel reaches.
pub open spec fn chain_all_success(m: Map<Seq<char>, DeployedModel>, p: Seq<char>, fuel: nat) -> bool
    decreases fuel,
{
    if fuel == 0 {
        true
    } else if !m.contains_key(p) {
        true
    } else {
        &&& m[p].status is Success
        &&& match m[p].kind {
            DeployedKindModel::Item(it) => true,
            DeployedKindModel::Child(parent) => chain_all_success(m, parent, (fuel - 1) as nat),
        }
    }
}

/// A parent chain in a ledger: consecutive paths, each holding a child record
/// that refers to the next, ending in an item record.
pub open spec fn is_chain(
    m: Map<Seq<char>, DeployedModel>,
    chain: Seq<Seq<char>>,
    it: ItemModel,
) -> bool {
    &&& chain.len() >= 1
    &&& forall|i: int|
        0 <= i < chain.len() - 1 ==> #[trigger] m.contains_key(chain[i]) && m[chain[i]].kind
            == DeployedKindModel::Child(chain[i + 1])
    &&& m.contains_key(chain.last())
    &&& m[chain.last()].kind == DeployedKindModel::Item(it)
}

/// Resolving the head of a parent chain yields the item at the chain's end
/// whenever the walk is given at least as much fuel as the chain has links:
/// a chain of bounded depth always resolves and the walk never loops.
pub proof fn lemma_chain_resolves(
    m: Map<Seq<char>, DeployedModel>,
    chain: Seq<Seq<char>>,
    it: ItemModel,
    fuel: nat,
)
    requires
        is_chain(m, chain, it),
        fuel >= chain.len(),
    ensures
        chain_lookup(m, chain[0], fuel) == Some(it),
    decreases chain.len(),
{
    if chain.len() == 1 {
        assert(chain[0] == chain.last());
    } else {
        let rest = chain.drop_first();
        assert(rest.last() == chain.last());
        assert forall|i: int| 0 <= i < rest.len() - 1 implies #[trigger] m.contains_key(rest[i])
            && m[rest[i]].kind == DeployedKindModel::Child(rest[i + 1]) by {
            assert(rest[i] == chain[i + 1]);
            assert(rest[i + 1] == chain[i + 2]);
        }
        lemma_chain_resolves(m, rest, it, (fuel - 1) as nat);
        assert(m.contains_key(chain[0]));
        assert(m[chain[0]].kind == DeployedKindModel::Child(chain[1]));
        assert(rest[0] == chain[1]);
    }
}

/// A deployed-item lookup resolves exactly when the plain chain lookup
/// resolves and every record on the walk is successful, and it then yields
/// the same item.
pub proof fn lemma_deployed_iff_success(m: Map<Seq<char>, DeployedModel>, p: Seq<char>, fuel: nat)
    ensures
        (chain_deployed(m, p, fuel) is Some) <==> ((chain_lookup(m, p, fuel) is Some)
            && chain_all_success(m, p, fuel)),
        chain_deployed(m, p, fuel) is Some ==> chain_deployed(m, p, fuel) == chain_lookup(
            m,
            p,
            fuel,
        ),
    decreases fuel,
{
    if fuel == 0 {
    } else if !m.contains_key(p) {
    } else {
        match m[p].kind {
            DeployedKindModel::Item(it) => {},
            DeployedKindModel::Child(parent) => {
                lemma_deployed_iff_success(m, parent, (fuel - 1) as nat);
            },
        }
    }
}

/// Relies on chrono's `Utc::now` and `DateTime::timestamp_millis` for the
/// moment of the call, as non-leap milliseconds since the Unix epoch.
/// chrono's representable date range of about ±262000 years keeps the value
/// well within ±16e15.
#[verifier::external_body]
fn now_timestamp_millis() -> (r: i64)
    ensures
        -16_000_000_000_000_000 <= r <= 16_000_000_000_000_000,
{
    chrono::Utc::now().timestamp_millis()
}

/// Immutable summary of one finished run: start and end instant (both in
/// milliseconds since the Unix epoch), overall status, and the full ledger.
#[derive(Debug)]
pub struct Deployment {
    time_start: i64,
    time_end: i64,
    status: DeploymentStatus,
    items: Vec<(String, DeployedItem)>,
}

impl Deployment {
    /// The records written during the run, in the order they were written.
    pub closed spec fn records(&self) -> Seq<(String, DeployedItem)> {
        self.items@
    }

    /// The ledger: one entry per distinct target path, the last record
    /// written for it.
    pub open spec fn ledger(&self) -> Map<Seq<char>, DeployedModel> {
        ledger_of(self.records())
    }

    pub closed spec fn spec_time_start(&self) -> int {
        self.time_start as int
    }

    pub closed spec fn spec_time_end(&self) -> int {
        self.time_end as int
    }

    pub closed spec fn spec_status(&self) -> DeploymentStatusModel {
        self.status@
    }

    /// Start of the run, in milliseconds since the Unix epoch.
    pub fn time_start(&self) -> (r: i64)
        ensures
            r == self.spec_time_start(),
    {
        self.time_start
    }

    /// End of the run, in milliseconds since the Unix epoch.
    pub fn time_end(&self) -> (r: i64)
        ensures
            r == self.spec_time_end(),
    {
        self.time_end
    }

    /// How long the run took, in milliseconds.
    pub fn duration(&self) -> (r: i128)
        ensures
            r == self.spec_time_end() - self.spec_time_start(),
    {
        (self.time_end as i128) - (self.time_start as i128)
    }

    pub fn status(&self) -> (r: &DeploymentStatus)
        ensures
            r@ == self.spec_status(),
    {
        &self.status
    }

    /// The raw records behind the ledger, in the order they were written; a
    /// later record for a path supersedes an earlier one.
    pub fn items(&self) -> (r: &Vec<(String, DeployedItem)>)
        ensures
            r@ == self.records(),
    {
        &self.items
    }

    /// A fresh builder for a new run, with an empty ledger and the start
    /// instant taken now.
    pub fn build() -> (r: DeploymentBuilder)
        ensures
            r.records() == Seq::<(String, DeployedItem)>::empty(),
            r.ledger() == Map::<Seq<char>, DeployedModel>::empty(),
    {
        DeploymentBuilder::default()
    }
}

/// Incrementally collects the ledger of one run; frozen into a `Deployment`
/// by [`DeploymentBuilder::success`] or [`DeploymentBuilder::failed`].
#[must_use]
#[derive(Debug)]
pub struct DeploymentBuilder {
    time_start: i64,
    items: Vec<(String, DeployedItem)>,
}

impl DeploymentBuilder {
    /// The records written so far, in the order they were written.
    pub closed spec fn records(&self) -> Seq<(String, DeployedItem)> {
        self.items@
    }

    /// The ledger so far: one entry per distinct target path, the last
    /// record written for it.
    pub open spec fn ledger(&self) -> Map<Seq<char>, DeployedModel> {
        ledger_of(self.records())
    }

    pub closed spec fn spec_time_start(&self) -> int {
        self.time_start as int
    }

    /// Fuel that certainly lets a chain walk cross every distinct record
    /// once: chains outlasting it revisit a path and would loop forever.
    pub open spec fn walk_fuel(&self) -> nat {
        (self.records().len() + 1) as nat
    }

    /// Record an outcome for a dotfile entry of its own, superseding any
    /// earlier record for the same target path.
    pub fn add_item(&mut self, path: String, item: Item, status: ItemStatus)
        ensures
            final(self).ledger() == old(self).ledger().insert(
                path@,
                DeployedModel { kind: DeployedKindModel::Item(item@), status: status@ },
            ),
            final(self).records().len() == old(self).records().len() + 1,
            final(self).spec_time_start() == old(self).spec_time_start(),
    {
        let record = DeployedItem { kind: DeployedItemKind::Item(item), status };
        let ghost pre = self.items@;
        self.items.push((path, record));
        proof {
            lemma_ledger_push(pre, self.items@.last());
        }
    }

    /// Record an outcome for a file that a directory entry expanded to,
    /// referring back to the parent entry's target path.
    pub fn add_child(&mut self, path: String, parent: String, status: ItemStatus)
        ensures
            final(self).ledger() == old(self).ledger().insert(
                path@,
                DeployedModel { kind: DeployedKindModel::Child(parent@), status: status@ },
            ),
            final(self).records().len() == old(self).records().len() + 1,
            final(self).spec_time_start() == old(self).spec_time_start(),
    {
        let record = DeployedItem { kind: DeployedItemKind::Child(parent), status };
        let ghost pre = self.items@;
        self.items.push((path, record));
        proof {
            lemma_ledger_push(pre, self.items@.last());
        }
    }

    /// The last record written for a path, if any.
    pub(crate) fn find(&self, path: &String) -> (r: Option<&DeployedItem>)
        ensures
            match r {
                Some(d) => seq_lookup(self.records(), path@) == Some(d@),
                None => seq_lookup(self.records(), path@) is None,
            },
    {
        let mut i: usize = self.items.len();
        proof {
            assert(self.items@.take(i as int) =~= self.items@);
        }
        while i > 0
            invariant
                i <= self.items@.len(),
                seq_lookup(self.items@, path@) == seq_lookup(self.items@.take(i as int), path@),
            decreases i,
        {
            let j = i - 1;
            let pair = &self.items[j];
            proof {
                assert(self.items@.take(i as int).last() == self.items@[j as int]);
                assert(self.items@.take(i as int).drop_last() =~= self.items@.take(j as int));
            }
            if pair.0 == *path {
                return Some(&pair.1);
            }
            i = j;
        }
        None
    }

    /// Whether any record exists for this target path.
    pub fn contains(&self, path: &String) -> (r: bool)
        ensures
            r == self.ledger().contains_key(path@),
    {
        match self.find(path) {
            Some(_) => true,
            None => false,
        }
    }

    /// The dotfile entry a target path descends from: the record itself, or,
    /// for a directory-expanded file, the entry of the directory it came
    /// from, found by following the parent chain. A broken or cyclic chain
    /// yields nothing; the walk never loops.
    pub fn get_item(&self, path: &String) -> (r: Option<&Item>)
        ensures
            match r {
                Some(item) => chain_lookup(self.ledger(), path@, self.walk_fuel()) == Some(item@),
                None => chain_lookup(self.ledger(), path@, self.walk_fuel()) is None,
            },
    {
        let ghost m = self.ledger();
        let mut cur: &String = path;
        let mut fuel: usize = self.items.len();
        loop
            invariant
                m == self.ledger(),
                chain_lookup(m, path@, self.walk_fuel()) == chain_lookup(m, cur@, fuel as nat + 1),
            decreases fuel,
        {
            match self.find(cur) {
                None => {
                    return None;
                },
                Some(d) => {
                    proof {
                        assert(m.contains_key(cur@) && m[cur@] == d@);
                    }
                    match &d.kind {
                        DeployedItemKind::Item(item) => {
                            return Some(item);
                        },
                        DeployedItemKind::Child(parent) => {
                            proof {
                                assert(chain_lookup(m, cur@, fuel as nat + 1) == chain_lookup(
                                    m,
                                    parent@,
                                    fuel as nat,
                                ));
                            }
                            if fuel == 0 {
                                proof {
                                    assert(chain_lookup(m, parent@, 0nat) is None);
                                }
                                return None;
                            }
                            fuel = fuel - 1;
                            cur = parent;
                        },
                    }
                },
            }
        }
    }

    /// Like [`DeploymentBuilder::get_item`], but only when every record on
    /// the chain, the queried one included, was recorded successful.
    pub fn get_deployed_item(&self, path: &String) -> (r: Option<&Item>)
        ensures
            match r {
                Some(item) => chain_deployed(self.ledger(), path@, self.walk_fuel()) == Some(
                    item@,
                ),
                None => chain_deployed(self.ledger(), path@, self.walk_fuel()) is None,
            },
    {
        let ghost m = self.ledger();
        let mut cur: &String = path;
        let mut fuel: usize = self.items.len();
        loop
            invariant
                m == self.ledger(),
                chain_deployed(m, path@, self.walk_fuel()) == chain_deployed(
                    m,
                    cur@,
                    fuel as nat + 1,
                ),
            decreases fuel,
        {
            match self.find(cur) {
                None => {
                    return None;
                },
                Some(d) => {
                    proof {
                        assert(m.contains_key(cur@) && m[cur@] == d@);
                    }
                    if !d.status.is_success() {
                        return None;
                    }
                    match &d.kind {
                        DeployedItemKind::Item(item) => {
                            return Some(item);
                        },
                        DeployedItemKind::Child(parent) => {
                            proof {
                                assert(chain_deployed(m, cur@, fuel as nat + 1) == chain_deployed(
                                    m,
                                    parent@,
                                    fuel as nat,
                                ));
                            }
                            if fuel == 0 {
                                proof {
                                    assert(chain_deployed(m, parent@, 0nat) is None);
                                }
                                return None;
                            }
                            fuel = fuel - 1;
                            cur = parent;
                        },
                    }
                },
            }
        }
    }

    /// The priority of the entry a fully deployed path descends from.
    pub fn get_priority(&self, path: &String) -> (r: Option<Option<Priority>>)
        ensures
            ({
                let resolved = chain_deployed(self.ledger(), path@, self.walk_fuel());
                match (r, resolved) {
                    (Some(p), Some(it)) => crate::item::opt_priority_model(p) == it.priority,
                    (None, None) => true,
                    _ => false,
                }
            }),
    {
        match self.get_deployed_item(path) {
            Some(item) => Some(item.priority),
            None => None,
        }
    }

    /// Whether the record for this path, on its own, was recorded
    /// successful; nothing when the path has no record.
    pub fn is_deployed(&self, path: &String) -> (r: Option<bool>)
        ensures
            ({
                let l = self.ledger();
                match r {
                    Some(b) => l.contains_key(path@) && b == l[path@].status.is_success(),
                    None => !l.contains_key(path@),
                }
            }),
    {
        match self.find(path) {
            Some(d) => Some(d.status.is_success()),
            None => None,
        }
    }

    /// Freeze the ledger into a record of an overall successful run, ending
    /// now.
    pub fn success(self) -> (r: Deployment)
        ensures
            r.records() == self.records(),
            r.spec_status() is Success,
            r.spec_time_start() == self.spec_time_start(),
    {
        let time_end = now_timestamp_millis();
        Deployment {
            time_start: self.time_start,
            time_end,
            status: DeploymentStatus::Success,
            items: self.items,
        }
    }

    /// Freeze the ledger into a record of an overall failed run, ending now.
    pub fn failed(self, reason: String) -> (r: Deployment)
        ensures
            r.records() == self.records(),
            r.spec_status() == DeploymentStatusModel::Failed(reason@),
            r.spec_time_start() == self.spec_time_start(),
    {
        let time_end = now_timestamp_millis();
        Deployment {
            time_start: self.time_start,
            time_end,
            status: DeploymentStatus::Failed(reason),
            items: self.items,
        }
    }
}

impl Default for DeploymentBuilder {
    /// A fresh builder: empty ledger, start instant taken now.
    fn default() -> (r: Self)
        ensures
            r.records() == Seq::<(String, DeployedItem)>::empty(),
            r.ledger() == Map::<Seq<char>, DeployedModel>::empty(),
    {
        let r = DeploymentBuilder { time_start: now_timestamp_millis(), items: Vec::new() };
        proof {
            assert(r.ledger() =~= Map::<Seq<char>, DeployedModel>::empty());
        }
        r
    }
}

} // verus!
