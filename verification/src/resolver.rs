//! Layered profile resolution: an ordered list of named profile layers,
//! highest priority first, is merged into one effective profile, following
//! import references depth-first with cycle detection.

use vstd::prelude::*;

use crate::assoc::{
    assoc, contains_name, lemma_assoc_none, lemma_assoc_push, names_view, opt_name_view,
    pairs_view, unique_keys,
};
use crate::assoc::assoc_get;
use crate::item::{Item, ItemModel, items_view};

verus! {

/// One named, partially specified configuration layer.
#[derive(Debug)]
pub struct SimpleProfile {
    /// Target root below which relative dotfile paths land.
    pub target: Option<String>,
    /// Variable name to value, keys unique.
    pub variables: Vec<(String, String)>,
    /// Dotfile entries, in declaration order.
    pub dotfiles: Vec<Item>,
    /// Names of profiles this one imports, resolved depth-first.
    pub imports: Vec<String>,
    /// Command run before deployment, where configured.
    pub pre_hook: Option<String>,
    /// Command run after deployment, where configured.
    pub post_hook: Option<String>,
}

/// Mathematical model of one layer.
pub ghost struct ProfileModel {
    pub target: Option<Seq<char>>,
    pub variables: Seq<(Seq<char>, Seq<char>)>,
    pub dotfiles: Seq<ItemModel>,
    pub imports: Seq<Seq<char>>,
    pub pre_hook: Option<Seq<char>>,
    pub post_hook: Option<Seq<char>>,
}

impl View for SimpleProfile {
    type V = ProfileModel;

    open spec fn view(&self) -> ProfileModel {
        ProfileModel {
            target: opt_name_view(self.target),
            variables: pairs_view(self.variables@),
            dotfiles: items_view(self.dotfiles@),
            imports: names_view(self.imports@),
            pre_hook: opt_name_view(self.pre_hook),
            post_hook: opt_name_view(self.post_hook),
        }
    }
}

impl Default for SimpleProfile {
    /// A layer that specifies nothing.
    fn default() -> (r: Self)
        ensures
            r.target is None,
            r.variables@.len() == 0,
            r.dotfiles@.len() == 0,
            r.imports@.len() == 0,
            r.pre_hook is None,
            r.post_hook is None,
    {
        SimpleProfile {
            target: None,
            variables: Vec::new(),
            dotfiles: Vec::new(),
            imports: Vec::new(),
            pre_hook: None,
            post_hook: None,
        }
    }
}

fn dup_opt_string(o: &Option<String>) -> (r: Option<String>)
    ensures
        r == *o,
{
    match o {
        Some(s) => Some(s.clone()),
        None => None,
    }
}

fn dup_pairs(v: &Vec<(String, String)>) -> (r: Vec<(String, String)>)
    ensures
        r@ == v@,
{
    let n = v.len();
    let mut r: Vec<(String, String)> = Vec::new();
    let mut i: usize = 0;
    while i < n
        invariant
            i <= n,
            n == v@.len(),
            r@ == v@.take(i as int),
        decreases n - i,
    {
        let pair = &v[i];
        r.push((pair.0.clone(), pair.1.clone()));
        proof {
            assert(v@.take(i as int).push(v@[i as int]) =~= v@.take(i as int + 1));
        }
        i = i + 1;
    }
    proof {
        assert(v@.take(n as int) =~= v@);
    }
    r
}

fn dup_names(v: &Vec<String>) -> (r: Vec<String>)
    ensures
        r@ == v@,
{
    let n = v.len();
    let mut r: Vec<String> = Vec::new();
    let mut i: usize = 0;
    while i < n
        invariant
            i <= n,
            n == v@.len(),
            r@ == v@.take(i as int),
        decreases n - i,
    {
        r.push(v[i].clone());
        proof {
            assert(v@.take(i as int).push(v@[i as int]) =~= v@.take(i as int + 1));
        }
        i = i + 1;
    }
    proof {
        assert(v@.take(n as int) =~= v@);
    }
    r
}

fn dup_items(v: &Vec<Item>) -> (r: Vec<Item>)
    ensures
        r@ == v@,
{
    let n = v.len();
    let mut r: Vec<Item> = Vec::new();
    let mut i: usize = 0;
    while i < n
        invariant
            i <= n,
            n == v@.len(),
            r@ == v@.take(i as int),
        decreases n - i,
    {
        r.push(v[i].duplicate());
        proof {
            assert(v@.take(i as int).push(v@[i as int]) =~= v@.take(i as int + 1));
        }
        i = i + 1;
    }
    proof {
        assert(v@.take(n as int) =~= v@);
    }
    r
}

impl SimpleProfile {
    /// A copy of this layer that stands for the same model.
    pub fn duplicate(&self) -> (r: Self)
        ensures
            r@ == self@,
            r.target == self.target,
            r.pre_hook == self.pre_hook,
            r.post_hook == self.post_hook,
            r.variables@ == self.variables@,
            r.dotfiles@ == self.dotfiles@,
            r.imports@ == self.imports@,
    {
        SimpleProfile {
            target: dup_opt_string(&self.target),
            variables: dup_pairs(&self.variables),
            dotfiles: dup_items(&self.dotfiles),
            imports: dup_names(&self.imports),
            pre_hook: dup_opt_string(&self.pre_hook),
            post_hook: dup_opt_string(&self.post_hook),
        }
    }
}

/// The models of a sequence of named layers.
pub open spec fn sources_view(s: Seq<(String, SimpleProfile)>) -> Seq<(Seq<char>, ProfileModel)> {
    s.map_values(|p: (String, SimpleProfile)| (p.0@, p.1@))
}

/// The bare layer models of a named layer sequence, in priority order.
pub open spec fn layer_models(s: Seq<(Seq<char>, ProfileModel)>) -> Seq<ProfileModel> {
    s.map_values(|p: (Seq<char>, ProfileModel)| p.1)
}

/// The first defined value of an optional per-layer field, scanning layers
/// from highest priority down.
pub open spec fn first_defined(
    layers: Seq<ProfileModel>,
    f: spec_fn(ProfileModel) -> Option<Seq<char>>,
) -> Option<Seq<char>>
    decreases layers.len(),
{
    if layers.len() == 0 {
        None
    } else {
        match first_defined(layers.drop_last(), f) {
            Some(v) => Some(v),
            None => f(layers.last()),
        }
    }
}

/// The effective target root: the first layer in priority order that defines
/// one wins.
pub open spec fn spec_first_target(layers: Seq<ProfileModel>) -> Option<Seq<char>> {
    first_defined(layers, |m: ProfileModel| m.target)
}

/// The effective value of a variable: the value of the highest-priority layer
/// that defines the key; keys no layer defines stay undefined.
pub open spec fn merged_var(layers: Seq<ProfileModel>, k: Seq<char>) -> Option<Seq<char>>
    decreases layers.len(),
{
    if layers.len() == 0 {
        None
    } else {
        match merged_var(layers.drop_last(), k) {
            Some(v) => Some(v),
            None => assoc(layers.last().variables, k),
        }
    }
}

/// All dotfile entries of all layers, in priority order, duplicates kept.
pub open spec fn all_dotfiles(layers: Seq<ProfileModel>) -> Seq<ItemModel>
    decreases layers.len(),
{
    if layers.len() == 0 {
        Seq::empty()
    } else {
        all_dotfiles(layers.drop_last()) + layers.last().dotfiles
    }
}

/// The sequence with later exact duplicates removed: each entry keeps its
/// first occurrence.
pub open spec fn dedup_items(s: Seq<ItemModel>) -> Seq<ItemModel>
    decreases s.len(),
{
    if s.len() == 0 {
        s
    } else {
        let rest = dedup_items(s.drop_last());
        if s.drop_last().contains(s.last()) {
            rest
        } else {
            rest.push(s.last())
        }
    }
}

/// No entry occurs twice in the sequence.
pub open spec fn distinct_items(s: Seq<ItemModel>) -> bool {
    forall|i: int, j: int| 0 <= i < j < s.len() ==> s[i] != s[j]
}

pub proof fn lemma_items_contains_push(s: Seq<ItemModel>, x: ItemModel, y: ItemModel)
    ensures
        s.push(x).contains(y) <==> (s.contains(y) || x == y),
{
    if s.contains(y) {
        let i = choose|i: int| 0 <= i < s.len() && s[i] == y;
        assert(s.push(x)[i] == y);
    }
    if x == y {
        assert(s.push(x)[s.len() as int] == y);
    }
    if s.push(x).contains(y) {
        let i = choose|i: int| 0 <= i < s.push(x).len() && s.push(x)[i] == y;
        if i < s.len() {
            assert(s[i] == y);
        }
    }
}

/// Deduplication keeps exactly the entries of the sequence.
pub proof fn lemma_dedup_items_contains(s: Seq<ItemModel>, x: ItemModel)
    ensures
        dedup_items(s).contains(x) <==> s.contains(x),
    decreases s.len(),
{
    if s.len() == 0 {
    } else {
        let rest = s.drop_last();
        lemma_dedup_items_contains(rest, x);
        lemma_items_contains_push(dedup_items(rest), s.last(), x);
        lemma_items_contains_push(rest, s.last(), x);
        assert(rest.push(s.last()) =~= s);
        if rest.contains(s.last()) && s.last() == x {
            assert(s.contains(x));
        }
    }
}

/// Deduplication leaves no entry twice.
pub proof fn lemma_dedup_items_distinct(s: Seq<ItemModel>)
    ensures
        distinct_items(dedup_items(s)),
    decreases s.len(),
{
    if s.len() > 0 {
        let rest = s.drop_last();
        lemma_dedup_items_distinct(rest);
        if !rest.contains(s.last()) {
            lemma_dedup_items_contains(rest, s.last());
            let d = dedup_items(rest);
            assert forall|i: int, j: int| 0 <= i < j < d.push(s.last()).len() implies d.push(
                s.last(),
            )[i] != d.push(s.last())[j] by {
                if j < d.len() {
                    assert(d.push(s.last())[i] == d[i] && d.push(s.last())[j] == d[j]);
                } else {
                    assert(d.push(s.last())[i] == d[i]);
                    if d[i] == s.last() {
                        assert(d.contains(s.last()));
                    }
                }
            }
        }
    }
}

/// Why a profile chain could not be resolved.
#[derive(Debug)]
pub enum ResolutionError {
    /// No profile of this name exists among the sources.
    NotFound(String),
    /// A profile body could not be understood; the payload carries the
    /// parse detail.
    Invalid(String),
    /// An import chain revisits a profile that is still being resolved.
    Cycle(String),
}

/// Mathematical model of a resolution error.
pub ghost enum ResolutionErrorModel {
    NotFound(Seq<char>),
    Invalid(Seq<char>),
    Cycle(Seq<char>),
}

impl View for ResolutionError {
    type V = ResolutionErrorModel;

    open spec fn view(&self) -> ResolutionErrorModel {
        match self {
            ResolutionError::NotFound(n) => ResolutionErrorModel::NotFound(n@),
            ResolutionError::Invalid(d) => ResolutionErrorModel::Invalid(d@),
            ResolutionError::Cycle(n) => ResolutionErrorModel::Cycle(n@),
        }
    }
}

/// The profile stored under a name, first match winning.
pub open spec fn src_lookup(sources: Seq<(Seq<char>, ProfileModel)>, name: Seq<char>) -> Option<
    ProfileModel,
>
    decreases sources.len(),
{
    if sources.len() == 0 {
        None
    } else if sources[0].0 == name {
        Some(sources[0].1)
    } else {
        src_lookup(sources.drop_first(), name)
    }
}

fn src_find<'a>(sources: &'a Vec<(String, SimpleProfile)>, name: &String) -> (r: Option<
    &'a SimpleProfile,
>)
    ensures
        match r {
            Some(p) => src_lookup(sources_view(sources@), name@) == Some(p@),
            None => src_lookup(sources_view(sources@), name@) is None,
        },
{
    let n = sources.len();
    let mut i: usize = 0;
    proof {
        assert(sources_view(sources@).subrange(0, n as int) =~= sources_view(sources@));
    }
    while i < n
        invariant
            i <= n,
            n == sources@.len(),
            src_lookup(sources_view(sources@), name@) == src_lookup(
                sources_view(sources@).subrange(i as int, n as int),
                name@,
            ),
        decreases n - i,
    {
        let pair = &sources[i];
        proof {
            assert(sources_view(sources@).subrange(i as int, n as int)[0] == (sources@[
                i as int].0@, sources@[i as int].1@));
            assert(sources_view(sources@).subrange(i as int, n as int).drop_first()
                =~= sources_view(sources@).subrange(i as int + 1, n as int));
        }
        if pair.0 == *name {
            return Some(&pair.1);
        }
        i = i + 1;
    }
    proof {
        assert(sources_view(sources@).subrange(n as int, n as int) =~= Seq::<(
            Seq<char>,
            ProfileModel,
        )>::empty());
    }
    None
}

/// The layers a resolution of `name` contributes, in priority order: the
/// named profile first, then, depth-first, the layers of each import. A name
/// already on the visiting stack is a cycle; a name absent from the sources
/// is unresolvable.
pub open spec fn spec_resolve(
    sources: Seq<(Seq<char>, ProfileModel)>,
    name: Seq<char>,
    stack: Seq<Seq<char>>,
    fuel: nat,
) -> Result<Seq<(Seq<char>, ProfileModel)>, ResolutionErrorModel>
    decreases fuel, 1nat, 0nat,
{
    if stack.contains(name) {
        Err(ResolutionErrorModel::Cycle(name))
    } else {
        match src_lookup(sources, name) {
            None => Err(ResolutionErrorModel::NotFound(name)),
            Some(p) => match spec_resolve_imports(sources, p.imports, stack.push(name), fuel) {
                Err(e) => Err(e),
                Ok(layers) => Ok(seq![(name, p)] + layers),
            },
        }
    }
}

/// The layers contributed by a list of sibling imports, resolved in order.
pub open spec fn spec_resolve_imports(
    sources: Seq<(Seq<char>, ProfileModel)>,
    imports: Seq<Seq<char>>,
    stack: Seq<Seq<char>>,
    fuel: nat,
) -> Result<Seq<(Seq<char>, ProfileModel)>, ResolutionErrorModel>
    decreases fuel, 0nat, imports.len(),
{
    if imports.len() == 0 {
        Ok(Seq::empty())
    } else if fuel == 0 {
        Err(ResolutionErrorModel::Cycle(imports[0]))
    } else {
        match spec_resolve(sources, imports[0], stack, (fuel - 1) as nat) {
            Err(e) => Err(e),
            Ok(first) => match spec_resolve_imports(sources, imports.drop_first(), stack, fuel) {
                Err(e) => Err(e),
                Ok(rest) => Ok(first + rest),
            },
        }
    }
}

/// Collects named layers in priority order; merged by
/// [`LayeredProfileBuilder::finish`].
#[derive(Debug)]
pub struct LayeredProfileBuilder {
    layers: Vec<(String, SimpleProfile)>,
}

/// The effective profile of one run, merged from an ordered list of layers.
#[derive(Debug)]
pub struct LayeredProfile {
    target: Option<String>,
    variables: Vec<(String, String)>,
    dotfiles: Vec<Item>,
    pre_hook: Option<String>,
    post_hook: Option<String>,
}

fn merge_layer_vars(merged: &mut Vec<(String, String)>, vars: &Vec<(String, String)>)
    ensures
        forall|k: Seq<char>| #[trigger] assoc(pairs_view(final(merged)@), k) == (match assoc(
            pairs_view(old(merged)@),
            k,
        ) {
            Some(v) => Some(v),
            None => assoc(pairs_view(vars@), k),
        }),
        unique_keys(pairs_view(old(merged)@)) ==> unique_keys(pairs_view(final(merged)@)),
{
    let n = vars.len();
    let mut j: usize = 0;
    while j < n
        invariant
            j <= n,
            n == vars@.len(),
            forall|k: Seq<char>| #[trigger] assoc(pairs_view(merged@), k) == (match assoc(
                pairs_view(old(merged)@),
                k,
            ) {
                Some(v) => Some(v),
                None => assoc(pairs_view(vars@.take(j as int)), k),
            }),
            unique_keys(pairs_view(old(merged)@)) ==> unique_keys(pairs_view(merged@)),
        decreases n - j,
    {
        let pair = &vars[j];
        let ghost m0 = pairs_view(merged@);
        let ghost x = (vars@[j as int].0@, vars@[j as int].1@);
        let absent = match assoc_get(merged, &pair.0) {
            Some(_) => false,
            None => true,
        };
        if absent {
            merged.push((pair.0.clone(), pair.1.clone()));
            proof {
                assert(pairs_view(merged@) =~= m0.push(x));
            }
        }
        proof {
            assert(pairs_view(vars@.take(j as int)).push(x) =~= pairs_view(
                vars@.take(j as int + 1),
            ));
            assert forall|k: Seq<char>| #[trigger] assoc(pairs_view(merged@), k) == (match assoc(
                pairs_view(old(merged)@),
                k,
            ) {
                Some(v) => Some(v),
                None => assoc(pairs_view(vars@.take(j as int + 1)), k),
            }) by {
                lemma_assoc_push(pairs_view(vars@.take(j as int)), x, k);
                if absent {
                    lemma_assoc_push(m0, x, k);
                }
            }
            if absent && unique_keys(m0) {
                lemma_assoc_none(m0, x.0);
                assert forall|a: int, b: int| 0 <= a < b < m0.push(x).len() implies (
                #[trigger] m0.push(x)[a]).0 != (#[trigger] m0.push(x)[b]).0 by {
                    assert(m0.push(x)[a] == m0[a]);
                    if b < m0.len() {
                        assert(m0.push(x)[b] == m0[b]);
                    } else {
                        assert(m0.push(x)[b] == x);
                        assert(m0[a].0 != x.0);
                    }
                }
                assert(unique_keys(m0.push(x)));
            }
        }
        j = j + 1;
    }
    proof {
        assert(vars@.take(n as int) =~= vars@);
    }
}

fn append_items(acc: &mut Vec<Item>, items: &Vec<Item>)
    ensures
        items_view(final(acc)@) == items_view(old(acc)@) + items_view(items@),
{
    let n = items.len();
    let mut j: usize = 0;
    while j < n
        invariant
            j <= n,
            n == items@.len(),
            items_view(acc@) == items_view(old(acc)@) + items_view(items@.take(j as int)),
        decreases n - j,
    {
        acc.push(items[j].duplicate());
        proof {
            assert(items_view(acc@) =~= (items_view(old(acc)@) + items_view(
                items@.take(j as int),
            )).push(items@[j as int]@));
            assert((items_view(old(acc)@) + items_view(items@.take(j as int))).push(items@[
                j as int]@) =~= items_view(old(acc)@) + items_view(items@.take(j as int + 1)));
        }
        j = j + 1;
    }
    proof {
        assert(items@.take(n as int) =~= items@);
    }
}

/// Whether the entry model of `x` occurs among the first `i` entries of `v`.
fn contains_item_prefix(v: &Vec<Item>, i: usize, x: &Item) -> (r: bool)
    requires
        i <= v@.len(),
    ensures
        r == items_view(v@).take(i as int).contains(x@),
{
    let mut j: usize = 0;
    while j < i
        invariant
            j <= i,
            i <= v@.len(),
            forall|t: int| 0 <= t < j ==> items_view(v@).take(i as int)[t] != x@,
        decreases i - j,
    {
        if v[j] == *x {
            proof {
                assert(items_view(v@).take(i as int)[j as int] == x@);
            }
            return true;
        }
        j = j + 1;
    }
    proof {
        assert forall|t: int| 0 <= t < items_view(v@).take(i as int).len() implies items_view(
            v@,
        ).take(i as int)[t] != x@ by {}
    }
    false
}

fn dedup_items_vec(v: &Vec<Item>) -> (r: Vec<Item>)
    ensures
        items_view(r@) == dedup_items(items_view(v@)),
{
    let n = v.len();
    let mut r: Vec<Item> = Vec::new();
    let mut i: usize = 0;
    while i < n
        invariant
            i <= n,
            n == v@.len(),
            items_view(r@) == dedup_items(items_view(v@).take(i as int)),
        decreases n - i,
    {
        let present = contains_item_prefix(v, i, &v[i]);
        proof {
            assert(items_view(v@).take(i as int + 1).drop_last() =~= items_view(v@).take(
                i as int,
            ));
            assert(items_view(v@).take(i as int + 1).last() == v@[i as int]@);
        }
        if !present {
            r.push(v[i].duplicate());
            proof {
                assert(items_view(r@) =~= dedup_items(items_view(v@).take(i as int)).push(v@[
                    i as int]@));
            }
        }
        i = i + 1;
    }
    proof {
        assert(items_view(v@).take(n as int) =~= items_view(v@));
    }
    r
}

impl LayeredProfileBuilder {
    /// The named layers collected so far, highest priority first.
    pub closed spec fn layers_model(&self) -> Seq<(Seq<char>, ProfileModel)> {
        sources_view(self.layers@)
    }

    /// Append a named layer at the lowest priority so far.
    pub fn add(&mut self, name: String, profile: SimpleProfile)
        ensures
            final(self).layers_model() == old(self).layers_model().push((name@, profile@)),
    {
        self.layers.push((name, profile));
        proof {
            assert(final(self).layers_model() =~= old(self).layers_model().push(
                (self.layers@.last().0@, self.layers@.last().1@),
            ));
        }
    }

    /// Merge the collected layers into the effective profile.
    pub fn finish(self) -> (r: LayeredProfile)
        ensures
            r.spec_target() == spec_first_target(layer_models(self.layers_model())),
            r.spec_pre_hook() == first_defined(
                layer_models(self.layers_model()),
                |m: ProfileModel| m.pre_hook,
            ),
            r.spec_post_hook() == first_defined(
                layer_models(self.layers_model()),
                |m: ProfileModel| m.post_hook,
            ),
            forall|k: Seq<char>| #[trigger] assoc(r.variables_model(), k) == merged_var(
                layer_models(self.layers_model()),
                k,
            ),
            unique_keys(r.variables_model()),
            r.dotfiles_model() == dedup_items(all_dotfiles(layer_models(self.layers_model()))),
            distinct_items(r.dotfiles_model()),
    {
        let ghost models = layer_models(self.layers_model());
        let n = self.layers.len();
        let mut target: Option<String> = None;
        let mut pre_hook: Option<String> = None;
        let mut post_hook: Option<String> = None;
        let mut variables: Vec<(String, String)> = Vec::new();
        let mut all_items: Vec<Item> = Vec::new();
        let mut i: usize = 0;
        while i < n
            invariant
                i <= n,
                n == self.layers@.len(),
                models == layer_models(self.layers_model()),
                opt_name_view(target) == spec_first_target(models.take(i as int)),
                opt_name_view(pre_hook) == first_defined(
                    models.take(i as int),
                    |m: ProfileModel| m.pre_hook,
                ),
                opt_name_view(post_hook) == first_defined(
                    models.take(i as int),
                    |m: ProfileModel| m.post_hook,
                ),
                forall|k: Seq<char>| #[trigger] assoc(pairs_view(variables@), k) == merged_var(
                    models.take(i as int),
                    k,
                ),
                unique_keys(pairs_view(variables@)),
                items_view(all_items@) == all_dotfiles(models.take(i as int)),
            decreases n - i,
        {
            let layer = &self.layers[i].1;
            proof {
                assert(models.take(i as int + 1).drop_last() =~= models.take(i as int));
                assert(models.take(i as int + 1).last() == self.layers@[i as int].1@);
            }
            let replace_target = match (&target, &layer.target) {
                (None, Some(_)) => true,
                _ => false,
            };
            if replace_target {
                target = dup_opt_string(&layer.target);
            }
            let replace_pre = match (&pre_hook, &layer.pre_hook) {
                (None, Some(_)) => true,
                _ => false,
            };
            if replace_pre {
                pre_hook = dup_opt_string(&layer.pre_hook);
            }
            let replace_post = match (&post_hook, &layer.post_hook) {
                (None, Some(_)) => true,
                _ => false,
            };
            if replace_post {
                post_hook = dup_opt_string(&layer.post_hook);
            }
            merge_layer_vars(&mut variables, &layer.variables);
            append_items(&mut all_items, &layer.dotfiles);
            i = i + 1;
        }
        proof {
            assert(models.take(n as int) =~= models);
        }
        let dotfiles = dedup_items_vec(&all_items);
        proof {
            lemma_dedup_items_distinct(items_view(all_items@));
        }
        LayeredProfile { target, variables, dotfiles, pre_hook, post_hook }
    }
}

impl LayeredProfile {
    /// A fresh builder with no layers yet.
    pub fn build() -> (r: LayeredProfileBuilder)
        ensures
            r.layers_model() == Seq::<(Seq<char>, ProfileModel)>::empty(),
    {
        let r = LayeredProfileBuilder { layers: Vec::new() };
        proof {
            assert(r.layers_model() =~= Seq::<(Seq<char>, ProfileModel)>::empty());
        }
        r
    }

    /// The effective target root.
    pub closed spec fn spec_target(&self) -> Option<Seq<char>> {
        opt_name_view(self.target)
    }

    /// The merged variable table.
    pub closed spec fn variables_model(&self) -> Seq<(Seq<char>, Seq<char>)> {
        pairs_view(self.variables@)
    }

    /// The merged, deduplicated dotfile entries, in priority order.
    pub closed spec fn dotfiles_model(&self) -> Seq<ItemModel> {
        items_view(self.dotfiles@)
    }

    /// The effective pre-deployment hook command.
    pub closed spec fn spec_pre_hook(&self) -> Option<Seq<char>> {
        opt_name_view(self.pre_hook)
    }

    /// The effective post-deployment hook command.
    pub closed spec fn spec_post_hook(&self) -> Option<Seq<char>> {
        opt_name_view(self.post_hook)
    }

    /// The effective target root; nothing means the profile is undeployable.
    pub fn target_path(&self) -> (r: Option<&String>)
        ensures
            match r {
                Some(t) => self.spec_target() == Some(t@),
                None => self.spec_target() is None,
            },
    {
        match &self.target {
            Some(t) => Some(t),
            None => None,
        }
    }

    /// The effective value of a variable.
    pub fn variable<'a>(&'a self, key: &String) -> (r: Option<&'a String>)
        ensures
            match r {
                Some(v) => assoc(self.variables_model(), key@) == Some(v@),
                None => assoc(self.variables_model(), key@) is None,
            },
    {
        assoc_get(&self.variables, key)
    }

    /// The merged dotfile entries, in priority order.
    pub fn dotfiles(&self) -> (r: &Vec<Item>)
        ensures
            items_view(r@) == self.dotfiles_model(),
    {
        &self.dotfiles
    }

    /// The effective pre-deployment hook command.
    pub fn pre_hook(&self) -> (r: Option<&String>)
        ensures
            match r {
                Some(t) => self.spec_pre_hook() == Some(t@),
                None => self.spec_pre_hook() is None,
            },
    {
        match &self.pre_hook {
            Some(t) => Some(t),
            None => None,
        }
    }

    /// The effective post-deployment hook command.
    pub fn post_hook(&self) -> (r: Option<&String>)
        ensures
            match r {
                Some(t) => self.spec_post_hook() == Some(t@),
                None => self.spec_post_hook() is None,
            },
    {
        match &self.post_hook {
            Some(t) => Some(t),
            None => None,
        }
    }
}

fn resolve_imports(
    builder: &mut LayeredProfileBuilder,
    sources: &Vec<(String, SimpleProfile)>,
    stack: &mut Vec<String>,
    imports: &Vec<String>,
    k: usize,
    fuel: usize,
) -> (r: Result<(), ResolutionError>)
    requires
        k <= imports@.len(),
    ensures
        final(stack)@ == old(stack)@,
        ({
            let res = spec_resolve_imports(
                sources_view(sources@),
                names_view(imports@).subrange(k as int, imports@.len() as int),
                names_view(old(stack)@),
                fuel as nat,
            );
            match (r, res) {
                (Ok(()), Ok(layers)) => final(builder).layers_model() == old(
                    builder,
                ).layers_model() + layers,
                (Err(e), Err(em)) => e@ == em,
                _ => false,
            }
        }),
    decreases fuel, 0nat, imports@.len() - k,
{
    let n = imports.len();
    let ghost remaining = names_view(imports@).subrange(k as int, n as int);
    if k == n {
        proof {
            assert(remaining =~= Seq::<Seq<char>>::empty());
            assert(final(builder).layers_model() =~= old(builder).layers_model() + Seq::<(
                Seq<char>,
                ProfileModel,
            )>::empty());
        }
        return Ok(());
    }
    proof {
        assert(remaining[0] == imports@[k as int]@);
        assert(remaining.drop_first() =~= names_view(imports@).subrange(k as int + 1, n as int));
    }
    if fuel == 0 {
        return Err(ResolutionError::Cycle(imports[k].clone()));
    }
    match resolve_inner(builder, sources, stack, &imports[k], fuel - 1) {
        Err(e) => Err(e),
        Ok(()) => {
            let ghost mid = builder.layers_model();
            match resolve_imports(builder, sources, stack, imports, k + 1, fuel) {
                Err(e) => Err(e),
                Ok(()) => {
                    proof {
                        let res = spec_resolve_imports(
                            sources_view(sources@),
                            remaining,
                            names_view(old(stack)@),
                            fuel as nat,
                        );
                        if res is Ok {
                            assert(final(builder).layers_model() =~= old(builder).layers_model()
                                + res->Ok_0);
                        }
                    }
                    Ok(())
                },
            }
        },
    }
}

fn resolve_inner(
    builder: &mut LayeredProfileBuilder,
    sources: &Vec<(String, SimpleProfile)>,
    stack: &mut Vec<String>,
    name: &String,
    fuel: usize,
) -> (r: Result<(), ResolutionError>)
    ensures
        final(stack)@ == old(stack)@,
        ({
            let res = spec_resolve(
                sources_view(sources@),
                name@,
                names_view(old(stack)@),
                fuel as nat,
            );
            match (r, res) {
                (Ok(()), Ok(layers)) => final(builder).layers_model() == old(
                    builder,
                ).layers_model() + layers,
                (Err(e), Err(em)) => e@ == em,
                _ => false,
            }
        }),
    decreases fuel, 1nat, 0nat,
{
    if contains_name(stack, name) {
        return Err(ResolutionError::Cycle(name.clone()));
    }
    match src_find(sources, name) {
        None => Err(ResolutionError::NotFound(name.clone())),
        Some(profile) => {
            builder.add(name.clone(), profile.duplicate());
            stack.push(name.clone());
            proof {
                assert(names_view(stack@) =~= names_view(old(stack)@).push(name@));
            }
            let res = resolve_imports(builder, sources, stack, &profile.imports, 0, fuel);
            proof {
                assert(names_view(profile.imports@).subrange(0, profile.imports@.len() as int)
                    =~= names_view(profile.imports@));
            }
            let _ = stack.pop();
            proof {
                assert(stack@ =~= old(stack)@);
            }
            match res {
                Err(e) => Err(e),
                Ok(()) => {
                    proof {
                        let spec_res = spec_resolve(
                            sources_view(sources@),
                            name@,
                            names_view(old(stack)@),
                            fuel as nat,
                        );
                        if spec_res is Ok {
                            assert(final(builder).layers_model() =~= old(builder).layers_model()
                                + spec_res->Ok_0);
                        }
                    }
                    Ok(())
                },
            }
        },
    }
}

/// Resolve the named profile from the sources into the builder: the profile
/// itself, then, depth-first, every profile its import chain reaches, each
/// imported profile layered below its importer and above previously resolved
/// siblings. An import chain that revisits a profile still being resolved
/// fails with a cycle; a name without a source fails as not found.
pub fn resolve_profile(
    builder: &mut LayeredProfileBuilder,
    sources: &Vec<(String, SimpleProfile)>,
    name: &String,
) -> (r: Result<(), ResolutionError>)
    ensures
        ({
            let res = spec_resolve(
                sources_view(sources@),
                name@,
                Seq::<Seq<char>>::empty(),
                sources@.len() as nat,
            );
            match (r, res) {
                (Ok(()), Ok(layers)) => final(builder).layers_model() == old(
                    builder,
                ).layers_model() + layers,
                (Err(e), Err(em)) => e@ == em,
                _ => false,
            }
        }),
{
    let mut stack: Vec<String> = Vec::new();
    proof {
        assert(names_view(stack@) =~= Seq::<Seq<char>>::empty());
    }
    resolve_inner(builder, sources, &mut stack, name, sources.len())
}

/// The highest-priority layer that defines a target wins: with a
/// command-line layer in front, its target is the effective one, whatever
/// any profile-file or environment layer below it says.
pub proof fn lemma_target_first_layer_wins(layers: Seq<ProfileModel>)
    requires
        layers.len() >= 1,
        layers[0].target is Some,
    ensures
        spec_first_target(layers) == layers[0].target,
    decreases layers.len(),
{
    if layers.len() == 1 {
        assert(layers.drop_last().len() == 0);
    } else {
        assert(layers.drop_last()[0] == layers[0]);
        lemma_target_first_layer_wins(layers.drop_last());
    }
}

/// Where no layer defines a key, the merged table does not either.
pub proof fn lemma_merged_var_none(layers: Seq<ProfileModel>, k: Seq<char>)
    requires
        forall|h: int| 0 <= h < layers.len() ==> assoc(#[trigger] layers[h].variables, k) is None,
    ensures
        merged_var(layers, k) is None,
    decreases layers.len(),
{
    if layers.len() > 0 {
        assert forall|h: int| 0 <= h < layers.drop_last().len() implies assoc(
            #[trigger] layers.drop_last()[h].variables,
            k,
        ) is None by {
            assert(layers.drop_last()[h] == layers[h]);
        }
        lemma_merged_var_none(layers.drop_last(), k);
        assert(layers.last() == layers[layers.len() - 1]);
    }
}

/// A variable defined by a higher-priority layer is never overwritten by a
/// lower-priority layer: the merged value of a key is the value given by the
/// highest-priority layer that defines it.
pub proof fn lemma_var_higher_layer_wins(layers: Seq<ProfileModel>, i: int, k: Seq<char>)
    requires
        0 <= i < layers.len(),
        assoc(layers[i].variables, k) is Some,
        forall|h: int| 0 <= h < i ==> assoc(#[trigger] layers[h].variables, k) is None,
    ensures
        merged_var(layers, k) == assoc(layers[i].variables, k),
    decreases layers.len(),
{
    if i == layers.len() - 1 {
        assert forall|h: int| 0 <= h < layers.drop_last().len() implies assoc(
            #[trigger] layers.drop_last()[h].variables,
            k,
        ) is None by {
            assert(layers.drop_last()[h] == layers[h]);
        }
        lemma_merged_var_none(layers.drop_last(), k);
        assert(layers.last() == layers[i]);
    } else {
        assert(layers.drop_last()[i] == layers[i]);
        assert forall|h: int| 0 <= h < i implies assoc(
            #[trigger] layers.drop_last()[h].variables,
            k,
        ) is None by {
            assert(layers.drop_last()[h] == layers[h]);
        }
        lemma_var_higher_layer_wins(layers.drop_last(), i, k);
    }
}

} // verus!
