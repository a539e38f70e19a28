//! Hook points, the registry of plugins per hook point, and the decisions
//! taken while hooks run.

use vstd::prelude::*;
use crate::ids::{Span, span_nanos, NANOS_PER_SEC};
use crate::plugin::PluginError;

verus! {

/// A point in the execution flow where plugins are invoked.
#[derive(Debug, Clone, Copy, PartialEq, Eq, Structural, Hash)]
pub enum HookPoint {
    /// Before creating a node
    BeforeCreateNode,
    /// After creating a node
    AfterCreateNode,
    /// Before creating a session
    BeforeCreateSession,
    /// After creating a session
    AfterCreateSession,
    /// Before executing a query
    BeforeQuery,
    /// After executing a query
    AfterQuery,
    /// Before creating an edge
    BeforeCreateEdge,
    /// After creating an edge
    AfterCreateEdge,
    /// Before updating a node
    BeforeUpdateNode,
    /// After updating a node
    AfterUpdateNode,
    /// Before deleting a node
    BeforeDeleteNode,
    /// After deleting a node
    AfterDeleteNode,
    /// Before deleting a session
    BeforeDeleteSession,
    /// After deleting a session
    AfterDeleteSession,
}

/// The number of hook points.
pub const HOOK_POINT_COUNT: usize = 14;

/// The position of a hook point in the list of all hook points.
pub open spec fn hook_index(h: HookPoint) -> nat {
    match h {
        HookPoint::BeforeCreateNode => 0,
        HookPoint::AfterCreateNode => 1,
        HookPoint::BeforeCreateSession => 2,
        HookPoint::AfterCreateSession => 3,
        HookPoint::BeforeQuery => 4,
        HookPoint::AfterQuery => 5,
        HookPoint::BeforeCreateEdge => 6,
        HookPoint::AfterCreateEdge => 7,
        HookPoint::BeforeUpdateNode => 8,
        HookPoint::AfterUpdateNode => 9,
        HookPoint::BeforeDeleteNode => 10,
        HookPoint::AfterDeleteNode => 11,
        HookPoint::BeforeDeleteSession => 12,
        HookPoint::AfterDeleteSession => 13,
    }
}

/// The hook point at a position of the list of all hook points.
pub open spec fn hook_at(i: nat) -> HookPoint {
    if i == 0 { HookPoint::BeforeCreateNode }
    else if i == 1 { HookPoint::AfterCreateNode }
    else if i == 2 { HookPoint::BeforeCreateSession }
    else if i == 3 { HookPoint::AfterCreateSession }
    else if i == 4 { HookPoint::BeforeQuery }
    else if i == 5 { HookPoint::AfterQuery }
    else if i == 6 { HookPoint::BeforeCreateEdge }
    else if i == 7 { HookPoint::AfterCreateEdge }
    else if i == 8 { HookPoint::BeforeUpdateNode }
    else if i == 9 { HookPoint::AfterUpdateNode }
    else if i == 10 { HookPoint::BeforeDeleteNode }
    else if i == 11 { HookPoint::AfterDeleteNode }
    else if i == 12 { HookPoint::BeforeDeleteSession }
    else { HookPoint::AfterDeleteSession }
}

/// The snake-case name of a hook point.
pub open spec fn hook_name(h: HookPoint) -> Seq<char> {
    match h {
        HookPoint::BeforeCreateNode => "before_create_node"@,
        HookPoint::AfterCreateNode => "after_create_node"@,
        HookPoint::BeforeCreateSession => "before_create_session"@,
        HookPoint::AfterCreateSession => "after_create_session"@,
        HookPoint::BeforeQuery => "before_query"@,
        HookPoint::AfterQuery => "after_query"@,
        HookPoint::BeforeCreateEdge => "before_create_edge"@,
        HookPoint::AfterCreateEdge => "after_create_edge"@,
        HookPoint::BeforeUpdateNode => "before_update_node"@,
        HookPoint::AfterUpdateNode => "after_update_node"@,
        HookPoint::BeforeDeleteNode => "before_delete_node"@,
        HookPoint::AfterDeleteNode => "after_delete_node"@,
        HookPoint::BeforeDeleteSession => "before_delete_session"@,
        HookPoint::AfterDeleteSession => "after_delete_session"@,
    }
}

/// Whether a hook point runs before its operation.
pub open spec fn hook_is_before(h: HookPoint) -> bool {
    match h {
        HookPoint::BeforeCreateNode | HookPoint::BeforeCreateSession | HookPoint::BeforeQuery
        | HookPoint::BeforeCreateEdge | HookPoint::BeforeUpdateNode | HookPoint::BeforeDeleteNode
        | HookPoint::BeforeDeleteSession => true,
        _ => false,
    }
}

/// Positions and hook points correspond one to one.
pub proof fn lemma_hook_index(h: HookPoint, i: nat)
    ensures
        hook_index(h) < HOOK_POINT_COUNT,
        hook_at(hook_index(h)) == h,
        i < HOOK_POINT_COUNT ==> hook_index(hook_at(i)) == i,
{
}

impl HookPoint {
    /// The position of the hook point in `HookPoint::all()`.
    pub fn index(&self) -> (i: usize)
        ensures
            i == hook_index(*self),
            i < HOOK_POINT_COUNT,
    {
        match self {
            HookPoint::BeforeCreateNode => 0,
            HookPoint::AfterCreateNode => 1,
            HookPoint::BeforeCreateSession => 2,
            HookPoint::AfterCreateSession => 3,
            HookPoint::BeforeQuery => 4,
            HookPoint::AfterQuery => 5,
            HookPoint::BeforeCreateEdge => 6,
            HookPoint::AfterCreateEdge => 7,
            HookPoint::BeforeUpdateNode => 8,
            HookPoint::AfterUpdateNode => 9,
            HookPoint::BeforeDeleteNode => 10,
            HookPoint::AfterDeleteNode => 11,
            HookPoint::BeforeDeleteSession => 12,
            HookPoint::AfterDeleteSession => 13,
        }
    }

    /// The hook's name.
    pub fn as_str(&self) -> (s: &'static str)
        ensures
            s@ == hook_name(*self),
    {
        match self {
            HookPoint::BeforeCreateNode => "before_create_node",
            HookPoint::AfterCreateNode => "after_create_node",
            HookPoint::BeforeCreateSession => "before_create_session",
            HookPoint::AfterCreateSession => "after_create_session",
            HookPoint::BeforeQuery => "before_query",
            HookPoint::AfterQuery => "after_query",
            HookPoint::BeforeCreateEdge => "before_create_edge",
            HookPoint::AfterCreateEdge => "after_create_edge",
            HookPoint::BeforeUpdateNode => "before_update_node",
            HookPoint::AfterUpdateNode => "after_update_node",
            HookPoint::BeforeDeleteNode => "before_delete_node",
            HookPoint::AfterDeleteNode => "after_delete_node",
            HookPoint::BeforeDeleteSession => "before_delete_session",
            HookPoint::AfterDeleteSession => "after_delete_session",
        }
    }

    /// The hook's name, as an owned string.
    pub fn to_string(&self) -> (s: String)
        ensures
            s@ == hook_name(*self),
    {
        String::from_str(self.as_str())
    }

    /// Whether this is a "before" hook.
    pub fn is_before(&self) -> (r: bool)
        ensures
            r == hook_is_before(*self),
    {
        match self {
            HookPoint::BeforeCreateNode | HookPoint::BeforeCreateSession | HookPoint::BeforeQuery
            | HookPoint::BeforeCreateEdge | HookPoint::BeforeUpdateNode | HookPoint::BeforeDeleteNode
            | HookPoint::BeforeDeleteSession => true,
            _ => false,
        }
    }

    /// Whether this is an "after" hook.
    pub fn is_after(&self) -> (r: bool)
        ensures
            r == !hook_is_before(*self),
    {
        !self.is_before()
    }

    /// All hook points, in declaration order.
    pub fn all() -> (v: Vec<HookPoint>)
        ensures
            v@.len() == HOOK_POINT_COUNT,
            forall|i: int| 0 <= i < HOOK_POINT_COUNT ==> #[trigger] v@[i] == hook_at(i as nat),
    {
        let v = vec![
            HookPoint::BeforeCreateNode,
            HookPoint::AfterCreateNode,
            HookPoint::BeforeCreateSession,
            HookPoint::AfterCreateSession,
            HookPoint::BeforeQuery,
            HookPoint::AfterQuery,
            HookPoint::BeforeCreateEdge,
            HookPoint::AfterCreateEdge,
            HookPoint::BeforeUpdateNode,
            HookPoint::AfterUpdateNode,
            HookPoint::BeforeDeleteNode,
            HookPoint::AfterDeleteNode,
            HookPoint::BeforeDeleteSession,
            HookPoint::AfterDeleteSession,
        ];
        v
    }
}

/// Every hook point is either a "before" or an "after" hook, and the two
/// kinds alternate in `HookPoint::all()`: even positions are "before" hooks.
pub proof fn lemma_before_after_alternate(h: HookPoint)
    ensures
        hook_is_before(h) <==> hook_index(h) % 2 == 0,
{
}

/// The characters of a hook name that tell the hook points apart: its
/// length and the characters at positions 0, 7 and 14.
pub open spec fn name_key(s: Seq<char>) -> (nat, char, char, char) {
    (s.len(), s[0], s[7], s[14])
}

/// The name of a "before" hook point starts with `before_`, that of an
/// "after" hook point with `after_`, and no two hook points share a name.
pub proof fn lemma_hook_names(h: HookPoint, g: HookPoint)
    ensures
        hook_is_before(h) <==> "before_"@.is_prefix_of(hook_name(h)),
        !hook_is_before(h) <==> "after_"@.is_prefix_of(hook_name(h)),
        h != g ==> hook_name(h) != hook_name(g),
{
    reveal_strlit("before_create_node");
    reveal_strlit("after_create_node");
    reveal_strlit("before_create_session");
    reveal_strlit("after_create_session");
    reveal_strlit("before_query");
    reveal_strlit("after_query");
    reveal_strlit("before_create_edge");
    reveal_strlit("after_create_edge");
    reveal_strlit("before_update_node");
    reveal_strlit("after_update_node");
    reveal_strlit("before_delete_node");
    reveal_strlit("after_delete_node");
    reveal_strlit("before_delete_session");
    reveal_strlit("after_delete_session");
    reveal_strlit("before_");
    reveal_strlit("after_");
    lemma_hook_name_prefix(h);
    if h != g && hook_name(h) == hook_name(g) {
        lemma_hook_name_key(h);
        lemma_hook_name_key(g);
        assert(name_key(hook_name(h)) == name_key(hook_name(g)));
    }
}

proof fn lemma_hook_name_prefix(h: HookPoint)
    ensures
        hook_is_before(h) <==> "before_"@.is_prefix_of(hook_name(h)),
        !hook_is_before(h) <==> "after_"@.is_prefix_of(hook_name(h)),
{
    reveal_strlit("before_create_node");
    reveal_strlit("after_create_node");
    reveal_strlit("before_create_session");
    reveal_strlit("after_create_session");
    reveal_strlit("before_query");
    reveal_strlit("after_query");
    reveal_strlit("before_create_edge");
    reveal_strlit("after_create_edge");
    reveal_strlit("before_update_node");
    reveal_strlit("after_update_node");
    reveal_strlit("before_delete_node");
    reveal_strlit("after_delete_node");
    reveal_strlit("before_delete_session");
    reveal_strlit("after_delete_session");
    reveal_strlit("before_");
    reveal_strlit("after_");
    let s = hook_name(h);
    if hook_is_before(h) {
        assert(s.subrange(0, 7) =~= "before_"@);
        assert(s.subrange(0, 6)[0] != "after_"@[0]);
    } else {
        assert(s.subrange(0, 6) =~= "after_"@);
        assert(s.len() < 7 || s.subrange(0, 7)[0] != "before_"@[0]);
    }
}

proof fn lemma_hook_name_key(h: HookPoint)
    ensures
        name_key(hook_name(h)) == (match h {
            HookPoint::BeforeCreateNode => (18nat, 'b', 'c', 'n'),
            HookPoint::AfterCreateNode => (17nat, 'a', 'r', 'o'),
            HookPoint::BeforeCreateSession => (21nat, 'b', 'c', 's'),
            HookPoint::AfterCreateSession => (20nat, 'a', 'r', 'e'),
            HookPoint::BeforeQuery => (12nat, 'b', 'q', hook_name(HookPoint::BeforeQuery)[14]),
            HookPoint::AfterQuery => (11nat, 'a', 'u', hook_name(HookPoint::AfterQuery)[14]),
            HookPoint::BeforeCreateEdge => (18nat, 'b', 'c', 'e'),
            HookPoint::AfterCreateEdge => (17nat, 'a', 'r', 'd'),
            HookPoint::BeforeUpdateNode => (18nat, 'b', 'u', 'n'),
            HookPoint::AfterUpdateNode => (17nat, 'a', 'p', 'o'),
            HookPoint::BeforeDeleteNode => (18nat, 'b', 'd', 'n'),
            HookPoint::AfterDeleteNode => (17nat, 'a', 'e', 'o'),
            HookPoint::BeforeDeleteSession => (21nat, 'b', 'd', 's'),
            HookPoint::AfterDeleteSession => (20nat, 'a', 'e', 'e'),
        }),
{
    reveal_strlit("before_create_node");
    reveal_strlit("after_create_node");
    reveal_strlit("before_create_session");
    reveal_strlit("after_create_session");
    reveal_strlit("before_query");
    reveal_strlit("after_query");
    reveal_strlit("before_create_edge");
    reveal_strlit("after_create_edge");
    reveal_strlit("before_update_node");
    reveal_strlit("after_update_node");
    reveal_strlit("before_delete_node");
    reveal_strlit("after_delete_node");
    reveal_strlit("before_delete_session");
    reveal_strlit("after_delete_session");
}

// ===== Registry =====

/// The view of a list of registered plugins: each plugin's name with the
/// plugin itself.
pub open spec fn entries_view<P>(s: Seq<(String, P)>) -> Seq<(Seq<char>, P)> {
    s.map_values(|e: (String, P)| (e.0@, e.1))
}

/// Keep the registrations whose plugin is not named `name`.
pub open spec fn without_name<P>(s: Seq<(Seq<char>, P)>, name: Seq<char>) -> Seq<(Seq<char>, P)> {
    s.filter(|e: (Seq<char>, P)| e.0 != name)
}

/// Registrations of plugins per hook point.
///
/// A hook point that was once registered keeps its (possibly empty) list
/// until the registry is cleared.
pub struct HookRegistry<P> {
    buckets: Vec<Option<Vec<(String, P)>>>,
}

impl<P> View for HookRegistry<P> {
    type V = Map<HookPoint, Seq<(Seq<char>, P)>>;

    closed spec fn view(&self) -> Map<HookPoint, Seq<(Seq<char>, P)>> {
        Map::new(
            |h: HookPoint| self.buckets@[hook_index(h) as int] is Some,
            |h: HookPoint| entries_view(self.buckets@[hook_index(h) as int]->0@),
        )
    }
}

/// Build a list of the registrations of `s` not named `name`, in order.
fn retain_not_named<P>(s: Vec<(String, P)>, name: &str) -> (r: Vec<(String, P)>)
    ensures
        entries_view(r@) == without_name(entries_view(s@), name@),
{
    let ghost orig = s@;
    let ghost n = s@.len();
    let mut rest = s;
    let mut out: Vec<(String, P)> = Vec::new();
    assert(orig.take(0) =~= Seq::<(String, P)>::empty());
    proof { reveal(Seq::filter); }
    assert(without_name(entries_view(Seq::<(String, P)>::empty()), name@) =~= Seq::<(Seq<char>, P)>::empty());
    while rest.len() > 0
        invariant
            n == orig.len(),
            rest@.len() <= n,
            rest@ == orig.skip(n - rest@.len()),
            entries_view(out@) == without_name(entries_view(orig.take(n - rest@.len())), name@),
        decreases rest@.len(),
    {
        let ghost i = n - rest@.len();
        let ghost before = rest@;
        let e = rest.remove(0);
        proof {
            assert(e == orig[i]);
            assert(rest@ =~= orig.skip(i + 1));
            let a = entries_view(orig.take(i));
            let b = entries_view(orig.take(i + 1));
            assert(b =~= a.push((e.0@, e.1)));
            assert(b.drop_last() =~= a);
            reveal(Seq::filter);
        }
        if !crate::text::str_eq(e.0.as_str(), name) {
            out.push(e);
            proof {
                assert(entries_view(out@) =~= without_name(entries_view(orig.take(i)), name@).push((e.0@, e.1)));
            }
        }
    }
    assert(orig.take(n as int) =~= orig);
    out
}

impl<P> HookRegistry<P> {
    #[verifier::type_invariant]
    spec fn inv(&self) -> bool {
        self.buckets@.len() == HOOK_POINT_COUNT
    }

    /// Create an empty registry.
    pub fn new() -> (r: Self)
        ensures
            r@ == Map::<HookPoint, Seq<(Seq<char>, P)>>::empty(),
    {
        let mut buckets: Vec<Option<Vec<(String, P)>>> = Vec::new();
        let mut i: usize = 0;
        while i < HOOK_POINT_COUNT
            invariant
                i <= HOOK_POINT_COUNT,
                buckets@.len() == i,
                forall|j: int| 0 <= j < i ==> #[trigger] buckets@[j] is None,
            decreases HOOK_POINT_COUNT - i,
        {
            buckets.push(None);
            i = i + 1;
        }
        let r = HookRegistry { buckets };
        assert(r@ =~= Map::<HookPoint, Seq<(Seq<char>, P)>>::empty());
        r
    }

    /// Register a plugin, under its name, for a hook point; it runs after
    /// the plugins registered there before it.
    pub fn register_hook(&mut self, hook: HookPoint, name: String, plugin: P)
        ensures
            final(self)@ == old(self)@.insert(
                hook,
                (if old(self)@.contains_key(hook) { old(self)@[hook] } else { Seq::empty() }).push((name@, plugin)),
            ),
    {
        proof { use_type_invariant(&*self); }
        let ghost before = self@;
        let idx = hook.index();
        let mut taken = HookRegistry::new();
        std::mem::swap(&mut taken, self);
        let HookRegistry { buckets: mut buckets } = taken;
        let ghost old_buckets = buckets@;
        let slot = buckets.remove(idx);
        let mut list: Vec<(String, P)> = match slot {
            Some(l) => l,
            None => Vec::new(),
        };
        let ghost old_list = list@;
        proof {
            lemma_hook_index(hook, 0);
            assert(old_buckets[idx as int] == slot);
            if slot is None {
                assert(entries_view(old_list) =~= Seq::<(Seq<char>, P)>::empty());
            }
            assert(entries_view(old_list) == (if before.contains_key(hook) { before[hook] } else { Seq::empty() }));
        }
        list.push((name, plugin));
        buckets.insert(idx, Some(list));
        proof {
            assert(buckets@ =~= old_buckets.update(idx as int, buckets@[idx as int]));
            assert(entries_view(list@) =~= entries_view(old_list).push((name@, plugin)));
        }
        *self = HookRegistry { buckets };
        proof {
            assert forall|h: HookPoint| #[trigger] self@.contains_key(h) == before.insert(hook, entries_view(list@)).contains_key(h) by {
                lemma_hook_index(h, 0);
                lemma_hook_index(hook, 0);
            }
            assert forall|h: HookPoint| self@.contains_key(h) implies #[trigger] self@[h] == before.insert(hook, entries_view(list@))[h] by {
                lemma_hook_index(h, 0);
                lemma_hook_index(hook, 0);
            }
            assert(self@ =~= before.insert(hook, entries_view(list@)));
        }
    }

    /// Unregister the plugins named `plugin_name` from a hook point.
    pub fn unregister_hook(&mut self, hook: HookPoint, plugin_name: &str)
        ensures
            final(self)@ == (if old(self)@.contains_key(hook) {
                old(self)@.insert(hook, without_name(old(self)@[hook], plugin_name@))
            } else {
                old(self)@
            }),
    {
        proof { use_type_invariant(&*self); }
        let ghost before = self@;
        let idx = hook.index();
        let mut taken = HookRegistry::new();
        std::mem::swap(&mut taken, self);
        let HookRegistry { buckets: mut buckets } = taken;
        let ghost old_buckets = buckets@;
        let slot = buckets.remove(idx);
        match slot {
            Some(list) => {
                let kept = retain_not_named(list, plugin_name);
                buckets.insert(idx, Some(kept));
                proof {
                    assert(buckets@ =~= old_buckets.update(idx as int, buckets@[idx as int]));
                }
                *self = HookRegistry { buckets };
                proof {
                    let target = before.insert(hook, entries_view(kept@));
                    assert forall|h: HookPoint| #[trigger] self@.contains_key(h) == target.contains_key(h) by {
                        lemma_hook_index(h, 0);
                        lemma_hook_index(hook, 0);
                    }
                    assert forall|h: HookPoint| self@.contains_key(h) implies #[trigger] self@[h] == target[h] by {
                        lemma_hook_index(h, 0);
                        lemma_hook_index(hook, 0);
                    }
                    assert(self@ =~= target);
                }
            },
            None => {
                buckets.insert(idx, None);
                proof {
                    assert(buckets@ =~= old_buckets);
                }
                *self = HookRegistry { buckets };
                proof {
                    assert(self@ =~= before);
                }
            },
        }
    }

    /// Unregister the plugins named `plugin_name` from every hook point.
    pub fn unregister_plugin(&mut self, plugin_name: &str)
        ensures
            final(self)@ == Map::new(
                |h: HookPoint| old(self)@.contains_key(h),
                |h: HookPoint| without_name(old(self)@[h], plugin_name@),
            ),
    {
        proof { use_type_invariant(&*self); }
        let ghost before = self@;
        let mut taken = HookRegistry::new();
        std::mem::swap(&mut taken, self);
        let HookRegistry { buckets: mut buckets } = taken;
        let ghost old_buckets = buckets@;
        let mut i: usize = 0;
        while i < HOOK_POINT_COUNT
            invariant
                buckets@.len() == HOOK_POINT_COUNT,
                old_buckets.len() == HOOK_POINT_COUNT,
                0 <= i <= HOOK_POINT_COUNT,
                forall|j: int| 0 <= j < HOOK_POINT_COUNT ==> (#[trigger] buckets@[j] is Some) == (old_buckets[j] is Some),
                forall|j: int| 0 <= j < i && #[trigger] buckets@[j] is Some ==>
                    entries_view(buckets@[j]->0@) == without_name(entries_view(old_buckets[j]->0@), plugin_name@),
                forall|j: int| i <= j < HOOK_POINT_COUNT ==> #[trigger] buckets@[j] == old_buckets[j],
            decreases HOOK_POINT_COUNT - i,
        {
            let slot = buckets.remove(i);
            let ghost mid = buckets@;
            match slot {
                Some(list) => {
                    let kept = retain_not_named(list, plugin_name);
                    buckets.insert(i, Some(kept));
                },
                None => {
                    buckets.insert(i, None);
                },
            }
            i = i + 1;
        }
        *self = HookRegistry { buckets };
        proof {
            let target = Map::new(
                |h: HookPoint| before.contains_key(h),
                |h: HookPoint| without_name(before[h], plugin_name@),
            );
            assert forall|h: HookPoint| #[trigger] self@.contains_key(h) == target.contains_key(h) by {
                lemma_hook_index(h, 0);
            }
            assert forall|h: HookPoint| self@.contains_key(h) implies #[trigger] self@[h] == target[h] by {
                lemma_hook_index(h, 0);
            }
            assert(self@ =~= target);
        }
    }

    /// The number of plugins registered for a hook point.
    pub fn count_plugins(&self, hook: HookPoint) -> (n: usize)
        ensures
            n == (if self@.contains_key(hook) { self@[hook].len() } else { 0 }),
    {
        proof { use_type_invariant(self); lemma_hook_index(hook, 0); }
        let idx = hook.index();
        match &self.buckets[idx] {
            Some(list) => list.len(),
            None => 0,
        }
    }

    /// Remove every registration, including the hook points' lists.
    pub fn clear(&mut self)
        ensures
            final(self)@ == Map::<HookPoint, Seq<(Seq<char>, P)>>::empty(),
    {
        let fresh = HookRegistry::new();
        *self = fresh;
    }

    /// The number of plugins per registered hook point.
    pub fn stats(&self) -> (r: Vec<(HookPoint, usize)>)
        ensures
            forall|i: int, j: int| 0 <= i < j < r@.len() ==> r@[i].0 != r@[j].0,
            forall|i: int| 0 <= i < r@.len() ==> #[trigger] self@.contains_key(r@[i].0) && r@[i].1 == self@[r@[i].0].len(),
            forall|h: HookPoint| #[trigger] self@.contains_key(h) ==> exists|i: int| 0 <= i < r@.len() && r@[i].0 == h,
    {
        proof { use_type_invariant(self); }
        let all = HookPoint::all();
        let mut out: Vec<(HookPoint, usize)> = Vec::new();
        let mut i: usize = 0;
        while i < HOOK_POINT_COUNT
            invariant
                self.buckets@.len() == HOOK_POINT_COUNT,
                all@.len() == HOOK_POINT_COUNT,
                forall|k: int| 0 <= k < HOOK_POINT_COUNT ==> #[trigger] all@[k] == hook_at(k as nat),
                0 <= i <= HOOK_POINT_COUNT,
                forall|a: int, b: int| 0 <= a < b < out@.len() ==> hook_index(out@[a].0) < hook_index(out@[b].0),
                forall|a: int| 0 <= a < out@.len() ==> hook_index(#[trigger] out@[a].0) < i
                    && self@.contains_key(out@[a].0) && out@[a].1 == self@[out@[a].0].len(),
                forall|h: HookPoint| #[trigger] self@.contains_key(h) && hook_index(h) < i ==> exists|a: int| 0 <= a < out@.len() && out@[a].0 == h,
            decreases HOOK_POINT_COUNT - i,
        {
            let h = all[i];
            let ghost old_out = out@;
            proof { lemma_hook_index(h, i as nat); }
            match &self.buckets[i] {
                Some(list) => {
                    out.push((h, list.len()));
                    proof {
                        assert(out@[out@.len() - 1].0 == h);
                    }
                },
                None => {},
            }
            proof {
                assert forall|g: HookPoint| #[trigger] self@.contains_key(g) && hook_index(g) < i + 1 implies exists|a: int| 0 <= a < out@.len() && out@[a].0 == g by {
                    lemma_hook_index(g, i as nat);
                    if hook_index(g) < i {
                        let a = choose|a: int| 0 <= a < old_out.len() && old_out[a].0 == g;
                        assert(out@[a] == old_out[a]);
                    } else {
                        assert(g == h);
                        assert(out@[out@.len() - 1].0 == g);
                    }
                }
            }
            i = i + 1;
        }
        out
    }
}

impl<P: Clone> HookRegistry<P> {
    /// The plugins registered for a hook point, in registration order.
    pub fn get_plugins(&self, hook: HookPoint) -> (r: Vec<P>)
        ensures
            r@.len() == (if self@.contains_key(hook) { self@[hook].len() } else { 0 }),
            forall|i: int| 0 <= i < r@.len() ==> cloned::<P>(self@[hook][i].1, #[trigger] r@[i]),
    {
        proof { use_type_invariant(self); lemma_hook_index(hook, 0); }
        let idx = hook.index();
        let mut out: Vec<P> = Vec::new();
        match &self.buckets[idx] {
            Some(list) => {
                let mut i: usize = 0;
                while i < list.len()
                    invariant
                        i <= list@.len(),
                        out@.len() == i,
                        self.buckets@[idx as int] == Some(*list),
                        hook_index(hook) == idx,
                        self@.contains_key(hook),
                        self@[hook] == entries_view(list@),
                        forall|j: int| 0 <= j < i ==> cloned::<P>(list@[j].1, #[trigger] out@[j]),
                    decreases list@.len() - i,
                {
                    let p = list[i].1.clone();
                    out.push(p);
                    i = i + 1;
                }
            },
            None => {},
        }
        out
    }
}

/// Unregistering a name undoes registering it: registering a plugin
/// under `name` and then unregistering `name` leaves what unregistering
/// `name` alone would leave.
pub proof fn lemma_register_then_unregister<P>(s: Seq<(Seq<char>, P)>, name: Seq<char>, plugin: P)
    ensures
        without_name(s.push((name, plugin)), name) == without_name(s, name),
        without_name(without_name(s, name), name) == without_name(s, name),
{
    reveal(Seq::filter);
    assert(s.push((name, plugin)).drop_last() =~= s);
    lemma_without_name_idempotent(s, name);
}

proof fn lemma_without_name_idempotent<P>(s: Seq<(Seq<char>, P)>, name: Seq<char>)
    ensures
        without_name(without_name(s, name), name) == without_name(s, name),
    decreases s.len(),
{
    reveal(Seq::filter);
    if s.len() > 0 {
        lemma_without_name_idempotent(s.drop_last(), name);
        let t = without_name(s.drop_last(), name);
        if s.last().0 != name {
            assert(t.push(s.last()).drop_last() =~= t);
        }
    }
}

// ===== Execution =====

/// How a failing plugin is reported: its name, a colon and the error.
pub open spec fn failure_text(e: (Seq<char>, Seq<char>)) -> Seq<char> {
    e.0 + ": "@ + e.1
}

/// The failures of a run, joined with semicolons.
pub open spec fn joined_failures(s: Seq<(Seq<char>, Seq<char>)>) -> Seq<char>
    decreases s.len(),
{
    if s.len() == 0 {
        Seq::empty()
    } else if s.len() == 1 {
        failure_text(s[0])
    } else {
        joined_failures(s.drop_last()) + "; "@ + failure_text(s.last())
    }
}

/// The view of a list of (plugin name, error text) pairs.
pub open spec fn failures_view(s: Seq<(String, String)>) -> Seq<(Seq<char>, Seq<char>)> {
    s.map_values(|e: (String, String)| (e.0@, e.1@))
}

/// Runs the plugins of a hook point: decides whether a failure stops the
/// run, and what a run of "before" hooks reports.
#[derive(Debug, Clone, Copy, PartialEq, Eq, Structural)]
pub struct HookExecutor {
    /// Whether to stop at the first failing "before" hook
    pub fail_fast: bool,
    /// Whether to collect timing metrics
    pub collect_metrics: bool,
}

impl HookExecutor {
    /// An executor that stops at the first failure, without metrics.
    pub fn new() -> (e: Self)
        ensures
            e == (HookExecutor { fail_fast: true, collect_metrics: false }),
    {
        HookExecutor { fail_fast: true, collect_metrics: false }
    }

    /// An executor that runs every plugin even when some fail.
    pub fn without_fail_fast() -> (e: Self)
        ensures
            e == (HookExecutor { fail_fast: false, collect_metrics: false }),
    {
        HookExecutor { fail_fast: false, collect_metrics: false }
    }

    /// Enable metrics collection.
    pub fn with_metrics(self) -> (e: Self)
        ensures
            e == (HookExecutor { collect_metrics: true, ..self }),
    {
        HookExecutor { collect_metrics: true, ..self }
    }

    /// Take note of a "before" hook that failed with `message`. With
    /// fail-fast the run stops here (and the plugin's own error is the
    /// result); otherwise the failure is recorded and the run goes on.
    pub fn record_before_failure(&self, failures: &mut Vec<(String, String)>, plugin_name: String, message: String) -> (stop: bool)
        ensures
            stop == self.fail_fast,
            stop ==> final(failures)@ == old(failures)@,
            !stop ==> failures_view(final(failures)@) == failures_view(old(failures)@).push((plugin_name@, message@)),
    {
        if self.fail_fast {
            true
        } else {
            let ghost before = failures@;
            failures.push((plugin_name, message));
            proof {
                assert(failures_view(failures@) =~= failures_view(before).push((plugin_name@, message@)));
            }
            false
        }
    }

    /// What a run of "before" hooks that went to its end reports: nothing
    /// when no plugin failed, else the message of a hook failure naming
    /// every failing plugin.
    pub fn before_run_error(failures: &Vec<(String, String)>) -> (r: Option<String>)
        ensures
            r is None <==> failures@.len() == 0,
            r matches Some(m) ==> m@ == "Multiple plugins failed: "@ + joined_failures(failures_view(failures@)),
    {
        if failures.len() == 0 {
            return None;
        }
        let mut joined = String::new();
        let mut i: usize = 0;
        while i < failures.len()
            invariant
                i <= failures@.len(),
                failures@.len() > 0,
                joined@ == joined_failures(failures_view(failures@.take(i as int))),
            decreases failures@.len() - i,
        {
            let ghost prev = joined@;
            if i > 0 {
                joined.append("; ");
            }
            joined.append(failures[i].0.as_str());
            joined.append(": ");
            joined.append(failures[i].1.as_str());
            proof {
                let t = failures_view(failures@.take(i + 1));
                assert(t.drop_last() =~= failures_view(failures@.take(i as int)));
                assert(t.last() == (failures@[i as int].0@, failures@[i as int].1@));
                if i == 0 {
                    assert(t.len() == 1);
                    assert(joined@ =~= failure_text(t[0]));
                } else {
                    assert(joined@ =~= prev + "; "@ + failure_text(t.last()));
                }
            }
            i = i + 1;
        }
        assert(failures@.take(failures@.len() as int) =~= failures@);
        let mut msg = String::from_str("Multiple plugins failed: ");
        msg.append(joined.as_str());
        Some(msg)
    }
}

/// What the hook of one plugin reported.
#[derive(Debug)]
pub enum HookOutcome {
    /// The hook succeeded
    Passed,
    /// The hook failed with this error; the text is how the error reads
    Failed(PluginError, String),
}

/// What a run of hooks does next.
#[derive(Debug)]
pub enum HookAction {
    /// Run the hook of the plugin at this position
    Invoke(usize),
    /// The run is over, with this result
    Finish(Result<(), PluginError>),
}

/// How a run that went through every plugin ends, given the failures it
/// recorded: success when there are none, else a hook failure naming
/// every failing plugin.
pub open spec fn run_end(failures: Seq<(Seq<char>, Seq<char>)>, a: HookAction) -> bool {
    if failures.len() == 0 {
        a == HookAction::Finish(Ok(()))
    } else {
        a matches HookAction::Finish(Err(PluginError::HookFailed(m)))
            && m@ == "Multiple plugins failed: "@ + joined_failures(failures)
    }
}

/// A run of the hooks of one hook point over a list of plugins, taken in
/// order. Whoever runs the hooks asks the run what to do, does it, and
/// hands back what the hook reported.
#[derive(Debug)]
pub struct HookRun {
    /// The hook point that runs
    pub hook: HookPoint,
    /// Whether "before" semantics apply: failures count, and may end the run
    pub before: bool,
    /// Whether the first failing "before" hook ends the run
    pub fail_fast: bool,
    /// The names of the plugins, in the order they run
    pub plugin_names: Vec<String>,
    /// The position of the plugin whose hook runs next
    pub next: usize,
    /// The failures recorded so far, as (plugin name, error text)
    pub failures: Vec<(String, String)>,
}

impl HookRun {
    /// A run stands within its list of plugins, and records failures only
    /// of "before" hooks.
    pub open spec fn well_formed(&self) -> bool {
        &&& self.next <= self.plugin_names@.len()
        &&& !self.before ==> self.failures@.len() == 0
    }
}

impl HookExecutor {
    /// Start running the hooks of `hook` over plugins with these names,
    /// with "before" semantics or "after" semantics: the first plugin runs
    /// first, and with no plugin the run is over at once and succeeds.
    pub fn begin(&self, hook: HookPoint, before: bool, plugin_names: Vec<String>) -> (r: (HookRun, HookAction))
        ensures
            r.0.well_formed(),
            r.0.hook == hook,
            r.0.before == before,
            r.0.fail_fast == self.fail_fast,
            r.0.plugin_names@ == plugin_names@,
            r.0.next == 0,
            r.0.failures@.len() == 0,
            plugin_names@.len() == 0 ==> r.1 == HookAction::Finish(Ok(())),
            plugin_names@.len() > 0 ==> r.1 == HookAction::Invoke(0),
    {
        let action = if plugin_names.len() == 0 { HookAction::Finish(Ok(())) } else { HookAction::Invoke(0) };
        let run = HookRun { hook, before, fail_fast: self.fail_fast, plugin_names, next: 0, failures: Vec::new() };
        (run, action)
    }
}

impl HookRun {
    /// Take in what the hook of the plugin at `next` reported, and say
    /// what comes next. Under "before" semantics a failing hook ends the
    /// run with its own error when fail-fast is on, and is otherwise
    /// recorded; under "after" semantics a failing hook never fails the
    /// operation. When the last plugin has run, the
    /// run ends as `run_end` says.
    pub fn on_outcome(&mut self, outcome: HookOutcome) -> (a: HookAction)
        requires
            old(self).well_formed(),
            old(self).next < old(self).plugin_names@.len(),
        ensures
            final(self).well_formed(),
            final(self).hook == old(self).hook,
            final(self).before == old(self).before,
            final(self).fail_fast == old(self).fail_fast,
            final(self).plugin_names@ == old(self).plugin_names@,
            final(self).next == old(self).next + 1,
            ({
                let name = old(self).plugin_names@[old(self).next as int]@;
                let before = old(self).before;
                let stop = before && old(self).fail_fast && outcome is Failed;
                &&& stop ==> (outcome matches HookOutcome::Failed(e, _) && a == HookAction::Finish(Err(e)))
                &&& stop ==> final(self).failures@ == old(self).failures@
                &&& (before && !old(self).fail_fast && outcome is Failed) ==> (outcome matches HookOutcome::Failed(_, t)
                    && failures_view(final(self).failures@) == failures_view(old(self).failures@).push((name, t@)))
                &&& !(before && outcome is Failed) ==> final(self).failures@ == old(self).failures@
                &&& !stop && final(self).next < final(self).plugin_names@.len() ==> a == HookAction::Invoke(final(self).next)
                &&& !stop && final(self).next == final(self).plugin_names@.len() ==> run_end(failures_view(final(self).failures@), a)
            }),
            !old(self).before ==> !(a matches HookAction::Finish(Err(_))),
    {
        let i = self.next;
        let n = self.plugin_names.len();
        self.next = i + 1;
        proof { assert(self.next <= n); }
        let before = self.before;
        match outcome {
            HookOutcome::Failed(e, text) => {
                if before {
                    let executor = HookExecutor { fail_fast: self.fail_fast, collect_metrics: false };
                    let name = self.plugin_names[i].clone();
                    if executor.record_before_failure(&mut self.failures, name, text) {
                        return HookAction::Finish(Err(e));
                    }
                }
            },
            HookOutcome::Passed => {},
        }
        if self.next < self.plugin_names.len() {
            HookAction::Invoke(self.next)
        } else {
            match HookExecutor::before_run_error(&self.failures) {
                None => HookAction::Finish(Ok(())),
                Some(m) => HookAction::Finish(Err(PluginError::HookFailed(m))),
            }
        }
    }
}

/// A span divided by a whole number, as `Duration`'s division does it:
/// seconds and nanoseconds are divided separately, and the seconds'
/// remainder, in nanoseconds, is divided together with the nanoseconds'
/// remainder.
pub open spec fn span_div(s: Span, n: u32) -> Span {
    let secs = s.secs / (n as u64);
    let carry = s.secs - secs * n;
    let extra = (carry * 1_000_000_000 + s.nanos % n) / (n as int);
    Span { secs, nanos: (s.nanos / n + extra) as u32 }
}

/// The timing and failures of one run of a hook point.
#[derive(Debug)]
pub struct HookExecutionResult {
    /// Hook point that ran
    pub hook: HookPoint,
    /// Number of plugins that ran
    pub plugins_executed: usize,
    /// Total time taken
    pub total_duration: Span,
    /// Time taken by each plugin
    pub plugin_durations: Vec<(String, Span)>,
    /// Failures, as (plugin name, error text)
    pub errors: Vec<(String, String)>,
}

impl HookExecutionResult {
    /// Whether no plugin failed.
    pub fn is_success(&self) -> (r: bool)
        ensures
            r == (self.errors@.len() == 0),
    {
        self.errors.len() == 0
    }

    /// The mean time per plugin: zero when no plugin ran. The count is
    /// taken modulo 2^32 for the division, so a count that is a non-zero
    /// multiple of 2^32 is ruled out.
    pub fn average_duration(&self) -> (d: Span)
        requires
            self.total_duration.nanos < NANOS_PER_SEC,
            self.plugins_executed == 0 || self.plugins_executed as int % 0x1_0000_0000 != 0,
        ensures
            self.plugins_executed == 0 ==> d == (Span { secs: 0, nanos: 0 }),
            self.plugins_executed != 0 ==> d == span_div(self.total_duration, (self.plugins_executed as int % 0x1_0000_0000) as u32),
    {
        if self.plugins_executed == 0 {
            return Span { secs: 0, nanos: 0 };
        }
        let n: u32 = (self.plugins_executed as u64 % 0x1_0000_0000u64) as u32;
        let t = self.total_duration;
        let secs = t.secs / (n as u64);
        assert(secs * n <= t.secs) by (nonlinear_arith)
            requires secs == t.secs / (n as u64), n > 0;
        let carry: u64 = t.secs - secs * (n as u64);
        assert(carry < n) by (nonlinear_arith)
            requires secs == t.secs / (n as u64), n > 0, carry == t.secs - secs * n;
        let rest: u64 = (t.nanos % n) as u64;
        assert(rest < 1_000_000_000) by (nonlinear_arith)
            requires rest == t.nanos % n, n > 0, t.nanos < 1_000_000_000;
        assert(carry * 1_000_000_000 + rest < n * 1_000_000_000) by (nonlinear_arith)
            requires carry < n, rest < 1_000_000_000, n > 0;
        let extra: u64 = (carry * 1_000_000_000 + rest) / (n as u64);
        assert(extra < 1_000_000_000) by (nonlinear_arith)
            requires extra == (carry * 1_000_000_000 + rest) / (n as int), carry * 1_000_000_000 + rest < n * 1_000_000_000, n > 0;
        let base: u32 = t.nanos / n;
        let nanos: u64 = base as u64 + extra;
        assert(nanos < 0x1_0000_0000);
        Span { secs, nanos: nanos as u32 }
    }
}

/// Each hook point is named after itself, in snake case: `BeforeCreateNode` is `before_create_node`, and so on.
pub proof fn lemma_hook_point_names(h: HookPoint)
    ensures
        hook_name(h) == "before_create_node"@ <==> h == HookPoint::BeforeCreateNode,
        hook_name(h) == "after_create_node"@ <==> h == HookPoint::AfterCreateNode,
        hook_name(h) == "before_create_session"@ <==> h == HookPoint::BeforeCreateSession,
        hook_name(h) == "after_create_session"@ <==> h == HookPoint::AfterCreateSession,
        hook_name(h) == "before_query"@ <==> h == HookPoint::BeforeQuery,
        hook_name(h) == "after_query"@ <==> h == HookPoint::AfterQuery,
        hook_name(h) == "before_create_edge"@ <==> h == HookPoint::BeforeCreateEdge,
        hook_name(h) == "after_create_edge"@ <==> h == HookPoint::AfterCreateEdge,
        hook_name(h) == "before_update_node"@ <==> h == HookPoint::BeforeUpdateNode,
        hook_name(h) == "after_update_node"@ <==> h == HookPoint::AfterUpdateNode,
        hook_name(h) == "before_delete_node"@ <==> h == HookPoint::BeforeDeleteNode,
        hook_name(h) == "after_delete_node"@ <==> h == HookPoint::AfterDeleteNode,
        hook_name(h) == "before_delete_session"@ <==> h == HookPoint::BeforeDeleteSession,
        hook_name(h) == "after_delete_session"@ <==> h == HookPoint::AfterDeleteSession,
{
    lemma_hook_names(h, h);
    reveal_strlit("before_create_node");
    reveal_strlit("after_create_node");
    reveal_strlit("before_create_session");
    reveal_strlit("after_create_session");
    reveal_strlit("before_query");
    reveal_strlit("after_query");
    reveal_strlit("before_create_edge");
    reveal_strlit("after_create_edge");
    reveal_strlit("before_update_node");
    reveal_strlit("after_update_node");
    reveal_strlit("before_delete_node");
    reveal_strlit("after_delete_node");
    reveal_strlit("before_delete_session");
    reveal_strlit("after_delete_session");
    assert("before_create_node"@.len() != "after_create_node"@.len());
    assert("before_create_node"@.len() != "before_create_session"@.len());
    assert("before_create_node"@.len() != "after_create_session"@.len());
    assert("before_create_node"@.len() != "before_query"@.len());
    assert("before_create_node"@.len() != "after_query"@.len());
    assert("before_create_node"@[14] != "before_create_edge"@[14]);
    assert("before_create_node"@.len() != "after_create_edge"@.len());
    assert("before_create_node"@[7] != "before_update_node"@[7]);
    assert("before_create_node"@.len() != "after_update_node"@.len());
    assert("before_create_node"@[7] != "before_delete_node"@[7]);
    assert("before_create_node"@.len() != "after_delete_node"@.len());
    assert("before_create_node"@.len() != "before_delete_session"@.len());
    assert("before_create_node"@.len() != "after_delete_session"@.len());
    assert("after_create_node"@.len() != "before_create_session"@.len());
    assert("after_create_node"@.len() != "after_create_session"@.len());
    assert("after_create_node"@.len() != "before_query"@.len());
    assert("after_create_node"@.len() != "after_query"@.len());
    assert("after_create_node"@.len() != "before_create_edge"@.len());
    assert("after_create_node"@[13] != "after_create_edge"@[13]);
    assert("after_create_node"@.len() != "before_update_node"@.len());
    assert("after_create_node"@[6] != "after_update_node"@[6]);
    assert("after_create_node"@.len() != "before_delete_node"@.len());
    assert("after_create_node"@[6] != "after_delete_node"@[6]);
    assert("after_create_node"@.len() != "before_delete_session"@.len());
    assert("after_create_node"@.len() != "after_delete_session"@.len());
    assert("before_create_session"@.len() != "after_create_session"@.len());
    assert("before_create_session"@.len() != "before_query"@.len());
    assert("before_create_session"@.len() != "after_query"@.len());
    assert("before_create_session"@.len() != "before_create_edge"@.len());
    assert("before_create_session"@.len() != "after_create_edge"@.len());
    assert("before_create_session"@.len() != "before_update_node"@.len());
    assert("before_create_session"@.len() != "after_update_node"@.len());
    assert("before_create_session"@.len() != "before_delete_node"@.len());
    assert("before_create_session"@.len() != "after_delete_node"@.len());
    assert("before_create_session"@[7] != "before_delete_session"@[7]);
    assert("before_create_session"@.len() != "after_delete_session"@.len());
    assert("after_create_session"@.len() != "before_query"@.len());
    assert("after_create_session"@.len() != "after_query"@.len());
    assert("after_create_session"@.len() != "before_create_edge"@.len());
    assert("after_create_session"@.len() != "after_create_edge"@.len());
    assert("after_create_session"@.len() != "before_update_node"@.len());
    assert("after_create_session"@.len() != "after_update_node"@.len());
    assert("after_create_session"@.len() != "before_delete_node"@.len());
    assert("after_create_session"@.len() != "after_delete_node"@.len());
    assert("after_create_session"@.len() != "before_delete_session"@.len());
    assert("after_create_session"@[6] != "after_delete_session"@[6]);
    assert("before_query"@.len() != "after_query"@.len());
    assert("before_query"@.len() != "before_create_edge"@.len());
    assert("before_query"@.len() != "after_create_edge"@.len());
    assert("before_query"@.len() != "before_update_node"@.len());
    assert("before_query"@.len() != "after_update_node"@.len());
    assert("before_query"@.len() != "before_delete_node"@.len());
    assert("before_query"@.len() != "after_delete_node"@.len());
    assert("before_query"@.len() != "before_delete_session"@.len());
    assert("before_query"@.len() != "after_delete_session"@.len());
    assert("after_query"@.len() != "before_create_edge"@.len());
    assert("after_query"@.len() != "after_create_edge"@.len());
    assert("after_query"@.len() != "before_update_node"@.len());
    assert("after_query"@.len() != "after_update_node"@.len());
    assert("after_query"@.len() != "before_delete_node"@.len());
    assert("after_query"@.len() != "after_delete_node"@.len());
    assert("after_query"@.len() != "before_delete_session"@.len());
    assert("after_query"@.len() != "after_delete_session"@.len());
    assert("before_create_edge"@.len() != "after_create_edge"@.len());
    assert("before_create_edge"@[7] != "before_update_node"@[7]);
    assert("before_create_edge"@.len() != "after_update_node"@.len());
    assert("before_create_edge"@[7] != "before_delete_node"@[7]);
    assert("before_create_edge"@.len() != "after_delete_node"@.len());
    assert("before_create_edge"@.len() != "before_delete_session"@.len());
    assert("before_create_edge"@.len() != "after_delete_session"@.len());
    assert("after_create_edge"@.len() != "before_update_node"@.len());
    assert("after_create_edge"@[6] != "after_update_node"@[6]);
    assert("after_create_edge"@.len() != "before_delete_node"@.len());
    assert("after_create_edge"@[6] != "after_delete_node"@[6]);
    assert("after_create_edge"@.len() != "before_delete_session"@.len());
    assert("after_create_edge"@.len() != "after_delete_session"@.len());
    assert("before_update_node"@.len() != "after_update_node"@.len());
    assert("before_update_node"@[7] != "before_delete_node"@[7]);
    assert("before_update_node"@.len() != "after_delete_node"@.len());
    assert("before_update_node"@.len() != "before_delete_session"@.len());
    assert("before_update_node"@.len() != "after_delete_session"@.len());
    assert("after_update_node"@.len() != "before_delete_node"@.len());
    assert("after_update_node"@[6] != "after_delete_node"@[6]);
    assert("after_update_node"@.len() != "before_delete_session"@.len());
    assert("after_update_node"@.len() != "after_delete_session"@.len());
    assert("before_delete_node"@.len() != "after_delete_node"@.len());
    assert("before_delete_node"@.len() != "before_delete_session"@.len());
    assert("before_delete_node"@.len() != "after_delete_session"@.len());
    assert("after_delete_node"@.len() != "before_delete_session"@.len());
    assert("after_delete_node"@.len() != "after_delete_session"@.len());
    assert("before_delete_session"@.len() != "after_delete_session"@.len());
}

} // verus!
