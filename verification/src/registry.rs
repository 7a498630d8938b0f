//! The widget registry: an ordered collection of factories, resolved by
//! widget type tag with the most recently registered claimant winning.
//!
//! A factory itself — the host object that builds a widget from a manifest —
//! lives outside this core; the registry records, per factory, the tags it
//! claims, and resolution yields the factory's registration index.

use crate::error::WidgetError;
use crate::path::str_eq;
use vstd::prelude::*;

verus! {

/// What the registry knows of one host-supplied widget factory: the widget
/// type tags it can handle. Its registration index identifies the factory to
/// the host.
#[derive(Debug)]
pub struct FactoryInfo {
    pub can_handle: Vec<String>,
}

/// First match in the tag table, newest registrations first.
pub open spec fn tag_find(entries: Seq<(String, usize)>, tag: Seq<char>) -> Option<usize>
    decreases entries.len(),
{
    if entries.len() == 0 {
        None
    } else if entries[0].0@ == tag {
        Some(entries[0].1)
    } else {
        tag_find(entries.skip(1), tag)
    }
}

/// How one registration changes a registry: the factory count grows by one,
/// every tag the factory claims now resolves to the new factory, and every
/// other tag resolves as before.
pub open spec fn registered(pre: Registry, factory: FactoryInfo, post: Registry) -> bool {
    &&& post.num_factories() == pre.num_factories() + 1
    &&& forall|t: Seq<char>|
        factory.can_handle.deep_view().contains(t) ==> (#[trigger] post.lookup(t) matches Some(i)
            && i == pre.num_factories())
    &&& forall|t: Seq<char>|
        !factory.can_handle.deep_view().contains(t) ==> #[trigger] post.lookup(t) == pre.lookup(t)
}

/// Registering a second factory for a tag an earlier factory already claims
/// shadows the first: after both registrations the tag resolves to the
/// later factory, not the earlier one.
pub proof fn lemma_later_factory_shadows(
    r0: Registry,
    f1: FactoryInfo,
    r1: Registry,
    f2: FactoryInfo,
    r2: Registry,
    t: Seq<char>,
)
    requires
        registered(r0, f1, r1),
        registered(r1, f2, r2),
        f1.can_handle.deep_view().contains(t),
        f2.can_handle.deep_view().contains(t),
    ensures
        r1.lookup(t) matches Some(i1) && i1 == r0.num_factories(),
        r2.lookup(t) matches Some(i2) && i2 == r1.num_factories(),
        r2.lookup(t) != r1.lookup(t),
{
    let i1 = r1.lookup(t)->Some_0;
    let i2 = r2.lookup(t)->Some_0;
    assert(i1 == r0.num_factories());
    assert(i2 == r1.num_factories());
    assert(i1 != i2);
}

/// Maps widget type tags to factories; resolution by tag returns the factory
/// registered last among those claiming the tag.
#[derive(Debug)]
pub struct Registry {
    factories: Vec<FactoryInfo>,
    /// Tag table, most recent registration first.
    factory_by_widget: Vec<(String, usize)>,
}

impl Registry {
    /// Every tag entry points at a registered factory.
    pub closed spec fn wf(&self) -> bool {
        forall|i: int|
            0 <= i < self.factory_by_widget@.len() ==> (
            #[trigger] self.factory_by_widget@[i]).1 < self.factories@.len()
    }

    /// How many factories have been registered.
    pub closed spec fn num_factories(&self) -> int {
        self.factories@.len() as int
    }

    /// The factory index the given tag resolves to, if any factory claims
    /// it.
    pub closed spec fn lookup(&self, tag: Seq<char>) -> Option<usize> {
        tag_find(self.factory_by_widget@, tag)
    }

    /// The tags the factory at `index` claims.
    pub closed spec fn factory_tags(&self, index: int) -> Seq<Seq<char>> {
        self.factories@[index].can_handle.deep_view()
    }

    /// An empty registry: no factories, no claimed tags.
    pub fn new() -> (r: Registry)
        ensures
            r.wf(),
            r.num_factories() == 0,
            forall|t: Seq<char>| r.lookup(t) is None,
    {
        Registry { factories: Vec::new(), factory_by_widget: Vec::new() }
    }

    /// Register one factory. Every tag it claims now resolves to it,
    /// shadowing any earlier claimant of the same tag; other tags are
    /// untouched.
    pub fn add_widget(self, factory: FactoryInfo) -> (r: Registry)
        requires
            self.wf(),
        ensures
            r.wf(),
            r.num_factories() == self.num_factories() + 1,
            r.factory_tags(self.num_factories()) == factory.can_handle.deep_view(),
            forall|t: Seq<char>|
                factory.can_handle.deep_view().contains(t) ==> #[trigger] r.lookup(t) == Some(
                    self.num_factories() as usize,
                ),
            forall|t: Seq<char>|
                !factory.can_handle.deep_view().contains(t) ==> #[trigger] r.lookup(t)
                    == self.lookup(t),
            forall|i: int|
                0 <= i < self.num_factories() ==> #[trigger] r.factory_tags(i)
                    == self.factory_tags(i),
            registered(self, factory, r),
    {
        let Registry { mut factories, mut factory_by_widget } = self;
        let ghost old_factories = factories@;
        let ghost old_table = factory_by_widget@;
        let index = factories.len();
        let ghost tags = factory.can_handle.deep_view();
        let n = factory.can_handle.len();
        let mut k: usize = 0;
        while k < n
            invariant
                n == tags.len(),
                k <= n,
                index == old_factories.len(),
                factories@ == old_factories,
                forall|i: int|
                    0 <= i < factory_by_widget@.len() ==> (#[trigger] factory_by_widget@[i]).1
                        <= index,
                forall|t: Seq<char>|
                    tags.take(k as int).contains(t) ==> #[trigger] tag_find(factory_by_widget@, t)
                        == Some(index),
                forall|t: Seq<char>|
                    !tags.take(k as int).contains(t) ==> #[trigger] tag_find(factory_by_widget@, t)
                        == tag_find(old_table, t),
                tags == factory.can_handle.deep_view(),
            decreases n - k,
        {
            let ghost before = factory_by_widget@;
            let tag = factory.can_handle[k].clone();
            factory_by_widget.insert(0, (tag, index));
            proof {
                let now = factory_by_widget@;
                assert(now[0].0@ == tags[k as int]);
                assert(now.skip(1) =~= before);
                assert forall|t: Seq<char>| true implies #[trigger] tag_find(now, t) == (if t
                    == tags[k as int] {
                    Some(index)
                } else {
                    tag_find(before, t)
                }) by {
                    assert(tag_find(now, t) == if now[0].0@ == t {
                        Some(now[0].1)
                    } else {
                        tag_find(now.skip(1), t)
                    });
                }
                assert forall|t: Seq<char>| tags.take(k + 1).contains(t) implies #[trigger] tag_find(
                    factory_by_widget@,
                    t,
                ) == Some(index) by {
                    if t != tags[k as int] {
                        let w = choose|j: int| 0 <= j < k + 1 && (#[trigger] tags.take(k + 1)[j]) == t;
                        assert(tags.take(k as int)[w] == t);
                    }
                }
                assert forall|t: Seq<char>| !tags.take(k + 1).contains(t) implies #[trigger] tag_find(
                    factory_by_widget@,
                    t,
                ) == tag_find(old_table, t) by {
                    assert(forall|j: int|
                        0 <= j < k ==> tags.take(k as int)[j] == #[trigger] tags.take(k + 1)[j]);
                    if tags.take(k as int).contains(t) {
                        let w = choose|j: int| 0 <= j < k && (#[trigger] tags.take(k as int)[j]) == t;
                        assert(tags.take(k + 1)[w] == t);
                    }
                    assert(t != tags[k as int]) by {
                        if t == tags[k as int] {
                            assert(tags.take(k + 1)[k as int] == t);
                        }
                    }
                }
            }
            k += 1;
        }
        factories.push(factory);
        let r = Registry { factories, factory_by_widget };
        proof {
            assert(tags.take(n as int) =~= tags);
            assert(r.factory_tags(old_factories.len() as int) == tags);
            assert forall|i: int| 0 <= i < old_factories.len() implies #[trigger] r.factory_tags(i)
                == old_factories[i].can_handle.deep_view() by {
                assert(r.factories@[i] == old_factories[i]);
            }
        }
        r
    }

    /// Resolve a widget type tag to the factory that most recently claimed
    /// it, or fail naming the unknown tag.
    pub fn get_widget(&self, widget: &str) -> (r: Result<usize, WidgetError>)
        requires
            self.wf(),
        ensures
            self.lookup(widget@) matches Some(i) ==> r == Ok::<usize, WidgetError>(i) && i
                < self.num_factories(),
            self.lookup(widget@) is None ==> (r matches Err(e) && e.widget@ == widget@ && e.err@
                == "No such widget"@),
    {
        let n = self.factory_by_widget.len();
        let mut j: usize = 0;
        proof {
            assert(self.factory_by_widget@.skip(0) =~= self.factory_by_widget@);
        }
        while j < n
            invariant
                self.wf(),
                n == self.factory_by_widget@.len(),
                j <= n,
                tag_find(self.factory_by_widget@, widget@) == tag_find(
                    self.factory_by_widget@.skip(j as int),
                    widget@,
                ),
            decreases n - j,
        {
            let entry_tag = self.factory_by_widget[j].0.as_str();
            proof {
                assert(self.factory_by_widget@.skip(j as int)[0] == self.factory_by_widget@[j as int]);
            }
            if str_eq(entry_tag, widget) {
                let i = self.factory_by_widget[j].1;
                return Ok(i);
            }
            proof {
                assert(self.factory_by_widget@.skip(j as int).skip(1) =~= self.factory_by_widget@.skip(
                    j + 1,
                ));
            }
            j += 1;
        }
        proof {
            assert(self.factory_by_widget@.skip(n as int).len() == 0);
        }
        Err(WidgetError::new(widget, "No such widget"))
    }
}

} // verus!
