//! The document tree: per-path lifecycle state (`Unseen → Loading → Ready /
//! Failed`), the declared-dependency table, and the interpreter that turns
//! incoming events into new state plus a queue of host actions.
//!
//! The host owns the event loop: it performs each returned [`Action`]
//! (fetches, widget lifecycle calls) and posts the outcome back as a
//! [`Msg`]. State is mutated here only, on the single update thread.

use crate::constants::doc_dir;
use crate::context::Context;
use crate::error::{fetch_error_message, FetchError};
use crate::manifests::{DocManifest, SiteManifest};
use crate::orders::{WidgetCmd, WidgetOrders};
use crate::path::{
    head_spec, join_spec, to_string_spec, Path, PathView,
};
use crate::path_map::PathMap;
use crate::widget::{WidgetMsg, WidgetSlot};
use vstd::prelude::*;
use vstd::string::StringExecFns;

verus! {

/// A path is among the declared dependencies.
pub open spec fn in_path_set(deps: Seq<Path>, x: PathView) -> bool {
    exists|i: int| 0 <= i < deps.len() && (#[trigger] deps[i])@ == x
}

/// Both lists declare the same set of paths.
pub open spec fn same_path_set(a: Seq<Path>, b: Seq<Path>) -> bool {
    forall|x: PathView| in_path_set(a, x) == in_path_set(b, x)
}

/// The URL a widget-relative fetch resolves to: the documents root, the
/// widget's own document head segment, then the requested relative path.
pub open spec fn fetch_url_spec(doc: PathView, file: PathView) -> PathView {
    join_spec(join_spec(PathView { segs: seq!["docs"@], absolute: false }, head_spec(doc)), file)
}

/// The page the current context asks for: the context's page path, else the
/// site manifest's index page, else "index".
pub open spec fn page_or_index_spec(page: PathView, index: PathView) -> PathView {
    if page.segs.len() > 0 {
        page
    } else if index.segs.len() > 0 {
        index
    } else {
        PathView { segs: seq!["index"@], absolute: false }
    }
}

/// The message of the stand-in installed when a lifecycle call addresses an
/// untracked path.
pub open spec fn widget_not_found_message(p: PathView) -> Seq<char> {
    "Widget for \""@ + to_string_spec(p) + "\" not found"@
}

/// The placeholder slot for a path that has just entered `Loading`.
pub open spec fn loading_slot_spec(ctx: Context) -> WidgetSlot {
    WidgetSlot::Loading { factory: ctx.registry.lookup("loading"@) }
}

/// The document tree's state: the current page, its full path under the
/// master page, the per-path widget slots, and the declared-dependency
/// table.
#[derive(Debug)]
pub struct Model {
    pub page_path: Path,
    pub full_path: Path,
    pub widgets: PathMap<WidgetSlot>,
    pub dependencies: PathMap<Vec<Path>>,
}

impl Model {
    /// Both tables have unique keys.
    pub open spec fn wf(&self) -> bool {
        self.widgets.wf() && self.dependencies.wf()
    }
}

/// An event entering the document tree: navigation, fetched manifests,
/// widget lifecycle outcomes, and dependency declarations.
pub enum Msg<F, R> {
    /// The current page changed; the new page is read from the context.
    PageChanged(Path),
    /// The site manifest arrived or changed.
    SiteManifestChanged(SiteManifest),
    /// The manifest fetch for the document at this path resolved.
    DocManifestFetched(Path, Result<DocManifest, FetchError>),
    /// The host built a widget for this path: its type tag and the factory
    /// that made it.
    WidgetCreated(Path, String, usize),
    /// The widget at this path now owns its slot; run its `init`.
    WidgetReady(Path),
    /// Loading this path failed with the given message.
    WidgetFailed(Path, String),
    /// An async result for the widget at this path.
    WidgetMsg(Path, WidgetMsg<R>),
    /// The host ran a lifecycle call of the widget at this path; here is
    /// its effect queue, or its error.
    WidgetResult(Path, Result<Option<WidgetOrders<F>>, String>),
    /// The widget at this path declares this dependency set.
    UpdateDependencies(Path, Vec<Path>),
    /// The dependency set at this path changed.
    DependenciesChanged(Path),
    /// A surfaced error, shown to the host's log.
    Error(String),
}

/// What the host must do after an update: issue fetches, run widget
/// lifecycle calls, post follow-up messages.
pub enum Action<F, R> {
    /// Fetch `docs/<doc>/document.json` and post `DocManifestFetched` for
    /// `path`.
    FetchDocManifest { doc: String, path: Path },
    /// Build a widget for `path` with the factory at `factory`; post
    /// `WidgetCreated` on success, `WidgetFailed` on failure.
    CreateWidget { path: Path, factory: usize, manifest: DocManifest },
    /// Run `init` of the widget at `path`; post `WidgetResult`.
    InvokeInit { path: Path },
    /// Run `update` of the widget at `path` with the message; post
    /// `WidgetResult`.
    InvokeUpdate { path: Path, msg: WidgetMsg<R> },
    /// Fetch bytes from `url`; post `WidgetMsg(doc_path,
    /// FetchBytesResult(file, ..))`.
    FetchBytes { url: Path, doc_path: Path, file: Path },
    /// Fetch structured data from `url`; post `WidgetMsg(doc_path,
    /// FetchJsonResult(file, ..))`.
    FetchJson { url: Path, doc_path: Path, file: Path },
    /// Fetch text from `url`; post `WidgetMsg(doc_path,
    /// FetchTextResult(file, ..))`.
    FetchText { url: Path, doc_path: Path, file: Path },
    /// Run the opaque async operation; post `WidgetMsg(doc_path,
    /// CmdResult(..))`.
    PerformCmd { doc_path: Path, cmd: F },
    /// Post this message back into the update loop.
    Send(Msg<F, R>),
    /// Surface this message to the host's log.
    LogError(String),
    /// Nothing visible happened.
    Skip,
}

/// The action that asks the host to fetch `target`'s manifest and post the
/// outcome for `target`.
pub open spec fn is_fetch_manifest_for<F, R>(act: Action<F, R>, target: PathView) -> bool {
    act matches Action::FetchDocManifest { doc, path } && doc@ == to_string_spec(
        head_spec(target),
    ) && path@ == target
}

/// One queued widget command corresponds to one host action.
pub open spec fn action_matches<F, R>(cmd: WidgetCmd<F>, act: Action<F, R>, doc: PathView) -> bool {
    match cmd {
        WidgetCmd::FetchBytes(p) => act matches Action::FetchBytes { url, doc_path, file }
            && url@ == fetch_url_spec(doc, p@) && doc_path@ == doc && file == p,
        WidgetCmd::FetchJson(p) => act matches Action::FetchJson { url, doc_path, file } && url@
            == fetch_url_spec(doc, p@) && doc_path@ == doc && file == p,
        WidgetCmd::FetchText(p) => act matches Action::FetchText { url, doc_path, file } && url@
            == fetch_url_spec(doc, p@) && doc_path@ == doc && file == p,
        WidgetCmd::PerformCmd(f) => act matches Action::PerformCmd { doc_path, cmd } && doc_path@
            == doc && cmd == f,
        WidgetCmd::UpdateDependencies(d) => act matches Action::Send(m) && m matches
            Msg::UpdateDependencies(p2, d2) && p2@ == doc && d2 == d,
        WidgetCmd::Skip => act is Skip,
    }
}

/// The document path a manifest-fetch action concerns, if it is one.
pub open spec fn manifest_fetch_target<F, R>(act: Action<F, R>) -> Option<PathView> {
    match act {
        Action::FetchDocManifest { doc, path } => Some(path@),
        _ => None,
    }
}

/// The message of the stand-in for a widget whose type tag no factory
/// claims.
pub open spec fn unknown_widget_message(tag: Seq<char>) -> Seq<char> {
    "Error in widget \""@ + tag + "\": "@ + "No such widget"@
}

/// After loading one document: `target` holds the placeholder, everything
/// else is untouched.
pub open spec fn widgets_after_load(pre: Model, post: Model, ctx: Context, target: PathView) -> bool {
    &&& post.widgets.find(target) == Some(loading_slot_spec(ctx))
    &&& forall|k: PathView| k != target ==> #[trigger] post.widgets.find(k) == pre.widgets.find(k)
}

/// After loading a dependency list: every declared path that was untracked
/// now holds the placeholder; every other path is untouched. In particular
/// a path already `Loading`, `Ready` or `Failed` is not disturbed.
pub open spec fn widgets_after_deps(pre: Model, post: Model, ctx: Context, deps: Seq<Path>) -> bool {
    forall|k: PathView|
        #[trigger] post.widgets.find(k) == if in_path_set(deps, k) && pre.widgets.find(k) is None {
            Some(loading_slot_spec(ctx))
        } else {
            pre.widgets.find(k)
        }
}

/// The actions in `[lo, hi)` are exactly one manifest fetch for each
/// declared path that was not yet tracked: each is such a fetch, no two
/// fetch the same path, and every newly declared untracked path is fetched.
pub open spec fn fetches_for_new_deps<F, R>(
    pre: Model,
    deps: Seq<Path>,
    acts: Seq<Action<F, R>>,
    lo: int,
    hi: int,
) -> bool {
    &&& forall|i: int|
        #![trigger acts[i]]
        lo <= i < hi ==> (manifest_fetch_target(acts[i]) is Some && is_fetch_manifest_for(
            acts[i],
            manifest_fetch_target(acts[i])->Some_0,
        ) && in_path_set(deps, manifest_fetch_target(acts[i])->Some_0) && pre.widgets.find(
            manifest_fetch_target(acts[i])->Some_0,
        ) is None)
    &&& forall|i: int, j: int|
        #![auto]
        lo <= i < j < hi ==> manifest_fetch_target(acts[i]) != manifest_fetch_target(acts[j])
    &&& forall|k: PathView|
        #![auto]
        in_path_set(deps, k) && pre.widgets.find(k) is None ==> exists|i: int|
            lo <= i < hi && manifest_fetch_target(acts[i]) == Some(k)
}

/// After a page change or a new site manifest: the current page and its
/// full path are recomputed; an untracked full path enters `Loading` with
/// exactly one manifest fetch, a tracked one is left alone with no fetch.
pub open spec fn post_page_changed<F, R>(
    pre: Model,
    post: Model,
    ctx: Context,
    acts: Seq<Action<F, R>>,
) -> bool {
    &&& post.page_path@ == page_or_index_spec(ctx.page_path@, ctx.site_manifest.index_page@)
    &&& post.full_path@ == join_spec(ctx.site_manifest.master_page@, post.page_path@)
    &&& post.dependencies == pre.dependencies
    &&& pre.widgets.contains(post.full_path@) ==> post.widgets == pre.widgets && acts.len() == 0
    &&& !pre.widgets.contains(post.full_path@) ==> widgets_after_load(
        pre,
        post,
        ctx,
        post.full_path@,
    ) && acts.len() == 1 && is_fetch_manifest_for(acts[0], post.full_path@)
}

/// After a manifest arrived: a resolvable tag asks the host to build the
/// widget; an unknown tag or a fetch error is routed to `WidgetFailed` with
/// the exact message. The tree itself does not change yet.
pub open spec fn post_doc_manifest_fetched<F, R>(
    pre: Model,
    post: Model,
    ctx: Context,
    path: Path,
    res: Result<DocManifest, FetchError>,
    acts: Seq<Action<F, R>>,
) -> bool {
    &&& post == pre
    &&& acts.len() == 1
    &&& match res {
        Ok(m) => {
            match ctx.registry.lookup(m.widget@) {
                Some(idx) => acts[0] matches Action::CreateWidget { path: p, factory, manifest }
                    && p == path && factory == idx && manifest == m,
                None => acts[0] matches Action::Send(m2) && m2 matches Msg::WidgetFailed(p, s) && p
                    == path && s@ == unknown_widget_message(m.widget@),
            }
        },
        Err(e) => acts[0] matches Action::Send(m2) && m2 matches Msg::WidgetFailed(p, s) && p
            == path && s@ == fetch_error_message(e),
    }
}

/// After loading failed for a path: its declared dependencies are dropped
/// (a failed widget has no children), the `Failed` stand-in carrying the
/// path and message occupies the slot, and the host is told to re-run the
/// ready step and surface the error. Rendering elsewhere is unaffected.
pub open spec fn post_widget_failed<F, R>(
    pre: Model,
    post: Model,
    path: Path,
    error: String,
    acts: Seq<Action<F, R>>,
) -> bool {
    &&& post.page_path == pre.page_path
    &&& post.full_path == pre.full_path
    &&& post.dependencies.find(path@) is None
    &&& forall|k: PathView|
        k != path@ ==> #[trigger] post.dependencies.find(k) == pre.dependencies.find(k)
    &&& post.widgets.find(path@) matches Some(s) && s matches WidgetSlot::Failed {
        doc_path,
        error: e,
    } && doc_path@ == path@ && e@ == error@
    &&& forall|k: PathView| k != path@ ==> #[trigger] post.widgets.find(k) == pre.widgets.find(k)
    &&& acts.len() == 2
    &&& acts[0] matches Action::Send(m1) && m1 matches Msg::WidgetReady(p1) && p1 == path
    &&& acts[1] matches Action::Send(m2) && m2 matches Msg::Error(s2) && s2@ == error@
}

/// After a widget's effect queue came back: each queued command becomes the
/// corresponding host action, in order; a failed lifecycle call is routed
/// to `WidgetFailed`.
pub open spec fn post_widget_result<F, R>(
    pre: Model,
    post: Model,
    path: Path,
    res: Result<Option<WidgetOrders<F>>, String>,
    acts: Seq<Action<F, R>>,
) -> bool {
    &&& post == pre
    &&& match res {
        Ok(Some(orders)) => acts.len() == orders.cmds().len() && forall|i: int|
            #![auto]
            0 <= i < acts.len() ==> action_matches(orders.cmds()[i], acts[i], path@),
        Ok(None) => acts.len() == 0,
        Err(e) => acts.len() == 1 && (acts[0] matches Action::Send(m2) && m2 matches
            Msg::WidgetFailed(p, s) && p == path && s == e),
    }
}

/// After a dependency declaration: an unchanged set is an explicit no-op;
/// a changed set replaces the stored one, newly declared untracked paths
/// enter `Loading` with exactly one manifest fetch each, and the change is
/// announced.
pub open spec fn post_update_dependencies<F, R>(
    pre: Model,
    post: Model,
    ctx: Context,
    path: Path,
    deps: Vec<Path>,
    acts: Seq<Action<F, R>>,
) -> bool {
    let same = pre.dependencies.find(path@) matches Some(d0) && same_path_set(d0@, deps@);
    &&& post.page_path == pre.page_path
    &&& post.full_path == pre.full_path
    &&& same ==> post == pre && acts.len() == 1 && acts[0] is Skip
    &&& !same ==> {
        &&& post.dependencies.find(path@) matches Some(d) && d@ == deps@
        &&& forall|k: PathView|
            k != path@ ==> #[trigger] post.dependencies.find(k) == pre.dependencies.find(k)
        &&& widgets_after_deps(pre, post, ctx, deps@)
        &&& acts.len() >= 1
        &&& fetches_for_new_deps(pre, deps@, acts, 0, acts.len() - 1)
        &&& acts.last() matches Action::Send(m2) && m2 matches Msg::DependenciesChanged(p2) && p2
            == path
    }
}

/// After the host built a widget: it owns its slot under its tag and
/// factory, and its ready step is scheduled.
pub open spec fn post_widget_created<F, R>(
    pre: Model,
    post: Model,
    path: Path,
    tag: String,
    factory: usize,
    acts: Seq<Action<F, R>>,
) -> bool {
    &&& post.page_path == pre.page_path
    &&& post.full_path == pre.full_path
    &&& post.dependencies == pre.dependencies
    &&& post.widgets.find(path@) == Some(WidgetSlot::Ready { widget: tag, factory })
    &&& forall|k: PathView| k != path@ ==> #[trigger] post.widgets.find(k) == pre.widgets.find(k)
    &&& acts.len() == 1
    &&& acts[0] matches Action::Send(m) && m matches Msg::WidgetReady(p) && p == path
}

/// After a widget became ready: its `init` runs if the slot exists; a
/// lifecycle call on an untracked path is routed to `WidgetFailed`.
pub open spec fn post_widget_ready<F, R>(
    pre: Model,
    post: Model,
    path: Path,
    acts: Seq<Action<F, R>>,
) -> bool {
    &&& post == pre
    &&& acts.len() == 1
    &&& pre.widgets.contains(path@) ==> (acts[0] matches Action::InvokeInit { path: p } && p
        == path)
    &&& !pre.widgets.contains(path@) ==> (acts[0] matches Action::Send(m) && m matches
        Msg::WidgetFailed(p, s) && p == path && s@ == widget_not_found_message(path@))
}

/// After an async result arrived: it is delivered to the widget's `update`
/// if the slot exists; a result for an untracked path is only logged.
pub open spec fn post_widget_msg<F, R>(
    pre: Model,
    post: Model,
    path: Path,
    wmsg: WidgetMsg<R>,
    acts: Seq<Action<F, R>>,
) -> bool {
    &&& post == pre
    &&& acts.len() == 1
    &&& pre.widgets.contains(path@) ==> (acts[0] matches Action::InvokeUpdate { path: p, msg: m }
        && p == path && m == wmsg)
    &&& !pre.widgets.contains(path@) ==> (acts[0] matches Action::LogError(s) && s@
        == "Got message for unknown widget"@)
}

/// Requesting the current page twice in a row issues at most one manifest
/// fetch: the first request may start loading its full path, after which
/// the path is tracked — `Loading` — so the second request issues no fetch
/// and changes nothing in the widget table.
pub proof fn lemma_second_request_issues_no_fetch<F, R>(
    pre: Model,
    mid: Model,
    post: Model,
    ctx: Context,
    acts1: Seq<Action<F, R>>,
    acts2: Seq<Action<F, R>>,
)
    requires
        post_page_changed(pre, mid, ctx, acts1),
        post_page_changed(mid, post, ctx, acts2),
    ensures
        !pre.widgets.contains(mid.full_path@) ==> acts1.len() == 1 && is_fetch_manifest_for(
            acts1[0],
            mid.full_path@,
        ),
        acts2.len() == 0,
        post.widgets == mid.widgets,
{
    assert(post.full_path@ == mid.full_path@);
    assert(mid.widgets.contains(post.full_path@));
}

/// Whether the list declares `p`.
pub(crate) fn contains_path(deps: &Vec<Path>, p: &Path) -> (r: bool)
    ensures
        r == in_path_set(deps@, p@),
{
    let n = deps.len();
    let mut i: usize = 0;
    while i < n
        invariant
            n == deps@.len(),
            i <= n,
            forall|j: int| 0 <= j < i ==> (#[trigger] deps@[j])@ != p@,
        decreases n - i,
    {
        if deps[i] == *p {
            return true;
        }
        i += 1;
    }
    false
}

/// Whether two lists declare the same set of paths.
fn path_set_eq(a: &Vec<Path>, b: &Vec<Path>) -> (r: bool)
    ensures
        r == same_path_set(a@, b@),
{
    let mut i: usize = 0;
    while i < a.len()
        invariant
            i <= a@.len(),
            forall|j: int| 0 <= j < i ==> in_path_set(b@, (#[trigger] a@[j])@),
        decreases a@.len() - i,
    {
        if !contains_path(b, &a[i]) {
            proof {
                assert(in_path_set(a@, a@[i as int]@));
            }
            return false;
        }
        i += 1;
    }
    let mut j: usize = 0;
    while j < b.len()
        invariant
            i == a@.len(),
            j <= b@.len(),
            forall|t: int| 0 <= t < a@.len() ==> in_path_set(b@, (#[trigger] a@[t])@),
            forall|t: int| 0 <= t < j ==> in_path_set(a@, (#[trigger] b@[t])@),
        decreases b@.len() - j,
    {
        if !contains_path(a, &b[j]) {
            proof {
                assert(in_path_set(b@, b@[j as int]@));
            }
            return false;
        }
        j += 1;
    }
    proof {
        assert forall|x: PathView| in_path_set(a@, x) == in_path_set(b@, x) by {
            if in_path_set(a@, x) {
                let w = choose|t: int| 0 <= t < a@.len() && (#[trigger] a@[t])@ == x;
                assert(in_path_set(b@, a@[w]@));
            }
            if in_path_set(b@, x) {
                let w = choose|t: int| 0 <= t < b@.len() && (#[trigger] b@[t])@ == x;
                assert(in_path_set(a@, b@[w]@));
            }
        }
    }
    true
}

/// Interpret one widget effect queue for the document at `doc_path`: each
/// command, front to back, becomes the corresponding host action.
pub fn perform_widget_orders<F, R>(
    w_orders: WidgetOrders<F>,
    doc_path: Path,
    actions: &mut Vec<Action<F, R>>,
)
    ensures
        final(actions)@.len() == old(actions)@.len() + w_orders.cmds().len(),
        forall|i: int| 0 <= i < old(actions)@.len() ==> final(actions)@[i] == old(actions)@[i],
        forall|i: int|
            #![auto]
            0 <= i < w_orders.cmds().len() ==> action_matches(
                w_orders.cmds()[i],
                final(actions)@[old(actions)@.len() + i],
                doc_path@,
            ),
{
    let ghost all = w_orders.cmds();
    let ghost base = actions@.len();
    let mut orders = w_orders.into_queue();
    let ghost mut t: int = 0;
    proof {
        assert(orders@ =~= all.skip(0));
    }
    while orders.len() > 0
        invariant
            0 <= t <= all.len(),
            orders@ == all.skip(t),
            actions@.len() == base + t,
            forall|i: int| 0 <= i < base ==> actions@[i] == old(actions)@[i],
            forall|i: int|
                #![auto]
                0 <= i < t ==> action_matches(all[i], actions@[base + i], doc_path@),
        decreases orders@.len(),
    {
        let cmd_opt = orders.pop_front();
        match cmd_opt {
            Some(cmd) => {
                proof {
                    assert(all.skip(t)[0] == all[t]);
                    assert(all.skip(t).subrange(1, all.skip(t).len() as int) =~= all.skip(t + 1));
                }
                match cmd {
                    WidgetCmd::FetchBytes(p) => {
                        let url = Path::new().add(doc_dir()).join(&doc_path.head()).join(&p);
                        proof {
                            assert(url@ =~= fetch_url_spec(doc_path@, p@));
                        }
                        actions.push(
                            Action::FetchBytes { url, doc_path: doc_path.clone(), file: p },
                        );
                    },
                    WidgetCmd::FetchJson(p) => {
                        let url = Path::new().add(doc_dir()).join(&doc_path.head()).join(&p);
                        proof {
                            assert(url@ =~= fetch_url_spec(doc_path@, p@));
                        }
                        actions.push(
                            Action::FetchJson { url, doc_path: doc_path.clone(), file: p },
                        );
                    },
                    WidgetCmd::FetchText(p) => {
                        let url = Path::new().add(doc_dir()).join(&doc_path.head()).join(&p);
                        proof {
                            assert(url@ =~= fetch_url_spec(doc_path@, p@));
                        }
                        actions.push(
                            Action::FetchText { url, doc_path: doc_path.clone(), file: p },
                        );
                    },
                    WidgetCmd::PerformCmd(f) => {
                        actions.push(Action::PerformCmd { doc_path: doc_path.clone(), cmd: f });
                    },
                    WidgetCmd::UpdateDependencies(d) => {
                        actions.push(
                            Action::Send(Msg::UpdateDependencies(doc_path.clone(), d)),
                        );
                    },
                    WidgetCmd::Skip => {
                        actions.push(Action::Skip);
                    },
                }
                proof {
                    t = t + 1;
                }
            },
            None => {
                proof {
                    assert(false);
                }
            },
        }
    }
    proof {
        assert(all.skip(t).len() == 0);
        assert(t == all.len());
    }
}

/// Begin loading every declared dependency that is not yet tracked: each
/// gets the placeholder slot and exactly one manifest fetch; paths already
/// tracked are left alone.
fn load_dependencies<F, R>(
    deps: &Vec<Path>,
    model: &mut Model,
    ctx: &Context,
    actions: &mut Vec<Action<F, R>>,
)
    requires
        old(model).wf(),
        ctx.wf(),
    ensures
        final(model).wf(),
        final(model).page_path == old(model).page_path,
        final(model).full_path == old(model).full_path,
        final(model).dependencies == old(model).dependencies,
        widgets_after_deps(*old(model), *final(model), *ctx, deps@),
        final(actions)@.len() >= old(actions)@.len(),
        forall|i: int| 0 <= i < old(actions)@.len() ==> final(actions)@[i] == old(actions)@[i],
        fetches_for_new_deps(
            *old(model),
            deps@,
            final(actions)@,
            old(actions)@.len() as int,
            final(actions)@.len() as int,
        ),
{
    let ghost m0 = *model;
    let ghost base = actions@.len();
    let n = deps.len();
    let mut t: usize = 0;
    while t < n
        invariant
            model.wf(),
            ctx.wf(),
            m0.wf(),
            n == deps@.len(),
            t <= n,
            model.page_path == m0.page_path,
            model.full_path == m0.full_path,
            model.dependencies == m0.dependencies,
            widgets_after_deps(m0, *model, *ctx, deps@.take(t as int)),
            actions@.len() >= base,
            forall|i: int| 0 <= i < base ==> actions@[i] == old(actions)@[i],
            fetches_for_new_deps(m0, deps@.take(t as int), actions@, base as int, actions@.len() as int),
            forall|i: int|
                #![trigger actions@[i]]
                base <= i < actions@.len() ==> (manifest_fetch_target(actions@[i]) is Some
                    && model.widgets.find(manifest_fetch_target(actions@[i])->Some_0) is Some),
        decreases n - t,
    {
        let ghost take_t = deps@.take(t as int);
        let ghost take_t1 = deps@.take(t + 1);
        proof {
            assert(take_t1.drop_last() =~= take_t);
            assert(take_t1.last() == deps@[t as int]);
            assert forall|k: PathView| #[trigger] in_path_set(take_t1, k) == (in_path_set(take_t, k)
                || k == deps@[t as int]@) by {
                if in_path_set(take_t1, k) {
                    let w = choose|i: int| 0 <= i < take_t1.len() && (#[trigger] take_t1[i])@ == k;
                    if w < t {
                        assert(take_t[w]@ == k);
                    }
                }
                if in_path_set(take_t, k) {
                    let w = choose|i: int| 0 <= i < take_t.len() && (#[trigger] take_t[i])@ == k;
                    assert(take_t1[w]@ == k);
                }
                if k == deps@[t as int]@ {
                    assert(take_t1[t as int]@ == k);
                }
            }
        }
        let dep = &deps[t];
        if !model.widgets.contains_key(dep) {
            let ghost acts_before = actions@;
            let ghost model_before = *model;
            load_document(dep.clone(), model, ctx, actions);
            proof {
                assert(actions@.last() == actions@[actions@.len() - 1]);
                assert(manifest_fetch_target(actions@.last()) == Some(dep@));
                assert forall|k: PathView| true implies #[trigger] model.widgets.find(k) == (
                if in_path_set(take_t1, k) && m0.widgets.find(k) is None {
                    Some(loading_slot_spec(*ctx))
                } else {
                    m0.widgets.find(k)
                }) by {
                    if k != dep@ {
                        assert(model.widgets.find(k) == model_before.widgets.find(k));
                    }
                }
            }
        } else {
            proof {
                assert(model.widgets.find(dep@) is Some);
                if m0.widgets.find(dep@) is None {
                    assert(in_path_set(take_t, dep@));
                    let w = choose|i: int|
                        base <= i < actions@.len() && manifest_fetch_target(#[trigger] actions@[i])
                            == Some(dep@);
                }
                assert forall|k: PathView| in_path_set(take_t1, k) && m0.widgets.find(k) is None
                    implies exists|i: int|
                    base <= i < actions@.len() && manifest_fetch_target(#[trigger] actions@[i])
                        == Some(k) by {
                    if !in_path_set(take_t, k) {
                        assert(k == dep@);
                        assert(m0.widgets.find(dep@) == model.widgets.find(dep@));
                        assert(false);
                    }
                }
            }
        }
        t += 1;
    }
    proof {
        assert(deps@.take(n as int) =~= deps@);
    }
}

/// The page to show: the context's page path, else the site manifest's
/// index page, else "index".
fn current_page_or_index(ctx: &Context) -> (r: Path)
    ensures
        r@ == page_or_index_spec(ctx.page_path@, ctx.site_manifest.index_page@),
{
    if !ctx.page_path.is_empty() {
        ctx.page_path.clone()
    } else if !ctx.site_manifest.index_page.is_empty() {
        ctx.site_manifest.index_page.clone()
    } else {
        let r = Path::new().add("index");
        proof {
            assert(r@.segs =~= seq!["index"@]);
        }
        r
    }
}

/// The placeholder occupying a slot while its manifest is fetched: built by
/// the registry's "loading" factory when a host registered one, else the
/// built-in spinner.
fn loading_widget(ctx: &Context) -> (r: WidgetSlot)
    requires
        ctx.wf(),
    ensures
        r == loading_slot_spec(*ctx),
{
    match ctx.registry.get_widget("loading") {
        Ok(factory) => WidgetSlot::Loading { factory: Some(factory) },
        Err(_) => WidgetSlot::Loading { factory: None },
    }
}

/// Move a path into `Loading`: install the placeholder slot and ask the
/// host to fetch the document's manifest.
fn load_document<F, R>(
    doc_path: Path,
    model: &mut Model,
    ctx: &Context,
    actions: &mut Vec<Action<F, R>>,
)
    requires
        old(model).wf(),
        ctx.wf(),
    ensures
        final(model).wf(),
        final(model).widgets.find(doc_path@) == Some(loading_slot_spec(*ctx)),
        forall|k: PathView|
            k != doc_path@ ==> #[trigger] final(model).widgets.find(k) == old(
                model,
            ).widgets.find(k),
        final(model).dependencies == old(model).dependencies,
        final(model).page_path == old(model).page_path,
        final(model).full_path == old(model).full_path,
        final(actions)@.len() == old(actions)@.len() + 1,
        forall|i: int| 0 <= i < old(actions)@.len() ==> final(actions)@[i] == old(actions)@[i],
        is_fetch_manifest_for(final(actions)@.last(), doc_path@),
{
    let slot = loading_widget(ctx);
    let head = doc_path.head();
    let doc = head.to_string();
    model.widgets.insert(doc_path.clone(), slot);
    actions.push(Action::FetchDocManifest { doc, path: doc_path });
}

/// Recompute the current page and its full path; if the full path is not
/// yet tracked, start loading it. A path already tracked — `Loading`,
/// `Ready` or `Failed` — is left alone, so no second fetch is issued for
/// it.
fn update_current_page<F, R>(model: &mut Model, ctx: &Context, actions: &mut Vec<Action<F, R>>)
    requires
        old(model).wf(),
        ctx.wf(),
        old(actions)@.len() == 0,
    ensures
        final(model).wf(),
        final(model).page_path@ == page_or_index_spec(
            ctx.page_path@,
            ctx.site_manifest.index_page@,
        ),
        final(model).full_path@ == join_spec(
            ctx.site_manifest.master_page@,
            final(model).page_path@,
        ),
        final(model).dependencies == old(model).dependencies,
        old(model).widgets.contains(final(model).full_path@) ==> final(model).widgets == old(
            model,
        ).widgets && final(actions)@.len() == 0,
        !old(model).widgets.contains(final(model).full_path@) ==> {
            &&& final(model).widgets.find(final(model).full_path@) == Some(loading_slot_spec(*ctx))
            &&& forall|k: PathView|
                k != final(model).full_path@ ==> #[trigger] final(model).widgets.find(k) == old(
                    model,
                ).widgets.find(k)
            &&& final(actions)@.len() == 1
            &&& is_fetch_manifest_for(final(actions)@[0], final(model).full_path@)
        },
{
    model.page_path = current_page_or_index(ctx);
    model.full_path = ctx.site_manifest.master_page.join(&model.page_path);
    if !model.widgets.contains_key(&model.full_path) {
        let doc_path = model.full_path.clone();
        load_document(doc_path, model, ctx, actions);
    }
}

/// Interpret one event: mutate the tree and hand the host the actions to
/// perform. Each event's effect is pinned by its arm of the contract.
pub fn update<F, R>(msg: Msg<F, R>, model: &mut Model, ctx: &Context) -> (actions: Vec<
    Action<F, R>,
>)
    requires
        old(model).wf(),
        ctx.wf(),
    ensures
        final(model).wf(),
        msg matches Msg::PageChanged(_) ==> post_page_changed(
            *old(model),
            *final(model),
            *ctx,
            actions@,
        ),
        msg matches Msg::SiteManifestChanged(_) ==> post_page_changed(
            *old(model),
            *final(model),
            *ctx,
            actions@,
        ),
        msg matches Msg::DocManifestFetched(path, res) ==> post_doc_manifest_fetched(
            *old(model),
            *final(model),
            *ctx,
            path,
            res,
            actions@,
        ),
        msg matches Msg::WidgetCreated(path, tag, factory) ==> post_widget_created(
            *old(model),
            *final(model),
            path,
            tag,
            factory,
            actions@,
        ),
        msg matches Msg::WidgetReady(path) ==> post_widget_ready(
            *old(model),
            *final(model),
            path,
            actions@,
        ),
        msg matches Msg::WidgetFailed(path, error) ==> post_widget_failed(
            *old(model),
            *final(model),
            path,
            error,
            actions@,
        ),
        msg matches Msg::WidgetMsg(path, wmsg) ==> post_widget_msg(
            *old(model),
            *final(model),
            path,
            wmsg,
            actions@,
        ),
        msg matches Msg::WidgetResult(path, res) ==> post_widget_result(
            *old(model),
            *final(model),
            path,
            res,
            actions@,
        ),
        msg matches Msg::UpdateDependencies(path, deps) ==> post_update_dependencies(
            *old(model),
            *final(model),
            *ctx,
            path,
            deps,
            actions@,
        ),
        msg matches Msg::DependenciesChanged(_) ==> *final(model) == *old(model) && actions@.len()
            == 0,
        msg matches Msg::Error(e) ==> *final(model) == *old(model) && actions@.len() == 1 && (
        actions@[0] matches Action::LogError(s) && s == e),
{
    let mut actions: Vec<Action<F, R>> = Vec::new();
    match msg {
        Msg::PageChanged(_page) => {
            update_current_page(model, ctx, &mut actions);
        },
        Msg::SiteManifestChanged(_manifest) => {
            update_current_page(model, ctx, &mut actions);
        },
        Msg::DocManifestFetched(path, result) => {
            match result {
                Ok(manifest) => {
                    match ctx.registry.get_widget(manifest.widget.as_str()) {
                        Ok(factory) => {
                            actions.push(Action::CreateWidget { path, factory, manifest });
                        },
                        Err(err) => {
                            let message = err.message();
                            actions.push(Action::Send(Msg::WidgetFailed(path, message)));
                        },
                    }
                },
                Err(err) => {
                    let message = err.message();
                    actions.push(Action::Send(Msg::WidgetFailed(path, message)));
                },
            }
        },
        Msg::WidgetCreated(path, tag, factory) => {
            model.widgets.insert(path.clone(), WidgetSlot::Ready { widget: tag, factory });
            actions.push(Action::Send(Msg::WidgetReady(path)));
        },
        Msg::WidgetReady(path) => {
            if model.widgets.contains_key(&path) {
                actions.push(Action::InvokeInit { path });
            } else {
                let mut message = String::new();
                message.append("Widget for \"");
                let rendered = path.to_string();
                message.append(rendered.as_str());
                message.append("\" not found");
                proof {
                    assert(message@ =~= widget_not_found_message(path@));
                }
                actions.push(Action::Send(Msg::WidgetFailed(path, message)));
            }
        },
        Msg::WidgetFailed(path, error) => {
            model.dependencies.remove(&path);
            let slot = WidgetSlot::Failed { doc_path: path.clone(), error: error.clone() };
            model.widgets.insert(path.clone(), slot);
            actions.push(Action::Send(Msg::WidgetReady(path)));
            actions.push(Action::Send(Msg::Error(error)));
        },
        Msg::WidgetMsg(path, wmsg) => {
            if model.widgets.contains_key(&path) {
                actions.push(Action::InvokeUpdate { path, msg: wmsg });
            } else {
                let mut message = String::new();
                message.append("Got message for unknown widget");
                proof {
                    assert(message@ =~= "Got message for unknown widget"@);
                }
                actions.push(Action::LogError(message));
            }
        },
        Msg::WidgetResult(path, result) => {
            match result {
                Ok(Some(w_orders)) => {
                    perform_widget_orders(w_orders, path, &mut actions);
                },
                Ok(None) => {},
                Err(err) => {
                    actions.push(Action::Send(Msg::WidgetFailed(path, err)));
                },
            }
        },
        Msg::UpdateDependencies(path, deps) => {
            let same = match model.dependencies.get(&path) {
                Some(stored) => path_set_eq(stored, &deps),
                None => false,
            };
            if same {
                actions.push(Action::Skip);
            } else {
                let stored = deps.clone();
                proof {
                    assert(stored@ =~= deps@);
                }
                model.dependencies.insert(path.clone(), stored);
                let ghost pre0 = *old(model);
                load_dependencies(&deps, model, ctx, &mut actions);
                let ghost acts_before = actions@;
                actions.push(Action::Send(Msg::DependenciesChanged(path)));
                proof {
                    let acts = actions@;
                    let hi = acts.len() - 1;
                    assert forall|k: PathView|
                        in_path_set(deps@, k) && pre0.widgets.find(k) is None implies exists|i: int|
                        0 <= i < hi && manifest_fetch_target(#[trigger] acts[i]) == Some(k) by {
                        let w = choose|i: int|
                            0 <= i < acts_before.len() && manifest_fetch_target(
                                #[trigger] acts_before[i],
                            ) == Some(k);
                        assert(acts[w] == acts_before[w]);
                        assert(manifest_fetch_target(acts[w]) == Some(k));
                    }
                }
            }
        },
        Msg::DependenciesChanged(_path) => {},
        Msg::Error(err) => {
            actions.push(Action::LogError(err));
        },
    }
    actions
}

/// Build the initial document tree for the context: the current page and
/// its full path, with nothing tracked yet.
pub fn init(ctx: &Context) -> (model: Model)
    ensures
        model.wf(),
        model.page_path@ == page_or_index_spec(ctx.page_path@, ctx.site_manifest.index_page@),
        model.full_path@ == join_spec(ctx.site_manifest.master_page@, model.page_path@),
        forall|k: PathView| model.widgets.find(k) is None,
        forall|k: PathView| model.dependencies.find(k) is None,
{
    let page_path = current_page_or_index(ctx);
    let full_path = ctx.site_manifest.master_page.join(&page_path);
    Model { page_path, full_path, widgets: PathMap::new(), dependencies: PathMap::new() }
}

} // verus!
