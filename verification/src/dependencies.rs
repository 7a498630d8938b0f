//! The dependency view: the per-edge decision of the recursive renderer.
//!
//! A widget renders another document only through this accessor. Each edge
//! is checked against the recursion depth limit and the caller's declared
//! dependencies; only then does the slot at the requested path show. The
//! depth and the caller travel in the accessor itself, threaded explicitly
//! through `dig_in`, so the authorization is auditable per edge.

use crate::constants::MAX_WIDGET_RECURSION;
use crate::path::{to_string_spec, Path, PathView};
use crate::path_map::PathMap;
use crate::widget::WidgetSlot;
use vstd::prelude::*;
use vstd::string::StringExecFns;

verus! {

/// The stand-in message when include nesting exceeds the depth limit.
pub open spec fn recursion_message() -> Seq<char> {
    "Recursion level exceeded"@
}

/// The stand-in message when a widget renders a path it did not declare.
pub open spec fn not_requested_message(path: PathView, caller: PathView) -> Seq<char> {
    "Document \""@ + to_string_spec(path) + "\" not requested by \""@ + to_string_spec(caller)
        + "\""@
}

/// The stand-in message when a declared document is not tracked at all.
pub open spec fn not_loaded_message(path: PathView) -> Seq<char> {
    "Required document \""@ + to_string_spec(path) + "\" not loaded"@
}

/// What one render edge yields.
pub enum ViewOutcome<'a> {
    /// A `Failed` stand-in carrying the caller's document path and the
    /// message, rendered in place of the requested document.
    StandIn { doc_path: Path, error: String },
    /// The slot at the requested path renders; a ready widget's own view
    /// runs with `next`, scoped one level deeper and to the requested path
    /// as caller.
    Show { slot: &'a WidgetSlot, next: Dependencies<'a> },
}

/// The render-tree accessor for one position: the caller document (none at
/// the root), the recursion depth, and the tree's two tables.
#[derive(Clone, Copy)]
pub struct Dependencies<'a> {
    doc_path: Option<&'a Path>,
    widgets: &'a PathMap<WidgetSlot>,
    dependencies: &'a PathMap<Vec<Path>>,
    recursion_level: usize,
}

impl<'a> Dependencies<'a> {
    /// The recursion depth at this position.
    pub closed spec fn level(&self) -> int {
        self.recursion_level as int
    }

    /// The caller document's path, absent at the root.
    pub closed spec fn caller_view(&self) -> Option<PathView> {
        match self.doc_path {
            Some(p) => Some(p@),
            None => None,
        }
    }

    /// The widget-slot table this accessor reads.
    pub closed spec fn widgets_view(&self) -> PathMap<WidgetSlot> {
        *self.widgets
    }

    /// The declared-dependency table this accessor reads.
    pub closed spec fn deps_view(&self) -> PathMap<Vec<Path>> {
        *self.dependencies
    }

    /// Both tables have unique keys.
    pub open spec fn wf(&self) -> bool {
        self.widgets_view().wf() && self.deps_view().wf()
    }

    /// The caller has declared `path` among its dependencies.
    pub open spec fn declared(&self, caller: PathView, path: PathView) -> bool {
        self.deps_view().find(caller) matches Some(d) && crate::browse::in_path_set(d@, path)
    }

    /// The root accessor over the document tree's tables: no caller, depth
    /// zero.
    pub fn new(
        widgets: &'a PathMap<WidgetSlot>,
        dependencies: &'a PathMap<Vec<Path>>,
    ) -> (r: Dependencies<'a>)
        ensures
            r.level() == 0,
            r.caller_view() is None,
            r.widgets_view() == *widgets,
            r.deps_view() == *dependencies,
    {
        Dependencies { doc_path: None, widgets, dependencies, recursion_level: 0 }
    }

    /// The accessor handed to the widget at `doc_path`: one level deeper,
    /// with `doc_path` as the caller.
    fn dig_in(&self, doc_path: &'a Path) -> (r: Dependencies<'a>)
        requires
            self.level() < MAX_WIDGET_RECURSION + 1,
        ensures
            r.level() == self.level() + 1,
            r.caller_view() == Some(doc_path@),
            r.widgets_view() == self.widgets_view(),
            r.deps_view() == self.deps_view(),
    {
        Dependencies {
            doc_path: Some(doc_path),
            recursion_level: self.recursion_level + 1,
            widgets: self.widgets,
            dependencies: self.dependencies,
        }
    }

    /// Decide what renders at `path` from this position.
    ///
    /// Past the depth limit a "recursion level exceeded" stand-in renders,
    /// with no further lookups. Below the root, a path the caller did not
    /// declare renders a "not requested" stand-in even if the path itself
    /// is ready. Otherwise a tracked slot shows — a ready widget's view
    /// runs with the accessor scoped one deeper and to `path` — and an
    /// untracked path renders a "not loaded" stand-in.
    pub fn view(&self, path: &'a Path) -> (r: ViewOutcome<'a>)
        requires
            self.wf(),
        ensures
            self.level() > MAX_WIDGET_RECURSION ==> (r matches ViewOutcome::StandIn {
                doc_path,
                error,
            } && error@ == recursion_message()),
            self.level() <= MAX_WIDGET_RECURSION && (self.caller_view() matches Some(c)
                && !self.declared(c, path@)) ==> (r matches ViewOutcome::StandIn {
                doc_path,
                error,
            } && doc_path@ == self.caller_view()->Some_0 && error@ == not_requested_message(
                path@,
                self.caller_view()->Some_0,
            )),
            self.level() <= MAX_WIDGET_RECURSION && (self.caller_view() is None || self.declared(
                self.caller_view()->Some_0,
                path@,
            )) ==> match self.widgets_view().find(path@) {
                Some(slot) => r matches ViewOutcome::Show { slot: s, next } && *s == slot
                    && next.level() == self.level() + 1 && next.caller_view() == Some(path@)
                    && next.widgets_view() == self.widgets_view() && next.deps_view()
                    == self.deps_view(),
                None => r matches ViewOutcome::StandIn { doc_path, error } && error@
                    == not_loaded_message(path@),
            },
            r matches ViewOutcome::StandIn { doc_path, error } ==> doc_path@ == (
            match self.caller_view() {
                Some(c) => c,
                None => PathView { segs: Seq::empty(), absolute: true },
            }),
    {
        let caller: Path = match self.doc_path {
            Some(p) => (*p).clone(),
            None => Path::new_absolute(),
        };
        proof {
            if self.caller_view() is None {
                assert(caller@.segs =~= Seq::<Seq<char>>::empty());
            }
        }
        if self.recursion_level > MAX_WIDGET_RECURSION {
            let mut error = String::new();
            error.append("Recursion level exceeded");
            return ViewOutcome::StandIn { doc_path: caller, error };
        }
        let undeclared: bool = match self.doc_path {
            Some(self_path) => {
                match self.dependencies.get(self_path) {
                    Some(dep) => !crate::browse::contains_path(dep, path),
                    None => true,
                }
            },
            None => false,
        };
        if undeclared {
            let mut error = String::new();
            error.append("Document \"");
            let shown = path.to_string();
            error.append(shown.as_str());
            error.append("\" not requested by \"");
            let shown_caller = caller.to_string();
            error.append(shown_caller.as_str());
            error.append("\"");
            proof {
                assert(error@ =~= not_requested_message(path@, self.caller_view()->Some_0));
            }
            return ViewOutcome::StandIn { doc_path: caller, error };
        }
        match self.widgets.get(path) {
            Some(slot) => {
                let next = self.dig_in(path);
                ViewOutcome::Show { slot, next }
            },
            None => {
                let mut error = String::new();
                error.append("Required document \"");
                let shown = path.to_string();
                error.append(shown.as_str());
                error.append("\" not loaded");
                proof {
                    assert(error@ =~= not_loaded_message(path@));
                }
                ViewOutcome::StandIn { doc_path: caller, error }
            },
        }
    }
}

} // verus!
