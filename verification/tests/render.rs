use semka_core::dependencies::{Dependencies, ViewOutcome};
use semka_core::path::Path;
use semka_core::path_map::PathMap;
use semka_core::widget::WidgetSlot;

fn p(s: &str) -> Path {
    Path::parse(s).unwrap()
}

fn ready(tag: &str) -> WidgetSlot {
    WidgetSlot::Ready { widget: tag.to_string(), factory: 0 }
}

#[test]
fn root_shows_a_tracked_slot() {
    let mut widgets: PathMap<WidgetSlot> = PathMap::new();
    widgets.insert(p("home"), ready("markdown"));
    let deps: PathMap<Vec<Path>> = PathMap::new();

    let root = Dependencies::new(&widgets, &deps);
    match root.view(&p("home")) {
        ViewOutcome::Show { slot, .. } => {
            assert!(matches!(slot, WidgetSlot::Ready { .. }));
        },
        ViewOutcome::StandIn { .. } => panic!("the root needs no authorization"),
    }
}

#[test]
fn untracked_document_renders_not_loaded() {
    let widgets: PathMap<WidgetSlot> = PathMap::new();
    let deps: PathMap<Vec<Path>> = PathMap::new();
    let root = Dependencies::new(&widgets, &deps);
    match root.view(&p("ghost")) {
        ViewOutcome::StandIn { error, .. } => {
            assert_eq!(error, "Required document \"ghost\" not loaded");
        },
        ViewOutcome::Show { .. } => panic!("nothing is tracked"),
    }
}

#[test]
fn undeclared_dependency_renders_not_requested() {
    let mut widgets: PathMap<WidgetSlot> = PathMap::new();
    widgets.insert(p("a"), ready("markdown"));
    widgets.insert(p("c"), ready("markdown"));
    let mut deps: PathMap<Vec<Path>> = PathMap::new();
    deps.insert(p("a"), vec![p("b")]);

    let root = Dependencies::new(&widgets, &deps);
    let a = p("a");
    let c = p("c");
    let b = p("b");
    let next = match root.view(&a) {
        ViewOutcome::Show { next, .. } => next,
        ViewOutcome::StandIn { .. } => panic!("a is ready"),
    };

    // "c" is ready, but "a" never declared it.
    match next.view(&c) {
        ViewOutcome::StandIn { doc_path, error } => {
            assert_eq!(doc_path, p("a"));
            assert_eq!(error, "Document \"c\" not requested by \"a\"");
        },
        ViewOutcome::Show { .. } => panic!("undeclared edges must not render"),
    }

    // The declared but unloaded "b" renders the not-loaded stand-in.
    match next.view(&b) {
        ViewOutcome::StandIn { error, .. } => {
            assert_eq!(error, "Required document \"b\" not loaded");
        },
        ViewOutcome::Show { .. } => panic!("b is not tracked"),
    }
}

#[test]
fn widget_without_declarations_renders_nothing_below() {
    let mut widgets: PathMap<WidgetSlot> = PathMap::new();
    widgets.insert(p("a"), ready("markdown"));
    widgets.insert(p("b"), ready("markdown"));
    let deps: PathMap<Vec<Path>> = PathMap::new();

    let root = Dependencies::new(&widgets, &deps);
    let a = p("a");
    let b = p("b");
    let next = match root.view(&a) {
        ViewOutcome::Show { next, .. } => next,
        ViewOutcome::StandIn { .. } => panic!("a is ready"),
    };
    assert!(matches!(next.view(&b), ViewOutcome::StandIn { .. }));
}

#[test]
fn recursion_limit_renders_a_stand_in() {
    let mut widgets: PathMap<WidgetSlot> = PathMap::new();
    widgets.insert(p("a"), ready("markdown"));
    let mut deps: PathMap<Vec<Path>> = PathMap::new();
    // "a" includes itself: a cycle the depth limit must cut off.
    deps.insert(p("a"), vec![p("a")]);

    let a = p("a");
    let mut current = Dependencies::new(&widgets, &deps);
    let mut shows: usize = 0;
    loop {
        match current.view(&a) {
            ViewOutcome::Show { next, .. } => {
                current = next;
                shows += 1;
                assert!(shows < 100, "the depth limit never cut the cycle");
            },
            ViewOutcome::StandIn { doc_path, error } => {
                assert_eq!(error, "Recursion level exceeded");
                assert_eq!(doc_path, a);
                break;
            },
        }
    }
    assert_eq!(shows, semka_core::constants::MAX_WIDGET_RECURSION + 1);
}

#[test]
fn failed_stand_in_renders_in_place() {
    let mut widgets: PathMap<WidgetSlot> = PathMap::new();
    widgets.insert(p("a"), ready("markdown"));
    widgets.insert(
        p("missing"),
        WidgetSlot::Failed {
            doc_path: p("missing"),
            error: "Can not fetch \"docs/missing/document.json\". Client error 404 Not Found"
                .to_string(),
        },
    );
    let mut deps: PathMap<Vec<Path>> = PathMap::new();
    deps.insert(p("a"), vec![p("missing")]);

    let root = Dependencies::new(&widgets, &deps);
    let a = p("a");
    let missing = p("missing");
    let next = match root.view(&a) {
        ViewOutcome::Show { next, .. } => next,
        ViewOutcome::StandIn { .. } => panic!("a is ready"),
    };
    match next.view(&missing) {
        ViewOutcome::Show { slot, .. } => match slot {
            WidgetSlot::Failed { error, .. } => assert!(error.contains("missing")),
            _ => panic!("expected the failed stand-in slot"),
        },
        ViewOutcome::StandIn { .. } => panic!("missing is declared and tracked"),
    }
}
