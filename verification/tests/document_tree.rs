use semka_core::browse::{init, update, Action, Model, Msg};
use semka_core::context::Context;
use semka_core::error::FetchError;
use semka_core::manifests::{DocManifest, SiteManifest};
use semka_core::orders::WidgetOrders;
use semka_core::path::Path;
use semka_core::registry::{FactoryInfo, Registry};
use semka_core::widget::{WidgetMsg, WidgetSlot};

type TestMsg = Msg<u32, u32>;
type TestAction = Action<u32, u32>;

fn p(s: &str) -> Path {
    Path::parse(s).unwrap()
}

fn factory(tags: &[&str]) -> FactoryInfo {
    FactoryInfo { can_handle: tags.iter().map(|t| t.to_string()).collect() }
}

fn ctx_for(page: &str, index: &str, master: &str) -> Context {
    Context {
        page_path: p(page),
        base_path: Path::new_absolute(),
        site_manifest: SiteManifest { index_page: p(index), master_page: p(master) },
        registry: Registry::new().add_widget(factory(&["loading"])).add_widget(
            factory(&["markdown"]),
        ),
    }
}

fn drive(msg: TestMsg, model: &mut Model, ctx: &Context) -> Vec<TestAction> {
    update(msg, model, ctx)
}

#[test]
fn navigation_starts_exactly_one_fetch() {
    let ctx = ctx_for("", "home", "");
    let mut model = init(&ctx);
    assert_eq!(model.page_path, p("home"));
    assert_eq!(model.full_path, p("home"));
    assert!(model.widgets.get(&p("home")).is_none());

    let actions = drive(Msg::PageChanged(p("home")), &mut model, &ctx);
    assert_eq!(actions.len(), 1);
    match &actions[0] {
        Action::FetchDocManifest { doc, path } => {
            assert_eq!(doc, "home");
            assert_eq!(*path, p("home"));
        },
        _ => panic!("expected a manifest fetch"),
    }
    assert!(matches!(model.widgets.get(&p("home")), Some(WidgetSlot::Loading { .. })));
}

#[test]
fn second_request_while_loading_issues_no_fetch() {
    let ctx = ctx_for("", "home", "");
    let mut model = init(&ctx);
    let first = drive(Msg::PageChanged(p("home")), &mut model, &ctx);
    assert_eq!(first.len(), 1);

    let second = drive(Msg::PageChanged(p("home")), &mut model, &ctx);
    assert_eq!(second.len(), 0);
    let third = drive(Msg::SiteManifestChanged(ctx.site_manifest.clone()), &mut model, &ctx);
    assert_eq!(third.len(), 0);
}

#[test]
fn fallback_page_is_index() {
    let ctx = ctx_for("", "", "");
    let model = init(&ctx);
    assert_eq!(model.page_path, p("index"));
}

#[test]
fn master_page_frames_the_page() {
    let ctx = ctx_for("about", "home", "master");
    let model = init(&ctx);
    assert_eq!(model.full_path, p("master/about"));
}

#[test]
fn manifest_resolution_creates_the_widget() {
    let ctx = ctx_for("", "home", "");
    let mut model = init(&ctx);
    drive(Msg::PageChanged(p("home")), &mut model, &ctx);

    let manifest = DocManifest { widget: "markdown".to_string() };
    let actions = drive(Msg::DocManifestFetched(p("home"), Ok(manifest)), &mut model, &ctx);
    assert_eq!(actions.len(), 1);
    match &actions[0] {
        Action::CreateWidget { path, factory, manifest } => {
            assert_eq!(*path, p("home"));
            assert_eq!(*factory, 1);
            assert_eq!(manifest.widget, "markdown");
        },
        _ => panic!("expected a widget construction"),
    }

    let actions = drive(
        Msg::WidgetCreated(p("home"), "markdown".to_string(), 1),
        &mut model,
        &ctx,
    );
    assert!(matches!(
        model.widgets.get(&p("home")),
        Some(WidgetSlot::Ready { .. })
    ));
    assert_eq!(actions.len(), 1);
    assert!(matches!(&actions[0], Action::Send(Msg::WidgetReady(path)) if *path == p("home")));

    let actions = drive(Msg::WidgetReady(p("home")), &mut model, &ctx);
    assert!(matches!(&actions[0], Action::InvokeInit { path } if *path == p("home")));
}

#[test]
fn unknown_widget_tag_fails_the_document() {
    let ctx = ctx_for("", "home", "");
    let mut model = init(&ctx);
    drive(Msg::PageChanged(p("home")), &mut model, &ctx);

    let manifest = DocManifest { widget: "video".to_string() };
    let actions = drive(Msg::DocManifestFetched(p("home"), Ok(manifest)), &mut model, &ctx);
    assert_eq!(actions.len(), 1);
    match &actions[0] {
        Action::Send(Msg::WidgetFailed(path, message)) => {
            assert_eq!(*path, p("home"));
            assert_eq!(message, "Error in widget \"video\": No such widget");
        },
        _ => panic!("expected a failure message"),
    }
}

#[test]
fn widget_orders_become_actions_in_order() {
    let ctx = ctx_for("", "home", "");
    let mut model = init(&ctx);
    drive(Msg::PageChanged(p("home")), &mut model, &ctx);

    let orders: WidgetOrders<u32> = WidgetOrders::new()
        .fetch_text(p("text.md"))
        .fetch_bytes(p("logo.png"))
        .skip();
    let actions = drive(Msg::WidgetResult(p("home"), Ok(Some(orders))), &mut model, &ctx);
    assert_eq!(actions.len(), 3);
    assert!(matches!(&actions[0], Action::Skip));
    match &actions[1] {
        Action::FetchText { url, doc_path, file } => {
            assert_eq!(*url, p("docs/home/text.md"));
            assert_eq!(*doc_path, p("home"));
            assert_eq!(*file, p("text.md"));
        },
        _ => panic!("expected a text fetch"),
    }
    match &actions[2] {
        Action::FetchBytes { url, .. } => {
            assert_eq!(*url, p("docs/home/logo.png"));
        },
        _ => panic!("expected a bytes fetch"),
    }
}

#[test]
fn fetch_urls_use_the_document_head() {
    let ctx = ctx_for("", "home", "");
    let mut model = init(&ctx);
    let orders: WidgetOrders<u32> = WidgetOrders::new().fetch_json(p("data.json"));
    let actions = drive(
        Msg::WidgetResult(p("home/section"), Ok(Some(orders))),
        &mut model,
        &ctx,
    );
    match &actions[0] {
        Action::FetchJson { url, .. } => {
            assert_eq!(*url, p("docs/home/data.json"));
        },
        _ => panic!("expected a structured-data fetch"),
    }
}

#[test]
fn custom_commands_round_trip() {
    let ctx = ctx_for("", "home", "");
    let mut model = init(&ctx);
    drive(Msg::PageChanged(p("home")), &mut model, &ctx);
    let orders: WidgetOrders<u32> = WidgetOrders::new().perform_cmd(17);
    let actions = drive(Msg::WidgetResult(p("home"), Ok(Some(orders))), &mut model, &ctx);
    assert!(matches!(&actions[0], Action::PerformCmd { cmd: 17, .. }));

    let actions = drive(
        Msg::WidgetMsg(p("home"), WidgetMsg::CmdResult(17)),
        &mut model,
        &ctx,
    );
    // The path is tracked, so the result is handed to the widget.
    assert!(matches!(&actions[0], Action::InvokeUpdate { .. }));
}

#[test]
fn results_for_untracked_paths_are_logged() {
    let ctx = ctx_for("", "home", "");
    let mut model = init(&ctx);
    let actions = drive(
        Msg::WidgetMsg(p("ghost"), WidgetMsg::CmdResult(1)),
        &mut model,
        &ctx,
    );
    assert!(matches!(&actions[0], Action::LogError(_)));
}

#[test]
fn new_dependencies_enter_loading_once() {
    let ctx = ctx_for("", "home", "");
    let mut model = init(&ctx);
    drive(Msg::PageChanged(p("home")), &mut model, &ctx);

    let deps = vec![p("pics"), p("intro"), p("pics")];
    let actions = drive(Msg::UpdateDependencies(p("home"), deps), &mut model, &ctx);
    // One fetch per distinct new path, then the change announcement.
    assert_eq!(actions.len(), 3);
    let mut fetched: Vec<String> = Vec::new();
    for action in &actions[..2] {
        match action {
            Action::FetchDocManifest { doc, .. } => fetched.push(doc.clone()),
            _ => panic!("expected manifest fetches first"),
        }
    }
    fetched.sort();
    assert_eq!(fetched, vec!["intro".to_string(), "pics".to_string()]);
    assert!(matches!(
        &actions[2],
        Action::Send(Msg::DependenciesChanged(path)) if *path == p("home")
    ));
    assert!(matches!(model.widgets.get(&p("pics")), Some(WidgetSlot::Loading { .. })));
    assert!(matches!(model.widgets.get(&p("intro")), Some(WidgetSlot::Loading { .. })));
}

#[test]
fn unchanged_dependencies_are_a_no_op() {
    let ctx = ctx_for("", "home", "");
    let mut model = init(&ctx);
    drive(Msg::PageChanged(p("home")), &mut model, &ctx);
    drive(
        Msg::UpdateDependencies(p("home"), vec![p("pics"), p("intro")]),
        &mut model,
        &ctx,
    );

    // The same set in another order changes nothing.
    let actions = drive(
        Msg::UpdateDependencies(p("home"), vec![p("intro"), p("pics")]),
        &mut model,
        &ctx,
    );
    assert_eq!(actions.len(), 1);
    assert!(matches!(&actions[0], Action::Skip));

    // A genuinely new set loads only what is new.
    let actions = drive(
        Msg::UpdateDependencies(p("home"), vec![p("pics"), p("extra")]),
        &mut model,
        &ctx,
    );
    assert_eq!(actions.len(), 2);
    assert!(matches!(
        &actions[0],
        Action::FetchDocManifest { doc, .. } if doc == "extra"
    ));
}

#[test]
fn failure_installs_a_stand_in_and_drops_children() {
    let ctx = ctx_for("", "home", "");
    let mut model = init(&ctx);
    drive(Msg::PageChanged(p("home")), &mut model, &ctx);
    drive(
        Msg::UpdateDependencies(p("home"), vec![p("pics")]),
        &mut model,
        &ctx,
    );
    assert!(model.dependencies.get(&p("home")).is_some());

    let actions = drive(
        Msg::WidgetFailed(p("home"), "boom".to_string()),
        &mut model,
        &ctx,
    );
    assert!(model.dependencies.get(&p("home")).is_none());
    match model.widgets.get(&p("home")) {
        Some(WidgetSlot::Failed { doc_path, error }) => {
            assert_eq!(*doc_path, p("home"));
            assert_eq!(error, "boom");
        },
        _ => panic!("expected the failed stand-in"),
    }
    assert_eq!(actions.len(), 2);
    assert!(matches!(&actions[0], Action::Send(Msg::WidgetReady(_))));
    assert!(matches!(&actions[1], Action::Send(Msg::Error(e)) if e == "boom"));
    // The sibling entry is untouched.
    assert!(matches!(model.widgets.get(&p("pics")), Some(WidgetSlot::Loading { .. })));
}

#[test]
fn fetch_errors_are_scoped_to_their_path() {
    let ctx = ctx_for("", "home", "");
    let mut model = init(&ctx);
    drive(Msg::PageChanged(p("home")), &mut model, &ctx);
    drive(
        Msg::UpdateDependencies(p("home"), vec![p("missing")]),
        &mut model,
        &ctx,
    );

    let err = FetchError::from_status(
        "docs/missing/document.json".to_string(),
        404,
        "Not Found".to_string(),
    );
    assert!(err.is_not_found());
    let actions = drive(
        Msg::DocManifestFetched(p("missing"), Err(err)),
        &mut model,
        &ctx,
    );
    let message = match &actions[0] {
        Action::Send(Msg::WidgetFailed(path, message)) => {
            assert_eq!(*path, p("missing"));
            message.clone()
        },
        _ => panic!("expected a failure message"),
    };
    assert!(message.contains("missing"));

    drive(Msg::WidgetFailed(p("missing"), message), &mut model, &ctx);
    match model.widgets.get(&p("missing")) {
        Some(WidgetSlot::Failed { error, .. }) => assert!(error.contains("missing")),
        _ => panic!("expected the failed stand-in"),
    }
    // The page itself keeps loading; the failure stays inside its path.
    assert!(matches!(model.widgets.get(&p("home")), Some(WidgetSlot::Loading { .. })));
}

#[test]
fn full_page_load_scenario() {
    // Site manifest: master page "", index page "home"; navigating to "/".
    let ctx = ctx_for("", "home", "");
    let mut model = init(&ctx);
    assert_eq!(model.full_path, p("home"));

    // Unseen -> Loading with a placeholder installed at once.
    let actions = drive(Msg::PageChanged(p("home")), &mut model, &ctx);
    assert!(matches!(model.widgets.get(&p("home")), Some(WidgetSlot::Loading { .. })));
    assert!(matches!(&actions[0], Action::FetchDocManifest { doc, .. } if doc == "home"));

    // The manifest names the markdown widget.
    let manifest = DocManifest { widget: "markdown".to_string() };
    drive(Msg::DocManifestFetched(p("home"), Ok(manifest)), &mut model, &ctx);
    drive(
        Msg::WidgetCreated(p("home"), "markdown".to_string(), 1),
        &mut model,
        &ctx,
    );
    drive(Msg::WidgetReady(p("home")), &mut model, &ctx);

    // Its init fetches the text relative to its own document.
    let orders: WidgetOrders<u32> = WidgetOrders::new().fetch_text(p("text.md"));
    let actions = drive(Msg::WidgetResult(p("home"), Ok(Some(orders))), &mut model, &ctx);
    assert!(matches!(
        &actions[0],
        Action::FetchText { url, .. } if *url == p("docs/home/text.md")
    ));

    // The text arrives, tagged with the path the widget asked for.
    let text = "intro with two includes".to_string();
    let actions = drive(
        Msg::WidgetMsg(p("home"), WidgetMsg::FetchTextResult(p("text.md"), Ok(text))),
        &mut model,
        &ctx,
    );
    assert!(matches!(&actions[0], Action::InvokeUpdate { .. }));

    // The widget scanned its content and declares its includes.
    let orders: WidgetOrders<u32> =
        WidgetOrders::new().update_deps(vec![p("pics"), p("intro")]);
    let actions = drive(Msg::WidgetResult(p("home"), Ok(Some(orders))), &mut model, &ctx);
    assert!(matches!(
        &actions[0],
        Action::Send(Msg::UpdateDependencies(path, _)) if *path == p("home")
    ));
    let deps_msg = match actions.into_iter().next().unwrap() {
        Action::Send(m) => m,
        _ => unreachable!(),
    };

    // Newly referenced paths move Unseen -> Loading.
    drive(deps_msg, &mut model, &ctx);
    assert!(matches!(model.widgets.get(&p("pics")), Some(WidgetSlot::Loading { .. })));
    assert!(matches!(model.widgets.get(&p("intro")), Some(WidgetSlot::Loading { .. })));
    // And the widget that declared them stays ready.
    assert!(matches!(model.widgets.get(&p("home")), Some(WidgetSlot::Ready { .. })));
}
