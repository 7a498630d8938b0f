use semka_core::browse::{init, update, Action, Msg};
use semka_core::context::Context;
use semka_core::manifests::{doc_manifest_path, fix_site_manifest, SiteManifest};
use semka_core::path::Path;
use semka_core::path_map::PathMap;
use semka_core::registry::Registry;
use semka_core::widget::WidgetMsg;

fn p(s: &str) -> Path {
    Path::parse(s).unwrap()
}

#[test]
fn site_manifest_default_is_empty() {
    let m = SiteManifest::default();
    assert!(m.index_page.is_empty());
    assert!(m.master_page.is_empty());
}

#[test]
fn fix_site_manifest_strips_absoluteness() {
    let m = SiteManifest { index_page: p("/home"), master_page: p("/master") };
    let fixed = fix_site_manifest(m);
    assert_eq!(fixed.index_page, p("home"));
    assert_eq!(fixed.master_page, p("master"));
    assert!(!fixed.index_page.is_absolute());

    let m = SiteManifest { index_page: p("home"), master_page: Path::new() };
    let fixed = fix_site_manifest(m);
    assert_eq!(fixed.index_page, p("home"));
    assert!(fixed.master_page.is_empty());
}

#[test]
fn doc_manifest_location() {
    let path = doc_manifest_path("home").unwrap();
    assert_eq!(path, p("docs/home/document.json"));
    assert_eq!(path.to_string(), "docs/home/document.json");
}

#[test]
fn empty_document_name_is_rejected() {
    let err = doc_manifest_path("").unwrap_err();
    assert_eq!(err.message(), "Can not fetch \"\". Request error Document name is empty");
}

#[test]
fn path_map_semantics() {
    let mut map: PathMap<u32> = PathMap::new();
    assert_eq!(map.len(), 0);
    assert!(!map.contains_key(&p("a")));

    map.insert(p("a"), 1);
    map.insert(p("b"), 2);
    assert_eq!(map.len(), 2);
    assert_eq!(map.get(&p("a")), Some(&1));

    // Same key: the value is replaced, not duplicated.
    map.insert(p("a"), 3);
    assert_eq!(map.len(), 2);
    assert_eq!(map.get(&p("a")), Some(&3));

    // Absolute and relative keys with equal segments are distinct.
    map.insert(p("/a"), 9);
    assert_eq!(map.len(), 3);
    assert_eq!(map.get(&p("a")), Some(&3));
    assert_eq!(map.get(&p("/a")), Some(&9));

    assert_eq!(map.remove(&p("a")), Some(3));
    assert_eq!(map.remove(&p("a")), None);
    assert_eq!(map.get(&p("/a")), Some(&9));

    // Insertion order is preserved when walking.
    let (first, v) = map.entry_at(0);
    assert_eq!(*first, p("b"));
    assert_eq!(*v, 2);
}

#[test]
fn opaque_payloads_travel_untouched() {
    let ctx = Context {
        page_path: p("home"),
        base_path: Path::new_absolute(),
        site_manifest: SiteManifest::default(),
        registry: Registry::new(),
    };
    let mut model = init(&ctx);
    update::<u32, u32>(Msg::PageChanged(p("home")), &mut model, &ctx);

    let bytes = bytes::Bytes::from(vec![1u8, 2, 3]);
    let msg: Msg<u32, u32> =
        Msg::WidgetMsg(p("home"), WidgetMsg::FetchBytesResult(p("logo.png"), Ok(bytes)));
    let actions = update(msg, &mut model, &ctx);
    match actions.into_iter().next().unwrap() {
        Action::InvokeUpdate { msg: WidgetMsg::FetchBytesResult(file, Ok(b)), .. } => {
            assert_eq!(file, p("logo.png"));
            assert_eq!(b.as_ref(), &[1u8, 2, 3]);
        },
        _ => panic!("expected the bytes handed to the widget"),
    }

    let value: serde_json::Value = serde_json::from_str("{\"widget\":\"markdown\"}").unwrap();
    let msg: Msg<u32, u32> =
        Msg::WidgetMsg(p("home"), WidgetMsg::FetchJsonResult(p("data.json"), Ok(value)));
    let actions = update(msg, &mut model, &ctx);
    match actions.into_iter().next().unwrap() {
        Action::InvokeUpdate { msg: WidgetMsg::FetchJsonResult(file, Ok(v)), .. } => {
            assert_eq!(file, p("data.json"));
            assert_eq!(v["widget"], "markdown");
        },
        _ => panic!("expected the value handed to the widget"),
    }
}
