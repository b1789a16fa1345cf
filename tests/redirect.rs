use redirector::markup::{Element, Html};
use redirector::redirect::{
    app, destination_url, mount, navigation_target, navigation_targets, redirect_script, Phase,
};

const EXPECTED_MARKUP: &str = "<script>window.location.assign('https://www.ibm.com')</script>";

#[test]
fn destination_is_fixed() {
    assert_eq!(destination_url(), "https://www.ibm.com");
}

#[test]
fn script_body_is_navigation_call() {
    assert_eq!(redirect_script(), "window.location.assign('https://www.ibm.com')");
}

#[test]
fn render_holds_one_script() {
    let page = app();
    assert_eq!(page.nodes.len(), 1);
    assert_eq!(page.nodes[0].tag, "script");
    assert_eq!(page.nodes[0].text, "window.location.assign('https://www.ibm.com')");
}

#[test]
fn remount_renders_identical_output() {
    let first = app();
    let second = app();
    assert_eq!(first.nodes.len(), second.nodes.len());
    assert_eq!(first.nodes[0].tag, second.nodes[0].tag);
    assert_eq!(first.nodes[0].text, second.nodes[0].text);
    assert_eq!(first.to_markup(), second.to_markup());
}

#[test]
fn mount_assigns_location_once() {
    let m = mount(true);
    assert_eq!(m.assigned, vec!["https://www.ibm.com".to_string()]);
    assert_eq!(m.phase, Phase::Navigating);
    assert_eq!(m.html.to_markup(), EXPECTED_MARKUP);
}

#[test]
fn mount_without_navigation_stays_loading() {
    let m = mount(false);
    assert!(m.assigned.is_empty());
    assert_eq!(m.phase, Phase::Loading);
    assert_eq!(m.html.to_markup(), EXPECTED_MARKUP);
}

#[test]
fn markup_matches_snapshot() {
    assert_eq!(app().to_markup(), EXPECTED_MARKUP);
}

#[test]
fn empty_fragment_has_empty_markup() {
    let h = Html { nodes: Vec::new() };
    assert_eq!(h.to_markup(), "");
    assert!(navigation_targets(&h).is_empty());
}

#[test]
fn element_markup_wraps_text() {
    let e = Element::new("p", "hi");
    assert_eq!(e.tag, "p");
    assert_eq!(e.text, "hi");
    assert_eq!(e.to_markup(), "<p>hi</p>");
}

#[test]
fn fragment_markup_joins_elements_in_order() {
    let h = Html { nodes: vec![Element::new("b", "x"), Element::new("i", "")] };
    assert_eq!(h.to_markup(), "<b>x</b><i></i>");
}

#[test]
fn navigation_target_reads_call() {
    let e = Element::new("script", "window.location.assign('https://example.org')");
    assert_eq!(navigation_target(&e), Some("https://example.org".to_string()));
    let empty = Element::new("script", "window.location.assign('')");
    assert_eq!(navigation_target(&empty), Some(String::new()));
}

#[test]
fn navigation_target_ignores_other_elements() {
    let wrong_tag = Element::new("p", "window.location.assign('https://example.org')");
    assert_eq!(navigation_target(&wrong_tag), None);
    let other_script = Element::new("script", "console.log('x')");
    assert_eq!(navigation_target(&other_script), None);
    let short = Element::new("script", "')");
    assert_eq!(navigation_target(&short), None);
    let unclosed = Element::new("script", "window.location.assign('https://example.org'");
    assert_eq!(navigation_target(&unclosed), None);
}

#[test]
fn navigation_targets_keep_order() {
    let h = Html {
        nodes: vec![
            Element::new("script", "window.location.assign('a')"),
            Element::new("p", "text"),
            Element::new("script", "window.location.assign('b')"),
        ],
    };
    assert_eq!(navigation_targets(&h), vec!["a".to_string(), "b".to_string()]);
}
