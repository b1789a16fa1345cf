use vstd::prelude::*;
use vstd::string::*;
use crate::markup::{Element, ElementView, Html, element_markup, markup};

verus! {

/// The address the page sends its visitor to.
pub open spec fn destination() -> Seq<char> {
    "https://www.ibm.com"@
}

/// What a navigation script holds before the address.
pub open spec fn call_prefix() -> Seq<char> {
    "window.location.assign('"@
}

/// What a navigation script holds after the address.
pub open spec fn call_suffix() -> Seq<char> {
    "')"@
}

/// The text of a script that assigns the location to `url`.
pub open spec fn navigation_call(url: Seq<char>) -> Seq<char> {
    call_prefix() + url + call_suffix()
}

/// The fragment the page renders: one script element that navigates to
/// the destination.
pub open spec fn app_view() -> Seq<ElementView> {
    seq![ElementView { tag: "script"@, text: navigation_call(destination()) }]
}

/// The address that running element `e` assigns the location to, if `e` is
/// a script that consists of one navigation call.
pub open spec fn assigned_url(e: ElementView) -> Option<Seq<char>> {
    let n = e.text.len();
    let p = call_prefix().len();
    let q = call_suffix().len();
    if e.tag == "script"@ && n >= p + q && e.text.subrange(0, p as int) == call_prefix()
        && e.text.subrange(n - q, n as int) == call_suffix() {
        Some(e.text.subrange(p as int, n - q))
    } else {
        None
    }
}

/// The addresses that running the scripts of `nodes` in order assigns the
/// location to, one for each navigation call.
pub open spec fn navigations(nodes: Seq<ElementView>) -> Seq<Seq<char>>
    decreases nodes.len(),
{
    if nodes.len() == 0 {
        Seq::empty()
    } else {
        navigations(nodes.drop_last()) + match assigned_url(nodes.last()) {
            Some(u) => seq![u],
            None => Seq::empty(),
        }
    }
}

/// Where a mounted page stands: rendered and waiting, or handed over to
/// the browser's navigation.
#[derive(Clone, Copy, Debug, PartialEq, Eq, Structural)]
pub enum Phase {
    Loading,
    Navigating,
}

/// A mounted page as the contracts see it.
pub struct MountedView {
    pub html: Seq<ElementView>,
    pub assigned: Seq<Seq<char>>,
    pub phase: Phase,
}

/// What mounting the page leaves behind: the rendered fragment, the
/// addresses handed to the host's navigation, and the phase reached.
pub struct Mounted {
    pub html: Html,
    pub assigned: Vec<String>,
    pub phase: Phase,
}

impl View for Mounted {
    type V = MountedView;

    open spec fn view(&self) -> MountedView {
        MountedView {
            html: self.html@,
            assigned: self.assigned@.map_values(|s: String| s@),
            phase: self.phase,
        }
    }
}

/// Mounting the page where the host does, or does not, offer navigation:
/// the fragment stays as rendered, each navigation call reaches the host
/// where it can take it, and the page navigates only then.
pub open spec fn mount_outcome(navigation_available: bool) -> MountedView {
    let calls = if navigation_available {
        navigations(app_view())
    } else {
        Seq::empty()
    };
    MountedView {
        html: app_view(),
        assigned: calls,
        phase: if calls.len() > 0 {
            Phase::Navigating
        } else {
            Phase::Loading
        },
    }
}

/// The destination, as a string slice compiled into the program.
pub fn destination_url() -> (r: &'static str)
    ensures
        r@ == destination(),
{
    "https://www.ibm.com"
}

/// The body of the inline script that the page renders.
pub fn redirect_script() -> (r: String)
    ensures
        r@ == navigation_call(destination()),
{
    let mut s = String::from_str("window.location.assign('");
    s.append(destination_url());
    s.append("')");
    s
}

/// Renders the page: a fragment that holds one inline script, which
/// navigates to the destination when it runs.
pub fn app() -> (r: Html)
    ensures
        r@ == app_view(),
{
    let script = Element { tag: String::from_str("script"), text: redirect_script() };
    let r = Html { nodes: vec![script] };
    assert(r@ =~= app_view());
    r
}

/// The address that running `e` navigates to, if `e` is a script made of
/// one navigation call.
pub fn navigation_target(e: &Element) -> (r: Option<String>)
    ensures
        match assigned_url(e@) {
            Some(u) => r is Some && r->Some_0@ == u,
            None => r is None,
        },
{
    let prefix: &str = "window.location.assign('";
    let suffix: &str = "')";
    proof {
        reveal_strlit("window.location.assign('");
        reveal_strlit("')");
    }
    if !(e.tag == String::from_str("script")) {
        return None;
    }
    let text = e.text.as_str();
    let n = text.unicode_len();
    let p = prefix.unicode_len();
    let q = suffix.unicode_len();
    if n < p + q {
        return None;
    }
    let head = String::from_str(text.substring_char(0, p));
    if !(head == String::from_str(prefix)) {
        return None;
    }
    let tail = String::from_str(text.substring_char(n - q, n));
    if !(tail == String::from_str(suffix)) {
        return None;
    }
    Some(String::from_str(text.substring_char(p, n - q)))
}

/// The addresses that running the scripts of `h` in order navigates to.
pub fn navigation_targets(h: &Html) -> (r: Vec<String>)
    ensures
        r@.map_values(|s: String| s@) == navigations(h@),
{
    let mut r: Vec<String> = Vec::new();
    let mut i: usize = 0;
    while i < h.nodes.len()
        invariant
            i <= h.nodes@.len(),
            r@.map_values(|s: String| s@) == navigations(h@.subrange(0, i as int)),
        decreases h.nodes@.len() - i,
    {
        let found = navigation_target(&h.nodes[i]);
        proof {
            let next = h@.subrange(0, i + 1);
            assert(next.drop_last() =~= h@.subrange(0, i as int));
            assert(next.last() == h.nodes@[i as int]@);
        }
        match found {
            Some(u) => {
                r.push(u);
            },
            None => {},
        }
        assert(r@.map_values(|s: String| s@) =~= navigations(h@.subrange(0, i + 1)));
        i = i + 1;
    }
    assert(h@.subrange(0, i as int) =~= h@);
    r
}

/// Mounts the page: renders it, then runs its scripts against a host that
/// does, or does not, offer navigation. Nothing fails where it does not:
/// the page stays as rendered.
pub fn mount(navigation_available: bool) -> (r: Mounted)
    ensures
        r@ == mount_outcome(navigation_available),
{
    let html = app();
    let assigned = if navigation_available {
        navigation_targets(&html)
    } else {
        Vec::new()
    };
    let phase = if assigned.len() > 0 {
        Phase::Navigating
    } else {
        Phase::Loading
    };
    let r = Mounted { html, assigned, phase };
    assert(r@.assigned =~= mount_outcome(navigation_available).assigned);
    r
}

/// The rendered page is always the same: one script element whose text is
/// the navigation call to the destination, serialised to the same markup.
pub proof fn lemma_render_fixed()
    ensures
        app_view().len() == 1,
        app_view()[0].tag == "script"@,
        app_view()[0].text == navigation_call(destination()),
        app_view()[0].text == "window.location.assign('https://www.ibm.com')"@,
        markup(app_view()) == "<script>window.location.assign('https://www.ibm.com')</script>"@,
{
    reveal_strlit("https://www.ibm.com");
    reveal_strlit("window.location.assign('");
    reveal_strlit("')");
    reveal_strlit("window.location.assign('https://www.ibm.com')");
    reveal_strlit("<script>window.location.assign('https://www.ibm.com')</script>");
    reveal_strlit("script");
    reveal_strlit("<");
    reveal_strlit(">");
    reveal_strlit("</");
    let v = app_view();
    assert(v.drop_last() =~= Seq::<ElementView>::empty());
    assert(v[0].text =~= "window.location.assign('https://www.ibm.com')"@);
    assert(markup(v.drop_last()) == Seq::<char>::empty());
    assert(v.last() == v[0]);
    assert(markup(v) =~= element_markup(v[0]));
    assert(markup(v) =~= "<script>window.location.assign('https://www.ibm.com')</script>"@);
}

/// Rendering the page twice, as after a remount, gives the same fragment
/// and the same markup.
pub proof fn lemma_remount_identical(first: Html, second: Html)
    requires
        first@ == app_view(),
        second@ == app_view(),
    ensures
        first@ == second@,
        markup(first@) == markup(second@),
{
}

/// Mounting the page hands the host exactly one navigation, to the
/// destination, where the host offers navigation, and none where it does
/// not; either way the rendered fragment is left as it is.
pub proof fn lemma_single_navigation(navigation_available: bool)
    ensures
        navigations(app_view()) == seq![destination()],
        mount_outcome(navigation_available).html == app_view(),
        mount_outcome(navigation_available).assigned == (if navigation_available {
            seq![destination()]
        } else {
            Seq::<Seq<char>>::empty()
        }),
        mount_outcome(navigation_available).phase == (if navigation_available {
            Phase::Navigating
        } else {
            Phase::Loading
        }),
{
    reveal_strlit("window.location.assign('");
    reveal_strlit("')");
    let v = app_view();
    let e = v[0];
    let p = call_prefix().len();
    let n = e.text.len();
    assert(e.text.subrange(0, p as int) =~= call_prefix());
    assert(e.text.subrange(n - 2, n as int) =~= call_suffix());
    assert(e.text.subrange(p as int, n - 2) =~= destination());
    assert(v.drop_last() =~= Seq::<ElementView>::empty());
    assert(navigations(v.drop_last()) == Seq::<Seq<char>>::empty());
    assert(v.last() == e);
    assert(assigned_url(e) == Some(destination()));
    assert(navigations(v) =~= seq![destination()]);
}

} // verus!
