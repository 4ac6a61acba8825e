//! The pages of the demo, each named by an anchor, and the fonts it shows
//! them in.

use vstd::prelude::*;
use vstd::string::StringExecFns;

verus! {

/// A page of the demo.
#[derive(Clone, Copy, Debug, PartialEq, Eq, Structural)]
pub enum Anchor {
    Demo,
    EasyMarkEditor,
    Http,
    ImageViewer,
    Clock,
    Custom3d,
    /// Rendering test
    Rendering,
}

impl Default for Anchor {
    fn default() -> (r: Anchor)
        ensures
            r == Anchor::Demo,
    {
        Anchor::Demo
    }
}

/// The lower case of a text as Unicode defines it: what `str::to_lowercase`
/// of the standard library returns for it.
pub uninterp spec fn lowercased(text: Seq<char>) -> Seq<char>;

/// `str::to_lowercase` of the standard library. Nothing is claimed of the
/// result but that it is the lower case of the text given.
#[verifier::external_body]
fn to_lowercase(text: &str) -> (r: String)
    ensures
        r@ == lowercased(text@),
{
    text.to_lowercase()
}

/// The pages that can be reached by their name, in the order in which they
/// are looked up.
pub open spec fn reachable() -> Seq<Anchor> {
    seq![
        Anchor::Demo,
        Anchor::EasyMarkEditor,
        Anchor::Http,
        Anchor::Clock,
        Anchor::Custom3d,
        Anchor::Rendering,
    ]
}

/// The first of `anchors` that goes by `name`, if there is one.
pub open spec fn first_named(anchors: Seq<Anchor>, name: Seq<char>) -> Option<Anchor>
    decreases anchors.len(),
{
    if anchors.len() == 0 {
        None
    } else if anchors[0].name() == name {
        Some(anchors[0])
    } else {
        first_named(anchors.subrange(1, anchors.len() as int), name)
    }
}

impl Anchor {
    /// The name of the page: its variant in lower case.
    pub open spec fn name(self) -> Seq<char> {
        match self {
            Anchor::Demo => "demo"@,
            Anchor::EasyMarkEditor => "easymarkeditor"@,
            Anchor::Http => "http"@,
            Anchor::ImageViewer => "imageviewer"@,
            Anchor::Clock => "clock"@,
            Anchor::Custom3d => "custom3d"@,
            Anchor::Rendering => "rendering"@,
        }
    }

    /// What the tab of the page is labelled with.
    pub open spec fn spec_label(self) -> Seq<char> {
        match self {
            Anchor::Demo => "✨ Demos"@,
            Anchor::EasyMarkEditor => "🖹 EasyMark editor"@,
            Anchor::Http => "⬇ HTTP"@,
            Anchor::ImageViewer => "🖼 Image Viewer"@,
            Anchor::Clock => "🕑 Fractal Clock"@,
            Anchor::Custom3d => "🔺 3D painting"@,
            Anchor::Rendering => "🎨 Rendering test"@,
        }
    }

    pub fn label(&self) -> (r: &'static str)
        ensures
            r@ == self.spec_label(),
    {
        match self {
            Anchor::Demo => "✨ Demos",
            Anchor::EasyMarkEditor => "🖹 EasyMark editor",
            Anchor::Http => "⬇ HTTP",
            Anchor::ImageViewer => "🖼 Image Viewer",
            Anchor::Clock => "🕑 Fractal Clock",
            Anchor::Custom3d => "🔺 3D painting",
            Anchor::Rendering => "🎨 Rendering test",
        }
    }

    /// The pages in the order of their tabs. The page with the 3D painting
    /// is among them only where there is something to paint it with.
    pub open spec fn tabs(custom3d: bool) -> Seq<Anchor> {
        let first = seq![
            Anchor::Demo,
            Anchor::EasyMarkEditor,
            Anchor::Http,
            Anchor::Clock,
            Anchor::ImageViewer,
        ];
        if custom3d {
            first.push(Anchor::Custom3d).push(Anchor::Rendering)
        } else {
            first.push(Anchor::Rendering)
        }
    }

    /// Computes [`Anchor::tabs`].
    pub fn tab_anchors(custom3d: bool) -> (r: Vec<Anchor>)
        ensures
            r@ == Anchor::tabs(custom3d),
    {
        let mut anchors: Vec<Anchor> = Vec::new();
        anchors.push(Anchor::Demo);
        anchors.push(Anchor::EasyMarkEditor);
        anchors.push(Anchor::Http);
        anchors.push(Anchor::Clock);
        anchors.push(Anchor::ImageViewer);
        if custom3d {
            anchors.push(Anchor::Custom3d);
        }
        anchors.push(Anchor::Rendering);
        assert(anchors@ =~= Anchor::tabs(custom3d));
        anchors
    }

    /// Whether the page is shown while `selected` is the page selected:
    /// the selected page is, and so is every page while everything is made
    /// visible.
    pub fn is_shown(self, selected: Anchor, everything_is_visible: bool) -> (r: bool)
        ensures
            r == (self == selected || everything_is_visible),
    {
        self == selected || everything_is_visible
    }

    /// The name of the page as text.
    pub fn to_string(&self) -> (r: String)
        ensures
            r@ == self.name(),
    {
        match self {
            Anchor::Demo => String::from_str("demo"),
            Anchor::EasyMarkEditor => String::from_str("easymarkeditor"),
            Anchor::Http => String::from_str("http"),
            Anchor::ImageViewer => String::from_str("imageviewer"),
            Anchor::Clock => String::from_str("clock"),
            Anchor::Custom3d => String::from_str("custom3d"),
            Anchor::Rendering => String::from_str("rendering"),
        }
    }

    /// The pages that can be reached by their name.
    pub fn all() -> (r: Vec<Anchor>)
        ensures
            r@ == reachable(),
    {
        let mut anchors: Vec<Anchor> = Vec::new();
        anchors.push(Anchor::Demo);
        anchors.push(Anchor::EasyMarkEditor);
        anchors.push(Anchor::Http);
        anchors.push(Anchor::Clock);
        anchors.push(Anchor::Custom3d);
        anchors.push(Anchor::Rendering);
        assert(anchors@ =~= reachable());
        anchors
    }

    /// The reachable page that goes by exactly this name.
    pub fn from_name(name: &String) -> (r: Option<Anchor>)
        ensures
            r == first_named(reachable(), name@),
    {
        let anchors = Anchor::all();
        let mut i: usize = 0;
        assert(anchors@.subrange(0, anchors.len() as int) =~= anchors@);
        while i < anchors.len()
            invariant
                i <= anchors.len(),
                anchors@ == reachable(),
                first_named(reachable(), name@) == first_named(
                    anchors@.subrange(i as int, anchors.len() as int),
                    name@,
                ),
            decreases anchors.len() - i,
        {
            let anchor = anchors[i];
            let text = anchor.to_string();
            let ghost rest = anchors@.subrange(i as int, anchors.len() as int);
            assert(rest[0] == anchor);
            assert(rest.subrange(1, rest.len() as int) =~= anchors@.subrange(
                i + 1,
                anchors.len() as int,
            ));
            if text.eq(name) {
                return Some(anchor);
            }
            i += 1;
        }
        None
    }

    /// The reachable page whose name is `anchor` in lower case.
    pub fn from_str_case_insensitive(anchor: &str) -> (r: Option<Anchor>)
        ensures
            r == first_named(reachable(), lowercased(anchor@)),
    {
        let lower = to_lowercase(anchor);
        Anchor::from_name(&lower)
    }
}

/// The name under which the font for Chinese text is registered.
pub open spec fn chinese_font_name() -> Seq<char> {
    "simsun_chinese"@
}

/// The fonts of each family by name, the preferred one first.
#[derive(Clone, Debug)]
pub struct FontFamilies {
    pub proportional: Vec<String>,
    pub monospace: Vec<String>,
}

/// Puts the font for Chinese text first in both families, so that it is
/// tried before any other; the fonts already there follow in their order.
pub fn set_chinese_font(families: &mut FontFamilies)
    ensures
        final(families).proportional@.len() == old(families).proportional@.len() + 1,
        final(families).proportional@[0]@ == chinese_font_name(),
        final(families).proportional@.subrange(1, final(families).proportional@.len() as int)
            == old(families).proportional@,
        final(families).monospace@.len() == old(families).monospace@.len() + 1,
        final(families).monospace@[0]@ == chinese_font_name(),
        final(families).monospace@.subrange(1, final(families).monospace@.len() as int) == old(
            families,
        ).monospace@,
{
    families.proportional.insert(0, String::from_str("simsun_chinese"));
    families.monospace.insert(0, String::from_str("simsun_chinese"));
    assert(families.proportional@.subrange(1, families.proportional@.len() as int) =~= old(
        families,
    ).proportional@);
    assert(families.monospace@.subrange(1, families.monospace@.len() as int) =~= old(
        families,
    ).monospace@);
}

} // verus!
