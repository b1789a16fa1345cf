use vstd::prelude::*;
use vstd::string::*;

verus! {

/// An element as the contracts see it: its tag name and its text content.
pub struct ElementView {
    pub tag: Seq<char>,
    pub text: Seq<char>,
}

/// An element whose only child is a text node, such as an inline script.
pub struct Element {
    pub tag: String,
    pub text: String,
}

impl View for Element {
    type V = ElementView;

    open spec fn view(&self) -> ElementView {
        ElementView { tag: self.tag@, text: self.text@ }
    }
}

/// A rendered document fragment: its top-level elements, in order.
pub struct Html {
    pub nodes: Vec<Element>,
}

impl View for Html {
    type V = Seq<ElementView>;

    open spec fn view(&self) -> Seq<ElementView> {
        Seq::new(self.nodes@.len(), |i: int| self.nodes@[i]@)
    }
}

/// The markup of one element: opening tag, text, closing tag.
pub open spec fn element_markup(e: ElementView) -> Seq<char> {
    "<"@ + e.tag + ">"@ + e.text + "</"@ + e.tag + ">"@
}

/// The markup of a fragment: the markup of its elements, one after another.
pub open spec fn markup(nodes: Seq<ElementView>) -> Seq<char>
    decreases nodes.len(),
{
    if nodes.len() == 0 {
        Seq::empty()
    } else {
        markup(nodes.drop_last()) + element_markup(nodes.last())
    }
}

impl Element {
    /// An element with tag `tag` and text content `text`.
    pub fn new(tag: &str, text: &str) -> (r: Element)
        ensures
            r@ == (ElementView { tag: tag@, text: text@ }),
    {
        Element { tag: String::from_str(tag), text: String::from_str(text) }
    }

    /// Serialises the element to markup text.
    pub fn to_markup(&self) -> (r: String)
        ensures
            r@ == element_markup(self@),
    {
        let mut s = String::from_str("<");
        s.append(self.tag.as_str());
        s.append(">");
        s.append(self.text.as_str());
        s.append("</");
        s.append(self.tag.as_str());
        s.append(">");
        s
    }
}

impl Html {
    /// Serialises the fragment to markup text.
    pub fn to_markup(&self) -> (r: String)
        ensures
            r@ == markup(self@),
    {
        let mut s = String::new();
        let mut i: usize = 0;
        while i < self.nodes.len()
            invariant
                i <= self.nodes@.len(),
                s@ == markup(self@.subrange(0, i as int)),
            decreases self.nodes@.len() - i,
        {
            let part = self.nodes[i].to_markup();
            proof {
                let next = self@.subrange(0, i + 1);
                assert(next.drop_last() =~= self@.subrange(0, i as int));
                assert(next.last() == self.nodes@[i as int]@);
            }
            s.append(part.as_str());
            i = i + 1;
        }
        assert(self@.subrange(0, i as int) =~= self@);
        s
    }
}

} // verus!
