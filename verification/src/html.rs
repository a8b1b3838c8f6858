//! A small HTML tree: elements with classes, attributes and children, runs of
//! text, and lists of fragments laid out one after another.
//!
//! Every exec value has a view in `HtmlView`, and every builder states the
//! view it produces, so the formatters above can state the exact tree they
//! build.

use vstd::prelude::*;

verus! {

/// The mathematical shape of an HTML fragment.
pub enum HtmlView {
    Element(ElementView),
    Text(Seq<char>),
    List(Seq<HtmlView>),
}

/// The mathematical shape of one element: its tag, its classes in order, its
/// attributes in order and its children.
pub struct ElementView {
    pub tag: Seq<char>,
    pub classes: Seq<Seq<char>>,
    pub attrs: Seq<(Seq<char>, Seq<char>)>,
    pub children: Seq<HtmlView>,
}

impl ElementView {
    /// An element with the given tag and nothing else.
    pub open spec fn new(tag: Seq<char>) -> ElementView {
        ElementView { tag, classes: Seq::empty(), attrs: Seq::empty(), children: Seq::empty() }
    }

    pub open spec fn class(self, c: Seq<char>) -> ElementView {
        ElementView { classes: self.classes.push(c), ..self }
    }

    pub open spec fn class_opt(self, c: Option<Seq<char>>) -> ElementView {
        match c {
            Some(c) => self.class(c),
            None => self,
        }
    }

    pub open spec fn classes(self, cs: Seq<Seq<char>>) -> ElementView {
        ElementView { classes: self.classes + cs, ..self }
    }

    pub open spec fn attr(self, name: Seq<char>, value: Seq<char>) -> ElementView {
        ElementView { attrs: self.attrs.push((name, value)), ..self }
    }

    pub open spec fn attr_opt(self, name: Seq<char>, value: Option<Seq<char>>) -> ElementView {
        match value {
            Some(v) => self.attr(name, v),
            None => self,
        }
    }

    pub open spec fn child(self, h: HtmlView) -> ElementView {
        ElementView { children: self.children.push(h), ..self }
    }

    pub open spec fn child_opt(self, h: Option<HtmlView>) -> ElementView {
        match h {
            Some(h) => self.child(h),
            None => self,
        }
    }

    pub open spec fn children(self, hs: Seq<HtmlView>) -> ElementView {
        ElementView { children: self.children + hs, ..self }
    }

    pub open spec fn html(self) -> HtmlView {
        HtmlView::Element(self)
    }
}

/// A `span` holding the given classes and one run of text.
pub open spec fn span_view(classes: Seq<Seq<char>>, text: Seq<char>) -> HtmlView {
    ElementView::new("span"@).classes(classes).child(HtmlView::Text(text)).html()
}

/// A Feather icon placeholder: `<i data-feather="name">`.
pub open spec fn feather_view(name: Seq<char>) -> HtmlView {
    ElementView::new("i"@).attr("data-feather"@, name).html()
}

/// A paragraph holding one run of text.
pub open spec fn p_view(text: Seq<char>) -> HtmlView {
    ElementView::new("p"@).child(HtmlView::Text(text)).html()
}

/// The views of a sequence of string slices.
pub open spec fn strs_view(s: Seq<&str>) -> Seq<Seq<char>> {
    s.map_values(|x: &str| x@)
}

/// An HTML fragment: an element, a run of text, or a list of fragments laid
/// out one after the other.
pub enum Html {
    Element(HtmlElement),
    Text(HtmlText),
    List(HtmlList),
}

pub struct HtmlElement {
    pub tag: String,
    pub classes: Vec<String>,
    pub attrs: Vec<(String, String)>,
    pub children: Vec<Html>,
}

pub struct HtmlText {
    pub content: String,
}

pub struct HtmlList {
    pub items: Vec<Html>,
}

pub open spec fn html_view(h: Html) -> HtmlView
    decreases h,
{
    match h {
        Html::Element(e) => HtmlView::Element(element_view(e)),
        Html::Text(t) => HtmlView::Text(t.content@),
        Html::List(l) => HtmlView::List(htmls_view(l.items@)),
    }
}

pub open spec fn element_view(e: HtmlElement) -> ElementView
    decreases e,
{
    ElementView {
        tag: e.tag@,
        classes: strings_view(e.classes@),
        attrs: attrs_view(e.attrs@),
        children: htmls_view(e.children@),
    }
}

/// The views of a sequence of fragments, one for one.
pub open spec fn htmls_view(s: Seq<Html>) -> Seq<HtmlView>
    decreases s,
{
    if s.len() == 0 {
        Seq::empty()
    } else {
        htmls_view(s.drop_last()).push(html_view(s[s.len() - 1]))
    }
}

pub open spec fn strings_view(s: Seq<String>) -> Seq<Seq<char>> {
    s.map_values(|x: String| x@)
}

pub open spec fn attrs_view(s: Seq<(String, String)>) -> Seq<(Seq<char>, Seq<char>)> {
    s.map_values(|x: (String, String)| (x.0@, x.1@))
}

pub open spec fn opt_html_view(h: Option<Html>) -> Option<HtmlView> {
    match h {
        Some(h) => Some(html_view(h)),
        None => None,
    }
}

/// `htmls_view` maps each fragment to its view, position by position.
pub broadcast proof fn lemma_htmls_view(s: Seq<Html>)
    ensures
        (#[trigger] htmls_view(s)).len() == s.len(),
        forall|i: int| 0 <= i < s.len() ==> #[trigger] htmls_view(s)[i] == html_view(s[i]),
    decreases s.len(),
{
    if s.len() > 0 {
        lemma_htmls_view(s.drop_last());
    }
}

impl View for Html {
    type V = HtmlView;

    open spec fn view(&self) -> HtmlView {
        html_view(*self)
    }
}

impl View for HtmlElement {
    type V = ElementView;

    open spec fn view(&self) -> ElementView {
        element_view(*self)
    }
}

fn string_of(s: &str) -> (r: String)
    ensures
        r@ == s@,
{
    s.to_owned()
}

impl HtmlElement {
    /// An element with the given tag, no classes, no attributes, no children.
    pub fn new(tag: &str) -> (r: HtmlElement)
        ensures
            r@ == ElementView::new(tag@),
    {
        let r = HtmlElement { tag: string_of(tag), classes: Vec::new(), attrs: Vec::new(), children: Vec::new() };
        assert(strings_view(r.classes@) =~= Seq::empty());
        assert(attrs_view(r.attrs@) =~= Seq::empty());
        r
    }

    pub fn with_class(self, class: &str) -> (r: HtmlElement)
        ensures
            r@ == self@.class(class@),
    {
        let mut r = self;
        r.classes.push(string_of(class));
        assert(strings_view(r.classes@) =~= strings_view(self.classes@).push(class@));
        r
    }

    pub fn with_class_opt(self, class: Option<&str>) -> (r: HtmlElement)
        ensures
            r@ == self@.class_opt(match class { Some(c) => Some(c@), None => None }),
    {
        match class {
            Some(c) => self.with_class(c),
            None => self,
        }
    }

    pub fn with_classes(self, classes: &[&str]) -> (r: HtmlElement)
        ensures
            r@ == self@.classes(strs_view(classes@)),
    {
        let mut r = self;
        let mut i: usize = 0;
        while i < classes.len()
            invariant
                i <= classes@.len(),
                r@ == self@.classes(strs_view(classes@.take(i as int))),
            decreases classes@.len() - i,
        {
            r = r.with_class(classes[i]);
            assert(strs_view(classes@.take(i + 1)) =~= strs_view(classes@.take(i as int)).push(
                classes@[i as int]@,
            ));
            i = i + 1;
        }
        assert(classes@.take(i as int) =~= classes@);
        r
    }

    pub fn with_attr(self, name: &str, value: &str) -> (r: HtmlElement)
        ensures
            r@ == self@.attr(name@, value@),
    {
        let mut r = self;
        r.attrs.push((string_of(name), string_of(value)));
        assert(attrs_view(r.attrs@) =~= attrs_view(self.attrs@).push((name@, value@)));
        r
    }

    pub fn with_attr_opt(self, name: &str, value: Option<String>) -> (r: HtmlElement)
        ensures
            r@ == self@.attr_opt(name@, match value { Some(v) => Some(v@), None => None }),
    {
        match value {
            Some(v) => self.with_attr(name, v.as_str()),
            None => self,
        }
    }

    pub fn with_child(self, child: Html) -> (r: HtmlElement)
        ensures
            r@ == self@.child(child@),
    {
        let mut r = self;
        r.children.push(child);
        assert(r.children@.drop_last() =~= self.children@);
        r
    }

    pub fn with_child_opt(self, child: Option<Html>) -> (r: HtmlElement)
        ensures
            r@ == self@.child_opt(opt_html_view(child)),
    {
        match child {
            Some(c) => self.with_child(c),
            None => self,
        }
    }

    pub fn with_children(self, children: Vec<Html>) -> (r: HtmlElement)
        ensures
            r@ == self@.children(htmls_view(children@)),
    {
        broadcast use lemma_htmls_view;

        let mut r = self;
        let mut rest = children;
        r.children.append(&mut rest);
        assert(htmls_view(r.children@) =~= htmls_view(self.children@) + htmls_view(children@));
        r
    }

    pub fn into_html(self) -> (r: Html)
        ensures
            r@ == HtmlView::Element(self@),
    {
        Html::Element(self)
    }

    /// A copy of this element, with the same view.
    pub fn duplicate(&self) -> (r: HtmlElement)
        ensures
            r@ == self@,
        decreases self,
    {
        let classes = self.classes.clone();
        let mut attrs: Vec<(String, String)> = Vec::new();
        let mut i: usize = 0;
        while i < self.attrs.len()
            invariant
                i <= self.attrs@.len(),
                attrs_view(attrs@) =~= attrs_view(self.attrs@.take(i as int)),
            decreases self.attrs@.len() - i,
        {
            let (n, v) = &self.attrs[i];
            attrs.push((n.clone(), v.clone()));
            assert(attrs_view(self.attrs@.take(i + 1)) =~= attrs_view(self.attrs@.take(i as int)).push(
                (n@, v@),
            ));
            i = i + 1;
        }
        assert(self.attrs@.take(i as int) =~= self.attrs@);
        assert(strings_view(classes@) =~= strings_view(self.classes@));
        let children = duplicate_all(&self.children);
        HtmlElement { tag: self.tag.clone(), classes, attrs, children }
    }
}

/// Copies of the given fragments, one for one.
pub fn duplicate_all(v: &Vec<Html>) -> (r: Vec<Html>)
    ensures
        htmls_view(r@) == htmls_view(v@),
    decreases v,
{
    broadcast use lemma_htmls_view;

    let mut r: Vec<Html> = Vec::new();
    let mut i: usize = 0;
    while i < v.len()
        invariant
            i <= v@.len(),
            r@.len() == i,
            forall|k: int| 0 <= k < i ==> html_view(#[trigger] r@[k]) == html_view(v@[k]),
        decreases v@.len() - i,
    {
        assert(decreases_to!(v => v@[i as int]));
        let h = v[i].duplicate();
        r.push(h);
        i = i + 1;
    }
    assert(htmls_view(r@) =~= htmls_view(v@));
    r
}

impl HtmlText {
    pub fn new(content: &str) -> (r: HtmlText)
        ensures
            r.content@ == content@,
    {
        HtmlText { content: string_of(content) }
    }
}

impl HtmlList {
    pub fn new(items: Vec<Html>) -> (r: HtmlList)
        ensures
            r.items@ == items@,
    {
        HtmlList { items }
    }
}

impl Html {
    /// A run of text.
    pub fn text(content: &str) -> (r: Html)
        ensures
            r@ == HtmlView::Text(content@),
    {
        Html::Text(HtmlText::new(content))
    }

    /// Fragments laid out one after another.
    pub fn list(items: Vec<Html>) -> (r: Html)
        ensures
            r@ == HtmlView::List(htmls_view(items@)),
    {
        Html::List(HtmlList::new(items))
    }

    /// A `span` holding the given classes and one run of text.
    pub fn span(classes: &[&str], text: &str) -> (r: Html)
        ensures
            r@ == span_view(strs_view(classes@), text@),
    {
        HtmlElement::new("span").with_classes(classes).with_child(Html::text(text)).into_html()
    }

    /// A Feather icon placeholder.
    pub fn feather(name: &str) -> (r: Html)
        ensures
            r@ == feather_view(name@),
    {
        HtmlElement::new("i").with_attr("data-feather", name).into_html()
    }

    /// A paragraph holding one run of text.
    pub fn p(text: &str) -> (r: Html)
        ensures
            r@ == p_view(text@),
    {
        HtmlElement::new("p").with_child(Html::text(text)).into_html()
    }

    /// A copy of this fragment, with the same view.
    pub fn duplicate(&self) -> (r: Html)
        ensures
            r@ == self@,
        decreases self,
    {
        match self {
            Html::Element(e) => Html::Element(e.duplicate()),
            Html::Text(t) => Html::Text(HtmlText { content: t.content.clone() }),
            Html::List(l) => Html::List(HtmlList { items: duplicate_all(&l.items) }),
        }
    }
}

} // verus!
