//! The fragments of a page that describe one declaration: parameters,
//! template parameters, fields, functions, class declarations, base and
//! derived classes, sections and header links.

use vstd::prelude::*;
use vstd::string::*;
use crate::html::{
    ElementView, Html, HtmlElement, HtmlView, span_view, p_view, feather_view, strs_view,
    html_view, htmls_view, lemma_htmls_view,
};
use crate::model::{Accessibility, Entity, EntityKind, Entry, str_or, opt_str_view};
use crate::seqs::{interleave, wrapped, keep, lemma_keep_take};
use crate::text::{decimal, usize_to_string};
use crate::types::{
    type_view, fmt_type, comma_view, navigate_script, join_with_span, surround_with_text,
};

verus! {

broadcast use lemma_htmls_view;

// ---------------------------------------------------------------------------
// The trees, stated.
// ---------------------------------------------------------------------------

/// What stands where a declaration has no documentation comment.
pub open spec fn no_desc_view() -> HtmlView {
    span_view(seq!["no-desc"@], "No description provided"@)
}

/// A declaration's comment as shown in a member's description.
pub open spec fn member_comment_view(e: Entity) -> HtmlView {
    match e.comment {
        Some(c) => html_view(c.member_html),
        None => no_desc_view(),
    }
}

pub open spec fn opt_type_view(t: Option<crate::model::CType>) -> Option<HtmlView> {
    match t {
        Some(t) => Some(type_view(t)),
        None => None,
    }
}

/// A parameter or field: its type, then its name.
pub open spec fn param_view(p: Entity) -> HtmlView {
    ElementView::new("div"@).class("entity"@).class("var"@).child_opt(opt_type_view(p.ty)).child_opt(
        match p.display_name {
            Some(n) => Some(span_view(seq!["name"@, "space-before"@], n@)),
            None => None,
        },
    ).html()
}

pub open spec fn is_template_param(c: Entity) -> bool {
    c.kind == EntityKind::TemplateTypeParameter
}

/// The template type parameters among a declaration's children, in order.
pub open spec fn template_params(e: Entity) -> Seq<Entity> {
    keep(e.children@, |c: Entity| is_template_param(c))
}

/// How one template parameter is written: its source text, else
/// `typename` and its name, else `_`.
pub open spec fn template_param_text(c: Entity) -> Seq<char> {
    match c.source_string {
        Some(s) => s@,
        None => match c.name {
            Some(n) => "typename "@ + n@,
            None => "_"@,
        },
    }
}

pub open spec fn template_param_texts(s: Seq<Entity>) -> Seq<HtmlView> {
    s.map_values(|c: Entity| HtmlView::Text(template_param_text(c)))
}

/// `template <...>` for a declaration with template type parameters.
pub open spec fn template_params_view(e: Entity) -> Option<HtmlView> {
    if template_params(e).len() == 0 {
        None
    } else {
        Some(
            ElementView::new("span"@).class("template-params"@).child(
                span_view(seq!["keyword"@, "space-after"@], "template"@),
            ).children(
                wrapped(
                    interleave(template_param_texts(template_params(e)), comma_view()),
                    HtmlView::Text("<"@),
                    HtmlView::Text(">"@),
                ),
            ).html(),
        )
    }
}

/// A field: its declaration, then its comment.
pub open spec fn field_view(f: Entity) -> HtmlView {
    ElementView::new("details"@).class("entity-desc"@).child(
        ElementView::new("summary"@).class("entity"@).class("var"@).child(param_view(f)).child(
            HtmlView::Text(";"@),
        ).html(),
    ).child(ElementView::new("div"@).child(member_comment_view(f)).html()).html()
}

pub open spec fn keyword_if(b: bool, classes: Seq<Seq<char>>, word: Seq<char>) -> Option<HtmlView> {
    if b {
        Some(span_view(classes, word))
    } else {
        None
    }
}

pub open spec fn params_view(args: Seq<Entity>) -> Seq<HtmlView> {
    args.map_values(|a: Entity| param_view(a))
}

/// A function's parameters, in parentheses and separated by commas.
pub open spec fn param_list_view(f: Entity) -> Seq<HtmlView> {
    wrapped(
        interleave(
            match f.arguments {
                Some(a) => params_view(a@),
                None => Seq::empty(),
            },
            comma_view(),
        ),
        HtmlView::Text("("@),
        HtmlView::Text(")"@),
    )
}

/// A function's signature.
pub open spec fn fun_signature_view(f: Entity) -> HtmlView {
    ElementView::new("summary"@).class("entity"@).class("fun"@).child_opt(template_params_view(f)).child(
        ElementView::new("span"@).class("function-signature"@).child_opt(
            keyword_if(f.is_static_method, seq!["keyword"@, "space-after"@], "static"@),
        ).child_opt(
            keyword_if(f.is_virtual_method, seq!["keyword"@, "space-after"@], "virtual"@),
        ).child_opt(opt_type_view(f.result_type)).child(
            span_view(seq!["name"@, "space-before"@], str_or(f.name, "_anon"@)),
        ).child(ElementView::new("span"@).class("params"@).children(param_list_view(f)).html()).child_opt(
            keyword_if(f.is_const_method, seq!["keyword"@, "space-before"@], "const"@),
        ).child_opt(
            if f.is_pure_virtual_method {
                Some(
                    HtmlView::List(
                        seq![
                            span_view(seq!["space-before"@], "="@),
                            span_view(seq!["space-before"@, "literal"@], "0"@),
                        ],
                    ),
                )
            } else {
                None
            },
        ).html(),
    ).html()
}

/// A method: its signature, then its comment; its name is its anchor.
pub open spec fn class_method_view(f: Entity) -> HtmlView {
    ElementView::new("details"@).class("entity-desc"@).attr_opt("id"@, opt_str_view(f.name)).child(
        fun_signature_view(f),
    ).child(ElementView::new("div"@).child(member_comment_view(f)).html()).html()
}

/// A class-like declaration: keyword, name, template parameters, then its
/// comment.
pub open spec fn classlike_decl_view(c: Entity, keyword: Seq<char>) -> HtmlView {
    ElementView::new("details"@).class("entity-desc"@).child(
        ElementView::new("summary"@).class("entity"@).class(keyword).child(
            span_view(seq!["keyword"@, "space-after"@], keyword),
        ).child(span_view(seq!["name"@], str_or(c.name, "_anon"@))).child_opt(
            template_params_view(c),
        ).child(HtmlView::Text(";"@)).html(),
    ).child(ElementView::new("div"@).child(member_comment_view(c)).html()).html()
}

/// A collapsible section with a title, a count of its items, and the items.
pub open spec fn section_view(title: Seq<char>, items: Seq<HtmlView>) -> HtmlView {
    ElementView::new("details"@).attr("open"@, ""@).class("section"@).child(
        ElementView::new("summary"@).child(
            ElementView::new("span"@).child(feather_view("chevron-right"@)).child(
                HtmlView::Text(title),
            ).child(span_view(seq!["badge"@], decimal(items.len()))).html(),
        ).html(),
    ).child(ElementView::new("div"@).child(HtmlView::List(items)).html()).html()
}

/// Whether the source tree of a declaration is published; it is taken to be
/// where nothing is known.
pub open spec fn published(e: Entity) -> bool {
    match e.exists_online {
        Some(b) => b,
        None => true,
    }
}

/// The `#include` line of a declaration, linked to its header online.
pub open spec fn header_link_view(e: Entity) -> HtmlView {
    match (e.github_url, e.include_path) {
        (Some(link), Some(path)) => ElementView::new("a"@).attr_opt(
            "href"@,
            if published(e) {
                Some(link@)
            } else {
                None
            },
        ).class("header-link"@).class_opt(
            if published(e) {
                None
            } else {
                Some("disabled"@)
            },
        ).child(
            ElementView::new("code"@).class("header-link"@).children(
                seq![
                    span_view(seq!["keyword"@], "#include "@),
                    span_view(seq!["url"@], "&lt;"@ + path@ + "&gt;"@),
                ],
            ).html(),
        ).html(),
        _ => p_view("&lt;Not available online&gt;"@),
    }
}

pub open spec fn access_word(a: Accessibility) -> Seq<char> {
    match a {
        Accessibility::Public => "public"@,
        Accessibility::Private => "private"@,
        Accessibility::Protected => "protected"@,
    }
}

pub open spec fn opt_seq<A>(o: Option<A>) -> Seq<A> {
    match o {
        Some(x) => seq![x],
        None => Seq::empty(),
    }
}

/// One base class: its access, `virtual`, and its type, each where present.
pub open spec fn base_view(b: Entity) -> HtmlView {
    HtmlView::List(
        opt_seq(
            match b.accessibility {
                Some(a) => Some(span_view(seq!["keyword"@, "space-after"@], access_word(a))),
                None => None,
            },
        ) + opt_seq(keyword_if(b.is_virtual_base, seq!["keyword"@, "space-after"@], "virtual"@))
            + opt_seq(opt_type_view(b.ty)),
    )
}

pub open spec fn is_base_specifier(c: Entity) -> bool {
    c.kind == EntityKind::BaseSpecifier
}

/// The base specifiers among a declaration's children, in order.
pub open spec fn bases(e: Entity) -> Seq<Entity> {
    keep(e.children@, |c: Entity| is_base_specifier(c))
}

pub open spec fn bases_view(s: Seq<Entity>) -> Seq<HtmlView> {
    s.map_values(|b: Entity| base_view(b))
}

/// A class declaration with its base classes: `class Name : public Base { ... }`.
pub open spec fn base_classes_view(entry: Entry, keyword: Seq<char>) -> HtmlView {
    ElementView::new("div"@).class("entity"@).class("class"@).child_opt(
        template_params_view(entry.entity),
    ).child(
        ElementView::new("span"@).class("class-decl"@).child(
            span_view(seq!["keyword"@, "space-after"@], keyword),
        ).child(span_view(seq!["name"@], str_or(entry.entity.name, "_"@))).child_opt(
            if bases(entry.entity).len() != 0 {
                Some(span_view(seq!["space-before"@, "space-after"@], ":"@))
            } else {
                None
            },
        ).children(
            interleave(bases_view(bases(entry.entity)), span_view(seq!["space-after"@], ","@)),
        ).child(span_view(seq!["space-before"@], "{ ... }"@)).html(),
    ).html()
}

/// A derived class, linked to its page.
pub open spec fn derived_class_view(e: Entity) -> HtmlView {
    ElementView::new("div"@).class("entity"@).class("class"@).child(
        ElementView::new("a"@).attr_opt("href"@, opt_str_view(e.docs_url)).attr_opt(
            "onclick"@,
            match e.docs_url {
                Some(l) => Some(navigate_script(l@)),
                None => None,
            },
        ).child(span_view(seq!["keyword"@, "space-after"@], "class"@)).child(
            span_view(seq!["name"@], str_or(e.name, "_"@)),
        ).child(span_view(seq!["space-before"@], "{ ... }"@)).html(),
    ).html()
}

// ---------------------------------------------------------------------------
// The formatters.
// ---------------------------------------------------------------------------

fn span1(class: &str, text: &str) -> (r: Html)
    ensures
        r@ == span_view(seq![class@], text@),
{
    let cls: [&str; 1] = [class];
    let s: &[&str] = &cls;
    assert(strs_view(s@) =~= seq![class@]);
    Html::span(s, text)
}

fn span2(c1: &str, c2: &str, text: &str) -> (r: Html)
    ensures
        r@ == span_view(seq![c1@, c2@], text@),
{
    let cls: [&str; 2] = [c1, c2];
    let s: &[&str] = &cls;
    assert(strs_view(s@) =~= seq![c1@, c2@]);
    Html::span(s, text)
}

fn opt_str<'a>(s: &'a Option<String>, default: &'a str) -> (r: &'a str)
    ensures
        r@ == str_or(*s, default@),
{
    match s {
        Some(s) => s.as_str(),
        None => default,
    }
}

fn clone_opt(s: &Option<String>) -> (r: Option<String>)
    ensures
        opt_str_view(r) == opt_str_view(*s),
{
    match s {
        Some(s) => Some(s.clone()),
        None => None,
    }
}

/// A declaration's comment as shown in a member's description, or a note
/// that it has none.
fn fmt_member_comment(e: &Entity) -> (r: Html)
    ensures
        r@ == member_comment_view(*e),
{
    match &e.comment {
        Some(c) => c.member_html.duplicate(),
        None => span1("no-desc", "No description provided"),
    }
}

fn fmt_opt_type(t: &Option<crate::model::CType>) -> (r: Option<Html>)
    ensures
        crate::html::opt_html_view(r) == opt_type_view(*t),
{
    match t {
        Some(t) => Some(fmt_type(t)),
        None => None,
    }
}

fn keyword_if_of(b: bool, c1: &str, c2: &str, word: &str) -> (r: Option<Html>)
    ensures
        crate::html::opt_html_view(r) == keyword_if(b, seq![c1@, c2@], word@),
{
    if b {
        Some(span2(c1, c2, word))
    } else {
        None
    }
}

/// A parameter or field: its type, then its name.
pub fn fmt_param(param: &Entity) -> (r: Html)
    ensures
        r@ == param_view(*param),
{
    let name = match &param.display_name {
        Some(n) => Some(span2("name", "space-before", n.as_str())),
        None => None,
    };
    HtmlElement::new("div").with_class("entity").with_class("var").with_child_opt(
        fmt_opt_type(&param.ty),
    ).with_child_opt(name).into_html()
}

/// `template <...>` for a declaration with template type parameters;
/// nothing for one without.
pub fn fmt_template_args(entity: &Entity) -> (r: Option<Html>)
    ensures
        crate::html::opt_html_view(r) == template_params_view(*entity),
{
    let ghost p = |c: Entity| is_template_param(c);
    let mut texts: Vec<Html> = Vec::new();
    let ghost mut kept: Seq<Entity> = Seq::empty();
    let mut i: usize = 0;
    while i < entity.children.len()
        invariant
            i <= entity.children@.len(),
            p == (|c: Entity| is_template_param(c)),
            kept == keep(entity.children@.take(i as int), p),
            htmls_view(texts@) =~= template_param_texts(kept),
        decreases entity.children@.len() - i,
    {
        let c = &entity.children[i];
        proof {
            lemma_keep_take(entity.children@, p, i as int);
        }
        if c.kind == EntityKind::TemplateTypeParameter {
            let t: Html = match &c.source_string {
                Some(s) => Html::text(s.as_str()),
                None => match &c.name {
                    Some(n) => {
                        let s = "typename ".to_owned().concat(n.as_str());
                        Html::text(s.as_str())
                    },
                    None => Html::text("_"),
                },
            };
            assert(t@ == HtmlView::Text(template_param_text(*c)));
            let ghost before = texts@;
            texts.push(t);
            assert(texts@.drop_last() =~= before);
            proof {
                kept = kept.push(*c);
            }
            assert(template_param_texts(kept) =~= template_param_texts(kept.drop_last()).push(
                HtmlView::Text(template_param_text(*c)),
            ));
        }
        i = i + 1;
    }
    assert(entity.children@.take(i as int) =~= entity.children@);
    if texts.len() == 0 {
        return None;
    }
    let cls: &[&str] = &["comma", "space-after"];
    assert(strs_view(cls@) =~= seq!["comma"@, "space-after"@]);
    let joined = join_with_span(texts, cls, ",");
    let items = surround_with_text(joined, "<", ">");
    Some(
        HtmlElement::new("span").with_class("template-params").with_child(
            span2("keyword", "space-after", "template"),
        ).with_children(items).into_html(),
    )
}

/// A field: its declaration, then its comment.
pub fn fmt_field(field: &Entity) -> (r: Html)
    ensures
        r@ == field_view(*field),
{
    HtmlElement::new("details").with_class("entity-desc").with_child(
        HtmlElement::new("summary").with_class("entity").with_class("var").with_child(
            fmt_param(field),
        ).with_child(Html::text(";")).into_html(),
    ).with_child(
        HtmlElement::new("div").with_child(fmt_member_comment(field)).into_html(),
    ).into_html()
}

fn fmt_params(args: &Vec<Entity>) -> (r: Vec<Html>)
    ensures
        htmls_view(r@) == params_view(args@),
{
    let mut r: Vec<Html> = Vec::new();
    let mut i: usize = 0;
    while i < args.len()
        invariant
            i <= args@.len(),
            htmls_view(r@) =~= params_view(args@.take(i as int)),
        decreases args@.len() - i,
    {
        r.push(fmt_param(&args[i]));
        assert(params_view(args@.take(i + 1)) =~= params_view(args@.take(i as int)).push(
            param_view(args@[i as int]),
        ));
        i = i + 1;
    }
    assert(args@.take(i as int) =~= args@);
    r
}

/// A function's signature: template parameters, `static`, `virtual`, result
/// type, name, parameters, `const` and `= 0`, each where it applies.
pub fn fmt_fun_signature(fun: &Entity) -> (r: Html)
    ensures
        r@ == fun_signature_view(*fun),
{
    let params: Vec<Html> = match &fun.arguments {
        Some(a) => fmt_params(a),
        None => Vec::new(),
    };
    assert(htmls_view(params@) =~= match fun.arguments {
        Some(a) => params_view(a@),
        None => Seq::empty(),
    });
    let cls: &[&str] = &["comma", "space-after"];
    assert(strs_view(cls@) =~= seq!["comma"@, "space-after"@]);
    let joined = join_with_span(params, cls, ",");
    let param_list = surround_with_text(joined, "(", ")");
    let pure = if fun.is_pure_virtual_method {
        let mut v: Vec<Html> = Vec::new();
        v.push(span1("space-before", "="));
        v.push(span2("space-before", "literal", "0"));
        assert(htmls_view(v@) =~= seq![
            span_view(seq!["space-before"@], "="@),
            span_view(seq!["space-before"@, "literal"@], "0"@),
        ]);
        Some(Html::list(v))
    } else {
        None
    };
    HtmlElement::new("summary").with_class("entity").with_class("fun").with_child_opt(
        fmt_template_args(fun),
    ).with_child(
        HtmlElement::new("span").with_class("function-signature").with_child_opt(
            keyword_if_of(fun.is_static_method, "keyword", "space-after", "static"),
        ).with_child_opt(
            keyword_if_of(fun.is_virtual_method, "keyword", "space-after", "virtual"),
        ).with_child_opt(fmt_opt_type(&fun.result_type)).with_child(
            span2("name", "space-before", opt_str(&fun.name, "_anon")),
        ).with_child(
            HtmlElement::new("span").with_class("params").with_children(param_list).into_html(),
        ).with_child_opt(
            keyword_if_of(fun.is_const_method, "keyword", "space-before", "const"),
        ).with_child_opt(pure).into_html(),
    ).into_html()
}

/// The anchor of a method on its class's page: its name.
pub fn member_fun_link(entity: &Entity) -> (r: Option<String>)
    ensures
        opt_str_view(r) == opt_str_view(entity.name),
{
    clone_opt(&entity.name)
}

/// A method: its signature, then its comment.
pub fn fmt_class_method(fun: &Entity) -> (r: Html)
    ensures
        r@ == class_method_view(*fun),
{
    HtmlElement::new("details").with_class("entity-desc").with_attr_opt(
        "id",
        member_fun_link(fun),
    ).with_child(fmt_fun_signature(fun)).with_child(
        HtmlElement::new("div").with_child(fmt_member_comment(fun)).into_html(),
    ).into_html()
}

/// A class-like declaration: keyword, name, template parameters, then its
/// comment.
pub fn fmt_classlike_decl(class: &Entity, keyword: &str) -> (r: Html)
    ensures
        r@ == classlike_decl_view(*class, keyword@),
{
    HtmlElement::new("details").with_class("entity-desc").with_child(
        HtmlElement::new("summary").with_class("entity").with_class(keyword).with_child(
            span2("keyword", "space-after", keyword),
        ).with_child(span1("name", opt_str(&class.name, "_anon"))).with_child_opt(
            fmt_template_args(class),
        ).with_child(Html::text(";")).into_html(),
    ).with_child(
        HtmlElement::new("div").with_child(fmt_member_comment(class)).into_html(),
    ).into_html()
}

/// A collapsible section: a title with the number of items, then the items.
pub fn fmt_section(title: &str, data: Vec<Html>) -> (r: Html)
    ensures
        r@ == section_view(title@, htmls_view(data@)),
{
    let count = usize_to_string(data.len());
    HtmlElement::new("details").with_attr("open", "").with_class("section").with_child(
        HtmlElement::new("summary").with_child(
            HtmlElement::new("span").with_child(Html::feather("chevron-right")).with_child(
                Html::text(title),
            ).with_child(span1("badge", count.as_str())).into_html(),
        ).into_html(),
    ).with_child(HtmlElement::new("div").with_child(Html::list(data)).into_html()).into_html()
}

/// The `#include` line of a declaration, linked to its header where the
/// source is published; a note where the header is not known.
pub fn fmt_header_link(entity: &Entity) -> (r: Html)
    ensures
        r@ == header_link_view(*entity),
{
    match (&entity.github_url, &entity.include_path) {
        (Some(link), Some(path)) => {
            let exists_online = match entity.exists_online {
                Some(b) => b,
                None => true,
            };
            let disabled = !exists_online;
            let href = if !disabled {
                Some(link.clone())
            } else {
                None
            };
            let url = "&lt;".to_owned().concat(path.as_str()).concat("&gt;");
            let mut parts: Vec<Html> = Vec::new();
            parts.push(span1("keyword", "#include "));
            parts.push(span1("url", url.as_str()));
            assert(htmls_view(parts@) =~= seq![
                span_view(seq!["keyword"@], "#include "@),
                span_view(seq!["url"@], "&lt;"@ + path@ + "&gt;"@),
            ]);
            HtmlElement::new("a").with_attr_opt("href", href).with_class("header-link").with_class_opt(
                if disabled {
                    Some("disabled")
                } else {
                    None
                },
            ).with_child(
                HtmlElement::new("code").with_class("header-link").with_children(
                    parts,
                ).into_html(),
            ).into_html()
        },
        _ => Html::p("&lt;Not available online&gt;"),
    }
}

fn access_word_of(a: Accessibility) -> (r: &'static str)
    ensures
        r@ == access_word(a),
{
    match a {
        Accessibility::Public => "public",
        Accessibility::Private => "private",
        Accessibility::Protected => "protected",
    }
}

fn fmt_base(b: &Entity) -> (r: Html)
    ensures
        r@ == base_view(*b),
{
    let mut parts: Vec<Html> = Vec::new();
    match b.accessibility {
        Some(a) => parts.push(span2("keyword", "space-after", access_word_of(a))),
        None => {},
    }
    if b.is_virtual_base {
        parts.push(span2("keyword", "space-after", "virtual"));
    }
    match &b.ty {
        Some(t) => parts.push(fmt_type(t)),
        None => {},
    }
    assert(htmls_view(parts@) =~= opt_seq(
        match b.accessibility {
            Some(a) => Some(span_view(seq!["keyword"@, "space-after"@], access_word(a))),
            None => None,
        },
    ) + opt_seq(keyword_if(b.is_virtual_base, seq!["keyword"@, "space-after"@], "virtual"@))
        + opt_seq(opt_type_view(b.ty)));
    Html::list(parts)
}

/// A class declaration with its base classes: `class Name : public Base { ... }`.
pub fn fmt_base_classes(entry: &Entry, kw: &str) -> (r: Html)
    ensures
        r@ == base_classes_view(*entry, kw@),
{
    let e = &entry.entity;
    let ghost p = |c: Entity| is_base_specifier(c);
    let mut views: Vec<Html> = Vec::new();
    let ghost mut kept: Seq<Entity> = Seq::empty();
    let mut i: usize = 0;
    while i < e.children.len()
        invariant
            i <= e.children@.len(),
            p == (|c: Entity| is_base_specifier(c)),
            kept == keep(e.children@.take(i as int), p),
            htmls_view(views@) =~= bases_view(kept),
        decreases e.children@.len() - i,
    {
        let c = &e.children[i];
        proof {
            lemma_keep_take(e.children@, p, i as int);
        }
        if c.kind == EntityKind::BaseSpecifier {
            let ghost before = views@;
            views.push(fmt_base(c));
            assert(views@.drop_last() =~= before);
            proof {
                kept = kept.push(*c);
            }
            assert(bases_view(kept) =~= bases_view(kept.drop_last()).push(base_view(*c)));
        }
        i = i + 1;
    }
    assert(e.children@.take(i as int) =~= e.children@);
    let colon = if views.len() != 0 {
        Some(span2("space-before", "space-after", ":"))
    } else {
        None
    };
    let cls: &[&str] = &["space-after"];
    assert(strs_view(cls@) =~= seq!["space-after"@]);
    let joined = join_with_span(views, cls, ",");
    HtmlElement::new("div").with_class("entity").with_class("class").with_child_opt(
        fmt_template_args(e),
    ).with_child(
        HtmlElement::new("span").with_class("class-decl").with_child(
            span2("keyword", "space-after", kw),
        ).with_child(span1("name", opt_str(&e.name, "_"))).with_child_opt(colon).with_children(
            joined,
        ).with_child(span1("space-before", "{ ... }")).into_html(),
    ).into_html()
}

/// A derived class, linked to its page.
pub fn fmt_derived_class(entity: &Entity) -> (r: Html)
    ensures
        r@ == derived_class_view(*entity),
{
    let link = clone_opt(&entity.docs_url);
    let onclick = match &entity.docs_url {
        Some(l) => Some("return navigate('".to_owned().concat(l.as_str()).concat("')")),
        None => None,
    };
    HtmlElement::new("div").with_class("entity").with_class("class").with_child(
        HtmlElement::new("a").with_attr_opt("href", link).with_attr_opt("onclick", onclick).with_child(
            span2("keyword", "space-after", "class"),
        ).with_child(span1("name", opt_str(&entity.name, "_"))).with_child(
            span1("space-before", "{ ... }"),
        ).into_html(),
    ).into_html()
}


/// The children of the last child of an element: for a signature, the parts
/// of its `function-signature` span.
pub open spec fn last_child_children(h: HtmlView) -> Seq<HtmlView> {
    match h {
        HtmlView::Element(e) => if e.children.len() > 0 {
            match e.children.last() {
                HtmlView::Element(s) => s.children,
                _ => Seq::empty(),
            }
        } else {
            Seq::empty()
        },
        _ => Seq::empty(),
    }
}

/// A signature shows the function's name (or `_anon` where it has none) in
/// a `name space-before` span among its parts.
pub proof fn law_signature_shows_name(f: Entity)
    ensures
        last_child_children(fun_signature_view(f)).contains(
            span_view(
                seq!["name"@, "space-before"@],
                match f.name {
                    Some(n) => n@,
                    None => "_anon"@,
                },
            ),
        ),
{
    let parts = last_child_children(fun_signature_view(f));
    let before = opt_seq(keyword_if(f.is_static_method, seq!["keyword"@, "space-after"@], "static"@))
        + opt_seq(keyword_if(f.is_virtual_method, seq!["keyword"@, "space-after"@], "virtual"@))
        + opt_seq(opt_type_view(f.result_type));
    let name_span = span_view(seq!["name"@, "space-before"@], str_or(f.name, "_anon"@));
    assert(parts.subrange(0, before.len() as int + 1) =~= before.push(name_span));
    assert(parts[before.len() as int] == name_span);
}

/// What a function's signature, its method entry and its page show does not
/// depend on its display name (the name with its parameter types).
pub proof fn law_signature_ignores_display_name(f: Entity, d: Option<String>)
    ensures
        fun_signature_view(Entity { display_name: d, ..f }) == fun_signature_view(f),
        class_method_view(Entity { display_name: d, ..f }) == class_method_view(f),
{
    let g = Entity { display_name: d, ..f };
    assert(template_params(g) == template_params(f));
    assert(param_list_view(g) == param_list_view(f));
}

/// A base class shows its access first, spelled as it is declared:
/// `public`, `protected` or `private`.
pub proof fn law_base_access_word(b: Entity)
    requires
        b.accessibility is Some,
    ensures
        base_view(b) matches HtmlView::List(items) && items.len() > 0 && {
            &&& b.accessibility == Some(Accessibility::Public) ==> items[0] == span_view(
                seq!["keyword"@, "space-after"@],
                "public"@,
            )
            &&& b.accessibility == Some(Accessibility::Protected) ==> items[0] == span_view(
                seq!["keyword"@, "space-after"@],
                "protected"@,
            )
            &&& b.accessibility == Some(Accessibility::Private) ==> items[0] == span_view(
                seq!["keyword"@, "space-after"@],
                "private"@,
            )
        },
{
    let first = span_view(seq!["keyword"@, "space-after"@], access_word(b.accessibility->0));
    let rest = opt_seq(keyword_if(b.is_virtual_base, seq!["keyword"@, "space-after"@], "virtual"@))
        + opt_seq(opt_type_view(b.ty));
    assert(opt_seq(Some(first)) + rest =~= seq![first] + rest);
    assert((seq![first] + rest)[0] == first);
}

} // verus!
