//! How a C++ type is shown: its scoped name, linked to its documentation
//! where it has one, then its template arguments, its `const` and its
//! reference or pointer mark.

use vstd::prelude::*;
use vstd::string::*;
use crate::html::{ElementView, Html, HtmlElement, HtmlView, span_view, strs_view, html_view, lemma_htmls_view, htmls_view};
use crate::model::{Ancestor, CType, EntityKind, TypeKind, str_or, opt_str_view};
use crate::seqs::{interleave, wrapped, surround, insert_between};

verus! {

broadcast use lemma_htmls_view;

/// The class of a scope's name by the kind of declaration it names.
pub open spec fn scope_class(k: EntityKind) -> Seq<char> {
    match k {
        EntityKind::Namespace => "namespace"@,
        EntityKind::ClassDecl => "class"@,
        EntityKind::ClassTemplate => "class"@,
        EntityKind::StructDecl => "struct"@,
        EntityKind::FunctionDecl => "fun"@,
        EntityKind::TypedefDecl => "alias"@,
        EntityKind::UsingDeclaration => "alias"@,
        EntityKind::TypeAliasDecl => "alias"@,
        EntityKind::EnumDecl => "enum"@,
        _ => "type"@,
    }
}

/// The keyword shown for a built-in type, if the type is one that has one.
pub open spec fn builtin_name(k: TypeKind) -> Option<Seq<char>> {
    match k {
        TypeKind::Void => Some("void"@),
        TypeKind::Bool => Some("bool"@),
        TypeKind::Long => Some("long"@),
        TypeKind::Auto => Some("auto"@),
        TypeKind::Int => Some("int"@),
        TypeKind::Short => Some("short"@),
        TypeKind::SChar => Some("char"@),
        TypeKind::CharS => Some("char"@),
        TypeKind::UChar => Some("uchar"@),
        TypeKind::CharU => Some("uchar"@),
        TypeKind::Float => Some("float"@),
        TypeKind::Double => Some("double"@),
        TypeKind::UInt => Some("uint"@),
        TypeKind::LongLong => Some("long long"@),
        _ => None,
    }
}

/// The mark shown after a reference or pointer type.
pub open spec fn indirection_mark(k: TypeKind) -> Option<Seq<char>> {
    match k {
        TypeKind::LValueReference => Some("&"@),
        TypeKind::RValueReference => Some("&&"@),
        TypeKind::Pointer => Some("*"@),
        _ => None,
    }
}

/// The script run when a link is clicked.
pub open spec fn navigate_script(link: Seq<char>) -> Seq<char> {
    "return navigate('"@ + link + "')"@
}

/// The separator between two template arguments.
pub open spec fn comma_view() -> HtmlView {
    span_view(seq!["comma"@, "space-after"@], ","@)
}

/// One scope of a scoped name.
pub open spec fn scope_view(a: Ancestor) -> HtmlView {
    ElementView::new("span"@).class(scope_class(a.kind)).class("name"@).child(
        HtmlView::Text(str_or(a.name, "_"@)),
    ).html()
}

/// The scopes of a declaration, in order.
pub open spec fn scopes_view(s: Seq<Ancestor>) -> Seq<HtmlView> {
    s.map_values(|a: Ancestor| scope_view(a))
}

/// The type that is shown: the pointee of a pointer or reference, else the
/// type itself.
pub open spec fn shown_type(t: CType) -> CType {
    match t.pointee {
        Some(p) => *p,
        None => t,
    }
}

/// The name part of a shown type: its scopes joined by `::` where it names a
/// declaration, else a keyword or template parameter name.
pub open spec fn type_name_view(base: CType) -> HtmlView {
    match base.declaration {
        Some(d) => HtmlView::List(
            interleave(scopes_view(d.ancestors@), span_view(seq!["scope"@], "::"@)),
        ),
        None => ElementView::new("span"@).class(
            if base.kind == TypeKind::Unexposed {
                "template-param"@
            } else {
                "keyword"@
            },
        ).class("name"@).child(
            HtmlView::Text(
                match builtin_name(base.kind) {
                    Some(n) => n,
                    None => base.display_name@,
                },
            ),
        ).html(),
    }
}

/// The documentation link of a shown type.
pub open spec fn type_link(base: CType) -> Option<Seq<char>> {
    match base.declaration {
        Some(d) => opt_str_view(d.docs_url),
        None => None,
    }
}

/// Whether a declaration is an alias, whose template arguments are not shown.
pub open spec fn is_alias_decl(base: CType) -> bool {
    match base.declaration {
        Some(d) => d.kind == EntityKind::TypeAliasDecl || d.kind == EntityKind::TypedefDecl,
        None => false,
    }
}

/// The whole view of a type.
pub open spec fn type_view(t: CType) -> HtmlView
    decreases t, 0nat,
{
    let link = type_link(shown_type(t));
    ElementView::new("a"@).class("entity"@).class("type"@).class_opt(
        if t.is_pod {
            Some("keyword"@)
        } else {
            None
        },
    ).class_opt(
        if link is None {
            Some("disabled"@)
        } else {
            None
        },
    ).attr_opt("href"@, link).attr_opt(
        "onclick"@,
        match link {
            Some(l) => Some(navigate_script(l)),
            None => None,
        },
    ).child(type_name_view(shown_type(t))).child_opt(
        if is_alias_decl(shown_type(t)) {
            None
        } else {
            match t.pointee {
                Some(p) => match p.template_args {
                    Some(args) => Some(template_args_view(args@)),
                    None => None,
                },
                None => match t.template_args {
                    Some(args) => Some(template_args_view(args@)),
                    None => None,
                },
            }
        },
    ).child_opt(
        if shown_type(t).is_const_qualified {
            Some(span_view(seq!["keyword"@, "space-before"@], "const"@))
        } else {
            None
        },
    ).child_opt(
        match indirection_mark(t.kind) {
            Some(m) => Some(HtmlView::Text(m)),
            None => None,
        },
    ).html()
}

/// Template arguments between angle brackets, separated by commas.
pub open spec fn template_args_view(args: Seq<Option<CType>>) -> HtmlView
    decreases args, 1nat,
{
    HtmlView::List(
        wrapped(
            interleave(arg_views(args), comma_view()),
            HtmlView::Text("<"@),
            HtmlView::Text(">"@),
        ),
    )
}

/// The views of template arguments, one for one; an argument that is not a
/// type shows as `_unk`.
pub open spec fn arg_views(args: Seq<Option<CType>>) -> Seq<HtmlView>
    decreases args, 0nat,
{
    if args.len() == 0 {
        Seq::empty()
    } else {
        arg_views(args.drop_last()).push(
            match args[args.len() - 1] {
                Some(t) => type_view(t),
                None => HtmlView::Text("_unk"@),
            },
        )
    }
}

/// `arg_views` maps each argument to its view, position by position.
pub broadcast proof fn lemma_arg_views(args: Seq<Option<CType>>)
    ensures
        (#[trigger] arg_views(args)).len() == args.len(),
        forall|i: int|
            0 <= i < args.len() ==> #[trigger] arg_views(args)[i] == match args[i] {
                Some(t) => type_view(t),
                None => HtmlView::Text("_unk"@),
            },
    decreases args.len(),
{
    if args.len() > 0 {
        lemma_arg_views(args.drop_last());
    }
}

/// `items` with a fresh `span` of the given classes and text between each
/// pair of neighbours.
pub fn join_with_span(items: Vec<Html>, classes: &[&str], text: &str) -> (r: Vec<Html>)
    ensures
        htmls_view(r@) == interleave(htmls_view(items@), span_view(strs_view(classes@), text@)),
{
    let ghost sep_view = span_view(strs_view(classes@), text@);
    let sep = || -> (h: Html)
        ensures
            h@ == span_view(strs_view(classes@), text@),
        { Html::span(classes, text) };
    let r = insert_between(items, sep);
    assert forall|j: int| 0 <= j < r@.len() implies #[trigger] htmls_view(r@)[j] == interleave(
        htmls_view(items@),
        sep_view,
    )[j] by {
        assert(htmls_view(r@)[j] == html_view(r@[j]));
        if j % 2 == 0 {
            assert(r@[2 * (j / 2)] == items@[j / 2]);
            assert(htmls_view(items@)[j / 2] == html_view(items@[j / 2]));
        } else {
            assert(sep.ensures((), r@[2 * ((j - 1) / 2) + 1]));
            assert(html_view(r@[j]) == sep_view);
        }
    }
    assert(htmls_view(r@) =~= interleave(htmls_view(items@), sep_view));
    r
}

/// `items` between a text `start` and a text `end`.
pub fn surround_with_text(items: Vec<Html>, start: &str, end: &str) -> (r: Vec<Html>)
    ensures
        htmls_view(r@) == wrapped(htmls_view(items@), HtmlView::Text(start@), HtmlView::Text(end@)),
{
    let r = surround(items, Html::text(start), Html::text(end));
    assert(htmls_view(r@) =~= wrapped(
        htmls_view(items@),
        HtmlView::Text(start@),
        HtmlView::Text(end@),
    ));
    r
}

fn navigate_script_of(link: &str) -> (r: String)
    ensures
        r@ == navigate_script(link@),
{
    let s = "return navigate('".to_owned();
    let s = s.concat(link);
    s.concat("')")
}

fn fmt_scopes(ancestors: &Vec<Ancestor>) -> (r: Vec<Html>)
    ensures
        htmls_view(r@) == scopes_view(ancestors@),
{
    let mut r: Vec<Html> = Vec::new();
    let mut i: usize = 0;
    while i < ancestors.len()
        invariant
            i <= ancestors@.len(),
            htmls_view(r@) =~= scopes_view(ancestors@.take(i as int)),
        decreases ancestors@.len() - i,
    {
        let a = &ancestors[i];
        let name: &str = match &a.name {
            Some(n) => n.as_str(),
            None => "_",
        };
        let h = HtmlElement::new("span").with_class(scope_class_of(a.kind)).with_class(
            "name",
        ).with_child(Html::text(name)).into_html();
        r.push(h);
        assert(scopes_view(ancestors@.take(i + 1)) =~= scopes_view(ancestors@.take(i as int)).push(
            scope_view(*a),
        ));
        i = i + 1;
    }
    assert(ancestors@.take(i as int) =~= ancestors@);
    r
}

fn scope_class_of(k: EntityKind) -> (r: &'static str)
    ensures
        r@ == scope_class(k),
{
    match k {
        EntityKind::Namespace => "namespace",
        EntityKind::ClassDecl => "class",
        EntityKind::ClassTemplate => "class",
        EntityKind::StructDecl => "struct",
        EntityKind::FunctionDecl => "fun",
        EntityKind::TypedefDecl => "alias",
        EntityKind::UsingDeclaration => "alias",
        EntityKind::TypeAliasDecl => "alias",
        EntityKind::EnumDecl => "enum",
        _ => "type",
    }
}

fn builtin_name_of(k: TypeKind) -> (r: Option<&'static str>)
    ensures
        match r {
            Some(n) => builtin_name(k) == Some(n@),
            None => builtin_name(k) is None,
        },
{
    match k {
        TypeKind::Void => Some("void"),
        TypeKind::Bool => Some("bool"),
        TypeKind::Long => Some("long"),
        TypeKind::Auto => Some("auto"),
        TypeKind::Int => Some("int"),
        TypeKind::Short => Some("short"),
        TypeKind::SChar => Some("char"),
        TypeKind::CharS => Some("char"),
        TypeKind::UChar => Some("uchar"),
        TypeKind::CharU => Some("uchar"),
        TypeKind::Float => Some("float"),
        TypeKind::Double => Some("double"),
        TypeKind::UInt => Some("uint"),
        TypeKind::LongLong => Some("long long"),
        _ => None,
    }
}

/// The name part of a shown type.
pub fn fmt_type_name(base: &CType) -> (r: Html)
    ensures
        r@ == type_name_view(*base),
{
    match &base.declaration {
        Some(d) => {
            let scopes = fmt_scopes(&d.ancestors);
            let cls: &[&str] = &["scope"];
            assert(strs_view(cls@) =~= seq!["scope"@]);
            let joined = join_with_span(scopes, cls, "::");
            Html::list(joined)
        },
        None => {
            let class = if base.kind == TypeKind::Unexposed {
                "template-param"
            } else {
                "keyword"
            };
            let text: &str = match builtin_name_of(base.kind) {
                Some(n) => n,
                None => base.display_name.as_str(),
            };
            HtmlElement::new("span").with_class(class).with_class("name").with_child(
                Html::text(text),
            ).into_html()
        },
    }
}

/// Template arguments between angle brackets, separated by commas.
pub fn fmt_template_arg_types(args: &Vec<Option<CType>>) -> (r: Html)
    ensures
        r@ == template_args_view(args@),
    decreases args, 1nat,
{
    broadcast use lemma_arg_views;

    let mut items: Vec<Html> = Vec::new();
    let mut i: usize = 0;
    while i < args.len()
        invariant
            i <= args@.len(),
            items@.len() == i,
            forall|k: int|
                0 <= k < i ==> html_view(#[trigger] items@[k]) == arg_views(args@)[k],
        decreases args@.len() - i,
    {
        let h = match &args[i] {
            Some(t) => {
                assert(decreases_to!(args => args@[i as int]->0));
                let h = fmt_type(t);
                assert(args@[i as int] == Some(*t));
                proof { lemma_arg_views(args@); }
                assert(arg_views(args@)[i as int] == type_view(*t));
                h
            },
            None => {
                proof { lemma_arg_views(args@); }
                Html::text("_unk")
            },
        };
        assert(html_view(h) == arg_views(args@)[i as int]);
        items.push(h);
        i = i + 1;
    }
    assert(htmls_view(items@) =~= arg_views(args@));
    let cls: &[&str] = &["comma", "space-after"];
    assert(strs_view(cls@) =~= seq!["comma"@, "space-after"@]);
    let joined = join_with_span(items, cls, ",");
    Html::list(surround_with_text(joined, "<", ">"))
}

/// How a type is shown: its name, linked to its documentation where it has
/// one, its template arguments (not for aliases), `const`, and `&`, `&&` or
/// `*` for references and pointers.
pub fn fmt_type(entity: &CType) -> (r: Html)
    ensures
        r@ == type_view(*entity),
    decreases entity, 0nat,
{
    let base: &CType = match &entity.pointee {
        Some(p) => &**p,
        None => entity,
    };
    let link: Option<String> = match &base.declaration {
        Some(d) => match &d.docs_url {
            Some(u) => Some(u.clone()),
            None => None,
        },
        None => None,
    };
    let onclick: Option<String> = match &link {
        Some(l) => Some(navigate_script_of(l.as_str())),
        None => None,
    };
    let alias = match &base.declaration {
        Some(d) => d.kind == EntityKind::TypeAliasDecl || d.kind == EntityKind::TypedefDecl,
        None => false,
    };
    let pod_class = if entity.is_pod {
        Some("keyword")
    } else {
        None
    };
    let disabled_class = if link.is_none() {
        Some("disabled")
    } else {
        None
    };
    let name = fmt_type_name(base);
    let args: Option<Html> = if alias {
        None
    } else {
        match &base.template_args {
            Some(a) => {
                proof {
                    if entity.pointee is Some {
                        assert(decreases_to!(entity => entity.pointee->0.template_args->0));
                    } else {
                        assert(decreases_to!(entity => entity.template_args->0));
                    }
                }
                Some(fmt_template_arg_types(a))
            },
            None => None,
        }
    };
    let constness = if base.is_const_qualified {
        let cls: &[&str] = &["keyword", "space-before"];
        assert(strs_view(cls@) =~= seq!["keyword"@, "space-before"@]);
        let c = Html::span(cls, "const");
        Some(c)
    } else {
        None
    };
    let mark: Option<Html> = match entity.kind {
        TypeKind::LValueReference => Some(Html::text("&")),
        TypeKind::RValueReference => Some(Html::text("&&")),
        TypeKind::Pointer => Some(Html::text("*")),
        _ => None,
    };
    HtmlElement::new("a").with_class("entity").with_class("type").with_class_opt(
        pod_class,
    ).with_class_opt(disabled_class).with_attr_opt("href", link).with_attr_opt(
        "onclick",
        onclick,
    ).with_child(name).with_child_opt(args).with_child_opt(constness).with_child_opt(
        mark,
    ).into_html()
}


/// The children of an element; nothing for text or a list.
pub open spec fn children_of(h: HtmlView) -> Seq<HtmlView> {
    match h {
        HtmlView::Element(e) => e.children,
        _ => Seq::empty(),
    }
}

/// A pointer or reference to a type that is itself neither shows exactly
/// what that type shows (its name, its template arguments, its `const`),
/// followed by `&`, `&&` or `*`.
pub proof fn law_indirection_shows_pointee(t: CType, p: CType)
    requires
        t.pointee is Some,
        *t.pointee->0 == p,
        p.pointee is None,
        p.kind != TypeKind::LValueReference,
        p.kind != TypeKind::RValueReference,
        p.kind != TypeKind::Pointer,
    ensures
        children_of(type_view(t)) == children_of(type_view(p)) + match t.kind {
            TypeKind::LValueReference => seq![HtmlView::Text("&"@)],
            TypeKind::RValueReference => seq![HtmlView::Text("&&"@)],
            TypeKind::Pointer => seq![HtmlView::Text("*"@)],
            _ => Seq::<HtmlView>::empty(),
        },
{
    assert(shown_type(t) == p);
    assert(shown_type(p) == p);
    assert(children_of(type_view(t)) =~= children_of(type_view(p)) + match t.kind {
        TypeKind::LValueReference => seq![HtmlView::Text("&"@)],
        TypeKind::RValueReference => seq![HtmlView::Text("&&"@)],
        TypeKind::Pointer => seq![HtmlView::Text("*"@)],
        _ => Seq::<HtmlView>::empty(),
    });
}


/// A type that is not an alias and has template arguments shows them right
/// after its name: `<`, one part per argument with a separator between
/// neighbours, then `>`.
pub proof fn law_template_args_follow_name(t: CType)
    requires
        t.template_args is Some,
        !is_alias_decl(shown_type(t)),
        t.pointee is None,
    ensures
        children_of(type_view(t)).len() >= 2,
        children_of(type_view(t))[1] matches HtmlView::List(items) && {
            let n = t.template_args->0@.len();
            &&& items.len() == (if n == 0 { 2 } else { 2 * n + 1 })
            &&& items[0] == HtmlView::Text("<"@)
            &&& items[items.len() - 1] == HtmlView::Text(">"@)
        },
{
    lemma_arg_views(t.template_args->0@);
    assert(shown_type(t) == t);
}

} // verus!
