//! The named fragments that fill the template of an entity's page.

use vstd::prelude::*;
use crate::html::{Html, HtmlView, html_view, htmls_view, lemma_htmls_view, duplicate_all};
use crate::model::{Accessibility, CppItem, Entity, EntityKind, Entry, Namespace, opt_str_view};
use crate::seqs::{keep, lemma_keep_take, lemma_keep_kept, lemma_keep_keeps};
use crate::format::{
    no_desc_view, header_link_view, section_view, fun_signature_view, base_classes_view,
    class_method_view, field_view, derived_class_view, fmt_header_link, fmt_section,
    fmt_fun_signature, fmt_base_classes, fmt_class_method, fmt_field, fmt_derived_class,
};
use crate::order::{
    sort_by_name, sort_entries_by_name, deref_all, sorted_by_name, law_sort_by_name_sorted,
    law_sort_by_name_permutes,
};
use crate::text::string_eq;

verus! {

broadcast use lemma_htmls_view;

/// The views of named fragments.
pub open spec fn pairs_view(s: Seq<(&'static str, Html)>) -> Seq<(Seq<char>, HtmlView)> {
    s.map_values(|p: (&'static str, Html)| (p.0@, html_view(p.1)))
}

/// A declaration's comment as shown at the top of its page.
pub open spec fn page_comment_view(e: Entity) -> HtmlView {
    match e.comment {
        Some(c) => html_view(c.page_html),
        None => no_desc_view(),
    }
}

/// The examples of a declaration's comment.
pub open spec fn examples_view(e: Entity) -> Seq<HtmlView> {
    match e.comment {
        Some(c) => htmls_view(c.examples@),
        None => Seq::empty(),
    }
}

/// The fragments every entity's page has: name, description, header link
/// and examples.
pub open spec fn entity_fields_view(entry: Entry) -> Seq<(Seq<char>, HtmlView)> {
    seq![
        ("name"@, HtmlView::Text(entry.name@)),
        ("description"@, page_comment_view(entry.entity)),
        ("header_link"@, header_link_view(entry.entity)),
        ("examples"@, section_view("Examples"@, examples_view(entry.entity))),
    ]
}

/// The fragments of a function's page.
pub open spec fn function_fields_view(entry: Entry) -> Seq<(Seq<char>, HtmlView)> {
    entity_fields_view(entry) + seq![("function_signature"@, fun_signature_view(entry.entity))]
}

/// The entries held by namespace items, in pre-order: each namespace's own
/// entry, then what it holds.
pub open spec fn entries_of(items: Seq<CppItem>) -> Seq<Entry>
    decreases items, 0nat,
{
    if items.len() == 0 {
        Seq::empty()
    } else {
        entries_of(items.drop_last()) + item_entries(items[items.len() - 1])
    }
}

pub open spec fn item_entries(item: CppItem) -> Seq<Entry>
    decreases item, 1nat,
{
    match item {
        CppItem::Namespace(n) => seq![n.entry] + entries_of(n.entries@),
        CppItem::Entry(e) => seq![e],
    }
}

pub open spec fn is_class_like(e: Entry) -> bool {
    e.category@ == "class"@ || e.category@ == "struct"@
}

/// The classes and structs of a namespace, nested ones included, in
/// pre-order.
pub open spec fn all_classes(ns: Namespace) -> Seq<Entry> {
    keep(entries_of(ns.entries@), |e: Entry| is_class_like(e))
}

/// Whether a base specifier names the declaration whose USR is `usr`.
pub open spec fn names_base(c: Entity, usr: Option<Seq<char>>) -> bool {
    &&& c.kind == EntityKind::BaseSpecifier
    &&& match c.ty {
        Some(t) => match t.declaration {
            Some(d) => opt_str_view(d.usr) == usr,
            None => false,
        },
        None => false,
    }
}

/// Whether `candidate` lists the declaration `base` among its base classes.
pub open spec fn derives_from(candidate: Entry, base: Entity) -> bool {
    exists|k: int|
        0 <= k < candidate.entity.children@.len() && #[trigger] names_base(
            candidate.entity.children@[k],
            opt_str_view(base.usr),
        )
}

/// The classes of `root` derived from `entry`, stably sorted by name.
pub open spec fn derived_classes(entry: Entry, root: Namespace) -> Seq<Entry> {
    sort_by_name(keep(all_classes(root), |c: Entry| derives_from(c, entry.entity)))
}

pub open spec fn methods_view(s: Seq<Entity>) -> Seq<HtmlView> {
    s.map_values(|f: Entity| class_method_view(f))
}

pub open spec fn is_field_with(c: Entity, a: Accessibility) -> bool {
    c.kind == EntityKind::FieldDecl && c.accessibility == Some(a)
}

/// The fields of a declaration with the given access, in order.
pub open spec fn fields_with(e: Entity, a: Accessibility) -> Seq<Entity> {
    keep(e.children@, |c: Entity| is_field_with(c, a))
}

pub open spec fn fields_view(s: Seq<Entity>) -> Seq<HtmlView> {
    s.map_values(|f: Entity| field_view(f))
}

pub open spec fn derived_view(s: Seq<Entry>) -> Seq<HtmlView> {
    s.map_values(|c: Entry| derived_class_view(c.entity))
}

/// The fragments of a class's or struct's page.
pub open spec fn classlike_fields_view(entry: Entry, root: Namespace) -> Seq<(Seq<char>, HtmlView)> {
    let e = entry.entity;
    entity_fields_view(entry) + seq![
        ("base_classes"@, base_classes_view(entry, entry.category@)),
        (
            "public_static_functions"@,
            section_view("Public static methods"@, methods_view(e.public_static_methods@)),
        ),
        (
            "public_member_functions"@,
            section_view("Public member functions"@, methods_view(e.public_methods@)),
        ),
        (
            "protected_member_functions"@,
            section_view("Protected member functions"@, methods_view(e.protected_methods@)),
        ),
        (
            "public_members"@,
            section_view("Fields"@, fields_view(fields_with(e, Accessibility::Public))),
        ),
        (
            "protected_members"@,
            section_view("Protected fields"@, fields_view(fields_with(e, Accessibility::Protected))),
        ),
        ("derived_classes"@, section_view("Derived classes"@, derived_view(derived_classes(entry, root)))),
    ]
}

// ---------------------------------------------------------------------------

fn collect_entries<'a>(items: &'a Vec<CppItem>, out: &mut Vec<&'a Entry>)
    ensures
        deref_all(final(out)@) == deref_all(old(out)@) + entries_of(items@),
    decreases items, 0nat,
{
    let mut i: usize = 0;
    while i < items.len()
        invariant
            i <= items@.len(),
            deref_all(out@) == deref_all(old(out)@) + entries_of(items@.take(i as int)),
        decreases items@.len() - i,
    {
        let ghost before = deref_all(out@);
        match &items[i] {
            CppItem::Namespace(n) => {
                assert(decreases_to!(items => items@[i as int]));
                out.push(&n.entry);
                assert(deref_all(out@) =~= before.push(n.entry));
                collect_entries(&n.entries, out);
                assert(item_entries(items@[i as int]) == seq![n.entry] + entries_of(n.entries@));
            },
            CppItem::Entry(e) => {
                out.push(e);
                assert(deref_all(out@) =~= before.push(*e));
            },
        }
        assert(items@.take(i + 1).drop_last() =~= items@.take(i as int));
        assert(items@.take(i + 1)[i as int] == items@[i as int]);
        assert(entries_of(items@.take(i + 1)) == entries_of(items@.take(i as int)) + item_entries(
            items@[i as int],
        ));
        assert(deref_all(out@) =~= deref_all(old(out)@) + entries_of(items@.take(i + 1)));
        i = i + 1;
    }
    assert(items@.take(i as int) =~= items@);
}

/// The classes and structs of a namespace, nested ones included.
pub fn get_all_classes<'a>(namespace: &'a Namespace) -> (r: Vec<&'a Entry>)
    ensures
        deref_all(r@) == all_classes(*namespace),
{
    let mut all: Vec<&'a Entry> = Vec::new();
    collect_entries(&namespace.entries, &mut all);
    assert(deref_all(all@) =~= entries_of(namespace.entries@));
    let ghost s = entries_of(namespace.entries@);
    let ghost p = |e: Entry| is_class_like(e);
    let mut r: Vec<&'a Entry> = Vec::new();
    let mut i: usize = 0;
    while i < all.len()
        invariant
            i <= all@.len(),
            deref_all(all@) == s,
            p == (|e: Entry| is_class_like(e)),
            deref_all(r@) == keep(s.take(i as int), p),
        decreases all@.len() - i,
    {
        let e = all[i];
        proof {
            lemma_keep_take(s, p, i as int);
        }
        assert(s[i as int] == *e);
        if string_eq(&e.category, "class") || string_eq(&e.category, "struct") {
            let ghost before = deref_all(r@);
            r.push(e);
            assert(deref_all(r@) =~= before.push(*e));
        }
        i = i + 1;
    }
    assert(s.take(i as int) =~= s);
    r
}

fn opt_usr_eq(a: &Option<String>, b: &Option<String>) -> (r: bool)
    ensures
        r == (opt_str_view(*a) == opt_str_view(*b)),
{
    match (a, b) {
        (Some(x), Some(y)) => *x == *y,
        (None, None) => true,
        _ => false,
    }
}

/// Whether `candidate` lists the declaration `base` among its base classes.
pub fn is_derived_from(candidate: &Entry, base: &Entity) -> (r: bool)
    ensures
        r == derives_from(*candidate, *base),
{
    let children = &candidate.entity.children;
    let mut k: usize = 0;
    while k < children.len()
        invariant
            k <= children@.len(),
            children == &candidate.entity.children,
            forall|j: int| 0 <= j < k ==> !#[trigger] names_base(children@[j], opt_str_view(base.usr)),
        decreases children@.len() - k,
    {
        let c = &children[k];
        let hit = c.kind == EntityKind::BaseSpecifier && match &c.ty {
            Some(t) => match &t.declaration {
                Some(d) => opt_usr_eq(&d.usr, &base.usr),
                None => false,
            },
            None => false,
        };
        if hit {
            assert(names_base(children@[k as int], opt_str_view(base.usr)));
            return true;
        }
        k = k + 1;
    }
    false
}

/// The classes of `root` derived from `entry`, stably sorted by name.
pub fn get_derived_classes<'a>(entry: &Entry, root: &'a Namespace) -> (r: Vec<&'a Entry>)
    ensures
        deref_all(r@) == derived_classes(*entry, *root),
{
    let classes = get_all_classes(root);
    let ghost s = all_classes(*root);
    let ghost p = |c: Entry| derives_from(c, entry.entity);
    let mut derived: Vec<&'a Entry> = Vec::new();
    let mut i: usize = 0;
    while i < classes.len()
        invariant
            i <= classes@.len(),
            deref_all(classes@) == s,
            p == (|c: Entry| derives_from(c, entry.entity)),
            deref_all(derived@) == keep(s.take(i as int), p),
        decreases classes@.len() - i,
    {
        let c = classes[i];
        proof {
            lemma_keep_take(s, p, i as int);
        }
        assert(s[i as int] == *c);
        if is_derived_from(c, &entry.entity) {
            let ghost before = deref_all(derived@);
            derived.push(c);
            assert(deref_all(derived@) =~= before.push(*c));
        }
        i = i + 1;
    }
    assert(s.take(i as int) =~= s);
    sort_entries_by_name(derived)
}

fn fmt_page_comment(e: &Entity) -> (r: Html)
    ensures
        r@ == page_comment_view(*e),
{
    match &e.comment {
        Some(c) => c.page_html.duplicate(),
        None => {
            let cls: &[&str] = &["no-desc"];
            assert(crate::html::strs_view(cls@) =~= seq!["no-desc"@]);
            Html::span(cls, "No description provided")
        },
    }
}

fn fmt_examples(e: &Entity) -> (r: Vec<Html>)
    ensures
        htmls_view(r@) == examples_view(*e),
{
    match &e.comment {
        Some(c) => duplicate_all(&c.examples),
        None => Vec::new(),
    }
}

/// The fragments every entity's page has: its name, its description, its
/// header link and its examples.
pub fn output_entity(entry: &Entry) -> (r: Vec<(&'static str, Html)>)
    ensures
        pairs_view(r@) == entity_fields_view(*entry),
{
    let mut r: Vec<(&'static str, Html)> = Vec::new();
    r.push(("name", Html::text(entry.name.as_str())));
    r.push(("description", fmt_page_comment(&entry.entity)));
    r.push(("header_link", fmt_header_link(&entry.entity)));
    r.push(("examples", fmt_section("Examples", fmt_examples(&entry.entity))));
    assert(pairs_view(r@) =~= entity_fields_view(*entry));
    r
}

/// The fragments of a function's page: those of every entity, then its
/// signature.
pub fn output_function(entry: &Entry) -> (r: Vec<(&'static str, Html)>)
    ensures
        pairs_view(r@) == function_fields_view(*entry),
{
    let mut ent = output_entity(entry);
    let ghost before = ent@;
    ent.push(("function_signature", fmt_fun_signature(&entry.entity)));
    assert(pairs_view(ent@) =~= pairs_view(before).push(
        ("function_signature"@, fun_signature_view(entry.entity)),
    ));
    ent
}

fn fmt_methods(fs: &Vec<Entity>) -> (r: Vec<Html>)
    ensures
        htmls_view(r@) == methods_view(fs@),
{
    let mut r: Vec<Html> = Vec::new();
    let mut i: usize = 0;
    while i < fs.len()
        invariant
            i <= fs@.len(),
            htmls_view(r@) =~= methods_view(fs@.take(i as int)),
        decreases fs@.len() - i,
    {
        let ghost before = r@;
        r.push(fmt_class_method(&fs[i]));
        assert(r@.drop_last() =~= before);
        assert(methods_view(fs@.take(i + 1)) =~= methods_view(fs@.take(i as int)).push(
            class_method_view(fs@[i as int]),
        ));
        i = i + 1;
    }
    assert(fs@.take(i as int) =~= fs@);
    r
}

fn fmt_fields_with(e: &Entity, a: Accessibility) -> (r: Vec<Html>)
    ensures
        htmls_view(r@) == fields_view(fields_with(*e, a)),
{
    let ghost p = |c: Entity| is_field_with(c, a);
    let ghost mut kept: Seq<Entity> = Seq::empty();
    let mut r: Vec<Html> = Vec::new();
    let mut i: usize = 0;
    while i < e.children.len()
        invariant
            i <= e.children@.len(),
            p == (|c: Entity| is_field_with(c, a)),
            kept == keep(e.children@.take(i as int), p),
            htmls_view(r@) =~= fields_view(kept),
        decreases e.children@.len() - i,
    {
        let c = &e.children[i];
        proof {
            lemma_keep_take(e.children@, p, i as int);
        }
        if c.kind == EntityKind::FieldDecl && c.accessibility == Some(a) {
            let ghost before = r@;
            r.push(fmt_field(c));
            assert(r@.drop_last() =~= before);
            proof {
                kept = kept.push(*c);
            }
            assert(fields_view(kept) =~= fields_view(kept.drop_last()).push(field_view(*c)));
        }
        i = i + 1;
    }
    assert(e.children@.take(i as int) =~= e.children@);
    r
}

fn fmt_derived(ds: &Vec<&Entry>) -> (r: Vec<Html>)
    ensures
        htmls_view(r@) == derived_view(deref_all(ds@)),
{
    let mut r: Vec<Html> = Vec::new();
    let mut i: usize = 0;
    while i < ds.len()
        invariant
            i <= ds@.len(),
            htmls_view(r@) =~= derived_view(deref_all(ds@.take(i as int))),
        decreases ds@.len() - i,
    {
        let ghost before = r@;
        r.push(fmt_derived_class(&ds[i].entity));
        assert(r@.drop_last() =~= before);
        assert(derived_view(deref_all(ds@.take(i + 1))) =~= derived_view(
            deref_all(ds@.take(i as int)),
        ).push(derived_class_view(ds@[i as int].entity)));
        i = i + 1;
    }
    assert(ds@.take(i as int) =~= ds@);
    r
}

/// The fragments of a class's or struct's page: those of every entity, then
/// its base classes, its methods, its fields and the classes derived from it
/// in `root`, sorted by name.
pub fn output_classlike(entry: &Entry, root: &Namespace) -> (r: Vec<(&'static str, Html)>)
    ensures
        pairs_view(r@) == classlike_fields_view(*entry, *root),
{
    let e = &entry.entity;
    let mut ent = output_entity(entry);
    let ghost first = pairs_view(ent@);
    let mut more: Vec<(&'static str, Html)> = Vec::new();
    more.push(("base_classes", fmt_base_classes(entry, entry.category.as_str())));
    more.push(
        ("public_static_functions", fmt_section("Public static methods", fmt_methods(&e.public_static_methods))),
    );
    more.push(
        ("public_member_functions", fmt_section("Public member functions", fmt_methods(&e.public_methods))),
    );
    more.push(
        (
            "protected_member_functions",
            fmt_section("Protected member functions", fmt_methods(&e.protected_methods)),
        ),
    );
    more.push(("public_members", fmt_section("Fields", fmt_fields_with(e, Accessibility::Public))));
    more.push(
        ("protected_members", fmt_section("Protected fields", fmt_fields_with(e, Accessibility::Protected))),
    );
    let derived = get_derived_classes(entry, root);
    more.push(("derived_classes", fmt_section("Derived classes", fmt_derived(&derived))));
    let ghost second = pairs_view(more@);
    ent.append(&mut more);
    assert(pairs_view(ent@) =~= first + second);
    assert(pairs_view(ent@) =~= classlike_fields_view(*entry, *root));
    ent
}

// ---------------------------------------------------------------------------
// What the class lists hold, proved.
// ---------------------------------------------------------------------------

/// The classes of a namespace are exactly the entries of its tree whose
/// category is `class` or `struct`.
pub proof fn law_all_classes_members(ns: Namespace, e: Entry)
    ensures
        all_classes(ns).contains(e) <==> (entries_of(ns.entries@).contains(e) && is_class_like(e)),
{
    let p = |x: Entry| is_class_like(x);
    let s = entries_of(ns.entries@);
    if all_classes(ns).contains(e) {
        lemma_keep_kept(s, p, e);
    }
    if s.contains(e) && is_class_like(e) {
        let i = choose|i: int| 0 <= i < s.len() && s[i] == e;
        lemma_keep_keeps(s, p, i);
    }
}

/// The derived classes listed for an entry are exactly the classes of the
/// tree that name it as a base, sorted by name.
pub proof fn law_derived_classes(entry: Entry, root: Namespace, e: Entry)
    ensures
        sorted_by_name(derived_classes(entry, root)),
        derived_classes(entry, root).contains(e) <==> (all_classes(root).contains(e) && derives_from(
            e,
            entry.entity,
        )),
{
    broadcast use vstd::seq_lib::group_to_multiset_ensures;

    let p = |c: Entry| derives_from(c, entry.entity);
    let kept = keep(all_classes(root), p);
    law_sort_by_name_sorted(kept);
    law_sort_by_name_permutes(kept);
    assert(derived_classes(entry, root).to_multiset().count(e) == kept.to_multiset().count(e));
    if kept.contains(e) {
        lemma_keep_kept(all_classes(root), p, e);
    }
    if all_classes(root).contains(e) && derives_from(e, entry.entity) {
        let i = choose|i: int| 0 <= i < all_classes(root).len() && all_classes(root)[i] == e;
        lemma_keep_keeps(all_classes(root), p, i);
    }
}


/// A class is listed as derived from an entry exactly when it is a class of
/// the tree and one of its children is a base specifier whose type declares
/// the entry's USR; a child of another kind (a field, say) whose type names
/// the entry does not count.
pub proof fn law_derived_only_through_base_specifiers(entry: Entry, root: Namespace, e: Entry)
    ensures
        derived_classes(entry, root).contains(e) <==> (all_classes(root).contains(e) && exists|k: int|
            0 <= k < e.entity.children@.len() && {
                let c = #[trigger] e.entity.children@[k];
                &&& c.kind == EntityKind::BaseSpecifier
                &&& c.ty is Some
                &&& c.ty->0.declaration is Some
                &&& opt_str_view(c.ty->0.declaration->0.usr) == opt_str_view(entry.entity.usr)
            }),
{
    law_derived_classes(entry, root, e);
    let cs = e.entity.children@;
    let u = opt_str_view(entry.entity.usr);
    if derives_from(e, entry.entity) {
        let k = choose|k: int| 0 <= k < cs.len() && #[trigger] names_base(cs[k], u);
        assert(cs[k] == e.entity.children@[k]);
    }
    if exists|k: int|
        0 <= k < cs.len() && {
            let c = #[trigger] e.entity.children@[k];
            &&& c.kind == EntityKind::BaseSpecifier
            &&& c.ty is Some
            &&& c.ty->0.declaration is Some
            &&& opt_str_view(c.ty->0.declaration->0.usr) == u
        } {
        let k = choose|k: int|
            0 <= k < cs.len() && {
                let c = #[trigger] e.entity.children@[k];
                &&& c.kind == EntityKind::BaseSpecifier
                &&& c.ty is Some
                &&& c.ty->0.declaration is Some
                &&& opt_str_view(c.ty->0.declaration->0.usr) == u
            };
        assert(names_base(cs[k], u));
    }
}

} // verus!
