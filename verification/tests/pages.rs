use flash::autolink::fmt_autolinks;
use flash::format::{
    fmt_base_classes, fmt_class_method, fmt_classlike_decl, fmt_derived_class, fmt_field,
    fmt_fun_signature, fmt_header_link, fmt_param, fmt_section, fmt_template_args, member_fun_link,
};
use flash::html::Html;
use flash::model::{
    Accessibility, Ancestor, CType, CppItem, DocComment, Entity, EntityKind, Entry, Namespace,
    TypeDecl, TypeKind,
};
use flash::output::{get_all_classes, output_classlike, output_entity, output_function};
use flash::types::fmt_type;

/// Writes a fragment out as HTML text, for comparing in tests.
fn render(h: &Html) -> String {
    match h {
        Html::Element(e) => {
            let mut s = format!("<{}", e.tag);
            if !e.classes.is_empty() {
                s += &format!(" class=\"{}\"", e.classes.join(" "));
            }
            for (n, v) in &e.attrs {
                s += &format!(" {}=\"{}\"", n, v);
            }
            s += ">";
            for c in &e.children {
                s += &render(c);
            }
            s += &format!("</{}>", e.tag);
            s
        }
        Html::Text(t) => t.content.clone(),
        Html::List(l) => l.items.iter().map(render).collect(),
    }
}

fn entity(kind: EntityKind, name: Option<&str>) -> Entity {
    Entity {
        kind,
        name: name.map(|s| s.to_string()),
        display_name: name.map(|s| s.to_string()),
        usr: None,
        comment: None,
        ty: None,
        result_type: None,
        arguments: None,
        is_static_method: false,
        is_virtual_method: false,
        is_const_method: false,
        is_pure_virtual_method: false,
        accessibility: None,
        is_virtual_base: false,
        source_string: None,
        docs_url: None,
        github_url: None,
        include_path: None,
        exists_online: None,
        children: Vec::new(),
        public_static_methods: Vec::new(),
        public_methods: Vec::new(),
        protected_methods: Vec::new(),
    }
}

fn builtin(kind: TypeKind, name: &str) -> CType {
    CType {
        kind,
        is_pod: false,
        is_const_qualified: false,
        display_name: name.to_string(),
        declaration: None,
        template_args: None,
        pointee: None,
    }
}

fn class_type(scopes: &[(EntityKind, &str)], url: Option<&str>, usr: Option<&str>) -> CType {
    CType {
        kind: TypeKind::Other,
        is_pod: false,
        is_const_qualified: false,
        display_name: scopes.iter().map(|s| s.1).collect::<Vec<_>>().join("::"),
        declaration: Some(TypeDecl {
            kind: scopes.last().unwrap().0,
            docs_url: url.map(|s| s.to_string()),
            usr: usr.map(|s| s.to_string()),
            ancestors: scopes
                .iter()
                .map(|(k, n)| Ancestor { kind: *k, name: Some(n.to_string()) })
                .collect(),
        }),
        template_args: None,
        pointee: None,
    }
}

fn entry(name: &str, category: &str, e: Entity) -> Entry {
    Entry { name: name.to_string(), category: category.to_string(), entity: e }
}

fn comment(member: &str, page: &str, examples: &[&str]) -> DocComment {
    DocComment {
        member_html: Html::text(member),
        page_html: Html::text(page),
        examples: examples.iter().map(|e| Html::text(e)).collect(),
    }
}

#[test]
fn section_counts_its_items() {
    let h = fmt_section("Fields", vec![Html::text("a"), Html::text("b"), Html::text("c")]);
    assert_eq!(
        render(&h),
        "<details class=\"section\" open=\"\"><summary><span><i data-feather=\"chevron-right\"></i>\
         Fields<span class=\"badge\">3</span></span></summary><div>abc</div></details>"
    );
}

#[test]
fn empty_section_counts_zero() {
    let h = fmt_section("Examples", Vec::new());
    assert!(render(&h).contains("<span class=\"badge\">0</span>"));
    assert!(render(&h).ends_with("<div></div></details>"));
}

#[test]
fn builtin_type_is_a_keyword_without_link() {
    let h = fmt_type(&builtin(TypeKind::Int, "int"));
    assert_eq!(render(&h), "<a class=\"entity type disabled\"><span class=\"keyword name\">int</span></a>");
    let h = fmt_type(&builtin(TypeKind::LongLong, "long long int"));
    assert_eq!(render(&h), "<a class=\"entity type disabled\"><span class=\"keyword name\">long long</span></a>");
}

#[test]
fn unknown_type_shows_its_display_name_as_template_param() {
    let h = fmt_type(&builtin(TypeKind::Unexposed, "T"));
    assert_eq!(
        render(&h),
        "<a class=\"entity type disabled\"><span class=\"template-param name\">T</span></a>"
    );
}

#[test]
fn pointer_to_documented_class_links_to_its_page() {
    let pointee = class_type(&[(EntityKind::Namespace, "geode"), (EntityKind::ClassDecl, "Foo")], Some("/classes/Foo"), None);
    let mut t = builtin(TypeKind::Pointer, "geode::Foo *");
    t.pointee = Some(Box::new(pointee));
    assert_eq!(
        render(&fmt_type(&t)),
        "<a class=\"entity type\" href=\"/classes/Foo\" onclick=\"return navigate('/classes/Foo')\">\
         <span class=\"namespace name\">geode</span><span class=\"scope\">::</span>\
         <span class=\"class name\">Foo</span>*</a>"
    );
}

#[test]
fn const_reference_and_pod() {
    let mut pointee = builtin(TypeKind::Int, "int");
    pointee.is_const_qualified = true;
    let mut t = builtin(TypeKind::LValueReference, "const int &");
    t.is_pod = true;
    t.pointee = Some(Box::new(pointee));
    assert_eq!(
        render(&fmt_type(&t)),
        "<a class=\"entity type keyword disabled\"><span class=\"keyword name\">int</span>\
         <span class=\"keyword space-before\">const</span>&amp;</a>"
            .replace("&amp;", "&")
    );
}

#[test]
fn template_arguments_are_listed_in_angle_brackets() {
    let mut t = class_type(&[(EntityKind::Namespace, "std"), (EntityKind::ClassTemplate, "vector")], None, None);
    t.template_args = Some(vec![Some(builtin(TypeKind::Int, "int")), None]);
    assert_eq!(
        render(&fmt_type(&t)),
        "<a class=\"entity type disabled\"><span class=\"namespace name\">std</span>\
         <span class=\"scope\">::</span><span class=\"class name\">vector</span>\
         &lt;<a class=\"entity type disabled\"><span class=\"keyword name\">int</span></a>\
         <span class=\"comma space-after\">,</span>_unk&gt;</a>"
            .replace("&lt;", "<")
            .replace("&gt;", ">")
    );
}

#[test]
fn alias_hides_template_arguments() {
    let mut t = class_type(&[(EntityKind::TypeAliasDecl, "Vec")], None, None);
    t.template_args = Some(vec![Some(builtin(TypeKind::Int, "int"))]);
    assert_eq!(
        render(&fmt_type(&t)),
        "<a class=\"entity type disabled\"><span class=\"alias name\">Vec</span></a>"
    );
}

#[test]
fn param_shows_type_then_name() {
    let mut p = entity(EntityKind::Other, Some("count"));
    p.ty = Some(builtin(TypeKind::Int, "int"));
    assert_eq!(
        render(&fmt_param(&p)),
        "<div class=\"entity var\"><a class=\"entity type disabled\"><span class=\"keyword name\">int</span></a>\
         <span class=\"name space-before\">count</span></div>"
    );
    let unnamed = entity(EntityKind::Other, None);
    assert_eq!(render(&fmt_param(&unnamed)), "<div class=\"entity var\"></div>");
}

#[test]
fn template_args_of_a_declaration() {
    let plain = entity(EntityKind::ClassDecl, Some("Foo"));
    assert!(fmt_template_args(&plain).is_none());

    let mut c = entity(EntityKind::ClassTemplate, Some("Foo"));
    let mut t1 = entity(EntityKind::TemplateTypeParameter, Some("T"));
    t1.source_string = Some("class T = int".to_string());
    let t2 = entity(EntityKind::TemplateTypeParameter, Some("U"));
    let t3 = entity(EntityKind::TemplateTypeParameter, None);
    c.children = vec![t1, entity(EntityKind::FieldDecl, Some("x")), t2, t3];
    let h = fmt_template_args(&c).unwrap();
    assert_eq!(
        render(&h),
        "<span class=\"template-params\"><span class=\"keyword space-after\">template</span>\
         <class T = int<span class=\"comma space-after\">,</span>typename U\
         <span class=\"comma space-after\">,</span>_></span>"
    );
}

#[test]
fn field_with_and_without_comment() {
    let mut f = entity(EntityKind::FieldDecl, Some("x"));
    f.ty = Some(builtin(TypeKind::Int, "int"));
    let expected_decl = "<summary class=\"entity var\"><div class=\"entity var\"><a class=\"entity type disabled\">\
                         <span class=\"keyword name\">int</span></a><span class=\"name space-before\">x</span></div>;</summary>";
    assert_eq!(
        render(&fmt_field(&f)),
        format!(
            "<details class=\"entity-desc\">{}<div><span class=\"no-desc\">No description provided</span></div></details>",
            expected_decl
        )
    );
    f.comment = Some(comment("brief", "full", &[]));
    assert_eq!(
        render(&fmt_field(&f)),
        format!("<details class=\"entity-desc\">{}<div>brief</div></details>", expected_decl)
    );
}

#[test]
fn function_signature_with_all_marks() {
    let mut f = entity(EntityKind::FunctionDecl, Some("run"));
    f.is_static_method = true;
    f.is_virtual_method = true;
    f.is_const_method = true;
    f.is_pure_virtual_method = true;
    f.result_type = Some(builtin(TypeKind::Void, "void"));
    let mut a = entity(EntityKind::Other, Some("a"));
    a.ty = Some(builtin(TypeKind::Bool, "bool"));
    let b = entity(EntityKind::Other, Some("b"));
    f.arguments = Some(vec![a, b]);
    assert_eq!(
        render(&fmt_fun_signature(&f)),
        "<summary class=\"entity fun\"><span class=\"function-signature\">\
         <span class=\"keyword space-after\">static</span><span class=\"keyword space-after\">virtual</span>\
         <a class=\"entity type disabled\"><span class=\"keyword name\">void</span></a>\
         <span class=\"name space-before\">run</span><span class=\"params\">(\
         <div class=\"entity var\"><a class=\"entity type disabled\"><span class=\"keyword name\">bool</span></a>\
         <span class=\"name space-before\">a</span></div><span class=\"comma space-after\">,</span>\
         <div class=\"entity var\"><span class=\"name space-before\">b</span></div>)</span>\
         <span class=\"keyword space-before\">const</span>\
         <span class=\"space-before\">=</span><span class=\"space-before literal\">0</span></span></summary>"
    );
}

#[test]
fn anonymous_function_without_arguments() {
    let f = entity(EntityKind::FunctionDecl, None);
    assert_eq!(
        render(&fmt_fun_signature(&f)),
        "<summary class=\"entity fun\"><span class=\"function-signature\">\
         <span class=\"name space-before\">_anon</span><span class=\"params\">()</span></span></summary>"
    );
}

#[test]
fn class_method_is_anchored_by_name() {
    let mut f = entity(EntityKind::FunctionDecl, Some("get"));
    f.comment = Some(comment("Gets it", "Gets it, fully", &[]));
    let h = fmt_class_method(&f);
    let s = render(&h);
    assert!(s.starts_with("<details class=\"entity-desc\" id=\"get\"><summary class=\"entity fun\">"));
    assert!(s.ends_with("<div>Gets it</div></details>"));
    assert_eq!(member_fun_link(&f), Some("get".to_string()));
    assert_eq!(member_fun_link(&entity(EntityKind::FunctionDecl, None)), None);
}

#[test]
fn classlike_declaration() {
    let c = entity(EntityKind::StructDecl, None);
    assert_eq!(
        render(&fmt_classlike_decl(&c, "struct")),
        "<details class=\"entity-desc\"><summary class=\"entity struct\">\
         <span class=\"keyword space-after\">struct</span><span class=\"name\">_anon</span>;</summary>\
         <div><span class=\"no-desc\">No description provided</span></div></details>"
    );
}

#[test]
fn header_link_online_offline_and_unknown() {
    let mut e = entity(EntityKind::ClassDecl, Some("Foo"));
    assert_eq!(render(&fmt_header_link(&e)), "<p>&lt;Not available online&gt;</p>");
    e.github_url = Some("https://github.com/x/Foo.hpp".to_string());
    assert_eq!(render(&fmt_header_link(&e)), "<p>&lt;Not available online&gt;</p>");
    e.include_path = Some("x/Foo.hpp".to_string());
    let code = "<code class=\"header-link\"><span class=\"keyword\">#include </span>\
                <span class=\"url\">&lt;x/Foo.hpp&gt;</span></code>";
    assert_eq!(
        render(&fmt_header_link(&e)),
        format!("<a class=\"header-link\" href=\"https://github.com/x/Foo.hpp\">{}</a>", code)
    );
    e.exists_online = Some(false);
    assert_eq!(render(&fmt_header_link(&e)), format!("<a class=\"header-link disabled\">{}</a>", code));
    e.exists_online = Some(true);
    assert!(render(&fmt_header_link(&e)).contains("href="));
}

#[test]
fn base_classes_are_listed_with_access() {
    let mut c = entity(EntityKind::ClassDecl, Some("Derived"));
    let mut b1 = entity(EntityKind::BaseSpecifier, None);
    b1.accessibility = Some(Accessibility::Public);
    b1.ty = Some(class_type(&[(EntityKind::ClassDecl, "A")], None, None));
    let mut b2 = entity(EntityKind::BaseSpecifier, None);
    b2.accessibility = Some(Accessibility::Protected);
    b2.is_virtual_base = true;
    c.children = vec![b1, entity(EntityKind::FieldDecl, Some("x")), b2];
    let e = entry("Derived", "class", c);
    assert_eq!(
        render(&fmt_base_classes(&e, "class")),
        "<div class=\"entity class\"><span class=\"class-decl\"><span class=\"keyword space-after\">class</span>\
         <span class=\"name\">Derived</span><span class=\"space-before space-after\">:</span>\
         <span class=\"keyword space-after\">public</span><a class=\"entity type disabled\">\
         <span class=\"class name\">A</span></a><span class=\"space-after\">,</span>\
         <span class=\"keyword space-after\">protected</span><span class=\"keyword space-after\">virtual</span>\
         <span class=\"space-before\">{ ... }</span></span></div>"
    );
}

#[test]
fn class_without_bases_has_no_colon() {
    let e = entry("Plain", "struct", entity(EntityKind::StructDecl, Some("Plain")));
    assert_eq!(
        render(&fmt_base_classes(&e, "struct")),
        "<div class=\"entity class\"><span class=\"class-decl\"><span class=\"keyword space-after\">struct</span>\
         <span class=\"name\">Plain</span><span class=\"space-before\">{ ... }</span></span></div>"
    );
}

#[test]
fn derived_class_links_to_its_page() {
    let mut d = entity(EntityKind::ClassDecl, Some("Sub"));
    d.docs_url = Some("/classes/Sub".to_string());
    assert_eq!(
        render(&fmt_derived_class(&d)),
        "<div class=\"entity class\"><a href=\"/classes/Sub\" onclick=\"return navigate('/classes/Sub')\">\
         <span class=\"keyword space-after\">class</span><span class=\"name\">Sub</span>\
         <span class=\"space-before\">{ ... }</span></a></div>"
    );
}

#[test]
fn entity_page_fragments() {
    let mut e = entity(EntityKind::ClassDecl, Some("Foo"));
    e.comment = Some(comment("brief", "The full story", &["ex1", "ex2"]));
    let out = output_entity(&entry("geode::Foo", "class", e));
    let keys: Vec<&str> = out.iter().map(|p| p.0).collect();
    assert_eq!(keys, vec!["name", "description", "header_link", "examples"]);
    assert_eq!(render(&out[0].1), "geode::Foo");
    assert_eq!(render(&out[1].1), "The full story");
    assert_eq!(render(&out[2].1), "<p>&lt;Not available online&gt;</p>");
    assert!(render(&out[3].1).contains(">Examples<span class=\"badge\">2</span>"));
    assert!(render(&out[3].1).ends_with("<div>ex1ex2</div></details>"));
}

#[test]
fn entity_without_comment_has_no_description() {
    let out = output_entity(&entry("f", "function", entity(EntityKind::FunctionDecl, Some("f"))));
    assert_eq!(render(&out[1].1), "<span class=\"no-desc\">No description provided</span>");
    assert!(render(&out[3].1).contains("<span class=\"badge\">0</span>"));
}

#[test]
fn function_page_adds_signature() {
    let out = output_function(&entry("f", "function", entity(EntityKind::FunctionDecl, Some("f"))));
    let keys: Vec<&str> = out.iter().map(|p| p.0).collect();
    assert_eq!(keys, vec!["name", "description", "header_link", "examples", "function_signature"]);
    assert!(render(&out[4].1).starts_with("<summary class=\"entity fun\">"));
}

fn class_deriving(name: &str, base_usr: Option<&str>) -> Entry {
    let mut c = entity(EntityKind::ClassDecl, Some(name));
    c.docs_url = Some(format!("/classes/{}", name));
    if let Some(u) = base_usr {
        let mut b = entity(EntityKind::BaseSpecifier, None);
        b.ty = Some(class_type(&[(EntityKind::ClassDecl, "Base")], None, Some(u)));
        c.children.push(b);
    }
    entry(name, "class", c)
}

fn sample_tree() -> Namespace {
    let inner = Namespace {
        entry: entry("inner", "namespace", entity(EntityKind::Namespace, Some("inner"))),
        entries: vec![
            CppItem::Entry(class_deriving("Zeta", Some("c:@S@Base"))),
            CppItem::Entry(entry("helper", "function", entity(EntityKind::FunctionDecl, Some("helper")))),
        ],
    };
    Namespace {
        entry: entry("", "namespace", entity(EntityKind::Namespace, None)),
        entries: vec![
            CppItem::Entry(class_deriving("Beta", Some("c:@S@Base"))),
            CppItem::Namespace(inner),
            CppItem::Entry(class_deriving("Alpha", Some("c:@S@Base"))),
            CppItem::Entry(class_deriving("Other", Some("c:@S@Other"))),
            CppItem::Entry(entry("Point", "struct", entity(EntityKind::StructDecl, Some("Point")))),
        ],
    }
}

#[test]
fn all_classes_include_nested_namespaces() {
    let root = sample_tree();
    let names: Vec<&str> = get_all_classes(&root).iter().map(|e| e.name.as_str()).collect();
    assert_eq!(names, vec!["Beta", "Zeta", "Alpha", "Other", "Point"]);
}

#[test]
fn classlike_page_lists_sorted_derived_classes() {
    let root = sample_tree();
    let mut base = entity(EntityKind::ClassDecl, Some("Base"));
    base.usr = Some("c:@S@Base".to_string());
    let mut f_pub = entity(EntityKind::FieldDecl, Some("a"));
    f_pub.accessibility = Some(Accessibility::Public);
    let mut f_prot = entity(EntityKind::FieldDecl, Some("b"));
    f_prot.accessibility = Some(Accessibility::Protected);
    let mut f_priv = entity(EntityKind::FieldDecl, Some("c"));
    f_priv.accessibility = Some(Accessibility::Private);
    base.children = vec![f_pub, f_prot, f_priv];
    base.public_methods = vec![entity(EntityKind::FunctionDecl, Some("m1")), entity(EntityKind::FunctionDecl, Some("m2"))];
    let out = output_classlike(&entry("Base", "class", base), &root);
    let keys: Vec<&str> = out.iter().map(|p| p.0).collect();
    assert_eq!(
        keys,
        vec![
            "name",
            "description",
            "header_link",
            "examples",
            "base_classes",
            "public_static_functions",
            "public_member_functions",
            "protected_member_functions",
            "public_members",
            "protected_members",
            "derived_classes",
        ]
    );
    assert!(render(&out[5].1).contains(">Public static methods<span class=\"badge\">0</span>"));
    assert!(render(&out[6].1).contains(">Public member functions<span class=\"badge\">2</span>"));
    assert!(render(&out[8].1).contains(">Fields<span class=\"badge\">1</span>"));
    assert!(render(&out[8].1).contains("<span class=\"name space-before\">a</span>"));
    assert!(render(&out[9].1).contains(">Protected fields<span class=\"badge\">1</span>"));
    assert!(render(&out[9].1).contains("<span class=\"name space-before\">b</span>"));
    let derived = render(&out[10].1);
    assert!(derived.contains(">Derived classes<span class=\"badge\">3</span>"));
    let a = derived.find("Alpha").unwrap();
    let b = derived.find("Beta").unwrap();
    let z = derived.find("Zeta").unwrap();
    assert!(a < b && b < z);
    assert!(!derived.contains("Other"));
}

#[test]
fn derived_classes_with_equal_names_keep_tree_order() {
    let mut first = class_deriving("Same", Some("u"));
    first.entity.docs_url = Some("/first".to_string());
    let mut second = class_deriving("Same", Some("u"));
    second.entity.docs_url = Some("/second".to_string());
    let root = Namespace {
        entry: entry("", "namespace", entity(EntityKind::Namespace, None)),
        entries: vec![CppItem::Entry(first), CppItem::Entry(class_deriving("Aa", Some("u"))), CppItem::Entry(second)],
    };
    let mut base = entity(EntityKind::ClassDecl, Some("B"));
    base.usr = Some("u".to_string());
    let out = output_classlike(&entry("B", "class", base), &root);
    let derived = render(&out[10].1);
    let aa = derived.find("/classes/Aa").unwrap();
    let f = derived.find("/first").unwrap();
    let s = derived.find("/second").unwrap();
    assert!(aa < f && f < s);
}

fn linked_tree() -> Namespace {
    let mut foo = entity(EntityKind::ClassDecl, Some("Foo"));
    foo.docs_url = Some("/classes/Foo".to_string());
    let mut get = entity(EntityKind::FunctionDecl, Some("get"));
    get.docs_url = Some("/functions/get".to_string());
    let mut ns = entity(EntityKind::Namespace, Some("geode"));
    ns.docs_url = Some("/geode".to_string());
    let mut inner_foo = entity(EntityKind::ClassDecl, Some("Foo"));
    inner_foo.docs_url = Some("/inner/Foo".to_string());
    let bar = entity(EntityKind::ClassDecl, Some("Bar"));
    Namespace {
        entry: entry("", "namespace", entity(EntityKind::Namespace, None)),
        entries: vec![
            CppItem::Entry(entry("Foo", "class", foo)),
            CppItem::Entry(entry("get", "function", get)),
            CppItem::Entry(entry("Bar", "class", bar)),
            CppItem::Namespace(Namespace {
                entry: entry("geode", "namespace", ns),
                entries: vec![CppItem::Entry(entry("Foo", "class", inner_foo))],
            }),
        ],
    }
}

#[test]
fn autolinks_names_of_documented_entities() {
    let root = linked_tree();
    assert_eq!(
        fmt_autolinks(&root, "See Foo, then call get."),
        "See [Foo](/inner/Foo), then call get."
    );
}

#[test]
fn autolinks_skip_lowercase_and_undocumented() {
    let root = linked_tree();
    assert_eq!(fmt_autolinks(&root, "get Bar geode"), "get Bar geode");
    assert_eq!(fmt_autolinks(&root, "Foobar Foo_ xFoo"), "Foobar Foo_ xFoo");
}

#[test]
fn autolinks_every_occurrence() {
    let mut foo = entity(EntityKind::ClassDecl, Some("Foo"));
    foo.docs_url = Some("u".to_string());
    let root = Namespace {
        entry: entry("", "namespace", entity(EntityKind::Namespace, None)),
        entries: vec![CppItem::Entry(entry("Foo", "class", foo))],
    };
    assert_eq!(fmt_autolinks(&root, "Foo(Foo) Foo"), "[Foo](u)([Foo](u)) [Foo](u)");
    assert_eq!(fmt_autolinks(&root, ""), "");
}

#[test]
fn autolinks_without_pages_leave_text_unchanged() {
    let root = Namespace {
        entry: entry("", "namespace", entity(EntityKind::Namespace, None)),
        entries: vec![CppItem::Entry(entry("Foo", "class", entity(EntityKind::ClassDecl, Some("Foo"))))],
    };
    let text = "Foo and Bar: 1, 2 ... \u{e9}t\u{e9} Foo!";
    assert_eq!(fmt_autolinks(&root, text), text);
}

#[test]
fn duplicate_keeps_the_tree() {
    let h = fmt_section("T", vec![Html::span(&["a", "b"], "x"), Html::p("y")]);
    assert_eq!(render(&h.duplicate()), render(&h));
}
