use cppdoc::index::{SymbolIndex, SymbolKind};
use cppdoc::render::{get_namespace_path, get_path_for_name, path_of_page};
use cppdoc::templates::{
    cleanup_type, get_link_for_type, link_name, plain, resolve, resolve_name, split_template,
    Target, TemplateParts,
};

fn index_of(entries: &[(&str, SymbolKind)]) -> SymbolIndex {
    let mut index = SymbolIndex::new();
    for (name, kind) in entries {
        index.insert(name.to_string(), *kind);
    }
    index
}

fn target(kind: SymbolKind, path: &str) -> Option<Target> {
    Some(Target { kind, path: path.to_string() })
}

#[test]
fn namespace_paths() {
    assert_eq!(get_namespace_path("a::b::c"), "a/b/c");
    assert_eq!(get_namespace_path("a"), "a");
    assert_eq!(get_namespace_path(""), "");
}

#[test]
fn page_paths_by_kind() {
    let index = index_of(&[
        ("a::b", SymbolKind::Namespace),
        ("top", SymbolKind::Namespace),
        ("Foo", SymbolKind::Record),
        ("a::b::Foo", SymbolKind::Record),
        ("a::E", SymbolKind::Enum),
        ("a::f", SymbolKind::Function),
        ("a::b::U", SymbolKind::Alias),
        ("a::operator/", SymbolKind::Function),
        ("operator/=", SymbolKind::Function),
        ("::a::odd", SymbolKind::Enum),
    ]);
    assert_eq!(get_path_for_name("a::b", &index), Some("a/b/index".to_string()));
    assert_eq!(get_path_for_name("top", &index), Some("top/index".to_string()));
    assert_eq!(get_path_for_name("Foo", &index), Some("record.Foo".to_string()));
    assert_eq!(get_path_for_name("a::b::Foo", &index), Some("a/b/record.Foo".to_string()));
    assert_eq!(get_path_for_name("a::E", &index), Some("a/enum.E".to_string()));
    assert_eq!(get_path_for_name("a::f", &index), Some("a/function.f".to_string()));
    assert_eq!(get_path_for_name("a::b::U", &index), Some("a/b/alias.U".to_string()));
    assert_eq!(
        get_path_for_name("a::operator/", &index),
        Some("a/function.operatorslash".to_string())
    );
    assert_eq!(get_path_for_name("operator/=", &index), Some("function.operatorslash=".to_string()));
    assert_eq!(get_path_for_name("::a::odd", &index), Some("a/enum.odd".to_string()));
    assert_eq!(get_path_for_name("missing", &index), None);
    assert_eq!(get_path_for_name("a", &index), None);
    assert_eq!(path_of_page("x::y", SymbolKind::Alias), "x/alias.y");
    assert_eq!(path_of_page("x::y", SymbolKind::Namespace), "x/y/index");
}

#[test]
fn absolute_name_agrees_with_the_scoped_one() {
    let index = index_of(&[("a::b::c", SymbolKind::Function)]);
    let expected = target(SymbolKind::Function, "a/b/function.c");
    assert_eq!(resolve("::a::b::c", "somewhere::else", &index), expected);
    assert_eq!(resolve("::a::b::c", "", &index), expected);
    assert_eq!(resolve("c", "a::b", &index), expected);
}

#[test]
fn absolute_names_are_looked_up_at_global_scope_only() {
    let index = index_of(&[("a::T", SymbolKind::Record), ("T", SymbolKind::Enum)]);
    assert_eq!(resolve("::T", "a", &index), target(SymbolKind::Enum, "enum.T"));
    assert_eq!(resolve("::::T", "a", &index), target(SymbolKind::Enum, "enum.T"));
    let index = index_of(&[("a::T", SymbolKind::Record)]);
    assert_eq!(resolve("::T", "a", &index), None);
    assert_eq!(resolve("T", "a", &index), target(SymbolKind::Record, "a/record.T"));
}

#[test]
fn ancestor_namespaces_are_tried_from_the_inside_out() {
    let index = index_of(&[("a::T", SymbolKind::Record)]);
    assert_eq!(resolve("T", "a::b::c", &index), target(SymbolKind::Record, "a/record.T"));
    assert_eq!(resolve_name("T", "a::b::c", &index), Some("a::T".to_string()));
    let index = index_of(&[
        ("a::T", SymbolKind::Record),
        ("a::b::T", SymbolKind::Enum),
    ]);
    assert_eq!(resolve_name("T", "a::b::c", &index), Some("a::b::T".to_string()));
    assert_eq!(resolve_name("T", "a::b", &index), Some("a::b::T".to_string()));
    assert_eq!(resolve_name("T", "a", &index), Some("a::T".to_string()));
    assert_eq!(resolve_name("T", "z", &index), None);
    assert_eq!(resolve_name("T", "", &index), None);
}

#[test]
fn lookup_order() {
    let index = index_of(&[
        ("T", SymbolKind::Alias),
        ("a::T", SymbolKind::Record),
        ("a::b::c::T", SymbolKind::Enum),
    ]);
    assert_eq!(resolve_name("T", "a::b::c", &index), Some("a::b::c::T".to_string()));
    assert_eq!(resolve_name("T", "a::b", &index), Some("T".to_string()));
    assert_eq!(resolve_name("b::c::T", "a", &index), Some("a::b::c::T".to_string()));
    assert_eq!(resolve_name("U", "a::b", &index), None);
}

#[test]
fn qualifiers_are_stripped_before_the_lookup() {
    let index = index_of(&[("n::Foo", SymbolKind::Record)]);
    let expected = target(SymbolKind::Record, "n/record.Foo");
    assert_eq!(resolve("const Foo &", "n", &index), expected);
    assert_eq!(resolve("Foo **", "n", &index), expected);
    assert_eq!(resolve("const const Foo*&", "n", &index), expected);
    assert_eq!(resolve(" Foo ", "n", &index), expected);
    assert_eq!(resolve("constFoo", "n", &index), None);
    assert_eq!(resolve("Foo const", "n", &index), None);
}

#[test]
fn resolution_is_repeatable() {
    let index = index_of(&[("a::T", SymbolKind::Record)]);
    let again = index_of(&[("a::T", SymbolKind::Record)]);
    for (expr, ns) in [("T", "a::b"), ("::a::T", ""), ("V<T>", "a"), ("nothing", "a")] {
        assert_eq!(resolve(expr, ns, &index), resolve(expr, ns, &index));
        assert_eq!(resolve(expr, ns, &index), resolve(expr, ns, &again));
        assert_eq!(
            get_link_for_type(expr, ns, "base", &index),
            get_link_for_type(expr, ns, "base", &again)
        );
    }
}

#[test]
fn template_arguments_are_split_at_the_top_level_only() {
    assert_eq!(
        split_template("Foo<Bar<Baz>,Qux>"),
        Some(TemplateParts {
            outer: "Foo".to_string(),
            arguments: vec!["Bar<Baz>".to_string(), "Qux".to_string()],
            suffix: "".to_string(),
        })
    );
    assert_eq!(
        split_template("std::map< K , std::pair<A, B> > const &"),
        Some(TemplateParts {
            outer: "std::map".to_string(),
            arguments: vec!["K".to_string(), "std::pair<A, B>".to_string()],
            suffix: "const &".to_string(),
        })
    );
    assert_eq!(split_template("Foo"), None);
    assert_eq!(split_template(""), None);
    assert_eq!(
        split_template("A<>"),
        Some(TemplateParts {
            outer: "A".to_string(),
            arguments: vec!["".to_string()],
            suffix: "".to_string(),
        })
    );
}

#[test]
fn template_list_closes_at_the_matching_bracket() {
    assert_eq!(
        split_template("A<B>C<D>"),
        Some(TemplateParts {
            outer: "A".to_string(),
            arguments: vec!["B".to_string()],
            suffix: "C<D>".to_string(),
        })
    );
    assert_eq!(
        split_template("a>b<c>"),
        Some(TemplateParts {
            outer: "a>b".to_string(),
            arguments: vec!["c".to_string()],
            suffix: "".to_string(),
        })
    );
}

#[test]
fn template_list_that_never_closes() {
    assert_eq!(
        split_template("Foo<Bar, Baz"),
        Some(TemplateParts {
            outer: "Foo".to_string(),
            arguments: vec!["Bar".to_string()],
            suffix: "Foo<Bar, Baz".to_string(),
        })
    );
    assert_eq!(
        split_template("Foo<Bar<Baz> x"),
        Some(TemplateParts {
            outer: "Foo".to_string(),
            arguments: vec![],
            suffix: "x".to_string(),
        })
    );
}

#[test]
fn plain_types() {
    assert_eq!(cleanup_type("Foo &"), "Foo</span>&");
    assert_eq!(cleanup_type("int *"), "int</span>*");
    assert_eq!(cleanup_type("int * &"), "int</span>*</span>&");
    assert_eq!(cleanup_type("int"), "int");
    assert_eq!(plain("int"), "<span class=\"kt\">int</span>");
    assert_eq!(plain("T &"), "<span class=\"kt\">T</span>&</span>");
}

#[test]
fn link_for_a_plain_name() {
    let index = index_of(&[("Foo", SymbolKind::Record), ("n", SymbolKind::Namespace)]);
    assert_eq!(
        get_link_for_type("const Foo &", "", "http://x", &index),
        Some(
            "<a href=\"http://x/record.Foo.html\"><span class=\"kt\">const Foo</span></a>&"
                .to_string()
        )
    );
    assert_eq!(
        get_link_for_type("Foo", "n", "", &index),
        Some("<a href=\"/record.Foo.html\"><span class=\"kt\">Foo</span></a>".to_string())
    );
    assert_eq!(
        get_link_for_type("Foo *", "n", "", &index),
        Some("<a href=\"/record.Foo.html\"><span class=\"kt\">Foo</span></a>*".to_string())
    );
    assert_eq!(
        get_link_for_type("n", "", "/docs", &index),
        Some("<a href=\"/docs/n/index.html\"><span class=\"kt\">n</span></a>".to_string())
    );
    assert_eq!(get_link_for_type("int", "n", "", &index), None);
    assert_eq!(link_name("int", "n", "", &index), None);
    assert_eq!(
        link_name("::Foo", "n", "", &index),
        Some("<a href=\"/record.Foo.html\"><span class=\"kt\">::Foo</span></a>".to_string())
    );
}

#[test]
fn link_for_a_template_instantiation() {
    let index = index_of(&[
        ("Foo", SymbolKind::Record),
        ("Bar", SymbolKind::Record),
        ("Baz", SymbolKind::Enum),
    ]);
    let foo = "<a href=\"/record.Foo.html\"><span class=\"kt\">Foo</span></a>";
    let bar = "<a href=\"/record.Bar.html\"><span class=\"kt\">Bar</span></a>";
    let baz = "<a href=\"/enum.Baz.html\"><span class=\"kt\">Baz</span></a>";
    let qux = "<span class=\"kt\">Qux</span>";
    assert_eq!(
        get_link_for_type("Foo<Bar<Baz>,Qux>", "ns", "", &index),
        Some(format!("{foo}&lt;{bar}&lt;{baz}&gt;, {qux}&gt;"))
    );
    assert_eq!(
        get_link_for_type("Unknown<Baz &> *", "ns", "", &index),
        Some(format!("<span class=\"kt\">Unknown</span>&lt;{baz}&&gt;*"))
    );
    assert_eq!(
        get_link_for_type("V<int>", "ns", "", &index),
        Some("<span class=\"kt\">V</span>&lt;<span class=\"kt\">int</span>&gt;".to_string())
    );
}
