use cppdoc::entity::{Accessibility, Entity, EntityKind};
use cppdoc::index::{SymbolIndex, SymbolKind};
use cppdoc::model::{Comment, Namespace, NestedField, Output};
use cppdoc::parser::{Diagnostic, Parser};

fn named(kind: EntityKind, name: &str) -> Entity {
    let mut e = Entity::new(kind);
    e.name = Some(name.to_string());
    e
}

fn function(name: &str, result: &str, parameters: &[(&str, &str)]) -> Entity {
    let mut f = named(EntityKind::FunctionDecl, name);
    f.result_type = Some(result.to_string());
    for (n, t) in parameters {
        let mut p = named(EntityKind::ParmDecl, n);
        p.type_text = Some(t.to_string());
        f.children.push(p);
    }
    f
}

fn field(name: &str, type_: &str) -> Entity {
    let mut f = named(EntityKind::FieldDecl, name);
    f.type_text = Some(type_.to_string());
    f.accessibility = Some(Accessibility::Public);
    f
}

fn unit(children: Vec<Entity>) -> Entity {
    let mut u = Entity::new(EntityKind::Other);
    u.children = children;
    u
}

fn entries(index: &SymbolIndex) -> Vec<(String, SymbolKind)> {
    index.entries().into_iter().map(|e| (e.name, e.kind)).collect()
}

#[test]
fn new_entity_is_bare() {
    let e = Entity::new(EntityKind::EnumDecl);
    assert_eq!(e.kind, EntityKind::EnumDecl);
    assert_eq!(e.name, None);
    assert_eq!(e.type_text, None);
    assert!(e.in_main_file);
    assert!(e.children.is_empty());
    assert_eq!(e.name_or_empty(), "");
    assert!(!e.public());
    let f = field("x", "int");
    assert!(f.public());
    assert_eq!(f.name_or_empty(), "x");
}

#[test]
fn end_to_end_namespace_with_struct_and_overloads() {
    let mut s = named(EntityKind::StructDecl, "S");
    s.children.push(field("x", "int"));
    let mut n = named(EntityKind::Namespace, "n");
    n.children.push(s);
    n.children.push(function("f", "void", &[]));
    n.children.push(function("f", "void", &[("", "int")]));
    let mut out = Output::default();
    let mut parser = Parser::new();
    parser.parse(&unit(vec![n]), &mut out);
    assert!(parser.diagnostics.is_empty());
    assert_eq!(
        entries(&out.index),
        vec![
            ("n".to_string(), SymbolKind::Namespace),
            ("n::S".to_string(), SymbolKind::Record),
            ("n::f".to_string(), SymbolKind::Function),
        ]
    );
    assert_eq!(out.root.namespaces.len(), 1);
    let ns = &out.root.namespaces[0];
    assert_eq!(ns.name, "n");
    assert_eq!(ns.namespace, Some("".to_string()));
    assert_eq!(ns.records.len(), 1);
    assert_eq!(ns.records[0].name, "S");
    assert_eq!(ns.records[0].kind, "struct");
    assert_eq!(ns.records[0].namespace, Some("n".to_string()));
    assert_eq!(ns.records[0].fields.len(), 1);
    assert_eq!(ns.records[0].fields[0].name, "x");
    assert_eq!(ns.records[0].fields[0].type_, "int");
    assert_eq!(ns.functions.len(), 1);
    assert_eq!(ns.functions[0].name, "f");
    assert_eq!(ns.functions[0].namespace, Some("n".to_string()));
    assert!(ns.functions[0].parameters.is_empty());
    let overloads = ns.functions[0].overloads.as_ref().unwrap();
    assert_eq!(overloads.len(), 1);
    assert_eq!(overloads[0].name, "f");
    assert_eq!(overloads[0].parameters.len(), 1);
    assert_eq!(overloads[0].parameters[0].type_, "int");
    assert_eq!(overloads[0].overloads, None);
}

#[test]
fn two_functions_of_one_name_collapse() {
    let mut ns = Namespace::default();
    let mut index = SymbolIndex::new();
    let mut parser = Parser::new();
    parser.parse_node(&function("f", "int", &[]), &mut ns, &mut index, "");
    parser.parse_node(&function("f", "long", &[("a", "int")]), &mut ns, &mut index, "");
    assert_eq!(ns.functions.len(), 1);
    assert_eq!(ns.functions[0].return_type, "int");
    assert_eq!(ns.functions[0].overloads.as_ref().unwrap().len(), 1);
    assert_eq!(ns.functions[0].overloads.as_ref().unwrap()[0].return_type, "long");
    assert_eq!(entries(&index), vec![("f".to_string(), SymbolKind::Function)]);
    parser.parse_node(&function("f", "char", &[]), &mut ns, &mut index, "");
    assert_eq!(ns.functions.len(), 1);
    let overloads = ns.functions[0].overloads.as_ref().unwrap();
    assert_eq!(overloads.len(), 2);
    assert_eq!(overloads[1].return_type, "char");
    assert_eq!(index.entries().len(), 1);
}

#[test]
fn unnamed_struct_field_is_held_inline_and_not_registered() {
    let mut inner = named(EntityKind::StructDecl, "(unnamed struct at a.h:3:5)");
    inner.children.push(field("a", "int"));
    let mut member = field("pos", "struct (unnamed struct at a.h:3:5)");
    member.children.push(inner);
    let mut s = named(EntityKind::StructDecl, "S");
    let mut again = named(EntityKind::StructDecl, "(unnamed struct at a.h:3:5)");
    again.children.push(field("a", "int"));
    s.children.push(again);
    s.children.push(member);
    let mut ns = Namespace::default();
    let mut index = SymbolIndex::new();
    let mut parser = Parser::new();
    parser.parse_node(&s, &mut ns, &mut index, "");
    assert!(parser.diagnostics.is_empty());
    assert_eq!(entries(&index), vec![("S".to_string(), SymbolKind::Record)]);
    let record = &ns.records[0];
    assert_eq!(record.nested, None);
    assert_eq!(record.fields.len(), 1);
    assert_eq!(record.fields[0].name, "pos");
    assert_eq!(record.fields[0].type_, "struct");
    match record.fields[0].struct_.as_ref().unwrap() {
        NestedField::Record(r) => {
            assert_eq!(r.name, "(unnamed struct at a.h:3:5)");
            assert_eq!(r.fields.len(), 1);
            assert_eq!(r.fields[0].name, "a");
        }
        NestedField::Enum(_) => panic!("a record was expected"),
    }
}

#[test]
fn unnamed_union_and_enum_fields() {
    let mut u = named(EntityKind::UnionDecl, "(unnamed union at a.h:1:1)");
    u.children.push(field("i", "int"));
    let mut uf = field("u", "union (unnamed union at a.h:1:1)");
    uf.children.push(u);
    let mut e = named(EntityKind::EnumDecl, "(unnamed enum at a.h:2:1)");
    e.children.push(named(EntityKind::EnumConstantDecl, "A"));
    let mut ef = field("e", "enum (unnamed enum at a.h:2:1)");
    ef.children.push(e);
    let uf = Parser::parse_field(&uf).unwrap();
    assert_eq!(uf.type_, "union");
    match uf.struct_.unwrap() {
        NestedField::Record(r) => assert_eq!(r.kind, "union"),
        NestedField::Enum(_) => panic!("a record was expected"),
    }
    let ef = Parser::parse_field(&ef).unwrap();
    assert_eq!(ef.type_, "enum");
    match ef.struct_.unwrap() {
        NestedField::Enum(e) => assert_eq!(e.values[0].name, "A"),
        NestedField::Record(_) => panic!("an enum was expected"),
    }
    let missing = field("m", "struct (unnamed struct at a.h:9:9)");
    assert_eq!(Parser::parse_field(&missing), None);
    let mut untyped = field("m", "int");
    untyped.type_text = None;
    assert_eq!(Parser::parse_field(&untyped), None);
}

#[test]
fn record_members_by_kind_and_accessibility() {
    let mut c = named(EntityKind::ClassDecl, "C");
    let mut private_field = field("hidden", "int");
    private_field.accessibility = Some(Accessibility::Private);
    c.children.push(private_field);
    c.children.push(field("shown", "double"));
    let mut ctor = named(EntityKind::Constructor, "C");
    ctor.result_type = Some("void".to_string());
    c.children.push(ctor);
    let mut method = named(EntityKind::Method, "get");
    method.result_type = Some("int".to_string());
    method.accessibility = Some(Accessibility::Public);
    method.is_const_method = true;
    c.children.push(method);
    let mut private_method = named(EntityKind::Method, "secret");
    private_method.result_type = Some("int".to_string());
    private_method.accessibility = Some(Accessibility::Protected);
    c.children.push(private_method);
    let mut stat = named(EntityKind::Method, "make");
    stat.result_type = Some("C".to_string());
    stat.accessibility = Some(Accessibility::Public);
    stat.is_static_method = true;
    stat.is_virtual_method = true;
    c.children.push(stat);
    let r = Parser::parse_record(&c).unwrap();
    assert_eq!(r.kind, "class");
    assert_eq!(r.namespace, None);
    assert_eq!(r.fields.len(), 1);
    assert_eq!(r.fields[0].name, "shown");
    assert_eq!(r.ctor.len(), 1);
    assert_eq!(r.ctor[0].return_type, "");
    assert_eq!(r.ctor[0].namespace, None);
    assert_eq!(r.methods.len(), 2);
    assert_eq!(r.methods[0].name, "get");
    assert_eq!(r.methods[0].namespace, Some("C".to_string()));
    assert!(r.methods[0].props.const_);
    assert!(!r.methods[0].props.static_);
    assert!(r.methods[1].props.static_);
    assert!(r.methods[1].props.virtual_);
    assert_eq!(r.template, None);
}

#[test]
fn record_kinds() {
    for (kind, word) in [
        (EntityKind::StructDecl, "struct"),
        (EntityKind::ClassDecl, "class"),
        (EntityKind::ClassTemplate, "class"),
        (EntityKind::UnionDecl, "union"),
    ] {
        assert_eq!(Parser::parse_record(&named(kind, "R")).unwrap().kind, word);
    }
    assert_eq!(Parser::parse_record(&named(EntityKind::EnumDecl, "R")), None);
    assert_eq!(Parser::parse_record(&Entity::new(EntityKind::StructDecl)), None);
}

#[test]
fn named_nested_declarations_are_registered_under_their_owner() {
    let mut outer = named(EntityKind::StructDecl, "Outer");
    outer.children.push(named(EntityKind::StructDecl, "Inner"));
    let mut e = named(EntityKind::EnumDecl, "Color");
    e.children.push(named(EntityKind::EnumConstantDecl, "Red"));
    outer.children.push(e);
    outer.children.push(named(EntityKind::EnumDecl, "(unnamed enum at a.h:1:1)"));
    outer.children.push(named(EntityKind::UnionDecl, "(anonymous union at a.h:2:1)"));
    let mut ns = Namespace::new("n".to_string(), Some("".to_string()));
    let mut index = SymbolIndex::new();
    let mut parser = Parser::new();
    parser.parse_node(&outer, &mut ns, &mut index, "n");
    assert_eq!(
        entries(&index),
        vec![
            ("n::Outer::Inner".to_string(), SymbolKind::Record),
            ("n::Outer::Color".to_string(), SymbolKind::Enum),
            ("n::Outer".to_string(), SymbolKind::Record),
        ]
    );
    let nested = ns.records[0].nested.as_ref().unwrap();
    assert_eq!(nested.len(), 2);
    match &nested[0] {
        NestedField::Record(r) => {
            assert_eq!(r.name, "Inner");
            assert_eq!(r.namespace, Some("n::Outer".to_string()));
        }
        NestedField::Enum(_) => panic!("a record was expected"),
    }
    match &nested[1] {
        NestedField::Enum(e) => {
            assert_eq!(e.name, "Color");
            assert_eq!(e.namespace, Some("n::Outer".to_string()));
            assert_eq!(e.values.len(), 1);
        }
        NestedField::Record(_) => panic!("an enum was expected"),
    }
    let alone = Parser::parse_record(&outer).unwrap();
    match &alone.nested.as_ref().unwrap()[0] {
        NestedField::Record(r) => assert_eq!(r.namespace, Some("Outer".to_string())),
        NestedField::Enum(_) => panic!("a record was expected"),
    }
}

#[test]
fn record_met_again_merges_its_methods_only() {
    let mut first = named(EntityKind::ClassTemplate, "V");
    first.children.push(field("a", "int"));
    let mut m1 = named(EntityKind::Method, "one");
    m1.result_type = Some("void".to_string());
    m1.accessibility = Some(Accessibility::Public);
    first.children.push(m1);
    let mut second = named(EntityKind::ClassTemplate, "V");
    second.children.push(field("b", "int"));
    let mut m2 = named(EntityKind::Method, "two");
    m2.result_type = Some("void".to_string());
    m2.accessibility = Some(Accessibility::Public);
    second.children.push(m2);
    second.children.push(named(EntityKind::StructDecl, "Late"));
    let mut ns = Namespace::default();
    let mut index = SymbolIndex::new();
    let mut parser = Parser::new();
    parser.parse_node(&first, &mut ns, &mut index, "");
    parser.parse_node(&second, &mut ns, &mut index, "");
    assert_eq!(ns.records.len(), 1);
    assert_eq!(ns.records[0].fields.len(), 1);
    assert_eq!(ns.records[0].fields[0].name, "a");
    assert_eq!(ns.records[0].methods.len(), 2);
    assert_eq!(ns.records[0].methods[1].name, "two");
    assert_eq!(ns.records[0].nested, None);
    assert_eq!(entries(&index), vec![("V".to_string(), SymbolKind::Record)]);
}

#[test]
fn namespace_opened_again_is_merged() {
    let mut a1 = named(EntityKind::Namespace, "a");
    a1.children.push(named(EntityKind::EnumDecl, "E1"));
    let mut inner = named(EntityKind::Namespace, "b");
    inner.children.push(named(EntityKind::EnumDecl, "E2"));
    let mut a2 = named(EntityKind::Namespace, "a");
    a2.children.push(inner);
    a2.comment = Some(Comment {
        description: "late".to_string(),
        brief: "late".to_string(),
        impl_: None,
    });
    let mut out = Output::default();
    let mut parser = Parser::new();
    parser.parse(&unit(vec![a1]), &mut out);
    parser.parse(&unit(vec![a2]), &mut out);
    assert_eq!(out.root.namespaces.len(), 1);
    let a = &out.root.namespaces[0];
    assert_eq!(a.comment, None);
    assert_eq!(a.enums.len(), 1);
    assert_eq!(a.enums[0].namespace, Some("a".to_string()));
    assert_eq!(a.namespaces.len(), 1);
    assert_eq!(a.namespaces[0].name, "b");
    assert_eq!(a.namespaces[0].namespace, Some("a".to_string()));
    assert_eq!(a.namespaces[0].enums[0].namespace, Some("a::b".to_string()));
    assert_eq!(
        entries(&out.index),
        vec![
            ("a".to_string(), SymbolKind::Namespace),
            ("a::E1".to_string(), SymbolKind::Enum),
            ("a::b".to_string(), SymbolKind::Namespace),
            ("a::b::E2".to_string(), SymbolKind::Enum),
        ]
    );
}

#[test]
fn declarations_of_included_files_are_passed_over() {
    let mut included = named(EntityKind::EnumDecl, "FromHeader");
    included.in_main_file = false;
    let own = named(EntityKind::EnumDecl, "Own");
    let mut out = Output::default();
    let mut parser = Parser::new();
    parser.parse(&unit(vec![included, own]), &mut out);
    assert_eq!(out.root.enums.len(), 1);
    assert_eq!(out.root.enums[0].name, "Own");
    assert_eq!(out.root.enums[0].namespace, Some("".to_string()));
    assert_eq!(entries(&out.index), vec![("Own".to_string(), SymbolKind::Enum)]);
}

#[test]
fn deduction_guides_are_left_out() {
    let mut ns = Namespace::default();
    let mut index = SymbolIndex::new();
    let mut parser = Parser::new();
    let mut guide = function("<deduction guide for V>", "V<T>", &[]);
    guide.kind = EntityKind::FunctionTemplate;
    parser.parse_node(&guide, &mut ns, &mut index, "");
    parser.parse_node(&guide, &mut ns, &mut index, "");
    assert!(ns.functions.is_empty());
    assert!(index.entries().is_empty());
    assert!(parser.diagnostics.is_empty());
}

#[test]
fn function_details() {
    let mut f = function("operator\"\"_km", "double", &[("v", "long double"), ("", "int")]);
    f.comment = Some(Comment {
        description: "d".to_string(),
        brief: "b".to_string(),
        impl_: Some(vec!["i".to_string()]),
    });
    f.children.push(named(EntityKind::TemplateTypeParameter, "Ignored"));
    let built = Parser::parse_function(&f).unwrap();
    assert_eq!(built.name, "operator&quot&quot_km");
    assert_eq!(built.return_type, "double");
    assert_eq!(built.parameters.len(), 2);
    assert_eq!(built.parameters[0].name, "v");
    assert_eq!(built.parameters[0].type_, "long double");
    assert_eq!(built.parameters[1].name, "");
    assert_eq!(built.parameters[0].comment, None);
    assert_eq!(built.comment, f.comment);
    assert_eq!(built.template, None);
    assert_eq!(built.namespace, None);
    assert_eq!(built.overloads, None);
    let mut index = SymbolIndex::new();
    let mut ns = Namespace::default();
    Parser::new().parse_node(&f, &mut ns, &mut index, "units");
    assert_eq!(entries(&index), vec![("units::operator\"\"_km".to_string(), SymbolKind::Function)]);
}

#[test]
fn template_parameters_are_captured_in_order() {
    let mut t = function("make", "T", &[("n", "int")]);
    t.kind = EntityKind::FunctionTemplate;
    t.children.insert(0, named(EntityKind::TemplateTypeParameter, "T"));
    let mut n = named(EntityKind::NonTypeTemplateParameter, "N");
    n.type_text = Some("unsigned long".to_string());
    t.children.insert(1, n);
    t.children.push(named(EntityKind::TemplateTemplateParameter, "C"));
    t.children.push(Entity::new(EntityKind::TemplateTypeParameter));
    let template = Parser::parse_template(&t).unwrap();
    let shown: Vec<(String, String)> =
        template.parameters.iter().map(|p| (p.name.clone(), p.type_.clone())).collect();
    assert_eq!(
        shown,
        vec![
            ("T".to_string(), "typename".to_string()),
            ("N".to_string(), "unsigned long".to_string()),
            ("C".to_string(), "template".to_string()),
            ("".to_string(), "typename".to_string()),
        ]
    );
    let built = Parser::parse_function(&t).unwrap();
    assert_eq!(built.template, Some(template));
    assert_eq!(built.parameters.len(), 1);
    t.children.push(Entity::new(EntityKind::NonTypeTemplateParameter));
    assert_eq!(Parser::parse_template(&t), None);
    assert_eq!(Parser::parse_function(&t), None);
}

#[test]
fn enum_values_in_order() {
    let mut e = named(EntityKind::EnumDecl, "Color");
    e.children.push(named(EntityKind::EnumConstantDecl, "Red"));
    e.children.push(named(EntityKind::FieldDecl, "noise"));
    let mut green = named(EntityKind::EnumConstantDecl, "Green");
    green.comment =
        Some(Comment { description: "g".to_string(), brief: "".to_string(), impl_: None });
    e.children.push(green);
    let built = Parser::parse_enum(&e).unwrap();
    assert_eq!(built.name, "Color");
    assert_eq!(built.namespace, None);
    assert_eq!(built.values.len(), 2);
    assert_eq!(built.values[0].name, "Red");
    assert_eq!(built.values[0].comment, None);
    assert_eq!(built.values[1].name, "Green");
    assert_eq!(built.values[1].comment.as_ref().unwrap().description, "g");
    assert_eq!(Parser::parse_enum(&Entity::new(EntityKind::EnumDecl)), None);
}

#[test]
fn alias_type_text() {
    let mut plain = named(EntityKind::TypeAliasDecl, "Id");
    let mut r = Entity::new(EntityKind::TypeRef);
    r.underlying_type = Some("unsigned int".to_string());
    plain.children.push(r);
    assert_eq!(Parser::alias_type(&plain), Some("unsigned int".to_string()));

    let mut by_name = named(EntityKind::TypeAliasDecl, "P");
    let mut r = Entity::new(EntityKind::TypeRef);
    r.display_name = Some("struct struct Point".to_string());
    by_name.children.push(r);
    assert_eq!(Parser::alias_type(&by_name), Some("Point".to_string()));

    let mut templated = named(EntityKind::TypeAliasDecl, "M");
    let mut t = Entity::new(EntityKind::TemplateRef);
    t.display_name = Some("map".to_string());
    templated.children.push(t);
    for name in ["K", "V", "A"] {
        let mut r = Entity::new(EntityKind::TypeRef);
        r.underlying_type = Some(name.to_string());
        templated.children.push(r);
    }
    assert_eq!(Parser::alias_type(&templated), Some("map<K,V,A>".to_string()));

    let empty = named(EntityKind::TypeAliasDecl, "U");
    assert_eq!(Parser::alias_type(&empty), Some("unknown".to_string()));

    let mut broken = named(EntityKind::TypeAliasDecl, "B");
    broken.children.push(Entity::new(EntityKind::TypeRef));
    assert_eq!(Parser::alias_type(&broken), None);
    let mut broken = named(EntityKind::TypeAliasDecl, "B");
    broken.children.push(Entity::new(EntityKind::TemplateRef));
    assert_eq!(Parser::alias_type(&broken), None);

    let mut ns = Namespace::default();
    let mut index = SymbolIndex::new();
    Parser::new().parse_node(&templated, &mut ns, &mut index, "n");
    assert_eq!(ns.aliases.len(), 1);
    assert_eq!(ns.aliases[0].name, "M");
    assert_eq!(ns.aliases[0].type_, "map<K,V,A>");
    assert_eq!(ns.aliases[0].namespace, Some("n".to_string()));
    assert_eq!(entries(&index), vec![("n::M".to_string(), SymbolKind::Alias)]);
}

#[test]
fn incomplete_declarations_leave_a_diagnostic_and_nothing_else() {
    let mut good = named(EntityKind::Namespace, "n");
    good.children.push(Entity::new(EntityKind::EnumDecl));
    let mut no_result = named(EntityKind::FunctionDecl, "f");
    no_result.result_type = None;
    good.children.push(no_result);
    good.children.push(named(EntityKind::EnumDecl, "Kept"));
    let mut record = named(EntityKind::StructDecl, "R");
    let mut bad_field = field("x", "int");
    bad_field.type_text = None;
    record.children.push(bad_field);
    good.children.push(record);
    good.children.push(Entity::new(EntityKind::TypeAliasDecl));
    let anonymous = Entity::new(EntityKind::Namespace);
    let mut out = Output::default();
    let mut parser = Parser::new();
    parser.parse(&unit(vec![good, anonymous]), &mut out);
    assert_eq!(
        parser.diagnostics,
        vec![
            Diagnostic { kind: EntityKind::EnumDecl, name: None, namespace: "n".to_string() },
            Diagnostic {
                kind: EntityKind::FunctionDecl,
                name: Some("f".to_string()),
                namespace: "n".to_string()
            },
            Diagnostic {
                kind: EntityKind::StructDecl,
                name: Some("R".to_string()),
                namespace: "n".to_string()
            },
            Diagnostic { kind: EntityKind::TypeAliasDecl, name: None, namespace: "n".to_string() },
            Diagnostic { kind: EntityKind::Namespace, name: None, namespace: "".to_string() },
        ]
    );
    assert_eq!(
        entries(&out.index),
        vec![("n".to_string(), SymbolKind::Namespace), ("n::Kept".to_string(), SymbolKind::Enum)]
    );
    let n = &out.root.namespaces[0];
    assert!(n.functions.is_empty());
    assert!(n.records.is_empty());
    assert!(n.aliases.is_empty());
    assert_eq!(n.enums.len(), 1);
}

#[test]
fn other_kinds_change_nothing() {
    let mut ns = Namespace::default();
    let mut index = SymbolIndex::new();
    let mut parser = Parser::new();
    parser.parse_node(&named(EntityKind::FieldDecl, "x"), &mut ns, &mut index, "");
    parser.parse_node(&Entity::new(EntityKind::Other), &mut ns, &mut index, "");
    assert_eq!(ns, Namespace::default());
    assert!(index.entries().is_empty());
    assert!(parser.diagnostics.is_empty());
}

#[test]
fn qualified_names() {
    assert_eq!(Parser::get_name_for_namespace("T", "b", "a::b"), "a::b::T");
    assert_eq!(Parser::get_name_for_namespace("T", "b", ""), "b::T");
    assert_eq!(Parser::get_name_for_namespace("T", "", ""), "T");
    assert_eq!(Parser::scope("a", "T"), "a::T");
    assert_eq!(Parser::scope("", "T"), "T");
}

#[test]
fn first_child_of_a_kind() {
    let mut e = Entity::new(EntityKind::Other);
    e.children.push(named(EntityKind::EnumDecl, "a"));
    e.children.push(named(EntityKind::StructDecl, "b"));
    e.children.push(named(EntityKind::StructDecl, "c"));
    assert_eq!(Parser::first_child(&e, EntityKind::StructDecl), Some(1));
    assert_eq!(Parser::first_child(&e, EntityKind::EnumDecl), Some(0));
    assert_eq!(Parser::first_child(&e, EntityKind::UnionDecl), None);
}

#[test]
fn nested_declarations_are_registered_all_the_way_down() {
    let mut inner = named(EntityKind::StructDecl, "Inner");
    inner.children.push(named(EntityKind::ClassDecl, "Deep"));
    inner.children.push(named(EntityKind::EnumDecl, "Mode"));
    let mut outer = named(EntityKind::StructDecl, "Outer");
    outer.children.push(inner);
    let mut ns = Namespace::new("n".to_string(), Some("".to_string()));
    let mut index = SymbolIndex::new();
    Parser::new().parse_node(&outer, &mut ns, &mut index, "n");
    assert_eq!(
        entries(&index),
        vec![
            ("n::Outer::Inner::Deep".to_string(), SymbolKind::Record),
            ("n::Outer::Inner::Mode".to_string(), SymbolKind::Enum),
            ("n::Outer::Inner".to_string(), SymbolKind::Record),
            ("n::Outer".to_string(), SymbolKind::Record),
        ]
    );
    assert_eq!(ns.records[0].namespace, Some("n".to_string()));
    let inner = match &ns.records[0].nested.as_ref().unwrap()[0] {
        NestedField::Record(r) => r,
        NestedField::Enum(_) => panic!("a record was expected"),
    };
    assert_eq!(inner.namespace, Some("n::Outer".to_string()));
    let nested = inner.nested.as_ref().unwrap();
    match &nested[0] {
        NestedField::Record(r) => {
            assert_eq!(r.name, "Deep");
            assert_eq!(r.namespace, Some("n::Outer::Inner".to_string()));
        }
        NestedField::Enum(_) => panic!("a record was expected"),
    }
    match &nested[1] {
        NestedField::Enum(e) => assert_eq!(e.namespace, Some("n::Outer::Inner".to_string())),
        NestedField::Record(_) => panic!("an enum was expected"),
    }
}
