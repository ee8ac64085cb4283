use cppdoc::index::{SymbolIndex, SymbolKind};
use cppdoc::listing::{
    namespace_of, output_alias_listing, output_enum_listing, output_record_listing,
    output_struct, output_template, show_type,
};
use cppdoc::model::{
    Alias, Enum, EnumValue, Field, NestedField, Record, Template, TemplateParameter,
};

fn field(name: &str, type_: &str) -> Field {
    Field { name: name.to_string(), type_: type_.to_string(), comment: None, struct_: None }
}

fn record(name: &str, kind: &str, fields: Vec<Field>) -> Record {
    Record {
        name: name.to_string(),
        fields,
        comment: None,
        kind: kind.to_string(),
        namespace: Some("n".to_string()),
        ctor: Vec::new(),
        methods: Vec::new(),
        template: None,
        nested: None,
    }
}

fn values(names: &[&str]) -> Vec<EnumValue> {
    names.iter().map(|n| EnumValue { name: n.to_string(), comment: None }).collect()
}

fn index() -> SymbolIndex {
    let mut index = SymbolIndex::new();
    index.insert("n::T".to_string(), SymbolKind::Record);
    index
}

const T_LINK: &str = "<a href=\"/n/record.T.html\"><span class=\"kt\">T</span></a>";
const OPEN: &str = "<div class=\"code highlight\"><pre><code>";
const CLOSE: &str = "</code></pre></div>";
const OMITTED: &str = "<span class=\"c\">  /* Full declaration omitted */ </span>";

#[test]
fn types_are_linked_or_plain() {
    assert_eq!(show_type("T", "n", "", &index()), T_LINK);
    assert_eq!(show_type("int", "n", "", &index()), "<span class=\"kt\">int</span>");
    assert_eq!(namespace_of(&None), "");
    assert_eq!(namespace_of(&Some("a::b".to_string())), "a::b");
}

#[test]
fn template_prefix() {
    let t = Template {
        parameters: vec![
            TemplateParameter { name: "A".to_string(), type_: "typename".to_string() },
            TemplateParameter { name: "N".to_string(), type_: "T".to_string() },
        ],
    };
    assert_eq!(
        output_template(&t, "n", "", &index()),
        format!(
            "<span class=\"k\">template</span> &lt;<span class=\"kt\">typename</span> A, {T_LINK} N&gt; "
        )
    );
    assert_eq!(
        output_template(&Template { parameters: Vec::new() }, "n", "", &index()),
        "<span class=\"k\">template</span> &lt;&gt; "
    );
}

#[test]
fn record_listing_without_fields() {
    assert_eq!(
        output_record_listing(&record("E", "class", Vec::new()), "", &index()),
        format!("{OPEN}<span class=\"k\">class</span> E {{{OMITTED}}}{CLOSE}")
    );
}

#[test]
fn record_listing_with_fields() {
    let r = record("S", "struct", vec![field("x", "int"), field("t", "T *")]);
    assert_eq!(
        output_record_listing(&r, "", &index()),
        format!(
            "{OPEN}<span class=\"k\">struct</span> S {{\n  <span class=\"kt\">int</span> x;\n  {T_LINK}* t;\n{OMITTED}\n}}{CLOSE}"
        )
    );
}

#[test]
fn record_listing_with_template_and_inline_members() {
    let mut inner = record("(unnamed struct at a.h:1:1)", "struct", vec![field("a", "T")]);
    inner.namespace = None;
    let mut s = field("pos", "struct");
    s.struct_ = Some(NestedField::Record(inner));
    let mut e = field("mode", "enum");
    e.struct_ = Some(NestedField::Enum(Enum {
        name: "(unnamed enum at a.h:2:1)".to_string(),
        comment: None,
        namespace: None,
        values: values(&["On", "Off"]),
    }));
    let mut r = record("V", "class", vec![s, e]);
    r.template = Some(Template {
        parameters: vec![TemplateParameter {
            name: "A".to_string(),
            type_: "typename".to_string(),
        }],
    });
    assert_eq!(
        output_record_listing(&r, "", &index()),
        format!(
            "{OPEN}<span class=\"k\">template</span> &lt;<span class=\"kt\">typename</span> A&gt; <span class=\"k\">class</span> V {{\n  <span class=\"k\">struct</span> {{\n    {T_LINK} a;\n  }} pos;\n  <span class=\"k\">enum</span> {{\n    On;\n    Off;\n  }} mode;\n{OMITTED}\n}}{CLOSE}"
        )
    );
}

#[test]
fn enum_listing() {
    let e = Enum {
        name: "Color".to_string(),
        comment: None,
        namespace: None,
        values: values(&["Red", "Green"]),
    };
    assert_eq!(
        output_enum_listing(&e),
        format!("{OPEN}<span class=\"k\">enum</span> Color {{\n  Red,\n  Green\n}};{CLOSE}")
    );
    let empty =
        Enum { name: "None".to_string(), comment: None, namespace: None, values: Vec::new() };
    assert_eq!(
        output_enum_listing(&empty),
        format!("{OPEN}<span class=\"k\">enum</span> None {{}};{CLOSE}")
    );
}

#[test]
fn alias_listing() {
    let a = Alias {
        namespace: Some("n".to_string()),
        name: "P".to_string(),
        type_: "T *".to_string(),
        comment: None,
    };
    assert_eq!(
        output_alias_listing(&a, "", &index()),
        format!("{OPEN}<span class=\"k\">using</span> P = {T_LINK}*{CLOSE}")
    );
    let unknown =
        Alias { namespace: None, name: "U".to_string(), type_: "unknown".to_string(), comment: None };
    assert_eq!(
        output_alias_listing(&unknown, "", &index()),
        format!("{OPEN}<span class=\"k\">using</span> U = <span class=\"kt\">unknown</span>{CLOSE}")
    );
}

#[test]
fn inline_listings() {
    let s = NestedField::Record(record(
        "(unnamed struct at a.h:1:1)",
        "struct",
        vec![field("a", "T"), field("b", "int")],
    ));
    assert_eq!(
        output_struct(&s, "n", "struct", "", &index()),
        format!(
            "<span class=\"k\">struct</span> {{\n  {T_LINK} a;\n  <span class=\"kt\">int</span> b;\n}}"
        )
    );
    let e = NestedField::Enum(Enum {
        name: "(unnamed enum at a.h:2:1)".to_string(),
        comment: None,
        namespace: None,
        values: values(&["A", "B"]),
    });
    assert_eq!(
        output_struct(&e, "n", "enum", "", &index()),
        "<span class=\"k\">enum</span> {\n  A;\n  B;\n}"
    );
    let no_fields = NestedField::Record(record("x", "struct", Vec::new()));
    assert_eq!(
        output_struct(&no_fields, "n", "struct", "", &index()),
        "<span class=\"k\">struct</span> {\n}"
    );
    assert_eq!(output_struct(&s, "n", "union", "", &index()), "");
    assert_eq!(output_struct(&s, "n", "enum", "", &index()), "");
    assert_eq!(output_struct(&e, "n", "struct", "", &index()), "");
}
