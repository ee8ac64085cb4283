//! The listings that head the pages of the site: the declaration of a
//! record, an enum, an alias or a template, written as highlighted text in
//! which every type that resolves is a link.

use crate::index::{SymbolIndex, SymbolKind};
use crate::model::{
    enum_values_view, fields_view, lemma_record_view, Alias, AliasView, Enum, EnumValueView,
    EnumView, Field, FieldView, NestedField, NestedFieldView, Record, RecordView, Template,
    TemplateParameterView, TemplateView,
};
use crate::templates::{get_link_for_type, link_or_plain, plain, type_link};
use crate::text::owned;
use vstd::prelude::*;
use vstd::string::StringExecFns;

verus! {

/// The text of a type as a listing shows it: its link where it has one, its
/// plain text otherwise.
pub open spec fn type_shown(
    index: Map<Seq<char>, SymbolKind>,
    t: Seq<char>,
    namespace: Seq<char>,
    base: Seq<char>,
) -> Seq<char> {
    link_or_plain(type_link(index, t, namespace, base), t)
}

/// The first `k` parameters of a template as a listing shows them: each
/// with its type and its name, and `, ` behind each but the last of all.
pub open spec fn parameters_shown(
    index: Map<Seq<char>, SymbolKind>,
    parameters: Seq<TemplateParameterView>,
    namespace: Seq<char>,
    base: Seq<char>,
    k: nat,
) -> Seq<char>
    decreases k,
{
    if k == 0 || k > parameters.len() {
        Seq::<char>::empty()
    } else {
        parameters_shown(index, parameters, namespace, base, (k - 1) as nat) + type_shown(
            index,
            parameters[k - 1].type_,
            namespace,
            base,
        ) + " "@ + parameters[k - 1].name + if k < parameters.len() {
            ", "@
        } else {
            Seq::<char>::empty()
        }
    }
}

/// What stands before the declaration of a template: the word `template`
/// and the parameters between `&lt;` and `&gt;`.
pub open spec fn template_prefix(
    index: Map<Seq<char>, SymbolKind>,
    template: TemplateView,
    namespace: Seq<char>,
    base: Seq<char>,
) -> Seq<char> {
    "<span class=\"k\">template</span> &lt;"@ + parameters_shown(
        index,
        template.parameters,
        namespace,
        base,
        template.parameters.len(),
    ) + "&gt; "@
}

/// The first `k` fields of an inline struct, one to a line: each indented
/// by `indent`, with its type, its name and a `;`, and with a line break
/// behind each but, where `last_bare` holds, the last of all.
pub open spec fn fields_shown(
    index: Map<Seq<char>, SymbolKind>,
    fields: Seq<FieldView>,
    namespace: Seq<char>,
    base: Seq<char>,
    indent: Seq<char>,
    last_bare: bool,
    k: nat,
) -> Seq<char>
    decreases k,
{
    if k == 0 || k > fields.len() {
        Seq::<char>::empty()
    } else {
        fields_shown(index, fields, namespace, base, indent, last_bare, (k - 1) as nat) + indent
            + type_shown(index, fields[k - 1].type_, namespace, base) + " "@ + fields[k - 1].name
            + ";"@ + if last_bare && k == fields.len() {
            Seq::<char>::empty()
        } else {
            "\n"@
        }
    }
}

/// The first `k` values of an enum, one to a line: each indented by
/// `indent`, and with `end` and a line break behind each but, where
/// `last_bare` holds, the last of all.
pub open spec fn values_shown(
    values: Seq<EnumValueView>,
    indent: Seq<char>,
    end: Seq<char>,
    last_bare: bool,
    k: nat,
) -> Seq<char>
    decreases k,
{
    if k == 0 || k > values.len() {
        Seq::<char>::empty()
    } else {
        values_shown(values, indent, end, last_bare, (k - 1) as nat) + indent + values[k
            - 1].name + if last_bare && k == values.len() {
            Seq::<char>::empty()
        } else {
            end + "\n"@
        }
    }
}

/// The listing of the struct or enum that a field holds inline, as it is
/// shown beside the field: the word of its kind, and between braces its
/// fields or its values, one to a line. `kind` is the text of the field's
/// type; a kind other than `struct` and `enum` has no listing.
pub open spec fn inline_listing(
    index: Map<Seq<char>, SymbolKind>,
    nested: NestedFieldView,
    kind: Seq<char>,
    namespace: Seq<char>,
    base: Seq<char>,
) -> Seq<char> {
    if kind == "struct"@ {
        match nested {
            NestedFieldView::Record(r) => "<span class=\"k\">struct</span> {\n"@ + fields_shown(
                index,
                r.fields,
                namespace,
                base,
                "  "@,
                true,
                r.fields.len(),
            ) + if r.fields.len() != 0 {
                "\n"@
            } else {
                Seq::<char>::empty()
            } + "}"@,
            NestedFieldView::Enum(_) => Seq::<char>::empty(),
        }
    } else if kind == "enum"@ {
        match nested {
            NestedFieldView::Enum(e) => "<span class=\"k\">enum</span> {\n"@ + values_shown(
                e.values,
                "  "@,
                ";"@,
                true,
                e.values.len(),
            ) + if e.values.len() != 0 {
                ";\n"@
            } else {
                Seq::<char>::empty()
            } + "}"@,
            NestedFieldView::Record(_) => Seq::<char>::empty(),
        }
    } else {
        Seq::<char>::empty()
    }
}

/// One field of a record as the record's listing shows it. A field that
/// holds a struct or an enum inline is shown with the fields or values of
/// that declaration between braces; any other field with its type and its
/// name on one line.
pub open spec fn member_shown(
    index: Map<Seq<char>, SymbolKind>,
    field: FieldView,
    namespace: Seq<char>,
    base: Seq<char>,
) -> Seq<char> {
    match field.struct_ {
        Some(NestedFieldView::Record(r)) => "  <span class=\"k\">struct</span> {\n"@
            + fields_shown(index, r.fields, namespace, base, "    "@, false, r.fields.len())
            + "  } "@ + field.name + ";\n"@,
        Some(NestedFieldView::Enum(e)) => "  <span class=\"k\">enum</span> {\n"@ + values_shown(
            e.values,
            "    "@,
            ";"@,
            false,
            e.values.len(),
        ) + "  } "@ + field.name + ";\n"@,
        None => "  "@ + type_shown(index, field.type_, namespace, base) + " "@ + field.name
            + ";\n"@,
    }
}

/// The first `k` fields of a record as the record's listing shows them.
pub open spec fn members_shown(
    index: Map<Seq<char>, SymbolKind>,
    fields: Seq<FieldView>,
    namespace: Seq<char>,
    base: Seq<char>,
    k: nat,
) -> Seq<char>
    decreases k,
{
    if k == 0 || k > fields.len() {
        Seq::<char>::empty()
    } else {
        members_shown(index, fields, namespace, base, (k - 1) as nat) + member_shown(
            index,
            fields[k - 1],
            namespace,
            base,
        )
    }
}

/// A listing as it stands on a page: inside a block of highlighted code.
pub open spec fn code_block(listing: Seq<char>) -> Seq<char> {
    "<div class=\"code highlight\"><pre><code>"@ + listing + "</code></pre></div>"@
}

/// The namespace that the types of a declaration are resolved in: the one
/// it belongs to, or the global namespace where it belongs to none.
pub open spec fn namespace_or_global(namespace: Option<Seq<char>>) -> Seq<char> {
    match namespace {
        Some(n) => n,
        None => Seq::<char>::empty(),
    }
}

/// The listing at the head of the page of a record: its template prefix, if
/// it is a template, its kind and its name, its fields between braces, and
/// a remark that the rest of the declaration is left out.
pub open spec fn record_listing(
    index: Map<Seq<char>, SymbolKind>,
    record: RecordView,
    base: Seq<char>,
) -> Seq<char> {
    let namespace = namespace_or_global(record.namespace);
    let gap = if record.fields.len() != 0 {
        "\n"@
    } else {
        Seq::<char>::empty()
    };
    code_block(
        match record.template {
            Some(t) => template_prefix(index, t, namespace, base),
            None => Seq::<char>::empty(),
        } + "<span class=\"k\">"@ + record.kind + "</span> "@ + record.name + " {"@ + gap
            + members_shown(index, record.fields, namespace, base, record.fields.len())
            + "<span class=\"c\">  /* Full declaration omitted */ </span>"@ + gap + "}"@,
    )
}

/// The listing at the head of the page of an enum: its name, and between
/// braces its values, one to a line with a comma between each two.
pub open spec fn enum_listing(e: EnumView) -> Seq<char> {
    let gap = if e.values.len() != 0 {
        "\n"@
    } else {
        Seq::<char>::empty()
    };
    code_block(
        "<span class=\"k\">enum</span> "@ + e.name + " {"@ + gap + values_shown(
            e.values,
            "  "@,
            ","@,
            true,
            e.values.len(),
        ) + gap + "};"@,
    )
}

/// The listing at the head of the page of an alias: its name and the type
/// it stands for.
pub open spec fn alias_listing(
    index: Map<Seq<char>, SymbolKind>,
    alias: AliasView,
    base: Seq<char>,
) -> Seq<char> {
    code_block(
        "<span class=\"k\">using</span> "@ + alias.name + " = "@ + type_shown(
            index,
            alias.type_,
            namespace_or_global(alias.namespace),
            base,
        ),
    )
}

/// The text of a type as a listing shows it.
pub fn show_type(type_: &str, namespace: &str, base_url: &str, index: &SymbolIndex) -> (r: String)
    ensures
        r@ == type_shown(index@, type_@, namespace@, base_url@),
{
    match get_link_for_type(type_, namespace, base_url, index) {
        Some(l) => l,
        None => plain(type_),
    }
}

/// What stands before the declaration of a template.
pub fn output_template(
    template: &Template,
    namespace: &str,
    base_url: &str,
    index: &SymbolIndex,
) -> (r: String)
    ensures
        r@ == template_prefix(index@, template@, namespace@, base_url@),
{
    let mut shown = String::new();
    let count = template.parameters.len();
    let mut k: usize = 0;
    while k < count
        invariant
            k <= count == template.parameters@.len(),
            shown@ == parameters_shown(
                index@,
                template@.parameters,
                namespace@,
                base_url@,
                k as nat,
            ),
        decreases count - k,
    {
        let p = &template.parameters[k];
        assert(template@.parameters[k as int] == p@);
        shown.append(show_type(p.type_.as_str(), namespace, base_url, index).as_str());
        shown.append(" ");
        shown.append(p.name.as_str());
        if k < count - 1 {
            shown.append(", ");
        }
        k = k + 1;
    }
    let mut out = owned("<span class=\"k\">template</span> &lt;");
    out.append(shown.as_str());
    out.append("&gt; ");
    out
}

/// The fields of an inline struct, one to a line.
fn show_fields(
    fields: &Vec<Field>,
    namespace: &str,
    base_url: &str,
    index: &SymbolIndex,
    indent: &str,
    last_bare: bool,
) -> (r: String)
    ensures
        r@ == fields_shown(
            index@,
            fields_view(fields@),
            namespace@,
            base_url@,
            indent@,
            last_bare,
            fields@.len(),
        ),
{
    let mut out = String::new();
    let count = fields.len();
    let mut k: usize = 0;
    while k < count
        invariant
            k <= count == fields@.len(),
            out@ == fields_shown(
                index@,
                fields_view(fields@),
                namespace@,
                base_url@,
                indent@,
                last_bare,
                k as nat,
            ),
        decreases count - k,
    {
        let f = &fields[k];
        assert(fields_view(fields@)[k as int] == f@);
        out.append(indent);
        out.append(show_type(f.type_.as_str(), namespace, base_url, index).as_str());
        out.append(" ");
        out.append(f.name.as_str());
        out.append(";");
        if !(last_bare && k == count - 1) {
            out.append("\n");
        }
        k = k + 1;
    }
    out
}

/// The values of an enum, one to a line.
fn show_values(values: &Vec<crate::model::EnumValue>, indent: &str, end: &str, last_bare: bool) -> (r:
    String)
    ensures
        r@ == values_shown(enum_values_view(values@), indent@, end@, last_bare, values@.len()),
{
    let mut out = String::new();
    let count = values.len();
    let mut k: usize = 0;
    while k < count
        invariant
            k <= count == values@.len(),
            out@ == values_shown(enum_values_view(values@), indent@, end@, last_bare, k as nat),
        decreases count - k,
    {
        let v = &values[k];
        assert(enum_values_view(values@)[k as int] == v@);
        out.append(indent);
        out.append(v.name.as_str());
        if !(last_bare && k == count - 1) {
            out.append(end);
            out.append("\n");
        }
        k = k + 1;
    }
    out
}

/// The listing of the struct or enum that a field holds inline, as it is
/// shown beside the field. `type_` is the text of the field's type.
pub fn output_struct(
    nested: &NestedField,
    namespace: &str,
    type_: &str,
    base_url: &str,
    index: &SymbolIndex,
) -> (r: String)
    ensures
        r@ == inline_listing(index@, nested@, type_@, namespace@, base_url@),
{
    if crate::text::same_text(type_, "struct") {
        match nested {
            NestedField::Record(r) => {
                proof {
                    lemma_record_view(*r);
                }
                let mut out = owned("<span class=\"k\">struct</span> {\n");
                out.append(
                    show_fields(&r.fields, namespace, base_url, index, "  ", true).as_str(),
                );
                if r.fields.len() != 0 {
                    out.append("\n");
                }
                out.append("}");
                out
            },
            NestedField::Enum(_) => String::new(),
        }
    } else if crate::text::same_text(type_, "enum") {
        match nested {
            NestedField::Enum(e) => {
                let mut out = owned("<span class=\"k\">enum</span> {\n");
                out.append(show_values(&e.values, "  ", ";", true).as_str());
                if e.values.len() != 0 {
                    out.append(";\n");
                }
                out.append("}");
                out
            },
            NestedField::Record(_) => String::new(),
        }
    } else {
        String::new()
    }
}

/// A listing inside a block of highlighted code.
fn in_code_block(listing: &str) -> (r: String)
    ensures
        r@ == code_block(listing@),
{
    let mut out = owned("<div class=\"code highlight\"><pre><code>");
    out.append(listing);
    out.append("</code></pre></div>");
    out
}

/// The namespace that the types of a declaration are resolved in.
pub fn namespace_of(namespace: &Option<String>) -> (r: String)
    ensures
        r@ == namespace_or_global(crate::model::text_of(*namespace)),
{
    match namespace {
        Some(n) => n.clone(),
        None => String::new(),
    }
}

/// The listing at the head of the page of a record.
pub fn output_record_listing(record: &Record, base_url: &str, index: &SymbolIndex) -> (r: String)
    ensures
        r@ == record_listing(index@, record@, base_url@),
{
    proof {
        lemma_record_view(*record);
    }
    let namespace = namespace_of(&record.namespace);
    let mut listing = match &record.template {
        Some(t) => output_template(t, namespace.as_str(), base_url, index),
        None => String::new(),
    };
    listing.append("<span class=\"k\">");
    listing.append(record.kind.as_str());
    listing.append("</span> ");
    listing.append(record.name.as_str());
    listing.append(" {");
    if record.fields.len() != 0 {
        listing.append("\n");
    }
    let mut members = String::new();
    let count = record.fields.len();
    let mut k: usize = 0;
    while k < count
        invariant
            k <= count == record.fields@.len(),
            members@ == members_shown(
                index@,
                fields_view(record.fields@),
                namespace@,
                base_url@,
                k as nat,
            ),
        decreases count - k,
    {
        let field = &record.fields[k];
        assert(fields_view(record.fields@)[k as int] == field@);
        match &field.struct_ {
            Some(NestedField::Record(inner)) => {
                proof {
                    lemma_record_view(*inner);
                }
                members.append("  <span class=\"k\">struct</span> {\n");
                members.append(
                    show_fields(
                        &inner.fields,
                        namespace.as_str(),
                        base_url,
                        index,
                        "    ",
                        false,
                    ).as_str(),
                );
                members.append("  } ");
                members.append(field.name.as_str());
                members.append(";\n");
            },
            Some(NestedField::Enum(inner)) => {
                members.append("  <span class=\"k\">enum</span> {\n");
                members.append(show_values(&inner.values, "    ", ";", false).as_str());
                members.append("  } ");
                members.append(field.name.as_str());
                members.append(";\n");
            },
            None => {
                members.append("  ");
                members.append(
                    show_type(field.type_.as_str(), namespace.as_str(), base_url, index).as_str(),
                );
                members.append(" ");
                members.append(field.name.as_str());
                members.append(";\n");
            },
        }
        k = k + 1;
    }
    listing.append(members.as_str());
    listing.append("<span class=\"c\">  /* Full declaration omitted */ </span>");
    if record.fields.len() != 0 {
        listing.append("\n");
    }
    listing.append("}");
    in_code_block(listing.as_str())
}

/// The listing at the head of the page of an enum.
pub fn output_enum_listing(e: &Enum) -> (r: String)
    ensures
        r@ == enum_listing(e@),
{
    let mut listing = owned("<span class=\"k\">enum</span> ");
    listing.append(e.name.as_str());
    listing.append(" {");
    if e.values.len() != 0 {
        listing.append("\n");
    }
    listing.append(show_values(&e.values, "  ", ",", true).as_str());
    if e.values.len() != 0 {
        listing.append("\n");
    }
    listing.append("};");
    in_code_block(listing.as_str())
}

/// The listing at the head of the page of an alias.
pub fn output_alias_listing(alias: &Alias, base_url: &str, index: &SymbolIndex) -> (r: String)
    ensures
        r@ == alias_listing(index@, alias@, base_url@),
{
    let namespace = namespace_of(&alias.namespace);
    let mut listing = owned("<span class=\"k\">using</span> ");
    listing.append(alias.name.as_str());
    listing.append(" = ");
    listing.append(
        show_type(alias.type_.as_str(), namespace.as_str(), base_url, index).as_str(),
    );
    in_code_block(listing.as_str())
}

} // verus!
