//! The columns of an entity's table in the data catalogue: the system
//! columns first, then the entity's attributes with their catalogue types.
use vstd::prelude::*;
use vstd::string::StringExecFns;
use crate::codice::{AttrType, AttributeDescriptor};
use crate::text::{chars_of, string_from_chars};

verus! {

/// The catalogue type of a schema type: decimals are `double`, epochs and
/// numbers `bigint`, booleans `boolean`, everything else `string`.
pub open spec fn glue_type(t: AttrType) -> Seq<char> {
    match t {
        AttrType::Decimal => "double"@,
        AttrType::Epoch | AttrType::Number => "bigint"@,
        AttrType::Boolean => "boolean"@,
        _ => "string"@,
    }
}

/// The catalogue type of a schema type.
pub fn codice_to_glue_type(attr_type: &AttrType) -> (r: &'static str)
    ensures
        r@ == glue_type(*attr_type),
{
    match attr_type {
        AttrType::Decimal => "double",
        AttrType::Epoch | AttrType::Number => "bigint",
        AttrType::Boolean => "boolean",
        _ => "string",
    }
}

/// An attribute name as a column name: hyphens become underscores.
pub open spec fn column_name(name: Seq<char>) -> Seq<char> {
    Seq::new(name.len(), |i: int| if name[i] == '-' { '_' } else { name[i] })
}

/// The names of the system columns.
pub open spec fn is_system_column(name: Seq<char>) -> bool {
    name == "id"@ || name == "_tenant"@ || name == "created_at"@
}

/// The attribute columns of a table: one per attribute, in order, except
/// those whose column name is a system column.
pub open spec fn attribute_columns(attrs: Seq<AttributeDescriptor>) -> Seq<(Seq<char>, Seq<char>)>
    decreases attrs.len(),
{
    if attrs.len() == 0 {
        Seq::empty()
    } else {
        let earlier = attribute_columns(attrs.drop_last());
        let a = attrs.last();
        if is_system_column(column_name(a.name@)) {
            earlier
        } else {
            earlier.push((column_name(a.name@), glue_type(a.attr_type)))
        }
    }
}

/// The columns of an entity's table: `id` and `_tenant` as strings,
/// `created_at` as `bigint`, then its attribute columns.
pub open spec fn entity_columns(attrs: Option<Seq<AttributeDescriptor>>) -> Seq<(Seq<char>, Seq<char>)> {
    seq![("id"@, "string"@), ("_tenant"@, "string"@), ("created_at"@, "bigint"@)] + match attrs {
        Some(a) => attribute_columns(a),
        None => Seq::empty(),
    }
}

/// A column: its name and its catalogue type.
#[derive(Debug)]
pub struct GlueColumn {
    pub name: String,
    pub glue_type: String,
}

/// A column as text.
pub open spec fn column_view(c: GlueColumn) -> (Seq<char>, Seq<char>) {
    (c.name@, c.glue_type@)
}

fn to_column_name(name: &str) -> (r: String)
    ensures
        r@ == column_name(name@),
{
    let c = chars_of(name);
    let mut v: Vec<char> = Vec::new();
    let mut i: usize = 0;
    while i < c.len()
        invariant
            i <= c@.len(),
            c@ == name@,
            v@ == column_name(name@).take(i as int),
        decreases c@.len() - i,
    {
        v.push(if c[i] == '-' { '_' } else { c[i] });
        i = i + 1;
        assert(v@ =~= column_name(name@).take(i as int));
    }
    assert(v@ =~= column_name(name@));
    string_from_chars(&v)
}

fn push_column(cols: &mut Vec<GlueColumn>, name: &str, t: &str)
    ensures
        final(cols)@.map_values(|c: GlueColumn| column_view(c)) == old(cols)@.map_values(
            |c: GlueColumn| column_view(c),
        ).push((name@, t@)),
{
    let ghost before = cols@;
    cols.push(GlueColumn { name: name.to_owned(), glue_type: t.to_owned() });
    assert(cols@.map_values(|c: GlueColumn| column_view(c)) =~= before.map_values(
        |c: GlueColumn| column_view(c),
    ).push((name@, t@)));
}

/// The columns of an entity's table, given its attributes when the schema
/// knows the entity.
pub fn build_entity_columns(attrs: Option<&Vec<AttributeDescriptor>>) -> (r: Vec<GlueColumn>)
    ensures
        r@.map_values(|c: GlueColumn| column_view(c)) == entity_columns(
            match attrs {
                Some(a) => Some(a@),
                None => None,
            },
        ),
{
    let mut cols: Vec<GlueColumn> = Vec::new();
    push_column(&mut cols, "id", "string");
    push_column(&mut cols, "_tenant", "string");
    push_column(&mut cols, "created_at", "bigint");
    let ghost system = cols@.map_values(|c: GlueColumn| column_view(c));
    assert(system =~= seq![("id"@, "string"@), ("_tenant"@, "string"@), ("created_at"@, "bigint"@)]);
    if let Some(a) = attrs {
        let mut i: usize = 0;
        assert(attribute_columns(a@.take(0)) =~= Seq::<(Seq<char>, Seq<char>)>::empty());
        while i < a.len()
            invariant
                i <= a@.len(),
                cols@.map_values(|c: GlueColumn| column_view(c)) == system + attribute_columns(a@.take(i as int)),
            decreases a@.len() - i,
        {
            proof {
                assert(a@.take(i + 1).drop_last() =~= a@.take(i as int));
            }
            let name = to_column_name(a[i].name.as_str());
            let is_system = crate::text::same_text(name.as_str(), "id") || crate::text::same_text(
                name.as_str(),
                "_tenant",
            ) || crate::text::same_text(name.as_str(), "created_at");
            if !is_system {
                let ghost before = cols@.map_values(|c: GlueColumn| column_view(c));
                push_column(&mut cols, name.as_str(), codice_to_glue_type(&a[i].attr_type));
                assert(system + attribute_columns(a@.take(i + 1)) =~= before.push(
                    (column_name(a@[i as int].name@), glue_type(a@[i as int].attr_type)),
                ));
            }
            i = i + 1;
        }
        proof {
            assert(a@.take(a@.len() as int) =~= a@);
        }
    } else {
        assert(system + Seq::<(Seq<char>, Seq<char>)>::empty() =~= system);
    }
    cols
}

/// The catalogue table of an entity: its name with hyphens as underscores.
pub fn glue_table_name(entity_name: &str) -> (r: String)
    ensures
        r@ == column_name(entity_name@),
{
    to_column_name(entity_name)
}

/// Some column of `cols` is named `name`.
pub open spec fn names_col(cols: Seq<GlueColumn>, name: Seq<char>) -> bool {
    exists|j: int| 0 <= j < cols.len() && (#[trigger] cols[j]).name@ == name
}

/// Some name of `names` is `name`.
pub open spec fn lists_col(names: Seq<String>, name: Seq<char>) -> bool {
    exists|i: int| 0 <= i < names.len() && (#[trigger] names[i])@ == name
}

/// The catalogue's columns name the same set of columns as the model's.
pub open spec fn same_column_names(current: Seq<String>, wanted: Seq<GlueColumn>) -> bool {
    &&& forall|i: int| 0 <= i < current.len() ==> #[trigger] names_col(wanted, current[i]@)
    &&& forall|j: int| 0 <= j < wanted.len() ==> #[trigger] lists_col(current, wanted[j].name@)
}

fn names_column(cols: &Vec<GlueColumn>, name: &str) -> (r: bool)
    ensures
        r == names_col(cols@, name@),
{
    let mut j: usize = 0;
    while j < cols.len()
        invariant
            j <= cols@.len(),
            forall|k: int| 0 <= k < j ==> (#[trigger] cols@[k]).name@ != name@,
        decreases cols@.len() - j,
    {
        if crate::text::same_text(cols[j].name.as_str(), name) {
            return true;
        }
        j = j + 1;
    }
    false
}

fn lists_name(names: &Vec<String>, name: &str) -> (r: bool)
    ensures
        r == lists_col(names@, name@),
{
    let mut i: usize = 0;
    while i < names.len()
        invariant
            i <= names@.len(),
            forall|k: int| 0 <= k < i ==> (#[trigger] names@[k])@ != name@,
        decreases names@.len() - i,
    {
        if crate::text::same_text(names[i].as_str(), name) {
            return true;
        }
        i = i + 1;
    }
    false
}

/// Whether the table in the catalogue, with columns named `current`, is up
/// to date with the model's columns: both name the same set of columns,
/// whatever their order, types or repetitions.
pub fn columns_up_to_date(current: &Vec<String>, wanted: &Vec<GlueColumn>) -> (r: bool)
    ensures
        r == same_column_names(current@, wanted@),
{
    let mut i: usize = 0;
    while i < current.len()
        invariant
            i <= current@.len(),
            forall|k: int| 0 <= k < i ==> #[trigger] names_col(wanted@, current@[k]@),
        decreases current@.len() - i,
    {
        if !names_column(wanted, current[i].as_str()) {
            return false;
        }
        i = i + 1;
    }
    let mut j: usize = 0;
    while j < wanted.len()
        invariant
            j <= wanted@.len(),
            forall|k: int| 0 <= k < current@.len() ==> #[trigger] names_col(wanted@, current@[k]@),
            forall|k: int| 0 <= k < j ==> #[trigger] lists_col(current@, wanted@[k].name@),
        decreases wanted@.len() - j,
    {
        if !lists_name(current, wanted[j].name.as_str()) {
            return false;
        }
        j = j + 1;
    }
    true
}

} // verus!
