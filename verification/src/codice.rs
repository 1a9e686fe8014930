//! The entity schema registry: attribute types, attribute descriptors and
//! entity models, as the readers and the OLAP seeder consume them.
use vstd::prelude::*;

verus! {

/// The type of an attribute in the schema.
#[derive(Debug, Clone, PartialEq, Eq)]
pub enum AttrType {
    String,
    Number,
    Decimal,
    Epoch,
    Boolean,
    Array,
    Reference,
    Uuid,
    Bytes,
    Enum,
    Json,
    Unknown(String),
}

/// One attribute of an entity model.
#[derive(Debug, Clone)]
pub struct AttributeDescriptor {
    pub name: String,
    pub attr_type: AttrType,
    pub required: bool,
    pub indexed: bool,
    pub sensitive: bool,
}

/// The schema of one entity.
#[derive(Debug, Clone)]
pub struct EntityModel {
    pub entity: String,
    pub attributes: Vec<AttributeDescriptor>,
}

/// The set of entity models.
#[derive(Debug, Clone)]
pub struct CodeRegistry {
    pub models: Vec<EntityModel>,
}

/// Whether an attribute of this type gets value-index keys on write: every
/// type but `Bytes` and `Array`.
pub open spec fn avet_indexable(t: AttrType) -> bool {
    !(t is Bytes || t is Array)
}

/// Whether an attribute of this type gets value-index keys on write.
pub fn attr_type_is_avet_indexable(t: &AttrType) -> (r: bool)
    ensures
        r == avet_indexable(*t),
{
    match t {
        AttrType::Bytes | AttrType::Array => false,
        _ => true,
    }
}

/// Index of the first model of `models`, from `k` on, whose entity is `name`.
pub open spec fn model_index(models: Seq<EntityModel>, name: Seq<char>, k: int) -> Option<int>
    decreases models.len() - k,
{
    if k < 0 || k >= models.len() {
        None
    } else if models[k].entity@ == name {
        Some(k)
    } else {
        model_index(models, name, k + 1)
    }
}

impl CodeRegistry {
    /// The model of the entity named `entity_type`, if registered.
    pub fn get_model(&self, entity_type: &str) -> (r: Option<&EntityModel>)
        ensures
            match model_index(self.models@, entity_type@, 0) {
                Some(k) => r == Some(&self.models@[k]),
                None => r is None,
            },
    {
        let name = crate::text::chars_of(entity_type);
        let mut k: usize = 0;
        while k < self.models.len()
            invariant
                k <= self.models.len(),
                name@ == entity_type@,
                model_index(self.models@, entity_type@, 0) == model_index(
                    self.models@,
                    entity_type@,
                    k as int,
                ),
            decreases self.models.len() - k,
        {
            let e = crate::text::chars_of(self.models[k].entity.as_str());
            if crate::text::eq_chars(&e, &name) {
                return Some(&self.models[k]);
            }
            k = k + 1;
        }
        None
    }
}

} // verus!
