//! Schemas of value types: the model of the OpenAPI schema objects that the
//! generator writes, and the translation of a parsed type into one.
use vstd::prelude::*;
use crate::parsed::ParserType;

verus! {

/// A default value, as the JSON value that the document will hold.
#[derive(Debug, PartialEq)]
pub enum DefaultValue {
    Bool(bool),
    Integer(i64),
    String(String),
}

/// The kind of a schema (its `type` and the constraints that go with it).
#[derive(Debug, PartialEq)]
pub enum ValueKind {
    Integer { minimum: Option<i64>, maximum: Option<i64>, enumeration: Vec<Option<i64>> },
    String { min_length: Option<usize>, max_length: Option<usize>, enumeration: Vec<Option<String>> },
    Boolean,
    Number,
    Array { items: Option<Box<SchemaRef>> },
    AnyOf { any_of: Vec<SchemaRef> },
    Any,
}

/// A schema object with a description, a default value and a kind.
#[derive(Debug, PartialEq)]
pub struct SchemaItem {
    pub description: Option<String>,
    pub default: Option<DefaultValue>,
    pub kind: ValueKind,
}

/// Either a reference to a component schema or a schema given in place.
#[derive(Debug, PartialEq)]
pub enum SchemaRef {
    Reference { reference: String },
    Item(Box<SchemaItem>),
}

/// The default value and kind of a schema, before a description is attached.
#[derive(Debug, PartialEq)]
pub struct SchemaParts {
    pub default: Option<DefaultValue>,
    pub kind: ValueKind,
}

/// Either a reference to a component schema or the parts of a schema.
#[derive(Debug, PartialEq)]
pub enum PartsRef {
    Reference { reference: String },
    Item(SchemaParts),
}

/// The reference to the component schema of the object named `name`.
pub open spec fn reference_to(name: Seq<char>) -> Seq<char> {
    "#/components/schemas/"@ + name
}

/// The default value that a type declares, if any.
pub open spec fn default_of(t: ParserType) -> Option<DefaultValue> {
    match t {
        ParserType::Bool { default } => match default {
            Some(b) => Some(DefaultValue::Bool(b)),
            None => None,
        },
        ParserType::Integer { default, .. } => match default {
            Some(i) => Some(DefaultValue::Integer(i)),
            None => None,
        },
        ParserType::String { default, .. } => match default {
            Some(s) => Some(DefaultValue::String(s)),
            None => None,
        },
        _ => None,
    }
}

/// `e` lists the values of `v`, each wrapped in `Some`.
pub open spec fn wraps_all<T>(e: Seq<Option<T>>, v: Seq<T>) -> bool {
    &&& e.len() == v.len()
    &&& forall|i: int| 0 <= i < v.len() ==> #[trigger] e[i] == Some(v[i])
}

/// A length bound of the parsed type as a schema's length bound.
pub open spec fn length_bound(b: Option<u64>) -> Option<usize> {
    match b {
        Some(x) => Some(x as usize),
        None => None,
    }
}

/// `k` is the kind that a scalar type (integer, string, boolean or float) is
/// written as.
pub open spec fn scalar_kind_of(t: ParserType, k: ValueKind) -> bool {
    match t {
        ParserType::Integer { min, max, one_of, .. } => {
            &&& k matches ValueKind::Integer { minimum, maximum, enumeration }
            &&& k->Integer_minimum == min
            &&& k->Integer_maximum == max
            &&& wraps_all(k->Integer_enumeration@, one_of@)
        },
        ParserType::String { min_len, max_len, one_of, .. } => {
            &&& k matches ValueKind::String { min_length, max_length, enumeration }
            &&& k->String_min_length == length_bound(min_len)
            &&& k->String_max_length == length_bound(max_len)
            &&& wraps_all(k->String_enumeration@, one_of@)
        },
        ParserType::Bool { .. } => k is Boolean,
        ParserType::Float => k is Number,
        _ => false,
    }
}

/// The parts that a schema given in place is made of; a reference stays one.
pub open spec fn parts_view(s: SchemaRef) -> PartsRef {
    match s {
        SchemaRef::Reference { reference } => PartsRef::Reference { reference },
        SchemaRef::Item(b) => PartsRef::Item(SchemaParts { default: b.default, kind: b.kind }),
    }
}

/// `s` carries no description.
pub open spec fn undescribed(s: SchemaRef) -> bool {
    s matches SchemaRef::Item(b) ==> b.description is None
}

/// `k` is the kind of type `t` in the full translation: a union becomes
/// `anyOf` over the schemas of all its members.
pub open spec fn kind_of(t: ParserType, k: ValueKind) -> bool
    decreases t, 0int,
{
    match t {
        ParserType::Array(inner) => {
            &&& k matches ValueKind::Array { items }
            &&& k->items matches Some(b)
            &&& schema_of(*inner, *k->items.unwrap())
        },
        ParserType::Or(types) => {
            &&& k matches ValueKind::AnyOf { any_of }
            &&& k->any_of@.len() == types@.len()
            &&& forall|i: int|
                #![trigger k->any_of@[i]]
                0 <= i < types@.len() ==> schema_of(types@[i], k->any_of@[i])
        },
        ParserType::Object(_) => false,
        _ => scalar_kind_of(t, k),
    }
}

/// `p` is what type `t` becomes in the full translation: a reference for an
/// object type, otherwise the type's default value and kind.
pub open spec fn parts_of(t: ParserType, p: PartsRef) -> bool
    decreases t, 1int,
{
    match t {
        ParserType::Object(name) => p matches PartsRef::Reference { reference }
            && reference@ == reference_to(name@),
        _ => p matches PartsRef::Item(parts) && parts.default == default_of(t)
            && kind_of(t, parts.kind),
    }
}

/// `s` is the schema of type `t` in the full translation.
pub open spec fn schema_of(t: ParserType, s: SchemaRef) -> bool
    decreases t, 2int,
{
    parts_of(t, parts_view(s)) && undescribed(s)
}

/// `k` is the kind of type `t` in the simplified translation, where a union
/// stands for its first member (an empty union for any value).
pub open spec fn kind_first_of(t: ParserType, k: ValueKind) -> bool
    decreases t, 0int,
{
    match t {
        ParserType::Array(inner) => {
            &&& k matches ValueKind::Array { items }
            &&& k->items matches Some(b)
            &&& schema_first_of(*inner, *k->items.unwrap())
        },
        ParserType::Or(types) => types@.len() == 0 && k is Any,
        ParserType::Object(_) => false,
        _ => scalar_kind_of(t, k),
    }
}

/// `p` is what type `t` becomes in the simplified translation: a union with
/// members becomes what its first member becomes.
pub open spec fn parts_first_of(t: ParserType, p: PartsRef) -> bool
    decreases t, 1int,
{
    match t {
        ParserType::Object(name) => p matches PartsRef::Reference { reference }
            && reference@ == reference_to(name@),
        ParserType::Or(types) => if types@.len() > 0 {
            parts_first_of(types@[0], p)
        } else {
            p matches PartsRef::Item(parts) && parts.default == default_of(t)
                && kind_first_of(t, parts.kind)
        },
        _ => p matches PartsRef::Item(parts) && parts.default == default_of(t)
            && kind_first_of(t, parts.kind),
    }
}

/// `s` is the schema of type `t` in the simplified translation.
pub open spec fn schema_first_of(t: ParserType, s: SchemaRef) -> bool
    decreases t, 2int,
{
    parts_first_of(t, parts_view(s)) && undescribed(s)
}

impl ParserType {
    /// The kind and default of this type, or the reference it stands for.
    pub fn into_ref_or_schema_parts(&self) -> (r: PartsRef)
        ensures
            parts_of(*self, r),
        decreases *self, 1int,
    {
        let default = default_value(self);
        let kind = match self {
            ParserType::Object(reference) => {
                return PartsRef::Reference { reference: schema_reference(reference) };
            },
            ParserType::Array(array) => {
                let items = array.into_schema();
                ValueKind::Array { items: Some(Box::new(items)) }
            },
            ParserType::Or(types) => {
                let mut any_of: Vec<SchemaRef> = Vec::new();
                let mut i: usize = 0;
                while i < types.len()
                    invariant
                        i <= types@.len(),
                        any_of@.len() == i,
                        *self == ParserType::Or(*types),
                        forall|j: int| 0 <= j < i ==> schema_of(types@[j], #[trigger] any_of@[j]),
                    decreases types@.len() - i,
                {
                    proof {
                        assert(decreases_to!(*types => types[i as int]));
                        assert(decreases_to!(*self => (*self)->Or_0));
                    }
                    let s = types[i].into_schema();
                    any_of.push(s);
                    i = i + 1;
                }
                ValueKind::AnyOf { any_of }
            },
            _ => scalar_kind(self),
        };
        PartsRef::Item(SchemaParts { default, kind })
    }

    /// The schema of this type, with its default value and no description.
    pub fn into_schema(&self) -> (r: SchemaRef)
        ensures
            schema_of(*self, r),
        decreases *self, 2int,
    {
        match self.into_ref_or_schema_parts() {
            PartsRef::Item(parts) => SchemaRef::Item(
                Box::new(SchemaItem { description: None, default: parts.default, kind: parts.kind }),
            ),
            PartsRef::Reference { reference } => SchemaRef::Reference { reference },
        }
    }

    /// The kind and default of this type in the simplified translation, or
    /// the reference it stands for.
    pub fn into_ref_or_schema_parts_first(&self) -> (r: PartsRef)
        ensures
            parts_first_of(*self, r),
        decreases *self, 1int,
    {
        let default = default_value(self);
        let kind = match self {
            ParserType::Object(reference) => {
                return PartsRef::Reference { reference: schema_reference(reference) };
            },
            ParserType::Array(array) => {
                let items = array.into_schema_first();
                ValueKind::Array { items: Some(Box::new(items)) }
            },
            ParserType::Or(types) => {
                if types.len() > 0 {
                    proof {
                        assert(decreases_to!(*types => types[0]));
                        assert(decreases_to!(*self => (*self)->Or_0));
                    }
                    return types[0].into_ref_or_schema_parts_first();
                }
                ValueKind::Any
            },
            _ => scalar_kind(self),
        };
        assert(kind_first_of(*self, kind));
        PartsRef::Item(SchemaParts { default, kind })
    }

    /// The schema of this type in the simplified translation.
    pub fn into_schema_first(&self) -> (r: SchemaRef)
        ensures
            schema_first_of(*self, r),
        decreases *self, 2int,
    {
        match self.into_ref_or_schema_parts_first() {
            PartsRef::Item(parts) => SchemaRef::Item(
                Box::new(SchemaItem { description: None, default: parts.default, kind: parts.kind }),
            ),
            PartsRef::Reference { reference } => SchemaRef::Reference { reference },
        }
    }
}

/// The reference to the component schema of the object named `name`.
pub fn schema_reference(name: &String) -> (r: String)
    ensures
        r@ == reference_to(name@),
{
    let mut r = String::from_str("#/components/schemas/");
    r.append(name.as_str());
    r
}

/// The default value that a type declares, if any.
pub fn default_value(t: &ParserType) -> (r: Option<DefaultValue>)
    ensures
        r == default_of(*t),
{
    match t {
        ParserType::Bool { default } => match default {
            Some(b) => Some(DefaultValue::Bool(*b)),
            None => None,
        },
        ParserType::Integer { default, .. } => match default {
            Some(i) => Some(DefaultValue::Integer(*i)),
            None => None,
        },
        ParserType::String { default, .. } => match default {
            Some(s) => Some(DefaultValue::String(s.clone())),
            None => None,
        },
        _ => None,
    }
}

fn length_bound_of(b: Option<u64>) -> (r: Option<usize>)
    ensures
        r == length_bound(b),
{
    match b {
        Some(x) => Some(x as usize),
        None => None,
    }
}

/// The kind of a scalar type.
pub fn scalar_kind(t: &ParserType) -> (k: ValueKind)
    requires
        !(t is Array || t is Or || t is Object),
    ensures
        scalar_kind_of(*t, k),
{
    match t {
        ParserType::Integer { min, max, one_of, .. } => {
            let mut enumeration: Vec<Option<i64>> = Vec::new();
            let mut i: usize = 0;
            while i < one_of.len()
                invariant
                    i <= one_of@.len(),
                    enumeration@.len() == i,
                    forall|j: int| 0 <= j < i ==> #[trigger] enumeration@[j] == Some(one_of@[j]),
                decreases one_of@.len() - i,
            {
                enumeration.push(Some(one_of[i]));
                i = i + 1;
            }
            ValueKind::Integer { minimum: *min, maximum: *max, enumeration }
        },
        ParserType::String { min_len, max_len, one_of, .. } => {
            let mut enumeration: Vec<Option<String>> = Vec::new();
            let mut i: usize = 0;
            while i < one_of.len()
                invariant
                    i <= one_of@.len(),
                    enumeration@.len() == i,
                    forall|j: int| 0 <= j < i ==> #[trigger] enumeration@[j] == Some(one_of@[j]),
                decreases one_of@.len() - i,
            {
                enumeration.push(Some(one_of[i].clone()));
                i = i + 1;
            }
            ValueKind::String {
                min_length: length_bound_of(*min_len),
                max_length: length_bound_of(*max_len),
                enumeration,
            }
        },
        ParserType::Bool { .. } => ValueKind::Boolean,
        _ => ValueKind::Number,
    }
}

} // verus!
