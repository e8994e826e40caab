use vstd::prelude::*;

use crate::cbor::{array_head, push_head, push_uint, uint_bytes, MAJOR_ARRAY};
use crate::layout::{ascending, container_bytes, encode_container, encoded_field};
use crate::schema::{Encoding, FieldDescriptor, Value};
use crate::sink::{EncodeError, Sink};

verus! {

/// A schema that cannot be used for encoding.
#[derive(Clone, Copy, Debug, PartialEq, Eq)]
pub enum SchemaError {
    /// A transparent type has other than exactly one field.
    TransparentFieldCount,
    /// A union has no cases.
    NoVariants,
    /// An index-only union has a case with fields.
    IndexOnlyWithFields,
    /// A field list is longer than a container size can count.
    TooManyFields,
    /// The wire indices of a field list are not strictly ascending.
    UnorderedFields,
    /// A field's position lies outside the field list.
    PositionOutOfRange,
}

/// Metadata of one union case.
#[derive(Clone, Debug, PartialEq, Eq)]
pub struct VariantDescriptor {
    /// The case's stable index on the wire.
    pub wire_index: u32,
    /// The case's fields, in ascending wire-index order.
    pub fields: Vec<FieldDescriptor>,
    /// The case's own layout; `None` takes the union's default.
    pub encoding: Option<Encoding>,
}

/// What a type is made of.
#[derive(Clone, Debug, PartialEq, Eq)]
pub enum Shape {
    /// A record with these fields, in ascending wire-index order.
    Record(Vec<FieldDescriptor>),
    /// A tagged union; when `index_only`, fieldless cases encode as their bare index.
    Union { variants: Vec<VariantDescriptor>, index_only: bool },
}

/// Metadata of one type.
#[derive(Clone, Debug, PartialEq, Eq)]
pub struct TypeDescriptor {
    /// Whether the type is a single-field wrapper that encodes as its field.
    pub transparent: bool,
    /// The type's fields or cases.
    pub shape: Shape,
    /// The default layout of the type's containers.
    pub encoding: Encoding,
}

/// Every field position lies below `ds.len()`.
pub open spec fn positions_in_range(ds: Seq<FieldDescriptor>) -> bool {
    forall|i: int| 0 <= i < ds.len() ==> #[trigger] ds[i].position_index < ds.len()
}

/// What is wrong with a field list, if anything.
pub open spec fn fields_error(ds: Seq<FieldDescriptor>) -> Option<SchemaError> {
    if ds.len() > u32::MAX {
        Some(SchemaError::TooManyFields)
    } else if !ascending(ds) {
        Some(SchemaError::UnorderedFields)
    } else if !positions_in_range(ds) {
        Some(SchemaError::PositionOutOfRange)
    } else {
        None
    }
}

/// What is wrong with a union case, if anything.
pub open spec fn variant_error(v: VariantDescriptor, index_only: bool) -> Option<SchemaError> {
    if index_only && v.fields@.len() > 0 {
        Some(SchemaError::IndexOnlyWithFields)
    } else {
        fields_error(v.fields@)
    }
}

/// The layout of union case `v` in a union whose default layout is `default`.
pub open spec fn variant_encoding(v: VariantDescriptor, default: Encoding) -> Encoding {
    match v.encoding {
        Some(e) => e,
        None => default,
    }
}

/// The encoding of union case `v` holding the field values `vals`.
pub open spec fn variant_bytes(
    v: VariantDescriptor,
    default: Encoding,
    index_only: bool,
    vals: Seq<Value>,
) -> Seq<u8> {
    if index_only && v.fields@.len() == 0 {
        uint_bytes(v.wire_index as u64)
    } else {
        array_head(2) + uint_bytes(v.wire_index as u64) + container_bytes(
            v.fields@,
            vals,
            variant_encoding(v, default),
        )
    }
}

/// The encoding of a record with fields `ds` holding the values `vals`.
pub open spec fn record_bytes(
    ds: Seq<FieldDescriptor>,
    transparent: bool,
    enc: Encoding,
    vals: Seq<Value>,
) -> Seq<u8> {
    if transparent {
        encoded_field(ds[0], vals)
    } else {
        container_bytes(ds, vals, enc)
    }
}

/// What registering a record type gives.
pub open spec fn record_result(
    fields: Vec<FieldDescriptor>,
    encoding: Encoding,
    transparent: bool,
) -> Result<TypeDescriptor, SchemaError> {
    if transparent && fields@.len() != 1 {
        Err(SchemaError::TransparentFieldCount)
    } else {
        match fields_error(fields@) {
            Some(e) => Err(e),
            None => Ok(TypeDescriptor { transparent, shape: Shape::Record(fields), encoding }),
        }
    }
}

/// `e` is what is wrong with the first faulty case of `vs`.
pub open spec fn first_variant_error(
    vs: Seq<VariantDescriptor>,
    index_only: bool,
    e: SchemaError,
) -> bool {
    exists|i: int|
        0 <= i < vs.len() && variant_error(vs[i], index_only) == Some(e) && forall|j: int|
            0 <= j < i ==> (#[trigger] variant_error(vs[j], index_only)) is None
}

/// The descriptor of a union type with these cases.
pub open spec fn union_descriptor(
    variants: Vec<VariantDescriptor>,
    encoding: Encoding,
    index_only: bool,
) -> TypeDescriptor {
    TypeDescriptor { transparent: false, shape: Shape::Union { variants, index_only }, encoding }
}

impl TypeDescriptor {
    /// The fields of a record type; empty for a union.
    pub open spec fn record_fields(self) -> Seq<FieldDescriptor> {
        match self.shape {
            Shape::Record(ds) => ds@,
            Shape::Union { .. } => Seq::empty(),
        }
    }

    /// The cases of a union type; empty for a record.
    pub open spec fn union_cases(self) -> Seq<VariantDescriptor> {
        match self.shape {
            Shape::Record(_) => Seq::empty(),
            Shape::Union { variants, .. } => variants@,
        }
    }

    /// The encoding of a value of this record type whose field values are `vals`.
    pub open spec fn record_value_bytes(self, vals: Seq<Value>) -> Seq<u8> {
        record_bytes(self.record_fields(), self.transparent, self.encoding, vals)
    }

    /// The encoding of a value of this union type: case number `case` holding `vals`.
    pub open spec fn union_value_bytes(self, case: int, vals: Seq<Value>) -> Seq<u8> {
        match self.shape {
            Shape::Record(_) => Seq::empty(),
            Shape::Union { variants, index_only } => variant_bytes(
                variants@[case],
                self.encoding,
                index_only,
                vals,
            ),
        }
    }

    /// The descriptor satisfies every schema rule.
    pub open spec fn wf(self) -> bool {
        match self.shape {
            Shape::Record(ds) => {
                &&& fields_error(ds@) is None
                &&& self.transparent ==> ds@.len() == 1
            },
            Shape::Union { variants, index_only } => {
                &&& !self.transparent
                &&& variants@.len() > 0
                &&& forall|i: int|
                    0 <= i < variants@.len() ==> (#[trigger] variant_error(
                        variants@[i],
                        index_only,
                    )) is None
            },
        }
    }
}

/// Checks a field list against the schema rules.
pub fn check_fields(ds: &Vec<FieldDescriptor>) -> (r: Result<(), SchemaError>)
    ensures
        r == (match fields_error(ds@) {
            Some(e) => Err(e),
            None => Ok(()),
        }),
{
    if ds.len() > u32::MAX as usize {
        return Err(SchemaError::TooManyFields);
    }
    let mut i: usize = 1;
    while i < ds.len()
        invariant
            1 <= i,
            i <= ds.len() || ds.len() == 0,
            ds.len() <= u32::MAX,
            forall|a: int, b: int|
                0 <= a < b < i && b < ds@.len() ==> ds@[a].wire_index < ds@[b].wire_index,
        decreases ds.len() - i,
    {
        if ds[i - 1].wire_index >= ds[i].wire_index {
            assert(!ascending(ds@));
            return Err(SchemaError::UnorderedFields);
        }
        i = i + 1;
    }
    assert(ascending(ds@));
    let mut j: usize = 0;
    while j < ds.len()
        invariant
            j <= ds.len() <= u32::MAX,
            ascending(ds@),
            forall|a: int| 0 <= a < j ==> #[trigger] ds@[a].position_index < ds@.len(),
        decreases ds.len() - j,
    {
        if ds[j].position_index >= ds.len() {
            assert(!positions_in_range(ds@));
            return Err(SchemaError::PositionOutOfRange);
        }
        j = j + 1;
    }
    Ok(())
}

/// Checks a union case against the schema rules.
pub fn check_variant(v: &VariantDescriptor, index_only: bool) -> (r: Result<(), SchemaError>)
    ensures
        r == (match variant_error(*v, index_only) {
            Some(e) => Err(e),
            None => Ok(()),
        }),
{
    if index_only && v.fields.len() > 0 {
        return Err(SchemaError::IndexOnlyWithFields);
    }
    check_fields(&v.fields)
}

impl TypeDescriptor {
    /// Registers a record type, checking the schema rules.
    pub fn record(fields: Vec<FieldDescriptor>, encoding: Encoding, transparent: bool) -> (r:
        Result<TypeDescriptor, SchemaError>)
        ensures
            r == record_result(fields, encoding, transparent),
            r matches Ok(t) ==> t.wf(),
    {
        if transparent && fields.len() != 1 {
            return Err(SchemaError::TransparentFieldCount);
        }
        match check_fields(&fields) {
            Err(e) => Err(e),
            Ok(()) => Ok(TypeDescriptor { transparent, shape: Shape::Record(fields), encoding }),
        }
    }

    /// Registers a union type, checking the schema rules.
    pub fn union(variants: Vec<VariantDescriptor>, encoding: Encoding, index_only: bool) -> (r:
        Result<TypeDescriptor, SchemaError>)
        ensures
            variants@.len() == 0 ==> r == Err::<TypeDescriptor, SchemaError>(
                SchemaError::NoVariants,
            ),
            r is Ok <==> variants@.len() > 0 && forall|i: int|
                0 <= i < variants@.len() ==> (#[trigger] variant_error(
                    variants@[i],
                    index_only,
                )) is None,
            r matches Ok(t) ==> t == union_descriptor(variants, encoding, index_only),
            r matches Ok(t) ==> t.wf(),
            r matches Err(e) ==> variants@.len() == 0 || first_variant_error(
                variants@,
                index_only,
                e,
            ),
    {
        if variants.len() == 0 {
            return Err(SchemaError::NoVariants);
        }
        let mut i: usize = 0;
        while i < variants.len()
            invariant
                i <= variants.len(),
                forall|j: int|
                    0 <= j < i ==> (#[trigger] variant_error(variants@[j], index_only)) is None,
            decreases variants.len() - i,
        {
            match check_variant(&variants[i], index_only) {
                Err(e) => {
                    return Err(e);
                },
                Ok(()) => {},
            }
            i = i + 1;
        }
        Ok(TypeDescriptor { transparent: false, shape: Shape::Union { variants, index_only }, encoding })
    }
}

/// Transparent delegate: appends the encoding of the single field `d` of `vals`, with no
/// framing.
pub fn encode_transparent(d: &FieldDescriptor, vals: &Vec<Value>, out: &mut Vec<u8>)
    requires
        d.position_index < vals@.len(),
    ensures
        final(out)@ == old(out)@ + encoded_field(*d, vals@),
{
    d.encode(&vals[d.position_index], out);
}

/// Variant tagger: appends union case `v` holding the field values `vals`.
pub fn encode_variant(
    v: &VariantDescriptor,
    default: Encoding,
    index_only: bool,
    vals: &Vec<Value>,
    out: &mut Vec<u8>,
)
    requires
        fields_error(v.fields@) is None,
        vals@.len() == v.fields@.len(),
    ensures
        final(out)@ == old(out)@ + variant_bytes(*v, default, index_only, vals@),
{
    if index_only && v.fields.len() == 0 {
        push_uint(out, v.wire_index as u64);
    } else {
        let enc = match v.encoding {
            Some(e) => e,
            None => default,
        };
        push_head(out, MAJOR_ARRAY, 2);
        push_uint(out, v.wire_index as u64);
        encode_container(&v.fields, vals, enc, out);
        proof {
            assert(final(out)@ =~= old(out)@ + variant_bytes(*v, default, index_only, vals@));
        }
    }
}

impl TypeDescriptor {
    /// Appends the encoding of a value of this record type, whose field values are `vals`.
    pub fn encode_record(&self, vals: &Vec<Value>, out: &mut Vec<u8>)
        requires
            self.wf(),
            self.shape is Record,
            vals@.len() == self.record_fields().len(),
        ensures
            final(out)@ == old(out)@ + self.record_value_bytes(vals@),
    {
        match &self.shape {
            Shape::Record(ds) => {
                if self.transparent {
                    encode_transparent(&ds[0], vals, out);
                } else {
                    encode_container(ds, vals, self.encoding, out);
                }
            },
            Shape::Union { .. } => {},
        }
    }

    /// Appends the encoding of a value of this union type: case number `case` (its position in
    /// the case list) holding the field values `vals`.
    pub fn encode_union(&self, case: usize, vals: &Vec<Value>, out: &mut Vec<u8>)
        requires
            self.wf(),
            self.shape is Union,
            case < self.union_cases().len(),
            vals@.len() == self.union_cases()[case as int].fields@.len(),
        ensures
            final(out)@ == old(out)@ + self.union_value_bytes(case as int, vals@),
    {
        match &self.shape {
            Shape::Union { variants, index_only } => {
                assert(variant_error(variants@[case as int], *index_only) is None);
                encode_variant(&variants[case], self.encoding, *index_only, vals, out);
            },
            Shape::Record(_) => {},
        }
    }

    /// Writes the encoding of a value of this record type to `sink`; fails, writing nothing,
    /// when it does not fit.
    pub fn encode_record_into(&self, vals: &Vec<Value>, sink: &mut Sink) -> (r: Result<
        (),
        EncodeError,
    >)
        requires
            self.wf(),
            self.shape is Record,
            vals@.len() == self.record_fields().len(),
        ensures
            final(sink).capacity() == old(sink).capacity(),
            r is Ok <==> old(sink).contents().len() + self.record_value_bytes(vals@).len()
                <= old(sink).capacity(),
            r is Ok ==> final(sink).contents() == old(sink).contents() + self.record_value_bytes(
                vals@,
            ),
            r is Err ==> final(sink).contents() == old(sink).contents(),
    {
        let mut out: Vec<u8> = Vec::new();
        self.encode_record(vals, &mut out);
        assert(out@ =~= self.record_value_bytes(vals@));
        sink.write_all(&out)
    }

    /// Writes the encoding of a value of this union type, case number `case` holding `vals`,
    /// to `sink`; fails, writing nothing, when it does not fit.
    pub fn encode_union_into(&self, case: usize, vals: &Vec<Value>, sink: &mut Sink) -> (r:
        Result<(), EncodeError>)
        requires
            self.wf(),
            self.shape is Union,
            case < self.union_cases().len(),
            vals@.len() == self.union_cases()[case as int].fields@.len(),
        ensures
            final(sink).capacity() == old(sink).capacity(),
            r is Ok <==> old(sink).contents().len() + self.union_value_bytes(case as int, vals@).len()
                <= old(sink).capacity(),
            r is Ok ==> final(sink).contents() == old(sink).contents() + self.union_value_bytes(
                case as int,
                vals@,
            ),
            r is Err ==> final(sink).contents() == old(sink).contents(),
    {
        let mut out: Vec<u8> = Vec::new();
        self.encode_union(case, vals, &mut out);
        assert(out@ =~= self.union_value_bytes(case as int, vals@));
        sink.write_all(&out)
    }
}

} // verus!
