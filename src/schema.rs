use vstd::prelude::*;

use crate::cbor::{
    head, null_bytes, push_all, push_head, push_null, push_uint, uint_bytes, MAJOR_BYTES,
    MAJOR_TAG,
};

verus! {

/// The runtime value of one field.
#[derive(Clone, Debug, PartialEq, Eq)]
pub enum Value {
    /// An absent optional value; encodes as the null marker.
    Null,
    /// An unsigned integer.
    Uint(u64),
    /// A byte string.
    Bytes(Vec<u8>),
    /// A value already encoded by its own encoder, such as a nested record.
    Encoded(Vec<u8>),
}

/// The nilable predicate of a field.
#[derive(Clone, Copy, Debug, PartialEq, Eq)]
pub enum NilRule {
    /// The field is nil when its value is `Value::Null` (an optional field).
    IfNull,
    /// The field is never nil.
    Never,
}

/// How a field's value is encoded.
#[derive(Clone, Copy, Debug, PartialEq, Eq)]
pub enum Codec {
    /// The value's own default encoder.
    Default,
    /// A custom encoder that prefixes the default encoding with a semantic tag.
    Tagged(u64),
}

/// The container layout of a record or a union case.
#[derive(Clone, Copy, Debug, PartialEq, Eq)]
pub enum Encoding {
    /// Positional array, indexed by wire index.
    Array,
    /// Map keyed by wire index.
    Keyed,
}

/// Metadata of one field.
#[derive(Clone, Copy, Debug, PartialEq, Eq)]
pub struct FieldDescriptor {
    /// Where the field's value stands in the value's field list.
    pub position_index: usize,
    /// The field's stable index on the wire.
    pub wire_index: u32,
    /// Whether the field is identified by a name rather than by position.
    pub is_named: bool,
    /// When the field counts as absent.
    pub nil_rule: NilRule,
    /// The field's encoder.
    pub codec: Codec,
}

/// The default encoding of a value.
pub open spec fn value_bytes(v: Value) -> Seq<u8> {
    match v {
        Value::Null => null_bytes(),
        Value::Uint(n) => uint_bytes(n),
        Value::Bytes(b) => head(MAJOR_BYTES, b@.len() as u64) + b@,
        Value::Encoded(e) => e@,
    }
}

/// Whether the field described by `d` is nil when it holds `v`.
pub open spec fn is_nil(d: FieldDescriptor, v: Value) -> bool {
    match d.nil_rule {
        NilRule::IfNull => v is Null,
        NilRule::Never => false,
    }
}

/// The encoding of value `v` by the encoder of field `d`.
pub open spec fn field_bytes(d: FieldDescriptor, v: Value) -> Seq<u8> {
    match d.codec {
        Codec::Default => value_bytes(v),
        Codec::Tagged(t) => head(MAJOR_TAG, t) + value_bytes(v),
    }
}

/// Appends the default encoding of `v`.
pub fn encode_value(v: &Value, out: &mut Vec<u8>)
    ensures
        final(out)@ == old(out)@ + value_bytes(*v),
{
    match v {
        Value::Null => push_null(out),
        Value::Uint(n) => push_uint(out, *n),
        Value::Bytes(b) => {
            push_head(out, MAJOR_BYTES, b.len() as u64);
            push_all(out, b);
            proof {
                assert(final(out)@ =~= old(out)@ + value_bytes(*v));
            }
        },
        Value::Encoded(e) => push_all(out, e),
    }
}

impl FieldDescriptor {
    /// Whether the field is nil when it holds `v`.
    pub fn is_nil(&self, v: &Value) -> (r: bool)
        ensures
            r == is_nil(*self, *v),
    {
        match self.nil_rule {
            NilRule::IfNull => matches!(v, Value::Null),
            NilRule::Never => false,
        }
    }

    /// Appends the encoding of `v` by this field's encoder.
    pub fn encode(&self, v: &Value, out: &mut Vec<u8>)
        ensures
            final(out)@ == old(out)@ + field_bytes(*self, *v),
    {
        match self.codec {
            Codec::Default => encode_value(v, out),
            Codec::Tagged(t) => {
                push_head(out, MAJOR_TAG, t);
                encode_value(v, out);
                proof {
                    assert(final(out)@ =~= old(out)@ + field_bytes(*self, *v));
                }
            },
        }
    }
}

} // verus!
