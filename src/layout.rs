use vstd::prelude::*;

use crate::cbor::{
    array_head, map_head, null_bytes, nulls, push_head, push_nulls, push_uint, uint_bytes,
    MAJOR_ARRAY, MAJOR_MAP,
};
use crate::schema::{field_bytes, is_nil, Encoding, FieldDescriptor, Value};

verus! {

/// The concatenation of encoded items, in order.
pub open spec fn concat(items: Seq<Seq<u8>>) -> Seq<u8>
    decreases items.len(),
{
    if items.len() == 0 {
        Seq::empty()
    } else {
        concat(items.drop_last()) + items.last()
    }
}

/// `count` null markers as separate items.
pub open spec fn null_items(count: nat) -> Seq<Seq<u8>> {
    Seq::new(count, |i: int| null_bytes())
}

/// The wire indices of `ds` are strictly ascending.
pub open spec fn ascending(ds: Seq<FieldDescriptor>) -> bool {
    forall|i: int, j: int| 0 <= i < j < ds.len() ==> ds[i].wire_index < ds[j].wire_index
}

/// `ds` describes a value of `n` fields, in strictly ascending wire-index order.
pub open spec fn fields_wf(ds: Seq<FieldDescriptor>, n: nat) -> bool {
    &&& ascending(ds)
    &&& forall|i: int| 0 <= i < ds.len() ==> #[trigger] ds[i].position_index < n
}

/// The value that field `d` holds in `vals`.
pub open spec fn value_of(d: FieldDescriptor, vals: Seq<Value>) -> Value {
    vals[d.position_index as int]
}

/// Whether field `d` is present (not nil) in `vals`.
pub open spec fn present(d: FieldDescriptor, vals: Seq<Value>) -> bool {
    !is_nil(d, value_of(d, vals))
}

/// The encoding of field `d` of `vals` by its encoder.
pub open spec fn encoded_field(d: FieldDescriptor, vals: Seq<Value>) -> Seq<u8> {
    field_bytes(d, value_of(d, vals))
}

/// The number of present fields among the first `n` descriptors.
pub open spec fn count_present(ds: Seq<FieldDescriptor>, vals: Seq<Value>, n: nat) -> nat
    decreases n,
{
    if n == 0 {
        0
    } else {
        count_present(ds, vals, (n - 1) as nat) + if present(ds[n - 1], vals) {
            1nat
        } else {
            0nat
        }
    }
}

/// The wire index of the last present field among the first `n` descriptors, if any.
pub open spec fn max_present(ds: Seq<FieldDescriptor>, vals: Seq<Value>, n: nat) -> Option<u32>
    decreases n,
{
    if n == 0 {
        None
    } else if present(ds[n - 1], vals) {
        Some(ds[n - 1].wire_index)
    } else {
        max_present(ds, vals, (n - 1) as nat)
    }
}

/// The number of null markers that stand before field `j` in array layout.
pub open spec fn gap_before(ds: Seq<FieldDescriptor>, j: int) -> int {
    if j == 0 {
        ds[0].wire_index as int
    } else {
        ds[j].wire_index - ds[j - 1].wire_index - 1
    }
}

/// The array elements that the first `n` descriptors give when the array ends at index `m`.
pub open spec fn array_items(ds: Seq<FieldDescriptor>, vals: Seq<Value>, m: u32, n: nat) -> Seq<
    Seq<u8>,
>
    decreases n,
{
    if n == 0 {
        Seq::empty()
    } else {
        let prev = array_items(ds, vals, m, (n - 1) as nat);
        let d = ds[n - 1];
        if d.wire_index <= m {
            (prev + null_items(gap_before(ds, n - 1) as nat)).push(encoded_field(d, vals))
        } else {
            prev
        }
    }
}

/// The map entries, key then value, that the first `n` descriptors give.
pub open spec fn map_items(ds: Seq<FieldDescriptor>, vals: Seq<Value>, n: nat) -> Seq<Seq<u8>>
    decreases n,
{
    if n == 0 {
        Seq::empty()
    } else {
        let prev = map_items(ds, vals, (n - 1) as nat);
        let d = ds[n - 1];
        if present(d, vals) {
            prev.push(uint_bytes(d.wire_index as u64) + encoded_field(d, vals))
        } else {
            prev
        }
    }
}

/// The array-layout container of the fields `ds` of `vals`.
pub open spec fn array_bytes(ds: Seq<FieldDescriptor>, vals: Seq<Value>) -> Seq<u8> {
    match max_present(ds, vals, ds.len()) {
        None => array_head(0),
        Some(m) => array_head((m + 1) as u64) + concat(array_items(ds, vals, m, ds.len())),
    }
}

/// The map-layout container of the fields `ds` of `vals`.
pub open spec fn map_bytes(ds: Seq<FieldDescriptor>, vals: Seq<Value>) -> Seq<u8> {
    map_head(count_present(ds, vals, ds.len()) as u64) + concat(map_items(ds, vals, ds.len()))
}

/// The container of the fields `ds` of `vals` in layout `enc`.
pub open spec fn container_bytes(ds: Seq<FieldDescriptor>, vals: Seq<Value>, enc: Encoding) -> Seq<
    u8,
> {
    match enc {
        Encoding::Array => array_bytes(ds, vals),
        Encoding::Keyed => map_bytes(ds, vals),
    }
}

pub proof fn lemma_concat_push(items: Seq<Seq<u8>>, x: Seq<u8>)
    ensures
        concat(items.push(x)) == concat(items) + x,
{
    assert(items.push(x).drop_last() =~= items);
}

pub proof fn lemma_concat_nulls(items: Seq<Seq<u8>>, count: nat)
    ensures
        concat(items + null_items(count)) == concat(items) + nulls(count),
    decreases count,
{
    if count == 0 {
        assert(items + null_items(0) =~= items);
        assert(concat(items) + nulls(0) =~= concat(items));
    } else {
        let c1 = (count - 1) as nat;
        lemma_concat_nulls(items, c1);
        assert(items + null_items(count) =~= (items + null_items(c1)).push(null_bytes()));
        lemma_concat_push(items + null_items(c1), null_bytes());
        assert(concat(items) + nulls(count) =~= concat(items) + nulls(c1) + null_bytes());
    }
}

proof fn lemma_count_bound(ds: Seq<FieldDescriptor>, vals: Seq<Value>, n: nat)
    ensures
        count_present(ds, vals, n) <= n,
    decreases n,
{
    if n > 0 {
        lemma_count_bound(ds, vals, (n - 1) as nat);
    }
}

/// Presence evaluator for array layout: the greatest wire index of a present field, if any.
pub fn max_present_index(ds: &Vec<FieldDescriptor>, vals: &Vec<Value>) -> (r: Option<u32>)
    requires
        fields_wf(ds@, vals@.len()),
    ensures
        r == max_present(ds@, vals@, ds@.len()),
{
    let mut max: Option<u32> = None;
    let mut i: usize = 0;
    while i < ds.len()
        invariant
            i <= ds.len(),
            fields_wf(ds@, vals@.len()),
            max == max_present(ds@, vals@, i as nat),
        decreases ds.len() - i,
    {
        let d = ds[i];
        assert(d.position_index < vals@.len());
        if !d.is_nil(&vals[d.position_index]) {
            max = Some(d.wire_index);
        }
        i = i + 1;
    }
    max
}

/// Presence evaluator for map layout: the number of present fields.
pub fn present_count(ds: &Vec<FieldDescriptor>, vals: &Vec<Value>) -> (r: u32)
    requires
        fields_wf(ds@, vals@.len()),
        ds@.len() <= u32::MAX,
    ensures
        r == count_present(ds@, vals@, ds@.len()),
{
    let mut count: u32 = ds.len() as u32;
    let mut i: usize = 0;
    while i < ds.len()
        invariant
            i <= ds.len() <= u32::MAX,
            fields_wf(ds@, vals@.len()),
            count + i == ds.len() + count_present(ds@, vals@, i as nat),
        decreases ds.len() - i,
    {
        proof {
            lemma_count_bound(ds@, vals@, i as nat);
        }
        let d = ds[i];
        assert(d.position_index < vals@.len());
        if d.is_nil(&vals[d.position_index]) {
            count = count - 1;
        }
        i = i + 1;
    }
    count
}

/// Array-layout encoder: appends the fields `ds` of `vals` as a positional array.
pub fn encode_array(ds: &Vec<FieldDescriptor>, vals: &Vec<Value>, out: &mut Vec<u8>)
    requires
        fields_wf(ds@, vals@.len()),
    ensures
        final(out)@ == old(out)@ + array_bytes(ds@, vals@),
{
    match max_present_index(ds, vals) {
        None => push_head(out, MAJOR_ARRAY, 0),
        Some(m) => {
            push_head(out, MAJOR_ARRAY, m as u64 + 1);
            let ghost base = out@;
            let mut next: u64 = 0;
            let mut i: usize = 0;
            while i < ds.len()
                invariant
                    i <= ds.len(),
                    fields_wf(ds@, vals@.len()),
                    next == if i == 0 {
                        0
                    } else {
                        ds@[i - 1].wire_index + 1
                    },
                    out@ == base + concat(array_items(ds@, vals@, m, i as nat)),
                decreases ds.len() - i,
            {
                let d = ds[i];
                assert(d.position_index < vals@.len());
                if d.wire_index <= m {
                    let ghost prev = array_items(ds@, vals@, m, i as nat);
                    let ghost gap = gap_before(ds@, i as int) as nat;
                    push_nulls(out, d.wire_index as u64 - next);
                    proof {
                        lemma_concat_nulls(prev, gap);
                    }
                    d.encode(&vals[d.position_index], out);
                    proof {
                        lemma_concat_push(prev + null_items(gap), encoded_field(d, vals@));
                    }
                }
                next = d.wire_index as u64 + 1;
                i = i + 1;
            }
        },
    }
}

/// Map-layout encoder: appends the present fields of `ds` in `vals` as a map keyed by wire
/// index.
pub fn encode_map(ds: &Vec<FieldDescriptor>, vals: &Vec<Value>, out: &mut Vec<u8>)
    requires
        fields_wf(ds@, vals@.len()),
        ds@.len() <= u32::MAX,
    ensures
        final(out)@ == old(out)@ + map_bytes(ds@, vals@),
{
    let count = present_count(ds, vals);
    push_head(out, MAJOR_MAP, count as u64);
    let ghost base = out@;
    let mut i: usize = 0;
    while i < ds.len()
        invariant
            i <= ds.len(),
            fields_wf(ds@, vals@.len()),
            out@ == base + concat(map_items(ds@, vals@, i as nat)),
        decreases ds.len() - i,
    {
        let d = ds[i];
        assert(d.position_index < vals@.len());
        let v = &vals[d.position_index];
        if !d.is_nil(v) {
            let ghost prev = map_items(ds@, vals@, i as nat);
            let ghost before = out@;
            push_uint(out, d.wire_index as u64);
            d.encode(v, out);
            proof {
                let entry = uint_bytes(d.wire_index as u64) + encoded_field(d, vals@);
                lemma_concat_push(prev, entry);
                assert(out@ =~= base + concat(prev) + entry);
            }
        }
        i = i + 1;
    }
}

/// Appends the fields `ds` of `vals` in layout `enc`.
pub fn encode_container(
    ds: &Vec<FieldDescriptor>,
    vals: &Vec<Value>,
    enc: Encoding,
    out: &mut Vec<u8>,
)
    requires
        fields_wf(ds@, vals@.len()),
        ds@.len() <= u32::MAX,
    ensures
        final(out)@ == old(out)@ + container_bytes(ds@, vals@, enc),
{
    match enc {
        Encoding::Array => encode_array(ds, vals, out),
        Encoding::Keyed => encode_map(ds, vals, out),
    }
}

} // verus!
