use vstd::prelude::*;

use crate::cbor::{array_head, map_head, null_bytes, uint_bytes};
use crate::descriptor::{variant_bytes, variant_encoding, TypeDescriptor, VariantDescriptor};
use crate::layout::{
    array_bytes, array_items, ascending, concat, container_bytes, count_present, encoded_field,
    fields_wf, gap_before, map_bytes, map_items, max_present, null_items, present,
};
use crate::schema::{field_bytes, value_bytes, Codec, Encoding, FieldDescriptor, Value};

verus! {

/// The fields of `ds` that are present in `vals`, in order.
pub open spec fn present_fields(ds: Seq<FieldDescriptor>, vals: Seq<Value>) -> Seq<
    FieldDescriptor,
> {
    ds.filter(|d: FieldDescriptor| present(d, vals))
}

/// The map entry, key then value, of field `d` of `vals`.
pub open spec fn map_entry(d: FieldDescriptor, vals: Seq<Value>) -> Seq<u8> {
    uint_bytes(d.wire_index as u64) + encoded_field(d, vals)
}

/// Whether some field of `ds` has wire index `k`.
pub open spec fn has_index(ds: Seq<FieldDescriptor>, k: int) -> bool {
    exists|j: int| 0 <= j < ds.len() && #[trigger] ds[j].wire_index == k
}

/// Array element `k`: the encoding of the field with wire index `k`, or the null marker when
/// there is none.
pub open spec fn element_at(ds: Seq<FieldDescriptor>, vals: Seq<Value>, k: int) -> Seq<u8> {
    if has_index(ds, k) {
        let j = choose|j: int| 0 <= j < ds.len() && #[trigger] ds[j].wire_index == k;
        encoded_field(ds[j], vals)
    } else {
        null_bytes()
    }
}

/// One past the greatest wire index not above `m` among the first `n` descriptors.
pub open spec fn array_end(ds: Seq<FieldDescriptor>, m: u32, n: nat) -> nat
    decreases n,
{
    if n == 0 {
        0
    } else if ds[n - 1].wire_index <= m {
        (ds[n - 1].wire_index + 1) as nat
    } else {
        array_end(ds, m, (n - 1) as nat)
    }
}

proof fn lemma_map_prefix(ds: Seq<FieldDescriptor>, vals: Seq<Value>, n: nat)
    requires
        n <= ds.len(),
    ensures
        count_present(ds, vals, n) == present_fields(ds.take(n as int), vals).len(),
        map_items(ds, vals, n) == present_fields(ds.take(n as int), vals).map_values(
            |d: FieldDescriptor| map_entry(d, vals),
        ),
    decreases n,
{
    let f = |d: FieldDescriptor| map_entry(d, vals);
    reveal(Seq::filter);
    if n == 0 {
        assert(ds.take(0) =~= Seq::<FieldDescriptor>::empty());
        assert(map_items(ds, vals, 0) =~= present_fields(ds.take(0), vals).map_values(f));
    } else {
        let n1 = (n - 1) as nat;
        lemma_map_prefix(ds, vals, n1);
        let t = ds.take(n as int);
        assert(t.drop_last() =~= ds.take(n1 as int));
        assert(t.last() == ds[n - 1]);
        let prev = present_fields(ds.take(n1 as int), vals);
        if present(ds[n - 1], vals) {
            assert(present_fields(t, vals) == prev.push(ds[n - 1]));
            assert(prev.push(ds[n - 1]).map_values(f) =~= prev.map_values(f).push(f(ds[n - 1])));
        } else {
            assert(present_fields(t, vals) == prev);
        }
    }
}

/// In map layout a nil field gives no entry: the header counts exactly the present fields,
/// and the entries are those of the present fields, in order.
pub proof fn lemma_map_elision(ds: Seq<FieldDescriptor>, vals: Seq<Value>)
    requires
        fields_wf(ds, vals.len()),
    ensures
        count_present(ds, vals, ds.len()) == present_fields(ds, vals).len(),
        map_bytes(ds, vals) == map_head(present_fields(ds, vals).len() as u64) + concat(
            present_fields(ds, vals).map_values(|d: FieldDescriptor| map_entry(d, vals)),
        ),
{
    lemma_map_prefix(ds, vals, ds.len());
    assert(ds.take(ds.len() as int) =~= ds);
}

proof fn lemma_max_present(ds: Seq<FieldDescriptor>, vals: Seq<Value>, n: nat)
    requires
        n <= ds.len(),
        ascending(ds),
    ensures
        max_present(ds, vals, n) is None ==> forall|j: int|
            0 <= j < n ==> !present(#[trigger] ds[j], vals),
        max_present(ds, vals, n) matches Some(m) ==> exists|q: int|
            0 <= q < n && present(ds[q], vals) && #[trigger] ds[q].wire_index == m,
        max_present(ds, vals, n) matches Some(m) ==> forall|j: int|
            0 <= j < n && present(#[trigger] ds[j], vals) ==> ds[j].wire_index <= m,
    decreases n,
{
    if n > 0 {
        lemma_max_present(ds, vals, (n - 1) as nat);
    }
}

proof fn lemma_array_prefix(ds: Seq<FieldDescriptor>, vals: Seq<Value>, m: u32, n: nat)
    requires
        n <= ds.len(),
        ascending(ds),
    ensures
        array_items(ds, vals, m, n) =~= Seq::new(
            array_end(ds, m, n),
            |k: int| element_at(ds, vals, k),
        ),
        n > 0 && ds[n - 1].wire_index <= m ==> array_end(ds, m, n) == ds[n - 1].wire_index + 1,
        array_end(ds, m, n) <= m + 1,
    decreases n,
{
    if n > 0 {
        let n1 = (n - 1) as nat;
        lemma_array_prefix(ds, vals, m, n1);
        let d = ds[n - 1];
        if d.wire_index <= m {
            let prev = array_items(ds, vals, m, n1);
            let e0 = array_end(ds, m, n1);
            let gap = gap_before(ds, n - 1) as nat;
            if n1 > 0 {
                assert(ds[n1 - 1].wire_index < d.wire_index);
            }
            assert(e0 + gap == d.wire_index);
            let items = (prev + null_items(gap)).push(encoded_field(d, vals));
            assert forall|k: int| 0 <= k < d.wire_index + 1 implies items[k] == element_at(
                ds,
                vals,
                k,
            ) by {
                if k < e0 {
                } else if k < d.wire_index {
                    assert forall|j: int| 0 <= j < ds.len() implies #[trigger] ds[j].wire_index
                        != k by {
                        if j < n - 1 {
                            assert(ds[j].wire_index <= ds[n1 - 1].wire_index);
                        } else if j > n - 1 {
                            assert(ds[n - 1].wire_index < ds[j].wire_index);
                        }
                    }
                    assert(!has_index(ds, k));
                } else {
                    assert(ds[n - 1].wire_index == k);
                    assert(has_index(ds, k));
                    let j = choose|j: int| 0 <= j < ds.len() && #[trigger] ds[j].wire_index == k;
                    if j < n - 1 {
                        assert(ds[j].wire_index < ds[n - 1].wire_index);
                    } else if j > n - 1 {
                        assert(ds[n - 1].wire_index < ds[j].wire_index);
                    }
                }
            }
        }
    }
}

proof fn lemma_array_end(ds: Seq<FieldDescriptor>, m: u32, q: int, n: nat)
    requires
        n <= ds.len(),
        ascending(ds),
        0 <= q < n,
        ds[q].wire_index == m,
    ensures
        array_end(ds, m, n) == m + 1,
    decreases n,
{
    if n - 1 > q {
        assert(ds[q].wire_index < ds[n - 1].wire_index);
        lemma_array_end(ds, m, q, (n - 1) as nat);
    }
}

/// In array layout, when the greatest wire index of a present field is `m`, the array has
/// exactly `m + 1` elements: element `k` is the field with wire index `k`, or the null marker
/// where no field has that index; nothing stands beyond `m`. When no field is present the
/// array is empty.
pub proof fn lemma_array_truncation(ds: Seq<FieldDescriptor>, vals: Seq<Value>)
    requires
        fields_wf(ds, vals.len()),
    ensures
        max_present(ds, vals, ds.len()) is None ==> array_bytes(ds, vals) == array_head(0)
            && forall|j: int| 0 <= j < ds.len() ==> !present(#[trigger] ds[j], vals),
        max_present(ds, vals, ds.len()) matches Some(m) ==> forall|j: int|
            0 <= j < ds.len() && present(#[trigger] ds[j], vals) ==> ds[j].wire_index <= m,
        max_present(ds, vals, ds.len()) matches Some(m) ==> array_bytes(ds, vals) == array_head(
            (m + 1) as u64,
        ) + concat(Seq::new((m + 1) as nat, |k: int| element_at(ds, vals, k))),
{
    lemma_max_present(ds, vals, ds.len());
    if let Some(m) = max_present(ds, vals, ds.len()) {
        let q = choose|q: int|
            0 <= q < ds.len() && present(ds[q], vals) && #[trigger] ds[q].wire_index == m;
        lemma_array_end(ds, m, q, ds.len());
        lemma_array_prefix(ds, vals, m, ds.len());
    }
}

/// A union case with fields is framed as `[case index, container]`; a fieldless case is the
/// bare case index in an index-only union and `[case index, empty container]` otherwise.
pub proof fn lemma_variant_framing(
    v: VariantDescriptor,
    default: Encoding,
    index_only: bool,
    vals: Seq<Value>,
)
    ensures
        v.fields@.len() > 0 ==> variant_bytes(v, default, index_only, vals) == array_head(2)
            + uint_bytes(v.wire_index as u64) + container_bytes(
            v.fields@,
            vals,
            variant_encoding(v, default),
        ),
        v.fields@.len() == 0 && index_only ==> variant_bytes(v, default, index_only, vals)
            == uint_bytes(v.wire_index as u64),
        v.fields@.len() == 0 && !index_only && variant_encoding(v, default) == Encoding::Array
            ==> variant_bytes(v, default, index_only, vals) == array_head(2) + uint_bytes(
            v.wire_index as u64,
        ) + array_head(0),
        v.fields@.len() == 0 && !index_only && variant_encoding(v, default) == Encoding::Keyed
            ==> variant_bytes(v, default, index_only, vals) == array_head(2) + uint_bytes(
            v.wire_index as u64,
        ) + map_head(0),
{
    if v.fields@.len() == 0 {
        assert(map_bytes(v.fields@, vals) =~= map_head(0));
    }
}

/// A transparent type encodes exactly as its single field; with the default codec that is the
/// encoding of the inner value itself.
pub proof fn lemma_transparency(t: TypeDescriptor, vals: Seq<Value>)
    requires
        t.wf(),
        t.transparent,
        t.shape is Record,
        vals.len() == t.record_fields().len(),
    ensures
        t.record_value_bytes(vals) == field_bytes(t.record_fields()[0], vals[0]),
        t.record_fields()[0].codec == Codec::Default ==> t.record_value_bytes(vals)
            == value_bytes(vals[0]),
{
    assert(t.record_fields()[0].position_index < t.record_fields().len());
}

} // verus!
