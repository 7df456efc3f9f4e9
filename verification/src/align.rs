//! Aligning rows written under one schema version with the field ordinals
//! of another: a field keeps its column id across versions, not its
//! ordinal.

use crate::field_value::{duplicate_opt, opt_view, FieldVal, FieldValView};
use crate::schema::ColumnView;
use crate::table_schema::{
    field_count, field_ids_upto, field_ordinal, is_field_with_id, TskvTableSchema,
};
use vstd::prelude::*;

verus! {

/// The id of the field that has ordinal `j`, where a field has it.
pub open spec fn field_id_at(cols: Seq<ColumnView>, j: int) -> Option<u32> {
    if exists|id: u32| #[trigger] field_ordinal(cols, id) == Some(j) {
        Some(choose|id: u32| #[trigger] field_ordinal(cols, id) == Some(j))
    } else {
        None
    }
}

/// The ordinal under `own` of the field that has ordinal `j` under
/// `latest`, where both schemas have that field.
pub open spec fn source_ordinal(own: Seq<ColumnView>, latest: Seq<ColumnView>, j: int) -> Option<
    int,
> {
    match field_id_at(latest, j) {
        Some(id) => field_ordinal(own, id),
        None => None,
    }
}

/// The field values of a row written under `own`, laid out by the field
/// ordinals of `latest`. A field that `own` lacks, or for which the row is
/// too short, is absent.
pub open spec fn align_fields(
    fields: Seq<Option<FieldValView>>,
    own: Seq<ColumnView>,
    latest: Seq<ColumnView>,
) -> Seq<Option<FieldValView>> {
    Seq::new(
        field_count(latest, latest.len() as int),
        |j: int|
            match source_ordinal(own, latest, j) {
                Some(k) => if 0 <= k < fields.len() {
                    fields[k]
                } else {
                    None
                },
                None => None,
            },
    )
}

/// Counting fields up to an id is monotone in the id.
pub proof fn lemma_upto_monotone(cols: Seq<ColumnView>, a: u32, b: u32, n: int)
    requires
        a <= b,
        0 <= n <= cols.len(),
    ensures
        field_ids_upto(cols, a, n) <= field_ids_upto(cols, b, n),
    decreases n,
{
    if n > 0 {
        lemma_upto_monotone(cols, a, b, n - 1);
    }
}

/// A field with a larger id is counted beyond every smaller id.
pub proof fn lemma_upto_strict(cols: Seq<ColumnView>, a: u32, b: u32, n: int, k: int)
    requires
        a < b,
        0 <= k < n <= cols.len(),
        is_field_with_id(cols[k], b),
    ensures
        field_ids_upto(cols, a, n) < field_ids_upto(cols, b, n),
    decreases n,
{
    if k == n - 1 {
        lemma_upto_monotone(cols, a, b, n - 1);
    } else {
        lemma_upto_strict(cols, a, b, n - 1, k);
    }
}

/// Two fields with the same ordinal have the same id.
pub proof fn lemma_ordinal_injective(cols: Seq<ColumnView>, a: u32, b: u32)
    requires
        field_ordinal(cols, a) is Some,
        field_ordinal(cols, a) == field_ordinal(cols, b),
    ensures
        a == b,
{
    let n = cols.len() as int;
    if a < b {
        let k = choose|k: int| 0 <= k < cols.len() && #[trigger] is_field_with_id(cols[k], b);
        lemma_upto_strict(cols, a, b, n, k);
    } else if b < a {
        let k = choose|k: int| 0 <= k < cols.len() && #[trigger] is_field_with_id(cols[k], a);
        lemma_upto_strict(cols, b, a, n, k);
    }
}

/// The field with the given id is the one at its ordinal.
pub proof fn lemma_field_id_at(cols: Seq<ColumnView>, id: u32)
    requires
        field_ordinal(cols, id) is Some,
    ensures
        field_id_at(cols, field_ordinal(cols, id).unwrap()) == Some(id),
{
    let j = field_ordinal(cols, id).unwrap();
    let chosen = choose|c: u32| #[trigger] field_ordinal(cols, c) == Some(j);
    lemma_ordinal_injective(cols, id, chosen);
}

/// Aligning with the schema the row was written under changes nothing for
/// the ordinals that a field has, where the row has one value per field.
pub proof fn lemma_align_same_schema(fields: Seq<Option<FieldValView>>, cols: Seq<ColumnView>)
    requires
        fields.len() == field_count(cols, cols.len() as int),
    ensures
        align_fields(fields, cols, cols).len() == fields.len(),
        forall|j: int|
            0 <= j < fields.len() && field_id_at(cols, j) is Some ==> #[trigger] align_fields(
                fields,
                cols,
                cols,
            )[j] == fields[j],
{
}

/// Whether column `k` is a field whose ordinal is `j`.
pub open spec fn ordinal_hit(cols: Seq<ColumnView>, k: int, j: int) -> bool {
    cols[k].column_type.spec_is_field() && field_ordinal(cols, cols[k].id) == Some(j)
}

/// Whether `sources` holds, for each field ordinal of `latest`, the ordinal
/// that the same field has under `own`.
pub open spec fn sources_for(
    sources: Seq<Option<usize>>,
    own: Seq<ColumnView>,
    latest: Seq<ColumnView>,
) -> bool {
    &&& sources.len() == field_count(latest, latest.len() as int)
    &&& forall|j: int|
        0 <= j < sources.len() ==> match #[trigger] sources[j] {
            Some(k) => source_ordinal(own, latest, j) == Some(k as int),
            None => source_ordinal(own, latest, j) is None,
        }
}

/// For each field ordinal of the schema, the id of the field that has it.
pub fn field_ids_by_ordinal(schema: &TskvTableSchema) -> (ids: Vec<Option<u32>>)
    ensures
        ids.len() == schema@.field_num(),
        forall|j: int| 0 <= j < ids.len() ==> #[trigger] ids[j] == field_id_at(schema@.columns, j),
{
    let n = schema.field_num();
    let ghost cols = schema@.columns;
    let mut ids: Vec<Option<u32>> = Vec::with_capacity(n);
    while ids.len() < n
        invariant
            ids.len() <= n,
            forall|j: int| 0 <= j < ids.len() ==> (#[trigger] ids[j]) is None,
        decreases n - ids.len(),
    {
        ids.push(None);
    }
    let mut i: usize = 0;
    while i < schema.columns.len()
        invariant
            i <= schema.columns.len(),
            cols == schema@.columns,
            ids.len() == n,
            n == field_count(cols, cols.len() as int),
            forall|j: int|
                0 <= j < n ==> match #[trigger] ids[j] {
                    Some(id) => field_ordinal(cols, id) == Some(j),
                    None => forall|k: int| 0 <= k < i ==> !ordinal_hit(cols, k, j),
                },
        decreases schema.columns.len() - i,
    {
        let c = &schema.columns[i];
        if c.column_type.is_field() {
            match schema.field_index(c.id) {
                Some(o) => {
                    ids[o] = Some(c.id);
                },
                None => {},
            }
        }
        i += 1;
    }
    assert forall|j: int| 0 <= j < ids.len() implies #[trigger] ids[j] == field_id_at(cols, j) by {
        match ids[j] {
            Some(id) => {
                let chosen = choose|c: u32| #[trigger] field_ordinal(cols, c) == Some(j);
                lemma_ordinal_injective(cols, id, chosen);
            },
            None => {
                if exists|id: u32| #[trigger] field_ordinal(cols, id) == Some(j) {
                    let id = choose|id: u32| #[trigger] field_ordinal(cols, id) == Some(j);
                    let k = choose|k: int|
                        0 <= k < cols.len() && #[trigger] is_field_with_id(cols[k], id);
                    assert(ordinal_hit(cols, k, j));
                }
            },
        }
    }
    ids
}

/// For each field ordinal of the latest schema, whose field ids are given
/// by ordinal, the ordinal of the same field under `own`.
pub fn ordinal_sources(own: &TskvTableSchema, latest_ids: &Vec<Option<u32>>) -> (sources: Vec<
    Option<usize>,
>)
    ensures
        sources.len() == latest_ids.len(),
        forall|j: int|
            0 <= j < sources.len() ==> match #[trigger] sources[j] {
                Some(k) => latest_ids[j] is Some && own@.field_index(latest_ids[j].unwrap())
                    == Some(k as int),
                None => latest_ids[j] is None || own@.field_index(latest_ids[j].unwrap()) is None,
            },
{
    let mut sources: Vec<Option<usize>> = Vec::with_capacity(latest_ids.len());
    let mut j: usize = 0;
    while j < latest_ids.len()
        invariant
            j <= latest_ids.len(),
            sources.len() == j,
            forall|t: int|
                0 <= t < j ==> match #[trigger] sources[t] {
                    Some(k) => latest_ids[t] is Some && own@.field_index(latest_ids[t].unwrap())
                        == Some(k as int),
                    None => latest_ids[t] is None || own@.field_index(latest_ids[t].unwrap())
                        is None,
                },
        decreases latest_ids.len() - j,
    {
        let source = match latest_ids[j] {
            Some(id) => own.field_index(id),
            None => None,
        };
        sources.push(source);
        j += 1;
    }
    sources
}

/// The sources computed from the two schemas are the ones the alignment is
/// defined by.
pub fn schema_sources(own: &TskvTableSchema, latest: &TskvTableSchema) -> (sources: Vec<
    Option<usize>,
>)
    ensures
        sources_for(sources@, own@.columns, latest@.columns),
{
    let ids = field_ids_by_ordinal(latest);
    ordinal_sources(own, &ids)
}

/// The value that the fields of a row hold for the ordinal `j`, where
/// `sources` names the ordinal that the row has it at.
pub open spec fn picked(
    fields: Seq<Option<FieldVal>>,
    sources: Seq<Option<usize>>,
    j: int,
) -> Option<FieldValView> {
    match sources[j] {
        Some(k) => if k < fields.len() {
            opt_view(fields[k as int])
        } else {
            None
        },
        None => None,
    }
}

/// The value that a row has for field ordinal `j` of the latest schema.
pub fn aligned_value(fields: &Vec<Option<FieldVal>>, sources: &Vec<Option<usize>>, j: usize) -> (v:
    Option<FieldVal>)
    requires
        j < sources.len(),
    ensures
        opt_view(v) == picked(fields@, sources@, j as int),
{
    match sources[j] {
        Some(k) => if k < fields.len() {
            duplicate_opt(&fields[k])
        } else {
            None
        },
        None => None,
    }
}

} // verus!
