//! What the request bodies hold, stated field by field in terms of the row's
//! cells.
use vstd::prelude::*;

use crate::import_core::generate_body::{
    close_item, generic_fields, header_fields, is_generic_body, is_item_name, is_pedido_body,
    item_state, item_views, order_items, order_value, FieldsMap, ValueMap,
};
use crate::schemas::api::pedido::ped_vend_req_body::PedidoReqBody;
use crate::schemas::api::save_record::save_record_schema::SaveRecord;
use crate::schemas::spreedsheet_schema::CellValue;

verus! {

/// No field after position `i` has the name of field `i`: it is the one that counts.
pub open spec fn is_last_of_its_name(tuples: Seq<(String, CellValue)>, i: int) -> bool {
    &&& 0 <= i < tuples.len()
    &&& forall|j: int| i < j < tuples.len() ==> tuples[j].0@ != tuples[i].0@
}

/// The value `{"$": s}` for the text `s`.
pub open spec fn text_value(s: Seq<char>) -> ValueMap {
    Map::<Seq<char>, Seq<char>>::empty().insert("$"@, s)
}

/// `value` is what an order sends for `cell`: a number or a non-empty text as
/// `{"$": text}` with the text as the cell holds it, an empty text as `{}`.
pub open spec fn order_sends(value: ValueMap, cell: CellValue) -> bool {
    match cell {
        CellValue::Number(s) => value == text_value(s@),
        CellValue::Text(s) => if s@.len() > 0 {
            value == text_value(s@)
        } else {
            value == Map::<Seq<char>, Seq<char>>::empty()
        },
        CellValue::Bool(_) => true,
    }
}

/// A generic record sends each field with the text its cell holds, unchanged:
/// `localFields[name] == {"$": text}` for the last field of each name.
pub proof fn law_generic_values_are_the_cells(tuples: Seq<(String, CellValue)>, i: int)
    requires
        is_last_of_its_name(tuples, i),
    ensures
        generic_fields(tuples).dom().contains(tuples[i].0@),
        tuples[i].1 matches CellValue::Number(s) ==> generic_fields(tuples)[tuples[i].0@]
            == text_value(s@),
        tuples[i].1 matches CellValue::Text(s) ==> generic_fields(tuples)[tuples[i].0@]
            == text_value(s@),
    decreases tuples.len(),
{
    let init = tuples.drop_last();
    if i < tuples.len() - 1 {
        assert(init[i] == tuples[i]);
        assert forall|j: int| i < j < init.len() implies init[j].0@ != init[i].0@ by {
            assert(init[j] == tuples[j]);
        }
        law_generic_values_are_the_cells(init, i);
        assert(tuples.last().0@ != tuples[i].0@);
    }
}

/// An order header sends each of its columns with the value its cell holds:
/// a number or non-empty text as `{"$": text}`, an empty text as `{}`.
pub proof fn law_header_values_are_the_cells(tuples: Seq<(String, CellValue)>, i: int)
    requires
        is_last_of_its_name(tuples, i),
        !is_item_name(tuples[i].0@),
        tuples[i].0@.len() > 0,
    ensures
        header_fields(tuples).dom().contains(tuples[i].0@),
        order_sends(header_fields(tuples)[tuples[i].0@], tuples[i].1),
    decreases tuples.len(),
{
    let init = tuples.drop_last();
    if i < tuples.len() - 1 {
        assert(init[i] == tuples[i]);
        assert forall|j: int| i < j < init.len() implies init[j].0@ != init[i].0@ by {
            assert(init[j] == tuples[j]);
        }
        law_header_values_are_the_cells(init, i);
        assert(tuples.last().0@ != tuples[i].0@);
    }
}

/// A `saveRecord` body for a row: the service, the entity, the presentation
/// flag, and `localFields` as the one key of the data row, holding the row's fields.
pub proof fn law_generic_body_shape(body: SaveRecord, tuples: Seq<(String, CellValue)>, entity: Seq<char>)
    requires
        is_generic_body(body, tuples, entity),
    ensures
        body.service_name@ == "CRUDServiceProvider.saveRecord"@,
        body.request_body.data_set.root_entity@ == entity,
        body.request_body.data_set.include_presentation_fields@ == "S"@,
        body.request_body.data_set.data_row.local_fields@.dom() == Set::<Seq<char>>::empty().insert(
            "localFields"@,
        ),
        body.request_body.data_set.data_row.local_fields@["localFields"@] == generic_fields(tuples),
{
    assert(body.request_body.data_set.data_row.local_fields@.dom() =~= Set::<Seq<char>>::empty().insert(
        "localFields"@,
    ));
}

/// The field list of a record names its fields in order, separated by commas:
/// it is empty for no field, the name for one field, and one more field adds
/// a comma and its name.
pub proof fn law_field_list(
    b1: SaveRecord,
    b2: SaveRecord,
    tuples: Seq<(String, CellValue)>,
    field: (String, CellValue),
    entity: Seq<char>,
)
    requires
        is_generic_body(b1, tuples, entity),
        is_generic_body(b2, tuples.push(field), entity),
    ensures
        tuples.len() == 0 ==> b1.request_body.data_set.entity.fieldset.list@ == Seq::<char>::empty(),
        tuples.len() == 0 ==> b2.request_body.data_set.entity.fieldset.list@ == field.0@,
        tuples.len() > 0 ==> b2.request_body.data_set.entity.fieldset.list@
            == b1.request_body.data_set.entity.fieldset.list@ + ","@ + field.0@,
{
    let names1 = tuples.map_values(|e: (String, CellValue)| e.0@);
    let names2 = tuples.push(field).map_values(|e: (String, CellValue)| e.0@);
    assert(names2.drop_last() =~= names1);
    assert(names2.last() == field.0@);
    if tuples.len() == 0 {
        assert(names1.len() == 0);
        assert(names2.len() == 1);
    }
}

/// An `incluirNota` body for an order: the service, the price flag, the header
/// and the items.
pub proof fn law_pedido_body_shape(body: PedidoReqBody, tuples: Seq<(String, CellValue)>)
    requires
        is_pedido_body(body, tuples),
    ensures
        body.service_name@ == "CACSP.incluirNota"@,
        body.request_body.nota.itens.informarpreco@ == "False"@,
        body.request_body.nota.cabecalho@ == header_fields(tuples),
        item_views(body.request_body.nota.itens.item@) == order_items(tuples),
{
}

/// `value` is what an order sends for some item column of `tuples` whose field is `key`.
pub open spec fn is_item_value_of(tuples: Seq<(String, CellValue)>, key: Seq<char>, value: ValueMap) -> bool {
    exists|i: int|
        0 <= i < tuples.len() && is_item_name(#[trigger] tuples[i].0@) && tuples[i].0@.drop_first()
            == key && order_sends(value, tuples[i].1)
}

/// Some column after position `i` is named `@`.
pub open spec fn closed_after(tuples: Seq<(String, CellValue)>, i: int) -> bool {
    exists|j: int| i < j < tuples.len() && #[trigger] tuples[j].0@ == "@"@
}

/// Item column `i` sets a field (its name is more than the `@`).
pub open spec fn sets_item_field(tuples: Seq<(String, CellValue)>, i: int) -> bool {
    &&& 0 <= i < tuples.len()
    &&& is_item_name(tuples[i].0@)
    &&& tuples[i].0@.drop_first().len() > 0
}

proof fn lemma_order_value_sends(c: CellValue)
    ensures
        order_sends(order_value(c), c),
{
}

/// What `item_state` keeps: every field value of an item comes from an item
/// column with that field and is that column's value; every item column that
/// sets a field has it in a finished item when a `@` column followed it, else
/// in the current item.
proof fn lemma_item_state_values(tuples: Seq<(String, CellValue)>)
    ensures
        item_state(tuples).1.dom().finite(),
        forall|j: int, key: Seq<char>|
            #![trigger item_state(tuples).0[j].dom().contains(key)]
            0 <= j < item_state(tuples).0.len() && item_state(tuples).0[j].dom().contains(key)
                ==> is_item_value_of(tuples, key, item_state(tuples).0[j][key]),
        forall|key: Seq<char>|
            #[trigger] item_state(tuples).1.dom().contains(key) ==> is_item_value_of(
                tuples,
                key,
                item_state(tuples).1[key],
            ),
        forall|i: int|
            #[trigger] sets_item_field(tuples, i) ==> if closed_after(tuples, i) {
                exists|j: int|
                    0 <= j < item_state(tuples).0.len() && #[trigger] item_state(tuples).0[j].dom().contains(
                        tuples[i].0@.drop_first(),
                    )
            } else {
                item_state(tuples).1.dom().contains(tuples[i].0@.drop_first())
            },
    decreases tuples.len(),
{
    reveal_strlit("@");
    if tuples.len() > 0 {
        let init = tuples.drop_last();
        lemma_item_state_values(init);
        let n = tuples.len() - 1;
        let e = tuples[n];
        assert(e == tuples.last());
        let (d, c) = item_state(init);
        let (d2, c2) = item_state(tuples);
        assert forall|key: Seq<char>, v: ValueMap| is_item_value_of(init, key, v) implies is_item_value_of(
            tuples,
            key,
            v,
        ) by {
            let i = choose|i: int|
                0 <= i < init.len() && is_item_name(#[trigger] init[i].0@) && init[i].0@.drop_first()
                    == key && order_sends(v, init[i].1);
            assert(tuples[i] == init[i]);
        }
        assert forall|i: int| 0 <= i < n implies #[trigger] sets_item_field(init, i) == sets_item_field(
            tuples,
            i,
        ) by {
            assert(init[i] == tuples[i]);
        }
        assert(("@"@).contains('@')) by {
            assert(("@"@)[0] == '@');
        }
        if !is_item_name(e.0@) {
            assert(e.0@ != "@"@);
            assert forall|i: int| 0 <= i < n implies closed_after(tuples, i) == closed_after(init, i) by {
                if closed_after(tuples, i) {
                    let j = choose|j: int| i < j < tuples.len() && #[trigger] tuples[j].0@ == "@"@;
                    assert(j < n);
                    assert(init[j] == tuples[j]);
                }
                if closed_after(init, i) {
                    let j = choose|j: int| i < j < init.len() && #[trigger] init[j].0@ == "@"@;
                    assert(init[j] == tuples[j]);
                }
            }
            assert(!sets_item_field(tuples, n));
            assert(d2 == d && c2 == c);
            assert forall|i: int| #[trigger] sets_item_field(tuples, i) implies (if closed_after(tuples, i) {
                exists|j: int| 0 <= j < d2.len() && #[trigger] d2[j].dom().contains(tuples[i].0@.drop_first())
            } else {
                c2.dom().contains(tuples[i].0@.drop_first())
            }) by {
                assert(i < n);
                assert(sets_item_field(init, i));
                assert(init[i] == tuples[i]);
            }
        } else {
            let key = e.0@.drop_first();
            let filled = if key.len() > 0 {
                c.insert(key, order_value(e.1))
            } else {
                c
            };
            if key.len() > 0 {
                lemma_order_value_sends(e.1);
                assert(is_item_value_of(tuples, key, order_value(e.1))) by {
                    assert(is_item_name(tuples[n].0@));
                }
            }
            assert forall|k: Seq<char>| #[trigger] filled.dom().contains(k) implies is_item_value_of(
                tuples,
                k,
                filled[k],
            ) by {
                if key.len() > 0 && k == key {
                } else {
                    assert(c.dom().contains(k));
                }
            }
            if e.0@ == "@"@ {
                assert(key.len() == 0);
                assert(d2 == close_item(d, filled));
                assert forall|i: int| 0 <= i < n implies closed_after(tuples, i) by {
                    assert(tuples[n].0@ == "@"@);
                }
                assert forall|j: int, k: Seq<char>|
                    #![trigger d2[j].dom().contains(k)]
                    0 <= j < d2.len() && d2[j].dom().contains(k) implies is_item_value_of(tuples, k, d2[j][k]) by {
                    if j < d.len() {
                        assert(d2[j] == d[j]);
                    } else {
                        assert(d2[j] == filled);
                    }
                }
                assert forall|i: int| #[trigger] sets_item_field(tuples, i) implies exists|j: int|
                    0 <= j < d2.len() && #[trigger] d2[j].dom().contains(tuples[i].0@.drop_first()) by {
                    assert(i < n);
                    assert(sets_item_field(init, i));
                    let k = tuples[i].0@.drop_first();
                    assert(init[i] == tuples[i]);
                    if closed_after(init, i) {
                        let j = choose|j: int| 0 <= j < d.len() && #[trigger] d[j].dom().contains(k);
                        assert(d2[j] == d[j]);
                    } else {
                        assert(c.dom().contains(k));
                        assert(c.dom().len() > 0) by {
                            vstd::set::axiom_set_contains_len(c.dom(), k);
                        }
                        assert(d2[d.len() as int] == c);
                    }
                }
                assert forall|i: int| #[trigger] sets_item_field(tuples, i) implies (if closed_after(tuples, i) {
                    exists|j: int| 0 <= j < d2.len() && #[trigger] d2[j].dom().contains(tuples[i].0@.drop_first())
                } else {
                    c2.dom().contains(tuples[i].0@.drop_first())
                }) by {
                    assert(i < n);
                    assert(closed_after(tuples, i));
                }
            } else {
                assert(d2 == d && c2 == filled);
                assert forall|i: int| 0 <= i < n implies closed_after(tuples, i) == closed_after(init, i) by {
                    if closed_after(tuples, i) {
                        let j = choose|j: int| i < j < tuples.len() && #[trigger] tuples[j].0@ == "@"@;
                        assert(j < n);
                        assert(init[j] == tuples[j]);
                    }
                    if closed_after(init, i) {
                        let j = choose|j: int| i < j < init.len() && #[trigger] init[j].0@ == "@"@;
                        assert(init[j] == tuples[j]);
                    }
                }
                assert forall|j: int, k: Seq<char>|
                    #![trigger d2[j].dom().contains(k)]
                    0 <= j < d2.len() && d2[j].dom().contains(k) implies is_item_value_of(tuples, k, d2[j][k]) by {
                    assert(d2[j] == d[j]);
                }
                assert forall|i: int| #[trigger] sets_item_field(tuples, i) implies (if closed_after(tuples, i) {
                    exists|j: int| 0 <= j < d2.len() && #[trigger] d2[j].dom().contains(tuples[i].0@.drop_first())
                } else {
                    c2.dom().contains(tuples[i].0@.drop_first())
                }) by {
                    if i < n {
                        assert(sets_item_field(init, i));
                        assert(init[i] == tuples[i]);
                        if closed_after(init, i) {
                            let k = tuples[i].0@.drop_first();
                            let j = choose|j: int| 0 <= j < d.len() && #[trigger] d[j].dom().contains(k);
                            assert(d2[j] == d[j]);
                        }
                    } else {
                        assert(!closed_after(tuples, i));
                    }
                }
            }
        }
    }
}

/// Every item of an order holds, for each of its fields, the value an item
/// column of that field has (a number or non-empty text as `{"$": text}`, an
/// empty text as `{}`), and every item column that sets a field has that field
/// in some item: no item field is lost or changed.
pub proof fn law_item_values_are_the_cells(tuples: Seq<(String, CellValue)>)
    ensures
        forall|j: int, key: Seq<char>|
            #![trigger order_items(tuples)[j].dom().contains(key)]
            0 <= j < order_items(tuples).len() && order_items(tuples)[j].dom().contains(key)
                ==> is_item_value_of(tuples, key, order_items(tuples)[j][key]),
        forall|i: int|
            #[trigger] sets_item_field(tuples, i) ==> exists|j: int|
                0 <= j < order_items(tuples).len() && #[trigger] order_items(tuples)[j].dom().contains(
                    tuples[i].0@.drop_first(),
                ),
{
    lemma_item_state_values(tuples);
    let (d, c) = item_state(tuples);
    let items = order_items(tuples);
    assert forall|j: int, key: Seq<char>|
        #![trigger items[j].dom().contains(key)]
        0 <= j < items.len() && items[j].dom().contains(key) implies is_item_value_of(tuples, key, items[j][key]) by {
        if j < d.len() {
            assert(items[j] == d[j]);
        } else {
            assert(items[j] == c);
        }
    }
    assert forall|i: int| #[trigger] sets_item_field(tuples, i) implies exists|j: int|
        0 <= j < items.len() && #[trigger] items[j].dom().contains(tuples[i].0@.drop_first()) by {
        let k = tuples[i].0@.drop_first();
        if closed_after(tuples, i) {
            let j = choose|j: int| 0 <= j < d.len() && #[trigger] d[j].dom().contains(k);
            assert(items[j] == d[j]);
        } else {
            assert(c.dom().contains(k));
            vstd::set::axiom_set_contains_len(c.dom(), k);
            assert(items[d.len() as int] == c);
        }
    }
}

/// The item state after `t1`, a column named `@`, and `t2`: the items of `t1`
/// are finished, and `t2` goes on from there as it would alone.
proof fn lemma_item_state_after_separator(
    t1: Seq<(String, CellValue)>,
    sep: (String, CellValue),
    t2: Seq<(String, CellValue)>,
)
    requires
        sep.0@ == "@"@,
    ensures
        item_state(t1 + seq![sep] + t2) == (order_items(t1) + item_state(t2).0, item_state(t2).1),
    decreases t2.len(),
{
    reveal_strlit("@");
    assert(("@"@).contains('@')) by {
        assert(("@"@)[0] == '@');
    }
    let whole = t1 + seq![sep] + t2;
    if t2.len() == 0 {
        assert(whole.drop_last() =~= t1);
        assert(whole.last() == sep);
        assert(sep.0@.drop_first().len() == 0);
        assert(item_state(t2).0 =~= Seq::<FieldsMap>::empty());
        assert(order_items(t1) + item_state(t2).0 =~= order_items(t1));
    } else {
        let init = t2.drop_last();
        lemma_item_state_after_separator(t1, sep, init);
        assert(whole.drop_last() =~= t1 + seq![sep] + init);
        assert(whole.last() == t2.last());
        let p = order_items(t1);
        let (d, c) = item_state(init);
        let e = t2.last();
        if is_item_name(e.0@) {
            let key = e.0@.drop_first();
            let filled = if key.len() > 0 {
                c.insert(key, order_value(e.1))
            } else {
                c
            };
            if e.0@ == "@"@ {
                assert(close_item(p + d, filled) =~= p + close_item(d, filled));
            }
        }
    }
}

/// A column named `@` separates items: the items of `t1`, a column `@`, then
/// `t2` are the items of `t1` followed by the items of `t2`.
pub proof fn law_separator_splits_items(
    t1: Seq<(String, CellValue)>,
    sep: (String, CellValue),
    t2: Seq<(String, CellValue)>,
)
    requires
        sep.0@ == "@"@,
    ensures
        order_items(t1 + seq![sep] + t2) == order_items(t1) + order_items(t2),
{
    lemma_item_state_after_separator(t1, sep, t2);
    let (d, c) = item_state(t2);
    assert(close_item(order_items(t1) + d, c) =~= order_items(t1) + close_item(d, c));
}

/// Without a column named `@` no item is finished before the end.
proof fn lemma_no_separator_no_finished_item(tuples: Seq<(String, CellValue)>)
    requires
        forall|i: int| 0 <= i < tuples.len() ==> #[trigger] tuples[i].0@ != "@"@,
    ensures
        item_state(tuples).0.len() == 0,
    decreases tuples.len(),
{
    if tuples.len() > 0 {
        let init = tuples.drop_last();
        assert forall|i: int| 0 <= i < init.len() implies #[trigger] init[i].0@ != "@"@ by {
            assert(init[i] == tuples[i]);
        }
        lemma_no_separator_no_finished_item(init);
        assert(tuples[tuples.len() - 1] == tuples.last());
    }
}

/// Without a column named `@` all item columns make one item (or none, when
/// they set no field).
pub proof fn law_no_separator_one_item(tuples: Seq<(String, CellValue)>)
    requires
        forall|i: int| 0 <= i < tuples.len() ==> #[trigger] tuples[i].0@ != "@"@,
    ensures
        order_items(tuples).len() <= 1,
{
    lemma_no_separator_no_finished_item(tuples);
}

} // verus!
