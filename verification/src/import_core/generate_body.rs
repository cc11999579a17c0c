//! The request bodies built from the fields of spreadsheet rows.
use vstd::prelude::*;

use crate::keyed_map::KeyedMap;
use crate::schemas::api::pedido::ped_vend_req_body::{Itens, Nota, PedidoReqBody};
use crate::schemas::api::pedido::ped_vend_req_body::RequestBody as PedidoRequestBody;
use crate::schemas::api::save_record::save_record_schema::{
    DataRow, DataSet, Entity, Fieldset, RequestBody, SaveRecord,
};
use crate::schemas::spreedsheet_schema::CellValue;
use crate::text::{contains_char, drop_first_char, join, join_spec, texts};

verus! {

/// A field value as the ERP expects it: `{"$": text}`.
pub type ValueMap = Map<Seq<char>, Seq<char>>;

/// Field name to field value.
pub type FieldsMap = Map<Seq<char>, ValueMap>;

/// The cell holds a number or a text (the body builders cannot send a boolean).
pub open spec fn cell_typed(c: CellValue) -> bool {
    !(c is Bool)
}

/// Every cell among `tuples` holds a number or a text.
pub open spec fn cells_typed(tuples: Seq<(String, CellValue)>) -> bool {
    forall|i: int| 0 <= i < tuples.len() ==> #[trigger] cell_typed(tuples[i].1)
}

/// The text a number or text cell is sent as.
pub open spec fn cell_text(c: CellValue) -> Seq<char> {
    match c {
        CellValue::Number(s) => s@,
        CellValue::Text(s) => s@,
        CellValue::Bool(_) => Seq::empty(),
    }
}

/// `{"$": s}`.
pub open spec fn dollar(s: Seq<char>) -> ValueMap {
    Map::empty().insert("$"@, s)
}

/// The names of the fields, in order.
pub open spec fn field_names(tuples: Seq<(String, CellValue)>) -> Seq<Seq<char>> {
    tuples.map_values(|e: (String, CellValue)| e.0@)
}

/// The `localFields` of a generic record: each field name to `{"$": its text}`;
/// of two fields with one name, the later one counts.
pub open spec fn generic_fields(tuples: Seq<(String, CellValue)>) -> FieldsMap
    decreases tuples.len(),
{
    if tuples.len() == 0 {
        Map::empty()
    } else {
        generic_fields(tuples.drop_last()).insert(
            tuples.last().0@,
            dollar(cell_text(tuples.last().1)),
        )
    }
}

/// `body` is the `saveRecord` request that inserts the fields `tuples` into `entity`.
pub open spec fn is_generic_body(
    body: SaveRecord,
    tuples: Seq<(String, CellValue)>,
    entity: Seq<char>,
) -> bool {
    let data_set = body.request_body.data_set;
    &&& body.service_name@ == "CRUDServiceProvider.saveRecord"@
    &&& data_set.root_entity@ == entity
    &&& data_set.include_presentation_fields@ == "S"@
    &&& data_set.data_row.local_fields@ == Map::<Seq<char>, FieldsMap>::empty().insert(
        "localFields"@,
        generic_fields(tuples),
    )
    &&& data_set.entity.fieldset.list@ == join_spec(field_names(tuples), ","@)
}

/// The value an order field is sent with: `{"$": text}`, or `{}` for an empty text.
pub open spec fn order_value(c: CellValue) -> ValueMap {
    match c {
        CellValue::Number(s) => dollar(s@),
        CellValue::Text(s) => if s@.len() > 0 {
            dollar(s@)
        } else {
            Map::empty()
        },
        CellValue::Bool(_) => Map::empty(),
    }
}

/// A column name that holds `@` belongs to the order items; the others to its header.
pub open spec fn is_item_name(name: Seq<char>) -> bool {
    name.contains('@')
}

/// The item columns start with a one-byte character (their first character is dropped).
pub open spec fn order_names_ok(tuples: Seq<(String, CellValue)>) -> bool {
    forall|i: int|
        0 <= i < tuples.len() && is_item_name(#[trigger] tuples[i].0@) ==> (tuples[i].0@[0] as u32)
            < 128u32
}

/// The order header: each column without `@`, if its name is not empty, to its value.
pub open spec fn header_fields(tuples: Seq<(String, CellValue)>) -> FieldsMap
    decreases tuples.len(),
{
    if tuples.len() == 0 {
        Map::empty()
    } else {
        let rest = header_fields(tuples.drop_last());
        let name = tuples.last().0@;
        if !is_item_name(name) && name.len() > 0 {
            rest.insert(name, order_value(tuples.last().1))
        } else {
            rest
        }
    }
}

/// Adds the item being filled to the finished ones, unless it has no field.
pub open spec fn close_item(done: Seq<FieldsMap>, current: FieldsMap) -> Seq<FieldsMap> {
    if current.dom().len() > 0 {
        done.push(current)
    } else {
        done
    }
}

/// The finished items and the item being filled after the item columns of `tuples`:
/// a column `@x` sets field `x` of the current item; a column named `@` closes it.
pub open spec fn item_state(tuples: Seq<(String, CellValue)>) -> (Seq<FieldsMap>, FieldsMap)
    decreases tuples.len(),
{
    if tuples.len() == 0 {
        (Seq::empty(), Map::empty())
    } else {
        let (done, current) = item_state(tuples.drop_last());
        let name = tuples.last().0@;
        if !is_item_name(name) {
            (done, current)
        } else {
            let key = name.drop_first();
            let filled = if key.len() > 0 {
                current.insert(key, order_value(tuples.last().1))
            } else {
                current
            };
            if name == "@"@ {
                (close_item(done, filled), Map::empty())
            } else {
                (done, filled)
            }
        }
    }
}

/// The items of the order: the item columns split at each column named `@`,
/// every non-empty part one item.
pub open spec fn order_items(tuples: Seq<(String, CellValue)>) -> Seq<FieldsMap> {
    close_item(item_state(tuples).0, item_state(tuples).1)
}

/// The maps a list of items denotes.
pub open spec fn item_views(items: Seq<KeyedMap<KeyedMap<String>>>) -> Seq<FieldsMap> {
    items.map_values(|m: KeyedMap<KeyedMap<String>>| m@)
}

/// `body` is the `incluirNota` request that creates the order `tuples` describes.
pub open spec fn is_pedido_body(body: PedidoReqBody, tuples: Seq<(String, CellValue)>) -> bool {
    let nota = body.request_body.nota;
    &&& body.service_name@ == "CACSP.incluirNota"@
    &&& nota.cabecalho@ == header_fields(tuples)
    &&& nota.itens.informarpreco@ == "False"@
    &&& item_views(nota.itens.item@) == order_items(tuples)
}

/// A generic record sends exactly the columns of its row: the keys of its
/// `localFields` are the names of the fields, each of them.
pub proof fn law_generic_fields_are_the_columns(tuples: Seq<(String, CellValue)>)
    ensures
        generic_fields(tuples).dom() == field_names(tuples).to_set(),
    decreases tuples.len(),
{
    if tuples.len() > 0 {
        let init = tuples.drop_last();
        law_generic_fields_are_the_columns(init);
        assert(field_names(tuples) =~= field_names(init).push(tuples.last().0@));
        field_names(init).lemma_push_to_set_commute(tuples.last().0@);
        assert(generic_fields(tuples).dom() =~= generic_fields(init).dom().insert(tuples.last().0@));
    }
}

/// The header of an order holds exactly the columns whose name is not empty
/// and holds no `@`.
pub proof fn law_header_is_the_plain_columns(tuples: Seq<(String, CellValue)>)
    ensures
        forall|name: Seq<char>|
            #[trigger] header_fields(tuples).dom().contains(name) <==> exists|i: int|
                0 <= i < tuples.len() && #[trigger] tuples[i].0@ == name && !is_item_name(name)
                    && name.len() > 0,
    decreases tuples.len(),
{
    if tuples.len() > 0 {
        let init = tuples.drop_last();
        law_header_is_the_plain_columns(init);
        assert forall|name: Seq<char>|
            #[trigger] header_fields(tuples).dom().contains(name) <==> exists|i: int|
                0 <= i < tuples.len() && #[trigger] tuples[i].0@ == name && !is_item_name(name)
                    && name.len() > 0 by {
            if header_fields(init).dom().contains(name) {
                let i = choose|i: int|
                    0 <= i < init.len() && #[trigger] init[i].0@ == name && !is_item_name(name)
                        && name.len() > 0;
                assert(tuples[i] == init[i]);
            }
            if exists|i: int|
                0 <= i < tuples.len() && #[trigger] tuples[i].0@ == name && !is_item_name(name)
                    && name.len() > 0 {
                let i = choose|i: int|
                    0 <= i < tuples.len() && #[trigger] tuples[i].0@ == name && !is_item_name(name)
                        && name.len() > 0;
                if i < init.len() {
                    assert(init[i] == tuples[i]);
                }
            }
        }
    }
}

/// The item columns of `tuples` (those whose name holds `@`), in order.
pub open spec fn item_columns(tuples: Seq<(String, CellValue)>) -> Seq<(String, CellValue)>
    decreases tuples.len(),
{
    if tuples.len() == 0 {
        Seq::empty()
    } else if is_item_name(tuples.last().0@) {
        item_columns(tuples.drop_last()).push(tuples.last())
    } else {
        item_columns(tuples.drop_last())
    }
}

/// The header columns of `tuples` (those whose name holds no `@`), in order.
pub open spec fn header_columns(tuples: Seq<(String, CellValue)>) -> Seq<(String, CellValue)>
    decreases tuples.len(),
{
    if tuples.len() == 0 {
        Seq::empty()
    } else if is_item_name(tuples.last().0@) {
        header_columns(tuples.drop_last())
    } else {
        header_columns(tuples.drop_last()).push(tuples.last())
    }
}

/// The items are read from the item columns alone.
proof fn lemma_items_from_item_columns(tuples: Seq<(String, CellValue)>)
    ensures
        item_state(tuples) == item_state(item_columns(tuples)),
    decreases tuples.len(),
{
    if tuples.len() > 0 {
        let init = tuples.drop_last();
        lemma_items_from_item_columns(init);
        if is_item_name(tuples.last().0@) {
            assert(item_columns(tuples).drop_last() =~= item_columns(init));
        }
    }
}

/// The header is read from the header columns alone.
proof fn lemma_header_from_header_columns(tuples: Seq<(String, CellValue)>)
    ensures
        header_fields(tuples) == header_fields(header_columns(tuples)),
    decreases tuples.len(),
{
    if tuples.len() > 0 {
        let init = tuples.drop_last();
        lemma_header_from_header_columns(init);
        if !is_item_name(tuples.last().0@) {
            assert(header_columns(tuples).drop_last() =~= header_columns(init));
        }
    }
}

/// How item columns and header columns are interleaved does not matter: two
/// rows with the same item columns in the same order and the same header
/// columns in the same order describe the same order, and an order body is
/// right for one exactly when it is right for the other.
pub proof fn law_order_ignores_column_interleaving(
    t1: Seq<(String, CellValue)>,
    t2: Seq<(String, CellValue)>,
)
    requires
        item_columns(t1) == item_columns(t2),
        header_columns(t1) == header_columns(t2),
    ensures
        header_fields(t1) == header_fields(t2),
        order_items(t1) == order_items(t2),
        forall|body: PedidoReqBody| is_pedido_body(body, t1) <==> is_pedido_body(body, t2),
{
    lemma_items_from_item_columns(t1);
    lemma_items_from_item_columns(t2);
    lemma_header_from_header_columns(t1);
    lemma_header_from_header_columns(t2);
}

/// The item fields of `tuples`: the names of its `@` columns without their first character.
pub open spec fn is_item_field_of(tuples: Seq<(String, CellValue)>, key: Seq<char>) -> bool {
    exists|i: int|
        0 <= i < tuples.len() && is_item_name(#[trigger] tuples[i].0@) && tuples[i].0@.drop_first()
            == key
}

/// Every item holds some field, and every field of an item comes from an `@`
/// column of the rows.
pub proof fn law_items_come_from_item_columns(tuples: Seq<(String, CellValue)>)
    ensures
        forall|j: int|
            0 <= j < order_items(tuples).len() ==> (#[trigger] order_items(tuples)[j]).dom().len() > 0,
        forall|j: int, key: Seq<char>|
            #![trigger order_items(tuples)[j].dom().contains(key)]
            0 <= j < order_items(tuples).len() && order_items(tuples)[j].dom().contains(key)
                ==> is_item_field_of(tuples, key),
{
    lemma_item_state(tuples);
    let (done, current) = item_state(tuples);
    let items = order_items(tuples);
    assert forall|j: int| 0 <= j < items.len() implies (#[trigger] items[j]).dom().len() > 0 by {
        if j < done.len() {
            assert(items[j] == done[j]);
        }
    }
    assert forall|j: int, key: Seq<char>|
        #![trigger items[j].dom().contains(key)]
        0 <= j < items.len() && items[j].dom().contains(key) implies is_item_field_of(tuples, key) by {
        if j < done.len() {
            assert(items[j] == done[j]);
        }
    }
}

/// What `item_state` keeps at every step: the finished items are not empty, and
/// each field of an item, finished or current, comes from an `@` column.
proof fn lemma_item_state(tuples: Seq<(String, CellValue)>)
    ensures
        forall|j: int|
            0 <= j < item_state(tuples).0.len() ==> (#[trigger] item_state(tuples).0[j]).dom().len() > 0,
        forall|j: int, key: Seq<char>|
            #![trigger item_state(tuples).0[j].dom().contains(key)]
            0 <= j < item_state(tuples).0.len() && item_state(tuples).0[j].dom().contains(key)
                ==> is_item_field_of(tuples, key),
        forall|key: Seq<char>|
            #[trigger] item_state(tuples).1.dom().contains(key) ==> is_item_field_of(tuples, key),
    decreases tuples.len(),
{
    if tuples.len() > 0 {
        let init = tuples.drop_last();
        lemma_item_state(init);
        assert forall|key: Seq<char>| is_item_field_of(init, key) implies is_item_field_of(tuples, key) by {
            let i = choose|i: int|
                0 <= i < init.len() && is_item_name(#[trigger] init[i].0@) && init[i].0@.drop_first() == key;
            assert(tuples[i] == init[i]);
        }
        let last = tuples.len() - 1;
        assert(tuples[last] == tuples.last());
        let (done, current) = item_state(init);
        let name = tuples.last().0@;
        if is_item_name(name) {
            let key = name.drop_first();
            assert(is_item_field_of(tuples, key) || key.len() == 0) by {
                assert(is_item_name(tuples[last].0@));
            }
        }
    }
}

/// `{"$": text}` for a generic record field.
fn generic_value(cell: &CellValue) -> (res: KeyedMap<String>)
    requires
        cell_typed(*cell),
    ensures
        res@ == dollar(cell_text(*cell)),
{
    let mut v = KeyedMap::new();
    match cell {
        CellValue::Number(s) => v.insert(String::from_str("$"), s.clone()),
        CellValue::Text(s) => v.insert(String::from_str("$"), s.clone()),
        CellValue::Bool(_) => {},
    }
    v
}

/// The value of an order field: `{"$": text}`, or `{}` for an empty text.
fn order_value_of(cell: &CellValue) -> (res: KeyedMap<String>)
    requires
        cell_typed(*cell),
    ensures
        res@ == order_value(*cell),
{
    let mut v = KeyedMap::new();
    match cell {
        CellValue::Number(s) => v.insert(String::from_str("$"), s.clone()),
        CellValue::Text(s) => {
            if !s.as_str().is_empty() {
                v.insert(String::from_str("$"), s.clone());
            }
        },
        CellValue::Bool(_) => {},
    }
    v
}

/// The `saveRecord` request that inserts the fields `tuples` (name and cell)
/// as one record of `entity`.
pub fn generate_body_generic(tuples: &Vec<(String, CellValue)>, entity: String) -> (res:
    SaveRecord)
    requires
        cells_typed(tuples@),
    ensures
        is_generic_body(res, tuples@, entity@),
{
    let mut h: KeyedMap<KeyedMap<String>> = KeyedMap::new();
    let mut fields: Vec<String> = Vec::new();
    let n = tuples.len();
    let mut i: usize = 0;
    while i < n
        invariant
            n == tuples@.len(),
            i <= n,
            cells_typed(tuples@),
            h@ == generic_fields(tuples@.take(i as int)),
            texts(fields@) == field_names(tuples@.take(i as int)),
        decreases n - i,
    {
        let ghost done = tuples@.take(i as int);
        let ghost next = tuples@.take(i + 1);
        assert(next.drop_last() =~= done);
        assert(cell_typed(tuples@[i as int].1));
        let ghost old_fields = fields@;
        let name = tuples[i].0.clone();
        fields.push(name.clone());
        let v = generic_value(&tuples[i].1);
        h.insert(name, v);
        assert(fields@ == old_fields.push(tuples@[i as int].0));
        assert(texts(fields@) =~= texts(old_fields).push(tuples@[i as int].0@));
        assert(field_names(next) =~= field_names(done).push(tuples@[i as int].0@));
        i = i + 1;
    }
    assert(tuples@.take(n as int) =~= tuples@);
    let mut local_fields: KeyedMap<KeyedMap<KeyedMap<String>>> = KeyedMap::new();
    local_fields.insert(String::from_str("localFields"), h);
    let list = join(&fields, ",");
    SaveRecord {
        service_name: String::from_str("CRUDServiceProvider.saveRecord"),
        request_body: RequestBody {
            data_set: DataSet {
                root_entity: entity,
                include_presentation_fields: String::from_str("S"),
                data_row: DataRow { local_fields },
                entity: Entity { fieldset: Fieldset { list } },
            },
        },
    }
}

/// The `incluirNota` request for one order. The columns whose name holds `@`
/// describe the items: `@x` is field `x` of the current item and a column named
/// `@` closes the item; the other columns with a name form the order header.
pub fn generate_body_pedido(tuples: &Vec<(String, CellValue)>) -> (res: PedidoReqBody)
    requires
        cells_typed(tuples@),
        order_names_ok(tuples@),
    ensures
        is_pedido_body(res, tuples@),
{
    let mut itens: Vec<KeyedMap<KeyedMap<String>>> = Vec::new();
    let mut item_fields: KeyedMap<KeyedMap<String>> = KeyedMap::new();
    let n = tuples.len();
    let mut i: usize = 0;
    while i < n
        invariant
            n == tuples@.len(),
            i <= n,
            cells_typed(tuples@),
            item_views(itens@) == item_state(tuples@.take(i as int)).0,
            item_fields@ == item_state(tuples@.take(i as int)).1,
        decreases n - i,
    {
        let ghost done = tuples@.take(i as int);
        let ghost next = tuples@.take(i + 1);
        assert(next.drop_last() =~= done);
        assert(cell_typed(tuples@[i as int].1));
        let name = &tuples[i].0;
        if contains_char(name.as_str(), '@') {
            let key = drop_first_char(name.as_str());
            if !key.as_str().is_empty() {
                let v = order_value_of(&tuples[i].1);
                item_fields.insert(key, v);
            }
            if *name == String::from_str("@") {
                let mut finished = KeyedMap::new();
                std::mem::swap(&mut finished, &mut item_fields);
                if finished.len() > 0 {
                    itens.push(finished);
                }
                assert(item_views(itens@) =~= item_state(next).0);
            }
        }
        i = i + 1;
    }
    assert(tuples@.take(n as int) =~= tuples@);
    let mut finished = KeyedMap::new();
    std::mem::swap(&mut finished, &mut item_fields);
    if finished.len() > 0 {
        itens.push(finished);
    }
    assert(item_views(itens@) =~= order_items(tuples@));

    let mut cab_hash: KeyedMap<KeyedMap<String>> = KeyedMap::new();
    let mut j: usize = 0;
    while j < n
        invariant
            n == tuples@.len(),
            j <= n,
            cells_typed(tuples@),
            cab_hash@ == header_fields(tuples@.take(j as int)),
        decreases n - j,
    {
        let ghost done = tuples@.take(j as int);
        let ghost next = tuples@.take(j + 1);
        assert(next.drop_last() =~= done);
        assert(cell_typed(tuples@[j as int].1));
        let name = &tuples[j].0;
        if !contains_char(name.as_str(), '@') && !name.as_str().is_empty() {
            let v = order_value_of(&tuples[j].1);
            cab_hash.insert(name.clone(), v);
        }
        j = j + 1;
    }
    assert(tuples@.take(n as int) =~= tuples@);
    PedidoReqBody {
        service_name: String::from_str("CACSP.incluirNota"),
        request_body: PedidoRequestBody {
            nota: Nota {
                cabecalho: cab_hash,
                itens: Itens { informarpreco: String::from_str("False"), item: itens },
            },
        },
    }
}

} // verus!
