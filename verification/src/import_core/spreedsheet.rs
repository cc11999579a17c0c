//! The spreadsheet worker: from the rows of an import file to the request
//! bodies, one per row for a generic entity, one per order for orders.
use vstd::prelude::*;

use crate::import_core::csv_reader::{csv_table, read_csv_table};
use crate::import_core::generate_body::{
    cell_text, cells_typed, generate_body_generic, generate_body_pedido, is_generic_body,
    is_pedido_body, order_names_ok,
};
use crate::schemas::api::pedido::ped_vend_req_body::PedidoReqBody;
use crate::schemas::api::save_record::save_record_schema::SaveRecord;
use crate::schemas::spreedsheet_schema::{CellValue, Spreedsheet};
use crate::text::{contains_string, texts};

verus! {

/// The kind of records an import file holds.
#[derive(PartialEq, Eq, Structural, Debug, Clone, Copy)]
pub enum Types {
    /// One record of the configured entity per row.
    GENERIC,
    /// Sales orders, whose rows are grouped by the order identifier in column `@`.
    PEDIDO,
}

/// An import job: the file to read, the entity its rows go to and their kind.
pub struct SpreedsheetWorker {
    pub csv_path: String,
    pub entity: String,
    pub types: Types,
}

/// How many header fields and how many data rows an import file has.
#[derive(Debug, Clone, Copy, PartialEq, Eq, Structural)]
pub struct CountResult {
    pub headers_count: i64,
    pub rows_count: i64,
}

/// The field delimiter of the import files.
pub const DELIMITER: u8 = 59u8;

/// `n`, or the largest `i64` if `n` is larger.
pub open spec fn saturated(n: nat) -> i64 {
    if n <= i64::MAX {
        n as i64
    } else {
        i64::MAX
    }
}

/// The count of a file whose CSV text is `data`: `None` when its header row
/// cannot be read, else the number of header fields and of records.
pub open spec fn count_of(data: Seq<u8>) -> Option<CountResult> {
    let (headers, records) = csv_table(data, DELIMITER, true);
    match headers {
        None => None,
        Some(h) => Some(CountResult { headers_count: saturated(h.len()), rows_count: saturated(records.len()) }),
    }
}

/// The cell of the first field named `@` (the order identifier).
pub open spec fn id_cell(fields: Seq<(String, CellValue)>) -> Option<CellValue>
    decreases fields.len(),
{
    if fields.len() == 0 {
        None
    } else if fields[0].0@ == "@"@ {
        Some(fields[0].1)
    } else {
        id_cell(fields.drop_first())
    }
}

/// The row has an order identifier, and it is a number.
pub open spec fn has_number_id(row: Spreedsheet) -> bool {
    id_cell(row.local_fields@) matches Some(CellValue::Number(_))
}

/// The order identifier of a row: the text of its `@` number.
pub open spec fn row_id(row: Spreedsheet) -> Seq<char> {
    match id_cell(row.local_fields@) {
        Some(c) => cell_text(c),
        None => Seq::empty(),
    }
}

/// The fields of all rows whose order identifier is `id`, row after row.
pub open spec fn fields_with_id(rows: Seq<Spreedsheet>, id: Seq<char>) -> Seq<(String, CellValue)>
    decreases rows.len(),
{
    if rows.len() == 0 {
        Seq::empty()
    } else {
        fields_with_id(rows.drop_last(), id) + if row_id(rows.last()) == id {
            rows.last().local_fields@
        } else {
            Seq::empty()
        }
    }
}

/// A row the order builder accepts: a number identifier, typed cells, and item
/// columns that start with a one-byte character.
pub open spec fn order_row_ok(row: Spreedsheet) -> bool {
    &&& has_number_id(row)
    &&& cells_typed(row.local_fields@)
    &&& order_names_ok(row.local_fields@)
}

/// The order identifiers of the rows, in row order.
pub open spec fn row_ids(rows: Seq<Spreedsheet>) -> Seq<Seq<char>> {
    rows.map_values(|r: Spreedsheet| row_id(r))
}

/// `ids` lists each order identifier of `rows` exactly once, and no other.
pub open spec fn lists_each_id_once(ids: Seq<Seq<char>>, rows: Seq<Spreedsheet>) -> bool {
    &&& ids.no_duplicates()
    &&& ids.to_set() == row_ids(rows).to_set()
}

/// `groups` holds, for each order identifier of `rows` once, the fields of its rows.
pub open spec fn is_grouping(
    groups: Seq<(String, Vec<(String, CellValue)>)>,
    rows: Seq<Spreedsheet>,
) -> bool {
    &&& lists_each_id_once(groups.map_values(|g: (String, Vec<(String, CellValue)>)| g.0@), rows)
    &&& forall|a: int|
        0 <= a < groups.len() ==> #[trigger] groups[a].1@ == fields_with_id(rows, groups[a].0@)
}

/// The order identifier of a row is the whole text of its first `@` cell, as
/// that number prints: rows whose `@` numbers print differently belong to
/// different orders.
pub proof fn law_row_id_is_the_at_number(row: Spreedsheet, i: int)
    requires
        0 <= i < row.local_fields@.len(),
        row.local_fields@[i].0@ == "@"@,
        forall|j: int| 0 <= j < i ==> row.local_fields@[j].0@ != "@"@,
    ensures
        row.local_fields@[i].1 matches CellValue::Number(s) ==> row_id(row) == s@,
        row.local_fields@[i].1 matches CellValue::Number(s) ==> has_number_id(row),
{
    lemma_id_cell_first_at(row.local_fields@, i);
}

/// The identifier cell is the cell of the first field named `@`.
proof fn lemma_id_cell_first_at(fields: Seq<(String, CellValue)>, i: int)
    requires
        0 <= i < fields.len(),
        fields[i].0@ == "@"@,
        forall|j: int| 0 <= j < i ==> fields[j].0@ != "@"@,
    ensures
        id_cell(fields) == Some(fields[i].1),
    decreases i,
{
    if i > 0 {
        let rest = fields.drop_first();
        assert forall|j: int| 0 <= j < i - 1 implies rest[j].0@ != "@"@ by {
            assert(rest[j] == fields[j + 1]);
        }
        assert(rest[i - 1] == fields[i]);
        lemma_id_cell_first_at(rest, i - 1);
        assert(fields[0].0@ != "@"@);
    }
}

/// Counting a file counts every record the CSV reader returns, whatever it
/// holds, and every field of its header row; the file has no count when the
/// header row cannot be read.
pub proof fn law_count_counts_every_record(data: Seq<u8>)
    ensures
        csv_table(data, 59u8, true).0 is None ==> count_of(data) is None,
        csv_table(data, 59u8, true).0 matches Some(h) ==> count_of(data) == Some(
            CountResult {
                headers_count: if h.len() <= i64::MAX {
                    h.len() as i64
                } else {
                    i64::MAX
                },
                rows_count: if csv_table(data, 59u8, true).1.len() <= i64::MAX {
                    csv_table(data, 59u8, true).1.len() as i64
                } else {
                    i64::MAX
                },
            },
        ),
{
}

/// An order gathers the fields of its rows in row order: a row alone gives
/// its own fields to its identifier and nothing to another, and the fields
/// of two runs of rows are those of the first run followed by those of the second.
pub proof fn law_group_fields_in_row_order(
    rows1: Seq<Spreedsheet>,
    rows2: Seq<Spreedsheet>,
    row: Spreedsheet,
    id: Seq<char>,
)
    ensures
        fields_with_id(seq![row], row_id(row)) == row.local_fields@,
        row_id(row) != id ==> fields_with_id(seq![row], id) == Seq::<(String, CellValue)>::empty(),
        fields_with_id(rows1 + rows2, id) == fields_with_id(rows1, id) + fields_with_id(rows2, id),
    decreases rows2.len(),
{
    let one = seq![row];
    assert(one.drop_last() =~= Seq::<Spreedsheet>::empty());
    assert(Seq::<(String, CellValue)>::empty() + row.local_fields@ =~= row.local_fields@);
    assert(one.last() == row);
    assert(fields_with_id(Seq::<Spreedsheet>::empty(), id) == Seq::<(String, CellValue)>::empty());
    assert(fields_with_id(Seq::<Spreedsheet>::empty(), row_id(row)) == Seq::<(String, CellValue)>::empty());
    assert(fields_with_id(one, row_id(row)) == fields_with_id(Seq::<Spreedsheet>::empty(), row_id(row))
        + row.local_fields@);
    assert(Seq::<(String, CellValue)>::empty() + Seq::<(String, CellValue)>::empty() =~= Seq::<
        (String, CellValue),
    >::empty());
    if rows2.len() == 0 {
        assert(rows1 + rows2 =~= rows1);
        assert(fields_with_id(rows1, id) + fields_with_id(rows2, id) =~= fields_with_id(rows1, id));
    } else {
        let init = rows2.drop_last();
        law_group_fields_in_row_order(rows1, init, row, id);
        assert((rows1 + rows2).drop_last() =~= rows1 + init);
        assert((rows1 + rows2).last() == rows2.last());
        let tail = if row_id(rows2.last()) == id {
            rows2.last().local_fields@
        } else {
            Seq::empty()
        };
        assert(fields_with_id(rows1, id) + fields_with_id(init, id) + tail =~= fields_with_id(rows1, id)
            + (fields_with_id(init, id) + tail));
    }
}

/// How many fields the rows have in all.
pub open spec fn fields_count(rows: Seq<Spreedsheet>) -> nat
    decreases rows.len(),
{
    if rows.len() == 0 {
        0
    } else {
        fields_count(rows.drop_last()) + rows.last().local_fields@.len()
    }
}

/// How many fields the groups of the identifiers `ids` hold in all.
pub open spec fn grouped_count(rows: Seq<Spreedsheet>, ids: Seq<Seq<char>>) -> nat
    decreases ids.len(),
{
    if ids.len() == 0 {
        0
    } else {
        grouped_count(rows, ids.drop_last()) + fields_with_id(rows, ids.last()).len()
    }
}

/// Grouping rows by order identifier loses no field and repeats none: the
/// groups of all the identifiers hold as many fields as the rows.
pub proof fn law_grouping_keeps_every_field(rows: Seq<Spreedsheet>, ids: Seq<Seq<char>>)
    requires
        lists_each_id_once(ids, rows),
    ensures
        grouped_count(rows, ids) == fields_count(rows),
{
    assert forall|r: int| 0 <= r < rows.len() implies ids.contains(row_id(#[trigger] rows[r])) by {
        assert(row_ids(rows)[r] == row_id(rows[r]));
        assert(row_ids(rows).to_set().contains(row_id(rows[r])));
    }
    lemma_grouped_count(rows, ids);
}

proof fn lemma_grouped_count(rows: Seq<Spreedsheet>, ids: Seq<Seq<char>>)
    requires
        ids.no_duplicates(),
        forall|r: int| 0 <= r < rows.len() ==> ids.contains(row_id(#[trigger] rows[r])),
    ensures
        grouped_count(rows, ids) == fields_count(rows),
    decreases rows.len(),
{
    if rows.len() == 0 {
        lemma_grouped_count_no_rows(rows, ids);
    } else {
        let init = rows.drop_last();
        assert forall|r: int| 0 <= r < init.len() implies ids.contains(row_id(#[trigger] init[r])) by {
            assert(init[r] == rows[r]);
        }
        lemma_grouped_count(init, ids);
        assert(rows =~= init.push(rows.last()));
        assert(ids.contains(row_id(rows[rows.len() - 1])));
        lemma_grouped_count_step(init, rows.last(), ids);
    }
}

proof fn lemma_grouped_count_no_rows(rows: Seq<Spreedsheet>, ids: Seq<Seq<char>>)
    requires
        rows.len() == 0,
    ensures
        grouped_count(rows, ids) == 0,
    decreases ids.len(),
{
    if ids.len() > 0 {
        lemma_grouped_count_no_rows(rows, ids.drop_last());
    }
}

proof fn lemma_grouped_count_step(rows: Seq<Spreedsheet>, row: Spreedsheet, ids: Seq<Seq<char>>)
    requires
        ids.no_duplicates(),
    ensures
        grouped_count(rows.push(row), ids) == grouped_count(rows, ids) + if ids.contains(row_id(row)) {
            row.local_fields@.len()
        } else {
            0
        },
    decreases ids.len(),
{
    let all = rows.push(row);
    assert(all.drop_last() =~= rows);
    if ids.len() > 0 {
        let init = ids.drop_last();
        assert(init.no_duplicates());
        lemma_grouped_count_step(rows, row, init);
        let x = row_id(row);
        if ids.last() == x {
            assert(!init.contains(x)) by {
                if init.contains(x) {
                    let i = choose|i: int| 0 <= i < init.len() && init[i] == x;
                    assert(ids[i] == ids[ids.len() - 1]);
                }
            }
            assert(ids.contains(x)) by {
                assert(ids[ids.len() - 1] == x);
            }
        } else {
            assert(init.contains(x) == ids.contains(x)) by {
                if ids.contains(x) {
                    let i = choose|i: int| 0 <= i < ids.len() && ids[i] == x;
                    assert(i < ids.len() - 1);
                    assert(init[i] == x);
                }
                if init.contains(x) {
                    let i = choose|i: int| 0 <= i < init.len() && init[i] == x;
                    assert(ids[i] == x);
                }
            }
        }
    }
}

/// The fields of accepted rows, gathered by identifier, are accepted by the order builder.
proof fn lemma_fields_with_id_ok(rows: Seq<Spreedsheet>, id: Seq<char>)
    requires
        forall|r: int| 0 <= r < rows.len() ==> order_row_ok(#[trigger] rows[r]),
    ensures
        cells_typed(fields_with_id(rows, id)),
        order_names_ok(fields_with_id(rows, id)),
    decreases rows.len(),
{
    if rows.len() > 0 {
        let init = rows.drop_last();
        assert forall|r: int| 0 <= r < init.len() implies order_row_ok(#[trigger] init[r]) by {
            assert(init[r] == rows[r]);
        }
        lemma_fields_with_id_ok(init, id);
        assert(order_row_ok(rows[rows.len() - 1]));
        let a = fields_with_id(init, id);
        let b = if row_id(rows.last()) == id {
            rows.last().local_fields@
        } else {
            Seq::empty()
        };
        let all = fields_with_id(rows, id);
        assert(all =~= a + b);
        assert forall|i: int| 0 <= i < all.len() implies #[trigger] crate::import_core::generate_body::cell_typed(all[i].1) by {
            if i < a.len() {
                assert(all[i] == a[i]);
            } else {
                assert(all[i] == b[i - a.len()]);
            }
        }
        assert forall|i: int|
            0 <= i < all.len() && crate::import_core::generate_body::is_item_name(#[trigger] all[i].0@) implies (all[i].0@[0] as u32) < 128u32 by {
            if i < a.len() {
                assert(all[i] == a[i]);
            } else {
                assert(all[i] == b[i - a.len()]);
            }
        }
    }
}

/// The order identifier of a row: the text of its first `@` field.
fn find_row_id(row: &Spreedsheet) -> (res: String)
    requires
        has_number_id(*row),
    ensures
        res@ == row_id(*row),
{
    let fields = &row.local_fields;
    let n = fields.len();
    let at = String::from_str("@");
    let mut i: usize = 0;
    assert(fields@.skip(0) =~= fields@);
    while i < n
        invariant
            n == fields@.len(),
            i <= n,
            at@ == "@"@,
            fields == &row.local_fields,
            id_cell(fields@.skip(i as int)) == id_cell(fields@),
            id_cell(fields@) matches Some(CellValue::Number(_)),
        decreases n - i,
    {
        let ghost rest = fields@.skip(i as int);
        assert(rest.drop_first() =~= fields@.skip(i + 1));
        assert(rest[0] == fields@[i as int]);
        if fields[i].0 == at {
            assert(id_cell(rest) == Some(fields@[i as int].1));
            match &fields[i].1 {
                CellValue::Number(s) => {
                    return s.clone();
                },
                CellValue::Text(s) => {
                    return s.clone();
                },
                CellValue::Bool(_) => {
                    return String::new();
                },
            }
        }
        i = i + 1;
    }
    assert(fields@.skip(n as int).len() == 0);
    String::new()
}

/// The fields of all rows whose order identifier is `id`, row after row.
fn fields_of_id(rows: &Vec<Spreedsheet>, id: &String) -> (res: Vec<(String, CellValue)>)
    requires
        forall|r: int| 0 <= r < rows@.len() ==> has_number_id(#[trigger] rows@[r]),
    ensures
        res@ == fields_with_id(rows@, id@),
{
    let mut res: Vec<(String, CellValue)> = Vec::new();
    let n = rows.len();
    let mut r: usize = 0;
    while r < n
        invariant
            n == rows@.len(),
            r <= n,
            forall|q: int| 0 <= q < rows@.len() ==> has_number_id(#[trigger] rows@[q]),
            res@ == fields_with_id(rows@.take(r as int), id@),
        decreases n - r,
    {
        assert(rows@.take(r + 1).drop_last() =~= rows@.take(r as int));
        assert(rows@.take(r + 1).last() == rows@[r as int]);
        let row_key = find_row_id(&rows[r]);
        if row_key == *id {
            let fields = &rows[r].local_fields;
            let m = fields.len();
            let ghost before = res@;
            let mut k: usize = 0;
            while k < m
                invariant
                    m == fields@.len(),
                    k <= m,
                    res@ == before + fields@.take(k as int),
                decreases m - k,
            {
                let entry = (fields[k].0.clone(), fields[k].1.clone());
                res.push(entry);
                assert(res@ =~= before + fields@.take(k + 1));
                k = k + 1;
            }
            assert(fields@.take(m as int) =~= fields@);
        } else {
            assert(res@ =~= res@ + Seq::<(String, CellValue)>::empty());
        }
        r = r + 1;
    }
    assert(rows@.take(n as int) =~= rows@);
    res
}

/// The rows gathered by order identifier: each identifier once, with the fields
/// of all its rows, row after row. (Which order the groups come in is not part
/// of the contract.)
pub fn group_rows(rows: &Vec<Spreedsheet>) -> (res: Vec<(String, Vec<(String, CellValue)>)>)
    requires
        forall|r: int| 0 <= r < rows@.len() ==> has_number_id(#[trigger] rows@[r]),
    ensures
        is_grouping(res@, rows@),
{
    let n = rows.len();
    let mut ids: Vec<String> = Vec::new();
    let mut r: usize = 0;
    assert(rows@.take(0) =~= Seq::<Spreedsheet>::empty());
    assert(texts(ids@) =~= Seq::<Seq<char>>::empty());
    assert(row_ids(rows@.take(0)) =~= Seq::<Seq<char>>::empty());
    assert(texts(ids@).to_set() =~= row_ids(rows@.take(0)).to_set());
    while r < n
        invariant
            n == rows@.len(),
            r <= n,
            forall|q: int| 0 <= q < rows@.len() ==> has_number_id(#[trigger] rows@[q]),
            lists_each_id_once(texts(ids@), rows@.take(r as int)),
        decreases n - r,
    {
        assert(rows@.take(r + 1) =~= rows@.take(r as int).push(rows@[r as int]));
        proof {
            lemma_lists_step(texts(ids@), rows@.take(r as int), rows@[r as int]);
        }
        let id = find_row_id(&rows[r]);
        let found = contains_string(&ids, &id);
        if found {
            proof {
                let i = choose|i: int| 0 <= i < ids@.len() && #[trigger] ids@[i]@ == id@;
                assert(texts(ids@)[i] == id@);
            }
        } else {
            assert(!texts(ids@).contains(id@)) by {
                if texts(ids@).contains(id@) {
                    let i = choose|i: int| 0 <= i < texts(ids@).len() && texts(ids@)[i] == id@;
                    assert(ids@[i]@ == id@);
                }
            }
            let ghost before = ids@;
            ids.push(id);
            assert(texts(ids@) =~= texts(before).push(row_id(rows@[r as int])));
        }
        r = r + 1;
    }
    assert(rows@.take(n as int) =~= rows@);
    let mut res: Vec<(String, Vec<(String, CellValue)>)> = Vec::new();
    let m = ids.len();
    let mut a: usize = 0;
    while a < m
        invariant
            m == ids@.len(),
            a <= m,
            forall|q: int| 0 <= q < rows@.len() ==> has_number_id(#[trigger] rows@[q]),
            res@.len() == a,
            forall|b: int| 0 <= b < a ==> (#[trigger] res@[b]).0@ == ids@[b]@,
            forall|b: int|
                0 <= b < a ==> (#[trigger] res@[b]).1@ == fields_with_id(rows@, res@[b].0@),
        decreases m - a,
    {
        let group = fields_of_id(rows, &ids[a]);
        res.push((ids[a].clone(), group));
        a = a + 1;
    }
    assert(res@.map_values(|g: (String, Vec<(String, CellValue)>)| g.0@) =~= texts(ids@));
    res
}

/// Adding a row keeps a list of identifiers exact: the row's identifier is
/// already there, or is added.
proof fn lemma_lists_step(ids: Seq<Seq<char>>, rows: Seq<Spreedsheet>, row: Spreedsheet)
    requires
        lists_each_id_once(ids, rows),
    ensures
        ids.contains(row_id(row)) ==> lists_each_id_once(ids, rows.push(row)),
        !ids.contains(row_id(row)) ==> lists_each_id_once(ids.push(row_id(row)), rows.push(row)),
{
    let x = row_id(row);
    assert(row_ids(rows.push(row)) =~= row_ids(rows).push(x));
    row_ids(rows).lemma_push_to_set_commute(x);
    ids.lemma_push_to_set_commute(x);
    if ids.contains(x) {
        assert(ids.to_set().insert(x) =~= ids.to_set());
    } else {
        let more = ids.push(x);
        assert forall|i: int, j: int|
            0 <= i < more.len() && 0 <= j < more.len() && i != j implies more[i] != more[j] by {
            if i == ids.len() {
                assert(more[j] == ids[j]);
            } else if j == ids.len() {
                assert(more[i] == ids[i]);
            } else {
                assert(more[i] == ids[i] && more[j] == ids[j]);
            }
        }
    }
}

impl SpreedsheetWorker {
    /// An import job for the file `csv_path`, whose rows go to `entity`.
    pub fn new(csv_path: &str, entity: &str, sheet_type: Types) -> (res: Self)
        ensures
            res.csv_path@ == csv_path@,
            res.entity@ == entity@,
            res.types == sheet_type,
    {
        let is_generic = Types::GENERIC == sheet_type;
        Self {
            csv_path: String::from_str(csv_path),
            entity: String::from_str(entity),
            types: match is_generic {
                true => Types::GENERIC,
                false => Types::PEDIDO,
            },
        }
    }

    /// Counts the header fields and the records of the file whose contents are
    /// `data` (read as `;`-separated CSV, rows of any length).
    ///
    /// `None` stands for a file whose header row cannot be read: there the
    /// count stops ("Cannot get headers") and gives no result. Whether the
    /// header row can be read is known only from the CSV reader's answer, so it
    /// is reported here rather than excluded beforehand.
    pub fn count(&self, data: &[u8]) -> (res: Option<CountResult>)
        ensures
            res == count_of(data@),
    {
        let (headers, records) = read_csv_table(data, DELIMITER, true);
        let headers = match headers {
            Some(h) => h,
            None => {
                return None;
            },
        };
        let mut headers_count: i64 = 0;
        let mut i: usize = 0;
        while i < headers.len()
            invariant
                i <= headers@.len(),
                headers_count == saturated(i as nat),
            decreases headers@.len() - i,
        {
            if headers_count < i64::MAX {
                headers_count += 1;
            }
            i = i + 1;
        }
        let mut rows_count: i64 = 0;
        let mut j: usize = 0;
        while j < records.len()
            invariant
                j <= records@.len(),
                rows_count == saturated(j as nat),
            decreases records@.len() - j,
        {
            if rows_count < i64::MAX {
                rows_count += 1;
            }
            j = j + 1;
        }
        Some(CountResult { headers_count, rows_count })
    }

    /// One `saveRecord` body per row: the row's fields inserted into this job's entity.
    pub fn read_spreedsheet(&self, rows: &Vec<Spreedsheet>) -> (res: Vec<SaveRecord>)
        requires
            forall|r: int| 0 <= r < rows@.len() ==> cells_typed(#[trigger] rows@[r].local_fields@),
        ensures
            res@.len() == rows@.len(),
            forall|r: int|
                0 <= r < rows@.len() ==> is_generic_body(
                    #[trigger] res@[r],
                    rows@[r].local_fields@,
                    self.entity@,
                ),
    {
        let mut bodies: Vec<SaveRecord> = Vec::new();
        let n = rows.len();
        let mut r: usize = 0;
        while r < n
            invariant
                n == rows@.len(),
                r <= n,
                forall|q: int| 0 <= q < rows@.len() ==> cells_typed(#[trigger] rows@[q].local_fields@),
                bodies@.len() == r,
                forall|q: int|
                    0 <= q < r ==> is_generic_body(
                        #[trigger] bodies@[q],
                        rows@[q].local_fields@,
                        self.entity@,
                    ),
            decreases n - r,
        {
            let json_body = generate_body_generic(&rows[r].local_fields, self.entity.clone());
            bodies.push(json_body);
            r = r + 1;
        }
        bodies
    }

    /// One `incluirNota` body per order: the rows are gathered by their `@`
    /// identifier, and each order is built from the fields of all its rows.
    /// (Which order the bodies come in is not part of the contract.)
    pub fn read_spreedsheet_ped(&self, rows: &Vec<Spreedsheet>) -> (res: Vec<PedidoReqBody>)
        requires
            forall|r: int| 0 <= r < rows@.len() ==> order_row_ok(#[trigger] rows@[r]),
        ensures
            exists|ids: Seq<Seq<char>>|
                {
                    &&& #[trigger] lists_each_id_once(ids, rows@)
                    &&& ids.len() == res@.len()
                    &&& forall|a: int|
                        0 <= a < ids.len() ==> is_pedido_body(
                            #[trigger] res@[a],
                            fields_with_id(rows@, ids[a]),
                        )
                },
    {
        assert forall|r: int| 0 <= r < rows@.len() implies has_number_id(#[trigger] rows@[r]) by {
            assert(order_row_ok(rows@[r]));
        }
        let groups = group_rows(rows);
        let ghost ids = groups@.map_values(|g: (String, Vec<(String, CellValue)>)| g.0@);
        let mut bodies: Vec<PedidoReqBody> = Vec::new();
        let n = groups.len();
        let mut a: usize = 0;
        while a < n
            invariant
                n == groups@.len(),
                a <= n,
                ids == groups@.map_values(|g: (String, Vec<(String, CellValue)>)| g.0@),
                forall|r: int| 0 <= r < rows@.len() ==> order_row_ok(#[trigger] rows@[r]),
                is_grouping(groups@, rows@),
                bodies@.len() == a,
                forall|b: int|
                    0 <= b < a ==> is_pedido_body(#[trigger] bodies@[b], fields_with_id(rows@, ids[b])),
            decreases n - a,
        {
            proof {
                lemma_fields_with_id_ok(rows@, ids[a as int]);
                assert(groups@[a as int].1@ == fields_with_id(rows@, groups@[a as int].0@));
            }
            let json_body = generate_body_pedido(&groups[a].1);
            bodies.push(json_body);
            a = a + 1;
        }
        assert(lists_each_id_once(ids, rows@));
        bodies
    }
}

} // verus!
