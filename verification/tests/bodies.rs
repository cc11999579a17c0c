use std::collections::HashMap;

use import_csv::import_core::generate_body::{generate_body_generic, generate_body_pedido};
use import_csv::import_core::spreedsheet::{SpreedsheetWorker, Types};
use import_csv::keyed_map::KeyedMap;
use import_csv::schemas::spreedsheet_schema::{CellValue, Spreedsheet};

fn num(s: &str) -> CellValue {
    CellValue::Number(s.to_string())
}

fn text(s: &str) -> CellValue {
    CellValue::Text(s.to_string())
}

fn tuples(fields: &[(&str, CellValue)]) -> Vec<(String, CellValue)> {
    fields.iter().map(|(k, v)| (k.to_string(), v.clone())).collect()
}

fn value_map(m: KeyedMap<String>) -> HashMap<String, String> {
    m.into_entries().into_iter().collect()
}

fn fields_map(m: KeyedMap<KeyedMap<String>>) -> HashMap<String, HashMap<String, String>> {
    m.into_entries().into_iter().map(|(k, v)| (k, value_map(v))).collect()
}

fn dollar(s: &str) -> HashMap<String, String> {
    let mut m = HashMap::new();
    m.insert("$".to_string(), s.to_string());
    m
}

#[test]
fn generic_body_sends_every_column() {
    let t = tuples(&[("CODPROD", num("10")), ("DESCRPROD", text("Parafuso")), ("OBS", text(""))]);
    let body = generate_body_generic(&t, "Produto".to_string());
    assert_eq!(body.service_name, "CRUDServiceProvider.saveRecord");
    let ds = body.request_body.data_set;
    assert_eq!(ds.root_entity, "Produto");
    assert_eq!(ds.include_presentation_fields, "S");
    assert_eq!(ds.entity.fieldset.list, "CODPROD,DESCRPROD,OBS");
    let mut outer: HashMap<String, HashMap<String, HashMap<String, String>>> = ds
        .data_row
        .local_fields
        .into_entries()
        .into_iter()
        .map(|(k, v)| (k, fields_map(v)))
        .collect();
    assert_eq!(outer.len(), 1);
    let local = outer.remove("localFields").unwrap();
    assert_eq!(local.len(), 3);
    assert_eq!(local["CODPROD"], dollar("10"));
    assert_eq!(local["DESCRPROD"], dollar("Parafuso"));
    // an empty text is still sent in a generic record
    assert_eq!(local["OBS"], dollar(""));
}

#[test]
fn generic_body_later_duplicate_wins_and_list_keeps_both() {
    let t = tuples(&[("A", num("1")), ("A", num("2"))]);
    let body = generate_body_generic(&t, "E".to_string());
    assert_eq!(body.request_body.data_set.entity.fieldset.list, "A,A");
    let mut outer: Vec<(String, KeyedMap<KeyedMap<String>>)> =
        body.request_body.data_set.data_row.local_fields.into_entries();
    let local = fields_map(outer.remove(0).1);
    assert_eq!(local.len(), 1);
    assert_eq!(local["A"], dollar("2"));
}

#[test]
fn generic_body_of_no_fields() {
    let body = generate_body_generic(&Vec::new(), "E".to_string());
    assert_eq!(body.request_body.data_set.entity.fieldset.list, "");
    let mut outer = body.request_body.data_set.data_row.local_fields.into_entries();
    assert_eq!(outer.len(), 1);
    assert!(fields_map(outer.remove(0).1).is_empty());
}

#[test]
fn pedido_body_splits_items_at_separator() {
    // as a row of an order file reads, in column-name order
    let t = tuples(&[
        ("@", num("1")),
        ("@CODPROD", num("10")),
        ("@QTDNEG", num("2")),
        ("CODPARC", num("5")),
        ("OBS", text("")),
        ("@", num("1")),
        ("@CODPROD", num("11")),
        ("@QTDNEG", text("")),
        ("CODPARC", num("5")),
    ]);
    let body = generate_body_pedido(&t);
    assert_eq!(body.service_name, "CACSP.incluirNota");
    let nota = body.request_body.nota;
    assert_eq!(nota.itens.informarpreco, "False");
    let header = fields_map(nota.cabecalho);
    assert_eq!(header.len(), 2);
    assert_eq!(header["CODPARC"], dollar("5"));
    // an empty text gives an empty value in an order
    assert!(header["OBS"].is_empty());
    let items: Vec<HashMap<String, HashMap<String, String>>> =
        nota.itens.item.into_iter().map(fields_map).collect();
    assert_eq!(items.len(), 2);
    assert_eq!(items[0]["CODPROD"], dollar("10"));
    assert_eq!(items[0]["QTDNEG"], dollar("2"));
    assert_eq!(items[0].len(), 2);
    assert_eq!(items[1]["CODPROD"], dollar("11"));
    assert!(items[1]["QTDNEG"].is_empty());
}

#[test]
fn pedido_body_drops_empty_items_and_empty_names() {
    let t = tuples(&[("@", num("3")), ("@", num("3")), ("", text("x")), ("X@Y", text("v"))]);
    let body = generate_body_pedido(&t);
    let nota = body.request_body.nota;
    assert!(fields_map(nota.cabecalho).is_empty());
    let items: Vec<_> = nota.itens.item.into_iter().map(fields_map).collect();
    // "X@Y" holds "@": an item field, named without its first character
    assert_eq!(items.len(), 1);
    assert_eq!(items[0]["@Y"], dollar("v"));
}

#[test]
fn pedido_body_without_items() {
    let t = tuples(&[("CODPARC", num("5"))]);
    let body = generate_body_pedido(&t);
    assert!(body.request_body.nota.itens.item.is_empty());
    assert_eq!(fields_map(body.request_body.nota.cabecalho)["CODPARC"], dollar("5"));
}

fn row(fields: &[(&str, CellValue)]) -> Spreedsheet {
    Spreedsheet { local_fields: tuples(fields) }
}

#[test]
fn worker_new_keeps_its_settings() {
    let w = SpreedsheetWorker::new("in.csv", "Parceiro", Types::PEDIDO);
    assert_eq!(w.csv_path, "in.csv");
    assert_eq!(w.entity, "Parceiro");
    assert!(w.types == Types::PEDIDO);
    let g = SpreedsheetWorker::new("a", "b", Types::GENERIC);
    assert!(g.types == Types::GENERIC);
}

#[test]
fn read_spreedsheet_gives_one_record_per_row() {
    let w = SpreedsheetWorker::new("in.csv", "Parceiro", Types::GENERIC);
    let rows = vec![row(&[("NOME", text("Ana"))]), row(&[("NOME", text("Bia")), ("ID", num("2"))])];
    let bodies = w.read_spreedsheet(&rows);
    assert_eq!(bodies.len(), 2);
    assert_eq!(bodies[0].request_body.data_set.entity.fieldset.list, "NOME");
    assert_eq!(bodies[1].request_body.data_set.entity.fieldset.list, "NOME,ID");
    assert_eq!(bodies[1].request_body.data_set.root_entity, "Parceiro");
}

#[test]
fn read_spreedsheet_ped_groups_rows_by_order() {
    let w = SpreedsheetWorker::new("in.csv", "", Types::PEDIDO);
    let rows = vec![
        row(&[("@", num("1")), ("@CODPROD", num("10")), ("CODPARC", num("7"))]),
        row(&[("@", num("2")), ("@CODPROD", num("20")), ("CODPARC", num("8"))]),
        row(&[("@", num("1")), ("@CODPROD", num("11")), ("CODPARC", num("7"))]),
    ];
    let bodies = w.read_spreedsheet_ped(&rows);
    assert_eq!(bodies.len(), 2);
    let mut by_partner: HashMap<String, Vec<HashMap<String, HashMap<String, String>>>> = HashMap::new();
    for b in bodies {
        let nota = b.request_body.nota;
        let header = fields_map(nota.cabecalho);
        let items: Vec<_> = nota.itens.item.into_iter().map(fields_map).collect();
        by_partner.insert(header["CODPARC"]["$"].clone(), items);
    }
    let first = &by_partner["7"];
    assert_eq!(first.len(), 2);
    assert_eq!(first[0]["CODPROD"], dollar("10"));
    assert_eq!(first[1]["CODPROD"], dollar("11"));
    let second = &by_partner["8"];
    assert_eq!(second.len(), 1);
    assert_eq!(second[0]["CODPROD"], dollar("20"));
}

#[test]
fn group_rows_lists_each_id_once() {
    let rows = vec![
        row(&[("@", num("5")), ("A", text("x"))]),
        row(&[("@", num("6"))]),
        row(&[("B", text("y")), ("@", num("5"))]),
    ];
    let groups = import_csv::import_core::spreedsheet::group_rows(&rows);
    assert_eq!(groups.len(), 2);
    let five = groups.iter().find(|g| g.0 == "5").unwrap();
    let names: Vec<&str> = five.1.iter().map(|f| f.0.as_str()).collect();
    assert_eq!(names, vec!["@", "A", "B", "@"]);
    let six = groups.iter().find(|g| g.0 == "6").unwrap();
    assert_eq!(six.1.len(), 1);
    // no field is lost or repeated
    let grouped: usize = groups.iter().map(|g| g.1.len()).sum();
    let total: usize = rows.iter().map(|r| r.local_fields.len()).sum();
    assert_eq!(grouped, total);
}

#[test]
fn keyed_map_insert_replaces() {
    let mut m: KeyedMap<String> = KeyedMap::new();
    m.insert("a".to_string(), "1".to_string());
    m.insert("b".to_string(), "2".to_string());
    m.insert("a".to_string(), "3".to_string());
    assert_eq!(m.len(), 2);
    let h = value_map(m);
    assert_eq!(h["a"], "3");
    assert_eq!(h["b"], "2");
}

#[test]
fn pedido_body_ignores_column_interleaving() {
    let a = tuples(&[
        ("CODPARC", num("5")),
        ("@CODPROD", num("10")),
        ("@", num("1")),
        ("OBS", text("x")),
        ("@CODPROD", num("11")),
    ]);
    let b = tuples(&[
        ("@CODPROD", num("10")),
        ("@", num("1")),
        ("@CODPROD", num("11")),
        ("CODPARC", num("5")),
        ("OBS", text("x")),
    ]);
    let ba = generate_body_pedido(&a).request_body.nota;
    let bb = generate_body_pedido(&b).request_body.nota;
    assert_eq!(fields_map(ba.cabecalho), fields_map(bb.cabecalho));
    let ia: Vec<_> = ba.itens.item.into_iter().map(fields_map).collect();
    let ib: Vec<_> = bb.itens.item.into_iter().map(fields_map).collect();
    assert_eq!(ia, ib);
    assert_eq!(ia.len(), 2);
}
