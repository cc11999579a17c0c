use vstd::prelude::*;
use crate::keyed_map::KeyedMap;

verus! {

/// Body of the `CACSP.incluirNota` service call, which creates a sales order.
#[derive(Debug)]
pub struct PedidoReqBody {
    pub service_name: String,
    pub request_body: RequestBody,
}

#[derive(Debug)]
pub struct RequestBody {
    pub nota: Nota,
}

/// The order: its header fields and its items.
#[derive(Debug)]
pub struct Nota {
    /// Header field name to `{"$": value}` (or `{}` for an empty value).
    pub cabecalho: KeyedMap<KeyedMap<String>>,
    pub itens: Itens,
}

/// The order items; `informarpreco` is serialized as `INFORMARPRECO`.
#[derive(Debug)]
pub struct Itens {
    pub informarpreco: String,
    pub item: Vec<KeyedMap<KeyedMap<String>>>,
}

} // verus!
