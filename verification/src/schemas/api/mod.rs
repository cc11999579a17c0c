pub mod auth;
pub mod pedido;
pub mod save_record;
