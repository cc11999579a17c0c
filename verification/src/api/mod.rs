//! What the importer computes around its calls to the ERP services: their URLs,
//! request bodies and the numbering of their answers.
pub mod auth;
pub mod post_login;
pub mod request;
pub mod service_url;
