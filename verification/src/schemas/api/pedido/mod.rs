pub mod ped_vend_req_body;
