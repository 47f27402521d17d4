pub mod clock;
pub mod config;
pub mod db;
pub mod exchange;
pub mod http;
pub mod io_fault;
pub mod json;
pub mod numeral;
pub mod order;
pub mod printer;
pub mod protocol;
pub mod serial;
pub mod server;
pub mod system_printer;
pub mod tcp;
pub mod text;
pub mod textmap;
pub mod transport;
pub mod wire_laws;
