pub mod mudu_server;
pub mod parser;
pub mod session;
pub mod x_contract;
