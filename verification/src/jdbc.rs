pub mod driver;
pub mod jdbc_connection;
