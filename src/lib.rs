pub mod schema;
pub mod parquetutils;
