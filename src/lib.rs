//! Building blocks of a cross-library Postgres benchmark: the rows that the
//! benchmarks write and read, the decoding of text result sets, the grouping
//! of posts under their authors, the statements sent to the server and the
//! plan that a driver walks for each client library.
pub mod decode;
pub mod entity;
pub mod external;
pub mod fixture;
pub mod harness;
pub mod relation;
pub mod sql;
pub mod text;
