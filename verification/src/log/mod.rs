pub mod ilog;
