pub mod speech;
