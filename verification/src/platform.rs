pub mod substrate;
