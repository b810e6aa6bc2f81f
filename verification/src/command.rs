pub mod set_types;
