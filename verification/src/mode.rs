pub mod default_null_ordering;
