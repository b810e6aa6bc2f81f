pub mod string_data_type;
