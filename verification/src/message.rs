pub mod db_error;
