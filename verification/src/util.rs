pub mod chars;
pub mod io_utils;
pub mod numfmt;
pub mod radix;
pub mod string_utils;
pub mod utils;
