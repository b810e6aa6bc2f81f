use vstd::prelude::*;
use crate::api::error_code;
use crate::engine::connection_info::connection_info_outcome;
use crate::engine::constant;
use crate::h2_rust_common::properties::Properties;
use crate::jdbc::jdbc_connection::{connection_settings, JdbcConnection};
use crate::message::db_error::{is_error, two_params, DbError};
use crate::util::chars::{is_prefix, str_starts_with};
use crate::util::utils::parse_bool_value;

verus! {

/// The driver that opens connections from URLs.
pub struct Driver {}

impl Driver {
    /// Opens a connection to the database at `url` with the settings
    /// `properties`, and no user or password. An empty URL, or one that does
    /// not start with `jdbc:h2:`, is a URL format error that shows the format
    /// and the URL.
    pub fn connect(&self, url: String, properties: &Properties) -> (r: Result<JdbcConnection, DbError>)
        requires
            properties.wf(),
        ensures
            url@.len() == 0 || !is_prefix(constant::START_URL@, url@) ==> (r matches Err(e) && is_error(
                e,
                error_code::URL_FORMAT_ERROR_2,
                seq![constant::URL_FORMAT@, url@],
            )),
            url@.len() > 0 && is_prefix(constant::START_URL@, url@) ==> match connection_info_outcome(
                url@,
                properties.key_seq(),
                properties.map(),
                Seq::empty(),
                Seq::empty(),
            ) {
                Ok(v) => r matches Ok(c) && c.session.connection_info.wf() && c.session.connection_info.view_of()
                    == connection_settings(v, false) && c.session.old_information_schema == parse_bool_value(
                    "OLD_INFORMATION_SCHEMA"@,
                    false,
                ),
                Err(x) => r matches Err(e) && is_error(e, x.0, x.1),
            },
    {
        if url.unicode_len() == 0 {
            proof {
                reveal_strlit("");
                assert(url@ =~= ""@);
            }
            return Err(DbError::get(error_code::URL_FORMAT_ERROR_2, two_params(constant::URL_FORMAT, "")));
        }
        if str_starts_with(url.as_str(), constant::START_URL) {
            proof {
                reveal_strlit("");
            }
            return JdbcConnection::new(url, properties, String::new(), String::new(), false);
        }
        Err(DbError::get(error_code::URL_FORMAT_ERROR_2, two_params(constant::URL_FORMAT, url.as_str())))
    }
}

} // verus!
