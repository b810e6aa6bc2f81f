use vstd::prelude::*;
use crate::engine::connection_info::{connection_info_outcome, ConnectionInfo, ConnectionInfoView};
use crate::engine::session_remote::SessionRemote;
use crate::h2_rust_common::properties::Properties;
use crate::message::db_error::{is_error, DbError};
use crate::util::utils::parse_bool_value;

verus! {

/// A connection to a database: the session that it opens.
pub struct JdbcConnection {
    pub session: SessionRemote,
}

/// The settings of a connection opened from these settings, where creating
/// the database is forbidden or not.
pub open spec fn connection_settings(v: ConnectionInfoView, forbid_creation: bool) -> ConnectionInfoView {
    if forbid_creation {
        ConnectionInfoView { prop: v.prop.insert("FORBID_CREATION"@, "TRUE"@), ..v }
    } else {
        v
    }
}

impl JdbcConnection {
    /// Opens a connection to the database at `url` with the settings `info`,
    /// the user and the password: the connection description is read (see
    /// `ConnectionInfo::new`), `FORBID_CREATION` is set where creating the
    /// database is forbidden, and a session on it is prepared (see
    /// `SessionRemote::connect_embedded_or_server`).
    pub fn new(url: String, info: &Properties, user: String, password: String, forbid_creation: bool) -> (r: Result<
        JdbcConnection,
        DbError,
    >)
        requires
            info.wf(),
        ensures
            match connection_info_outcome(url@, info.key_seq(), info.map(), user@, password@) {
                Ok(v) => r matches Ok(c) && c.session.connection_info.wf() && c.session.connection_info.view_of()
                    == connection_settings(v, forbid_creation) && c.session.old_information_schema
                    == parse_bool_value("OLD_INFORMATION_SCHEMA"@, false),
                Err(x) => r matches Err(e) && is_error(e, x.0, x.1),
            },
    {
        let session = Self::init(url, info, user, password, forbid_creation)?;
        Ok(JdbcConnection { session })
    }

    /// The session of a connection to `url`; see `new`.
    fn init(url: String, info: &Properties, user: String, password: String, forbid_creation: bool) -> (r: Result<
        SessionRemote,
        DbError,
    >)
        requires
            info.wf(),
        ensures
            match connection_info_outcome(url@, info.key_seq(), info.map(), user@, password@) {
                Ok(v) => r matches Ok(s) && s.connection_info.wf() && s.connection_info.view_of()
                    == connection_settings(v, forbid_creation) && s.old_information_schema
                    == parse_bool_value("OLD_INFORMATION_SCHEMA"@, false),
                Err(x) => r matches Err(e) && is_error(e, x.0, x.1),
            },
    {
        let mut connection_info = ConnectionInfo::new(url, info, user, password)?;
        if forbid_creation {
            proof {
                reveal_strlit("TRUE");
            }
            connection_info.set_property("FORBID_CREATION", "TRUE");
        }
        let mut session_remote = SessionRemote::new(connection_info)?;
        session_remote.connect_embedded_or_server(false)?;
        Ok(session_remote)
    }
}

} // verus!
