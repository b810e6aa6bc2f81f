use vstd::prelude::*;
use crate::engine::connection_info::{ConnectionInfo, ConnectionInfoView};
use crate::message::db_error::DbError;
use crate::util::utils::parse_bool_value;

verus! {

/// A session on a database, opened from a connection description.
pub struct SessionRemote {
    pub connection_info: ConnectionInfo,
    pub old_information_schema: bool,
}

impl SessionRemote {
    /// The session for `connection_info`. `OLD_INFORMATION_SCHEMA` is read as
    /// `ConnectionInfo::get_property_bool` reads it: from the text of its name,
    /// so it is false.
    pub fn new(connection_info: ConnectionInfo) -> (r: Result<SessionRemote, DbError>)
        requires
            connection_info.wf(),
        ensures
            r matches Ok(s) && s.connection_info == connection_info && s.old_information_schema
                == parse_bool_value("OLD_INFORMATION_SCHEMA"@, false),
    {
        let o = match connection_info.get_property_bool("OLD_INFORMATION_SCHEMA", false) {
            Ok(b) => b,
            Err(e) => return Err(e),
        };
        Ok(SessionRemote { connection_info, old_information_schema: o })
    }

    /// Prepares the connection to an embedded database or to a server.
    /// `AUTO_SERVER` is read as `ConnectionInfo::get_property_bool` reads it,
    /// from the text of its name, so no server is started; where a new
    /// database is asked for, `OPEN_NEW` is set to `true`. Creating the
    /// session from the connection description (see `engine::open_session`)
    /// is left to the caller, as it reads and locks files.
    pub fn connect_embedded_or_server(&mut self, open_new: bool) -> (r: Result<(), DbError>)
        requires
            old(self).connection_info.wf(),
        ensures
            r is Ok,
            final(self).connection_info.wf(),
            final(self).old_information_schema == old(self).old_information_schema,
            final(self).connection_info.view_of() == (if open_new {
                ConnectionInfoView {
                    prop: old(self).connection_info.view_of().prop.insert("OPEN_NEW"@, "true"@),
                    ..old(self).connection_info.view_of()
                }
            } else {
                old(self).connection_info.view_of()
            }),
    {
        let auto_server_mode = self.connection_info.get_property_bool("AUTO_SERVER", false)?;
        proof {
            reveal_strlit("AUTO_SERVER");
            reveal_strlit("1");
            reveal_strlit("t");
            reveal_strlit("y");
            reveal_strlit("yes");
            reveal_strlit("true");
            reveal_strlit("0");
            reveal_strlit("f");
            reveal_strlit("n");
            reveal_strlit("no");
            reveal_strlit("false");
            assert(!auto_server_mode);
        }
        if open_new {
            proof {
                reveal_strlit("true");
            }
            self.connection_info.set_property("OPEN_NEW", "true");
        }
        Ok(())
    }
}

} // verus!
