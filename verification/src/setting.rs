//! Process configuration: the server port and the document store's
//! coordinates.  Reading the configuration file is the application's work;
//! the crate only holds the values and renders the connection URL.

use vstd::prelude::*;
use vstd::string::*;
use crate::text::{dec_digits_int, i64_to_dec};

verus! {

#[derive(Clone, Debug)]
pub struct Server {
    pub port: i64,
}

#[derive(Clone, Debug)]
pub struct Database {
    pub host: String,
    pub port: i64,
    pub username: String,
    pub password: String,
    pub dbname: String,
}

#[derive(Clone, Debug)]
pub struct Setting {
    pub server: Server,
    pub database: Database,
}

impl Setting {
    /// The document store's connection URL:
    /// `mongodb://<username>:<password>@<host>:<port>`.
    pub fn get_db_url(&self) -> (r: String)
        ensures
            r@ == "mongodb://"@ + self.database.username@ + ":"@ + self.database.password@
                + "@"@ + self.database.host@ + ":"@ + dec_digits_int(
                self.database.port as int,
            ),
    {
        let mut url = String::from_str("mongodb://");
        url.append(self.database.username.as_str());
        url.append(":");
        url.append(self.database.password.as_str());
        url.append("@");
        url.append(self.database.host.as_str());
        url.append(":");
        let port = i64_to_dec(self.database.port);
        url.append(port.as_str());
        url
    }
}

} // verus!
