use vstd::prelude::*;

verus! {

/// How to reach the mail server.
pub struct Smtp {
    pub host: String,
    pub port: u16,
    pub username: String,
    pub password: String,
    /// Whether the connection is encrypted from the start; when not set, it
    /// is on the port for that (465) and off elsewhere.
    pub implicit_tls: Option<bool>,
}

impl Smtp {
    pub fn implicit_tls(&self) -> (r: bool)
        ensures
            r == match self.implicit_tls {
                Some(b) => b,
                None => self.port == 465,
            },
    {
        match self.implicit_tls {
            Some(b) => b,
            None => match self.port {
                465 => true,
                25 | 587 => false,
                _ => false,
            },
        }
    }
}

} // verus!
