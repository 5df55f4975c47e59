use vstd::prelude::*;
use crate::text::push_text;

verus! {

/// Where the node manager listens.
pub struct ServerOpts {
    pub host: String,
    pub port: u16,
}

impl ServerOpts {
    /// The given host and port, with 127.0.0.1 and 8080 for those not given.
    pub fn from_args(port: Option<u16>, host: Option<String>) -> (r: ServerOpts)
        ensures
            r.port == match port {
                Some(p) => p,
                None => 8080u16,
            },
            r.host@ == match host {
                Some(h) => h@,
                None => "127.0.0.1"@,
            },
    {
        let p = match port {
            Some(p) => p,
            None => 8080,
        };
        let h = match host {
            Some(h) => h,
            None => "127.0.0.1".to_owned(),
        };
        ServerOpts { host: h, port: p }
    }
}

/// The greeting for `name`: `Hello <name>!`.
pub fn greeting(name: &str) -> (r: String)
    ensures
        r@ == "Hello "@ + name@ + "!"@,
{
    let mut s = String::new();
    push_text(&mut s, "Hello ");
    push_text(&mut s, name);
    push_text(&mut s, "!");
    s
}

} // verus!
