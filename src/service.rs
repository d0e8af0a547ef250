use vstd::prelude::*;
use vstd::string::StringExecFns;

use crate::decimal::{decimal, decimal_text};
use crate::proxy::LargeModelProxy;

verus! {

/// A backend the dashboard links to.
#[derive(Debug, Clone)]
pub enum Service {
    /// A service on a fixed port of the dashboard's own host.
    Local { port: u16 },
    /// A remote proxy whose status is fetched on each render.
    RemoteProxy(LargeModelProxy),
}

/// The link of a service: `{base_url}:{port}/` for a local one, the proxy's
/// own base URL for a remote one.
pub open spec fn resolved_url(service: Service, base_url: Seq<char>) -> Seq<char> {
    match service {
        Service::Local { port } => base_url + ":"@ + decimal_text(port as nat) + "/"@,
        Service::RemoteProxy(proxy) => proxy@,
    }
}

impl Service {
    pub fn resolve_url(&self, base_url: &str) -> (r: String)
        ensures
            r@ == resolved_url(*self, base_url@),
    {
        match self {
            Service::Local { port } => {
                let mut r = String::from_str(base_url);
                r.append(":");
                let digits = decimal(*port as u64);
                r.append(digits.as_str());
                r.append("/");
                r
            },
            Service::RemoteProxy(proxy) => String::from_str(proxy.get_url()),
        }
    }
}

/// Resolving a local service's link gives exactly `{base_url}:{port}/`.
pub proof fn local_url_law(port: u16, base_url: Seq<char>)
    ensures
        resolved_url(Service::Local { port }, base_url) == base_url + ":"@ + decimal_text(
            port as nat,
        ) + "/"@,
{
}

} // verus!
