use vstd::prelude::*;
use vstd::string::StringExecFns;

verus! {

/// A remote resource-scheduling proxy, reachable at a base URL.
#[derive(Debug, Clone)]
pub struct LargeModelProxy {
    url: String,
}

impl View for LargeModelProxy {
    type V = Seq<char>;

    /// The proxy's base URL.
    closed spec fn view(&self) -> Seq<char> {
        self.url@
    }
}

impl LargeModelProxy {
    pub fn new(url: String) -> (r: Self)
        ensures
            r@ == url@,
    {
        LargeModelProxy { url }
    }

    pub fn get_url(&self) -> (r: &str)
        ensures
            r@ == self@,
    {
        self.url.as_str()
    }

    /// The address of the proxy's status endpoint: `{url}/status`.
    pub fn status_url(&self) -> (r: String)
        ensures
            r@ == self@ + "/status"@,
    {
        let mut r = self.url.clone();
        r.append("/status");
        r
    }
}

/// A snapshot of the proxy: its services in reported order, and its resources
/// keyed by name.
#[derive(Debug, Clone)]
pub struct LargeModelProxyStatus {
    pub services: Vec<LargeModelProxyServiceStatus>,
    pub resources: Vec<(String, LargeModelProxyResourceStatus)>,
}

#[derive(Debug, Clone)]
pub struct LargeModelProxyServiceStatus {
    pub name: String,
    pub listen_port: String,
    pub is_running: bool,
    pub active_connections: u32,
    pub last_used: Option<String>,
    pub service_url: String,
    pub resource_requirements: Vec<(String, u32)>,
}

#[derive(Debug, Clone, Copy)]
pub struct LargeModelProxyResourceStatus {
    pub total_available: u32,
    pub total_in_use: u32,
}

/// The names of a list of named entries are pairwise distinct, as the keys of a map are.
pub open spec fn names_unique<V>(entries: Seq<(String, V)>) -> bool {
    forall|i: int, j: int|
        0 <= i < entries.len() && 0 <= j < entries.len() && i != j ==> entries[i].0@
            != entries[j].0@
}

impl LargeModelProxyStatus {
    /// Resource names are unique, and so are the requirement names of each service.
    pub open spec fn well_formed(&self) -> bool {
        &&& names_unique(self.resources@)
        &&& forall|i: int|
            0 <= i < self.services@.len() ==> names_unique(
                #[trigger] self.services@[i].resource_requirements@,
            )
    }
}

/// `in_use / available * 100`, rounded down, and `0` where nothing is available.
pub open spec fn percent_of(in_use: nat, available: nat) -> nat {
    if available == 0 {
        0
    } else {
        (in_use * 100) / available
    }
}

/// With nothing available, utilization is exactly zero, whatever is in use.
pub proof fn utilization_is_zero_when_none_available(r: LargeModelProxyResourceStatus)
    requires
        r.total_available == 0,
    ensures
        percent_of(r.total_in_use as nat, r.total_available as nat) == 0,
{
}

/// Utilization percentage of `in_use` out of `available`, zero when nothing is available.
pub fn percent(in_use: u32, available: u32) -> (r: u64)
    ensures
        r as nat == percent_of(in_use as nat, available as nat),
{
    if available == 0 {
        0
    } else {
        let used: u64 = in_use as u64;
        assert(used * 100 <= u32::MAX as u64 * 100) by (nonlinear_arith)
            requires
                used <= u32::MAX,
        ;
        (used * 100) / (available as u64)
    }
}

impl LargeModelProxyResourceStatus {
    /// Utilization percentage of this resource, clamped to zero when none is available.
    pub fn utilization_percent(&self) -> (r: u64)
        ensures
            r as nat == percent_of(self.total_in_use as nat, self.total_available as nat),
    {
        percent(self.total_in_use, self.total_available)
    }
}

/// The message of a failed fetch, as a script sees it.
pub open spec fn fetch_message(e: FetchError) -> Seq<char> {
    match e {
        FetchError::Network(d) => "Failed to fetch JSON: "@ + d@,
        FetchError::Decode(d) => "Failed to parse JSON: "@ + d@,
    }
}

impl FetchError {
    /// The error raised inside a page script whose fetch failed.
    pub fn sandbox_message(&self) -> (r: String)
        ensures
            r@ == fetch_message(*self),
    {
        match self {
            FetchError::Network(d) => String::from_str("Failed to fetch JSON: ").concat(d.as_str()),
            FetchError::Decode(d) => String::from_str("Failed to parse JSON: ").concat(d.as_str()),
        }
    }
}

/// Why fetching a remote status failed.
#[derive(Debug, Clone, PartialEq, Eq)]
pub enum FetchError {
    /// The request could not be sent or no response arrived.
    Network(String),
    /// The response body was not a status document.
    Decode(String),
}

} // verus!
