use vstd::prelude::*;
use vstd::std_specs::cmp::PartialEqSpec;

verus! {

/// Whether `val` equals its type's default value.
pub fn is_default<T: Default + Eq>(val: &T) -> (r: bool)
    ensures
        exists|d: T| #[trigger] call_ensures(T::default, (), d)
            && (T::obeys_eq_spec() ==> r == val.eq_spec(&d)),
{
    let d = T::default();
    *val == d
}

/// The port a server listens on when none is configured.
pub const DEFAULT_PORT: u16 = 8000;

/// Listening settings of the server.
#[derive(Clone, Debug)]
pub struct Server {
    pub port: u16,
}

impl Default for Server {
    fn default() -> (r: Server)
        ensures
            r.port == DEFAULT_PORT,
    {
        Server { port: DEFAULT_PORT }
    }
}

/// Where backend calls are sent.
#[derive(Clone, Debug)]
pub struct Upstream {
    base_url: Option<String>,
}

impl Upstream {
    pub fn new(base_url: Option<String>) -> (r: Upstream)
        ensures
            r.spec_base_url() == base_url,
    {
        Upstream { base_url }
    }

    pub fn base_url(&self) -> (r: &Option<String>)
        ensures
            *r == self.spec_base_url(),
    {
        &self.base_url
    }

    pub closed spec fn spec_base_url(&self) -> Option<String> {
        self.base_url
    }
}

impl Default for Upstream {
    fn default() -> (r: Upstream)
        ensures
            r.spec_base_url() is None,
    {
        Upstream { base_url: None }
    }
}

/// A type's caching rule: its values stay fresh for `max_age` seconds.
#[derive(Clone, Debug, PartialEq, Eq, Structural)]
pub struct Cache {
    pub max_age: u64,
}

impl Cache {
    /// A lifetime must be positive.
    pub open spec fn wf(&self) -> bool {
        self.max_age > 0
    }

    /// The rule for a positive lifetime; none for zero.
    pub fn new(max_age: u64) -> (r: Option<Cache>)
        ensures
            max_age > 0 <==> r is Some,
            r matches Some(c) ==> c.max_age == max_age && c.wf(),
    {
        if max_age > 0 { Some(Cache { max_age }) } else { None }
    }
}

/// A field resolved by a call to a backend path.
#[derive(Clone, Debug)]
pub struct Http {
    pub path: String,
}

/// How a field is resolved.
#[derive(Clone, Debug)]
pub enum Resolver {
    Http(Http),
}

/// Reads configuration documents.
pub struct ConfigReader {}

impl ConfigReader {
    pub fn init() -> (r: ConfigReader)
        ensures
            r == (ConfigReader {}),
    {
        ConfigReader {}
    }
}

} // verus!
