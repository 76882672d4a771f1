//! Endpoints.

use vstd::prelude::*;

verus! {

/// The mathematical content of an [`Endpoint`].
#[verifier::ext_equal]
pub ghost struct EndpointView {
    /// The service name, if known.
    pub service_name: Option<Seq<char>>,
    /// The IPv4 address as four octets, if known.
    pub ipv4: Option<Seq<u8>>,
    /// The IPv6 address as sixteen octets, if known.
    pub ipv6: Option<Seq<u8>>,
    /// The port, if known.
    pub port: Option<u16>,
}

/// The network context of a node in the service graph.
///
/// Addresses are held as their raw octets so that the codecs on them can
/// be verified; how a process learns its own address stays outside the
/// library.
#[derive(Debug, PartialEq)]
pub struct Endpoint {
    service_name: Option<String>,
    ipv4: Option<[u8; 4]>,
    ipv6: Option<[u8; 16]>,
    port: Option<u16>,
}

impl View for Endpoint {
    type V = EndpointView;

    closed spec fn view(&self) -> EndpointView {
        EndpointView {
            service_name: match self.service_name {
                Some(ref s) => Some(s@),
                None => None,
            },
            ipv4: match self.ipv4 {
                Some(a) => Some(a@),
                None => None,
            },
            ipv6: match self.ipv6 {
                Some(a) => Some(a@),
                None => None,
            },
            port: self.port,
        }
    }
}

impl Clone for Endpoint {
    /// An endpoint clones to an equal endpoint.
    fn clone(&self) -> (r: Endpoint)
        ensures
            r@ == self@,
    {
        let r = Endpoint {
            service_name: match &self.service_name {
                Some(s) => Some(s.clone()),
                None => None,
            },
            ipv4: self.ipv4,
            ipv6: self.ipv6,
            port: self.port,
        };
        proof {
            assert(r@ =~= self@);
        }
        r
    }
}

impl Endpoint {
    /// Returns a builder type used to construct an `Endpoint`.
    pub fn builder() -> (r: Builder)
        ensures
            r@.service_name is None,
            r@.ipv4 is None,
            r@.ipv6 is None,
            r@.port is None,
    {
        Builder { service_name: None, ipv4: None, ipv6: None, port: None }
    }

    /// Returns the name of the service at this endpoint.
    pub fn service_name(&self) -> (r: Option<&str>)
        ensures
            match r {
                Some(s) => self@.service_name == Some(s@),
                None => self@.service_name is None,
            },
    {
        match &self.service_name {
            Some(s) => Some(s.as_str()),
            None => None,
        }
    }

    /// Returns the IPv4 address of the service at this endpoint.
    pub fn ipv4(&self) -> (r: Option<[u8; 4]>)
        ensures
            match r {
                Some(a) => self@.ipv4 == Some(a@),
                None => self@.ipv4 is None,
            },
    {
        self.ipv4
    }

    /// Returns the IPv6 address of the service at this endpoint.
    pub fn ipv6(&self) -> (r: Option<[u8; 16]>)
        ensures
            match r {
                Some(a) => self@.ipv6 == Some(a@),
                None => self@.ipv6 is None,
            },
    {
        self.ipv6
    }

    /// Returns the port of the service at this endpoint.
    pub fn port(&self) -> (r: Option<u16>)
        ensures
            r == self@.port,
    {
        self.port
    }
}

/// A builder type for `Endpoint`s.
pub struct Builder {
    service_name: Option<String>,
    ipv4: Option<[u8; 4]>,
    ipv6: Option<[u8; 16]>,
    port: Option<u16>,
}

impl View for Builder {
    type V = EndpointView;

    closed spec fn view(&self) -> EndpointView {
        EndpointView {
            service_name: match self.service_name {
                Some(ref s) => Some(s@),
                None => None,
            },
            ipv4: match self.ipv4 {
                Some(a) => Some(a@),
                None => None,
            },
            ipv6: match self.ipv6 {
                Some(a) => Some(a@),
                None => None,
            },
            port: self.port,
        }
    }
}

impl From<Endpoint> for Builder {
    /// A builder primed with the fields of an existing endpoint.
    fn from(e: Endpoint) -> (r: Builder)
        ensures
            r@ == e@,
    {
        Builder { service_name: e.service_name, ipv4: e.ipv4, ipv6: e.ipv6, port: e.port }
    }
}

impl vstd::std_specs::convert::FromSpecImpl<Endpoint> for Builder {
    open spec fn obeys_from_spec() -> bool {
        false
    }

    closed spec fn from_spec(e: Endpoint) -> Builder {
        Builder { service_name: e.service_name, ipv4: e.ipv4, ipv6: e.ipv6, port: e.port }
    }
}

impl Builder {
    /// Sets the service name associated with the endpoint.
    ///
    /// Defaults to `None`.
    pub fn service_name(&mut self, service_name: &str) -> (r: &mut Builder)
        ensures
            r@ == (EndpointView { service_name: Some(service_name@), ..old(self)@ }),
            final(self)@ == final(r)@,
    {
        self.service_name = Some(service_name.to_owned());
        self
    }

    /// Sets the IPv4 address associated with the endpoint.
    ///
    /// Defaults to `None`.
    pub fn ipv4(&mut self, ipv4: [u8; 4]) -> (r: &mut Builder)
        ensures
            r@ == (EndpointView { ipv4: Some(ipv4@), ..old(self)@ }),
            final(self)@ == final(r)@,
    {
        self.ipv4 = Some(ipv4);
        self
    }

    /// Sets the IPv6 address associated with the endpoint.
    ///
    /// Defaults to `None`.
    pub fn ipv6(&mut self, ipv6: [u8; 16]) -> (r: &mut Builder)
        ensures
            r@ == (EndpointView { ipv6: Some(ipv6@), ..old(self)@ }),
            final(self)@ == final(r)@,
    {
        self.ipv6 = Some(ipv6);
        self
    }

    /// Sets the port associated with the endpoint.
    ///
    /// Defaults to `None`.
    pub fn port(&mut self, port: u16) -> (r: &mut Builder)
        ensures
            r@ == (EndpointView { port: Some(port), ..old(self)@ }),
            final(self)@ == final(r)@,
    {
        self.port = Some(port);
        self
    }

    /// Constructs the `Endpoint`.
    pub fn build(&self) -> (r: Endpoint)
        ensures
            r@ == self@,
    {
        Endpoint {
            service_name: self.service_name.clone(),
            ipv4: self.ipv4,
            ipv6: self.ipv6,
            port: self.port,
        }
    }
}

} // verus!
