use vstd::prelude::*;

verus! {

/// The name under which a service handler is registered.
#[derive(Debug, PartialEq, Eq, Hash)]
pub struct HandlerSymbol(String);

impl Clone for HandlerSymbol {
    fn clone(&self) -> (r: Self)
        ensures
            r == *self,
    {
        HandlerSymbol(self.0.clone())
    }
}

impl HandlerSymbol {
    pub closed spec fn name(&self) -> Seq<char> {
        self.0@
    }

    pub fn new(name: String) -> (r: Self)
        ensures
            r.name() == name@,
    {
        HandlerSymbol(name)
    }

    /// The name.
    pub fn as_str(&self) -> (r: &String)
        ensures
            r@ == self.name(),
    {
        &self.0
    }
}

impl From<&str> for HandlerSymbol {
    fn from(name: &str) -> (r: Self)
        ensures
            r.name() == name@,
    {
        Self::new(name.to_owned())
    }
}

impl vstd::std_specs::convert::FromSpecImpl<&str> for HandlerSymbol {
    /// Two values of `HandlerSymbol` with one name differ as Rust values
    /// only in a `String`'s buffer, which is not a function of the name.
    open spec fn obeys_from_spec() -> bool {
        false
    }

    closed spec fn from_spec(v: &str) -> Self {
        choose|h: HandlerSymbol| h.0@ == v@
    }
}

impl From<String> for HandlerSymbol {
    fn from(name: String) -> (r: Self)
        ensures
            r.name() == name@,
    {
        HandlerSymbol(name)
    }
}

impl vstd::std_specs::convert::FromSpecImpl<String> for HandlerSymbol {
    open spec fn obeys_from_spec() -> bool {
        true
    }

    closed spec fn from_spec(v: String) -> Self {
        HandlerSymbol(v)
    }
}

/// The first frame on a new stream: which handler is to serve it.
#[derive(Debug)]
pub struct Negotiate {
    handler: HandlerSymbol,
}

impl Clone for Negotiate {
    fn clone(&self) -> (r: Self)
        ensures
            r == *self,
    {
        Negotiate { handler: self.handler.clone() }
    }
}

impl Negotiate {
    pub closed spec fn spec_handler(&self) -> HandlerSymbol {
        self.handler
    }

    pub fn new(handler: HandlerSymbol) -> (r: Self)
        ensures
            r.spec_handler() == handler,
    {
        Negotiate { handler }
    }

    pub fn handler(&self) -> (r: &HandlerSymbol)
        ensures
            *r == self.spec_handler(),
    {
        &self.handler
    }
}

} // verus!
