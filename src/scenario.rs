//! Assembling a scenario: the server that will serve it, the collector that
//! records what it receives, and the declared routes.
use vstd::prelude::*;
use crate::error::HarnessError;

verus! {

/// Collects the parts of a scenario before it runs.
pub struct ScenarioBuilder<S, C, R> {
    server: Option<S>,
    collector: Option<C>,
    routes: Vec<R>,
}

/// A scenario ready to run: a server, a collector and the declared routes.
pub struct Scenario<S, C, R> {
    pub server: S,
    pub collector: C,
    pub routes: Vec<R>,
}

impl<S, C, R> ScenarioBuilder<S, C, R> {
    pub closed spec fn server_part(&self) -> Option<S> {
        self.server
    }

    pub closed spec fn collector_part(&self) -> Option<C> {
        self.collector
    }

    pub closed spec fn declared(&self) -> Seq<R> {
        self.routes@
    }

    pub fn new() -> (b: Self)
        ensures
            b.server_part() is None,
            b.collector_part() is None,
            b.declared().len() == 0,
    {
        ScenarioBuilder { server: None, collector: None, routes: Vec::new() }
    }

    /// Sets the server that will serve the scenario.
    pub fn server<T>(self, server: T) -> (b: ScenarioBuilder<T, C, R>)
        ensures
            b.server_part() == Some(server),
            b.collector_part() == self.collector_part(),
            b.declared() == self.declared(),
    {
        ScenarioBuilder { server: Some(server), collector: self.collector, routes: self.routes }
    }

    /// Sets the collector that records the requests.
    pub fn collector<D>(self, collector: D) -> (b: ScenarioBuilder<S, D, R>)
        ensures
            b.server_part() == self.server_part(),
            b.collector_part() == Some(collector),
            b.declared() == self.declared(),
    {
        ScenarioBuilder { server: self.server, collector: Some(collector), routes: self.routes }
    }

    /// Declares one more route.
    pub fn route(self, route: R) -> (b: Self)
        ensures
            b.server_part() == self.server_part(),
            b.collector_part() == self.collector_part(),
            b.declared() == self.declared().push(route),
    {
        let ScenarioBuilder { server, collector, mut routes } = self;
        routes.push(route);
        ScenarioBuilder { server, collector, routes }
    }

    /// Declares several more routes, in order.
    pub fn routes(self, more: Vec<R>) -> (b: Self)
        ensures
            b.server_part() == self.server_part(),
            b.collector_part() == self.collector_part(),
            b.declared() == self.declared() + more@,
    {
        let ScenarioBuilder { server, collector, mut routes } = self;
        let mut more = more;
        routes.append(&mut more);
        ScenarioBuilder { server, collector, routes }
    }

    /// Number of routes declared so far.
    pub fn route_count(&self) -> (n: usize)
        ensures
            n == self.declared().len(),
    {
        self.routes.len()
    }

    /// The scenario, once both a server and a collector are set; a
    /// configuration error otherwise.
    pub fn build(self) -> (r: Result<Scenario<S, C, R>, HarnessError>)
        ensures
            r is Ok <==> self.server_part() is Some && self.collector_part() is Some,
            r matches Ok(s) ==> Some(s.server) == self.server_part() && Some(s.collector) == self.collector_part() && s.routes@ == self.declared(),
            r matches Err(e) ==> e is ConfigurationError,
    {
        match (self.server, self.collector) {
            (Some(server), Some(collector)) => Ok(Scenario { server, collector, routes: self.routes }),
            (None, _) => Err(HarnessError::ConfigurationError("server must be set before building".to_owned())),
            (_, None) => Err(HarnessError::ConfigurationError("collector must be set before building".to_owned())),
        }
    }
}

} // verus!
