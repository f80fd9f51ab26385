//! Sinks for the requests that matched a declared route.
use vstd::prelude::*;

verus! {

/// Receives every request that matched a declared route, in arrival order, and
/// turns what it received into the run's output at the end.
pub trait Collector<R> {
    type Output;

    /// The requests received so far, in order.
    spec fn recorded(&self) -> Seq<R>;

    fn collect(&mut self, request: R)
        ensures
            final(self).recorded() == old(self).recorded().push(request),
    ;

    /// `out` is what this collector turns its received requests into.
    spec fn output_of(&self, out: &Self::Output) -> bool;

    fn into_output(self) -> (out: Self::Output)
        ensures
            self.output_of(&out),
    ;
}

/// Collects the requests into a `Vec`, in arrival order.
pub struct DefaultCollector<R> {
    requests: Vec<R>,
}

impl<R> DefaultCollector<R> {
    pub closed spec fn items(&self) -> Seq<R> {
        self.requests@
    }

    pub fn new() -> (c: Self)
        ensures
            c.items() == Seq::<R>::empty(),
    {
        DefaultCollector { requests: Vec::new() }
    }

    pub fn len(&self) -> (n: usize)
        ensures
            n == self.items().len(),
    {
        self.requests.len()
    }

    /// The collected requests, in arrival order.
    pub fn into_requests(self) -> (v: Vec<R>)
        ensures
            v@ == self.items(),
    {
        self.requests
    }
}

impl<R> Collector<R> for DefaultCollector<R> {
    type Output = Vec<R>;

    open spec fn recorded(&self) -> Seq<R> {
        self.items()
    }

    /// The output is every received request, in arrival order.
    open spec fn output_of(&self, out: &Vec<R>) -> bool {
        out@ == self.items()
    }

    fn collect(&mut self, request: R) {
        self.requests.push(request);
    }

    fn into_output(self) -> Vec<R> {
        self.requests
    }
}

} // verus!
