//! The capability every stage offers: a readiness probe, then an invocation.

use vstd::prelude::*;

verus! {

/// The answer of a readiness probe.
#[derive(Debug, PartialEq, Eq, Structural)]
pub enum Readiness<E> {
    Ready,
    NotReady,
    Failed(E),
}

/// A terminal stage that adds the two numbers of its request.
#[derive(Debug, Clone, Copy)]
pub struct AddService;

impl AddService {
    /// Always ready: the sum needs nothing but the request.
    pub fn poll_ready(&mut self) -> (r: Readiness<&'static str>)
        ensures
            r is Ready,
    {
        Readiness::Ready
    }

    /// Answers `(a, b)` with `a + b`; it never fails.
    pub fn call(&mut self, req: (i32, i32)) -> (r: Result<i32, &'static str>)
        requires
            i32::MIN <= req.0 + req.1 <= i32::MAX,
        ensures
            r == Ok::<i32, &'static str>((req.0 + req.1) as i32),
    {
        Ok(req.0 + req.1)
    }
}

/// A transport adapter: it owns one connection handle and exposes it as a
/// stage. Sending through the handle is the caller's I/O; the adapter adds
/// no readiness condition of its own.
#[derive(Clone)]
pub struct HyperService<S> {
    pub send_request: S,
}

impl<S> HyperService<S> {
    pub fn new(send_request: S) -> (r: HyperService<S>)
        ensures
            r.send_request == send_request,
    {
        HyperService { send_request }
    }

    /// Always ready: readiness of the connection is the handle's own affair.
    pub fn poll_ready<E>(&mut self) -> (r: Readiness<E>)
        ensures
            r is Ready,
            *final(self) == *old(self),
    {
        Readiness::Ready
    }
}

} // verus!
