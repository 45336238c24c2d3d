//! The layer and the service that carry a configuration into a chain of
//! request handlers.
//!
//! A [`TariffLayer`] holds one configuration; every [`TariffService`] made from
//! it shares that configuration and wraps one inner handler. For each request
//! the service says how long to hold it back; the caller waits that long and
//! then hands the request, unchanged, to the inner handler.

use crate::config::{decision, Config};
use crate::request::RequestContext;
use std::sync::Arc;
use std::time::Duration;
use vstd::prelude::*;

verus! {

/// Calls `Arc::clone`, which makes another pointer to the same allocation:
/// the new pointer leads to the value that the old one leads to.
#[verifier::external_body]
fn share(config: &Arc<Config>) -> (r: Arc<Config>)
    ensures
        *r == **config,
{
    Arc::clone(config)
}

/// Wraps handlers into services that hold requests back by country.
pub struct TariffLayer {
    config: Arc<Config>,
}

impl TariffLayer {
    /// The configuration that the layer holds.
    pub closed spec fn config(&self) -> Config {
        *self.config
    }

    /// A layer that holds `config`.
    pub fn new(config: Config) -> (r: Self)
        ensures
            r.config() == config,
    {
        TariffLayer { config: Arc::new(config) }
    }

    /// Wraps `inner` into a service that shares this layer's configuration.
    pub fn layer<S>(&self, inner: S) -> (r: TariffService<S>)
        ensures
            r.config() == self.config(),
            r.inner_handler() == inner,
    {
        TariffService { inner, config: share(&self.config) }
    }
}

impl Clone for TariffLayer {
    /// Another layer that shares the same configuration.
    fn clone(&self) -> (r: Self)
        ensures
            r.config() == self.config(),
    {
        TariffLayer { config: share(&self.config) }
    }
}

/// A handler together with the configuration by which its requests are held
/// back.
pub struct TariffService<S> {
    inner: S,
    config: Arc<Config>,
}

impl<S: Clone> Clone for TariffService<S> {
    /// Another service around a clone of the handler, with the same
    /// configuration.
    fn clone(&self) -> (r: Self)
        ensures
            r.config() == self.config(),
    {
        TariffService { inner: self.inner.clone(), config: share(&self.config) }
    }
}

impl<S> TariffService<S> {
    /// The configuration that the service shares with its layer.
    pub closed spec fn config(&self) -> Config {
        *self.config
    }

    /// The handler that the service wraps.
    pub closed spec fn inner_handler(&self) -> S {
        self.inner
    }

    /// The delay for a request. The service itself is not changed.
    pub fn decide(&self, req: &RequestContext) -> (r: Option<Duration>)
        ensures
            r == decision(self.config().tariffs(), self.config().database(), req@),
    {
        self.config.decide(req)
    }

    /// The wrapped handler.
    pub fn inner(&self) -> (r: &S)
        ensures
            *r == self.inner_handler(),
    {
        &self.inner
    }

    /// The wrapped handler, to call it. The configuration stays as it is.
    pub fn inner_mut(&mut self) -> (r: &mut S)
        ensures
            *r == old(self).inner_handler(),
            final(self).inner_handler() == *final(r),
            final(self).config() == old(self).config(),
    {
        &mut self.inner
    }

    /// Gives the wrapped handler back.
    pub fn into_inner(self) -> (r: S)
        ensures
            r == self.inner_handler(),
    {
        self.inner
    }
}

} // verus!
