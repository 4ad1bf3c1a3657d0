//! Abstraction over route registration operations.

use vstd::prelude::*;
use crate::router::{normalize_path_spec, RequestRouter};

verus! {

/// Route registration operations.
pub trait RouteRegistry {
    /// Well-formedness of the registry.
    spec fn registry_wf(&self) -> bool;

    /// Register routes for a service using its base path.
    fn register_service(&mut self, service_name: &str, base_path: &str)
        requires
            old(self).registry_wf(),
        ensures
            final(self).registry_wf(),
    ;

    /// Remove all routes for a service.
    fn unregister_service(&mut self, service_name: &str)
        requires
            old(self).registry_wf(),
        ensures
            final(self).registry_wf(),
    ;

    /// Remove all registered routes.
    fn clear_all(&mut self)
        ensures
            final(self).registry_wf(),
    ;

    /// Return total number of registered routes.
    fn routes_count(&self) -> usize
        requires
            self.registry_wf(),
    ;
}

impl RouteRegistry for RequestRouter {
    open spec fn registry_wf(&self) -> bool {
        self.wf()
    }

    fn register_service(&mut self, service_name: &str, base_path: &str)
        ensures
            final(self).routes() == old(self).routes().insert(normalize_path_spec(base_path@), service_name@),
    {
        self.register_service_routes(service_name, base_path);
    }

    fn unregister_service(&mut self, service_name: &str)
        ensures
            forall|k: Seq<char>| #[trigger] final(self).routes().contains_key(k)
                <==> old(self).routes().contains_key(k) && old(self).routes()[k] != service_name@,
            forall|k: Seq<char>| #[trigger] final(self).routes().contains_key(k)
                ==> final(self).routes()[k] == old(self).routes()[k],
    {
        self.unregister_service_routes(service_name);
    }

    fn clear_all(&mut self)
        ensures
            final(self).routes() == Map::<Seq<char>, Seq<char>>::empty(),
    {
        self.clear_all_routes();
    }

    fn routes_count(&self) -> (n: usize)
        ensures
            n == self.routes().len(),
    {
        RequestRouter::routes_count(self)
    }
}

} // verus!
