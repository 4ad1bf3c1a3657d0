//! Path parameters extracted from a request, and the result of matching a
//! request against an endpoint.

use vstd::prelude::*;
use crate::config::EndpointDefinition;
use crate::strmap::StrMap;

verus! {

/// Extracted path parameters of a request.
pub struct PathParameters {
    params: StrMap<String>,
}

impl PathParameters {
    /// Well-formedness of the parameter table.
    pub open spec fn wf(&self) -> bool {
        self.table().wf()
    }

    /// The underlying table.
    pub closed spec fn table(&self) -> StrMap<String> {
        self.params
    }

    /// The parameters: name to value.
    pub open spec fn view(&self) -> Map<Seq<char>, Seq<char>> {
        self.table()@.map_values(|v: String| v@)
    }

    pub fn new() -> (p: Self)
        ensures
            p.wf(),
            p@ == Map::<Seq<char>, Seq<char>>::empty(),
    {
        let p = PathParameters { params: StrMap::new() };
        assert(p@ =~= Map::<Seq<char>, Seq<char>>::empty());
        p
    }

    pub fn insert(&mut self, key: String, value: String)
        requires
            old(self).wf(),
        ensures
            final(self).wf(),
            final(self)@ == old(self)@.insert(key@, value@),
    {
        let ghost k = key@;
        let ghost v = value@;
        self.params.insert(key, value);
        assert(self@ =~= old(self)@.insert(k, v));
    }

    pub fn get(&self, key: &str) -> (r: Option<&String>)
        requires
            self.wf(),
        ensures
            match r {
                Some(v) => self@.contains_key(key@) && v@ == self@[key@],
                None => !self@.contains_key(key@),
            },
    {
        self.params.get(key)
    }

    pub fn all(&self) -> (r: &StrMap<String>)
        ensures
            r@.map_values(|v: String| v@) == self@,
            r.wf() == self.wf(),
    {
        &self.params
    }

    pub fn is_empty(&self) -> (b: bool)
        requires
            self.wf(),
        ensures
            b == (self@.len() == 0),
    {
        proof {
            assert(self@.dom() =~= self.table()@.dom());
        }
        self.params.is_empty()
    }
}

/// Route matching result with extracted parameters.
pub struct RouteMatch {
    pub endpoint: EndpointDefinition,
    pub endpoint_index: usize,
    pub path_params: PathParameters,
}

} // verus!
