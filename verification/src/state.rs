//! The mutable state of a running service: fixtures (with the values they
//! started from), runtime data, and the rotation counters of scenarios.

use vstd::prelude::*;
use crate::config::ScenarioStrategy;
use crate::handler::{runtime_error_view, RuntimeError};
use crate::json::{
    clone_items, has_field_equal, has_field_value, items_data, json_clone, json_data,
    lemma_items_data_ext, JsonData, JsonValue,
};
use crate::strmap::StrMap;
use crate::text::{decimal, usize_to_string};
use rand::Rng;

verus! {

/// The views of the values of a map.
pub open spec fn data_map(m: StrMap<JsonValue>) -> Map<Seq<char>, JsonData> {
    m@.map_values(|v: JsonValue| json_data(v))
}

/// The rotation counter recorded for an endpoint (0 when none is).
pub open spec fn counter_in(v: Seq<(usize, usize)>, e: usize) -> usize
    decreases v.len(),
{
    if v.len() == 0 {
        0
    } else if v[0].0 == e {
        v[0].1
    } else {
        counter_in(v.drop_first(), e)
    }
}

/// The message for a fixture that does not exist.
pub open spec fn fixture_not_found(key: Seq<char>) -> Seq<char> {
    "Fixture '"@ + key + "' not found"@
}

/// The message for a fixture that is not an array.
pub open spec fn fixture_not_array(key: Seq<char>) -> Seq<char> {
    "Fixture '"@ + key + "' is not an array"@
}

/// The message for an index past the end of a fixture array.
pub open spec fn index_out_of_bounds(index: nat, key: Seq<char>) -> Seq<char> {
    "Index "@ + decimal(index) + " out of bounds for fixture array '"@ + key + "'"@
}

/// The position of the first item that is an object whose field `field` is
/// `value`.
pub open spec fn first_with_field(items: Seq<JsonData>, field: Seq<char>, value: JsonData) -> Option<int>
    decreases items.len(),
{
    if items.len() == 0 {
        None
    } else {
        match first_with_field(items.drop_last(), field, value) {
            Some(k) => Some(k),
            None => if has_field_value(items.last(), field, value) { Some(items.len() - 1) } else { None },
        }
    }
}

/// A copy of a map of JSON values.
pub fn clone_json_map(m: &StrMap<JsonValue>) -> (r: StrMap<JsonValue>)
    requires
        m.wf(),
    ensures
        r.wf(),
        data_map(r) == data_map(*m),
{
    proof {
        m.lemma_view();
    }
    let mut out: StrMap<JsonValue> = StrMap::new();
    let n = m.len();
    let ghost ks = m.keys_view();
    let mut i: usize = 0;
    while i < n
        invariant
            m.wf(),
            n == ks.len(),
            ks == m.keys_view(),
            ks.no_duplicates(),
            forall|j: int| 0 <= j < ks.len() ==> #[trigger] m@[ks[j]] == m.vals_view()[j],
            forall|k: Seq<char>| #[trigger] m@.contains_key(k) <==> ks.contains(k),
            i <= n,
            out.wf(),
            forall|k: Seq<char>| #[trigger] out@.contains_key(k) <==> ks.take(i as int).contains(k),
            forall|k: Seq<char>| #[trigger] out@.contains_key(k) ==> json_data(out@[k]) == json_data(m@[k]),
        decreases n - i,
    {
        let k = m.key_at(i).clone();
        let v = json_clone(m.value_at(i));
        let ghost before = out@;
        out.insert(k, v);
        proof {
            assert(ks.take(i + 1) =~= ks.take(i as int).push(ks[i as int]));
            assert forall|k2: Seq<char>| #[trigger] out@.contains_key(k2) <==> ks.take(i + 1).contains(k2) by {
                if k2 == ks[i as int] {
                    assert(ks.take(i + 1)[i as int] == k2);
                }
                if ks.take(i + 1).contains(k2) && k2 != ks[i as int] {
                    let j = ks.take(i + 1).index_of(k2);
                    assert(ks.take(i as int)[j] == k2);
                }
            }
        }
        i = i + 1;
    }
    proof {
        assert(ks.take(n as int) =~= ks);
        assert(data_map(out) =~= data_map(*m));
    }
    out
}

/// An in-memory data bucket shared by stateful routes.
#[derive(Debug)]
pub struct DataBucket {
    data: StrMap<JsonValue>,
}

impl DataBucket {
    /// The values stored.
    pub closed spec fn view(&self) -> Map<Seq<char>, JsonData> {
        data_map(self.data)
    }

    /// The table is well formed.
    pub closed spec fn wf(&self) -> bool {
        self.data.wf()
    }

    /// A bucket holding the given values, or nothing.
    pub fn new(initial: Option<StrMap<JsonValue>>) -> (b: Self)
        requires
            initial matches Some(m) ==> m.wf(),
        ensures
            b.wf(),
            b@ == match initial {
                Some(m) => data_map(m),
                None => Map::<Seq<char>, JsonData>::empty(),
            },
    {
        let ghost given = initial;
        let data = match initial {
            Some(m) => m,
            None => StrMap::new(),
        };
        let b = DataBucket { data };
        assert(b@ =~= match given {
            Some(m) => data_map(m),
            None => Map::<Seq<char>, JsonData>::empty(),
        });
        b
    }

    /// A copy of the value under `key`.
    pub fn get(&self, key: &str) -> (r: Option<JsonValue>)
        requires
            self.wf(),
        ensures
            match r {
                Some(v) => self@.contains_key(key@) && json_data(v) == self@[key@],
                None => !self@.contains_key(key@),
            },
    {
        match self.data.get(key) {
            Some(v) => Some(json_clone(v)),
            None => None,
        }
    }

    /// Stores a value under `key`.
    pub fn set(&mut self, key: String, value: JsonValue)
        requires
            old(self).wf(),
        ensures
            final(self).wf(),
            final(self)@ == old(self)@.insert(key@, json_data(value)),
    {
        let ghost k = key@;
        let ghost d = json_data(value);
        self.data.insert(key, value);
        assert(self@ =~= old(self)@.insert(k, d));
    }

    /// Removes the value under `key`, giving it back.
    pub fn remove(&mut self, key: &str) -> (r: Option<JsonValue>)
        requires
            old(self).wf(),
        ensures
            final(self).wf(),
            final(self)@ == old(self)@.remove(key@),
            match r {
                Some(v) => old(self)@.contains_key(key@) && json_data(v) == old(self)@[key@],
                None => !old(self)@.contains_key(key@),
            },
    {
        let r = self.data.remove(key);
        assert(self@ =~= old(self)@.remove(key@));
        r
    }

    /// A copy of all values.
    pub fn all(&self) -> (r: StrMap<JsonValue>)
        requires
            self.wf(),
        ensures
            r.wf(),
            data_map(r) == self@,
    {
        clone_json_map(&self.data)
    }

    /// A copy of the bucket.
    pub fn copy(&self) -> (r: DataBucket)
        requires
            self.wf(),
        ensures
            r.wf(),
            r@ == self@,
    {
        DataBucket { data: clone_json_map(&self.data) }
    }
}

/// The state of a running service.
#[derive(Debug)]
pub struct ServiceState {
    fixtures: StrMap<JsonValue>,
    runtime_data: StrMap<JsonValue>,
    initial_fixtures: StrMap<JsonValue>,
    bucket: DataBucket,
    response_counters: Vec<(usize, usize)>,
}

impl ServiceState {
    /// The maps are well formed.
    pub closed spec fn wf(&self) -> bool {
        &&& self.fixtures.wf()
        &&& self.runtime_data.wf()
        &&& self.initial_fixtures.wf()
        &&& self.bucket.wf()
    }

    /// The shared data bucket.
    pub closed spec fn bucket_view(&self) -> Map<Seq<char>, JsonData> {
        self.bucket@
    }

    /// A copy of the data bucket.
    pub fn bucket(&self) -> (b: DataBucket)
        requires
            self.wf(),
        ensures
            b.wf(),
            b@ == self.bucket_view(),
    {
        self.bucket.copy()
    }

    /// The current fixtures.
    pub closed spec fn fixtures_view(&self) -> Map<Seq<char>, JsonData> {
        data_map(self.fixtures)
    }

    /// The fixtures the service started with.
    pub closed spec fn initial_view(&self) -> Map<Seq<char>, JsonData> {
        data_map(self.initial_fixtures)
    }

    /// The runtime data.
    pub closed spec fn runtime_view(&self) -> Map<Seq<char>, JsonData> {
        data_map(self.runtime_data)
    }

    /// The rotation counter of an endpoint.
    pub closed spec fn counter_of(&self, endpoint_index: usize) -> usize {
        counter_in(self.response_counters@, endpoint_index)
    }

    /// A state whose fixtures start as given, with no runtime data and every
    /// rotation counter at 0.
    pub fn new(fixtures: Option<StrMap<JsonValue>>, bucket: Option<StrMap<JsonValue>>) -> (s: Self)
        requires
            fixtures matches Some(f) ==> f.wf(),
            bucket matches Some(b) ==> b.wf(),
        ensures
            s.bucket_view() == match bucket {
                Some(b) => data_map(b),
                None => Map::<Seq<char>, JsonData>::empty(),
            },
            s.wf(),
            s.fixtures_view() == match fixtures {
                Some(f) => data_map(f),
                None => Map::<Seq<char>, JsonData>::empty(),
            },
            s.initial_view() == s.fixtures_view(),
            s.runtime_view() == Map::<Seq<char>, JsonData>::empty(),
            forall|e: usize| #[trigger] s.counter_of(e) == 0,
    {
        let ghost given = fixtures;
        let start = match fixtures {
            Some(f) => f,
            None => StrMap::new(),
        };
        let initial_fixtures = clone_json_map(&start);
        let runtime_data: StrMap<JsonValue> = StrMap::new();
        let s = ServiceState {
            fixtures: start,
            runtime_data,
            initial_fixtures,
            bucket: DataBucket::new(bucket),
            response_counters: Vec::new(),
        };
        proof {
            assert(s.fixtures_view() =~= match given {
                Some(f) => data_map(f),
                None => Map::<Seq<char>, JsonData>::empty(),
            });
            assert(s.runtime_view() =~= Map::<Seq<char>, JsonData>::empty());
        }
        s
    }

    /// The next response position for an endpoint rotating among `total`
    /// responses: in turn, from 0, for the sequential strategy; at random
    /// below `total` otherwise.
    pub fn next_response_index(&mut self, endpoint_index: usize, total: usize, strategy: ScenarioStrategy) -> (r: usize)
        requires
            total > 0,
        ensures
            final(self).fixtures_view() == old(self).fixtures_view(),
            final(self).initial_view() == old(self).initial_view(),
            final(self).runtime_view() == old(self).runtime_view(),
            final(self).wf() == old(self).wf(),
            match strategy {
                ScenarioStrategy::Sequential => {
                    &&& r == old(self).counter_of(endpoint_index)
                    &&& final(self).counter_of(endpoint_index) == (r + 1) % (total as int)
                    &&& forall|e: usize| e != endpoint_index ==> #[trigger] final(self).counter_of(e) == old(self).counter_of(e)
                },
                ScenarioStrategy::Random => {
                    &&& r < total
                    &&& forall|e: usize| #[trigger] final(self).counter_of(e) == old(self).counter_of(e)
                },
            },
    {
        match strategy {
            ScenarioStrategy::Sequential => {
                let ghost old_counters = self.response_counters@;
                let mut i: usize = 0;
                assert(old_counters.skip(0) =~= old_counters);
                while i < self.response_counters.len()
                    invariant
                        total > 0,
                        strategy == ScenarioStrategy::Sequential,
                        self.fixtures == old(self).fixtures,
                        self.runtime_data == old(self).runtime_data,
                        self.initial_fixtures == old(self).initial_fixtures,
                        self.bucket == old(self).bucket,
                        self.response_counters@ == old_counters,
                        old_counters == old(self).response_counters@,
                        i <= old_counters.len(),
                        counter_in(old_counters.skip(i as int), endpoint_index) == counter_in(old_counters, endpoint_index),
                        forall|j: int| 0 <= j < i ==> old_counters[j].0 != endpoint_index,
                    decreases old_counters.len() - i,
                {
                    assert(old_counters.skip(i as int)[0] == old_counters[i as int]);
                    if self.response_counters[i].0 == endpoint_index {
                        let idx = self.response_counters[i].1;
                        let m: u128 = (idx as u128 + 1) % (total as u128);
                        assert(m < total);
                        let next = m as usize;
                        assert(next == (idx + 1) % (total as int));
                        self.response_counters.set(i, (endpoint_index, next));
                        proof {
                            lemma_counter_update(old_counters, i as int, endpoint_index, next);
                            assert forall|e: usize| e != endpoint_index implies #[trigger] self.counter_of(e)
                                == old(self).counter_of(e) by {
                                assert(counter_in(old_counters.update(i as int, (endpoint_index, next)), e)
                                    == counter_in(old_counters, e));
                            }
                        }
                        return idx;
                    }
                    assert(old_counters.skip(i as int).drop_first() =~= old_counters.skip(i + 1));
                    i = i + 1;
                }
                let next = (1 % total as u128) as usize;
                self.response_counters.push((endpoint_index, next));
                proof {
                    lemma_counter_push(old_counters, endpoint_index, next);
                }
                0
            },
            ScenarioStrategy::Random => random_below(total),
        }
    }

    /// The rotation counter of an endpoint.
    pub fn response_counter(&self, endpoint_index: usize) -> (r: usize)
        ensures
            r == self.counter_of(endpoint_index),
    {
        let mut i: usize = 0;
        assert(self.response_counters@.skip(0) =~= self.response_counters@);
        while i < self.response_counters.len()
            invariant
                i <= self.response_counters@.len(),
                counter_in(self.response_counters@, endpoint_index)
                    == counter_in(self.response_counters@.skip(i as int), endpoint_index),
            decreases self.response_counters@.len() - i,
        {
            let ghost rest = self.response_counters@.skip(i as int);
            assert(rest[0] == self.response_counters@[i as int]);
            if self.response_counters[i].0 == endpoint_index {
                return self.response_counters[i].1;
            }
            assert(rest.drop_first() =~= self.response_counters@.skip(i + 1));
            i = i + 1;
        }
        0
    }

    /// The fixture stored under `key`.
    pub fn get_fixture(&self, key: &str) -> (r: Option<&JsonValue>)
        requires
            self.wf(),
        ensures
            match r {
                Some(v) => self.fixtures_view().contains_key(key@) && json_data(*v) == self.fixtures_view()[key@],
                None => !self.fixtures_view().contains_key(key@),
            },
    {
        self.fixtures.get(key)
    }

    /// Stores a fixture under `key`.
    pub fn set_fixture(&mut self, key: String, value: JsonValue)
        requires
            old(self).wf(),
        ensures
            final(self).wf(),
            final(self).fixtures_view() == old(self).fixtures_view().insert(key@, json_data(value)),
            final(self).initial_view() == old(self).initial_view(),
            final(self).runtime_view() == old(self).runtime_view(),
            forall|e: usize| #[trigger] final(self).counter_of(e) == old(self).counter_of(e),
    {
        let ghost k = key@;
        let ghost d = json_data(value);
        self.fixtures.insert(key, value);
        assert(self.fixtures_view() =~= old(self).fixtures_view().insert(k, d));
    }

    /// Removes the fixture stored under `key`, giving it back.
    pub fn remove_fixture(&mut self, key: &str) -> (r: Option<JsonValue>)
        requires
            old(self).wf(),
        ensures
            final(self).wf(),
            final(self).fixtures_view() == old(self).fixtures_view().remove(key@),
            match r {
                Some(v) => old(self).fixtures_view().contains_key(key@) && json_data(v) == old(self).fixtures_view()[key@],
                None => !old(self).fixtures_view().contains_key(key@),
            },
            final(self).initial_view() == old(self).initial_view(),
            final(self).runtime_view() == old(self).runtime_view(),
            forall|e: usize| #[trigger] final(self).counter_of(e) == old(self).counter_of(e),
    {
        let r = self.fixtures.remove(key);
        assert(self.fixtures_view() =~= old(self).fixtures_view().remove(key@));
        r
    }

    /// Appends an item to the array fixture under `key`, creating a
    /// one-item array when there is no such fixture.
    pub fn add_to_fixture_array(&mut self, fixture_key: &str, item: JsonValue) -> (r: Result<(), RuntimeError>)
        requires
            old(self).wf(),
        ensures
            final(self).wf(),
            final(self).initial_view() == old(self).initial_view(),
            final(self).runtime_view() == old(self).runtime_view(),
            forall|e: usize| #[trigger] final(self).counter_of(e) == old(self).counter_of(e),
            !old(self).fixtures_view().contains_key(fixture_key@) ==> r is Ok && final(self).fixtures_view()
                == old(self).fixtures_view().insert(fixture_key@, JsonData::Array(seq![json_data(item)])),
            old(self).fixtures_view().contains_key(fixture_key@) ==> match old(self).fixtures_view()[fixture_key@] {
                JsonData::Array(items) => r is Ok && final(self).fixtures_view()
                    == old(self).fixtures_view().insert(fixture_key@, JsonData::Array(items.push(json_data(item)))),
                _ => r matches Err(e) && runtime_error_view(e) == (fixture_not_array(fixture_key@),
                    "Use add_to_fixture_array only with array fixtures"@)
                    && final(self).fixtures_view() == old(self).fixtures_view(),
            },
    {
        let ghost d = json_data(item);
        match self.fixtures.get(fixture_key) {
            Some(v) => match v {
                JsonValue::Array(arr) => {
                    let mut items = clone_items(arr);
                    let ghost before = items@;
                    items.push(item);
                    proof {
                        assert(items@.drop_last() =~= before);
                    }
                    self.fixtures.insert(String::from_str(fixture_key), JsonValue::Array(items));
                    assert(self.fixtures_view() =~= old(self).fixtures_view().insert(fixture_key@,
                        JsonData::Array(items_data(before).push(d))));
                    Ok(())
                },
                _ => Err(not_array_error(fixture_key, "Use add_to_fixture_array only with array fixtures")),
            },
            None => {
                let mut items: Vec<JsonValue> = Vec::new();
                items.push(item);
                proof {
                    assert(items@.drop_last() =~= Seq::<JsonValue>::empty());
                    assert(items_data(Seq::<JsonValue>::empty()) =~= Seq::<JsonData>::empty());
                    assert(json_data(items@.last()) == d);
                    assert(items_data(items@) =~= seq![d]);
                }
                self.fixtures.insert(String::from_str(fixture_key), JsonValue::Array(items));
                assert(self.fixtures_view() =~= old(self).fixtures_view().insert(fixture_key@,
                    JsonData::Array(seq![d])));
                Ok(())
            },
        }
    }

    /// Removes the item at `index` from the array fixture under `key`.
    pub fn remove_from_fixture_array(&mut self, fixture_key: &str, index: usize) -> (r: Result<JsonValue, RuntimeError>)
        requires
            old(self).wf(),
        ensures
            final(self).wf(),
            final(self).initial_view() == old(self).initial_view(),
            final(self).runtime_view() == old(self).runtime_view(),
            forall|e: usize| #[trigger] final(self).counter_of(e) == old(self).counter_of(e),
            !old(self).fixtures_view().contains_key(fixture_key@) ==> (r matches Err(e)
                && runtime_error_view(e) == (fixture_not_found(fixture_key@),
                "Check that the fixture exists before removing items"@)
                && final(self).fixtures_view() == old(self).fixtures_view()),
            old(self).fixtures_view().contains_key(fixture_key@) ==> match old(self).fixtures_view()[fixture_key@] {
                JsonData::Array(items) => if index < items.len() {
                    r matches Ok(v) && json_data(v) == items[index as int] && final(self).fixtures_view()
                        == old(self).fixtures_view().insert(fixture_key@, JsonData::Array(items.remove(index as int)))
                } else {
                    r matches Err(e) && runtime_error_view(e) == (index_out_of_bounds(index as nat, fixture_key@),
                        "Check array length before removing items"@)
                        && final(self).fixtures_view() == old(self).fixtures_view()
                },
                _ => r matches Err(e) && runtime_error_view(e) == (fixture_not_array(fixture_key@),
                    "Use remove_from_fixture_array only with array fixtures"@)
                    && final(self).fixtures_view() == old(self).fixtures_view(),
            },
    {
        match self.fixtures.get(fixture_key) {
            Some(v) => match v {
                JsonValue::Array(arr) => {
                    if index < arr.len() {
                        let mut items = clone_items(arr);
                        let ghost before = items@;
                        proof {
                            lemma_items_data_ext(before);
                            lemma_items_data_ext(arr@);
                        }
                        let removed = items.remove(index);
                        proof {
                            lemma_items_data_ext(items@);
                            assert(items_data(items@) =~= items_data(before).remove(index as int));
                        }
                        self.fixtures.insert(String::from_str(fixture_key), JsonValue::Array(items));
                        assert(self.fixtures_view() =~= old(self).fixtures_view().insert(fixture_key@,
                            JsonData::Array(items_data(before).remove(index as int))));
                        Ok(removed)
                    } else {
                        proof {
                            lemma_items_data_ext(arr@);
                        }
                        Err(out_of_bounds_error(index, fixture_key, "Check array length before removing items"))
                    }
                },
                _ => Err(not_array_error(fixture_key, "Use remove_from_fixture_array only with array fixtures")),
            },
            None => Err(not_found_error(fixture_key, "Check that the fixture exists before removing items")),
        }
    }

    /// Replaces the item at `index` of the array fixture under `key`.
    pub fn update_fixture_array_item(&mut self, fixture_key: &str, index: usize, item: JsonValue) -> (r: Result<(), RuntimeError>)
        requires
            old(self).wf(),
        ensures
            final(self).wf(),
            final(self).initial_view() == old(self).initial_view(),
            final(self).runtime_view() == old(self).runtime_view(),
            forall|e: usize| #[trigger] final(self).counter_of(e) == old(self).counter_of(e),
            !old(self).fixtures_view().contains_key(fixture_key@) ==> (r matches Err(e)
                && runtime_error_view(e) == (fixture_not_found(fixture_key@),
                "Check that the fixture exists before updating items"@)
                && final(self).fixtures_view() == old(self).fixtures_view()),
            old(self).fixtures_view().contains_key(fixture_key@) ==> match old(self).fixtures_view()[fixture_key@] {
                JsonData::Array(items) => if index < items.len() {
                    r is Ok && final(self).fixtures_view() == old(self).fixtures_view().insert(fixture_key@,
                        JsonData::Array(items.update(index as int, json_data(item))))
                } else {
                    r matches Err(e) && runtime_error_view(e) == (index_out_of_bounds(index as nat, fixture_key@),
                        "Check array length before updating items"@)
                        && final(self).fixtures_view() == old(self).fixtures_view()
                },
                _ => r matches Err(e) && runtime_error_view(e) == (fixture_not_array(fixture_key@),
                    "Use update_fixture_array_item only with array fixtures"@)
                    && final(self).fixtures_view() == old(self).fixtures_view(),
            },
    {
        let ghost d = json_data(item);
        match self.fixtures.get(fixture_key) {
            Some(v) => match v {
                JsonValue::Array(arr) => {
                    if index < arr.len() {
                        let mut items = clone_items(arr);
                        let ghost before = items@;
                        proof {
                            lemma_items_data_ext(before);
                            lemma_items_data_ext(arr@);
                        }
                        items.set(index, item);
                        proof {
                            lemma_items_data_ext(items@);
                            assert(items_data(items@) =~= items_data(before).update(index as int, d));
                        }
                        self.fixtures.insert(String::from_str(fixture_key), JsonValue::Array(items));
                        assert(self.fixtures_view() =~= old(self).fixtures_view().insert(fixture_key@,
                            JsonData::Array(items_data(before).update(index as int, d))));
                        Ok(())
                    } else {
                        proof {
                            lemma_items_data_ext(arr@);
                        }
                        Err(out_of_bounds_error(index, fixture_key, "Check array length before updating items"))
                    }
                },
                _ => Err(not_array_error(fixture_key, "Use update_fixture_array_item only with array fixtures")),
            },
            None => Err(not_found_error(fixture_key, "Check that the fixture exists before updating items")),
        }
    }

    /// Replaces the first item of the array fixture under `key` that is an
    /// object whose field `field` equals `field_value`; tells whether one was.
    pub fn update_fixture_array_item_by_field(&mut self, fixture_key: &str, field: &str, field_value: &JsonValue,
        new_item: JsonValue) -> (r: Result<bool, RuntimeError>)
        requires
            old(self).wf(),
        ensures
            final(self).wf(),
            final(self).initial_view() == old(self).initial_view(),
            final(self).runtime_view() == old(self).runtime_view(),
            forall|e: usize| #[trigger] final(self).counter_of(e) == old(self).counter_of(e),
            !old(self).fixtures_view().contains_key(fixture_key@) ==> (r matches Err(e)
                && runtime_error_view(e) == (fixture_not_found(fixture_key@),
                "Check that the fixture exists before updating items"@)
                && final(self).fixtures_view() == old(self).fixtures_view()),
            old(self).fixtures_view().contains_key(fixture_key@) ==> match old(self).fixtures_view()[fixture_key@] {
                JsonData::Array(items) => match first_with_field(items, field@, json_data(*field_value)) {
                    Some(k) => r == Ok::<bool, RuntimeError>(true) && final(self).fixtures_view()
                        == old(self).fixtures_view().insert(fixture_key@,
                        JsonData::Array(items.update(k, json_data(new_item)))),
                    None => r == Ok::<bool, RuntimeError>(false) && final(self).fixtures_view() == old(self).fixtures_view(),
                },
                _ => r matches Err(e) && runtime_error_view(e) == (fixture_not_array(fixture_key@),
                    "Use update_fixture_array_item_by_field only with array fixtures"@)
                    && final(self).fixtures_view() == old(self).fixtures_view(),
            },
    {
        let ghost d = json_data(new_item);
        let ghost fv = json_data(*field_value);
        match self.fixtures.get(fixture_key) {
            Some(v) => match v {
                JsonValue::Array(arr) => {
                    proof {
                        lemma_items_data_ext(arr@);
                    }
                    match find_item_with_field(arr, field, field_value) {
                        Some(k) => {
                            let mut items = clone_items(arr);
                            let ghost before = items@;
                            proof {
                                lemma_items_data_ext(before);
                            }
                            items.set(k, new_item);
                            proof {
                                lemma_items_data_ext(items@);
                                assert(items_data(items@) =~= items_data(before).update(k as int, d));
                            }
                            self.fixtures.insert(String::from_str(fixture_key), JsonValue::Array(items));
                            assert(self.fixtures_view() =~= old(self).fixtures_view().insert(fixture_key@,
                                JsonData::Array(items_data(before).update(k as int, d))));
                            Ok(true)
                        },
                        None => Ok(false),
                    }
                },
                _ => Err(not_array_error(fixture_key, "Use update_fixture_array_item_by_field only with array fixtures")),
            },
            None => Err(not_found_error(fixture_key, "Check that the fixture exists before updating items")),
        }
    }

    /// Removes and gives back the first item of the array fixture under `key`
    /// that is an object whose field `field` equals `field_value`.
    pub fn remove_fixture_array_item_by_field(&mut self, fixture_key: &str, field: &str, field_value: &JsonValue)
        -> (r: Result<Option<JsonValue>, RuntimeError>)
        requires
            old(self).wf(),
        ensures
            final(self).wf(),
            final(self).initial_view() == old(self).initial_view(),
            final(self).runtime_view() == old(self).runtime_view(),
            forall|e: usize| #[trigger] final(self).counter_of(e) == old(self).counter_of(e),
            !old(self).fixtures_view().contains_key(fixture_key@) ==> (r matches Err(e)
                && runtime_error_view(e) == (fixture_not_found(fixture_key@),
                "Check that the fixture exists before removing items"@)
                && final(self).fixtures_view() == old(self).fixtures_view()),
            old(self).fixtures_view().contains_key(fixture_key@) ==> match old(self).fixtures_view()[fixture_key@] {
                JsonData::Array(items) => match first_with_field(items, field@, json_data(*field_value)) {
                    Some(k) => r matches Ok(Some(v)) && json_data(v) == items[k] && final(self).fixtures_view()
                        == old(self).fixtures_view().insert(fixture_key@, JsonData::Array(items.remove(k))),
                    None => r matches Ok(None) && final(self).fixtures_view() == old(self).fixtures_view(),
                },
                _ => r matches Err(e) && runtime_error_view(e) == (fixture_not_array(fixture_key@),
                    "Use remove_fixture_array_item_by_field only with array fixtures"@)
                    && final(self).fixtures_view() == old(self).fixtures_view(),
            },
    {
        match self.fixtures.get(fixture_key) {
            Some(v) => match v {
                JsonValue::Array(arr) => {
                    proof {
                        lemma_items_data_ext(arr@);
                    }
                    match find_item_with_field(arr, field, field_value) {
                        Some(k) => {
                            let mut items = clone_items(arr);
                            let ghost before = items@;
                            proof {
                                lemma_items_data_ext(before);
                            }
                            let removed = items.remove(k);
                            proof {
                                lemma_items_data_ext(items@);
                                assert(items_data(items@) =~= items_data(before).remove(k as int));
                            }
                            self.fixtures.insert(String::from_str(fixture_key), JsonValue::Array(items));
                            assert(self.fixtures_view() =~= old(self).fixtures_view().insert(fixture_key@,
                                JsonData::Array(items_data(before).remove(k as int))));
                            Ok(Some(removed))
                        },
                        None => Ok(None),
                    }
                },
                _ => Err(not_array_error(fixture_key, "Use remove_fixture_array_item_by_field only with array fixtures")),
            },
            None => Err(not_found_error(fixture_key, "Check that the fixture exists before removing items")),
        }
    }

    /// Puts the fixtures back to the values the service started with.
    pub fn reset_fixtures(&mut self)
        requires
            old(self).wf(),
        ensures
            final(self).wf(),
            final(self).fixtures_view() == old(self).initial_view(),
            final(self).initial_view() == old(self).initial_view(),
            final(self).runtime_view() == old(self).runtime_view(),
            forall|e: usize| #[trigger] final(self).counter_of(e) == old(self).counter_of(e),
    {
        self.fixtures = clone_json_map(&self.initial_fixtures);
    }

    /// The runtime value stored under `key`.
    pub fn get_runtime_data(&self, key: &str) -> (r: Option<&JsonValue>)
        requires
            self.wf(),
        ensures
            match r {
                Some(v) => self.runtime_view().contains_key(key@) && json_data(*v) == self.runtime_view()[key@],
                None => !self.runtime_view().contains_key(key@),
            },
    {
        self.runtime_data.get(key)
    }

    /// Stores a runtime value under `key`.
    pub fn set_runtime_data(&mut self, key: String, value: JsonValue)
        requires
            old(self).wf(),
        ensures
            final(self).wf(),
            final(self).runtime_view() == old(self).runtime_view().insert(key@, json_data(value)),
            final(self).fixtures_view() == old(self).fixtures_view(),
            final(self).initial_view() == old(self).initial_view(),
            forall|e: usize| #[trigger] final(self).counter_of(e) == old(self).counter_of(e),
    {
        let ghost k = key@;
        let ghost d = json_data(value);
        self.runtime_data.insert(key, value);
        assert(self.runtime_view() =~= old(self).runtime_view().insert(k, d));
    }

    /// Removes the runtime value stored under `key`, giving it back.
    pub fn remove_runtime_data(&mut self, key: &str) -> (r: Option<JsonValue>)
        requires
            old(self).wf(),
        ensures
            final(self).wf(),
            final(self).runtime_view() == old(self).runtime_view().remove(key@),
            match r {
                Some(v) => old(self).runtime_view().contains_key(key@) && json_data(v) == old(self).runtime_view()[key@],
                None => !old(self).runtime_view().contains_key(key@),
            },
            final(self).fixtures_view() == old(self).fixtures_view(),
            final(self).initial_view() == old(self).initial_view(),
            forall|e: usize| #[trigger] final(self).counter_of(e) == old(self).counter_of(e),
    {
        let r = self.runtime_data.remove(key);
        assert(self.runtime_view() =~= old(self).runtime_view().remove(key@));
        r
    }

    /// Removes all runtime values.
    pub fn clear_runtime_data(&mut self)
        requires
            old(self).wf(),
        ensures
            final(self).wf(),
            final(self).runtime_view() == Map::<Seq<char>, JsonData>::empty(),
            final(self).fixtures_view() == old(self).fixtures_view(),
            final(self).initial_view() == old(self).initial_view(),
            forall|e: usize| #[trigger] final(self).counter_of(e) == old(self).counter_of(e),
    {
        self.runtime_data.clear();
        assert(self.runtime_view() =~= Map::<Seq<char>, JsonData>::empty());
    }

    /// All fixtures.
    pub fn all_fixtures(&self) -> (r: &StrMap<JsonValue>)
        requires
            self.wf(),
        ensures
            r.wf(),
            data_map(*r) == self.fixtures_view(),
    {
        &self.fixtures
    }

    /// All runtime values.
    pub fn all_runtime_data(&self) -> (r: &StrMap<JsonValue>)
        requires
            self.wf(),
        ensures
            r.wf(),
            data_map(*r) == self.runtime_view(),
    {
        &self.runtime_data
    }

    /// How many fixtures there are.
    pub fn fixture_count(&self) -> (n: usize)
        requires
            self.wf(),
        ensures
            n == self.fixtures_view().len(),
    {
        proof {
            self.fixtures.lemma_view();
            assert(self.fixtures_view().dom() =~= self.fixtures@.dom());
        }
        self.fixtures.len()
    }

    /// How many runtime values there are.
    pub fn runtime_data_count(&self) -> (n: usize)
        requires
            self.wf(),
        ensures
            n == self.runtime_view().len(),
    {
        proof {
            self.runtime_data.lemma_view();
            assert(self.runtime_view().dom() =~= self.runtime_data@.dom());
        }
        self.runtime_data.len()
    }

    /// Whether a fixture is stored under `key`.
    pub fn has_fixture(&self, key: &str) -> (b: bool)
        requires
            self.wf(),
        ensures
            b == self.fixtures_view().contains_key(key@),
    {
        self.fixtures.contains_key(key)
    }

    /// Whether a runtime value is stored under `key`.
    pub fn has_runtime_data(&self, key: &str) -> (b: bool)
        requires
            self.wf(),
        ensures
            b == self.runtime_view().contains_key(key@),
    {
        self.runtime_data.contains_key(key)
    }
}

/// The position of the first item that is an object whose field `field`
/// equals `value`.
fn find_item_with_field(items: &Vec<JsonValue>, field: &str, value: &JsonValue) -> (r: Option<usize>)
    ensures
        match r {
            Some(k) => k < items@.len() && first_with_field(items_data(items@), field@, json_data(*value)) == Some(k as int),
            None => first_with_field(items_data(items@), field@, json_data(*value)) is None,
        },
{
    let ghost ds = items_data(items@);
    proof {
        lemma_items_data_ext(items@);
    }
    let mut i: usize = 0;
    while i < items.len()
        invariant
            i <= items@.len(),
            ds == items_data(items@),
            ds.len() == items@.len(),
            forall|j: int| 0 <= j < items@.len() ==> #[trigger] ds[j] == json_data(items@[j]),
            first_with_field(ds.take(i as int), field@, json_data(*value)) is None,
        decreases items@.len() - i,
    {
        proof {
            assert(ds.take(i + 1).drop_last() =~= ds.take(i as int));
        }
        if has_field_equal(&items[i], field, value) {
            proof {
                lemma_first_with_field_prefix(ds, field@, json_data(*value), i as int);
            }
            return Some(i);
        }
        i = i + 1;
    }
    assert(ds.take(items@.len() as int) =~= ds);
    None
}

/// The first match lies in the list and matches.
/// Every state of a series has the starting fixtures of the first when each
/// step keeps them.
proof fn lemma_series_keeps_initial(trace: Seq<ServiceState>, n: int)
    requires
        0 <= n < trace.len(),
        forall|i: int| 0 < i < trace.len() ==> #[trigger] trace[i].initial_view() == trace[i - 1].initial_view(),
    ensures
        trace[n].initial_view() == trace[0].initial_view(),
    decreases n,
{
    if n > 0 {
        lemma_series_keeps_initial(trace, n - 1);
    }
}

/// The fixtures a state created with `fixtures` starts with.
pub open spec fn created_fixtures(fixtures: Option<StrMap<JsonValue>>) -> Map<Seq<char>, JsonData> {
    match fixtures {
        Some(f) => data_map(f),
        None => Map::<Seq<char>, JsonData>::empty(),
    }
}

/// The fixture reset law: resetting the fixtures gives back those the state
/// was created with, whatever operations came in between, and leaves the
/// runtime data as it was. `states[0]` is what [`ServiceState::new`] made
/// with `fixtures`; each later state is what one operation left of the one
/// before: [`ServiceState::set_fixture`], [`ServiceState::remove_fixture`],
/// [`ServiceState::add_to_fixture_array`],
/// [`ServiceState::remove_from_fixture_array`],
/// [`ServiceState::update_fixture_array_item`],
/// [`ServiceState::update_fixture_array_item_by_field`],
/// [`ServiceState::remove_fixture_array_item_by_field`], a runtime data
/// operation or an earlier reset, each of which keeps the starting fixtures;
/// `reset` is what [`ServiceState::reset_fixtures`] made of the last state.
pub proof fn lemma_fixture_reset(fixtures: Option<StrMap<JsonValue>>, states: Seq<ServiceState>, reset: ServiceState)
    requires
        states.len() > 0,
        states[0].fixtures_view() == created_fixtures(fixtures),
        states[0].initial_view() == states[0].fixtures_view(),
        forall|i: int| 0 < i < states.len() ==> #[trigger] states[i].initial_view() == states[i - 1].initial_view(),
        reset.fixtures_view() == states.last().initial_view(),
        reset.runtime_view() == states.last().runtime_view(),
    ensures
        reset.fixtures_view() == created_fixtures(fixtures),
        reset.runtime_view() == states.last().runtime_view(),
{
    lemma_series_keeps_initial(states, states.len() - 1);
}

proof fn lemma_first_with_field_bound(items: Seq<JsonData>, field: Seq<char>, value: JsonData)
    ensures
        first_with_field(items, field, value) matches Some(k) ==> 0 <= k < items.len()
            && has_field_value(items[k], field, value),
    decreases items.len(),
{
    if items.len() > 0 {
        lemma_first_with_field_bound(items.drop_last(), field, value);
    }
}

/// A match found first in a prefix is the first match of the whole.
proof fn lemma_first_with_field_prefix(items: Seq<JsonData>, field: Seq<char>, value: JsonData, i: int)
    requires
        0 <= i < items.len(),
        first_with_field(items.take(i), field, value) is None,
        has_field_value(items[i], field, value),
    ensures
        first_with_field(items, field, value) == Some(i),
    decreases items.len(),
{
    if i < items.len() - 1 {
        assert(items.drop_last().take(i) =~= items.take(i));
        lemma_first_with_field_prefix(items.drop_last(), field, value, i);
    } else {
        assert(items.take(i) =~= items.drop_last());
    }
}

/// Updating the first record of an endpoint changes its counter only.
proof fn lemma_counter_update(v: Seq<(usize, usize)>, i: int, e: usize, next: usize)
    requires
        0 <= i < v.len(),
        v[i].0 == e,
        forall|j: int| 0 <= j < i ==> v[j].0 != e,
    ensures
        counter_in(v.update(i, (e, next)), e) == next,
        counter_in(v, e) == v[i].1,
        forall|e2: usize| e2 != e ==> #[trigger] counter_in(v.update(i, (e, next)), e2) == counter_in(v, e2),
    decreases v.len(),
{
    if i > 0 {
        lemma_counter_update(v.drop_first(), i - 1, e, next);
        assert(v.update(i, (e, next)).drop_first() =~= v.drop_first().update(i - 1, (e, next)));
    } else {
        assert(v.update(0, (e, next)).drop_first() =~= v.drop_first());
    }
    assert forall|e2: usize| e2 != e implies #[trigger] counter_in(v.update(i, (e, next)), e2) == counter_in(v, e2) by {
        let w = v.update(i, (e, next));
        if i > 0 {
            assert(w[0] == v[0]);
            assert(w.drop_first() =~= v.drop_first().update(i - 1, (e, next)));
            assert(counter_in(v.drop_first().update(i - 1, (e, next)), e2) == counter_in(v.drop_first(), e2));
        } else {
            assert(w[0] == (e, next));
            assert(w.drop_first() =~= v.drop_first());
        }
    }
}

/// Appending a record for an endpoint without one sets its counter only.
proof fn lemma_counter_push(v: Seq<(usize, usize)>, e: usize, next: usize)
    requires
        forall|j: int| 0 <= j < v.len() ==> v[j].0 != e,
    ensures
        counter_in(v, e) == 0,
        counter_in(v.push((e, next)), e) == next,
        forall|e2: usize| e2 != e ==> #[trigger] counter_in(v.push((e, next)), e2) == counter_in(v, e2),
    decreases v.len(),
{
    if v.len() > 0 {
        lemma_counter_push(v.drop_first(), e, next);
        assert(v.push((e, next)).drop_first() =~= v.drop_first().push((e, next)));
    } else {
        assert(v.push((e, next)).drop_first() =~= Seq::<(usize, usize)>::empty());
    }
    assert forall|e2: usize| e2 != e implies #[trigger] counter_in(v.push((e, next)), e2) == counter_in(v, e2) by {
        let w = v.push((e, next));
        reveal_with_fuel(counter_in, 2);
        if v.len() > 0 {
            assert(w[0] == v[0]);
            assert(w.drop_first() =~= v.drop_first().push((e, next)));
            assert(counter_in(v.drop_first().push((e, next)), e2) == counter_in(v.drop_first(), e2));
        } else {
            assert(w[0] == (e, next));
            assert(w.drop_first() =~= Seq::<(usize, usize)>::empty());
        }
    }
}

/// The error for a missing fixture.
fn not_found_error(key: &str, suggestion: &str) -> (e: RuntimeError)
    ensures
        runtime_error_view(e) == (fixture_not_found(key@), suggestion@),
{
    let mut m = String::from_str("Fixture '");
    m.append(key);
    m.append("' not found");
    RuntimeError { message: m, suggestion: Some(String::from_str(suggestion)) }
}

/// The error for a fixture that is not an array.
fn not_array_error(key: &str, suggestion: &str) -> (e: RuntimeError)
    ensures
        runtime_error_view(e) == (fixture_not_array(key@), suggestion@),
{
    let mut m = String::from_str("Fixture '");
    m.append(key);
    m.append("' is not an array");
    RuntimeError { message: m, suggestion: Some(String::from_str(suggestion)) }
}

/// The error for an index past the end of a fixture array.
fn out_of_bounds_error(index: usize, key: &str, suggestion: &str) -> (e: RuntimeError)
    ensures
        runtime_error_view(e) == (index_out_of_bounds(index as nat, key@), suggestion@),
{
    let mut m = String::from_str("Index ");
    let n = usize_to_string(index);
    m.append(n.as_str());
    m.append(" out of bounds for fixture array '");
    m.append(key);
    m.append("'");
    RuntimeError { message: m, suggestion: Some(String::from_str(suggestion)) }
}

/// A uniformly random position below `total` (`rand::thread_rng` and
/// `Rng::gen_range` over `0..total`). Only the range of the result is stated.
#[verifier::external_body]
fn random_below(total: usize) -> (r: usize)
    requires
        total > 0,
    ensures
        r < total,
{
    rand::thread_rng().gen_range(0..total)
}

} // verus!
