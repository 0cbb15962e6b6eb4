use vstd::prelude::*;

verus! {

/// One benchmark run: an identifier, how many series to create, how many
/// points each series receives in total, and how many lookup queries the
/// select phase issues against the created tags. Immutable once built.
pub struct TestCase {
    id: usize,
    series: usize,
    points_per_series: usize,
    queries: usize,
}

impl TestCase {
    pub closed spec fn spec_id(&self) -> usize {
        self.id
    }

    pub closed spec fn spec_series(&self) -> usize {
        self.series
    }

    pub closed spec fn spec_points_per_series(&self) -> usize {
        self.points_per_series
    }

    pub closed spec fn spec_queries(&self) -> usize {
        self.queries
    }

    pub fn new(id: usize, series: usize, points_per_series: usize, queries: usize) -> (r: TestCase)
        ensures
            r.spec_id() == id,
            r.spec_series() == series,
            r.spec_points_per_series() == points_per_series,
            r.spec_queries() == queries,
    {
        TestCase { id, series, points_per_series, queries }
    }

    pub fn get_id(&self) -> (r: usize)
        ensures
            r == self.spec_id(),
    {
        self.id
    }

    pub fn get_series(&self) -> (r: usize)
        ensures
            r == self.spec_series(),
    {
        self.series
    }

    pub fn get_points_per_series(&self) -> (r: usize)
        ensures
            r == self.spec_points_per_series(),
    {
        self.points_per_series
    }

    pub fn get_queries(&self) -> (r: usize)
        ensures
            r == self.spec_queries(),
    {
        self.queries
    }
}

} // verus!
