//! Routing of internal and API paths: exact routes first, then prefixes in
//! the order they were added.

use crate::text::{starts_with, str_equals};
use crate::vars::VarMap;
use vstd::prelude::*;

verus! {

/// The handler of the first prefix of `path` among `prefixes`.
pub open spec fn first_prefix(prefixes: Seq<(Seq<char>, Seq<char>)>, path: Seq<char>) -> Option<
    Seq<char>,
>
    decreases prefixes.len(),
{
    if prefixes.len() == 0 {
        None
    } else {
        let p = prefixes[0].0;
        if p.len() <= path.len() && path.subrange(0, p.len() as int) == p {
            Some(prefixes[0].1)
        } else {
            first_prefix(prefixes.subrange(1, prefixes.len() as int), path)
        }
    }
}

/// A router of paths to handler names.
pub struct Router {
    exact: VarMap,
    prefixes: Vec<(String, String)>,
}

impl Router {
    /// Exact routes.
    pub closed spec fn exact_view(&self) -> Map<Seq<char>, Seq<char>> {
        self.exact@
    }

    /// Prefix routes, in the order they were added.
    pub closed spec fn prefixes_view(&self) -> Seq<(Seq<char>, Seq<char>)> {
        self.prefixes@.map_values(|p: (String, String)| (p.0@, p.1@))
    }

    pub closed spec fn wf(&self) -> bool {
        self.exact.wf()
    }

    /// The handler that a path goes to.
    pub open spec fn route(&self, path: Seq<char>) -> Option<Seq<char>> {
        if self.exact_view().contains_key(path) {
            Some(self.exact_view()[path])
        } else {
            first_prefix(self.prefixes_view(), path)
        }
    }

    /// A router with no routes.
    pub fn new() -> (r: Router)
        ensures
            r.wf(),
            r.exact_view().is_empty(),
            r.prefixes_view().len() == 0,
    {
        let r = Router { exact: VarMap::new(), prefixes: Vec::new() };
        assert(r.prefixes_view() =~= Seq::<(Seq<char>, Seq<char>)>::empty());
        r
    }

    /// Routes exactly `path` to `handler`.
    pub fn add_exact(&mut self, path: &str, handler: &str)
        requires
            old(self).wf(),
        ensures
            final(self).wf(),
            final(self).exact_view() == old(self).exact_view().insert(path@, handler@),
            final(self).prefixes_view() == old(self).prefixes_view(),
    {
        self.exact.insert(String::from_str(path), String::from_str(handler));
    }

    /// Routes every path that starts with `prefix` to `handler`, after the
    /// prefixes added before.
    pub fn add_prefix(&mut self, prefix: &str, handler: &str)
        requires
            old(self).wf(),
        ensures
            final(self).wf(),
            final(self).exact_view() == old(self).exact_view(),
            final(self).prefixes_view() == old(self).prefixes_view().push((prefix@, handler@)),
    {
        self.prefixes.push((String::from_str(prefix), String::from_str(handler)));
        assert(self.prefixes_view() =~= old(self).prefixes_view().push((prefix@, handler@)));
    }

    /// The handler of `path`: its exact route, else the first prefix route
    /// that it starts with.
    pub fn match_path(&self, path: &str) -> (r: Option<&str>)
        requires
            self.wf(),
        ensures
            match r {
                Some(h) => self.route(path@) == Some(h@),
                None => self.route(path@) is None,
            },
    {
        match self.exact.get(path) {
            Some(h) => {
                return Some(h.as_str());
            },
            None => {},
        }
        let ghost ps = self.prefixes_view();
        assert(ps.subrange(0, ps.len() as int) =~= ps);
        let mut i: usize = 0;
        while i < self.prefixes.len()
            invariant
                i <= self.prefixes@.len(),
                ps == self.prefixes_view(),
                !self.exact_view().contains_key(path@),
                first_prefix(ps, path@) == first_prefix(ps.subrange(i as int, ps.len() as int), path@),
            decreases self.prefixes@.len() - i,
        {
            let ghost t = ps.subrange(i as int, ps.len() as int);
            assert(t.subrange(1, t.len() as int) =~= ps.subrange(i + 1, ps.len() as int));
            assert(t[0] == (self.prefixes@[i as int].0@, self.prefixes@[i as int].1@));
            if starts_with(path, self.prefixes[i].0.as_str()) {
                return Some(self.prefixes[i].1.as_str());
            }
            i = i + 1;
        }
        None
    }

    /// Whether `path` has a route.
    pub fn matches(&self, path: &str) -> (r: bool)
        requires
            self.wf(),
        ensures
            r == self.route(path@) is Some,
    {
        self.match_path(path).is_some()
    }
}

impl Default for Router {
    fn default() -> (r: Router)
        ensures
            r.wf(),
            r.exact_view().is_empty(),
            r.prefixes_view().len() == 0,
    {
        Router::new()
    }
}

/// A matched route.
pub struct RouteMatch {
    /// Handler name.
    pub handler: String,
    /// Parameters taken from the path.
    pub params: VarMap,
    /// The path after the prefix.
    pub remainder: String,
}

impl RouteMatch {
    /// A match of `handler` with no parameters and nothing remaining.
    pub fn new(handler: &str) -> (r: RouteMatch)
        ensures
            r.handler@ == handler@,
            r.params.wf(),
            r.params@.is_empty(),
            r.remainder@.len() == 0,
    {
        RouteMatch { handler: String::from_str(handler), params: VarMap::new(), remainder: String::new() }
    }
}

} // verus!
