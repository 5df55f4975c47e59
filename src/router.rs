use vstd::prelude::*;

verus! {

/// An exact-match route table from path to handler.
pub struct Router<H> {
    routes: Vec<(String, H)>,
    overwritten: Vec<String>,
    model: Ghost<Map<Seq<char>, H>>,
}

/// The route table after registering `h` under `path`: the path maps to `h`,
/// whatever it mapped to before.
pub open spec fn registered<H>(routes: Map<Seq<char>, H>, path: Seq<char>, h: H) -> Map<Seq<char>, H> {
    routes.insert(path, h)
}

/// The record of re-registered paths after registering `path` in `routes`:
/// the path is appended when it was registered already.
pub open spec fn warnings_after<H>(routes: Map<Seq<char>, H>, log: Seq<Seq<char>>, path: Seq<char>) -> Seq<Seq<char>> {
    if routes.contains_key(path) {
        log.push(path)
    } else {
        log
    }
}

/// Registering a path twice leaves the second handler in place, as if the
/// first registration had not happened, and the second registration is
/// recorded as a warning.
pub proof fn lemma_register_twice<H>(
    routes: Map<Seq<char>, H>,
    log: Seq<Seq<char>>,
    path: Seq<char>,
    first: H,
    second: H,
)
    ensures
        registered(registered(routes, path, first), path, second)[path] == second,
        registered(registered(routes, path, first), path, second) == registered(routes, path, second),
        warnings_after(registered(routes, path, first), warnings_after(routes, log, path), path)
            == warnings_after(routes, log, path).push(path),
{
    assert(registered(registered(routes, path, first), path, second) =~= registered(routes, path, second));
}

impl<H> Router<H> {
    /// The route table: each registered path and the handler it resolves to.
    pub closed spec fn view(&self) -> Map<Seq<char>, H> {
        self.model@
    }

    /// The paths that were registered again, each time it happened, in order.
    pub closed spec fn warnings(&self) -> Seq<Seq<char>> {
        self.overwritten@.map_values(|s: String| s@)
    }

    pub closed spec fn wf(&self) -> bool {
        &&& forall|i: int, j: int|
            0 <= i < j < self.routes.len() ==> #[trigger] self.routes@[i].0@ != #[trigger] self.routes@[j].0@
        &&& forall|i: int|
            0 <= i < self.routes.len() ==> self.model@.contains_key(#[trigger] self.routes@[i].0@)
                && self.model@[self.routes@[i].0@] == self.routes@[i].1
        &&& forall|k: Seq<char>|
            #[trigger] self.model@.contains_key(k) ==> exists|i: int|
                0 <= i < self.routes.len() && #[trigger] self.routes@[i].0@ == k
    }

    /// An empty table.
    pub fn new() -> (r: Self)
        ensures
            r.wf(),
            r.view() == Map::<Seq<char>, H>::empty(),
            r.warnings() == Seq::<Seq<char>>::empty(),
    {
        let r = Router { routes: Vec::new(), overwritten: Vec::new(), model: Ghost(Map::empty()) };
        assert(r.warnings() =~= Seq::<Seq<char>>::empty());
        r
    }

    /// The index of the route for `name`, if there is one.
    fn find(&self, name: &String) -> (r: Option<usize>)
        requires
            self.wf(),
        ensures
            match r {
                Some(i) => i < self.routes.len() && self.routes@[i as int].0@ == name@,
                None => !self.view().contains_key(name@),
            },
    {
        let mut i: usize = 0;
        while i < self.routes.len()
            invariant
                self.wf(),
                i <= self.routes.len(),
                forall|j: int| 0 <= j < i ==> self.routes@[j].0@ != name@,
            decreases self.routes.len() - i,
        {
            if self.routes[i].0 == *name {
                return Some(i);
            }
            i = i + 1;
        }
        None
    }

    /// Maps `route_name` to `route_func`, replacing an earlier handler for the
    /// same path; a replacement is recorded among the warnings. Returns the
    /// table, for chaining.
    pub fn register(&mut self, route_name: &str, route_func: H) -> (r: &Self)
        requires
            old(self).wf(),
        ensures
            *r == *final(self),
            final(self).wf(),
            final(self).view() == registered(old(self).view(), route_name@, route_func),
            final(self).warnings() == warnings_after(old(self).view(), old(self).warnings(), route_name@),
    {
        let name = route_name.to_owned();
        let ghost old_routes = self.routes@;
        let ghost old_warnings = self.warnings();
        let ghost old_model = self.model@;
        match self.find(&name) {
            Some(i) => {
                self.routes.set(i, (name.clone(), route_func));
                self.overwritten.push(name);
                self.model = Ghost(old_model.insert(route_name@, route_func));
                assert(self.warnings() =~= old_warnings.push(route_name@));
                assert forall|k: Seq<char>| #[trigger] self.model@.contains_key(k) implies exists|j: int|
                    0 <= j < self.routes.len() && #[trigger] self.routes@[j].0@ == k by {
                    if k != route_name@ {
                        let j = choose|j: int| 0 <= j < old_routes.len() && #[trigger] old_routes[j].0@ == k;
                        assert(self.routes@[j].0@ == k);
                    } else {
                        assert(self.routes@[i as int].0@ == k);
                    }
                }
            },
            None => {
                self.routes.push((name, route_func));
                self.model = Ghost(old_model.insert(route_name@, route_func));
                assert(self.warnings() =~= old_warnings);
                assert forall|k: Seq<char>| #[trigger] self.model@.contains_key(k) implies exists|j: int|
                    0 <= j < self.routes.len() && #[trigger] self.routes@[j].0@ == k by {
                    if k != route_name@ {
                        let j = choose|j: int| 0 <= j < old_routes.len() && #[trigger] old_routes[j].0@ == k;
                        assert(self.routes@[j].0@ == k);
                    } else {
                        assert(self.routes@[old_routes.len() as int].0@ == k);
                    }
                }
            },
        }
        self
    }

    /// The handler registered for exactly `route_name`.
    pub fn get(&self, route_name: &str) -> (r: Option<&H>)
        requires
            self.wf(),
        ensures
            match r {
                Some(h) => self.view().contains_key(route_name@) && *h == self.view()[route_name@],
                None => !self.view().contains_key(route_name@),
            },
    {
        let name = route_name.to_owned();
        match self.find(&name) {
            Some(i) => Some(&self.routes[i].1),
            None => None,
        }
    }

    /// The paths that were registered again, in order.
    pub fn overwritten(&self) -> (r: &Vec<String>)
        ensures
            r@.map_values(|s: String| s@) == self.warnings(),
    {
        &self.overwritten
    }
}

} // verus!
