//! The routing table: which handler answers which path.

use vstd::prelude::*;
use vstd::string::*;

use crate::response::Response;

verus! {

/// The mapping that a list of registrations gives, taken in order: a path
/// that is registered again gets the later handler.
pub open spec fn routes_map<H>(routes: Seq<(Seq<char>, H)>) -> Map<Seq<char>, H>
    decreases routes.len(),
{
    if routes.len() == 0 {
        Map::empty()
    } else {
        routes_map(routes.drop_last()).insert(routes.last().0, routes.last().1)
    }
}

/// The last registration of a path decides its handler, and a path never
/// registered has none.
pub proof fn lemma_routes_map<H>(routes: Seq<(Seq<char>, H)>, path: Seq<char>, from: int)
    requires
        0 <= from <= routes.len(),
        forall|j: int| from <= j < routes.len() ==> routes[j].0 != path,
    ensures
        from == 0 ==> !routes_map(routes).contains_key(path),
        from > 0 && routes[from - 1].0 == path ==> routes_map(routes).contains_key(path)
            && routes_map(routes)[path] == routes[from - 1].1,
    decreases routes.len(),
{
    if routes.len() > 0 {
        let shorter = routes.drop_last();
        if from < routes.len() {
            lemma_routes_map(shorter, path, from);
        } else if from > 0 && routes[from - 1].0 != path {
            lemma_routes_map(shorter, path, from - 1);
        }
    }
}

/// A table from exact paths to handlers. A handler takes nothing and gives a
/// response. The table is filled when the server starts and only read
/// afterwards.
pub struct Registry<H: Fn() -> Response> {
    routes: Vec<(String, H)>,
}

impl<H: Fn() -> Response> View for Registry<H> {
    type V = Map<Seq<char>, H>;

    /// The handler of each registered path.
    closed spec fn view(&self) -> Map<Seq<char>, H> {
        routes_map(self.registrations())
    }
}

impl<H: Fn() -> Response> Registry<H> {
    /// The registrations in the order in which they were made.
    pub closed spec fn registrations(&self) -> Seq<(Seq<char>, H)> {
        self.routes@.map_values(|route: (String, H)| (route.0@, route.1))
    }

    /// The invariant of the type: every handler may be called as it is.
    #[verifier::type_invariant]
    pub closed spec fn handlers_callable(&self) -> bool {
        forall|i: int| 0 <= i < self.routes.len() ==> call_requires(#[trigger] self.routes[i].1, ())
    }

    /// The handler that answers `path`, if one is registered for it.
    pub open spec fn resolve(&self, path: Seq<char>) -> Option<H> {
        if self@.contains_key(path) {
            Some(self@[path])
        } else {
            None
        }
    }
}

impl<H: Fn() -> Response> Registry<H> {
    /// The handler registered for exactly `path`, if there is one. The path
    /// is compared as it is written.
    pub fn get(&self, path: &str) -> (handler: Option<&H>)
        ensures
            match handler {
                Some(h) => self.resolve(path@) == Some(*h) && call_requires(*h, ()),
                None => self.resolve(path@) is None,
            },
    {
        proof {
            use_type_invariant(self);
        }
        let probe = path.to_owned();
        let mut i: usize = self.routes.len();
        while i > 0
            invariant
                i <= self.routes.len(),
                probe@ == path@,
                forall|j: int| i <= j < self.routes.len() ==> self.registrations()[j].0 != path@,
            decreases i,
        {
            if self.routes[i - 1].0 == probe {
                proof {
                    assert(self.registrations()[i - 1] == (
                        self.routes[i - 1].0@,
                        self.routes[i - 1].1,
                    ));
                    lemma_routes_map(self.registrations(), path@, i as int);
                    use_type_invariant(self);
                    assert(call_requires(self.routes[i - 1].1, ()));
                }
                return Some(&self.routes[i - 1].1);
            }
            i -= 1;
        }
        proof {
            lemma_routes_map(self.registrations(), path@, 0);
        }
        None
    }

    /// Registers `handler` for `path`. It takes the place of a handler
    /// registered for the same path before.
    pub fn register(&mut self, path: &str, handler: H)
        requires
            call_requires(handler, ()),
        ensures
            final(self)@ == old(self)@.insert(path@, handler),
    {
        proof {
            use_type_invariant(&*self);
        }
        let ghost before = self.registrations();
        let mut taken = Registry { routes: Vec::new() };
        std::mem::swap(self, &mut taken);
        let mut routes = taken.routes;
        routes.push((path.to_owned(), handler));
        assert(routes@.map_values(|route: (String, H)| (route.0@, route.1)) =~= before.push(
            (path@, handler),
        ));
        assert(before.push((path@, handler)).drop_last() =~= before);
        *self = Registry { routes };
    }

    /// Registers the handler of the index page, which answers `/`.
    pub fn init(&mut self, index: H)
        requires
            call_requires(index, ()),
        ensures
            final(self)@ == old(self)@.insert("/"@, index),
    {
        self.register("/", index);
    }

    /// A table without any route.
    pub fn new() -> (registry: Self)
        ensures
            registry@ == Map::<Seq<char>, H>::empty(),
    {
        let registry = Registry { routes: Vec::new() };
        assert(registry.registrations() =~= Seq::<(Seq<char>, H)>::empty());
        registry
    }
}

} // verus!
