use vstd::prelude::*;

use crate::method::HttpRequestMethod;
use crate::request::HttpRequest;
use crate::text::{owned, same_text, trim_text, trimmed};

verus! {

/// The handler registered last for `m` among `s`.
pub open spec fn method_lookup<H>(s: Seq<(HttpRequestMethod, H)>, m: HttpRequestMethod) -> Option<H>
    decreases s.len(),
{
    if s.len() == 0 {
        None
    } else if s.last().0 == m {
        Some(s.last().1)
    } else {
        method_lookup(s.drop_last(), m)
    }
}

/// Replacing the last handler of a method changes the lookup of that method
/// alone.
proof fn lemma_method_lookup_update<H>(
    s: Seq<(HttpRequestMethod, H)>,
    i: int,
    x: (HttpRequestMethod, H),
)
    requires
        0 <= i < s.len(),
        s[i].0 == x.0,
        forall|j: int| i < j < s.len() ==> s[j].0 != x.0,
    ensures
        forall|m: HttpRequestMethod|
            #[trigger] method_lookup(s.update(i, x), m) == if m == x.0 {
                Some(x.1)
            } else {
                method_lookup(s, m)
            },
    decreases s.len(),
{
    let t = s.update(i, x);
    if i == s.len() - 1 {
        assert(t.drop_last() =~= s.drop_last());
        assert(t.last() == x);
    } else {
        lemma_method_lookup_update(s.drop_last(), i, x);
        assert(t.drop_last() =~= s.drop_last().update(i, x));
        assert(t.last() == s.last());
        assert forall|m: HttpRequestMethod| #[trigger] method_lookup(t, m) == if m == x.0 {
            Some(x.1)
        } else {
            method_lookup(s, m)
        } by {
            assert(method_lookup(s.drop_last().update(i, x), m) == if m == x.0 {
                Some(x.1)
            } else {
                method_lookup(s.drop_last(), m)
            });
        }
    }
}

/// The handlers of one path, by method.
pub struct Route<H> {
    handlers: Vec<(HttpRequestMethod, H)>,
}

impl<H> Route<H> {
    /// The handler of method `m` on this path.
    pub closed spec fn handler_for(&self, m: HttpRequestMethod) -> Option<H> {
        method_lookup(self.handlers@, m)
    }

    /// A route with one handler.
    pub fn new(method: HttpRequestMethod, handler: H) -> (r: Route<H>)
        ensures
            forall|m: HttpRequestMethod|
                #[trigger] r.handler_for(m) == if m == method {
                    Some(handler)
                } else {
                    None
                },
    {
        let mut handlers: Vec<(HttpRequestMethod, H)> = Vec::new();
        handlers.push((method, handler));
        let r = Route { handlers };
        proof {
            assert(r.handlers@.drop_last() =~= Seq::<(HttpRequestMethod, H)>::empty());
            assert forall|m: HttpRequestMethod| #[trigger] r.handler_for(m) == if m == method {
                Some(handler)
            } else {
                None
            } by {
                assert(r.handlers@.last() == (method, handler));
                assert(method_lookup(r.handlers@.drop_last(), m) is None);
            }
        }
        r
    }

    /// Sets the handler of `method`, leaving the other methods alone.
    pub fn set(&mut self, method: HttpRequestMethod, handler: H)
        ensures
            forall|m: HttpRequestMethod|
                #[trigger] final(self).handler_for(m) == if m == method {
                    Some(handler)
                } else {
                    old(self).handler_for(m)
                },
    {
        let mut i = self.handlers.len();
        while i > 0
            invariant
                i <= self.handlers@.len(),
                self.handlers@ == old(self).handlers@,
                forall|j: int| i <= j < self.handlers@.len() ==> self.handlers@[j].0 != method,
            decreases i,
        {
            i = i - 1;
            if self.handlers[i].0 == method {
                let ghost before = self.handlers@;
                self.handlers.set(i, (method, handler));
                proof {
                    lemma_method_lookup_update(before, i as int, (method, handler));
                    assert(self.handlers@ =~= before.update(i as int, (method, handler)));
                }
                return;
            }
        }
        let ghost before = self.handlers@;
        self.handlers.push((method, handler));
        proof {
            assert(self.handlers@.drop_last() =~= before);
        }
    }

    /// The handler of `method`, if one is set.
    pub fn get(&self, method: HttpRequestMethod) -> (r: Option<&H>)
        ensures
            match r {
                Some(h) => self.handler_for(method) == Some(*h),
                None => self.handler_for(method) is None,
            },
    {
        let mut i = self.handlers.len();
        proof {
            assert(self.handlers@.subrange(0, i as int) =~= self.handlers@);
        }
        while i > 0
            invariant
                i <= self.handlers@.len(),
                method_lookup(self.handlers@, method) == method_lookup(
                    self.handlers@.subrange(0, i as int),
                    method,
                ),
            decreases i,
        {
            proof {
                let sub = self.handlers@.subrange(0, i as int);
                assert(sub.drop_last() =~= self.handlers@.subrange(0, i - 1));
            }
            i = i - 1;
            if self.handlers[i].0 == method {
                return Some(&self.handlers[i].1);
            }
        }
        None
    }
}

/// The route registered last for path `p` among `s`.
pub open spec fn path_lookup<H>(s: Seq<(String, Route<H>)>, p: Seq<char>) -> Option<Route<H>>
    decreases s.len(),
{
    if s.len() == 0 {
        None
    } else if s.last().0@ == p {
        Some(s.last().1)
    } else {
        path_lookup(s.drop_last(), p)
    }
}

/// Replacing the last route of a path changes the lookup of that path alone.
proof fn lemma_path_lookup_update<H>(s: Seq<(String, Route<H>)>, i: int, x: (String, Route<H>))
    requires
        0 <= i < s.len(),
        s[i].0@ == x.0@,
        forall|j: int| i < j < s.len() ==> s[j].0@ != x.0@,
    ensures
        forall|q: Seq<char>|
            #[trigger] path_lookup(s.update(i, x), q) == if q == x.0@ {
                Some(x.1)
            } else {
                path_lookup(s, q)
            },
    decreases s.len(),
{
    let t = s.update(i, x);
    if i == s.len() - 1 {
        assert(t.drop_last() =~= s.drop_last());
        assert(t.last() == x);
        assert forall|q: Seq<char>| #[trigger] path_lookup(t, q) == if q == x.0@ {
            Some(x.1)
        } else {
            path_lookup(s, q)
        } by {
            assert(s.last().0@ == x.0@);
        }
    } else {
        lemma_path_lookup_update(s.drop_last(), i, x);
        assert(t.drop_last() =~= s.drop_last().update(i, x));
        assert(t.last() == s.last());
        assert(s.last().0@ != x.0@);
        assert forall|q: Seq<char>| #[trigger] path_lookup(t, q) == if q == x.0@ {
            Some(x.1)
        } else {
            path_lookup(s, q)
        } by {
            assert(path_lookup(s.drop_last().update(i, x), q) == if q == x.0@ {
                Some(x.1)
            } else {
                path_lookup(s.drop_last(), q)
            });
        }
    }
}

/// Handlers by exact path and method. Paths are kept as registered, less
/// surrounding whitespace, and looked up as they are: no pattern, no prefix,
/// no trailing-slash folding.
pub struct HttpRouter<H> {
    routes: Vec<(String, Route<H>)>,
}

impl<H> HttpRouter<H> {
    /// The handler registered for method `m` on path `p`.
    pub closed spec fn handler_for(&self, p: Seq<char>, m: HttpRequestMethod) -> Option<H> {
        match path_lookup(self.routes@, p) {
            Some(r) => r.handler_for(m),
            None => None,
        }
    }

    /// `self` is `before` with `handler` registered for `method` on `path`.
    pub open spec fn registered(
        &self,
        before: &Self,
        method: HttpRequestMethod,
        path: Seq<char>,
        handler: H,
    ) -> bool {
        forall|p: Seq<char>, m: HttpRequestMethod|
            #[trigger] self.handler_for(p, m) == if p == trimmed(path) && m == method {
                Some(handler)
            } else {
                before.handler_for(p, m)
            }
    }

    /// A router with no route.
    pub fn new() -> (r: HttpRouter<H>)
        ensures
            forall|p: Seq<char>, m: HttpRequestMethod| #[trigger] r.handler_for(p, m) is None,
    {
        HttpRouter { routes: Vec::new() }
    }

    pub fn get(&mut self, path: &str, handler: H)
        ensures
            final(self).registered(old(self), HttpRequestMethod::GET, path@, handler),
    {
        self.register(HttpRequestMethod::GET, path, handler);
    }

    pub fn post(&mut self, path: &str, handler: H)
        ensures
            final(self).registered(old(self), HttpRequestMethod::POST, path@, handler),
    {
        self.register(HttpRequestMethod::POST, path, handler);
    }

    pub fn patch(&mut self, path: &str, handler: H)
        ensures
            final(self).registered(old(self), HttpRequestMethod::PATCH, path@, handler),
    {
        self.register(HttpRequestMethod::PATCH, path, handler);
    }

    pub fn put(&mut self, path: &str, handler: H)
        ensures
            final(self).registered(old(self), HttpRequestMethod::PUT, path@, handler),
    {
        self.register(HttpRequestMethod::PUT, path, handler);
    }

    pub fn options(&mut self, path: &str, handler: H)
        ensures
            final(self).registered(old(self), HttpRequestMethod::OPTIONS, path@, handler),
    {
        self.register(HttpRequestMethod::OPTIONS, path, handler);
    }

    pub fn delete(&mut self, path: &str, handler: H)
        ensures
            final(self).registered(old(self), HttpRequestMethod::DELETE, path@, handler),
    {
        self.register(HttpRequestMethod::DELETE, path, handler);
    }

    /// Registers `handler` for `method` on `path` trimmed of whitespace; any
    /// earlier handler of that pair is replaced, other methods of the path
    /// stay.
    fn register(&mut self, method: HttpRequestMethod, path: &str, handler: H)
        ensures
            final(self).registered(old(self), method, path@, handler),
    {
        let key = trim_text(path);
        let mut i = self.routes.len();
        while i > 0
            invariant
                i <= self.routes@.len(),
                self.routes@ == old(self).routes@,
                key@ == trimmed(path@),
                forall|j: int| i <= j < self.routes@.len() ==> self.routes@[j].0@ != key@,
            decreases i,
        {
            i = i - 1;
            if same_text(self.routes[i].0.as_str(), key) {
                let ghost before = self.routes@;
                let ghost old_route = self.routes@[i as int].1;
                proof {
                    lemma_last_match(before, i as int);
                }
                self.routes[i].1.set(method, handler);
                proof {
                    lemma_path_lookup_update(before, i as int, self.routes@[i as int]);
                    assert(self.routes@ =~= before.update(i as int, self.routes@[i as int]));
                    assert(path_lookup(before, key@) == Some(old_route));
                    let new_route = self.routes@[i as int].1;
                    assert(path_lookup(self.routes@, key@) == Some(new_route));
                    assert forall|p: Seq<char>, m: HttpRequestMethod| #[trigger] self.handler_for(p, m)
                        == if p == trimmed(path@) && m == method {
                        Some(handler)
                    } else {
                        old(self).handler_for(p, m)
                    } by {
                        assert(old(self).routes@ == before);
                        assert(key@ == trimmed(path@));
                        if p != key@ {
                            assert(path_lookup(self.routes@, p) == path_lookup(before, p));
                            assert(self.handler_for(p, m) == old(self).handler_for(p, m));
                        } else {
                            assert(old(self).handler_for(p, m) == old_route.handler_for(m));
                            assert(self.handler_for(p, m) == new_route.handler_for(m));
                            assert(new_route.handler_for(m) == if m == method {
                                Some(handler)
                            } else {
                                old_route.handler_for(m)
                            });
                        }
                    }
                }
                return;
            }
        }
        proof {
            lemma_no_match(self.routes@, key@);
        }
        let ghost before = self.routes@;
        self.routes.push((owned(key), Route::new(method, handler)));
        proof {
            assert(self.routes@.drop_last() =~= before);
        }
    }

    /// The handler for the request's exact target and method.
    pub fn get_handler(&self, req: &HttpRequest) -> (r: Option<&H>)
        ensures
            match r {
                Some(h) => self.handler_for(req.target@, req.method) == Some(*h),
                None => self.handler_for(req.target@, req.method) is None,
            },
    {
        let mut i = self.routes.len();
        proof {
            assert(self.routes@.subrange(0, i as int) =~= self.routes@);
        }
        while i > 0
            invariant
                i <= self.routes@.len(),
                path_lookup(self.routes@, req.target@) == path_lookup(
                    self.routes@.subrange(0, i as int),
                    req.target@,
                ),
            decreases i,
        {
            proof {
                let sub = self.routes@.subrange(0, i as int);
                assert(sub.drop_last() =~= self.routes@.subrange(0, i - 1));
            }
            i = i - 1;
            if self.routes[i].0 == req.target {
                return self.routes[i].1.get(req.method);
            }
        }
        None
    }
}

/// The last route of a path is what a lookup of that path finds.
proof fn lemma_last_match<H>(s: Seq<(String, Route<H>)>, i: int)
    requires
        0 <= i < s.len(),
        forall|j: int| i < j < s.len() ==> s[j].0@ != s[i].0@,
    ensures
        path_lookup(s, s[i].0@) == Some(s[i].1),
    decreases s.len(),
{
    if i < s.len() - 1 {
        lemma_last_match(s.drop_last(), i);
    }
}

/// A path that no route has is found nowhere.
proof fn lemma_no_match<H>(s: Seq<(String, Route<H>)>, p: Seq<char>)
    requires
        forall|j: int| 0 <= j < s.len() ==> s[j].0@ != p,
    ensures
        path_lookup(s, p) is None,
    decreases s.len(),
{
    if s.len() > 0 {
        lemma_no_match(s.drop_last(), p);
    }
}

/// Lookup is exact: on a router that holds one `GET` route, any other path,
/// a trailing slash added included, and any other method find nothing.
pub proof fn lemma_exact_lookup<H>(
    r: HttpRouter<H>,
    empty: HttpRouter<H>,
    path: Seq<char>,
    handler: H,
    q: Seq<char>,
    m: HttpRequestMethod,
)
    requires
        forall|p: Seq<char>, mm: HttpRequestMethod| #[trigger] empty.handler_for(p, mm) is None,
        r.registered(&empty, HttpRequestMethod::GET, path, handler),
    ensures
        r.handler_for(q, m) is Some <==> (q == trimmed(path) && m == HttpRequestMethod::GET),
        r.handler_for(trimmed(path), HttpRequestMethod::GET) == Some(handler),
        r.handler_for(trimmed(path).push('/'), m) is None,
{
    assert(trimmed(path).push('/') != trimmed(path)) by {
        assert(trimmed(path).push('/').len() != trimmed(path).len());
    }
    assert(r.handler_for(q, m) == if q == trimmed(path) && m == HttpRequestMethod::GET {
        Some(handler)
    } else {
        empty.handler_for(q, m)
    });
    assert(r.handler_for(trimmed(path).push('/'), m) == empty.handler_for(
        trimmed(path).push('/'),
        m,
    ));
}

} // verus!
