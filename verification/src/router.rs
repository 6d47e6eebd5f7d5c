//! The route table: a mapping from (path, method) to a registered handler.
//!
//! Registration normalizes the path by prefixing `/` when it is missing and
//! rejects a pair that is already taken; lookup is exact. The handler type
//! is a parameter, so the table routes whatever the surrounding
//! application stores in it.

use vstd::prelude::*;

use crate::request::Method;
use crate::text::str_eq;

verus! {

/// Why a registration was rejected.
#[derive(Clone, Copy, Debug, PartialEq, Eq, Structural)]
pub enum RouteError {
    /// The (path, method) pair already has a handler.
    AlreadyRegistered,
}

/// Index of the first entry matching path `p` and method `m`, at or after
/// `i`; `s.len()` if there is none.
pub open spec fn route_idx<H>(
    s: Seq<(Seq<char>, Method, H)>,
    p: Seq<char>,
    m: Method,
    i: int,
) -> int
    decreases s.len() - i,
{
    if i < 0 || i >= s.len() {
        s.len() as int
    } else if s[i].0 == p && s[i].1 == m {
        i
    } else {
        route_idx(s, p, m, i + 1)
    }
}

/// Whether the table holds a handler for (p, m).
pub open spec fn has_route<H>(s: Seq<(Seq<char>, Method, H)>, p: Seq<char>, m: Method) -> bool {
    route_idx(s, p, m, 0) < s.len()
}

/// The handler registered for (p, m) (meaningful when `has_route`).
pub open spec fn route_at<H>(s: Seq<(Seq<char>, Method, H)>, p: Seq<char>, m: Method) -> H {
    s[route_idx(s, p, m, 0)].2
}

/// The path as registration stores it: unchanged when it starts with `/`,
/// else with `/` prefixed.
pub open spec fn norm_path(p: Seq<char>) -> Seq<char> {
    if p.len() > 0 && p[0] == '/' {
        p
    } else {
        seq!['/'] + p
    }
}

/// What registering (p, m, h) does to the table: nothing when the
/// normalized pair is taken, else an appended entry.
pub open spec fn register_spec<H>(
    s: Seq<(Seq<char>, Method, H)>,
    p: Seq<char>,
    m: Method,
    h: H,
) -> Option<Seq<(Seq<char>, Method, H)>> {
    let np = norm_path(p);
    if has_route(s, np, m) {
        None
    } else {
        Some(s.push((np, m, h)))
    }
}

pub proof fn lemma_route_idx_bounds<H>(
    s: Seq<(Seq<char>, Method, H)>,
    p: Seq<char>,
    m: Method,
    i: int,
)
    requires
        0 <= i <= s.len(),
    ensures
        i <= route_idx(s, p, m, i) <= s.len(),
        route_idx(s, p, m, i) < s.len() ==> s[route_idx(s, p, m, i)].0 == p && s[route_idx(
            s,
            p,
            m,
            i,
        )].1 == m,
        forall|j: int|
            i <= j < route_idx(s, p, m, i) ==> !(s[j].0 == p && s[j].1 == m),
    decreases s.len() - i,
{
    if i < s.len() && !(s[i].0 == p && s[i].1 == m) {
        lemma_route_idx_bounds(s, p, m, i + 1);
    }
}

proof fn lemma_route_idx_push<H>(
    s: Seq<(Seq<char>, Method, H)>,
    e: (Seq<char>, Method, H),
    p: Seq<char>,
    m: Method,
    i: int,
)
    requires
        0 <= i <= s.len(),
    ensures
        ({
            let s2 = s.push(e);
            let a = route_idx(s, p, m, i);
            let b = route_idx(s2, p, m, i);
            &&& (a < s.len() ==> b == a)
            &&& (a == s.len() && e.0 == p && e.1 == m ==> b == s.len() as int)
            &&& (a == s.len() && !(e.0 == p && e.1 == m) ==> b == s2.len() as int)
        }),
    decreases s.len() - i,
{
    lemma_route_idx_bounds(s, p, m, i);
    let s2 = s.push(e);
    if i < s.len() {
        assert(s2[i] == s[i]);
        if !(s[i].0 == p && s[i].1 == m) {
            lemma_route_idx_push(s, e, p, m, i + 1);
        }
    } else {
        assert(s2[i] == e);
        if !(e.0 == p && e.1 == m) {
            assert(route_idx(s2, p, m, i) == route_idx(s2, p, m, i + 1));
        }
    }
}

/// The full table of registered routes.
pub struct Router<H> {
    entries: Vec<(String, Method, H)>,
}

impl<H> View for Router<H> {
    type V = Seq<(Seq<char>, Method, H)>;

    closed spec fn view(&self) -> Seq<(Seq<char>, Method, H)> {
        Seq::new(
            self.entries@.len(),
            |i: int| (self.entries@[i].0@, self.entries@[i].1, self.entries@[i].2),
        )
    }
}

impl<H> Router<H> {
    /// An empty table.
    pub fn new() -> (r: Router<H>)
        ensures
            r@ == Seq::<(Seq<char>, Method, H)>::empty(),
    {
        let r = Router { entries: Vec::new() };
        proof {
            assert(r@ =~= Seq::<(Seq<char>, Method, H)>::empty());
        }
        r
    }

    /// Register `handler` under the normalized path and the method, exactly
    /// as [`register_spec`] describes: a taken pair is rejected and the
    /// table stays as it was.
    pub fn register(&mut self, pathname: &str, method: Method, handler: H) -> (r: Result<
        (),
        RouteError,
    >)
        ensures
            (match register_spec(old(self)@, pathname@, method, handler) {
                Some(s2) => r is Ok && final(self)@ == s2,
                None => r is Err && final(self)@ == old(self)@,
            }),
    {
        let mut path: String;
        if pathname.unicode_len() > 0 && pathname.get_char(0) == '/' {
            path = String::from_str(pathname);
        } else {
            path = String::from_str("/");
            path.append(pathname);
            proof {
                reveal_strlit("/");
                assert(path@ =~= norm_path(pathname@));
            }
        }
        let n = self.entries.len();
        let mut i: usize = 0;
        while i < n
            invariant
                n == self.entries@.len(),
                i <= n,
                path@ == norm_path(pathname@),
                route_idx(self@, path@, method, 0) == route_idx(self@, path@, method, i as int),
            decreases n - i,
        {
            if str_eq(self.entries[i].0.as_str(), path.as_str()) && self.entries[i].1 == method {
                proof {
                    lemma_route_idx_bounds(self@, path@, method, i as int);
                }
                return Err(RouteError::AlreadyRegistered);
            }
            i += 1;
        }
        self.entries.push((path, method, handler));
        proof {
            assert(self@ =~= old(self)@.push((norm_path(pathname@), method, handler)));
        }
        Ok(())
    }

    /// Look `pathname` and `method` up exactly: the registered handler, or
    /// nothing. No normalization is applied here.
    pub fn lookup(&self, pathname: &str, method: Method) -> (r: Option<&H>)
        ensures
            (match r {
                Some(h) => has_route(self@, pathname@, method) && *h == route_at(
                    self@,
                    pathname@,
                    method,
                ),
                None => !has_route(self@, pathname@, method),
            }),
    {
        let n = self.entries.len();
        let mut i: usize = 0;
        while i < n
            invariant
                n == self.entries@.len(),
                i <= n,
                route_idx(self@, pathname@, method, 0) == route_idx(
                    self@,
                    pathname@,
                    method,
                    i as int,
                ),
            decreases n - i,
        {
            if str_eq(self.entries[i].0.as_str(), pathname) && self.entries[i].1 == method {
                proof {
                    lemma_route_idx_bounds(self@, pathname@, method, i as int);
                }
                return Some(&self.entries[i].2);
            }
            i += 1;
        }
        None
    }
}

/// Registering the same (path, method) pair twice fails the second time and
/// leaves the handler registered first in place.
pub proof fn lemma_register_twice<H>(
    s: Seq<(Seq<char>, Method, H)>,
    p: Seq<char>,
    m: Method,
    h1: H,
    h2: H,
)
    requires
        !has_route(s, norm_path(p), m),
    ensures
        register_spec(s, p, m, h1) == Some(s.push((norm_path(p), m, h1))),
        register_spec(s.push((norm_path(p), m, h1)), p, m, h2) is None,
        has_route(s.push((norm_path(p), m, h1)), norm_path(p), m),
        route_at(s.push((norm_path(p), m, h1)), norm_path(p), m) == h1,
{
    lemma_route_idx_bounds(s, norm_path(p), m, 0);
    lemma_route_idx_push(s, (norm_path(p), m, h1), norm_path(p), m, 0);
}

/// A path registered without its leading slash is found under the
/// slash-prefixed path: registration adds the `/` before inserting.
pub proof fn lemma_register_normalizes<H>(
    s: Seq<(Seq<char>, Method, H)>,
    p: Seq<char>,
    m: Method,
    h: H,
)
    requires
        p.len() == 0 || p[0] != '/',
        !has_route(s, seq!['/'] + p, m),
    ensures
        register_spec(s, p, m, h) == Some(s.push((seq!['/'] + p, m, h))),
        has_route(s.push((seq!['/'] + p, m, h)), seq!['/'] + p, m),
        route_at(s.push((seq!['/'] + p, m, h)), seq!['/'] + p, m) == h,
{
    assert(norm_path(p) == seq!['/'] + p);
    lemma_route_idx_bounds(s, seq!['/'] + p, m, 0);
    lemma_route_idx_push(s, (seq!['/'] + p, m, h), seq!['/'] + p, m, 0);
}

} // verus!
