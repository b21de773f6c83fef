//! The cookie domain model: one extracted cookie, and the store that keeps
//! every cookie of one extraction in insertion order.

use vstd::prelude::*;

verus! {

/// Mathematical model of one cookie: every field as a plain value.
pub ghost struct CookieModel {
    pub name: Seq<char>,
    pub value: Seq<char>,
    pub domain: Seq<char>,
    pub path: Seq<char>,
    pub secure: bool,
    pub http_only: bool,
    pub expires: Option<int>,
}

/// One extracted cookie with its decrypted or plaintext value.
/// `expires` is in Unix seconds; `None` means a session cookie.
#[derive(Debug, Clone)]
pub struct Cookie {
    pub name: String,
    pub value: String,
    pub domain: String,
    pub path: String,
    pub secure: bool,
    pub http_only: bool,
    pub expires: Option<i64>,
}

impl View for Cookie {
    type V = CookieModel;

    open spec fn view(&self) -> CookieModel {
        CookieModel {
            name: self.name@,
            value: self.value@,
            domain: self.domain@,
            path: self.path@,
            secure: self.secure,
            http_only: self.http_only,
            expires: match self.expires {
                Some(x) => Some(x as int),
                None => None,
            },
        }
    }
}

impl CookieModel {
    /// The store only holds cookies with a name and a domain.
    pub open spec fn wf(self) -> bool {
        self.name.len() > 0 && self.domain.len() > 0
    }
}

impl Cookie {
    /// A field-by-field copy whose model is provably the original's.
    pub fn duplicate(&self) -> (r: Cookie)
        ensures
            r@ == self@,
    {
        Cookie {
            name: self.name.clone(),
            value: self.value.clone(),
            domain: self.domain.clone(),
            path: self.path.clone(),
            secure: self.secure,
            http_only: self.http_only,
            expires: self.expires,
        }
    }
}

/// The models of a sequence of cookies, in order.
pub open spec fn views_of(s: Seq<Cookie>) -> Seq<CookieModel> {
    Seq::new(s.len(), |i: int| s[i]@)
}

/// All extracted cookies of one extraction call, in insertion order.
/// Within one domain the order of insertion is the order kept.
#[derive(Debug)]
pub struct CookieStore {
    cookies: Vec<Cookie>,
}

impl View for CookieStore {
    type V = Seq<CookieModel>;

    closed spec fn view(&self) -> Seq<CookieModel> {
        Seq::new(self.cookies@.len(), |i: int| self.cookies@[i]@)
    }
}

impl CookieStore {
    /// Every stored cookie carries a name and a domain.
    pub open spec fn wf(self) -> bool {
        forall|i: int| 0 <= i < self@.len() ==> (#[trigger] self@[i]).wf()
    }

    /// The cookies of one domain, in stored order.
    pub open spec fn spec_domain_cookies(self, domain: Seq<char>) -> Seq<CookieModel> {
        self@.filter(|c: CookieModel| c.domain == domain)
    }

    pub fn new() -> (r: CookieStore)
        ensures
            r@ =~= Seq::<CookieModel>::empty(),
            r.wf(),
    {
        CookieStore { cookies: Vec::new() }
    }

    /// Appends one cookie at the end of the store.
    pub fn insert(&mut self, cookie: Cookie)
        requires
            cookie@.wf(),
            old(self).wf(),
        ensures
            final(self)@ =~= old(self)@.push(cookie@),
            final(self).wf(),
    {
        self.cookies.push(cookie);
        proof {
            assert(self@ =~= old(self)@.push(cookie@));
            assert forall|i: int| 0 <= i < self@.len() implies (#[trigger] self@[i]).wf() by {
                if i < old(self)@.len() {
                    assert(old(self)@[i].wf());
                }
            }
        }
    }

    pub fn len(&self) -> (r: usize)
        ensures
            r == self@.len(),
    {
        self.cookies.len()
    }

    pub fn is_empty(&self) -> (r: bool)
        ensures
            r == (self@.len() == 0),
    {
        self.cookies.len() == 0
    }

    /// Borrow of the stored cookies, in insertion order.
    pub fn all(&self) -> (r: &Vec<Cookie>)
        ensures
            r@.len() == self@.len(),
            forall|i: int| 0 <= i < r@.len() ==> (#[trigger] r@[i])@ == self@[i],
    {
        &self.cookies
    }
}

/// Inserting a cookie appends it to its own domain's bucket and leaves every
/// other domain's bucket unchanged: the store is a faithful domain-to-list
/// map with insertion order kept within each domain.
pub proof fn lemma_insert_preserves_domain_buckets(
    store: Seq<CookieModel>,
    cookie: CookieModel,
    domain: Seq<char>,
)
    ensures
        store.push(cookie).filter(|c: CookieModel| c.domain == domain) == if cookie.domain
            == domain {
            store.filter(|c: CookieModel| c.domain == domain).push(cookie)
        } else {
            store.filter(|c: CookieModel| c.domain == domain)
        },
{
    reveal(Seq::filter);
    assert(store.push(cookie).drop_last() =~= store);
    assert(store.push(cookie).last() == cookie);
}

} // verus!
