use vstd::prelude::*;

use crate::strutil::trim_spec;
use crate::strutil::trim_str;

verus! {

/// An HTTP request method.
#[derive(PartialEq, Eq, Structural, Clone, Copy, Debug)]
pub enum Method {
    Get,
    Post,
    Put,
    Delete,
    Head,
    Options,
    Patch,
    Trace,
    Connect,
}

/// A matched route: the upstream URL the request is forwarded to.
pub struct Route {
    pub upstream_url: String,
}

/// Why construction of the route table failed.
#[derive(PartialEq, Eq, Structural, Clone, Copy, Debug)]
pub enum RouterError {
    InvalidBaseUrl,
}

/// The route table: a single exact route built over a normalized base URL.
pub struct Router {
    base_url: String,
}

/// The sequence with trailing `/` characters removed.
pub open spec fn strip_trailing_slashes(s: Seq<char>) -> Seq<char>
    decreases s.len(),
{
    if s.len() > 0 && s[s.len() - 1] == '/' {
        strip_trailing_slashes(s.drop_last())
    } else {
        s
    }
}

/// The configured base after trimming and removal of trailing slashes.
pub open spec fn normalized_base(s: Seq<char>) -> Seq<char> {
    strip_trailing_slashes(trim_spec(s))
}

proof fn lemma_strip_at(s: Seq<char>, i: int)
    requires
        0 <= i <= s.len(),
        forall|j: int| i <= j < s.len() ==> s[j] == '/',
        i == 0 || s[i - 1] != '/',
    ensures
        strip_trailing_slashes(s) == s.subrange(0, i),
    decreases s.len() - i,
{
    if i == s.len() {
        if s.len() > 0 && s[s.len() - 1] == '/' {
            assert(false);
        }
        assert(s.subrange(0, s.len() as int) =~= s);
    } else {
        assert(s[s.len() - 1] == '/');
        lemma_strip_at(s.drop_last(), i);
        assert(s.drop_last().subrange(0, i) =~= s.subrange(0, i));
    }
}

impl Router {
    /// The normalized base URL the table was built with.
    pub closed spec fn base(&self) -> Seq<char> {
        self.base_url@
    }

    /// Builds the table. The base URL is trimmed and stripped of trailing
    /// slashes; an empty result is rejected.
    pub fn new(base_url: &str) -> (r: Result<Router, RouterError>)
        ensures
            match r {
                Ok(rt) => {
                    &&& normalized_base(base_url@).len() > 0
                    &&& rt.base() == normalized_base(base_url@)
                    &&& rt.base()[rt.base().len() - 1] != '/'
                },
                Err(e) => e == RouterError::InvalidBaseUrl && normalized_base(base_url@).len()
                    == 0,
            },
    {
        let t = trim_str(base_url);
        let lt: usize = t.unicode_len();
        let mut end: usize = lt;
        while end > 0 && t.get_char(end - 1) == '/'
            invariant
                0 <= end <= lt,
                lt == t@.len(),
                t@ == trim_spec(base_url@),
                forall|j: int| end <= j < lt ==> t@[j] == '/',
            decreases end,
        {
            end = end - 1;
        }
        proof {
            lemma_strip_at(t@, end as int);
        }
        if end == 0 {
            return Err(RouterError::InvalidBaseUrl);
        }
        let base = t.substring_char(0, end).to_owned();
        Ok(Router { base_url: base })
    }

    /// Exact matching on method and path; the one route proxied is
    /// `POST /v1/responses`, forwarded to `{base}/responses`.
    pub fn match_route(&self, method: &Method, path: &str) -> (r: Option<Route>)
        ensures
            match r {
                Some(route) => {
                    &&& *method == Method::Post
                    &&& path@ == "/v1/responses"@
                    &&& route.upstream_url@ == self.base() + "/responses"@
                },
                None => !(*method == Method::Post && path@ == "/v1/responses"@),
            },
    {
        match method {
            Method::Post => {
                if crate::strutil::str_eq(path, "/v1/responses") {
                    let url = self.base_url.clone().concat("/responses");
                    Some(Route { upstream_url: url })
                } else {
                    None
                }
            },
            _ => None,
        }
    }
}

} // verus!
