//! HTTP request methods, identified by their names.
use vstd::prelude::*;

verus! {

/// An HTTP request method. Two methods are the same exactly when their
/// names are the same ("GET" and "get" are two methods).
pub struct Method {
    name: String,
}

impl View for Method {
    type V = Seq<char>;

    closed spec fn view(&self) -> Seq<char> {
        self.name@
    }
}

pub open spec fn get_name() -> Seq<char> {
    seq!['G', 'E', 'T']
}

pub open spec fn head_name() -> Seq<char> {
    seq!['H', 'E', 'A', 'D']
}

impl Method {
    /// The method with the given name.
    pub fn from_name(name: &str) -> (m: Method)
        ensures
            m@ == name@,
    {
        Method { name: String::from_str(name) }
    }

    /// The name of the method.
    pub fn name(&self) -> (s: &str)
        ensures
            s@ == self@,
    {
        self.name.as_str()
    }

    /// Whether two methods are the same.
    pub fn same(&self, other: &Method) -> (b: bool)
        ensures
            b == (self@ == other@),
    {
        self.name == other.name
    }

    /// A copy of the method.
    pub fn duplicate(&self) -> (m: Method)
        ensures
            m@ == self@,
    {
        Method { name: self.name.clone() }
    }

    /// `GET`.
    pub fn get() -> (m: Method)
        ensures
            m@ == get_name(),
    {
        proof {
            reveal_strlit("GET");
        }
        let m = Method::from_name("GET");
        assert(m@ =~= get_name());
        m
    }

    /// `HEAD`.
    pub fn head() -> (m: Method)
        ensures
            m@ == head_name(),
    {
        proof {
            reveal_strlit("HEAD");
        }
        let m = Method::from_name("HEAD");
        assert(m@ =~= head_name());
        m
    }

    /// `PUT`.
    pub fn put() -> (m: Method)
        ensures
            m@ == seq!['P', 'U', 'T'],
    {
        proof {
            reveal_strlit("PUT");
        }
        let m = Method::from_name("PUT");
        assert(m@ =~= seq!['P', 'U', 'T']);
        m
    }

    /// `POST`.
    pub fn post() -> (m: Method)
        ensures
            m@ == seq!['P', 'O', 'S', 'T'],
    {
        proof {
            reveal_strlit("POST");
        }
        let m = Method::from_name("POST");
        assert(m@ =~= seq!['P', 'O', 'S', 'T']);
        m
    }

    /// `DELETE`.
    pub fn delete() -> (m: Method)
        ensures
            m@ == seq!['D', 'E', 'L', 'E', 'T', 'E'],
    {
        proof {
            reveal_strlit("DELETE");
        }
        let m = Method::from_name("DELETE");
        assert(m@ =~= seq!['D', 'E', 'L', 'E', 'T', 'E']);
        m
    }

    /// `OPTIONS`.
    pub fn options() -> (m: Method)
        ensures
            m@ == seq!['O', 'P', 'T', 'I', 'O', 'N', 'S'],
    {
        proof {
            reveal_strlit("OPTIONS");
        }
        let m = Method::from_name("OPTIONS");
        assert(m@ =~= seq!['O', 'P', 'T', 'I', 'O', 'N', 'S']);
        m
    }

    /// `CONNECT`.
    pub fn connect() -> (m: Method)
        ensures
            m@ == seq!['C', 'O', 'N', 'N', 'E', 'C', 'T'],
    {
        proof {
            reveal_strlit("CONNECT");
        }
        let m = Method::from_name("CONNECT");
        assert(m@ =~= seq!['C', 'O', 'N', 'N', 'E', 'C', 'T']);
        m
    }

    /// `PATCH`.
    pub fn patch() -> (m: Method)
        ensures
            m@ == seq!['P', 'A', 'T', 'C', 'H'],
    {
        proof {
            reveal_strlit("PATCH");
        }
        let m = Method::from_name("PATCH");
        assert(m@ =~= seq!['P', 'A', 'T', 'C', 'H']);
        m
    }

    /// `TRACE`.
    pub fn trace() -> (m: Method)
        ensures
            m@ == seq!['T', 'R', 'A', 'C', 'E'],
    {
        proof {
            reveal_strlit("TRACE");
        }
        let m = Method::from_name("TRACE");
        assert(m@ =~= seq!['T', 'R', 'A', 'C', 'E']);
        m
    }
}

} // verus!
