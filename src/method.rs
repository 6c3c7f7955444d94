//! The HTTP verbs a request template may use.
use vstd::prelude::*;

verus! {

/// One of the five verbs a request can be issued with.
#[derive(Clone, Copy, Debug, PartialEq, Eq, Structural)]
pub enum HttpMethod {
    Get,
    Post,
    Patch,
    Put,
    Delete,
}

/// The canonical upper-case name of a verb.
pub open spec fn method_name(m: HttpMethod) -> Seq<char> {
    match m {
        HttpMethod::Get => "GET"@,
        HttpMethod::Post => "POST"@,
        HttpMethod::Patch => "PATCH"@,
        HttpMethod::Put => "PUT"@,
        HttpMethod::Delete => "DELETE"@,
    }
}

/// The verb whose canonical name is exactly `s`, if any (names are case-sensitive).
pub open spec fn method_named(s: Seq<char>) -> Option<HttpMethod> {
    if s == method_name(HttpMethod::Get) {
        Some(HttpMethod::Get)
    } else if s == method_name(HttpMethod::Post) {
        Some(HttpMethod::Post)
    } else if s == method_name(HttpMethod::Patch) {
        Some(HttpMethod::Patch)
    } else if s == method_name(HttpMethod::Put) {
        Some(HttpMethod::Put)
    } else if s == method_name(HttpMethod::Delete) {
        Some(HttpMethod::Delete)
    } else {
        None
    }
}

impl HttpMethod {
    /// The canonical upper-case name of this verb.
    pub fn as_str(&self) -> (r: &'static str)
        ensures
            r@ == method_name(*self),
    {
        match self {
            HttpMethod::Get => "GET",
            HttpMethod::Post => "POST",
            HttpMethod::Patch => "PATCH",
            HttpMethod::Put => "PUT",
            HttpMethod::Delete => "DELETE",
        }
    }

    /// Reads a verb from its canonical name; any other text is `None`.
    pub fn parse(s: &str) -> (r: Option<HttpMethod>)
        ensures
            r == method_named(s@),
    {
        let text = s.to_owned();
        let all: [HttpMethod; 5] = [
            HttpMethod::Get,
            HttpMethod::Post,
            HttpMethod::Patch,
            HttpMethod::Put,
            HttpMethod::Delete,
        ];
        let mut i: usize = 0;
        while i < 5
            invariant
                i <= 5,
                text@ == s@,
                all@ == seq![
                    HttpMethod::Get,
                    HttpMethod::Post,
                    HttpMethod::Patch,
                    HttpMethod::Put,
                    HttpMethod::Delete,
                ],
                forall|j: int| 0 <= j < i ==> s@ != method_name(#[trigger] all@[j]),
            decreases 5 - i,
        {
            let m = all[i];
            let name = m.as_str().to_owned();
            if name == text {
                return Some(m);
            }
            i = i + 1;
        }
        None
    }
}

} // verus!
