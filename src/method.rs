//! HTTP request methods and their wire tokens.
use vstd::prelude::*;

verus! {

/// HTTP request methods
#[derive(Debug, PartialEq, Eq, Clone, Copy, Structural)]
#[allow(non_camel_case_types, clippy::upper_case_acronyms)]
pub enum Method {
    GET,
    HEAD,
    POST,
    PUT,
    DELETE,
    OPTIONS,
    PATCH,
}

impl Method {
    /// The canonical upper-case name of the method.
    pub open spec fn name(self) -> Seq<char> {
        match self {
            Method::GET => seq!['G', 'E', 'T'],
            Method::HEAD => seq!['H', 'E', 'A', 'D'],
            Method::POST => seq!['P', 'O', 'S', 'T'],
            Method::PUT => seq!['P', 'U', 'T'],
            Method::DELETE => seq!['D', 'E', 'L', 'E', 'T', 'E'],
            Method::OPTIONS => seq!['O', 'P', 'T', 'I', 'O', 'N', 'S'],
            Method::PATCH => seq!['P', 'A', 'T', 'C', 'H'],
        }
    }

    /// The name as it is written on the wire: one ASCII byte per character.
    pub open spec fn token(self) -> Seq<u8> {
        self.name().map_values(|c: char| c as u8)
    }

    /// The canonical upper-case name, as text.
    pub fn to_string(&self) -> (r: String)
        ensures
            r@ == self.name(),
    {
        match self {
            Method::GET => {
                proof { reveal_strlit("GET"); }
                String::from_str("GET")
            },
            Method::HEAD => {
                proof { reveal_strlit("HEAD"); }
                String::from_str("HEAD")
            },
            Method::POST => {
                proof { reveal_strlit("POST"); }
                String::from_str("POST")
            },
            Method::PUT => {
                proof { reveal_strlit("PUT"); }
                String::from_str("PUT")
            },
            Method::DELETE => {
                proof { reveal_strlit("DELETE"); }
                String::from_str("DELETE")
            },
            Method::OPTIONS => {
                proof { reveal_strlit("OPTIONS"); }
                String::from_str("OPTIONS")
            },
            Method::PATCH => {
                proof { reveal_strlit("PATCH"); }
                String::from_str("PATCH")
            },
        }
    }

    /// The wire token of the method.
    pub fn token_bytes(&self) -> (r: Vec<u8>)
        ensures
            r@ == self.token(),
    {
        let r = match self {
            Method::GET => vec![71u8, 69, 84],
            Method::HEAD => vec![72u8, 69, 65, 68],
            Method::POST => vec![80u8, 79, 83, 84],
            Method::PUT => vec![80u8, 85, 84],
            Method::DELETE => vec![68u8, 69, 76, 69, 84, 69],
            Method::OPTIONS => vec![79u8, 80, 84, 73, 79, 78, 83],
            Method::PATCH => vec![80u8, 65, 84, 67, 72],
        };
        assert(r@ =~= self.token());
        r
    }
}

} // verus!
