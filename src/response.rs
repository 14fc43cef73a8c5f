//! The status line of a response head.
use vstd::prelude::*;

verus! {

/// Why an exchange failed.
#[derive(Debug, PartialEq, Eq, Clone, Copy, Structural)]
pub enum Error {
    /// The stream ended before the response head was complete.
    UnexpectedEof,
    /// The response head does not start with a status line.
    Parse,
}

pub open spec fn is_digit_byte(b: u8) -> bool {
    48 <= b <= 57
}

/// `h` starts with `HTTP/x.y NNN`, followed by a space, a CR, or nothing.
pub open spec fn status_line_ok(h: Seq<u8>) -> bool {
    &&& h.len() >= 12
    &&& h.take(5) == seq![72u8, 84u8, 84u8, 80u8, 47u8]
    &&& h[8] == 32u8
    &&& is_digit_byte(h[9]) && is_digit_byte(h[10]) && is_digit_byte(h[11])
    &&& (h.len() == 12 || h[12] == 32u8 || h[12] == 13u8)
}

/// The three-digit status code of a status line.
pub open spec fn status_of(h: Seq<u8>) -> int {
    100 * (h[9] - 48) + 10 * (h[10] - 48) + (h[11] - 48)
}

/// A response, as far as its head has been read.
pub struct Response {
    status: u16,
}

impl Response {
    pub closed spec fn status_view(&self) -> u16 {
        self.status
    }

    /// Reads the status line at the start of a response head.
    pub fn from_head(head: &Vec<u8>) -> (r: Result<Response, Error>)
        ensures
            r is Ok <==> status_line_ok(head@),
            r matches Ok(resp) ==> resp.status_view() as int == status_of(head@),
            r matches Err(e) ==> e == Error::Parse,
    {
        if head.len() < 12 {
            return Err(Error::Parse);
        }
        let prefix_ok = head[0] == 72 && head[1] == 84 && head[2] == 84 && head[3] == 80 && head[4] == 47;
        proof {
            if prefix_ok {
                assert(head@.take(5) =~= seq![72u8, 84u8, 84u8, 80u8, 47u8]);
            } else if head@.take(5) == seq![72u8, 84u8, 84u8, 80u8, 47u8] {
                assert(head@.take(5)[0] == head@[0]);
                assert(head@.take(5)[1] == head@[1]);
                assert(head@.take(5)[2] == head@[2]);
                assert(head@.take(5)[3] == head@[3]);
                assert(head@.take(5)[4] == head@[4]);
            }
        }
        if !prefix_ok || head[8] != 32 {
            return Err(Error::Parse);
        }
        let (a, b, c) = (head[9], head[10], head[11]);
        if !(48 <= a && a <= 57 && 48 <= b && b <= 57 && 48 <= c && c <= 57) {
            return Err(Error::Parse);
        }
        if head.len() > 12 && head[12] != 32 && head[12] != 13 {
            return Err(Error::Parse);
        }
        let status: u16 = 100 * (a - 48) as u16 + 10 * (b - 48) as u16 + (c - 48) as u16;
        Ok(Response { status })
    }

    /// The status code.
    pub fn status_code(&self) -> (r: u16)
        ensures
            r == self.status_view(),
    {
        self.status
    }
}

} // verus!
