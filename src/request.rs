//! Creating HTTP requests: the builder, the request with client defaults,
//! the wire message, and the reading of a response from a stream.
use vstd::prelude::*;
use vstd::string::*;
use vstd::utf8::*;
use crate::headers::{HeaderSeq, Headers, keys_unique, with_header, host_key, referer_key};
use crate::method::Method;
use crate::response::{Error, Response, status_line_ok, status_of};
use crate::scan::{ByteReader, ScanError, append_bytes, copy_until, scan_stops_at, scan_runs_out};
use crate::uri::{Uri, secure_scheme};

verus! {

/// `\r\n`.
pub open spec fn crlf() -> Seq<u8> {
    seq![13u8, 10u8]
}

/// `\r\n\r\n`, the end of a message head.
pub open spec fn crlf2() -> Seq<u8> {
    seq![13u8, 10u8, 13u8, 10u8]
}

/// `HTTP/1.1`.
pub open spec fn version() -> Seq<u8> {
    seq![72u8, 84u8, 84u8, 80u8, 47u8, 49u8, 46u8, 49u8]
}

/// `<METHOD> <resource> HTTP/1.1\r\n`.
pub open spec fn request_line(m: Method, resource: Seq<char>) -> Seq<u8> {
    m.token() + seq![32u8] + encode_utf8(resource) + seq![32u8] + version() + crlf()
}

/// `<key>: <value>\r\n`.
pub open spec fn header_line(k: Seq<char>, v: Seq<char>) -> Seq<u8> {
    encode_utf8(k) + seq![58u8, 32u8] + encode_utf8(v) + crlf()
}

/// One header line for each entry, in order.
pub open spec fn header_lines(hs: HeaderSeq) -> Seq<u8>
    decreases hs.len(),
{
    if hs.len() == 0 {
        Seq::empty()
    } else {
        header_lines(hs.drop_last()) + header_line(hs.last().0, hs.last().1)
    }
}

/// The whole request message: request line, header lines, a blank line,
/// and the body as it is.
pub open spec fn message(m: Method, resource: Seq<char>, hs: HeaderSeq, body: Option<Seq<u8>>) -> Seq<u8> {
    request_line(m, resource) + header_lines(hs) + crlf() + match body {
        Some(b) => b,
        None => Seq::empty(),
    }
}

pub open spec fn connection_key() -> Seq<char> {
    seq!['C', 'o', 'n', 'n', 'e', 'c', 't', 'i', 'o', 'n']
}

pub open spec fn close_value() -> Seq<char> {
    seq!['C', 'l', 'o', 's', 'e']
}

/// Relatively low-level struct for making HTTP requests.
///
/// It writes its message to any byte sink and reads the response from any
/// byte source. It does not close the connection after the response.
pub struct RequestBuilder<'a> {
    pub uri: &'a Uri,
    pub method: Method,
    pub headers: Headers,
    pub body: Option<&'a [u8]>,
}

impl<'a> RequestBuilder<'a> {
    pub open spec fn body_view(&self) -> Option<Seq<u8>> {
        match self.body {
            Some(b) => Some(b@),
            None => None,
        }
    }

    /// The message this builder sends.
    pub open spec fn message_view(&self) -> Seq<u8> {
        message(self.method, self.uri.resource_view(), self.headers@, self.body_view())
    }

    /// Creates new `RequestBuilder` with default parameters: `GET`, the
    /// `Host` and `Referer` headers, no body.
    pub fn new(uri: &'a Uri) -> (r: RequestBuilder<'a>)
        ensures
            r.uri == uri,
            r.method == Method::GET,
            r.headers.wf(),
            r.headers@ == seq![(host_key(), uri.authority_view()), (referer_key(), uri.text())],
            r.body is None,
    {
        RequestBuilder { headers: Headers::default_http(uri), uri, method: Method::GET, body: None }
    }

    /// Sets request method.
    pub fn method(&mut self, method: Method)
        ensures
            final(self).method == method,
            final(self).uri == old(self).uri,
            final(self).headers == old(self).headers,
            final(self).body == old(self).body,
    {
        self.method = method;
    }

    /// Replaces all its headers with `headers`.
    pub fn headers(&mut self, headers: Headers)
        ensures
            final(self).headers == headers,
            final(self).method == old(self).method,
            final(self).uri == old(self).uri,
            final(self).body == old(self).body,
    {
        self.headers = headers;
    }

    /// Adds a header to the existing ones, or overwrites the one of that key.
    pub fn header(&mut self, key: &str, val: &str)
        requires
            old(self).headers.wf(),
        ensures
            final(self).headers.wf(),
            final(self).headers@ == with_header(old(self).headers@, key@, val@),
            final(self).method == old(self).method,
            final(self).uri == old(self).uri,
            final(self).body == old(self).body,
    {
        self.headers.insert(key, val);
    }

    /// Sets body for request.
    pub fn body(&mut self, body: &'a [u8])
        ensures
            final(self).body == Some(body),
            final(self).method == old(self).method,
            final(self).uri == old(self).uri,
            final(self).headers == old(self).headers,
    {
        self.body = Some(body);
    }

    /// Writes `msg` to `stream`.
    pub fn write_msg(&self, stream: &mut Vec<u8>, msg: &[u8])
        ensures
            final(stream)@ == old(stream)@ + msg@,
    {
        append_bytes(stream, msg);
    }

    /// Reads the head of the server's response from `stream`: the bytes up
    /// to the end of the first `\r\n\r\n`, and nothing past it.
    pub fn read_head(&self, stream: &mut ByteReader) -> (r: Result<Response, Error>)
        requires
            old(stream).wf(),
        ensures
            final(stream).wf(),
            final(stream).data() == old(stream).data(),
            r == Err::<Response, Error>(Error::UnexpectedEof) <==> scan_runs_out(old(stream).rest(), crlf2()),
            r == Err::<Response, Error>(Error::UnexpectedEof) ==> final(stream).pos() == old(stream).data().len(),
            forall|n: int| #[trigger] scan_stops_at(old(stream).rest(), crlf2(), n) ==> {
                &&& final(stream).pos() == old(stream).pos() + n
                &&& (r is Ok <==> status_line_ok(old(stream).rest().take(n)))
                &&& (r matches Ok(resp) ==> resp.status_view() as int == status_of(old(stream).rest().take(n)))
                &&& (r matches Err(e) ==> e == Error::Parse)
            },
    {
        let mut head: Vec<u8> = Vec::new();
        let delim: Vec<u8> = vec![13u8, 10, 13, 10];
        assert(delim@ =~= crlf2());
        let ghost s = stream.rest();
        match copy_until(stream, &mut head, delim.as_slice()) {
            Ok(n) => {
                assert(head@ =~= s.take(n as int));
                proof {
                    assert forall|m: int| #[trigger] scan_stops_at(s, crlf2(), m) implies m == n by {
                        lemma_scan_stop_unique(s, crlf2(), m, n as int);
                    }
                    lemma_stop_not_runs_out(s, crlf2(), n as int);
                }
                Response::from_head(&head)
            },
            Err(ScanError::UnexpectedEof) => {
                proof {
                    assert forall|m: int| !#[trigger] scan_stops_at(s, crlf2(), m) by {
                        if scan_stops_at(s, crlf2(), m) {
                            lemma_stop_not_runs_out(s, crlf2(), m);
                        }
                    }
                }
                Err(Error::UnexpectedEof)
            },
        }
    }

    /// Builds the request message for this `RequestBuilder`.
    pub fn parse_msg(&self) -> (r: Vec<u8>)
        requires
            self.headers.wf(),
        ensures
            r@ == self.message_view(),
    {
        let mut msg = self.method.token_bytes();
        msg.push(32u8);
        let res = self.uri.resource();
        append_bytes(&mut msg, res.as_str().as_bytes());
        msg.push(32u8);
        let ver: Vec<u8> = vec![72u8, 84, 84, 80, 47, 49, 46, 49];
        append_bytes(&mut msg, ver.as_slice());
        msg.push(13u8);
        msg.push(10u8);
        assert(ver@ =~= version());
        assert(msg@ =~= request_line(self.method, self.uri.resource_view()));
        let ghost line = msg@;
        let n = self.headers.len();
        let mut i: usize = 0;
        assert(self.headers@.take(0) =~= Seq::<(Seq<char>, Seq<char>)>::empty());
        while i < n
            invariant
                n == self.headers@.len(),
                i <= n,
                msg@ == line + header_lines(self.headers@.take(i as int)),
            decreases n - i,
        {
            append_bytes(&mut msg, self.headers.key(i).as_bytes());
            msg.push(58u8);
            msg.push(32u8);
            append_bytes(&mut msg, self.headers.value(i).as_bytes());
            msg.push(13u8);
            msg.push(10u8);
            proof {
                let t = self.headers@.take(i + 1);
                assert(t.drop_last() =~= self.headers@.take(i as int));
                assert(msg@ =~= line + header_lines(t));
            }
            i = i + 1;
        }
        assert(self.headers@.take(n as int) =~= self.headers@);
        msg.push(13u8);
        msg.push(10u8);
        match self.body {
            Some(b) => {
                append_bytes(&mut msg, b);
            },
            None => {},
        }
        assert(msg@ =~= self.message_view());
        msg
    }

    /// Whether what follows the response head is read: for every method but
    /// `HEAD`.
    pub fn wants_body(&self) -> (r: bool)
        ensures
            r == (self.method != Method::HEAD),
    {
        self.method != Method::HEAD
    }

    /// The response that a head read from a live stream gives.
    pub fn head_response(&self, head: &Vec<u8>) -> (r: Result<Response, Error>)
        ensures
            r is Ok <==> status_line_ok(head@),
            r matches Ok(resp) ==> resp.status_view() as int == status_of(head@),
            r matches Err(e) ==> e == Error::Parse,
    {
        Response::from_head(head)
    }

    /// Reads the response from `stream`, once the message has been sent:
    /// its head, and, unless the method is `HEAD`, all that follows it,
    /// which goes to `writer`.
    pub fn receive(&self, stream: &mut ByteReader, writer: &mut Vec<u8>) -> (r: Result<Response, Error>)
        requires
            old(stream).wf(),
        ensures
            final(stream).wf(),
            final(stream).data() == old(stream).data(),
            r == Err::<Response, Error>(Error::UnexpectedEof) <==> scan_runs_out(old(stream).rest(), crlf2()),
            forall|n: int| #[trigger] scan_stops_at(old(stream).rest(), crlf2(), n) ==> {
                let head = old(stream).rest().take(n);
                &&& (r is Ok <==> status_line_ok(head))
                &&& (r matches Ok(resp) ==> resp.status_view() as int == status_of(head))
                &&& (r matches Err(e) ==> e == Error::Parse)
                &&& (r is Ok && self.method != Method::HEAD ==> final(writer)@ == old(writer)@
                    + old(stream).rest().skip(n))
                &&& (self.method == Method::HEAD || r is Err ==> final(stream).pos() == old(stream).pos() + n)
                &&& (r is Ok && self.method != Method::HEAD ==> final(stream).pos() == old(stream).data().len())
            },
            r == Err::<Response, Error>(Error::UnexpectedEof) ==> final(stream).pos() == old(stream).data().len(),
            self.method == Method::HEAD || r is Err ==> final(writer)@ == old(writer)@,
    {
        let ghost s = stream.rest();
        let ghost p = stream.pos();
        let res = self.read_head(stream);
        match res {
            Ok(resp) => {
                if self.method != Method::HEAD {
                    proof {
                        assert forall|n: int| #[trigger] scan_stops_at(s, crlf2(), n) implies stream.rest()
                            =~= s.skip(n) by {
                            assert(stream.pos() == p + n);
                        }
                    }
                    let rest = stream.read_rest();
                    append_bytes(writer, rest.as_slice());
                }
                Ok(resp)
            },
            Err(e) => Err(e),
        }
    }
}

/// Relatively higher-level struct for making HTTP requests.
///
/// It asks for an encrypted transport where the URI's scheme is `https`,
/// and closes the connection after the response.
pub struct Request<'a> {
    pub inner: RequestBuilder<'a>,
}

impl<'a> Request<'a> {
    /// Creates new `Request` with default parameters: those of
    /// `RequestBuilder::new`, and `Connection: Close`.
    pub fn new(uri: &'a Uri) -> (r: Request<'a>)
        ensures
            r.inner.uri == uri,
            r.inner.method == Method::GET,
            r.inner.headers.wf(),
            r.inner.headers@ == seq![
                (host_key(), uri.authority_view()),
                (referer_key(), uri.text()),
                (connection_key(), close_value()),
            ],
            r.inner.body is None,
    {
        let mut builder = RequestBuilder::new(uri);
        proof {
            reveal_strlit("Connection");
            reveal_strlit("Close");
            assert("Connection"@ =~= connection_key());
            assert("Close"@ =~= close_value());
            let s = builder.headers@;
            assert(s[0].0 != connection_key());
            assert(s[1].0 != connection_key());
            assert(!crate::headers::has_key(s, connection_key()));
        }
        builder.header("Connection", "Close");
        assert(builder.headers@ =~= seq![
            (host_key(), uri.authority_view()),
            (referer_key(), uri.text()),
            (connection_key(), close_value()),
        ]);
        Request { inner: builder }
    }

    /// Replaces all its headers with `headers`.
    pub fn headers(&mut self, headers: Headers)
        ensures
            final(self).inner.headers == headers,
            final(self).inner.method == old(self).inner.method,
            final(self).inner.uri == old(self).inner.uri,
            final(self).inner.body == old(self).inner.body,
    {
        self.inner.headers(headers);
    }

    /// Adds a header to the existing ones, or overwrites the one of that key.
    pub fn header(&mut self, key: &str, val: &str)
        requires
            old(self).inner.headers.wf(),
        ensures
            final(self).inner.headers.wf(),
            final(self).inner.headers@ == with_header(old(self).inner.headers@, key@, val@),
            final(self).inner.method == old(self).inner.method,
            final(self).inner.uri == old(self).inner.uri,
            final(self).inner.body == old(self).inner.body,
    {
        self.inner.header(key, val);
    }

    /// Changes request's method.
    pub fn set_method(&mut self, method: Method)
        ensures
            final(self).inner.method == method,
            final(self).inner.headers == old(self).inner.headers,
            final(self).inner.uri == old(self).inner.uri,
            final(self).inner.body == old(self).inner.body,
    {
        self.inner.method(method);
    }

    /// Whether the exchange goes over an encrypted transport: where the
    /// scheme is `https`.
    pub fn uses_tls(&self) -> (r: bool)
        ensures
            r == (self.inner.uri.scheme_view() == secure_scheme()),
    {
        self.inner.uri.is_secure()
    }

    /// Where to connect: the host, empty where the URI names none, and the
    /// port.
    pub fn target(&self) -> (r: (&str, u16))
        ensures
            r.0@ == self.inner.uri.host_view(),
            r.1 == self.inner.uri.corr_port_view(),
    {
        let host = match self.inner.uri.host() {
            Some(h) => h,
            None => {
                proof { reveal_strlit(""); }
                ""
            },
        };
        assert(host@ =~= self.inner.uri.host_view());
        (host, self.inner.uri.corr_port())
    }
}

/// A message with no body and one header consists of the request line, the
/// header line and a blank line, and nothing after it.
pub proof fn lemma_one_header_message(resource: Seq<char>, k: Seq<char>, v: Seq<char>)
    ensures
        message(Method::GET, resource, seq![(k, v)], None) == request_line(Method::GET, resource)
            + header_line(k, v) + crlf(),
{
    let hs = seq![(k, v)];
    assert(hs.drop_last() =~= Seq::<(Seq<char>, Seq<char>)>::empty());
    assert(header_lines(hs.drop_last()) =~= Seq::<u8>::empty());
    assert(hs.last() == (k, v));
    assert(header_lines(hs) =~= header_line(k, v));
    assert(message(Method::GET, resource, hs, None) =~= request_line(Method::GET, resource)
        + header_line(k, v) + crlf());
}

/// A body is appended to the message as it is, with nothing around it.
pub proof fn lemma_body_verbatim(m: Method, resource: Seq<char>, hs: HeaderSeq, b: Seq<u8>)
    ensures
        message(m, resource, hs, Some(b)) == message(m, resource, hs, None) + b,
{
    assert(message(m, resource, hs, Some(b)) =~= message(m, resource, hs, None) + b);
}

/// `Connection: Close` stays in the headers through the setting of any
/// header of another key.
pub proof fn lemma_connection_close_kept(s: HeaderSeq, k: Seq<char>, v: Seq<char>)
    requires
        keys_unique(s),
        s.contains((connection_key(), close_value())),
        k != connection_key(),
    ensures
        with_header(s, k, v).contains((connection_key(), close_value())),
{
    crate::headers::lemma_with_header(s, k, v);
    let j = choose|j: int| 0 <= j < s.len() && s[j] == (connection_key(), close_value());
    assert(with_header(s, k, v)[j] == s[j]);
}

/// A stop of a scan is the only one.
pub proof fn lemma_scan_stop_unique(s: Seq<u8>, d: Seq<u8>, m: int, n: int)
    requires
        scan_stops_at(s, d, m),
        scan_stops_at(s, d, n),
    ensures
        m == n,
{
    if m < n {
        assert(!crate::scan::ends_with(s.take(m), d));
    } else if n < m {
        assert(!crate::scan::ends_with(s.take(n), d));
    }
}

/// A scan that stops does not run out.
pub proof fn lemma_stop_not_runs_out(s: Seq<u8>, d: Seq<u8>, n: int)
    requires
        scan_stops_at(s, d, n),
    ensures
        !scan_runs_out(s, d),
{
    assert(crate::scan::ends_with(s.take(n), d));
}

} // verus!
