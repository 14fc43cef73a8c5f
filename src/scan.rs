//! The delimiter scan that isolates a response head from the bytes that
//! follow it, over an in-memory byte source.
use vstd::prelude::*;

verus! {

/// The most bytes that the first read of a scan asks for.
pub const PROBE_LEN: usize = 10;

/// `s` ends with `d`.
pub open spec fn ends_with(s: Seq<u8>, d: Seq<u8>) -> bool {
    d.len() <= s.len() && s.subrange(s.len() - d.len(), s.len() as int) == d
}

/// `n` is where a scan of `s` for `d` stops: the end of the first
/// occurrence of `d` in `s`.
pub open spec fn scan_stops_at(s: Seq<u8>, d: Seq<u8>, n: int) -> bool {
    &&& 0 <= n <= s.len()
    &&& ends_with(s.take(n), d)
    &&& forall|e: int| 0 <= e < n ==> !ends_with(#[trigger] s.take(e), d)
}

/// `d` occurs nowhere in `s`.
pub open spec fn scan_runs_out(s: Seq<u8>, d: Seq<u8>) -> bool {
    forall|e: int| 0 <= e <= s.len() ==> !ends_with(#[trigger] s.take(e), d)
}

/// `d` occurs in `s` at position `i`.
pub open spec fn occurs_at(s: Seq<u8>, d: Seq<u8>, i: int) -> bool {
    0 <= i && i + d.len() <= s.len() && s.subrange(i, i + d.len()) == d
}

/// Where a stream holds the delimiter exactly once, the scan stops right
/// after it: what it hands on is the stream up to and including the
/// delimiter, and its count is that length.
pub proof fn lemma_single_occurrence_scan(a: Seq<u8>, d: Seq<u8>, b: Seq<u8>)
    requires
        d.len() > 0,
        forall|i: int| #[trigger] occurs_at(a + d + b, d, i) ==> i == a.len(),
    ensures
        scan_stops_at(a + d + b, d, (a.len() + d.len()) as int),
{
    let s = a + d + b;
    let n = (a.len() + d.len()) as int;
    assert(s.take(n).subrange(n - d.len(), n) =~= d);
    assert forall|e: int| 0 <= e < n implies !ends_with(#[trigger] s.take(e), d) by {
        if ends_with(s.take(e), d) {
            assert(s.subrange(e - d.len(), e) =~= s.take(e).subrange(e - d.len(), e));
            assert(occurs_at(s, d, e - d.len()));
        }
    }
}

/// Why a scan failed.
#[derive(Debug, PartialEq, Eq, Clone, Copy, Structural)]
pub enum ScanError {
    /// The source ended before the delimiter was seen.
    UnexpectedEof,
}

/// An in-memory byte source read from front to back.
pub struct ByteReader {
    data: Vec<u8>,
    pos: usize,
}

impl ByteReader {
    /// All the bytes of the source.
    pub closed spec fn data(&self) -> Seq<u8> {
        self.data@
    }

    /// How many bytes have been read.
    pub closed spec fn pos(&self) -> int {
        self.pos as int
    }

    pub open spec fn wf(&self) -> bool {
        0 <= self.pos() <= self.data().len()
    }

    /// The bytes not read yet.
    pub open spec fn rest(&self) -> Seq<u8> {
        self.data().subrange(self.pos(), self.data().len() as int)
    }

    /// A source that hands out `data`, from its first byte.
    pub fn new(data: Vec<u8>) -> (r: ByteReader)
        ensures
            r.wf(),
            r.data() == data@,
            r.pos() == 0,
    {
        ByteReader { data, pos: 0 }
    }

    /// Reads up to `n` bytes: fewer only where the source ends first.
    pub fn read(&mut self, n: usize) -> (r: Vec<u8>)
        requires
            old(self).wf(),
        ensures
            final(self).wf(),
            final(self).data() == old(self).data(),
            r@ == old(self).rest().take(
                if n <= old(self).rest().len() { n as int } else { old(self).rest().len() as int },
            ),
            final(self).pos() == old(self).pos() + r@.len(),
    {
        let avail = self.data.len() - self.pos;
        let k: usize = if n <= avail { n } else { avail };
        let mut r: Vec<u8> = Vec::new();
        let mut i: usize = 0;
        while i < k
            invariant
                i <= k,
                k <= self.data@.len() - self.pos,
                self.pos <= self.data@.len(),
                self.data@.len() <= usize::MAX,
                r@ == self.data@.subrange(self.pos as int, self.pos + i),
            decreases k - i,
        {
            r.push(self.data[self.pos + i]);
            i = i + 1;
            assert(r@ =~= self.data@.subrange(self.pos as int, self.pos + i));
        }
        proof {
            assert(r@ =~= self.rest().take(k as int));
        }
        self.pos = self.pos + k;
        r
    }

    /// Reads all the bytes that are left.
    pub fn read_rest(&mut self) -> (r: Vec<u8>)
        requires
            old(self).wf(),
        ensures
            final(self).wf(),
            final(self).data() == old(self).data(),
            r@ == old(self).rest(),
            final(self).pos() == old(self).data().len(),
    {
        let r = self.remaining();
        self.pos = self.data.len();
        r
    }

    /// The bytes not read yet, leaving the source as it is.
    pub fn remaining(&self) -> (r: Vec<u8>)
        requires
            self.wf(),
        ensures
            r@ == self.rest(),
    {
        let mut r: Vec<u8> = Vec::new();
        let mut i: usize = self.pos;
        while i < self.data.len()
            invariant
                self.pos <= i <= self.data@.len(),
                r@ == self.data@.subrange(self.pos as int, i as int),
            decreases self.data@.len() - i,
        {
            r.push(self.data[i]);
            i = i + 1;
            assert(r@ =~= self.data@.subrange(self.pos as int, i as int));
        }
        r
    }
}

/// Appends `b` to `v`.
pub fn append_bytes(v: &mut Vec<u8>, b: &[u8])
    ensures
        final(v)@ == old(v)@ + b@,
{
    let mut i: usize = 0;
    while i < b.len()
        invariant
            i <= b@.len(),
            v@ == old(v)@ + b@.take(i as int),
        decreases b@.len() - i,
    {
        v.push(b[i]);
        i = i + 1;
        assert(v@ =~= old(v)@ + b@.take(i as int));
    }
    assert(b@.take(b@.len() as int) =~= b@);
}

/// Whether `buf` ends with `val`; false where `val` is the longer.
pub fn tail_matches(buf: &Vec<u8>, val: &[u8]) -> (r: bool)
    ensures
        r == ends_with(buf@, val@),
{
    if val.len() > buf.len() {
        return false;
    }
    let start: usize = buf.len() - val.len();
    let mut i: usize = 0;
    while i < val.len()
        invariant
            start == buf@.len() - val@.len(),
            buf@.len() <= usize::MAX,
            i <= val@.len(),
            forall|j: int| 0 <= j < i ==> buf@[start + j] == val@[j],
        decreases val@.len() - i,
    {
        if buf[start + i] != val[i] {
            assert(buf@.subrange(start as int, buf@.len() as int)[i as int] != val@[i as int]);
            return false;
        }
        i = i + 1;
    }
    assert(buf@.subrange(start as int, buf@.len() as int) =~= val@);
    true
}

/// Copies bytes from `reader` to `writer` until the specified `val`ue is
/// reached. Returns how many bytes have been read.
///
/// A first read of up to ten bytes, and never more than `val` is long, primes
/// the buffer; after it the source is read one byte at a time. The tail is
/// compared with `val` after each read, so nothing past the first occurrence
/// of the delimiter is consumed. All that was read, the delimiter included,
/// goes to `writer` in one piece.
pub fn copy_until(reader: &mut ByteReader, writer: &mut Vec<u8>, val: &[u8]) -> (r: Result<
    usize,
    ScanError,
>)
    requires
        old(reader).wf(),
        val@.len() > 0,
    ensures
        final(reader).wf(),
        final(reader).data() == old(reader).data(),
        match r {
            Ok(n) => {
                &&& scan_stops_at(old(reader).rest(), val@, n as int)
                &&& final(reader).pos() == old(reader).pos() + n
                &&& final(writer)@ == old(writer)@ + old(reader).rest().take(n as int)
            },
            Err(e) => {
                &&& e == ScanError::UnexpectedEof
                &&& scan_runs_out(old(reader).rest(), val@)
                &&& final(reader).pos() == old(reader).data().len()
                &&& final(writer)@ == old(writer)@
            },
        },
{
    let ghost s = reader.rest();
    let ghost p0 = reader.pos();
    let first: usize = if val.len() < PROBE_LEN { val.len() } else { PROBE_LEN };
    let mut buf = reader.read(first);
    let mut read: usize = buf.len();
    loop
        invariant
            reader.wf(),
            reader.data() == old(reader).data(),
            s == old(reader).rest(),
            p0 == old(reader).pos(),
            read <= s.len(),
            reader.pos() == p0 + read,
            buf@ == s.take(read as int),
            *writer == *old(writer),
            forall|e: int| 0 <= e < read ==> !ends_with(#[trigger] s.take(e), val@),
        decreases s.len() - read,
    {
        if tail_matches(&buf, val) {
            append_bytes(writer, buf.as_slice());
            return Ok(read);
        }
        assert(reader.rest() =~= s.subrange(read as int, s.len() as int));
        let next = reader.read(1);
        if next.len() == 0 {
            assert(read == s.len());
            return Err(ScanError::UnexpectedEof);
        }
        buf.push(next[0]);
        read = read + 1;
        assert(buf@ =~= s.take(read as int));
    }
}

/// The head of a message as it is read one byte at a time from a live
/// stream: the bytes so far, and whether they end with the delimiter.
pub struct HeadScan {
    buf: Vec<u8>,
    delim: Vec<u8>,
}

impl HeadScan {
    /// The bytes fed so far.
    pub closed spec fn bytes(&self) -> Seq<u8> {
        self.buf@
    }

    /// The delimiter that ends the head.
    pub closed spec fn delim(&self) -> Seq<u8> {
        self.delim@
    }

    /// A scan for `delim` that has seen no byte.
    pub fn new(delim: &[u8]) -> (r: HeadScan)
        ensures
            r.bytes() == Seq::<u8>::empty(),
            r.delim() == delim@,
    {
        let mut d: Vec<u8> = Vec::new();
        append_bytes(&mut d, delim);
        assert(d@ =~= delim@);
        HeadScan { buf: Vec::new(), delim: d }
    }

    /// Takes the next byte; true where the bytes now end with the delimiter,
    /// and no more should be read.
    pub fn feed(&mut self, b: u8) -> (r: bool)
        ensures
            final(self).bytes() == old(self).bytes().push(b),
            final(self).delim() == old(self).delim(),
            r == ends_with(final(self).bytes(), final(self).delim()),
    {
        self.buf.push(b);
        tail_matches(&self.buf, self.delim.as_slice())
    }

    /// The bytes fed so far.
    pub fn head(&self) -> (r: &Vec<u8>)
        ensures
            r@ == self.bytes(),
    {
        &self.buf
    }
}

} // verus!
