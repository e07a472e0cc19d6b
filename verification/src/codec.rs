//! Framing a byte stream into CRLF-terminated lines (RFC 5321 section
//! 4.5.3.1.6).
//!
//! The codec buffers raw transport bytes and hands out one line at a time,
//! each still carrying its CR LF terminator.  A line longer than the
//! configured maximum is an error; the codec then discards input up to and
//! including the next CR LF to resynchronize.  In strict mode a bare CR or
//! a bare LF is a framing error; the lenient default treats them as line
//! content.

use crate::reply::{CR, LF};
use vstd::prelude::*;

verus! {

/// Relies on std::io::Error as an opaque transport error value; the
/// engine only carries it, the embedding application creates and reads it.
#[verifier::external_type_specification]
#[verifier::external_body]
pub struct ExIoError(std::io::Error);

/// A framing error of the line codec.
#[derive(Debug)]
pub enum LineError {
    /// No CR LF was seen within the configured maximum line length.
    LineTooLong,
    /// A CR not followed by LF, in strict mode.
    BareCR,
    /// An LF not preceded by CR, in strict mode.
    BareLF,
    /// An error of the underlying transport.
    IO(std::io::Error),
}

/// A CR LF pair begins at position `i`.
pub open spec fn crlf_at(s: Seq<u8>, i: int) -> bool {
    0 <= i && i + 1 < s.len() && s[i] == CR && s[i + 1] == LF
}

pub open spec fn has_crlf(s: Seq<u8>) -> bool {
    exists|i: int| crlf_at(s, i)
}

/// No CR LF pair begins before position `n`.
pub open spec fn no_crlf_before(s: Seq<u8>, n: int) -> bool {
    forall|j: int| 0 <= j < n ==> !crlf_at(s, j)
}

/// A complete line of `n` octets sits at the front of the buffer: the
/// first CR LF pair ends exactly at position `n`.
pub open spec fn line_at(s: Seq<u8>, n: int) -> bool {
    &&& 2 <= n <= s.len()
    &&& crlf_at(s, n - 2)
    &&& no_crlf_before(s, n - 2)
}

/// Position `i` holds a bare CR or a bare LF: an LF not preceded by CR,
/// or a CR whose known successor is not LF.  A CR at the very end of the
/// buffer is not bare, as its successor has not arrived.
pub open spec fn bare_at(s: Seq<u8>, i: int) -> bool {
    &&& 0 <= i < s.len()
    &&& ((s[i] == LF && (i == 0 || s[i - 1] != CR)) || (s[i] == CR && i + 1 < s.len() && s[i + 1]
        != LF))
}

pub open spec fn no_bare_before(s: Seq<u8>, n: int) -> bool {
    forall|j: int| 0 <= j < n ==> !bare_at(s, j)
}

/// What discarding keeps of a buffer without CR LF: only a trailing CR,
/// which the next arriving LF may complete.
pub open spec fn cr_tail(s: Seq<u8>) -> Seq<u8> {
    if s.len() > 0 && s.last() == CR {
        seq![CR]
    } else {
        Seq::<u8>::empty()
    }
}

/// The line codec: a maximum line length (terminator included), the
/// strictness flag, the buffered not-yet-framed bytes, and whether the
/// codec is discarding input after an overlong line.
pub struct LineCodec {
    pub max_len: usize,
    pub strict: bool,
    pub buf: Vec<u8>,
    pub discarding: bool,
}

/// Find the position of the first CR LF pair of `v`.
fn find_crlf(v: &Vec<u8>) -> (r: Option<usize>)
    ensures
        match r {
            Option::Some(i) => i + 2 <= v@.len() && crlf_at(v@, i as int) && no_crlf_before(
                v@,
                i as int,
            ),
            Option::None => !has_crlf(v@),
        },
{
    let n = v.len();
    let mut i: usize = 0;
    while i < n
        invariant
            i <= n == v@.len(),
            no_crlf_before(v@, i as int),
        decreases n - i,
    {
        if v[i] == CR && i + 1 < n && v[i + 1] == LF {
            return Option::Some(i);
        }
        i = i + 1;
    }
    assert(!has_crlf(v@)) by {
        assert(forall|j: int| crlf_at(v@, j) ==> 0 <= j < v@.len());
    }
    Option::None
}

/// Copy the bytes of `v` at positions `a..b`.
fn copy_range(v: &Vec<u8>, a: usize, b: usize) -> (r: Vec<u8>)
    requires
        a <= b <= v@.len(),
    ensures
        r@ == v@.subrange(a as int, b as int),
{
    let mut r: Vec<u8> = Vec::new();
    let mut k: usize = a;
    while k < b
        invariant
            a <= k <= b <= v@.len(),
            r@ == v@.subrange(a as int, k as int),
        decreases b - k,
    {
        r.push(v[k]);
        k = k + 1;
        assert(r@ =~= v@.subrange(a as int, k as int));
    }
    r
}

impl LineCodec {
    /// A fresh codec with the given maximum line length and strictness.
    pub fn new(max_len: usize, strict: bool) -> (c: LineCodec)
        requires
            max_len >= 2,
        ensures
            c.max_len == max_len,
            c.strict == strict,
            c.buf@ == Seq::<u8>::empty(),
            !c.discarding,
    {
        LineCodec { max_len, strict, buf: Vec::new(), discarding: false }
    }

    /// Append freshly read transport bytes to the buffer.
    pub fn feed(&mut self, data: &Vec<u8>)
        ensures
            final(self).buf@ == old(self).buf@ + data@,
            final(self).max_len == old(self).max_len,
            final(self).strict == old(self).strict,
            final(self).discarding == old(self).discarding,
    {
        let mut k: usize = 0;
        while k < data.len()
            invariant
                k <= data@.len(),
                self.buf@ == old(self).buf@ + data@.take(k as int),
                self.max_len == old(self).max_len,
                self.strict == old(self).strict,
                self.discarding == old(self).discarding,
            decreases data@.len() - k,
        {
            self.buf.push(data[k]);
            k = k + 1;
            assert(self.buf@ =~= old(self).buf@ + data@.take(k as int));
        }
        assert(final(self).buf@ =~= old(self).buf@ + data@);
    }

    /// Keep only a trailing CR of the buffer.
    fn keep_cr_tail(&mut self)
        ensures
            final(self).buf@ == cr_tail(old(self).buf@),
            final(self).max_len == old(self).max_len,
            final(self).strict == old(self).strict,
            final(self).discarding == old(self).discarding,
    {
        let mut t: Vec<u8> = Vec::new();
        if self.buf.len() > 0 && self.buf[self.buf.len() - 1] == CR {
            t.push(CR);
        }
        self.buf = t;
        assert(final(self).buf@ =~= cr_tail(old(self).buf@));
    }

    /// Frame the next line out of the buffer.
    ///
    /// `Ok(Some(line))` hands out the first complete line, terminator
    /// included; `Ok(None)` asks for more input.  `LineTooLong` reports a
    /// line past the maximum; the offending bytes up to and including the
    /// next CR LF are discarded, over later calls if that CR LF has not
    /// yet arrived.  In strict mode `BareCR` and `BareLF` report stray
    /// terminator octets and leave the buffer unchanged.
    pub fn next_line(&mut self) -> (r: Result<Option<Vec<u8>>, LineError>)
        ensures
            final(self).max_len == old(self).max_len,
            final(self).strict == old(self).strict,
            old(self).discarding ==> match r {
                Result::Ok(o) => o matches Option::None && (if has_crlf(old(self).buf@) {
                    exists|n: int|
                        #[trigger] line_at(old(self).buf@, n) && final(self).buf@ == old(
                            self,
                        ).buf@.skip(n) && !final(self).discarding
                } else {
                    final(self).buf@ == cr_tail(old(self).buf@) && final(self).discarding
                }),
                Result::Err(_) => false,
            },
            !old(self).discarding ==> match r {
                Result::Ok(Option::Some(l)) => {
                    &&& line_at(old(self).buf@, l@.len() as int)
                    &&& l@ == old(self).buf@.take(l@.len() as int)
                    &&& l@.len() <= old(self).max_len
                    &&& (old(self).strict ==> no_bare_before(old(self).buf@, l@.len() - 2))
                    &&& final(self).buf@ == old(self).buf@.skip(l@.len() as int)
                    &&& !final(self).discarding
                },
                Result::Ok(Option::None) => {
                    &&& !has_crlf(old(self).buf@)
                    &&& old(self).buf@.len() < old(self).max_len
                    &&& (old(self).strict ==> no_bare_before(
                        old(self).buf@,
                        old(self).buf@.len() as int,
                    ))
                    &&& final(self).buf@ == old(self).buf@
                    &&& !final(self).discarding
                },
                Result::Err(LineError::LineTooLong) => (exists|n: int|
                    #[trigger] line_at(old(self).buf@, n) && n > old(self).max_len && (old(
                        self,
                    ).strict ==> no_bare_before(old(self).buf@, n - 2)) && final(self).buf@ == old(
                        self,
                    ).buf@.skip(n) && !final(self).discarding) || (!has_crlf(old(self).buf@) && old(
                    self,
                ).buf@.len() >= old(self).max_len && (old(self).strict ==> no_bare_before(
                    old(self).buf@,
                    old(self).buf@.len() as int,
                )) && final(self).buf@ == cr_tail(old(self).buf@) && final(self).discarding),
                Result::Err(LineError::BareLF) => old(self).strict && *final(self) == *old(self)
                    && (exists|p: int|
                    #[trigger] bare_at(old(self).buf@, p) && old(self).buf@[p] == LF
                        && no_crlf_before(old(self).buf@, p) && no_bare_before(old(self).buf@, p)),
                Result::Err(LineError::BareCR) => old(self).strict && *final(self) == *old(self)
                    && (exists|p: int|
                    #[trigger] bare_at(old(self).buf@, p) && old(self).buf@[p] == CR
                        && no_crlf_before(old(self).buf@, p) && no_bare_before(old(self).buf@, p)),
                Result::Err(LineError::IO(_)) => false,
            },
    {
        let n = self.buf.len();
        if self.discarding {
            match find_crlf(&self.buf) {
                Option::Some(pos) => {
                    assert(line_at(self.buf@, pos + 2));
                    let rest = copy_range(&self.buf, pos + 2, n);
                    assert(rest@ =~= self.buf@.skip(pos + 2));
                    self.buf = rest;
                    self.discarding = false;
                },
                Option::None => {
                    self.keep_cr_tail();
                },
            }
            return Result::Ok(Option::None);
        }
        let mut i: usize = 0;
        while i < n
            invariant
                i <= n == self.buf@.len(),
                no_crlf_before(self.buf@, i as int),
                self.strict ==> no_bare_before(self.buf@, i as int),
                !self.discarding,
                *self == *old(self),
            decreases n - i,
        {
            let c = self.buf[i];
            if self.strict {
                if c == LF && (i == 0 || self.buf[i - 1] != CR) {
                    assert(bare_at(self.buf@, i as int));
                    return Result::Err(LineError::BareLF);
                }
                if c == CR && i + 1 < n && self.buf[i + 1] != LF {
                    assert(bare_at(self.buf@, i as int));
                    return Result::Err(LineError::BareCR);
                }
            }
            if c == CR && i + 1 < n && self.buf[i + 1] == LF {
                let len = i + 2;
                assert(line_at(self.buf@, len as int));
                if len <= self.max_len {
                    let line = copy_range(&self.buf, 0, len);
                    let rest = copy_range(&self.buf, len, n);
                    assert(line@ =~= old(self).buf@.take(len as int));
                    assert(rest@ =~= old(self).buf@.skip(len as int));
                    self.buf = rest;
                    return Result::Ok(Option::Some(line));
                } else {
                    let rest = copy_range(&self.buf, len, n);
                    assert(rest@ =~= old(self).buf@.skip(len as int));
                    self.buf = rest;
                    return Result::Err(LineError::LineTooLong);
                }
            }
            i = i + 1;
        }
        assert(!has_crlf(old(self).buf@)) by {
            assert(forall|j: int| 0 <= j < n ==> !crlf_at(old(self).buf@, j));
            assert(forall|j: int| crlf_at(old(self).buf@, j) ==> 0 <= j < old(self).buf@.len());
        }
        if n >= self.max_len {
            self.keep_cr_tail();
            self.discarding = true;
            Result::Err(LineError::LineTooLong)
        } else {
            Result::Ok(Option::None)
        }
    }
}

} // verus!
