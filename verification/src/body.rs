//! The DATA payload: terminating the body at the end-of-data sentinel and
//! reversing dot-stuffing (RFC 5321 sections 4.5.2 and 4.1.1.4).
//!
//! The body is a sequence of framed lines.  The first line that is exactly
//! `.\r\n` ends the payload and is not delivered; every delivered line that
//! begins with a full stop loses that first octet.

use crate::reply::{CR, DOT, LF};
use vstd::prelude::*;

verus! {

/// The end-of-data sentinel `.\r\n`.
pub open spec fn is_sentinel(l: Seq<u8>) -> bool {
    l == seq![DOT, CR, LF]
}

/// A delivered body line: a leading full stop is removed.
pub open spec fn unstuff(l: Seq<u8>) -> Seq<u8> {
    if l.len() > 0 && l[0] == DOT {
        l.skip(1)
    } else {
        l
    }
}

/// The lines delivered to the handler for the framed lines `ls`: every
/// line before the first sentinel, unstuffed; the sentinel and everything
/// after it are not delivered.
pub open spec fn delivered(ls: Seq<Seq<u8>>) -> Seq<Seq<u8>>
    decreases ls.len(),
{
    if ls.len() == 0 || is_sentinel(ls[0]) {
        Seq::<Seq<u8>>::empty()
    } else {
        seq![unstuff(ls[0])] + delivered(ls.skip(1))
    }
}

/// Decodes the DATA payload line by line and remembers whether the
/// sentinel has been seen; the session may only be reused when it has.
pub struct BodyReader {
    pub done: bool,
}

impl BodyReader {
    /// A fresh reader, positioned at the start of the payload.
    pub fn new() -> (r: BodyReader)
        ensures
            !r.done,
    {
        BodyReader { done: false }
    }

    /// Decode one framed line: the sentinel ends the payload and yields
    /// nothing, any other line is delivered with a leading full stop
    /// removed.
    pub fn feed(&mut self, line: Vec<u8>) -> (r: Option<Vec<u8>>)
        requires
            !old(self).done,
        ensures
            is_sentinel(line@) ==> (r matches Option::None && final(self).done),
            !is_sentinel(line@) ==> (match r {
                Option::Some(l) => l@ == unstuff(line@) && !final(self).done,
                Option::None => false,
            }),
    {
        if line.len() == 3 && line[0] == DOT && line[1] == CR && line[2] == LF {
            assert(line@ =~= seq![DOT, CR, LF]);
            self.done = true;
            Option::None
        } else {
            assert(line@ != seq![DOT, CR, LF]) by {
                if line@.len() == 3 {
                    assert(line@[0] == seq![DOT, CR, LF][0] && line@[1] == seq![DOT, CR, LF][1]
                        && line@[2] == seq![DOT, CR, LF][2] ==> line@ =~= seq![DOT, CR, LF]);
                }
            }
            let mut out = line;
            if out.len() > 0 && out[0] == DOT {
                let _ = out.remove(0);
            }
            Option::Some(out)
        }
    }
}

/// Decode a whole body given as framed lines; `None` when no sentinel is
/// present (the payload is not yet complete).
pub fn decode_body(lines: &Vec<Vec<u8>>) -> (r: Option<Vec<Vec<u8>>>)
    ensures
        match r {
            Option::Some(out) => out.deep_view() == delivered(lines.deep_view()) && (exists|k: int|
                0 <= k < lines.deep_view().len() && is_sentinel(#[trigger] lines.deep_view()[k])),
            Option::None => forall|k: int|
                0 <= k < lines.deep_view().len() ==> !is_sentinel(#[trigger] lines.deep_view()[k]),
        },
{
    let ghost ls = lines.deep_view();
    let mut reader = BodyReader::new();
    let mut out: Vec<Vec<u8>> = Vec::new();
    let mut i: usize = 0;
    proof {
        lemma_delivered_split(ls, 0);
        assert(out.deep_view() =~~= delivered(ls.take(0)));
    }
    while i < lines.len()
        invariant
            i <= lines@.len(),
            ls == lines.deep_view(),
            !reader.done,
            out.deep_view() == delivered(ls.take(i as int)),
            delivered(ls) == delivered(ls.take(i as int)) + delivered(ls.skip(i as int)),
            forall|k: int| 0 <= k < i ==> !is_sentinel(#[trigger] ls[k]),
        decreases lines@.len() - i,
    {
        let line = crate::reply::clone_bytes(&lines[i]);
        assert(line@ == ls[i as int]);
        match reader.feed(line) {
            Option::Some(l) => {
                out.push(l);
            },
            Option::None => {
                proof {
                    lemma_delivered_split(ls, i as int);
                    assert(is_sentinel(ls[i as int]));
                    assert(ls.skip(i as int)[0] == ls[i as int]);
                    assert(delivered(ls.skip(i as int)) =~~= Seq::<Seq<u8>>::empty());
                    assert(out.deep_view() =~~= delivered(ls));
                }
                return Option::Some(out);
            },
        }
        i = i + 1;
        proof {
            reveal_with_fuel(delivered, 3);
            lemma_delivered_split(ls, i as int);
            assert(ls.take(i as int).take(i - 1) =~~= ls.take(i - 1));
            assert(ls.take(i as int).skip(i - 1) =~~= seq![ls[i - 1]]);
            lemma_delivered_split(ls.take(i as int), i - 1);
            assert(!is_sentinel(ls[i - 1]));
            assert(seq![ls[i - 1]].skip(1) =~~= Seq::<Seq<u8>>::empty());
            assert(delivered(seq![ls[i - 1]]) =~~= seq![unstuff(ls[i - 1])]);
            assert(out.deep_view() =~~= delivered(ls.take(i as int)));
        }
    }
    Option::None
}

/// Delivery distributes over splitting the lines at `n`, as long as no
/// sentinel sits in the first `n` lines.
proof fn lemma_delivered_split(ls: Seq<Seq<u8>>, n: int)
    requires
        0 <= n <= ls.len(),
        forall|k: int| 0 <= k < n ==> !is_sentinel(#[trigger] ls[k]),
    ensures
        delivered(ls) == delivered(ls.take(n)) + delivered(ls.skip(n)),
    decreases n,
{
    if n == 0 {
        assert(ls.skip(0) =~~= ls);
        assert(delivered(ls.take(0)) =~~= Seq::<Seq<u8>>::empty());
        assert(delivered(ls) =~~= delivered(ls.take(0)) + delivered(ls.skip(0)));
    } else {
        assert(!is_sentinel(ls[0]));
        assert(ls.len() > 0);
        lemma_delivered_split(ls.skip(1), n - 1);
        assert(ls.skip(1).take(n - 1) =~~= ls.take(n).skip(1));
        assert(ls.skip(1).skip(n - 1) =~~= ls.skip(n));
        assert(delivered(ls.take(n)) =~~= seq![unstuff(ls[0])] + delivered(ls.take(n).skip(1)));
        assert(delivered(ls) =~~= seq![unstuff(ls[0])] + delivered(ls.skip(1)));
        assert(seq![unstuff(ls[0])] + (delivered(ls.take(n).skip(1)) + delivered(ls.skip(n)))
            =~~= (seq![unstuff(ls[0])] + delivered(ls.take(n).skip(1))) + delivered(ls.skip(n)));
    }
}

/// For a body of `n` framed lines whose only sentinel is the last line,
/// exactly `n - 1` lines are delivered, and each is its framed line with
/// one leading full stop removed when one was present.
pub proof fn lemma_body_delivery(ls: Seq<Seq<u8>>)
    requires
        ls.len() >= 1,
        is_sentinel(ls[ls.len() - 1]),
        forall|k: int| 0 <= k < ls.len() - 1 ==> !is_sentinel(#[trigger] ls[k]),
    ensures
        delivered(ls).len() == ls.len() - 1,
        forall|k: int|
            0 <= k < ls.len() - 1 ==> #[trigger] delivered(ls)[k] == unstuff(ls[k]),
    decreases ls.len(),
{
    let n = ls.len() as int;
    lemma_delivered_split(ls, n - 1);
    assert(delivered(ls.skip(n - 1)) =~~= Seq::<Seq<u8>>::empty()) by {
        assert(ls.skip(n - 1)[0] == ls[n - 1]);
    }
    lemma_delivered_prefix(ls.take(n - 1));
    assert(forall|k: int| 0 <= k < n - 1 ==> ls.take(n - 1)[k] == #[trigger] ls[k]);
    assert(delivered(ls) =~~= delivered(ls.take(n - 1)));
}

/// Without any sentinel, every line is delivered, unstuffed.
proof fn lemma_delivered_prefix(ls: Seq<Seq<u8>>)
    requires
        forall|k: int| 0 <= k < ls.len() ==> !is_sentinel(#[trigger] ls[k]),
    ensures
        delivered(ls).len() == ls.len(),
        forall|k: int| 0 <= k < ls.len() ==> #[trigger] delivered(ls)[k] == unstuff(ls[k]),
    decreases ls.len(),
{
    if ls.len() > 0 {
        lemma_delivered_prefix(ls.skip(1));
        assert(forall|k: int|
            0 <= k < ls.skip(1).len() ==> #[trigger] ls.skip(1)[k] == ls[k + 1]);
        assert(delivered(ls) =~~= seq![unstuff(ls[0])] + delivered(ls.skip(1)));
        assert(forall|k: int|
            1 <= k < ls.len() ==> #[trigger] delivered(ls)[k] == delivered(ls.skip(1))[k - 1]);
    }
}

} // verus!
