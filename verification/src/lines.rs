//! A decoder that splits the incoming bytes into text lines.
//!
//! A frame is everything up to and including a line-feed byte.  The item is
//! the line's payload as UTF-8 text: the line feed is stripped, and so is one
//! carriage return immediately before it, so both bare line feeds and
//! carriage-return line-feed endings yield the same text.  Invalid UTF-8 in a
//! payload surfaces as a decode error; the frame is consumed either way, so
//! the stream continues behind it.

use crate::buffer::IoBuffer;
use crate::codec::Decode;
use crate::codec::DecodeOutcome;
use vstd::prelude::*;
use vstd::utf8::decode_utf8;
use vstd::utf8::valid_utf8;

verus! {

/// The line-feed byte that terminates a frame.
pub const LINE_FEED: u8 = 10;

/// The carriage-return byte stripped when it stands right before the line
/// feed.
pub const CARRIAGE_RETURN: u8 = 13;

/// A line whose payload is not valid UTF-8.
#[derive(Debug, Clone, Copy, PartialEq, Eq, Structural)]
pub struct Utf8Error {

}

impl View for Utf8Error {
    type V = ();

    open spec fn view(&self) -> () {
        ()
    }
}

/// No line-feed byte among the first `upto` bytes.
pub open spec fn newline_free(src: Seq<u8>, upto: int) -> bool {
    forall|j: int| 0 <= j < upto ==> src[j] != LINE_FEED
}

/// Some byte of `src` is a line feed.
pub open spec fn has_newline(src: Seq<u8>) -> bool {
    exists|i: int| 0 <= i < src.len() && src[i] == LINE_FEED
}

/// Position of the first line feed (the length of `src` when there is none).
pub open spec fn first_newline(src: Seq<u8>) -> int
    decreases src.len(),
{
    if src.len() == 0 {
        0
    } else if src[0] == LINE_FEED {
        0
    } else {
        1 + first_newline(src.skip(1))
    }
}

/// The payload of one frame: the line feed is stripped, and one carriage
/// return right before it.
pub open spec fn line_payload(line: Seq<u8>) -> Seq<u8> {
    let body = line.take(line.len() - 1);
    if body.len() > 0 && body[body.len() - 1] == CARRIAGE_RETURN {
        body.take(body.len() - 1)
    } else {
        body
    }
}

/// The decode outcome of one frame: its payload as text, or a decode error
/// when the payload is not UTF-8.
pub open spec fn line_outcome(line: Seq<u8>) -> Result<Seq<char>, ()> {
    if valid_utf8(line_payload(line)) {
        Ok(decode_utf8(line_payload(line)))
    } else {
        Err(())
    }
}

proof fn lemma_first_newline(src: Seq<u8>)
    ensures
        !has_newline(src) ==> first_newline(src) == src.len(),
        has_newline(src) ==> 0 <= first_newline(src) < src.len() && src[first_newline(src)]
            == LINE_FEED && newline_free(src, first_newline(src)),
    decreases src.len(),
{
    if src.len() == 0 {
    } else if src[0] == LINE_FEED {
    } else {
        lemma_first_newline(src.skip(1));
        assert forall|i: int| 0 <= i < src.len() && src[i] == LINE_FEED implies has_newline(
            src.skip(1),
        ) by {
            assert(src.skip(1)[i - 1] == src[i]);
        }
        if has_newline(src) {
            let k = first_newline(src.skip(1));
            assert(src[1 + k] == src.skip(1)[k]);
            assert forall|j: int| 0 <= j < 1 + k implies src[j] != LINE_FEED by {
                if j > 0 {
                    assert(src[j] == src.skip(1)[j - 1]);
                }
            }
        }
    }
}

/// At a line feed found after a line-feed-free prefix, the first line feed is
/// exactly there.
proof fn lemma_first_newline_at(src: Seq<u8>, i: int)
    requires
        0 <= i < src.len(),
        src[i] == LINE_FEED,
        newline_free(src, i),
    ensures
        first_newline(src) == i,
        has_newline(src),
{
    lemma_first_newline(src);
}

/// The first line feed does not move when bytes arrive behind it.
proof fn lemma_first_newline_extend(src: Seq<u8>, ext: Seq<u8>)
    requires
        has_newline(src),
    ensures
        has_newline(src + ext),
        first_newline(src + ext) == first_newline(src),
    decreases src.len(),
{
    lemma_first_newline(src);
    let k = first_newline(src);
    assert((src + ext)[k] == src[k]);
    assert forall|j: int| 0 <= j < k implies (src + ext)[j] != LINE_FEED by {
        assert((src + ext)[j] == src[j]);
    }
    lemma_first_newline_at(src + ext, k);
}

/// Splits incoming bytes into lines on the line-feed byte.
///
/// The recorded index is the length of the prefix already scanned and found
/// free of line feeds, so repeated calls never rescan it.
pub struct LinesDecoder {
    index: usize,
}

impl Default for LinesDecoder {
    fn default() -> (r: Self)
        ensures
            r.inv(Seq::<u8>::empty()),
    {
        LinesDecoder { index: 0 }
    }
}

/// Relies on `core::str::from_utf8`: it accepts exactly the valid UTF-8 byte
/// sequences and returns the text they encode.
#[verifier::external_body]
fn parse_utf8(bytes: &[u8]) -> (r: Option<&str>)
    ensures
        r is Some <==> valid_utf8(bytes@),
        r matches Some(s) ==> s@ == decode_utf8(bytes@),
{
    core::str::from_utf8(bytes).ok()
}

impl Decode for LinesDecoder {
    type Item = String;

    type Error = Utf8Error;

    open spec fn spec_step(src: Seq<u8>) -> Option<(DecodeOutcome<Self>, int)> {
        if has_newline(src) {
            Some((line_outcome(src.take(first_newline(src) + 1)), first_newline(src) + 1))
        } else {
            None
        }
    }

    closed spec fn inv(&self, src: Seq<u8>) -> bool {
        self.index <= src.len() && newline_free(src, self.index as int)
    }

    proof fn lemma_step_bounds(src: Seq<u8>) {
        if has_newline(src) {
            lemma_first_newline(src);
        }
    }

    proof fn lemma_step_extend(src: Seq<u8>, ext: Seq<u8>) {
        if has_newline(src) {
            lemma_first_newline_extend(src, ext);
            assert(Self::spec_step(src + ext) == Self::spec_step(src)) by {
                lemma_first_newline(src);
                let k = first_newline(src);
                assert((src + ext).take(k + 1) =~= src.take(k + 1));
            }
        }
    }

    proof fn lemma_inv_extend(&self, src: Seq<u8>, ext: Seq<u8>) {
        assert forall|j: int| 0 <= j < self.index as int implies (src + ext)[j] != LINE_FEED by {
            assert((src + ext)[j] == src[j]);
        }
    }

    fn decode(&mut self, src: &mut IoBuffer) -> (r: Result<Option<String>, Utf8Error>) {
        let n: usize = src.len();
        let mut i: usize = self.index;
        while i < n
            invariant
                self.index <= i <= n,
                n == src@.len(),
                newline_free(src@, i as int),
                *src == *old(src),
                *self == *old(self),
            ensures
                self.index <= i <= n,
                n == src@.len(),
                newline_free(src@, i as int),
                i < n ==> src@[i as int] == LINE_FEED,
                *src == *old(src),
                *self == *old(self),
            decreases n - i,
        {
            if src.get(i) == LINE_FEED {
                break ;
            }
            i = i + 1;
        }
        if i == n {
            self.index = n;
            proof {
                lemma_first_newline(src@);
                assert(!has_newline(src@));
            }
            return Ok(None);
        }
        proof {
            lemma_first_newline_at(src@, i as int);
        }
        let line = src.split_to(i + 1);
        self.index = 0;
        let mut end: usize = i;
        if end > 0 && line[end - 1] == CARRIAGE_RETURN {
            end = end - 1;
        }
        proof {
            assert(line@.subrange(0, end as int) =~= line_payload(old(src)@.take(i + 1)));
        }
        let payload: &[u8] = &line.as_slice()[0..end];
        match parse_utf8(payload) {
            Some(s) => Ok(Some(s.to_owned())),
            None => Err(Utf8Error {  }),
        }
    }
}

} // verus!
