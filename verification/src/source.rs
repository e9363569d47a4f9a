//! The source text of a file: line numbers, text ranges and bracket nesting,
//! all by byte offset.

use vstd::prelude::*;
use vstd::utf8::*;

verus! {

/// How many line feeds stand before `offset`.
pub open spec fn newlines(bytes: Seq<u8>, offset: nat) -> nat
    decreases offset,
{
    if offset == 0 {
        0
    } else {
        let i = (offset - 1) as nat;
        newlines(bytes, i) + (if i < bytes.len() && bytes[i as int] == 10 {
            1nat
        } else {
            0nat
        })
    }
}

/// The line, counted from 1, that the byte at `offset` stands on. A line feed
/// ends the line that it stands on.
pub open spec fn line_at(text: Seq<char>, offset: u32) -> u32 {
    let n = newlines(encode_utf8(text), offset as nat) + 1;
    if n <= u32::MAX {
        n as u32
    } else {
        u32::MAX
    }
}

/// The text between two byte offsets. It is empty where the offsets do not
/// bound a range of whole characters.
pub open spec fn text_between(text: Seq<char>, start: u32, end: u32) -> Seq<char> {
    let bytes = encode_utf8(text);
    let head = bytes.subrange(0, end as int);
    if is_char_boundary(bytes, end as int) && is_char_boundary(head, start as int) {
        decode_utf8(head.subrange(start as int, head.len() as int))
    } else {
        seq![]
    }
}

/// How many of the offsets are below `offset`.
spec fn below(offsets: Seq<u32>, offset: u32) -> nat
    decreases offsets.len(),
{
    if offsets.len() == 0 {
        0
    } else {
        below(offsets.drop_last(), offset) + (if offsets.last() < offset {
            1nat
        } else {
            0nat
        })
    }
}

spec fn ascending(offsets: Seq<u32>) -> bool {
    forall|i: int, j: int| 0 <= i <= j < offsets.len() ==> offsets[i] <= offsets[j]
}

proof fn lemma_below_split(offsets: Seq<u32>, k: int, offset: u32)
    requires
        0 <= k <= offsets.len(),
        forall|i: int| 0 <= i < k ==> offsets[i] < offset,
        forall|i: int| k <= i < offsets.len() ==> offset <= offsets[i],
    ensures
        below(offsets, offset) == k,
    decreases offsets.len(),
{
    if offsets.len() > 0 {
        if k == offsets.len() {
            lemma_below_split(offsets.drop_last(), k - 1, offset);
        } else {
            lemma_below_split(offsets.drop_last(), k, offset);
        }
    }
}

proof fn lemma_newlines_bound(bytes: Seq<u8>, offset: nat)
    ensures
        newlines(bytes, offset) <= offset,
    decreases offset,
{
    if offset > 0 {
        lemma_newlines_bound(bytes, (offset - 1) as nat);
    }
}

proof fn lemma_newlines_past_end(bytes: Seq<u8>, offset: nat)
    requires
        bytes.len() <= offset,
    ensures
        newlines(bytes, offset) == newlines(bytes, bytes.len()),
    decreases offset,
{
    if bytes.len() < offset {
        lemma_newlines_past_end(bytes, (offset - 1) as nat);
    }
}

/// The smaller of two numbers.
spec fn least(a: nat, b: nat) -> nat {
    if a <= b {
        a
    } else {
        b
    }
}

/// The source text with the ascending offsets of its line feeds, found once
/// per file so that a line lookup is a binary search.
pub struct Source<'a> {
    text: &'a str,
    newline_offsets: Vec<u32>,
}

impl<'a> Source<'a> {
    /// The source text.
    pub closed spec fn view(&self) -> Seq<char> {
        self.text@
    }

    #[verifier::type_invariant]
    spec fn offsets_are_newlines(&self) -> bool {
        &&& ascending(self.newline_offsets@)
        &&& forall|o: u32|
            #[trigger] below(self.newline_offsets@, o) == newlines(
                encode_utf8(self.text@),
                o as nat,
            )
    }

    pub fn new(text: &'a str) -> (r: Self)
        ensures
            r.view() == text@,
    {
        let bytes: &[u8] = text.as_bytes();
        let mut offsets: Vec<u32> = Vec::new();
        let mut i: usize = 0;
        while i < bytes.len()
            invariant
                0 <= i <= bytes@.len(),
                bytes@ == encode_utf8(text@),
                ascending(offsets@),
                forall|k: int| 0 <= k < offsets@.len() ==> offsets@[k] <= i,
                forall|o: u32|
                    #[trigger] below(offsets@, o) == newlines(bytes@, least(o as nat, i as nat)),
            decreases bytes@.len() - i,
        {
            let ghost before = offsets@;
            if bytes[i] == 10 {
                let offset: u32 = if i <= 0xffff_ffff {
                    i as u32
                } else {
                    0xffff_ffff
                };
                offsets.push(offset);
                assert(offsets@.drop_last() =~= before);
            }
            assert forall|o: u32| #[trigger] below(offsets@, o) == newlines(
                bytes@,
                least(o as nat, (i + 1) as nat),
            ) by {
                assert(below(before, o) == newlines(bytes@, least(o as nat, i as nat)));
            }
            i += 1;
        }
        assert forall|o: u32| #[trigger] below(offsets@, o) == newlines(
            encode_utf8(text@),
            o as nat,
        ) by {
            if bytes@.len() < o {
                lemma_newlines_past_end(bytes@, o as nat);
            }
        }
        Source { text, newline_offsets: offsets }
    }

    /// The line, counted from 1, of a byte offset.
    pub fn line(&self, offset: u32) -> (r: u32)
        ensures
            r == line_at(self.view(), offset),
    {
        proof {
            use_type_invariant(self);
        }
        let mut low: usize = 0;
        let mut high: usize = self.newline_offsets.len();
        while low < high
            invariant
                0 <= low <= high <= self.newline_offsets@.len(),
                ascending(self.newline_offsets@),
                forall|k: int| 0 <= k < low ==> self.newline_offsets@[k] < offset,
                forall|k: int|
                    high <= k < self.newline_offsets@.len() ==> offset <= self.newline_offsets@[k],
            decreases high - low,
        {
            let mid: usize = low + (high - low) / 2;
            if self.newline_offsets[mid] < offset {
                low = mid + 1;
            } else {
                high = mid;
            }
        }
        proof {
            lemma_below_split(self.newline_offsets@, low as int, offset);
            lemma_newlines_bound(encode_utf8(self.text@), offset as nat);
        }
        let count: u32 = low as u32;
        if count == 0xffff_ffff {
            count
        } else {
            count + 1
        }
    }

    /// The text between two byte offsets.
    pub fn slice(&self, start: u32, end: u32) -> (r: &'a str)
        ensures
            r@ == text_between(self.view(), start, end),
    {
        broadcast use vstd::utf8::encode_utf8_decode_utf8;

        if self.text.is_char_boundary(end as usize) {
            let head: &'a str = self.text.split_at(end as usize).0;
            if head.is_char_boundary(start as usize) {
                let range: &'a str = head.split_at(start as usize).1;
                assert(decode_utf8(encode_utf8(range@)) == range@);
                return range;
            }
        }
        proof {
            reveal_strlit("");
        }
        ""
    }
}

/// `{`, `[` or `(`.
pub open spec fn opens(byte: u8) -> bool {
    byte == 0x7b || byte == 0x5b || byte == 0x28
}

/// `}`, `]` or `)`.
pub open spec fn closes(byte: u8) -> bool {
    byte == 0x7d || byte == 0x5d || byte == 0x29
}

/// How many brackets are open after `bytes`. A closing bracket without an
/// opening one counts for nothing.
pub open spec fn open_brackets(bytes: Seq<u8>) -> nat
    decreases bytes.len(),
{
    if bytes.len() == 0 {
        0
    } else {
        let before = open_brackets(bytes.drop_last());
        if opens(bytes.last()) {
            before + 1
        } else if closes(bytes.last()) && before > 0 {
            (before - 1) as nat
        } else {
            before
        }
    }
}

/// The most brackets that are open at once.
pub open spec fn bracket_depth(bytes: Seq<u8>) -> nat
    decreases bytes.len(),
{
    if bytes.len() == 0 {
        0
    } else {
        let before = bracket_depth(bytes.drop_last());
        let here = open_brackets(bytes);
        if here > before {
            here
        } else {
            before
        }
    }
}

/// The deepest nesting of `{`, `[` and `(` in `source`, counted by the byte
/// without lexing: brackets in strings and comments count too.
pub fn max_bracket_depth(source: &str) -> (r: usize)
    ensures
        r == bracket_depth(encode_utf8(source@)),
{
    let bytes: &[u8] = source.as_bytes();
    let mut depth: usize = 0;
    let mut max: usize = 0;
    let mut i: usize = 0;
    while i < bytes.len()
        invariant
            0 <= i <= bytes@.len(),
            bytes@ == encode_utf8(source@),
            depth <= i,
            depth == open_brackets(bytes@.take(i as int)),
            max == bracket_depth(bytes@.take(i as int)),
        decreases bytes@.len() - i,
    {
        assert(bytes@.take(i + 1).drop_last() =~= bytes@.take(i as int));
        assert(bytes@.take(i + 1).last() == bytes@[i as int]);
        let b: u8 = bytes[i];
        if b == 0x7b || b == 0x5b || b == 0x28 {
            depth += 1;
            if depth > max {
                max = depth;
            }
        } else if (b == 0x7d || b == 0x5d || b == 0x29) && depth > 0 {
            depth -= 1;
        }
        proof {
            lemma_depth_covers(bytes@.take(i as int));
        }
        i += 1;
    }
    assert(bytes@.take(bytes@.len() as int) =~= bytes@);
    max
}

proof fn lemma_depth_covers(bytes: Seq<u8>)
    ensures
        open_brackets(bytes) <= bracket_depth(bytes),
{
}

} // verus!
