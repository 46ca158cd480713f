//! Byte-level text scanning shared by the three parsers: first occurrence of
//! a byte, whitespace runs, prefix tests, and splitting a buffer into
//! newline-terminated lines.

use vstd::prelude::*;

verus! {

/// Byte value of the line feed that terminates every complete line.
pub const NEWLINE: u8 = 10;

/// The characters the listing formats treat as spacing between fields:
/// space, tab, carriage return and line feed.
pub open spec fn is_space(b: u8) -> bool {
    b == 32 || b == 9 || b == 13 || b == 10
}

/// Index of the first occurrence of `b` in `s` at or after `from`.
pub open spec fn find_byte(s: Seq<u8>, b: u8, from: int) -> Option<int>
    decreases s.len() - from,
{
    if from < 0 || from >= s.len() {
        None
    } else if s[from] == b {
        Some(from)
    } else {
        find_byte(s, b, from + 1)
    }
}

/// What a successful `find_byte` means: an occurrence, and the first one.
pub proof fn lemma_find_byte_some(s: Seq<u8>, b: u8, from: int)
    requires
        find_byte(s, b, from) is Some,
    ensures
        ({
            let i = find_byte(s, b, from)->Some_0;
            &&& from <= i < s.len()
            &&& s[i] == b
            &&& forall|j: int| from <= j < i ==> s[j] != b
        }),
    decreases s.len() - from,
{
    if !(from < 0 || from >= s.len()) && s[from] != b {
        lemma_find_byte_some(s, b, from + 1);
    }
}

/// First position at or after `from` that does not hold a spacing byte.
pub open spec fn skip_spaces(s: Seq<u8>, from: int) -> int
    decreases s.len() - from,
{
    if 0 <= from < s.len() && is_space(s[from]) {
        skip_spaces(s, from + 1)
    } else {
        from
    }
}

/// `p` is a prefix of `s`.
pub open spec fn is_prefix(p: Seq<u8>, s: Seq<u8>) -> bool {
    p.len() <= s.len() && p == s.take(p.len() as int)
}

/// The complete (newline-terminated) lines of `s`, in order, each without its
/// terminating newline.  Bytes after the last newline belong to no line.
pub open spec fn lines_from(s: Seq<u8>, pos: int) -> Seq<Seq<u8>>
    decreases s.len() - pos,
    when 0 <= pos <= s.len()
    via lines_from_decreases
{
    match find_byte(s, NEWLINE, pos) {
        Some(i) => seq![s.subrange(pos, i)] + lines_from(s, i + 1),
        None => seq![],
    }
}

#[via_fn]
proof fn lines_from_decreases(s: Seq<u8>, pos: int) {
    if find_byte(s, NEWLINE, pos) is Some {
        lemma_find_byte_some(s, NEWLINE, pos);
    }
}

/// All complete lines of `s`.
pub open spec fn lines_of(s: Seq<u8>) -> Seq<Seq<u8>> {
    lines_from(s, 0)
}

/// First occurrence of `b` in `s[from..]`, executable form.
pub fn find_byte_in(s: &[u8], b: u8, from: usize) -> (r: Option<usize>)
    requires
        from <= s@.len(),
    ensures
        match r {
            Some(i) => find_byte(s@, b, from as int) == Some(i as int) && from <= i < s@.len(),
            None => find_byte(s@, b, from as int) is None,
        },
{
    let mut i: usize = from;
    while i < s.len()
        invariant
            from <= i <= s@.len(),
            find_byte(s@, b, from as int) == find_byte(s@, b, i as int),
        decreases s@.len() - i,
    {
        if s[i] == b {
            return Some(i);
        }
        i = i + 1;
    }
    None
}

/// First non-spacing position in `s[from..]`, executable form.
pub fn skip_spaces_in(s: &[u8], from: usize) -> (r: usize)
    requires
        from <= s@.len(),
    ensures
        r == skip_spaces(s@, from as int),
        from <= r <= s@.len(),
{
    let mut i: usize = from;
    while i < s.len() && (s[i] == 32 || s[i] == 9 || s[i] == 13 || s[i] == 10)
        invariant
            from <= i <= s@.len(),
            skip_spaces(s@, from as int) == skip_spaces(s@, i as int),
        decreases s@.len() - i,
    {
        i = i + 1;
    }
    i
}

/// Copies `s[from..to]` into a fresh buffer.
pub fn copy_range(s: &[u8], from: usize, to: usize) -> (r: Vec<u8>)
    requires
        from <= to <= s@.len(),
    ensures
        r@ == s@.subrange(from as int, to as int),
{
    let mut out: Vec<u8> = Vec::new();
    let mut i: usize = from;
    while i < to
        invariant
            from <= i <= to <= s@.len(),
            out@ == s@.subrange(from as int, i as int),
        decreases to - i,
    {
        out.push(s[i]);
        proof {
            assert(out@ =~= s@.subrange(from as int, (i + 1) as int));
        }
        i = i + 1;
    }
    out
}

/// Takes the next complete line starting at `pos`: its bytes without the
/// newline, and the position just past the newline.  `None` when no newline
/// follows, in which case no complete line is left.
pub fn take_line(s: &[u8], pos: usize) -> (r: Option<(Vec<u8>, usize)>)
    requires
        pos <= s@.len(),
    ensures
        match r {
            Some(l) => {
                &&& pos < l.1 <= s@.len()
                &&& l.0@ == s@.subrange(pos as int, l.1 - 1)
                &&& s@[l.1 - 1] == NEWLINE
                &&& lines_from(s@, pos as int) == seq![l.0@] + lines_from(s@, l.1 as int)
            },
            None => lines_from(s@, pos as int) == Seq::<Seq<u8>>::empty(),
        },
{
    let n = s.len();
    match find_byte_in(s, NEWLINE, pos) {
        Some(i) => {
            proof {
                lemma_find_byte_some(s@, NEWLINE, pos as int);
                assert(i < n);
            }
            let l = copy_range(s, pos, i);
            proof {
                assert(lines_from(s@, pos as int) == seq![s@.subrange(pos as int, i as int)]
                    + lines_from(s@, i + 1));
                assert(seq![l@] =~= seq![s@.subrange(pos as int, i as int)]);
            }
            Some((l, i + 1))
        },
        None => None,
    }
}

/// Whether two byte ranges hold the same bytes.
pub fn bytes_equal(a: &[u8], b: &[u8]) -> (r: bool)
    ensures
        r == (a@ == b@),
{
    if a.len() != b.len() {
        proof {
            assert(a@ != b@);
        }
        return false;
    }
    let mut i: usize = 0;
    while i < a.len()
        invariant
            0 <= i <= a@.len(),
            a@.len() == b@.len(),
            forall|j: int| 0 <= j < i ==> a@[j] == b@[j],
        decreases a@.len() - i,
    {
        if a[i] != b[i] {
            return false;
        }
        i = i + 1;
    }
    proof {
        assert(a@ =~= b@);
    }
    true
}

/// Whether `p` is a prefix of `s`, executable form.
pub fn starts_with(s: &[u8], p: &[u8]) -> (r: bool)
    ensures
        r == is_prefix(p@, s@),
{
    if p.len() > s.len() {
        proof {
            assert(!is_prefix(p@, s@));
        }
        return false;
    }
    let mut i: usize = 0;
    while i < p.len()
        invariant
            0 <= i <= p@.len() <= s@.len(),
            forall|j: int| 0 <= j < i ==> p@[j] == s@[j],
        decreases p@.len() - i,
    {
        if s[i] != p[i] {
            proof {
                assert(p@[i as int] != s@.take(p@.len() as int)[i as int]);
            }
            return false;
        }
        i = i + 1;
    }
    proof {
        assert(p@ =~= s@.take(p@.len() as int));
    }
    true
}

} // verus!
