//! Volume metadata parser: reads the fixed fourteen-line descriptor text
//! that the per-device descriptor command prints, and keeps the volume name,
//! the logical block size and the block count.

use vstd::prelude::*;
use crate::errors::DiskInfoError;
use crate::scan::{is_prefix, lines_of, take_line, starts_with};

verus! {

/// Volume metadata of one inserted medium.  `length` is the total byte
/// extent: block count times block size.
#[derive(Clone, Debug, PartialEq)]
pub struct ISOInfo {
    pub name: Vec<u8>,
    pub block_size: usize,
    pub length: usize,
}

/// ASCII decimal digit.
pub open spec fn is_digit(b: u8) -> bool {
    48 <= b && b <= 57
}

pub open spec fn digits_only(s: Seq<u8>) -> bool {
    forall|i: int| 0 <= i < s.len() ==> is_digit(s[i])
}

/// A non-empty run of decimal digits: the only accepted number shape.
pub open spec fn all_digits(s: Seq<u8>) -> bool {
    s.len() > 0 && digits_only(s)
}

/// Value of a digit run read as a base-ten number.
pub open spec fn digits_value(s: Seq<u8>) -> int
    decreases s.len(),
{
    if s.len() == 0 {
        0
    } else {
        10 * digits_value(s.drop_last()) + (s.last() - 48)
    }
}

proof fn lemma_digits_value_nonneg(s: Seq<u8>)
    requires
        digits_only(s),
    ensures
        digits_value(s) >= 0,
    decreases s.len(),
{
    if s.len() > 0 {
        assert(digits_only(s.drop_last()));
        lemma_digits_value_nonneg(s.drop_last());
    }
}

/// Reading more digits never shrinks the value: the prefix of a digit run is
/// worth no more than the whole run.
proof fn lemma_digits_value_prefix_mono(s: Seq<u8>, k: int)
    requires
        digits_only(s),
        0 <= k <= s.len(),
    ensures
        digits_value(s.take(k)) <= digits_value(s),
    decreases s.len(),
{
    if k == s.len() {
        assert(s.take(k) =~= s);
    } else {
        assert(digits_only(s.drop_last()));
        assert(s.take(k) =~= s.drop_last().take(k));
        lemma_digits_value_prefix_mono(s.drop_last(), k);
        lemma_digits_value_nonneg(s.drop_last());
        assert(digits_value(s) == 10 * digits_value(s.drop_last()) + (s.last() - 48));
    }
}

/// Parses `s[from..]` as a non-empty all-digit number that fits the machine
/// word; anything else is rejected.
pub fn parse_digits(s: &[u8], from: usize) -> (r: Option<usize>)
    requires
        from <= s@.len(),
    ensures
        match r {
            Some(v) => all_digits(s@.skip(from as int)) && v == digits_value(s@.skip(from as int)),
            None => !(all_digits(s@.skip(from as int)) && digits_value(s@.skip(from as int))
                <= usize::MAX),
        },
{
    let ghost t = s@.skip(from as int);
    if from == s.len() {
        return None;
    }
    let mut v: usize = 0;
    let mut i: usize = from;
    while i < s.len()
        invariant
            from <= i <= s@.len(),
            t == s@.skip(from as int),
            digits_only(t.take(i - from)),
            v == digits_value(t.take(i - from)),
        decreases s@.len() - i,
    {
        let b = s[i];
        proof {
            assert(t[i - from] == s@[i as int]);
        }
        if !(48 <= b && b <= 57) {
            proof {
                assert(!is_digit(t[i - from]));
            }
            return None;
        }
        let d: usize = (b - 48) as usize;
        let ghost prev = t.take(i - from);
        proof {
            assert(t.take(i + 1 - from).drop_last() =~= prev);
            assert(t.take(i + 1 - from).last() == t[i - from]);
            assert(digits_value(t.take(i + 1 - from)) == 10 * digits_value(prev) + d);
        }
        let v10 = match v.checked_mul(10) {
            Some(x) => x,
            None => {
                proof {
                    if all_digits(t) {
                        lemma_digits_value_prefix_mono(t, i + 1 - from);
                    }
                }
                return None;
            },
        };
        let vd = match v10.checked_add(d) {
            Some(x) => x,
            None => {
                proof {
                    if all_digits(t) {
                        lemma_digits_value_prefix_mono(t, i + 1 - from);
                    }
                }
                return None;
            },
        };
        v = vd;
        i = i + 1;
    }
    proof {
        assert(t.take(i - from) =~= t);
    }
    Some(v)
}

/// The literal `Volume id: ` that must open the third line.
pub open spec fn volume_id_tag() -> Seq<u8> {
    seq![86u8, 111u8, 108u8, 117u8, 109u8, 101u8, 32u8, 105u8, 100u8, 58u8, 32u8]
}

/// The literal `Logical block size is: ` that must open the thirteenth line.
pub open spec fn block_size_tag() -> Seq<u8> {
    seq![
        76u8, 111u8, 103u8, 105u8, 99u8, 97u8, 108u8, 32u8, 98u8, 108u8, 111u8, 99u8, 107u8,
        32u8, 115u8, 105u8, 122u8, 101u8, 32u8, 105u8, 115u8, 58u8, 32u8,
    ]
}

/// The literal `Volume size is: ` that must open the fourteenth line.
pub open spec fn volume_size_tag() -> Seq<u8> {
    seq![
        86u8, 111u8, 108u8, 117u8, 109u8, 101u8, 32u8, 115u8, 105u8, 122u8, 101u8, 32u8, 105u8,
        115u8, 58u8, 32u8,
    ]
}

fn volume_id_tag_bytes() -> (v: Vec<u8>)
    ensures
        v@ == volume_id_tag(),
{
    let mut v: Vec<u8> = Vec::new();
    v.push(86);
    v.push(111);
    v.push(108);
    v.push(117);
    v.push(109);
    v.push(101);
    v.push(32);
    v.push(105);
    v.push(100);
    v.push(58);
    v.push(32);
    proof {
        assert(v@ =~= volume_id_tag());
    }
    v
}

fn block_size_tag_bytes() -> (v: Vec<u8>)
    ensures
        v@ == block_size_tag(),
{
    let mut v: Vec<u8> = Vec::new();
    v.push(76);
    v.push(111);
    v.push(103);
    v.push(105);
    v.push(99);
    v.push(97);
    v.push(108);
    v.push(32);
    v.push(98);
    v.push(108);
    v.push(111);
    v.push(99);
    v.push(107);
    v.push(32);
    v.push(115);
    v.push(105);
    v.push(122);
    v.push(101);
    v.push(32);
    v.push(105);
    v.push(115);
    v.push(58);
    v.push(32);
    proof {
        assert(v@ =~= block_size_tag());
    }
    v
}

fn volume_size_tag_bytes() -> (v: Vec<u8>)
    ensures
        v@ == volume_size_tag(),
{
    let mut v: Vec<u8> = Vec::new();
    v.push(86);
    v.push(111);
    v.push(108);
    v.push(117);
    v.push(109);
    v.push(101);
    v.push(32);
    v.push(115);
    v.push(105);
    v.push(122);
    v.push(101);
    v.push(32);
    v.push(105);
    v.push(115);
    v.push(58);
    v.push(32);
    proof {
        assert(v@ =~= volume_size_tag());
    }
    v
}

/// The volume name: what follows the `Volume id: ` literal on the third line.
pub open spec fn spec_volume_name(s: Seq<u8>) -> Seq<u8> {
    lines_of(s)[2].skip(volume_id_tag().len() as int)
}

/// The digit run carrying the block size, on the thirteenth line.
pub open spec fn spec_block_size_digits(s: Seq<u8>) -> Seq<u8> {
    lines_of(s)[12].skip(block_size_tag().len() as int)
}

/// The digit run carrying the block count, on the fourteenth line.
pub open spec fn spec_block_count_digits(s: Seq<u8>) -> Seq<u8> {
    lines_of(s)[13].skip(volume_size_tag().len() as int)
}

/// When the descriptor text is well-formed: at least fourteen complete
/// lines, the three consumed lines open with their literals, both numeric
/// fields are digit runs, and the two numbers and their product fit the
/// machine word.
pub open spec fn spec_metadata_ok(s: Seq<u8>) -> bool {
    let ls = lines_of(s);
    &&& ls.len() >= 14
    &&& is_prefix(volume_id_tag(), ls[2])
    &&& is_prefix(block_size_tag(), ls[12])
    &&& is_prefix(volume_size_tag(), ls[13])
    &&& all_digits(spec_block_size_digits(s))
    &&& all_digits(spec_block_count_digits(s))
    &&& digits_value(spec_block_size_digits(s)) <= usize::MAX
    &&& digits_value(spec_block_count_digits(s)) <= usize::MAX
    &&& digits_value(spec_block_count_digits(s)) * digits_value(spec_block_size_digits(s))
        <= usize::MAX
}

/// Parses the descriptor text of one medium.  Exactly the well-formed texts
/// succeed; every failure is a `Parse` failure.
pub fn parse_iso_info(input: &[u8]) -> (r: Result<ISOInfo, DiskInfoError>)
    ensures
        r is Ok <==> spec_metadata_ok(input@),
        r is Ok ==> {
            let info = r->Ok_0;
            &&& info.name@ == spec_volume_name(input@)
            &&& info.block_size == digits_value(spec_block_size_digits(input@))
            &&& info.length == digits_value(spec_block_count_digits(input@))
                * digits_value(spec_block_size_digits(input@))
        },
        r is Err ==> r->Err_0 == DiskInfoError::Parse,
{
    let ghost all_lines = lines_of(input@);
    let mut lines: Vec<Vec<u8>> = Vec::new();
    let mut pos: usize = 0;
    let mut k: usize = 0;
    while k < 14
        invariant
            k == lines@.len(),
            k <= 14,
            k as int <= all_lines.len(),
            pos <= input@.len(),
            all_lines == lines_of(input@),
            crate::scan::lines_from(input@, pos as int) =~= all_lines.skip(k as int),
            forall|j: int| 0 <= j < k ==> lines@[j]@ == all_lines[j],
        decreases 14 - k,
    {
        match take_line(input, pos) {
            Some(lp) => {
                proof {
                    assert(all_lines.skip(k as int)[0] == lp.0@);
                    assert(all_lines.skip(k as int).len() >= 1);
                    assert(crate::scan::lines_from(input@, lp.1 as int)
                        =~= all_lines.skip(k as int).skip(1));
                    assert(all_lines.skip(k as int).skip(1) =~= all_lines.skip(k as int + 1));
                    assert(all_lines[k as int] == all_lines.skip(k as int)[0]);
                }
                lines.push(lp.0);
                pos = lp.1;
                k = k + 1;
            },
            None => {
                proof {
                    assert(all_lines.skip(k as int).len() == 0);
                    assert(all_lines.len() == k);
                    assert(!spec_metadata_ok(input@));
                }
                return Err(DiskInfoError::Parse);
            },
        }
    }
    proof {
        assert(all_lines.len() >= 14);
    }

    let id_tag = volume_id_tag_bytes();
    let bs_tag = block_size_tag_bytes();
    let vs_tag = volume_size_tag_bytes();

    let id_line = &lines[2];
    if !starts_with(id_line.as_slice(), id_tag.as_slice()) {
        return Err(DiskInfoError::Parse);
    }
    let bs_line = &lines[12];
    if !starts_with(bs_line.as_slice(), bs_tag.as_slice()) {
        return Err(DiskInfoError::Parse);
    }
    let vs_line = &lines[13];
    if !starts_with(vs_line.as_slice(), vs_tag.as_slice()) {
        return Err(DiskInfoError::Parse);
    }

    let block_size = match parse_digits(bs_line.as_slice(), bs_tag.len()) {
        Some(v) => v,
        None => {
            return Err(DiskInfoError::Parse);
        },
    };
    let block_count = match parse_digits(vs_line.as_slice(), vs_tag.len()) {
        Some(v) => v,
        None => {
            return Err(DiskInfoError::Parse);
        },
    };
    let length = match block_count.checked_mul(block_size) {
        Some(v) => v,
        None => {
            return Err(DiskInfoError::Parse);
        },
    };

    let name = crate::scan::copy_range(id_line.as_slice(), id_tag.len(), id_line.len());
    proof {
        assert(name@ =~= spec_volume_name(input@));
        assert(bs_line@.skip(bs_tag@.len() as int) =~= spec_block_size_digits(input@));
        assert(vs_line@.skip(vs_tag@.len() as int) =~= spec_block_count_digits(input@));
    }
    Ok(ISOInfo { name, block_size, length })
}

} // verus!
