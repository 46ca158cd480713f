//! Presence parser and poller logic: reads the block-device identification
//! text into `(path, info)` pairs and recomputes, for every drive, whether it
//! currently holds media.
//!
//! Presence is a pure function of the most recent identification output: a
//! drive has media exactly when some pair's path is a prefix of the drive's
//! device path.  Nothing is sticky — every poll overwrites the flag.

use vstd::prelude::*;
use crate::engine::DiskDrive;
use crate::scan::{find_byte, is_prefix, lines_of, lines_from, take_line, find_byte_in,
    copy_range, starts_with};

verus! {

/// `:`
pub const COLON: u8 = 58;

/// One line of identification output: the device path before the first
/// colon, and the rest of the line after it.
pub struct IdPair {
    pub key: Vec<u8>,
    pub rest: Vec<u8>,
}

/// The mathematical shape of a pair list.
pub open spec fn pairs_view(pairs: Seq<IdPair>) -> Seq<(Seq<u8>, Seq<u8>)> {
    pairs.map_values(|p: IdPair| (p.key@, p.rest@))
}

/// What one line contributes: the part before the first colon and the part
/// after it, or nothing when the line holds no colon.
pub open spec fn line_id_pair(l: Seq<u8>) -> Option<(Seq<u8>, Seq<u8>)> {
    match find_byte(l, COLON, 0) {
        Some(c) => Some((l.take(c), l.skip(c + 1))),
        None => None,
    }
}

/// The greedy parse of the identification lines: every line contributes its
/// pair, and the first line without a colon ends the walk.
pub open spec fn id_pairs(ls: Seq<Seq<u8>>) -> Seq<(Seq<u8>, Seq<u8>)>
    decreases ls.len(),
{
    if ls.len() == 0 {
        seq![]
    } else {
        match line_id_pair(ls[0]) {
            Some(p) => seq![p] + id_pairs(ls.drop_first()),
            None => seq![],
        }
    }
}

/// The pairs the whole identification text yields.
pub open spec fn spec_id_list(s: Seq<u8>) -> Seq<(Seq<u8>, Seq<u8>)> {
    id_pairs(lines_of(s))
}

/// Parses the identification text into its `(path, info)` pairs, in input
/// order.
pub fn parse_bulk_id_list(input: &[u8]) -> (pairs: Vec<IdPair>)
    ensures
        pairs_view(pairs@) == spec_id_list(input@),
{
    let mut pairs: Vec<IdPair> = Vec::new();
    let mut pos: usize = 0;
    let ghost goal = spec_id_list(input@);
    loop
        invariant
            pos <= input@.len(),
            goal == spec_id_list(input@),
            goal =~= pairs_view(pairs@) + id_pairs(lines_from(input@, pos as int)),
        decreases input@.len() - pos,
    {
        let ghost done = pairs_view(pairs@);
        match take_line(input, pos) {
            Some(lp) => {
                let ghost rest = lines_from(input@, lp.1 as int);
                proof {
                    assert(lines_from(input@, pos as int) =~= seq![lp.0@] + rest);
                    assert((seq![lp.0@] + rest)[0] == lp.0@);
                    assert((seq![lp.0@] + rest).drop_first() =~= rest);
                }
                match find_byte_in(lp.0.as_slice(), COLON, 0) {
                    Some(c) => {
                        let key = copy_range(lp.0.as_slice(), 0, c);
                        let rest_bytes = copy_range(lp.0.as_slice(), c + 1, lp.0.len());
                        proof {
                            assert(key@ =~= lp.0@.take(c as int));
                            assert(rest_bytes@ =~= lp.0@.skip(c + 1));
                            assert(id_pairs(lines_from(input@, pos as int))
                                =~= seq![(key@, rest_bytes@)] + id_pairs(rest));
                        }
                        pairs.push(IdPair { key, rest: rest_bytes });
                        proof {
                            assert(pairs_view(pairs@) =~= done.push(
                                (pairs@.last().key@, pairs@.last().rest@)));
                            assert(goal =~= pairs_view(pairs@) + id_pairs(rest));
                        }
                        pos = lp.1;
                    },
                    None => {
                        proof {
                            assert(id_pairs(lines_from(input@, pos as int))
                                =~= Seq::<(Seq<u8>, Seq<u8>)>::empty());
                            assert(goal =~= done);
                        }
                        return pairs;
                    },
                }
            },
            None => {
                proof {
                    assert(lines_from(input@, pos as int) =~= Seq::<Seq<u8>>::empty());
                    assert(id_pairs(lines_from(input@, pos as int))
                        =~= Seq::<(Seq<u8>, Seq<u8>)>::empty());
                    assert(goal =~= done);
                }
                return pairs;
            },
        }
    }
}

/// On identification text whose every line holds a colon, the parse keeps
/// every line: one pair per line, in order.  Appending one more such line
/// therefore appends exactly its pair.
pub proof fn lemma_id_pairs_all_lines(ls: Seq<Seq<u8>>)
    requires
        forall|i: int| 0 <= i < ls.len() ==> line_id_pair(#[trigger] ls[i]) is Some,
    ensures
        id_pairs(ls).len() == ls.len(),
        forall|i: int| 0 <= i < ls.len() ==> id_pairs(ls)[i] == line_id_pair(#[trigger] ls[i])->Some_0,
    decreases ls.len(),
{
    if ls.len() > 0 {
        let rest = ls.drop_first();
        assert(line_id_pair(ls[0]) is Some);
        assert(forall|i: int| 0 <= i < rest.len() ==> #[trigger] rest[i] == ls[i + 1]);
        lemma_id_pairs_all_lines(rest);
        assert(id_pairs(ls) == seq![line_id_pair(ls[0])->Some_0] + id_pairs(rest));
        assert forall|i: int| 0 <= i < ls.len() implies id_pairs(ls)[i]
            == line_id_pair(#[trigger] ls[i])->Some_0 by {
            if i > 0 {
                assert(id_pairs(ls)[i] == id_pairs(rest)[i - 1]);
                assert(rest[i - 1] == ls[i]);
            }
        }
    }
}

/// A drive holds media exactly when some pair's path is a prefix of the
/// drive's device path.
pub open spec fn spec_presence(file: Seq<u8>, pairs: Seq<(Seq<u8>, Seq<u8>)>) -> bool {
    exists|i: int| 0 <= i < pairs.len() && is_prefix(pairs[i].0, file)
}

/// Whether the identification pairs say this device path holds media.
pub fn disk_present(file: &[u8], pairs: &Vec<IdPair>) -> (b: bool)
    ensures
        b == spec_presence(file@, pairs_view(pairs@)),
{
    let mut i: usize = 0;
    while i < pairs.len()
        invariant
            0 <= i <= pairs@.len(),
            forall|j: int| 0 <= j < i ==> !is_prefix(pairs_view(pairs@)[j].0, file@),
        decreases pairs@.len() - i,
    {
        let p = &pairs[i];
        if starts_with(file, p.key.as_slice()) {
            proof {
                assert(is_prefix(pairs_view(pairs@)[i as int].0, file@));
            }
            return true;
        }
        proof {
            assert(!is_prefix(pairs_view(pairs@)[i as int].0, file@));
        }
        i = i + 1;
    }
    false
}

/// One poll tick: overwrites every drive's presence flag with what the
/// newest identification output says, touching nothing else.  The new flag
/// does not depend on the old one.
pub fn check_disks_in_drives(drives: &mut Vec<DiskDrive>, pairs: &Vec<IdPair>)
    ensures
        final(drives)@.len() == old(drives)@.len(),
        forall|i: int| 0 <= i < old(drives)@.len() ==> {
            &&& (#[trigger] final(drives)@[i]).spec_file() == old(drives)@[i].spec_file()
            &&& final(drives)@[i].spec_status() == old(drives)@[i].spec_status()
            &&& final(drives)@[i].spec_has_disk() == spec_presence(
                old(drives)@[i].spec_file(), pairs_view(pairs@))
        },
{
    let n = drives.len();
    let mut i: usize = 0;
    while i < n
        invariant
            0 <= i <= n == drives@.len() == old(drives)@.len(),
            forall|j: int| i <= j < n ==> drives@[j] == old(drives)@[j],
            forall|j: int| 0 <= j < i ==> {
                &&& (#[trigger] drives@[j]).spec_file() == old(drives)@[j].spec_file()
                &&& drives@[j].spec_status() == old(drives)@[j].spec_status()
                &&& drives@[j].spec_has_disk() == spec_presence(
                    old(drives)@[j].spec_file(), pairs_view(pairs@))
            },
        decreases n - i,
    {
        let present = disk_present(drives[i].file().as_slice(), pairs);
        let d = &mut drives[i];
        d.set_presence(present);
        i = i + 1;
    }
}

/// Appending one more identification pair can only add a match: presence
/// against the longer list holds exactly when it held before or the new
/// pair's path is a prefix of the drive's path.  With the pair gone again,
/// presence is recomputed from the shorter list alone — nothing is sticky.
pub proof fn lemma_presence_extended(file: Seq<u8>, pairs: Seq<(Seq<u8>, Seq<u8>)>,
    p: (Seq<u8>, Seq<u8>))
    ensures
        spec_presence(file, pairs.push(p)) <==> (spec_presence(file, pairs)
            || is_prefix(p.0, file)),
{
    if spec_presence(file, pairs) {
        let i = choose|i: int| 0 <= i < pairs.len() && is_prefix(pairs[i].0, file);
        assert(pairs.push(p)[i] == pairs[i]);
        assert(spec_presence(file, pairs.push(p)));
    }
    if is_prefix(p.0, file) {
        assert(pairs.push(p)[pairs.len() as int] == p);
        assert(spec_presence(file, pairs.push(p)));
    }
    if spec_presence(file, pairs.push(p)) {
        let i = choose|i: int| 0 <= i < pairs.push(p).len()
            && is_prefix(pairs.push(p)[i].0, file);
        if i < pairs.len() {
            assert(pairs.push(p)[i] == pairs[i]);
            assert(spec_presence(file, pairs));
        } else {
            assert(pairs.push(p)[i] == p);
        }
    }
}

/// A drive whose path no pair prefixes reads as having no media.
pub proof fn lemma_presence_no_match(file: Seq<u8>, pairs: Seq<(Seq<u8>, Seq<u8>)>)
    requires
        forall|i: int| 0 <= i < pairs.len() ==> !is_prefix((#[trigger] pairs[i]).0, file),
    ensures
        !spec_presence(file, pairs),
{
}

} // verus!
