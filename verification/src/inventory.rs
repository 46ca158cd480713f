//! Inventory parser: turns the text of the device-listing command into the
//! ordered set of optical drives.
//!
//! Each candidate line reads `[<id>]  <type>  <description>  <path>`: a
//! bracketed identifier, spacing, a type token up to the next blank, and the
//! device path running from the first `/` after the type token to the end of
//! the line.  A line qualifies as a drive exactly when its type token is the
//! literal `cd/dvd`.  Parsing is greedy: it stops quietly at the first line
//! that does not fit the shape, so malformed text yields no drives rather
//! than an error.  The captured path drops its final character, matching the
//! observed formatting of the listing tool.

use vstd::prelude::*;
use crate::engine::DiskDrive;
use crate::scan::{find_byte, skip_spaces, lines_of, lines_from, take_line, find_byte_in,
    skip_spaces_in, copy_range, bytes_equal};

verus! {

/// `[`
pub const OPEN_BRACKET: u8 = 91;

/// `]`
pub const CLOSE_BRACKET: u8 = 93;

/// The blank that ends the type token.
pub const BLANK: u8 = 32;

/// `/`, the byte that opens every device path.
pub const PATH_MARK: u8 = 47;

/// The type token that marks an optical drive: `cd/dvd`.
pub open spec fn cd_dvd_tag() -> Seq<u8> {
    seq![99u8, 100u8, 47u8, 100u8, 118u8, 100u8]
}

/// Position just past the bracketed identifier's closing bracket.
pub open spec fn close_pos(l: Seq<u8>) -> Option<int> {
    if l.len() > 0 && l[0] == OPEN_BRACKET {
        find_byte(l, CLOSE_BRACKET, 1)
    } else {
        None
    }
}

/// Start of the type token: first non-spacing byte after the brackets.
pub open spec fn type_start(l: Seq<u8>) -> Option<int> {
    match close_pos(l) {
        Some(c) => Some(skip_spaces(l, c + 1)),
        None => None,
    }
}

/// End of the type token: the next blank.
pub open spec fn type_end(l: Seq<u8>) -> Option<int> {
    match type_start(l) {
        Some(t) => find_byte(l, BLANK, t),
        None => None,
    }
}

/// Start of the device path: the first `/` after the type token and the
/// spacing that follows it.
pub open spec fn path_start(l: Seq<u8>) -> Option<int> {
    match type_end(l) {
        Some(e) => find_byte(l, PATH_MARK, skip_spaces(l, e)),
        None => None,
    }
}

/// The line has the bracket/type/path shape.
pub open spec fn line_shape_ok(l: Seq<u8>) -> bool {
    path_start(l) is Some
}

/// The type token of a well-shaped line.
pub open spec fn line_type(l: Seq<u8>) -> Seq<u8> {
    l.subrange(type_start(l)->Some_0, type_end(l)->Some_0)
}

/// A well-shaped line naming an optical drive.
pub open spec fn line_is_drive(l: Seq<u8>) -> bool {
    line_shape_ok(l) && line_type(l) == cd_dvd_tag()
}

/// The device path the line contributes: from its first `/` to the end of
/// the line, with the final character dropped.
pub open spec fn line_path(l: Seq<u8>) -> Seq<u8> {
    l.subrange(path_start(l)->Some_0, l.len() - 1)
}

/// The paths the greedy parse draws from a sequence of lines: qualifying
/// lines contribute in order, and the first badly shaped line ends the walk.
pub open spec fn inventory_paths(ls: Seq<Seq<u8>>) -> Seq<Seq<u8>>
    decreases ls.len(),
{
    if ls.len() == 0 {
        seq![]
    } else if !line_shape_ok(ls[0]) {
        seq![]
    } else if line_is_drive(ls[0]) {
        seq![line_path(ls[0])] + inventory_paths(ls.drop_first())
    } else {
        inventory_paths(ls.drop_first())
    }
}

/// The device paths the whole listing text yields.
pub open spec fn spec_inventory(s: Seq<u8>) -> Seq<Seq<u8>> {
    inventory_paths(lines_of(s))
}

/// What one line contributes to the inventory.
pub enum LineOutcome {
    /// The line does not fit the shape; parsing stops here.
    Malformed,
    /// Well-shaped, but not an optical drive.
    NotDrive,
    /// An optical drive with this (already stripped) device path.
    Drive(Vec<u8>),
}

/// Parses a single complete line (without its newline).
fn parse_line(l: &[u8]) -> (r: LineOutcome)
    ensures
        match r {
            LineOutcome::Malformed => !line_shape_ok(l@),
            LineOutcome::NotDrive => line_shape_ok(l@) && !line_is_drive(l@),
            LineOutcome::Drive(p) => line_is_drive(l@) && p@ == line_path(l@),
        },
{
    if l.len() == 0 || l[0] != OPEN_BRACKET {
        return LineOutcome::Malformed;
    }
    let c = match find_byte_in(l, CLOSE_BRACKET, 1) {
        Some(c) => c,
        None => {
            return LineOutcome::Malformed;
        },
    };
    let t = skip_spaces_in(l, c + 1);
    let e = match find_byte_in(l, BLANK, t) {
        Some(e) => e,
        None => {
            return LineOutcome::Malformed;
        },
    };
    let w = skip_spaces_in(l, e);
    let p = match find_byte_in(l, PATH_MARK, w) {
        Some(p) => p,
        None => {
            return LineOutcome::Malformed;
        },
    };
    let ty = copy_range(l, t, e);
    let mut tag: Vec<u8> = Vec::new();
    tag.push(99);
    tag.push(100);
    tag.push(47);
    tag.push(100);
    tag.push(118);
    tag.push(100);
    proof {
        assert(tag@ =~= cd_dvd_tag());
    }
    if bytes_equal(ty.as_slice(), tag.as_slice()) {
        let path = copy_range(l, p, l.len() - 1);
        LineOutcome::Drive(path)
    } else {
        LineOutcome::NotDrive
    }
}

/// Parses the device-listing text.  The drives come back in input order,
/// each with its stripped device path, no media seen and state `Setup`.
pub fn parse_disk_drive_list(input: &[u8]) -> (drives: Vec<DiskDrive>)
    ensures
        drives@.len() == spec_inventory(input@).len(),
        forall|i: int| 0 <= i < drives@.len() ==> {
            &&& (#[trigger] drives@[i]).spec_file() == spec_inventory(input@)[i]
            &&& !drives@[i].spec_has_disk()
            &&& drives@[i].spec_status() is Setup
        },
{
    let mut drives: Vec<DiskDrive> = Vec::new();
    let mut pos: usize = 0;
    let ghost goal = spec_inventory(input@);
    loop
        invariant
            pos <= input@.len(),
            goal == spec_inventory(input@),
            goal =~= drives@.map_values(|d: DiskDrive| d.spec_file())
                + inventory_paths(lines_from(input@, pos as int)),
            forall|i: int| 0 <= i < drives@.len() ==> {
                &&& (#[trigger] drives@[i]).spec_file() == goal[i]
                &&& !drives@[i].spec_has_disk()
                &&& drives@[i].spec_status() is Setup
            },
        decreases input@.len() - pos,
    {
        let ghost paths_done = drives@.map_values(|d: DiskDrive| d.spec_file());
        match take_line(input, pos) {
            Some(lp) => {
                let ghost rest = lines_from(input@, lp.1 as int);
                proof {
                    assert(lines_from(input@, pos as int) =~= seq![lp.0@] + rest);
                    assert((seq![lp.0@] + rest)[0] == lp.0@);
                    assert((seq![lp.0@] + rest).drop_first() =~= rest);
                }
                match parse_line(lp.0.as_slice()) {
                    LineOutcome::Malformed => {
                        proof {
                            assert(inventory_paths(lines_from(input@, pos as int))
                                =~= Seq::<Seq<u8>>::empty());
                            assert(goal =~= paths_done);
                        }
                        return drives;
                    },
                    LineOutcome::NotDrive => {
                        proof {
                            assert(inventory_paths(lines_from(input@, pos as int))
                                == inventory_paths(rest));
                        }
                        pos = lp.1;
                    },
                    LineOutcome::Drive(path) => {
                        proof {
                            assert(inventory_paths(lines_from(input@, pos as int))
                                =~= seq![line_path(lp.0@)] + inventory_paths(rest));
                            assert(goal[paths_done.len() as int] == line_path(lp.0@));
                        }
                        let d = DiskDrive::new(path);
                        drives.push(d);
                        proof {
                            assert(drives@.map_values(|d: DiskDrive| d.spec_file())
                                =~= paths_done.push(line_path(lp.0@)));
                            assert(goal =~= drives@.map_values(|d: DiskDrive| d.spec_file())
                                + inventory_paths(rest));
                        }
                        pos = lp.1;
                    },
                }
            },
            None => {
                proof {
                    assert(lines_from(input@, pos as int) =~= Seq::<Seq<u8>>::empty());
                    assert(inventory_paths(lines_from(input@, pos as int))
                        =~= Seq::<Seq<u8>>::empty());
                    assert(goal =~= paths_done);
                }
                return drives;
            },
        }
    }
}

/// The paths of the qualifying lines alone, in order — how the inventory
/// reads when no line is malformed.
pub open spec fn drive_paths_of_lines(ls: Seq<Seq<u8>>) -> Seq<Seq<u8>>
    decreases ls.len(),
{
    if ls.len() == 0 {
        seq![]
    } else if line_is_drive(ls[0]) {
        seq![line_path(ls[0])] + drive_paths_of_lines(ls.drop_first())
    } else {
        drive_paths_of_lines(ls.drop_first())
    }
}

/// On text made only of well-shaped lines, the parse never stops early: it
/// yields exactly the `cd/dvd` lines' paths, in input order, each stripped
/// of its final character.
pub proof fn lemma_inventory_wellformed_lines(ls: Seq<Seq<u8>>)
    requires
        forall|i: int| 0 <= i < ls.len() ==> line_shape_ok(#[trigger] ls[i]),
    ensures
        inventory_paths(ls) == drive_paths_of_lines(ls),
    decreases ls.len(),
{
    if ls.len() > 0 {
        assert(line_shape_ok(ls[0]));
        assert(forall|i: int| 0 <= i < ls.drop_first().len()
            ==> line_shape_ok(#[trigger] ls.drop_first()[i]));
        lemma_inventory_wellformed_lines(ls.drop_first());
    }
}

/// How many lines carry the `cd/dvd` type token.
pub open spec fn drive_line_count(ls: Seq<Seq<u8>>) -> int
    decreases ls.len(),
{
    if ls.len() == 0 {
        0
    } else {
        (if line_is_drive(ls[0]) { 1int } else { 0int }) + drive_line_count(ls.drop_first())
    }
}

/// Exactly as many drive handles come back as there are qualifying lines.
pub proof fn lemma_drive_paths_count(ls: Seq<Seq<u8>>)
    ensures
        drive_paths_of_lines(ls).len() == drive_line_count(ls),
    decreases ls.len(),
{
    if ls.len() > 0 {
        lemma_drive_paths_count(ls.drop_first());
    }
}

/// The same statement over the raw text: when every complete line of the
/// listing is well-shaped, the inventory is the qualifying lines' stripped
/// paths in order.
pub proof fn lemma_inventory_wellformed_text(s: Seq<u8>)
    requires
        forall|i: int| 0 <= i < lines_of(s).len() ==> line_shape_ok(#[trigger] lines_of(s)[i]),
    ensures
        spec_inventory(s) == drive_paths_of_lines(lines_of(s)),
{
    lemma_inventory_wellformed_lines(lines_of(s));
}

} // verus!
