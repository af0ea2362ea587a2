//! The memory map of a process, as the kernel lists it: one mapping per line,
//! `<start>-<end> <perms> <offset> <dev> <inode> <pathname>`. The pathname is
//! left out where no file stands behind the mapping.

use crate::text::{
    chars_of, first_at, next_token, parse_hex, parse_hex_u64, scan, token, token_bounds, Stop,
};
use vstd::prelude::*;

verus! {

/// One contiguous address range of a process.
#[derive(Debug)]
pub struct Mapping {
    /// First address of the range.
    pub start: u64,
    /// First address after the range.
    pub end: u64,
    /// Permissions, such as `r-xp`; holds an `x` if and only if the range is
    /// executable.
    pub perms: String,
    /// Where in the file the range starts.
    pub offset: u64,
    /// The file behind the range, or a bracketed name such as `[vdso]`;
    /// empty where the listing gives none.
    pub pathname: String,
}

/// What a [`Mapping`] holds, with its texts as sequences of characters.
pub struct MappingView {
    pub start: u64,
    pub end: u64,
    pub perms: Seq<char>,
    pub offset: u64,
    pub pathname: Seq<char>,
}

impl View for Mapping {
    type V = MappingView;

    open spec fn view(&self) -> MappingView {
        MappingView {
            start: self.start,
            end: self.end,
            perms: self.perms@,
            offset: self.offset,
            pathname: self.pathname@,
        }
    }
}

impl Clone for Mapping {
    fn clone(&self) -> (copy: Self)
        ensures
            copy@ == self@,
    {
        Mapping {
            start: self.start,
            end: self.end,
            perms: self.perms.clone(),
            offset: self.offset,
            pathname: self.pathname.clone(),
        }
    }
}

/// The two numbers of an address range `<start>-<end>`: hexadecimal numbers
/// on either side of the only `-`.
pub open spec fn parse_range(range: Seq<char>) -> Option<(u64, u64)> {
    let dash = first_at(range, 0, Stop::Dash);
    if dash < range.len() && first_at(range, dash + 1, Stop::Dash) == range.len() {
        match (parse_hex(range.take(dash)), parse_hex(range.skip(dash + 1))) {
            (Some(start), Some(end)) => Some((start, end)),
            _ => None,
        }
    } else {
        None
    }
}

/// The pathname of a line: its sixth field, and empty when the line has
/// none.
pub open spec fn pathname_of(line: Seq<char>) -> Seq<char> {
    match token(line, 5) {
        Some(pathname) => pathname,
        None => Seq::<char>::empty(),
    }
}

/// The mapping that a line of the listing describes. A line describes one
/// when it has at least five fields, the first is an address range and the
/// third a hexadecimal number; the second field is then the permissions.
/// The fourth and the fifth, device and inode, are not looked into. The
/// sixth is the pathname, which may be missing.
pub open spec fn parse_line(line: Seq<char>) -> Option<MappingView> {
    match (token(line, 0), token(line, 1), token(line, 2), token(line, 4)) {
        (Some(range), Some(perms), Some(offset), Some(_)) => {
            match (parse_range(range), parse_hex(offset)) {
                (Some((start, end)), Some(offset)) => Some(
                    MappingView { start, end, perms, offset, pathname: pathname_of(line) },
                ),
                _ => None,
            }
        },
        _ => None,
    }
}

/// Whether `mapping` is executable and holds `address`.
pub open spec fn covers(mapping: MappingView, address: u64) -> bool {
    mapping.start <= address < mapping.end && mapping.perms.contains('x')
}

/// Whether `line` describes an executable mapping that holds `address`.
pub open spec fn line_covers(line: Seq<char>, address: u64) -> bool {
    match parse_line(line) {
        Some(mapping) => covers(mapping, address),
        None => false,
    }
}

/// The mapping of the first line of `lines` that describes an executable
/// mapping holding `address`.
pub open spec fn find_mapping(lines: Seq<Seq<char>>, address: u64) -> Option<MappingView>
    decreases lines.len(),
{
    if lines.len() == 0 {
        None
    } else if line_covers(lines[0], address) {
        parse_line(lines[0])
    } else {
        find_mapping(lines.skip(1), address)
    }
}

/// The lines of a listing as sequences of characters.
pub open spec fn line_texts(lines: Seq<String>) -> Seq<Seq<char>> {
    lines.map_values(|line: String| line@)
}

/// `find_mapping` answers with the first covering line: with none exactly
/// when no line covers the address.
pub proof fn lemma_find_mapping_first(lines: Seq<Seq<char>>, address: u64)
    ensures
        match find_mapping(lines, address) {
            Some(mapping) => exists|i: int|
                0 <= i < lines.len() && #[trigger] line_covers(lines[i], address) && parse_line(
                    lines[i],
                ) == Some(mapping) && forall|j: int|
                    0 <= j < i ==> !#[trigger] line_covers(lines[j], address),
            None => forall|i: int|
                0 <= i < lines.len() ==> !#[trigger] line_covers(lines[i], address),
        },
    decreases lines.len(),
{
    if lines.len() == 0 {
    } else if line_covers(lines[0], address) {
        assert(line_covers(lines[0], address) && parse_line(lines[0]) == find_mapping(
            lines,
            address,
        ));
    } else {
        let rest = lines.skip(1);
        lemma_find_mapping_first(rest, address);
        assert(forall|i: int| 0 <= i < rest.len() ==> rest[i] == lines[i + 1]);
        match find_mapping(rest, address) {
            Some(mapping) => {
                let i = choose|i: int|
                    0 <= i < rest.len() && #[trigger] line_covers(rest[i], address) && parse_line(
                        rest[i],
                    ) == Some(mapping) && forall|j: int|
                        0 <= j < i ==> !#[trigger] line_covers(rest[j], address);
                assert forall|j: int| 0 <= j < i + 1 implies !#[trigger] line_covers(
                    lines[j],
                    address,
                ) by {
                    if j > 0 {
                        assert(!line_covers(rest[j - 1], address));
                    }
                }
                assert(line_covers(lines[i + 1], address));
            },
            None => {
                assert forall|i: int| 0 <= i < lines.len() implies !#[trigger] line_covers(
                    lines[i],
                    address,
                ) by {
                    if i > 0 {
                        assert(!line_covers(rest[i - 1], address));
                    }
                }
            },
        }
    }
}

/// When some line describes an executable mapping that holds
/// `address`, the lookup answers with that mapping or with an executable
/// mapping holding `address` that an earlier line describes.
pub proof fn lemma_lookup_finds_covering_mapping(lines: Seq<Seq<char>>, address: u64, i: int)
    requires
        0 <= i < lines.len(),
        line_covers(lines[i], address),
    ensures
        exists|j: int|
            0 <= j <= i && #[trigger] line_covers(lines[j], address) && find_mapping(
                lines,
                address,
            ) == parse_line(lines[j]),
{
    lemma_find_mapping_first(lines, address);
    match find_mapping(lines, address) {
        Some(mapping) => {
            let j = choose|j: int|
                0 <= j < lines.len() && #[trigger] line_covers(lines[j], address) && parse_line(
                    lines[j],
                ) == Some(mapping) && forall|k: int|
                    0 <= k < j ==> !#[trigger] line_covers(lines[k], address);
            assert(j <= i);
            assert(line_covers(lines[j], address));
        },
        None => {
            assert(!line_covers(lines[i], address));
        },
    }
}

/// The characters of `chars` from `from` up to `to`.
fn copy_range(chars: &Vec<char>, from: usize, to: usize) -> (copy: Vec<char>)
    requires
        from <= to <= chars.len(),
    ensures
        copy@ == chars@.subrange(from as int, to as int),
{
    let mut copy: Vec<char> = Vec::new();
    let mut at: usize = from;
    while at < to
        invariant
            from <= at <= to <= chars.len(),
            copy@ == chars@.subrange(from as int, at as int),
        decreases to - at,
    {
        copy.push(chars[at]);
        at += 1;
    }
    copy
}

/// Reads an address range `<start>-<end>`.
fn read_range(range: &Vec<char>) -> (bounds: Option<(u64, u64)>)
    ensures
        bounds == parse_range(range@),
{
    let dash = scan(range, 0, Stop::Dash);
    if dash >= range.len() {
        return None;
    }
    if scan(range, dash + 1, Stop::Dash) < range.len() {
        return None;
    }
    assert(range@.take(dash as int) == range@.subrange(0, dash as int));
    assert(range@.skip(dash + 1) == range@.subrange(dash + 1, range.len() as int));
    let start = parse_hex_u64(range, 0, dash);
    let end = parse_hex_u64(range, dash + 1, range.len());
    match (start, end) {
        (Some(start), Some(end)) => Some((start, end)),
        _ => None,
    }
}

/// Reads one line of the listing.
pub fn parse_map_line(line: &str) -> (parsed: Option<Mapping>)
    ensures
        match parsed {
            Some(mapping) => parse_line(line@) == Some(mapping@),
            None => parse_line(line@) is None,
        },
{
    let chars = chars_of(line);
    let range = next_token(&chars, 0);
    let perms = next_token(&chars, range.1);
    let offset = next_token(&chars, perms.1);
    let device = next_token(&chars, offset.1);
    let inode = next_token(&chars, device.1);
    let pathname = next_token(&chars, inode.1);
    proof {
        reveal_with_fuel(token_bounds, 6);
        assert(token_bounds(line@, 0) == (range.0 as int, range.1 as int));
        assert(token_bounds(line@, 1) == (perms.0 as int, perms.1 as int));
        assert(token_bounds(line@, 2) == (offset.0 as int, offset.1 as int));
        assert(token_bounds(line@, 4) == (inode.0 as int, inode.1 as int));
        assert(token_bounds(line@, 5) == (pathname.0 as int, pathname.1 as int));
        assert(pathname_of(line@) =~= line@.subrange(pathname.0 as int, pathname.1 as int));
    }
    if inode.0 >= chars.len() {
        return None;
    }
    let range_chars = copy_range(&chars, range.0, range.1);
    let bounds = read_range(&range_chars);
    let offset_value = parse_hex_u64(&chars, offset.0, offset.1);
    match (bounds, offset_value) {
        (Some((start, end)), Some(offset_value)) => Some(
            Mapping {
                start,
                end,
                perms: line.substring_char(perms.0, perms.1).to_owned(),
                offset: offset_value,
                pathname: line.substring_char(pathname.0, pathname.1).to_owned(),
            },
        ),
        _ => None,
    }
}

/// Whether `text` holds the character `wanted`.
fn holds_char(text: &str, wanted: char) -> (held: bool)
    ensures
        held == text@.contains(wanted),
{
    let mut held = false;
    for c in it: text.chars()
        invariant
            it.seq() == text@,
            held == text@.take(it.index() as int).contains(wanted),
    {
        let ghost before = text@.take(it.index() as int);
        let ghost after = text@.take(it.index() + 1);
        assert(after == before.push(c));
        if c == wanted {
            held = true;
            assert(after[it.index() as int] == wanted);
        } else {
            assert(before.contains(wanted) == after.contains(wanted)) by {
                if after.contains(wanted) {
                    let k = choose|k: int| 0 <= k < after.len() && after[k] == wanted;
                    assert(before[k] == wanted);
                }
                if before.contains(wanted) {
                    let k = choose|k: int| 0 <= k < before.len() && before[k] == wanted;
                    assert(after[k] == wanted);
                }
            }
        }
    }
    assert(text@.take(text@.len() as int) == text@);
    held
}

/// Finds the executable mapping that holds `address`: the one of the first
/// line of the listing that describes such a mapping.
pub fn find_mapping_for_address(lines: &Vec<String>, address: u64) -> (found: Option<Mapping>)
    ensures
        match found {
            Some(mapping) => find_mapping(line_texts(lines@), address) == Some(mapping@),
            None => find_mapping(line_texts(lines@), address) is None,
        },
{
    let ghost texts = line_texts(lines@);
    let mut at: usize = 0;
    assert(texts.skip(0) == texts);
    while at < lines.len()
        invariant
            at <= lines.len(),
            texts == line_texts(lines@),
            find_mapping(texts, address) == find_mapping(texts.skip(at as int), address),
        decreases lines.len() - at,
    {
        let ghost rest = texts.skip(at as int);
        assert(rest[0] == lines@[at as int]@);
        assert(rest.skip(1) == texts.skip(at + 1));
        if let Some(mapping) = parse_map_line(lines[at].as_str()) {
            if mapping.start <= address && address < mapping.end && holds_char(
                mapping.perms.as_str(),
                'x',
            ) {
                return Some(mapping);
            }
        }
        at += 1;
    }
    assert(texts.skip(at as int).len() == 0);
    None
}

} // verus!
