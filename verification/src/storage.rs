//! The disks offered as installation targets, read from the listing that
//! `lsblk` prints.
use vstd::prelude::*;

use crate::shell::ShellCommand;
use crate::text::{
    chars_of, contains, find_text_in, line_ranges, lines, parse_u64, parse_u64_in, pieces,
    range_texts, ranges_within, split_pieces, starts_with, starts_with_in, Separator,
};
use crate::trusted::{text_from_bytes, utf8_lossy};

verus! {

/// A whole disk found by `lsblk`. Its size is in bytes; the size in
/// gigabytes shown to the user is worked out from it outside this library.
pub struct DiskEntry {
    pub name: String,
    pub path: String,
    pub size_bytes: u64,
    pub model: String,
    pub is_removable: bool,
}

/// The content of a `DiskEntry`.
pub struct DiskModel {
    pub name: Seq<char>,
    pub path: Seq<char>,
    pub size_bytes: u64,
    pub model: Seq<char>,
    pub is_removable: bool,
}

impl View for DiskEntry {
    type V = DiskModel;

    open spec fn view(&self) -> DiskModel {
        DiskModel {
            name: self.name@,
            path: self.path@,
            size_bytes: self.size_bytes,
            model: self.model@,
            is_removable: self.is_removable,
        }
    }
}

impl DeepView for DiskEntry {
    type V = DiskModel;

    open spec fn deep_view(&self) -> DiskModel {
        self@
    }
}

/// The listing command: whole disks only, sizes in bytes, no header, with
/// the columns name, size, model, removable and type.
pub fn lsblk_command() -> (c: ShellCommand)
    ensures
        c@ == ("lsblk"@, seq!["-d"@, "-b"@, "-n"@, "-o"@, "NAME,SIZE,MODEL,RM,TYPE"@]),
{
    let mut args: Vec<String> = Vec::new();
    args.push("-d".to_owned());
    args.push("-b".to_owned());
    args.push("-n".to_owned());
    args.push("-o".to_owned());
    args.push("NAME,SIZE,MODEL,RM,TYPE".to_owned());
    assert(args.deep_view() =~= seq!["-d"@, "-b"@, "-n"@, "-o"@, "NAME,SIZE,MODEL,RM,TYPE"@]);
    ShellCommand { program: "lsblk".to_owned(), args }
}

/// The pieces `ps` joined with `sep` between each two.
pub open spec fn join_with(ps: Seq<Seq<char>>, sep: Seq<char>) -> Seq<char>
    decreases ps.len(),
{
    if ps.len() == 0 {
        seq![]
    } else if ps.len() == 1 {
        ps[0]
    } else {
        join_with(ps.drop_last(), sep) + sep + ps.last()
    }
}

/// A listing line stands for a disk to offer when it has at least three
/// words, mentions `disk`, and its name does not start with `loop`.
pub open spec fn is_offered_disk(line: Seq<char>) -> bool {
    let parts = pieces(line, Separator::WhiteSpace);
    parts.len() >= 3 && contains(line, "disk"@) && !starts_with(parts[0], "loop"@)
}

/// The disk a listing line stands for: the name and its device path, the
/// size (0 where the second word is not a number), the model (the words
/// between the size and the last two words, joined with spaces, when there
/// are at least five words; else a generic name), and whether ` 1 ` (the
/// removable flag) appears in the line.
pub open spec fn disk_of_line(line: Seq<char>) -> DiskModel {
    let parts = pieces(line, Separator::WhiteSpace);
    DiskModel {
        name: parts[0],
        path: "/dev/"@ + parts[0],
        size_bytes: match parse_u64(parts[1]) {
            Some(n) => n,
            None => 0,
        },
        model: if parts.len() >= 5 {
            join_with(parts.subrange(2, parts.len() - 2), " "@)
        } else {
            "Sabit Disk"@
        },
        is_removable: contains(line, " 1 "@),
    }
}

/// The disks that the lines `ls` stand for, in order.
pub open spec fn disks_in(ls: Seq<Seq<char>>) -> Seq<DiskModel>
    decreases ls.len(),
{
    if ls.len() == 0 {
        seq![]
    } else if is_offered_disk(ls.last()) {
        disks_in(ls.drop_last()).push(disk_of_line(ls.last()))
    } else {
        disks_in(ls.drop_last())
    }
}

/// The disks in the bytes that `lsblk` printed.
pub open spec fn listed_disks(stdout: Seq<u8>) -> Seq<DiskModel> {
    disks_in(lines(utf8_lossy(stdout)))
}

fn join_range(ps: &Vec<String>, from: usize, to: usize, sep: &str) -> (s: String)
    requires
        from <= to <= ps@.len(),
    ensures
        s@ == join_with(ps.deep_view().subrange(from as int, to as int), sep@),
{
    let ghost dv = ps.deep_view();
    let mut s = String::new();
    let mut k = from;
    assert(dv.subrange(from as int, from as int) =~= Seq::<Seq<char>>::empty());
    while k < to
        invariant
            dv == ps.deep_view(),
            from <= k <= to <= ps@.len(),
            s@ == join_with(dv.subrange(from as int, k as int), sep@),
        decreases to - k,
    {
        assert(dv.subrange(from as int, k + 1).drop_last() =~= dv.subrange(from as int, k as int));
        assert(dv.subrange(from as int, k + 1).last() == ps@[k as int]@);
        if k > from {
            s.append(sep);
        } else {
            assert(dv.subrange(from as int, k + 1) =~= seq![ps@[k as int]@]);
            assert(s@ + ps@[k as int]@ =~= ps@[k as int]@);
        }
        s.append(ps[k].as_str());
        k += 1;
    }
    s
}

/// The disk that the line `v[a..b]` stands for, if it is offered.
fn disk_of_range(v: &[char], a: usize, b: usize) -> (r: Option<DiskEntry>)
    requires
        a <= b <= v@.len(),
    ensures
        match r {
            Some(d) => is_offered_disk(v@.subrange(a as int, b as int)) && d@ == disk_of_line(
                v@.subrange(a as int, b as int),
            ),
            None => !is_offered_disk(v@.subrange(a as int, b as int)),
        },
{
    let ghost line = v@.subrange(a as int, b as int);
    let parts = split_pieces(v, a, b, Separator::WhiteSpace);
    if parts.len() < 3 {
        return None;
    }
    if find_text_in(v, a, b, "disk").is_none() {
        return None;
    }
    let first = chars_of(parts[0].as_str());
    let lp = chars_of("loop");
    assert(first@.subrange(0, first@.len() as int) =~= first@);
    if starts_with_in(first.as_slice(), 0, first.len(), lp.as_slice()) {
        return None;
    }
    let second = chars_of(parts[1].as_str());
    assert(second@.subrange(0, second@.len() as int) =~= second@);
    let size_bytes = match parse_u64_in(second.as_slice(), 0, second.len()) {
        Some(n) => n,
        None => 0,
    };
    let model = if parts.len() >= 5 {
        join_range(&parts, 2, parts.len() - 2, " ")
    } else {
        "Sabit Disk".to_owned()
    };
    let mut path = "/dev/".to_owned();
    path.append(parts[0].as_str());
    let is_removable = find_text_in(v, a, b, " 1 ").is_some();
    Some(
        DiskEntry {
            name: parts[0].clone(),
            path,
            size_bytes,
            model,
            is_removable,
        },
    )
}

/// The disks offered, read from the bytes that `lsblk` printed.
pub fn disks_from_listing(stdout: &[u8]) -> (disks: Vec<DiskEntry>)
    ensures
        disks.deep_view() == listed_disks(stdout@),
{
    let text = text_from_bytes(stdout);
    let v = chars_of(text.as_str());
    let rs = line_ranges(v.as_slice());
    let mut disks: Vec<DiskEntry> = Vec::new();
    let mut k: usize = 0;
    assert(lines(v@).take(0) =~= Seq::<Seq<char>>::empty());
    assert(disks.deep_view() =~= Seq::<DiskModel>::empty());
    while k < rs.len()
        invariant
            ranges_within(v@, rs@),
            range_texts(v@, rs@) == lines(v@),
            k <= rs@.len(),
            disks.deep_view() == disks_in(lines(v@).take(k as int)),
        decreases rs@.len() - k,
    {
        let ghost before = disks.deep_view();
        let (a, b) = rs[k];
        assert(lines(v@).take(k + 1).drop_last() =~= lines(v@).take(k as int));
        assert(range_texts(v@, rs@)[k as int] == v@.subrange(a as int, b as int));
        match disk_of_range(v.as_slice(), a, b) {
            Some(d) => {
                disks.push(d);
                assert(disks.deep_view() =~= before.push(disk_of_line(v@.subrange(a as int, b as int))));
            },
            None => {},
        }
        k += 1;
    }
    assert(lines(v@).take(rs@.len() as int) =~= lines(v@));
    disks
}

/// The disks detected, or `None` when the listing offers none (the caller
/// then offers its built-in examples).
pub fn detected_disks(stdout: &[u8]) -> (r: Option<Vec<DiskEntry>>)
    ensures
        match r {
            Some(d) => d.deep_view() == listed_disks(stdout@) && listed_disks(stdout@).len() > 0,
            None => listed_disks(stdout@).len() == 0,
        },
{
    let disks = disks_from_listing(stdout);
    if disks.len() == 0 {
        None
    } else {
        Some(disks)
    }
}

} // verus!
