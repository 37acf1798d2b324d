//! The text of a space report: a centred stage heading, then the byte and
//! gigabyte figures in aligned columns.

use crate::capacity::SpaceSnapshot;
use crate::format::{format_gigabytes, format_num, gigabytes_text, grouped};
use vstd::prelude::*;

verus! {

/// Width of the label column.
pub const LABEL_WIDTH: usize = 15;

/// Width of the value column, and of the centred heading.
pub const VALUE_WIDTH: usize = 20;

pub open spec fn spaces(n: nat) -> Seq<char> {
    Seq::new(n, |i: int| ' ')
}

/// `t` right-aligned in `w` columns: spaces before it where it is shorter.
pub open spec fn pad_left(t: Seq<char>, w: nat) -> Seq<char> {
    if t.len() < w {
        spaces((w - t.len()) as nat) + t
    } else {
        t
    }
}

/// `t` left-aligned in `w` columns: spaces after it where it is shorter.
pub open spec fn pad_right(t: Seq<char>, w: nat) -> Seq<char> {
    if t.len() < w {
        t + spaces((w - t.len()) as nat)
    } else {
        t
    }
}

/// `t` centred in `w` columns: half the padding before it, rounded down,
/// and the rest after it.
pub open spec fn centred(t: Seq<char>, w: nat) -> Seq<char> {
    if t.len() < w {
        let gap = (w - t.len()) as nat;
        spaces(gap / 2) + t + spaces((gap - gap / 2) as nat)
    } else {
        t
    }
}

/// One line of figures: the label, a space, the value, the unit.
pub open spec fn figure_line(label: Seq<char>, value: Seq<char>, unit: Seq<char>) -> Seq<char> {
    pad_right(label, LABEL_WIDTH as nat) + seq![' '] + pad_left(value, VALUE_WIDTH as nat) + unit
}

fn append_spaces(out: &mut String, n: usize)
    ensures
        final(out)@ == old(out)@ + spaces(n as nat),
{
    let mut i: usize = 0;
    while i < n
        invariant
            i <= n,
            out@ == old(out)@ + spaces(i as nat),
        decreases n - i,
    {
        proof {
            reveal_strlit(" ");
        }
        out.append(" ");
        i = i + 1;
        assert(out@ =~= old(out)@ + spaces(i as nat));
    }
}

fn append_padded_left(out: &mut String, t: &str, w: usize)
    ensures
        final(out)@ == old(out)@ + pad_left(t@, w as nat),
{
    let k = t.unicode_len();
    if k < w {
        append_spaces(out, w - k);
    }
    out.append(t);
    assert(final(out)@ =~= old(out)@ + pad_left(t@, w as nat));
}

fn append_padded_right(out: &mut String, t: &str, w: usize)
    ensures
        final(out)@ == old(out)@ + pad_right(t@, w as nat),
{
    let k = t.unicode_len();
    out.append(t);
    if k < w {
        append_spaces(out, w - k);
    }
    assert(final(out)@ =~= old(out)@ + pad_right(t@, w as nat));
}

fn figure(label: &str, value: &str, unit: &str) -> (r: String)
    ensures
        r@ == figure_line(label@, value@, unit@),
{
    let mut s = String::new();
    append_padded_right(&mut s, label, LABEL_WIDTH);
    proof {
        reveal_strlit(" ");
    }
    s.append(" ");
    append_padded_left(&mut s, value, VALUE_WIDTH);
    s.append(unit);
    assert(s@ =~= figure_line(label@, value@, unit@));
    s
}

/// The heading of a report: the stage centred in the value column's width,
/// then ` status:`.
pub fn heading(stage: &str) -> (r: String)
    ensures
        r@ == centred(stage@, VALUE_WIDTH as nat) + " status:"@,
{
    let k = stage.unicode_len();
    let mut s = String::new();
    if k < VALUE_WIDTH {
        let gap = VALUE_WIDTH - k;
        append_spaces(&mut s, gap / 2);
        s.append(stage);
        append_spaces(&mut s, gap - gap / 2);
    } else {
        s.append(stage);
    }
    s.append(" status:");
    assert(s@ =~= centred(stage@, VALUE_WIDTH as nat) + " status:"@);
    s
}

/// The lines of the report of one snapshot under a stage's heading: the
/// heading, the total, used and free bytes, then the total and free space
/// in gigabytes.
pub fn report_lines(stage: &str, s: &SpaceSnapshot) -> (r: Vec<String>)
    ensures
        r@.len() == 6,
        r@[0]@ == centred(stage@, VALUE_WIDTH as nat) + " status:"@,
        r@[1]@ == figure_line("Total space:"@, grouped(s.total_bytes as nat), " bytes"@),
        r@[2]@ == figure_line("Used space:"@, grouped(s.used()), " bytes"@),
        r@[3]@ == figure_line("Free space:"@, grouped(s.free_bytes as nat), " bytes"@),
        r@[4]@ == figure_line("Total:"@, gigabytes_text(s.total_bytes as nat), " GB"@),
        r@[5]@ == figure_line("Free:"@, gigabytes_text(s.free_bytes as nat), " GB"@),
{
    let mut v: Vec<String> = Vec::new();
    v.push(heading(stage));
    let total = format_num(s.total_bytes);
    v.push(figure("Total space:", total.as_str(), " bytes"));
    let used = format_num(s.used_bytes());
    v.push(figure("Used space:", used.as_str(), " bytes"));
    let free = format_num(s.free_bytes);
    v.push(figure("Free space:", free.as_str(), " bytes"));
    let total_gb = format_gigabytes(s.total_bytes);
    v.push(figure("Total:", total_gb.as_str(), " GB"));
    let free_gb = format_gigabytes(s.free_bytes);
    v.push(figure("Free:", free_gb.as_str(), " GB"));
    v
}

} // verus!
