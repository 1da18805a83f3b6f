//! What the long text format writes on each line: every value on a line of
//! its own, after the label that names it.
use vstd::prelude::*;

use crate::model::{GridModel, IntervalModel, PointModel};
use crate::text_format::escape::quoted;
use crate::text_format::stringifier::{
    long_interval, long_point, long_text, long_tier_fields, long_tiers,
};
use crate::textbuf::decimal;

verus! {

/// `line` is a whole line of `out` that starts at `p`: a line feed stands
/// right before it, and right after it a line feed or the end of `out`.
pub open spec fn line_at(out: Seq<char>, p: int, line: Seq<char>) -> bool {
    &&& 1 <= p
    &&& p + line.len() <= out.len()
    &&& out[p - 1] == '\n'
    &&& out.subrange(p, p + line.len()) == line
    &&& (p + line.len() == out.len() || out[p + line.len()] == '\n')
}

proof fn lemma_line_in(pre: Seq<char>, line: Seq<char>, post: Seq<char>)
    requires
        pre.len() >= 1,
        pre.last() == '\n',
        post.len() == 0 || post[0] == '\n',
    ensures
        line_at(pre + line + post, pre.len() as int, line),
{
    let out = pre + line + post;
    assert(out[pre.len() - 1] == pre.last());
    assert(out.subrange(pre.len() as int, (pre.len() + line.len()) as int) =~= line);
    if post.len() > 0 {
        assert(out[(pre.len() + line.len()) as int] == post[0]);
    }
}

/// An interval of the long format is four lines, in this order: its number
/// `intervals [k]:`, then `xmin = ` and its start, `xmax = ` and its end,
/// and `text = ` and its quoted text; the piece begins a new line.
pub proof fn law_long_interval_lines(iv: IntervalModel<Seq<char>>, k: nat)
    ensures
        long_interval(iv, k)[0] == '\n',
        exists|a: int, b: int, c: int, d: int|
            #![trigger line_at(long_interval(iv, k), a, "        intervals ["@ + decimal(k) + "]:"@), line_at(long_interval(iv, k), b, "            xmin = "@ + iv.xmin), line_at(long_interval(iv, k), c, "            xmax = "@ + iv.xmax), line_at(long_interval(iv, k), d, "            text = "@ + quoted(iv.text))]
            a < b < c < d
            && line_at(long_interval(iv, k), a, "        intervals ["@ + decimal(k) + "]:"@)
            && line_at(long_interval(iv, k), b, "            xmin = "@ + iv.xmin)
            && line_at(long_interval(iv, k), c, "            xmax = "@ + iv.xmax)
            && line_at(long_interval(iv, k), d, "            text = "@ + quoted(iv.text)),
{
    reveal_strlit("\n        intervals [");
    reveal_strlit("        intervals [");
    reveal_strlit("]:\n            xmin = ");
    reveal_strlit("]:");
    reveal_strlit("            xmin = ");
    reveal_strlit("\n            xmax = ");
    reveal_strlit("            xmax = ");
    reveal_strlit("\n            text = ");
    reveal_strlit("            text = ");
    let n = seq!['\n'];
    assert("\n        intervals ["@ =~= n + "        intervals ["@);
    assert("]:\n            xmin = "@ =~= "]:"@ + n + "            xmin = "@);
    assert("\n            xmax = "@ =~= n + "            xmax = "@);
    assert("\n            text = "@ =~= n + "            text = "@);
    let h = "        intervals ["@ + decimal(k) + "]:"@;
    let x1 = "            xmin = "@ + iv.xmin;
    let x2 = "            xmax = "@ + iv.xmax;
    let x3 = "            text = "@ + quoted(iv.text);
    let out = long_interval(iv, k);
    assert(out =~= n + h + (n + x1 + n + x2 + n + x3));
    assert(out =~= (n + h + n) + x1 + (n + x2 + n + x3));
    assert(out =~= (n + h + n + x1 + n) + x2 + (n + x3));
    assert(out =~= (n + h + n + x1 + n + x2 + n) + x3 + Seq::<char>::empty());
    lemma_line_in(n, h, n + x1 + n + x2 + n + x3);
    lemma_line_in(n + h + n, x1, n + x2 + n + x3);
    lemma_line_in(n + h + n + x1 + n, x2, n + x3);
    lemma_line_in(n + h + n + x1 + n + x2 + n, x3, Seq::<char>::empty());
    let a = 1int;
    let b = (n + h + n).len() as int;
    let c = (n + h + n + x1 + n).len() as int;
    let d = (n + h + n + x1 + n + x2 + n).len() as int;
    assert(line_at(out, a, h));
    assert(line_at(out, b, x1));
    assert(line_at(out, c, x2));
    assert(line_at(out, d, x3));
    assert(out[0] == '\n');
}

/// A point of the long format is three lines, in this order: its number
/// `points [k]:`, then `number = ` and its time, and `mark = ` and its quoted
/// mark; the piece begins a new line.
pub proof fn law_long_point_lines(pt: PointModel<Seq<char>>, k: nat)
    ensures
        long_point(pt, k)[0] == '\n',
        exists|a: int, b: int, c: int|
            #![trigger line_at(long_point(pt, k), a, "        points ["@ + decimal(k) + "]:"@), line_at(long_point(pt, k), b, "            number = "@ + pt.number), line_at(long_point(pt, k), c, "            mark = "@ + quoted(pt.mark))]
            a < b < c
            && line_at(long_point(pt, k), a, "        points ["@ + decimal(k) + "]:"@)
            && line_at(long_point(pt, k), b, "            number = "@ + pt.number)
            && line_at(long_point(pt, k), c, "            mark = "@ + quoted(pt.mark)),
{
    reveal_strlit("\n        points [");
    reveal_strlit("        points [");
    reveal_strlit("]:\n            number = ");
    reveal_strlit("]:");
    reveal_strlit("            number = ");
    reveal_strlit("\n            mark = ");
    reveal_strlit("            mark = ");
    let n = seq!['\n'];
    assert("\n        points ["@ =~= n + "        points ["@);
    assert("]:\n            number = "@ =~= "]:"@ + n + "            number = "@);
    assert("\n            mark = "@ =~= n + "            mark = "@);
    let h = "        points ["@ + decimal(k) + "]:"@;
    let x1 = "            number = "@ + pt.number;
    let x2 = "            mark = "@ + quoted(pt.mark);
    let out = long_point(pt, k);
    assert(out =~= n + h + (n + x1 + n + x2));
    assert(out =~= (n + h + n) + x1 + (n + x2));
    assert(out =~= (n + h + n + x1 + n) + x2 + Seq::<char>::empty());
    lemma_line_in(n, h, n + x1 + n + x2);
    lemma_line_in(n + h + n, x1, n + x2);
    lemma_line_in(n + h + n + x1 + n, x2, Seq::<char>::empty());
    let b = (n + h + n).len() as int;
    let c = (n + h + n + x1 + n).len() as int;
    assert(line_at(out, 1, h));
    assert(line_at(out, b, x1));
    assert(line_at(out, c, x2));
    assert(out[0] == '\n');
}

/// The fields of a tier of the long format are three lines, in this order:
/// `name = ` and its quoted name, `xmin = ` and its start, and `xmax = ` and
/// its end; the piece begins a new line.
pub proof fn law_long_tier_field_lines(name: Seq<char>, xmin: Seq<char>, xmax: Seq<char>)
    ensures
        long_tier_fields(name, xmin, xmax)[0] == '\n',
        exists|a: int, b: int, c: int|
            #![trigger line_at(long_tier_fields(name, xmin, xmax), a, "        name = "@ + quoted(name)), line_at(long_tier_fields(name, xmin, xmax), b, "        xmin = "@ + xmin), line_at(long_tier_fields(name, xmin, xmax), c, "        xmax = "@ + xmax)]
            a < b < c
            && line_at(long_tier_fields(name, xmin, xmax), a, "        name = "@ + quoted(name))
            && line_at(long_tier_fields(name, xmin, xmax), b, "        xmin = "@ + xmin)
            && line_at(long_tier_fields(name, xmin, xmax), c, "        xmax = "@ + xmax),
{
    reveal_strlit("\n        name = ");
    reveal_strlit("        name = ");
    reveal_strlit("\n        xmin = ");
    reveal_strlit("        xmin = ");
    reveal_strlit("\n        xmax = ");
    reveal_strlit("        xmax = ");
    let n = seq!['\n'];
    assert("\n        name = "@ =~= n + "        name = "@);
    assert("\n        xmin = "@ =~= n + "        xmin = "@);
    assert("\n        xmax = "@ =~= n + "        xmax = "@);
    let x0 = "        name = "@ + quoted(name);
    let x1 = "        xmin = "@ + xmin;
    let x2 = "        xmax = "@ + xmax;
    let out = long_tier_fields(name, xmin, xmax);
    assert(out =~= n + x0 + (n + x1 + n + x2));
    assert(out =~= (n + x0 + n) + x1 + (n + x2));
    assert(out =~= (n + x0 + n + x1 + n) + x2 + Seq::<char>::empty());
    lemma_line_in(n, x0, n + x1 + n + x2);
    lemma_line_in(n + x0 + n, x1, n + x2);
    lemma_line_in(n + x0 + n + x1 + n, x2, Seq::<char>::empty());
    let b = (n + x0 + n).len() as int;
    let c = (n + x0 + n + x1 + n).len() as int;
    assert(line_at(out, 1, x0));
    assert(line_at(out, b, x1));
    assert(line_at(out, c, x2));
    assert(out[0] == '\n');
}

/// The long format of a TextGrid gives its time domain and its tier count on
/// lines of their own, in this order: `xmin = ` and its start, `xmax = ` and
/// its end, and `size = ` and the number of tiers.
pub proof fn law_long_header_lines(g: GridModel<Seq<char>>)
    ensures
        exists|a: int, b: int, c: int|
            #![trigger line_at(long_text(g), a, "xmin = "@ + g.xmin), line_at(long_text(g), b, "xmax = "@ + g.xmax), line_at(long_text(g), c, "size = "@ + decimal(g.tiers.len()))]
            a < b < c
            && line_at(long_text(g), a, "xmin = "@ + g.xmin)
            && line_at(long_text(g), b, "xmax = "@ + g.xmax)
            && line_at(long_text(g), c, "size = "@ + decimal(g.tiers.len())),
{
    reveal(long_text);
    reveal_strlit("\n\nxmin = ");
    reveal_strlit("xmin = ");
    reveal_strlit("\nxmax = ");
    reveal_strlit("xmax = ");
    reveal_strlit("\ntiers? ");
    reveal_strlit("\nsize = ");
    reveal_strlit("size = ");
    reveal_strlit("\nitem []:");
    let n = seq!['\n'];
    let pre = "File type = "@ + quoted("ooTextFile"@) + "\nObject class = "@ + quoted("TextGrid"@);
    let x1 = "xmin = "@ + g.xmin;
    let x2 = "xmax = "@ + g.xmax;
    let x3 = "size = "@ + decimal(g.tiers.len());
    let mid = "\ntiers? "@ + "<exists>"@;
    let post = "\nitem []:"@ + long_tiers(g.tiers, 0) + "\n"@;
    assert("\n\nxmin = "@ =~= n + n + "xmin = "@);
    assert("\nxmax = "@ =~= n + "xmax = "@);
    assert("\nsize = "@ =~= n + "size = "@);
    assert(mid[0] == '\n');
    assert(post[0] == '\n');
    let out = long_text(g);
    let p1 = pre + n + n;
    let p2 = p1 + x1 + n;
    let p3 = p2 + x2 + mid + n;
    assert(out =~= p1 + x1 + (n + x2 + mid + n + x3 + post));
    assert(out =~= p2 + x2 + (mid + n + x3 + post));
    assert(out =~= p3 + x3 + post);
    lemma_line_in(p1, x1, n + x2 + mid + n + x3 + post);
    lemma_line_in(p2, x2, mid + n + x3 + post);
    lemma_line_in(p3, x3, post);
    assert(line_at(out, p1.len() as int, x1));
    assert(line_at(out, p2.len() as int, x2));
    assert(line_at(out, p3.len() as int, x3));
}

} // verus!
