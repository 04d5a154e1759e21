//! Builders for simple bilevel test images, each line described as runs of
//! one color; writing the images to disk is left to the caller.
use vstd::prelude::*;

use crate::ppm::BW;
use crate::ppm::PPM;

verus! {

/// One row described as runs: each chunk contributes `count` copies of its
/// color, in order.
pub open spec fn expand_chunks(chunks: Seq<(BW, usize)>) -> Seq<BW>
    decreases chunks.len(),
{
    if chunks.len() == 0 {
        Seq::empty()
    } else {
        Seq::new(chunks[0].1 as nat, |i: int| chunks[0].0) + expand_chunks(chunks.skip(1))
    }
}

/// The rows of an image laid end to end.
pub open spec fn concat_rows(rows: Seq<Seq<BW>>) -> Seq<BW>
    decreases rows.len(),
{
    if rows.len() == 0 {
        Seq::empty()
    } else {
        rows[0] + concat_rows(rows.skip(1))
    }
}

proof fn lemma_concat_rows_len(rows: Seq<Seq<BW>>, w: nat)
    requires
        forall|i: int| 0 <= i < rows.len() ==> #[trigger] rows[i].len() == w,
    ensures
        concat_rows(rows).len() == rows.len() * w,
    decreases rows.len(),
{
    if rows.len() > 0 {
        lemma_concat_rows_len(rows.skip(1), w);
        assert(concat_rows(rows).len() == w + (rows.len() - 1) * w);
        assert(w + (rows.len() - 1) * w == rows.len() * w) by (nonlinear_arith);
    }
}

/// Lay a vector of rows end to end into one pixel vector.
pub fn flatten(data: Vec<Vec<BW>>) -> (r: Vec<BW>)
    ensures
        r@ == concat_rows(data@.map_values(|v: Vec<BW>| v@)),
{
    let ghost rows = data@.map_values(|v: Vec<BW>| v@);
    let mut r: Vec<BW> = Vec::new();
    let mut i: usize = 0;
    proof {
        assert(rows.skip(0) =~= rows);
        assert(Seq::<BW>::empty() + concat_rows(rows) =~= concat_rows(rows));
    }
    while i < data.len()
        invariant
            i <= data@.len(),
            rows == data@.map_values(|v: Vec<BW>| v@),
            r@ + concat_rows(rows.skip(i as int)) == concat_rows(rows),
        decreases data@.len() - i,
    {
        let ghost before = r@;
        let row = &data[i];
        let mut j: usize = 0;
        while j < row.len()
            invariant
                j <= row@.len(),
                r@ == before + row@.take(j as int),
            decreases row@.len() - j,
        {
            r.push(row[j]);
            proof {
                assert(before + row@.take(j + 1) =~= (before + row@.take(j as int)).push(
                    row@[j as int],
                ));
            }
            j = j + 1;
        }
        proof {
            assert(row@.take(row@.len() as int) =~= row@);
            assert(rows.skip(i as int).skip(1) =~= rows.skip(i as int + 1));
            assert((before + rows[i as int]) + concat_rows(rows.skip(i as int + 1)) =~= before + (
            rows[i as int] + concat_rows(rows.skip(i as int + 1))));
        }
        i = i + 1;
    }
    proof {
        assert(rows.skip(rows.len() as int) =~= Seq::<Seq<BW>>::empty());
        assert(r@ + Seq::<BW>::empty() =~= r@);
    }
    r
}

/// Expand one run-described row into its pixels.
fn expand_row(chunks: &Vec<(BW, usize)>) -> (r: Vec<BW>)
    ensures
        r@ == expand_chunks(chunks@),
{
    let mut r: Vec<BW> = Vec::new();
    let mut i: usize = 0;
    proof {
        assert(chunks@.skip(0) =~= chunks@);
        assert(Seq::<BW>::empty() + expand_chunks(chunks@) =~= expand_chunks(chunks@));
    }
    while i < chunks.len()
        invariant
            i <= chunks@.len(),
            r@ + expand_chunks(chunks@.skip(i as int)) == expand_chunks(chunks@),
        decreases chunks@.len() - i,
    {
        let ghost before = r@;
        let (color, count) = chunks[i];
        let mut j: usize = 0;
        while j < count
            invariant
                j <= count,
                (color, count) == chunks@[i as int],
                r@ == before + Seq::new(j as nat, |k: int| color),
            decreases count - j,
        {
            r.push(color);
            proof {
                assert(before + Seq::new((j + 1) as nat, |k: int| color) =~= (before + Seq::new(
                    j as nat,
                    |k: int| color,
                )).push(color));
            }
            j = j + 1;
        }
        proof {
            assert(chunks@.skip(i as int).skip(1) =~= chunks@.skip(i as int + 1));
            assert((before + Seq::new(count as nat, |k: int| color)) + expand_chunks(
                chunks@.skip(i as int + 1),
            ) =~= before + (Seq::new(count as nat, |k: int| color) + expand_chunks(
                chunks@.skip(i as int + 1),
            )));
        }
        i = i + 1;
    }
    proof {
        assert(chunks@.skip(chunks@.len() as int) =~= Seq::<(BW, usize)>::empty());
        assert(r@ + Seq::<BW>::empty() =~= r@);
    }
    r
}

/// The expanded rows of a run-described test case.
pub open spec fn testcase_rows(lines: Seq<Seq<(BW, usize)>>) -> Seq<Seq<BW>> {
    lines.map_values(|c: Seq<(BW, usize)>| expand_chunks(c))
}

/// A run-described test case makes an image: at least one row, all rows of
/// one length, and the dimensions and pixel count within the image type's
/// range.
pub open spec fn testcase_ok(lines: Seq<Seq<(BW, usize)>>) -> bool {
    let rows = testcase_rows(lines);
    &&& lines.len() > 0
    &&& forall|i: int| 0 <= i < rows.len() ==> #[trigger] rows[i].len() == rows[0].len()
    &&& lines.len() <= u32::MAX
    &&& rows[0].len() <= u32::MAX
    &&& lines.len() * rows[0].len() <= u32::MAX
}

/// Build the image of one multi-line test case from rows described as runs.
/// Yields nothing when no row is given, when the rows' expanded lengths
/// disagree, or when a dimension or the pixel count exceeds the image type's
/// range.
pub fn multiline_testcase(lines: Vec<Vec<(BW, usize)>>) -> (r: Option<PPM>)
    ensures
        r is Some <==> testcase_ok(lines@.map_values(|v: Vec<(BW, usize)>| v@)),
        r matches Some(p) ==> {
            let rows = testcase_rows(lines@.map_values(|v: Vec<(BW, usize)>| v@));
            &&& p.height == lines@.len()
            &&& p.width == rows[0].len()
            &&& p.data@ == concat_rows(rows)
            &&& p.wf()
        },
{
    let ghost ls = lines@.map_values(|v: Vec<(BW, usize)>| v@);
    let ghost rows_spec = testcase_rows(ls);
    if lines.len() == 0 {
        return None;
    }
    let mut rows: Vec<Vec<BW>> = Vec::new();
    let mut i: usize = 0;
    while i < lines.len()
        invariant
            i <= lines@.len(),
            rows@.len() == i,
            ls == lines@.map_values(|v: Vec<(BW, usize)>| v@),
            rows_spec == testcase_rows(ls),
            forall|j: int| 0 <= j < i ==> #[trigger] rows@[j]@ == rows_spec[j],
        decreases lines@.len() - i,
    {
        let row = expand_row(&lines[i]);
        rows.push(row);
        i = i + 1;
    }
    let w: usize = rows[0].len();
    let mut k: usize = 1;
    while k < rows.len()
        invariant
            1 <= k <= rows@.len(),
            rows@.len() == lines@.len(),
            w == rows_spec[0].len(),
            forall|j: int| 0 <= j < rows@.len() ==> #[trigger] rows@[j]@ == rows_spec[j],
            forall|j: int| 0 <= j < k ==> #[trigger] rows_spec[j].len() == rows_spec[0].len(),
        decreases rows@.len() - k,
    {
        if rows[k].len() != w {
            return None;
        }
        k = k + 1;
    }
    if lines.len() > u32::MAX as usize {
        return None;
    }
    if w > u32::MAX as usize {
        return None;
    }
    let h32: u32 = lines.len() as u32;
    let w32: u32 = w as u32;
    proof {
        assert((h32 as int) * (w32 as int) <= 0xffffffff * 0xffffffff) by (nonlinear_arith)
            requires
                h32 <= 0xffffffffu32,
                w32 <= 0xffffffffu32,
        ;
    }
    if (h32 as u64) * (w32 as u64) > u32::MAX as u64 {
        return None;
    }
    proof {
        lemma_concat_rows_len(rows_spec, w as nat);
        assert(rows@.map_values(|v: Vec<BW>| v@) =~= rows_spec);
    }
    let data = flatten(rows);
    Some(PPM::from_data(h32, w32, data))
}

/// A one-line all-white test image.
pub fn l1_white(len: u32) -> (r: PPM)
    ensures
        r.height == 1,
        r.width == len,
        r.data@ == Seq::new(len as nat, |i: int| BW::W),
        r.wf(),
{
    proof {
        assert(1 * len == len) by (nonlinear_arith);
    }
    PPM::new(1, len)
}

/// A one-line all-black test image.
pub fn l1_black(len: u32) -> (r: PPM)
    ensures
        r.height == 1,
        r.width == len,
        r.data@ == Seq::new(len as nat, |i: int| BW::B),
        r.wf(),
{
    let mut data: Vec<BW> = Vec::new();
    let mut i: u32 = 0;
    while i < len
        invariant
            i <= len,
            data@ == Seq::new(i as nat, |j: int| BW::B),
        decreases len - i,
    {
        data.push(BW::B);
        proof {
            assert(data@ =~= Seq::new((i + 1) as nat, |j: int| BW::B));
        }
        i = i + 1;
    }
    proof {
        assert(1 * len == len) by (nonlinear_arith);
    }
    PPM::from_data(1, len, data)
}

/// A one-line test image of a white run followed by a black run.
pub fn l1_white_black(white: u32, black: u32) -> (r: PPM)
    requires
        white + black <= u32::MAX,
    ensures
        r.height == 1,
        r.width == white + black,
        r.data@ == Seq::new(white as nat, |i: int| BW::W) + Seq::new(black as nat, |i: int| BW::B),
        r.wf(),
{
    let mut data: Vec<BW> = Vec::new();
    let mut i: u32 = 0;
    while i < white
        invariant
            i <= white,
            data@ == Seq::new(i as nat, |j: int| BW::W),
        decreases white - i,
    {
        data.push(BW::W);
        proof {
            assert(data@ =~= Seq::new((i + 1) as nat, |j: int| BW::W));
        }
        i = i + 1;
    }
    let mut k: u32 = 0;
    while k < black
        invariant
            k <= black,
            data@ == Seq::new(white as nat, |j: int| BW::W) + Seq::new(k as nat, |j: int| BW::B),
        decreases black - k,
    {
        data.push(BW::B);
        proof {
            assert(data@ =~= Seq::new(white as nat, |j: int| BW::W) + Seq::new(
                (k + 1) as nat,
                |j: int| BW::B,
            ));
        }
        k = k + 1;
    }
    proof {
        assert(1 * (white + black) == white + black) by (nonlinear_arith);
    }
    PPM::from_data(1, white + black, data)
}

} // verus!
