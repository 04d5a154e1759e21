//! The line decoders: the pixel expander, the Group 3 (one-dimensional) line
//! decoder, and the two Group 4 (two-dimensional MMR) decoders with their
//! reference-line transition lookup (the "b1/b2" rule).
use vstd::prelude::*;

use crate::Color;
use crate::bits::BitCursor;
use crate::bits::bits_val;
use crate::bits::stream_len;
use crate::bits::stream_bit;
use crate::codes::RunScan;
use crate::codes::colored;
use crate::codes::decode_mode;
use crate::codes::lemma_run_from_bounds;
use crate::codes::lemma_run_from_frame;
use crate::codes::lemma_scan_mode_bounds;
use crate::codes::lemma_scan_mode_frame;
use crate::codes::run_from;
use crate::codes::scan_mode;
use crate::tables::Mode;
use crate::transitions::Transitions;
use crate::transitions::spec_next_color;
use crate::transitions::spec_seek_back;

verus! {

// ---------------------------------------------------------------------------
// Pixel expansion
// ---------------------------------------------------------------------------
/// The pixels a change list emits: starting in `color` at position `last`,
/// each entry `p` appends `p - last` pixels (none when `p` lies at or before
/// `last`) of the current color, then flips the color.
pub open spec fn emit(line: Seq<u16>, color: Color, last: u16) -> Seq<Color>
    decreases line.len(),
{
    if line.len() == 0 {
        Seq::empty()
    } else {
        let p = line[0];
        let n: nat = if p >= last {
            (p - last) as nat
        } else {
            0
        };
        Seq::new(n, |i: int| color) + emit(line.skip(1), color.spec_flip(), p)
    }
}

/// The color that pads a line past its change list: each transition flips the
/// color, so an even list length pads White and an odd one pads Black.
pub open spec fn pad_color(line: Seq<u16>) -> Color {
    if line.len() % 2 == 1 {
        Color::Black
    } else {
        Color::White
    }
}

/// The row of exactly `width` pixel colors that a change list describes:
/// the emitted pixels, truncated or padded with the parity color to `width`.
pub open spec fn spec_pels(line: Seq<u16>, width: nat) -> Seq<Color> {
    let e = emit(line, Color::White, 0);
    if e.len() >= width {
        e.take(width as int)
    } else {
        e + Seq::new((width - e.len()) as nat, |i: int| pad_color(line))
    }
}

/// The row a partially expanded line will still become: the pixels already
/// produced, the pixels the remaining entries emit, then truncation or
/// padding to `width`.
pub open spec fn pels_rest(
    acc: Seq<Color>,
    rest: Seq<u16>,
    color: Color,
    last: u16,
    width: nat,
    pad: Color,
) -> Seq<Color> {
    let e = acc + emit(rest, color, last);
    if e.len() >= width {
        e.take(width as int)
    } else {
        e + Seq::new((width - e.len()) as nat, |i: int| pad)
    }
}

proof fn lemma_pels_rest_full(
    acc: Seq<Color>,
    rest: Seq<u16>,
    color: Color,
    last: u16,
    width: nat,
    pad: Color,
)
    requires
        acc.len() >= width,
    ensures
        pels_rest(acc, rest, color, last, width, pad) == acc.take(width as int),
{
    assert((acc + emit(rest, color, last)).take(width as int) =~= acc.take(width as int));
}

/// Turn a list of color-change positions into the row of pixel colors of one
/// line. The row holds exactly `width` colors, starting White at position 0.
#[verifier::rlimit(60)]
pub fn pels(line: &Vec<u16>, width: u16) -> (r: Vec<Color>)
    ensures
        r@ == spec_pels(line@, width as nat),
{
    let pad = if line.len() % 2 == 1 {
        Color::Black
    } else {
        Color::White
    };
    let mut out: Vec<Color> = Vec::new();
    let mut color = Color::White;
    let mut last: u16 = 0;
    let mut idx: usize = 0;
    proof {
        assert(line@.skip(0) =~= line@);
        assert(Seq::<Color>::empty() + emit(line@, Color::White, 0) =~= emit(
            line@,
            Color::White,
            0,
        ));
    }
    while idx < line.len() && out.len() < width as usize
        invariant
            idx <= line@.len(),
            out@.len() <= width,
            pad == pad_color(line@),
            spec_pels(line@, width as nat) == pels_rest(
                out@,
                line@.skip(idx as int),
                color,
                last,
                width as nat,
                pad,
            ),
        decreases line@.len() - idx,
    {
        let p = line[idx];
        let n: u16 = if p >= last {
            p - last
        } else {
            0
        };
        proof {
            assert(line@.skip(idx as int).skip(1) =~= line@.skip(idx as int + 1));
            assert(emit(line@.skip(idx as int), color, last) == Seq::new(n as nat, |i: int| color)
                + emit(line@.skip(idx as int + 1), color.spec_flip(), p));
        }
        let mut k: u16 = 0;
        while k < n && out.len() < width as usize
            invariant
                k <= n,
                out@.len() <= width,
                spec_pels(line@, width as nat) == pels_rest(
                    out@ + Seq::new((n - k) as nat, |i: int| color),
                    line@.skip(idx as int + 1),
                    color.spec_flip(),
                    p,
                    width as nat,
                    pad,
                ),
            decreases n - k,
        {
            proof {
                assert(out@ + Seq::new((n - k) as nat, |i: int| color) =~= (out@.push(color)
                    + Seq::new((n - k - 1) as nat, |i: int| color)));
            }
            out.push(color);
            k = k + 1;
        }
        proof {
            if k < n {
                // the row is full: both the pending copies and everything
                // after them lie past the truncation point
                lemma_pels_rest_full(
                    out@ + Seq::new((n - k) as nat, |i: int| color),
                    line@.skip(idx as int + 1),
                    color.spec_flip(),
                    p,
                    width as nat,
                    pad,
                );
                lemma_pels_rest_full(
                    out@,
                    line@.skip(idx as int + 1),
                    color.spec_flip(),
                    p,
                    width as nat,
                    pad,
                );
                assert((out@ + Seq::new((n - k) as nat, |i: int| color)).take(width as int)
                    =~= out@.take(width as int));
            } else {
                assert(out@ + Seq::new(0nat, |i: int| color) =~= out@);
            }
        }
        color = color.flip();
        last = p;
        idx = idx + 1;
    }
    proof {
        if idx == line@.len() {
            assert(line@.skip(idx as int) =~= Seq::<u16>::empty());
        } else {
            lemma_pels_rest_full(
                out@,
                line@.skip(idx as int),
                color,
                last,
                width as nat,
                pad,
            );
            assert(out@.take(width as int) =~= out@);
        }
    }
    while out.len() < width as usize
        invariant
            out@.len() <= width,
            spec_pels(line@, width as nat) == pels_rest(
                out@,
                Seq::<u16>::empty(),
                color,
                last,
                width as nat,
                pad,
            ),
        decreases width as int - out@.len(),
    {
        proof {
            assert(out@ + emit(Seq::<u16>::empty(), color, last) =~= out@);
            assert(out@.push(pad) + emit(Seq::<u16>::empty(), color, last) =~= out@.push(pad));
            assert(out@ + Seq::new((width - out@.len()) as nat, |i: int| pad) =~= out@.push(pad)
                + Seq::new((width - out@.len() - 1) as nat, |i: int| pad));
        }
        out.push(pad);
    }
    proof {
        assert(out@ + emit(Seq::<u16>::empty(), color, last) =~= out@);
        assert(out@.take(out@.len() as int) =~= out@);
    }
    out
}

/// Number of change positions at or before pixel `i`.
pub open spec fn flips_before(line: Seq<u16>, i: int) -> nat
    decreases line.len(),
{
    if line.len() == 0 {
        0
    } else {
        (if line[0] <= i {
            1nat
        } else {
            0nat
        }) + flips_before(line.skip(1), i)
    }
}

/// The color of pixel `i` under a change list: White, flipped once for each
/// change position at or before `i`.
pub open spec fn color_at(line: Seq<u16>, i: int) -> Color {
    if flips_before(line, i) % 2 == 0 {
        Color::White
    } else {
        Color::Black
    }
}

proof fn lemma_flips_before_none(line: Seq<u16>, x: int)
    requires
        forall|j: int| 0 <= j < line.len() ==> line[j] > x,
    ensures
        flips_before(line, x) == 0,
    decreases line.len(),
{
    if line.len() > 0 {
        lemma_flips_before_none(line.skip(1), x);
    }
}

proof fn lemma_flips_before_all(line: Seq<u16>, x: int)
    requires
        forall|j: int| 0 <= j < line.len() ==> line[j] <= x,
    ensures
        flips_before(line, x) == line.len(),
    decreases line.len(),
{
    if line.len() > 0 {
        lemma_flips_before_all(line.skip(1), x);
    }
}

proof fn lemma_emit_sorted(line: Seq<u16>, color: Color, last: u16)
    requires
        forall|j: int, k: int| 0 <= j < k < line.len() ==> line[j] < line[k],
        forall|j: int| 0 <= j < line.len() ==> last <= line[j],
    ensures
        emit(line, color, last).len() == if line.len() == 0 {
            0int
        } else {
            line[line.len() - 1] - last
        },
        forall|i: int|
            0 <= i < emit(line, color, last).len() ==> emit(line, color, last)[i] == (if
            flips_before(line, last + i) % 2 == 0 {
                color
            } else {
                color.spec_flip()
            }),
    decreases line.len(),
{
    if line.len() > 0 {
        let p = line[0];
        let n: nat = (p - last) as nat;
        let rest = line.skip(1);
        lemma_emit_sorted(rest, color.spec_flip(), p);
        assert forall|i: int| 0 <= i < emit(line, color, last).len() implies emit(
            line,
            color,
            last,
        )[i] == (if flips_before(line, last + i) % 2 == 0 {
            color
        } else {
            color.spec_flip()
        }) by {
            if i < n {
                lemma_flips_before_none(line, last + i);
            } else {
                assert(emit(line, color, last)[i] == emit(rest, color.spec_flip(), p)[i - n]);
                assert(p + (i - n) == last + i);
            }
        }
    }
}

/// Law: the pixel expander yields a row of exactly `width` colors for every
/// change list and width, well- or ill-formed.
pub proof fn lemma_pels_len(line: Seq<u16>, width: nat)
    ensures
        spec_pels(line, width).len() == width,
{
}

/// Law: for a strictly increasing change list whose entries lie at or below
/// `width`, the expanded row holds exactly `width` pixels and the color of
/// pixel `i` is White flipped once per change position at or before `i` — the
/// row starts White (until the first listed position) and flips its color
/// exactly at the listed positions, and the run lengths sum to `width`.
pub proof fn lemma_pels_law(line: Seq<u16>, width: nat)
    requires
        forall|j: int, k: int| 0 <= j < k < line.len() ==> line[j] < line[k],
        forall|j: int| 0 <= j < line.len() ==> line[j] <= width,
    ensures
        spec_pels(line, width).len() == width,
        forall|i: int| 0 <= i < width ==> spec_pels(line, width)[i] == color_at(line, i),
{
    lemma_emit_sorted(line, Color::White, 0);
    let e = emit(line, Color::White, 0);
    assert forall|i: int| 0 <= i < width implies spec_pels(line, width)[i] == color_at(
        line,
        i,
    ) by {
        if i < e.len() {
            assert(spec_pels(line, width)[i] == e[i]);
        } else {
            lemma_flips_before_all(line, i);
        }
    }
}

// ---------------------------------------------------------------------------
// The reference-line lookup rule ("b1/b2")
// ---------------------------------------------------------------------------
/// First index at or after `i` whose parity equals `target` (an even index is
/// a transition to Black, an odd one to White) and whose position lies
/// strictly right of `a0`.
pub open spec fn find_b1_index(t: Seq<u16>, target: int, a0: u16, i: int) -> Option<int>
    decreases t.len() - i,
{
    if i < 0 || i >= t.len() {
        None
    } else if i % 2 == target && t[i] > a0 {
        Some(i)
    } else {
        find_b1_index(t, target, a0, i + 1)
    }
}

/// The found index is the first qualifying one at or after `i`.
pub proof fn lemma_find_b1_first(t: Seq<u16>, target: int, a0: u16, i: int)
    requires
        0 <= i,
    ensures
        find_b1_index(t, target, a0, i) matches Some(j) ==> i <= j < t.len() && j % 2 == target
            && t[j] > a0 && forall|k: int| i <= k < j ==> !(k % 2 == target && t[k] > a0),
        find_b1_index(t, target, a0, i) is None ==> forall|k: int|
            i <= k < t.len() ==> !(k % 2 == target && t[k] > a0),
    decreases t.len() - i,
{
    if i < t.len() && !(i % 2 == target && t[i] > a0) {
        lemma_find_b1_first(t, target, a0, i + 1);
    }
}

/// The reference-line lookup rule: `b1` is the first changing element on the
/// reference line strictly right of `a0` whose color is opposite to `color`,
/// and `b2` is the next element after it (or `b1` itself when the line ends
/// there). A reference line holding only its end sentinel answers that
/// sentinel twice; at the start of a row (`a0` still on the imaginary
/// pre-pixel) with the reference's first transition at position 0 and coding
/// color White, the first two transitions answer directly. An empty reference
/// line, or one with no qualifying transition, has no answer.
pub open spec fn spec_b1_b2(t: Seq<u16>, color: Color, a0: u16) -> Option<(u16, u16)> {
    if t.len() == 1 {
        Some((t[0], t[0]))
    } else if t.len() >= 2 && a0 == 0 && t[0] == 0 && color == Color::White {
        Some((t[0], t[1]))
    } else {
        let target: int = if color == Color::White {
            0
        } else {
            1
        };
        match find_b1_index(t, target, a0, 0) {
            Some(i) => Some(
                (
                    t[i],
                    if i + 1 == t.len() {
                        t[i]
                    } else {
                        t[i + 1]
                    },
                ),
            ),
            None => None,
        }
    }
}

/// Find `b1` and `b2` on a reference line per the lookup rule above.
pub fn get_b1_b2(transitions: &Vec<u16>, color: Color, a0: u16) -> (r: Option<(u16, u16)>)
    ensures
        r == spec_b1_b2(transitions@, color, a0),
{
    if transitions.len() == 1 {
        return Some((transitions[0], transitions[0]));
    }
    if transitions.len() >= 2 && a0 == 0 && color == Color::White {
        if transitions[0] == 0 {
            return Some((transitions[0], transitions[1]));
        }
    }
    let target: usize = if color == Color::White {
        0
    } else {
        1
    };
    let mut idx: usize = 0;
    while idx < transitions.len()
        invariant
            idx <= transitions@.len(),
            find_b1_index(transitions@, target as int, a0, 0) == find_b1_index(
                transitions@,
                target as int,
                a0,
                idx as int,
            ),
        decreases transitions@.len() - idx,
    {
        if idx % 2 == target && transitions[idx] > a0 {
            let idx2: usize = if idx + 1 == transitions.len() {
                idx
            } else {
                idx + 1
            };
            return Some((transitions[idx], transitions[idx2]));
        }
        idx = idx + 1;
    }
    None
}

/// Law: a reference line holding only its end sentinel — no transition before
/// the image width, the whole line one color — yields b1 = b2 = that
/// sentinel, whatever the coding color and position.
pub proof fn lemma_b1_b2_sentinel(w: u16, color: Color, a0: u16)
    ensures
        spec_b1_b2(seq![w], color, a0) == Some((w, w)),
{
}

/// Law: at the start of a row (`a0` at the imaginary pre-pixel position 0)
/// with the reference line's first transition exactly at position 0 and the
/// coding color White, b1 and b2 resolve to the reference's first two
/// transitions directly, bypassing the opposite-color scan.
pub proof fn lemma_b1_b2_start_of_row(t: Seq<u16>)
    requires
        t.len() >= 2,
        t[0] == 0,
    ensures
        spec_b1_b2(t, Color::White, 0) == Some((t[0], t[1])),
{
}

// ---------------------------------------------------------------------------
// Group 3 (one-dimensional) decoding
// ---------------------------------------------------------------------------
/// Value of the 12-bit end-of-line marker: eleven 0 bits then a 1.
pub const EOL_DATA: u16 = 1;

/// Bit-length of the end-of-line marker.
pub const EOL_LEN: u16 = 12;

/// Value of the end-of-block half-marker: the same pattern as the end-of-line
/// marker, in its block-terminating role (required twice in succession).
pub const EDFB_HALF_DATA: u16 = 1;

/// Bit-length of the end-of-block half-marker.
pub const EDFB_HALF_LEN: u16 = 12;

/// An end-of-line marker stands at `pos`.
pub open spec fn eol_at(data: Seq<u8>, pos: int) -> bool {
    pos + 12 <= stream_len(data) && bits_val(data, pos, 12) == 1
}

/// Outcome of one Group 3 line: the change positions pushed and the position
/// just past the line's last run code, or an accumulated position overflowing
/// the position type.
pub enum LineScan {
    Line(Seq<u16>, int),
    Overflow,
}

/// One Group 3 line from `pos`: alternating-color runs accumulated into
/// change positions, starting in `color` at position `a0`; the line ends at
/// the first run that fails to decode (nothing of it is consumed).
pub open spec fn g3_line(data: Seq<u8>, pos: int, color: Color, a0: int) -> LineScan
    decreases stream_len(data) - pos,
{
    match run_from(color, data, pos, 0) {
        RunScan::Fail(p) => LineScan::Line(Seq::empty(), p),
        RunScan::Done(v, e) => {
            if a0 + v > 65535 {
                LineScan::Overflow
            } else {
                proof {
                    lemma_run_from_bounds(color, data, pos, 0);
                }
                match g3_line(data, e, color.spec_flip(), a0 + v) {
                    LineScan::Overflow => LineScan::Overflow,
                    LineScan::Line(tr, end) => LineScan::Line(seq![(a0 + v) as u16] + tr, end),
                }
            }
        },
    }
}

pub proof fn lemma_g3_line_bounds(data: Seq<u8>, pos: int, color: Color, a0: int)
    ensures
        g3_line(data, pos, color, a0) matches LineScan::Line(tr, end) ==> pos <= end,
        pos <= stream_len(data) ==> (g3_line(data, pos, color, a0) matches LineScan::Line(tr, end)
            ==> end <= stream_len(data)),
    decreases stream_len(data) - pos,
{
    lemma_run_from_bounds(color, data, pos, 0);
    match run_from(color, data, pos, 0) {
        RunScan::Fail(p) => {},
        RunScan::Done(v, e) => {
            if a0 + v <= 65535 {
                lemma_g3_line_bounds(data, e, color.spec_flip(), a0 + v);
            }
        },
    }
}

/// Number of consecutive end-of-line markers at `pos`, capped at `max`.
pub open spec fn eol_count(data: Seq<u8>, pos: int, max: int) -> int
    decreases max,
{
    if max <= 0 {
        0
    } else if eol_at(data, pos) {
        1 + eol_count(data, pos + 12, max - 1)
    } else {
        0
    }
}

pub proof fn lemma_eol_count(data: Seq<u8>, pos: int, max: int)
    requires
        pos <= stream_len(data),
        0 <= max,
    ensures
        0 <= eol_count(data, pos, max) <= max,
        pos + 12 * eol_count(data, pos, max) <= stream_len(data),
    decreases max,
{
    if max > 0 && eol_at(data, pos) {
        lemma_eol_count(data, pos + 12, max - 1);
    }
}

/// The Group 3 stream from `pos` (just past an end-of-line marker): lines
/// each closed by an end-of-line marker, then up to six consecutive fill
/// markers probed — six in a row is return-to-control and ends decoding
/// successfully. A missing closing marker or an overflowing position ends
/// decoding unsuccessfully, dropping the line being built.
pub open spec fn g3_from(data: Seq<u8>, pos: int) -> (Seq<Seq<u16>>, bool)
    decreases stream_len(data) - pos,
{
    match g3_line(data, pos, Color::White, 0) {
        LineScan::Overflow => (Seq::empty(), false),
        LineScan::Line(tr, end) => {
            if !eol_at(data, end) {
                (Seq::empty(), false)
            } else {
                let p2 = end + 12;
                let k = eol_count(data, p2, 6);
                if k == 6 {
                    (seq![tr], true)
                } else {
                    proof {
                        lemma_g3_line_bounds(data, pos, Color::White, 0);
                        lemma_eol_count(data, p2, 6);
                    }
                    let r = g3_from(data, p2 + 12 * k);
                    (seq![tr] + r.0, r.1)
                }
            }
        },
    }
}

/// What Group 3 decoding yields on a byte stream: nothing but a leading
/// end-of-line marker is accepted first, then lines follow as in `g3_from`.
pub open spec fn spec_decode_g3(data: Seq<u8>) -> (Seq<Seq<u16>>, bool) {
    if eol_at(data, 0) {
        g3_from(data, 12)
    } else {
        (Seq::empty(), false)
    }
}

/// Decode a Group 3 encoded image.
///
/// Returns the decoded lines — for each line the ordered positions of color
/// change, starting with white — and a success flag: true when decoding ended
/// at a return-to-control (six consecutive end-of-line markers), false when
/// an expected marker was missing or a change position overflowed. Lines
/// completed before a failure are kept.
pub fn decode_g3(input: Vec<u8>) -> (r: (Vec<Vec<u16>>, bool))
    requires
        8 * input@.len() <= usize::MAX,
    ensures
        r.0@.map_values(|l: Vec<u16>| l@) == spec_decode_g3(input@).0,
        r.1 == spec_decode_g3(input@).1,
{
    let ghost data = input@;
    let mut reader = BitCursor::new(input);
    let mut lines: Vec<Vec<u16>> = Vec::new();
    if !reader.expect(EOL_DATA, EOL_LEN) {
        proof {
            assert(lines@.map_values(|l: Vec<u16>| l@) =~= Seq::<Seq<u16>>::empty());
        }
        return (lines, false);
    }
    loop
        invariant
            reader.wf(),
            reader.data@ == data,
            spec_decode_g3(data).0 == lines@.map_values(|l: Vec<u16>| l@) + g3_from(
                data,
                reader.pos as int,
            ).0,
            spec_decode_g3(data).1 == g3_from(data, reader.pos as int).1,
        decreases stream_len(data) - reader.pos,
    {
        let ghost line_start = reader.pos as int;
        let mut current: Vec<u16> = Vec::new();
        let mut color = Color::White;
        let mut a0: u16 = 0;
        let mut in_line = true;
        while in_line
            invariant
                reader.wf(),
                reader.data@ == data,
                reader.pos >= line_start,
                in_line ==> g3_line(data, line_start, Color::White, 0) == (match g3_line(
                    data,
                    reader.pos as int,
                    color,
                    a0 as int,
                ) {
                    LineScan::Line(tr, end) => LineScan::Line(current@ + tr, end),
                    LineScan::Overflow => LineScan::Overflow,
                }),
                !in_line ==> g3_line(data, line_start, Color::White, 0) == LineScan::Line(
                    current@,
                    reader.pos as int,
                ),
            decreases stream_len(data) - reader.pos, (if in_line {
                1int
            } else {
                0int
            }),
        {
            let ghost p = reader.pos as int;
            proof {
                lemma_run_from_bounds(color, data, p, 0);
            }
            match colored(color, &mut reader) {
                None => {
                    proof {
                        assert(current@ + Seq::<u16>::empty() =~= current@);
                    }
                    in_line = false;
                },
                Some(v) => {
                    let na: u32 = a0 as u32 + v as u32;
                    if na > 65535 {
                        proof {
                            assert(lines@.map_values(|l: Vec<u16>| l@) + Seq::<
                                Seq<u16>,
                            >::empty() =~= lines@.map_values(|l: Vec<u16>| l@));
                        }
                        return (lines, false);
                    }
                    let ghost before = current@;
                    a0 = na as u16;
                    current.push(a0);
                    color = color.flip();
                    proof {
                        match g3_line(data, reader.pos as int, color, a0 as int) {
                            LineScan::Line(tr, end) => {
                                assert(before + (seq![a0] + tr) =~= current@ + tr);
                            },
                            LineScan::Overflow => {},
                        }
                    }
                },
            }
        }
        // the line's runs are exhausted: the closing marker must follow
        if !reader.expect(EOL_DATA, EOL_LEN) {
            proof {
                assert(lines@.map_values(|l: Vec<u16>| l@) + Seq::<Seq<u16>>::empty()
                    =~= lines@.map_values(|l: Vec<u16>| l@));
            }
            return (lines, false);
        }
        let ghost lines_before = lines@;
        lines.push(current);
        proof {
            assert(lines@.map_values(|l: Vec<u16>| l@) =~= lines_before.map_values(
                |l: Vec<u16>| l@,
            ).push(lines@[lines@.len() - 1]@));
        }
        let ghost p2 = reader.pos as int;
        let mut k: u16 = 0;
        let mut more = true;
        while more && k < 6
            invariant
                reader.wf(),
                reader.data@ == data,
                reader.pos == p2 + 12 * k,
                k <= 6,
                more ==> eol_count(data, p2, 6) == k + eol_count(data, reader.pos as int, 6 - k),
                !more ==> eol_count(data, p2, 6) == k,
            decreases 6 - k, (if more {
                1int
            } else {
                0int
            }),
        {
            proof {
                crate::bits::lemma_bits_val_fits_u16(data, reader.pos as int, 12);
            }
            let mut hit = false;
            match reader.peek(12) {
                Some(v) => {
                    if v == EOL_DATA {
                        hit = true;
                    }
                },
                None => {},
            }
            if hit {
                reader.consume(12);
                k = k + 1;
            } else {
                more = false;
            }
        }
        if k == 6 {
            proof {
                match g3_from(data, line_start) {
                    (s, b) => {
                        assert(lines@.map_values(|l: Vec<u16>| l@) =~= lines_before.map_values(
                            |l: Vec<u16>| l@,
                        ) + s);
                    },
                }
            }
            return (lines, true);
        }
        proof {
            let r = g3_from(data, reader.pos as int);
            assert(lines_before.map_values(|l: Vec<u16>| l@) + (seq![
                lines@[lines@.len() - 1]@,
            ] + r.0) =~= lines@.map_values(|l: Vec<u16>| l@) + r.0);
        }
    }
}

// ---------------------------------------------------------------------------
// Group 4 (two-dimensional MMR) decoding, simple reference rescan
// ---------------------------------------------------------------------------
/// Two consecutive end-of-block half-markers stand at `pos`.
pub open spec fn edfb_ok(data: Seq<u8>, pos: int) -> bool {
    pos + 24 <= stream_len(data) && bits_val(data, pos, 12) == 1 && bits_val(data, pos + 12, 12)
        == 1
}

/// Outcome of a whole decode call: success; an ordinary format failure (a
/// mandatory code or marker missing or malformed, or a position out of the
/// position type's range); or an internal invariant violation, kept distinct
/// from format failures (the b1/b2 rule found no qualifying transition on a
/// structurally malformed reference line).
#[derive(Copy, Clone, Debug, PartialEq, Eq, Structural)]
pub enum DecodeStatus {
    Done,
    FormatError,
    InternalError,
}

/// The status of a block ending at `pos`: with the marker check enabled the
/// two end-of-block half-markers must stand there.
pub open spec fn end_status(data: Seq<u8>, pos: int, check_edfb: bool) -> DecodeStatus {
    if !check_edfb || edfb_ok(data, pos) {
        DecodeStatus::Done
    } else {
        DecodeStatus::FormatError
    }
}

/// Outcome of one Group 4 line: a completed line's change positions with the
/// position just past its last code; a benign stop (no mode code decodes, at
/// this position); an extension escape (position just past its 3-bit tail);
/// or a fatal failure of the given kind.
pub enum G4Line {
    Line(Seq<u16>, int),
    Stop(int),
    Ext(int),
    Fatal(DecodeStatus),
}

/// One Group 4 line under the rescanning b1/b2 rule, continued from a partial
/// state: mode codes are decoded and applied until the coding position
/// reaches the image width. A missing b1/b2 answer, a failing mandatory run,
/// or an out-of-range new position is fatal.
pub open spec fn g4_line(
    data: Seq<u8>,
    pos: int,
    reference: Seq<u16>,
    width: u16,
    cur: Seq<u16>,
    a0: u16,
    color: Color,
) -> G4Line
    decreases stream_len(data) - pos,
{
    match scan_mode(data, pos) {
        None => G4Line::Stop(pos),
        Some((m, e)) => {
            proof {
                lemma_scan_mode_bounds(data, pos, 1);
            }
            match m {
                Mode::Pass => match spec_b1_b2(reference, color, a0) {
                    None => G4Line::Fatal(DecodeStatus::InternalError),
                    Some((b1, b2)) => if b2 >= width {
                        G4Line::Line(cur, e)
                    } else {
                        g4_line(data, e, reference, width, cur, b2, color)
                    },
                },
                Mode::Vertical(d) => match spec_b1_b2(reference, color, a0) {
                    None => G4Line::Fatal(DecodeStatus::InternalError),
                    Some((b1, b2)) => {
                        let a1 = b1 + d;
                        if a1 < 0 || a1 > 65535 {
                            G4Line::Fatal(DecodeStatus::FormatError)
                        } else if a1 >= width {
                            G4Line::Line(cur.push(a1 as u16), e)
                        } else {
                            g4_line(
                                data,
                                e,
                                reference,
                                width,
                                cur.push(a1 as u16),
                                a1 as u16,
                                color.spec_flip(),
                            )
                        }
                    },
                },
                Mode::Horizontal => match run_from(color, data, e, 0) {
                    RunScan::Fail(p1) => G4Line::Fatal(DecodeStatus::FormatError),
                    RunScan::Done(r1, e1) => match run_from(color.spec_flip(), data, e1, 0) {
                        RunScan::Fail(p2) => G4Line::Fatal(DecodeStatus::FormatError),
                        RunScan::Done(r2, e2) => {
                            let a1 = a0 + r1;
                            let a2 = a1 + r2;
                            if a2 > 65535 {
                                G4Line::Fatal(DecodeStatus::FormatError)
                            } else if a2 >= width {
                                G4Line::Line(cur.push(a1 as u16).push(a2 as u16), e2)
                            } else {
                                proof {
                                    lemma_run_from_bounds(color, data, e, 0);
                                    lemma_run_from_bounds(color.spec_flip(), data, e1, 0);
                                }
                                g4_line(
                                    data,
                                    e2,
                                    reference,
                                    width,
                                    cur.push(a1 as u16).push(a2 as u16),
                                    a2 as u16,
                                    color,
                                )
                            }
                        },
                    },
                },
                Mode::Extension => if e + 3 <= stream_len(data) {
                    G4Line::Ext(e + 3)
                } else {
                    G4Line::Fatal(DecodeStatus::FormatError)
                },
            }
        },
    }
}

/// The Group 4 image from `pos`: up to `rows_left` lines, each becoming the
/// next line's reference; decoding ends at a benign stop or an extension
/// escape (checked for the end-of-block marker when `check_edfb` is set), or
/// unsuccessfully at a fatal line.
pub open spec fn g4_new_from(
    data: Seq<u8>,
    pos: int,
    reference: Seq<u16>,
    width: u16,
    rows_left: int,
    check_edfb: bool,
) -> (Seq<Seq<u16>>, DecodeStatus)
    decreases rows_left,
{
    if rows_left <= 0 {
        (Seq::empty(), end_status(data, pos, check_edfb))
    } else {
        match g4_line(data, pos, reference, width, Seq::empty(), 0, Color::White) {
            G4Line::Stop(p) => (Seq::empty(), end_status(data, p, check_edfb)),
            G4Line::Fatal(k) => (Seq::empty(), k),
            G4Line::Ext(p) => (Seq::empty(), end_status(data, p, check_edfb)),
            G4Line::Line(tr, p) => {
                let r = g4_new_from(data, p, tr, width, rows_left - 1, check_edfb);
                (seq![tr] + r.0, r.1)
            },
        }
    }
}

/// What Group 4 decoding yields: lines against an initial reference holding
/// only the width sentinel, bounded by `height` lines when given, else by
/// 65535 lines and a closing end-of-block marker.
pub open spec fn spec_decode_g4_new(data: Seq<u8>, width: u16, height: Option<u16>) -> (
    Seq<Seq<u16>>,
    DecodeStatus,
) {
    let limit: int = match height {
        Some(h) => h as int,
        None => 65535,
    };
    g4_new_from(data, 0, seq![width], width, limit, height is None)
}

fn copy_line(src: &Vec<u16>) -> (r: Vec<u16>)
    ensures
        r@ == src@,
{
    let mut r: Vec<u16> = Vec::new();
    let mut i: usize = 0;
    while i < src.len()
        invariant
            i <= src@.len(),
            r@ == src@.take(i as int),
        decreases src@.len() - i,
    {
        r.push(src[i]);
        proof {
            assert(r@ =~= src@.take(i + 1));
        }
        i = i + 1;
    }
    proof {
        assert(src@.take(src@.len() as int) =~= src@);
    }
    r
}

/// Expect the two end-of-block half-markers in succession.
fn expect_edfb(reader: &mut BitCursor) -> (r: bool)
    requires
        old(reader).wf(),
    ensures
        final(reader).wf(),
        final(reader).data@ == old(reader).data@,
        r == edfb_ok(old(reader).data@, old(reader).pos as int),
{
    if !reader.expect(EDFB_HALF_DATA, EDFB_HALF_LEN) {
        return false;
    }
    reader.expect(EDFB_HALF_DATA, EDFB_HALF_LEN)
}

/// Settle a block's end: with the marker check enabled (no height bound was
/// given) the end-of-block marker must stand at the cursor.
fn block_end(reader: &mut BitCursor, check_edfb: bool) -> (r: DecodeStatus)
    requires
        old(reader).wf(),
    ensures
        final(reader).wf(),
        final(reader).data@ == old(reader).data@,
        r == end_status(old(reader).data@, old(reader).pos as int, check_edfb),
{
    if check_edfb {
        if expect_edfb(reader) {
            DecodeStatus::Done
        } else {
            DecodeStatus::FormatError
        }
    } else {
        DecodeStatus::Done
    }
}

/// Decode a Group 4 image against a width-sentinel reference line.
///
/// - `width` is the width of the image.
/// - If `height` is given, at most that many lines are decoded; otherwise
///   data is decoded until the end-of-block marker, whose absence where
///   decoding stops is a fatal format error.
///
/// Returns the decoded lines — for each line the ordered positions of color
/// change, starting with white — and a status telling success, an ordinary
/// format failure, or an internal invariant violation apart; lines completed
/// before a failure are kept. To obtain the pixel colors of a line, the
/// `pels` function is provided.
#[verifier::rlimit(60)]
pub fn decode_g4_new(input: Vec<u8>, width: u16, height: Option<u16>) -> (r: (
    Vec<Vec<u16>>,
    DecodeStatus,
))
    requires
        8 * input@.len() <= usize::MAX,
    ensures
        r.0@.map_values(|l: Vec<u16>| l@) == spec_decode_g4_new(input@, width, height).0,
        r.1 == spec_decode_g4_new(input@, width, height).1,
{
    let ghost data = input@;
    let mut reader = BitCursor::new(input);
    let mut reference: Vec<u16> = Vec::new();
    reference.push(width);
    let mut lines: Vec<Vec<u16>> = Vec::new();
    let limit: u16 = match height {
        Some(h) => h,
        None => 65535,
    };
    let mut done: u16 = 0;
    proof {
        assert(reference@ =~= seq![width]);
        assert(lines@.map_values(|l: Vec<u16>| l@) =~= Seq::<Seq<u16>>::empty());
        assert(Seq::<Seq<u16>>::empty() + g4_new_from(
            data,
            0,
            seq![width],
            width,
            limit as int,
            height is None,
        ).0 =~= g4_new_from(data, 0, seq![width], width, limit as int, height is None).0);
    }
    while done < limit
        invariant
            reader.wf(),
            reader.data@ == data,
            done <= limit,
            spec_decode_g4_new(data, width, height).0 == lines@.map_values(|l: Vec<u16>| l@)
                + g4_new_from(
                data,
                reader.pos as int,
                reference@,
                width,
                limit - done,
                height is None,
            ).0,
            spec_decode_g4_new(data, width, height).1 == g4_new_from(
                data,
                reader.pos as int,
                reference@,
                width,
                limit - done,
                height is None,
            ).1,
        decreases limit - done,
    {
        let ghost refv = reference@;
        let ghost line_start = reader.pos as int;
        let mut current: Vec<u16> = Vec::new();
        let mut a0: u16 = 0;
        let mut color = Color::White;
        let mut in_line = true;
        proof {
            assert(lines@.map_values(|l: Vec<u16>| l@) + Seq::<Seq<u16>>::empty()
                =~= lines@.map_values(|l: Vec<u16>| l@));
        }
        while in_line
            invariant
                reader.wf(),
                reader.data@ == data,
                reference@ == refv,
                in_line ==> g4_line(data, line_start, refv, width, Seq::empty(), 0, Color::White)
                    == g4_line(data, reader.pos as int, refv, width, current@, a0, color),
                !in_line ==> g4_line(data, line_start, refv, width, Seq::empty(), 0, Color::White)
                    == G4Line::Line(current@, reader.pos as int),
            decreases stream_len(data) - reader.pos, (if in_line {
                1int
            } else {
                0int
            }),
        {
            let ghost p = reader.pos as int;
            proof {
                lemma_scan_mode_bounds(data, p, 1);
            }
            match decode_mode(&mut reader) {
                None => {
                    // no more mode codes: the block ends here
                    let st = block_end(&mut reader, height.is_none());
                    return (lines, st);
                },
                Some(m) => match m {
                    Mode::Pass => {
                        match get_b1_b2(&reference, color, a0) {
                            None => {
                                return (lines, DecodeStatus::InternalError);
                            },
                            Some(bb) => {
                                let b2 = bb.1;
                                a0 = b2;
                                if b2 >= width {
                                    in_line = false;
                                }
                            },
                        }
                    },
                    Mode::Vertical(delta) => {
                        match get_b1_b2(&reference, color, a0) {
                            None => {
                                return (lines, DecodeStatus::InternalError);
                            },
                            Some(bb) => {
                                let b1 = bb.0;
                                let a1i: i32 = b1 as i32 + delta as i32;
                                if a1i < 0 || a1i > 65535 {
                                    return (lines, DecodeStatus::FormatError);
                                }
                                let a1: u16 = a1i as u16;
                                current.push(a1);
                                color = color.flip();
                                a0 = a1;
                                if a1 >= width {
                                    in_line = false;
                                }
                            },
                        }
                    },
                    Mode::Horizontal => {
                        let ghost e = reader.pos as int;
                        proof {
                            lemma_run_from_bounds(color, data, e, 0);
                        }
                        let r1 = match colored(color, &mut reader) {
                            Some(x) => x,
                            None => {
                                return (lines, DecodeStatus::FormatError);
                            },
                        };
                        let ghost e1 = reader.pos as int;
                        proof {
                            lemma_run_from_bounds(color.spec_flip(), data, e1, 0);
                        }
                        let r2 = match colored(color.flip(), &mut reader) {
                            Some(x) => x,
                            None => {
                                return (lines, DecodeStatus::FormatError);
                            },
                        };
                        let a1: u32 = a0 as u32 + r1 as u32;
                        let a2: u32 = a1 + r2 as u32;
                        if a2 > 65535 {
                            return (lines, DecodeStatus::FormatError);
                        }
                        current.push(a1 as u16);
                        current.push(a2 as u16);
                        a0 = a2 as u16;
                        if a0 >= width {
                            in_line = false;
                        }
                    },
                    Mode::Extension => {
                        match reader.peek(3) {
                            None => {
                                return (lines, DecodeStatus::FormatError);
                            },
                            Some(_) => {
                                reader.consume(3);
                                let st = block_end(&mut reader, height.is_none());
                                return (lines, st);
                            },
                        }
                    },
                },
            }
        }
        // the line is complete and becomes the reference of the next one
        let ghost lines_before = lines@;
        reference = copy_line(&current);
        lines.push(current);
        done = done + 1;
        proof {
            assert(lines@.map_values(|l: Vec<u16>| l@) =~= lines_before.map_values(
                |l: Vec<u16>| l@,
            ).push(reference@));
            let r = g4_new_from(
                data,
                reader.pos as int,
                reference@,
                width,
                limit - done,
                height is None,
            );
            assert(lines_before.map_values(|l: Vec<u16>| l@) + (seq![reference@] + r.0)
                =~= lines@.map_values(|l: Vec<u16>| l@) + r.0);
        }
    }
    // the requested number of lines is decoded
    let st = block_end(&mut reader, height.is_none());
    proof {
        assert(lines@.map_values(|l: Vec<u16>| l@) + Seq::<Seq<u16>>::empty()
            =~= lines@.map_values(|l: Vec<u16>| l@));
    }
    (lines, st)
}

// ---------------------------------------------------------------------------
// Group 4 decoding with the amortized transition cursor
// ---------------------------------------------------------------------------
/// One Group 4 line under the transition-cursor strategy, continued from a
/// partial state; `tidx` is the cursor's index into the reference list and
/// `sor` marks the first mode of a row. The reference list here carries no
/// width sentinel: a Vertical lookup that finds nothing falls back to the
/// width, a Pass lookup that finds no b1 is fatal, and a Pass whose b2 lies
/// past the list's end leaves the coding position alone.
pub open spec fn g4_old_line(
    data: Seq<u8>,
    pos: int,
    reference: Seq<u16>,
    width: u16,
    cur: Seq<u16>,
    a0: u16,
    color: Color,
    sor: bool,
    tidx: int,
) -> G4Line
    decreases stream_len(data) - pos,
{
    match scan_mode(data, pos) {
        None => G4Line::Stop(pos),
        Some((m, e)) => {
            proof {
                lemma_scan_mode_bounds(data, pos, 1);
            }
            match m {
                Mode::Pass => match spec_next_color(reference, tidx, a0, color.spec_flip(), false) {
                    None => G4Line::Fatal(DecodeStatus::InternalError),
                    Some((b1, ti1)) => match spec_next_at(reference, ti1) {
                        Some((b2, ti2)) => if b2 >= width {
                            G4Line::Line(cur, e)
                        } else {
                            g4_old_line(data, e, reference, width, cur, b2, color, false, ti2)
                        },
                        None => if a0 >= width {
                            G4Line::Line(cur, e)
                        } else {
                            g4_old_line(data, e, reference, width, cur, a0, color, false, ti1)
                        },
                    },
                },
                Mode::Vertical(d) => {
                    let found = spec_next_color(reference, tidx, a0, color.spec_flip(), sor);
                    let b1: int = match found {
                        Some((b, ti)) => b as int,
                        None => width as int,
                    };
                    let ti1: int = match found {
                        Some((b, ti)) => ti,
                        None => tidx,
                    };
                    let a1 = b1 + d;
                    if a1 < 0 || a1 > 65535 {
                        G4Line::Fatal(DecodeStatus::FormatError)
                    } else if a1 >= width {
                        G4Line::Line(cur, e)
                    } else {
                        let ti2 = if d < 0 {
                            spec_seek_back(reference, ti1, a1 as u16)
                        } else {
                            ti1
                        };
                        g4_old_line(
                            data,
                            e,
                            reference,
                            width,
                            cur.push(a1 as u16),
                            a1 as u16,
                            color.spec_flip(),
                            false,
                            ti2,
                        )
                    }
                },
                Mode::Horizontal => match run_from(color, data, e, 0) {
                    RunScan::Fail(p1) => G4Line::Fatal(DecodeStatus::FormatError),
                    RunScan::Done(r1, e1) => match run_from(color.spec_flip(), data, e1, 0) {
                        RunScan::Fail(p2) => G4Line::Fatal(DecodeStatus::FormatError),
                        RunScan::Done(r2, e2) => {
                            let a1 = a0 + r1;
                            let a2 = a1 + r2;
                            if a2 > 65535 {
                                G4Line::Fatal(DecodeStatus::FormatError)
                            } else if a2 >= width {
                                G4Line::Line(cur.push(a1 as u16), e2)
                            } else {
                                proof {
                                    lemma_run_from_bounds(color, data, e, 0);
                                    lemma_run_from_bounds(color.spec_flip(), data, e1, 0);
                                }
                                g4_old_line(
                                    data,
                                    e2,
                                    reference,
                                    width,
                                    cur.push(a1 as u16).push(a2 as u16),
                                    a2 as u16,
                                    color,
                                    false,
                                    tidx,
                                )
                            }
                        },
                    },
                },
                Mode::Extension => if e + 3 <= stream_len(data) {
                    G4Line::Ext(e + 3)
                } else {
                    G4Line::Fatal(DecodeStatus::FormatError)
                },
            }
        },
    }
}

/// The element a transition cursor at `idx` hands out next, with the index
/// just past it.
pub open spec fn spec_next_at(t: Seq<u16>, idx: int) -> Option<(u16, int)> {
    if 0 <= idx < t.len() {
        Some((t[idx], idx + 1))
    } else {
        None
    }
}

/// The Group 4 image from `pos` under the transition-cursor strategy: up to
/// `rows_left` lines against an initially empty reference; a benign stop or
/// an extension escape ends the block (checked for the end-of-block marker
/// when `check_edfb` is set), a fatal line ends it unsuccessfully.
pub open spec fn g4_old_from(
    data: Seq<u8>,
    pos: int,
    reference: Seq<u16>,
    width: u16,
    rows_left: int,
    check_edfb: bool,
) -> (Seq<Seq<u16>>, DecodeStatus)
    decreases rows_left,
{
    if rows_left <= 0 {
        (Seq::empty(), end_status(data, pos, check_edfb))
    } else {
        match g4_old_line(data, pos, reference, width, Seq::empty(), 0, Color::White, true, 0) {
            G4Line::Stop(p) => (Seq::empty(), end_status(data, p, check_edfb)),
            G4Line::Ext(p) => (Seq::empty(), end_status(data, p, check_edfb)),
            G4Line::Fatal(k) => (Seq::empty(), k),
            G4Line::Line(tr, p) => {
                let r = g4_old_from(data, p, tr, width, rows_left - 1, check_edfb);
                (seq![tr] + r.0, r.1)
            },
        }
    }
}

/// What cursor-strategy Group 4 decoding yields: lines against an initially
/// empty reference (the whole first line imaginary-white), bounded by
/// `height` lines when given, else by 65535 lines and a closing end-of-block
/// marker.
pub open spec fn spec_decode_g4(data: Seq<u8>, width: u16, height: Option<u16>) -> (
    Seq<Seq<u16>>,
    DecodeStatus,
) {
    let limit: int = match height {
        Some(h) => h as int,
        None => 65535,
    };
    g4_old_from(data, 0, Seq::empty(), width, limit, height is None)
}

/// Law: a Group 4 line is local — it depends only on the previous line's
/// change list (the reference) and the bits from the current position on.
/// Two streams of one bit-length that agree from `pos` on decode the line
/// identically, whatever stands before `pos`; and the spec takes no line
/// before the reference, so lines earlier than the previous one cannot
/// matter.
pub proof fn lemma_g4_line_local(
    d1: Seq<u8>,
    d2: Seq<u8>,
    pos: int,
    reference: Seq<u16>,
    width: u16,
    cur: Seq<u16>,
    a0: u16,
    color: Color,
)
    requires
        stream_len(d1) == stream_len(d2),
        forall|i: int| pos <= i < stream_len(d1) ==> stream_bit(d1, i) == stream_bit(d2, i),
    ensures
        g4_line(d1, pos, reference, width, cur, a0, color) == g4_line(
            d2,
            pos,
            reference,
            width,
            cur,
            a0,
            color,
        ),
    decreases stream_len(d1) - pos,
{
    lemma_scan_mode_frame(d1, d2, pos, 1);
    match scan_mode(d1, pos) {
        None => {},
        Some((m, e)) => {
            lemma_scan_mode_bounds(d1, pos, 1);
            match m {
                Mode::Pass => match spec_b1_b2(reference, color, a0) {
                    None => {},
                    Some((b1, b2)) => {
                        if b2 < width {
                            lemma_g4_line_local(d1, d2, e, reference, width, cur, b2, color);
                        }
                    },
                },
                Mode::Vertical(d) => match spec_b1_b2(reference, color, a0) {
                    None => {},
                    Some((b1, b2)) => {
                        let a1 = b1 + d;
                        if 0 <= a1 <= 65535 && a1 < width {
                            lemma_g4_line_local(
                                d1,
                                d2,
                                e,
                                reference,
                                width,
                                cur.push(a1 as u16),
                                a1 as u16,
                                color.spec_flip(),
                            );
                        }
                    },
                },
                Mode::Horizontal => {
                    lemma_run_from_frame(color, d1, d2, e, 0);
                    lemma_run_from_bounds(color, d1, e, 0);
                    match run_from(color, d1, e, 0) {
                        RunScan::Fail(p1) => {},
                        RunScan::Done(r1, e1) => {
                            lemma_run_from_frame(color.spec_flip(), d1, d2, e1, 0);
                            lemma_run_from_bounds(color.spec_flip(), d1, e1, 0);
                            match run_from(color.spec_flip(), d1, e1, 0) {
                                RunScan::Fail(p2) => {},
                                RunScan::Done(r2, e2) => {
                                    let a2 = a0 + r1 + r2;
                                    if a2 <= 65535 && a2 < width {
                                        lemma_g4_line_local(
                                            d1,
                                            d2,
                                            e2,
                                            reference,
                                            width,
                                            cur.push((a0 + r1) as u16).push(a2 as u16),
                                            a2 as u16,
                                            color,
                                        );
                                    }
                                },
                            }
                        },
                    }
                },
                Mode::Extension => {},
            }
        },
    }
}

/// Law: a Group 4 line under the transition-cursor strategy is local too —
/// it depends only on the previous line's change list (the reference, with
/// the cursor state into it) and the bits from the current position on. Two
/// streams of one bit-length that agree from `pos` on decode the line
/// identically, whatever stands before `pos`; and the spec takes no line
/// before the reference, so lines earlier than the previous one cannot
/// matter.
pub proof fn lemma_g4_old_line_local(
    d1: Seq<u8>,
    d2: Seq<u8>,
    pos: int,
    reference: Seq<u16>,
    width: u16,
    cur: Seq<u16>,
    a0: u16,
    color: Color,
    sor: bool,
    tidx: int,
)
    requires
        stream_len(d1) == stream_len(d2),
        forall|i: int| pos <= i < stream_len(d1) ==> stream_bit(d1, i) == stream_bit(d2, i),
    ensures
        g4_old_line(d1, pos, reference, width, cur, a0, color, sor, tidx) == g4_old_line(
            d2,
            pos,
            reference,
            width,
            cur,
            a0,
            color,
            sor,
            tidx,
        ),
    decreases stream_len(d1) - pos,
{
    lemma_scan_mode_frame(d1, d2, pos, 1);
    match scan_mode(d1, pos) {
        None => {},
        Some((m, e)) => {
            lemma_scan_mode_bounds(d1, pos, 1);
            match m {
                Mode::Pass => match spec_next_color(reference, tidx, a0, color.spec_flip(), false) {
                    None => {},
                    Some((b1, ti1)) => match spec_next_at(reference, ti1) {
                        Some((b2, ti2)) => {
                            if b2 < width {
                                lemma_g4_old_line_local(
                                    d1,
                                    d2,
                                    e,
                                    reference,
                                    width,
                                    cur,
                                    b2,
                                    color,
                                    false,
                                    ti2,
                                );
                            }
                        },
                        None => {
                            if a0 < width {
                                lemma_g4_old_line_local(
                                    d1,
                                    d2,
                                    e,
                                    reference,
                                    width,
                                    cur,
                                    a0,
                                    color,
                                    false,
                                    ti1,
                                );
                            }
                        },
                    },
                },
                Mode::Vertical(d) => {
                    let found = spec_next_color(reference, tidx, a0, color.spec_flip(), sor);
                    let b1: int = match found {
                        Some((b, ti)) => b as int,
                        None => width as int,
                    };
                    let ti1: int = match found {
                        Some((b, ti)) => ti,
                        None => tidx,
                    };
                    let a1 = b1 + d;
                    if 0 <= a1 <= 65535 && a1 < width {
                        let ti2 = if d < 0 {
                            spec_seek_back(reference, ti1, a1 as u16)
                        } else {
                            ti1
                        };
                        lemma_g4_old_line_local(
                            d1,
                            d2,
                            e,
                            reference,
                            width,
                            cur.push(a1 as u16),
                            a1 as u16,
                            color.spec_flip(),
                            false,
                            ti2,
                        );
                    }
                },
                Mode::Horizontal => {
                    lemma_run_from_frame(color, d1, d2, e, 0);
                    lemma_run_from_bounds(color, d1, e, 0);
                    match run_from(color, d1, e, 0) {
                        RunScan::Fail(p1) => {},
                        RunScan::Done(r1, e1) => {
                            lemma_run_from_frame(color.spec_flip(), d1, d2, e1, 0);
                            lemma_run_from_bounds(color.spec_flip(), d1, e1, 0);
                            match run_from(color.spec_flip(), d1, e1, 0) {
                                RunScan::Fail(p2) => {},
                                RunScan::Done(r2, e2) => {
                                    let a2 = a0 + r1 + r2;
                                    if a2 <= 65535 && a2 < width {
                                        lemma_g4_old_line_local(
                                            d1,
                                            d2,
                                            e2,
                                            reference,
                                            width,
                                            cur.push((a0 + r1) as u16).push(a2 as u16),
                                            a2 as u16,
                                            color,
                                            false,
                                            tidx,
                                        );
                                    }
                                },
                            }
                        },
                    }
                },
                Mode::Extension => {},
            }
        },
    }
}

/// Law: Group 4 decoding is deterministic — what either strategy decodes is
/// a function of the bitstream, width and height alone, so decoding a given
/// bitstream twice yields identical change-position sequences (`decode_g4`
/// and `decode_g4_new` each return exactly their spec's value).
pub proof fn lemma_g4_deterministic(d1: Seq<u8>, d2: Seq<u8>, width: u16, height: Option<u16>)
    requires
        d1 == d2,
    ensures
        spec_decode_g4(d1, width, height) == spec_decode_g4(d2, width, height),
        spec_decode_g4_new(d1, width, height) == spec_decode_g4_new(d2, width, height),
{
}

/// Decode a Group 4 image with the amortized transition cursor.
///
/// - `width` is the width of the image.
/// - If `height` is given, at most that many lines are decoded; otherwise
///   data is decoded until the end-of-block marker, whose absence where
///   decoding stops is a fatal format error.
///
/// Returns the decoded lines — for each line the ordered positions of color
/// change, starting with white — and a status telling success, an ordinary
/// format failure, or an internal invariant violation apart; lines completed
/// before a failure are kept. To obtain the pixel colors of a line, the
/// `pels` function is provided.
#[verifier::rlimit(60)]
pub fn decode_g4(input: Vec<u8>, width: u16, height: Option<u16>) -> (r: (
    Vec<Vec<u16>>,
    DecodeStatus,
))
    requires
        8 * input@.len() <= usize::MAX,
    ensures
        r.0@.map_values(|l: Vec<u16>| l@) == spec_decode_g4(input@, width, height).0,
        r.1 == spec_decode_g4(input@, width, height).1,
{
    let ghost data = input@;
    let mut reader = BitCursor::new(input);
    let mut reference: Vec<u16> = Vec::new();
    let mut lines: Vec<Vec<u16>> = Vec::new();
    let limit: u16 = match height {
        Some(h) => h,
        None => 65535,
    };
    let mut done: u16 = 0;
    proof {
        assert(reference@ =~= Seq::<u16>::empty());
        assert(lines@.map_values(|l: Vec<u16>| l@) =~= Seq::<Seq<u16>>::empty());
        assert(Seq::<Seq<u16>>::empty() + g4_old_from(
            data,
            0,
            Seq::empty(),
            width,
            limit as int,
            height is None,
        ).0 =~= g4_old_from(data, 0, Seq::empty(), width, limit as int, height is None).0);
    }
    while done < limit
        invariant
            reader.wf(),
            reader.data@ == data,
            done <= limit,
            spec_decode_g4(data, width, height).0 == lines@.map_values(|l: Vec<u16>| l@)
                + g4_old_from(
                data,
                reader.pos as int,
                reference@,
                width,
                limit - done,
                height is None,
            ).0,
            spec_decode_g4(data, width, height).1 == g4_old_from(
                data,
                reader.pos as int,
                reference@,
                width,
                limit - done,
                height is None,
            ).1,
        decreases limit - done,
    {
        let ghost refv = reference@;
        let ghost line_start = reader.pos as int;
        let mut trans = Transitions::new();
        let mut current: Vec<u16> = Vec::new();
        let mut a0: u16 = 0;
        let mut color = Color::White;
        let mut sor = true;
        let mut in_line = true;
        proof {
            assert(lines@.map_values(|l: Vec<u16>| l@) + Seq::<Seq<u16>>::empty()
                =~= lines@.map_values(|l: Vec<u16>| l@));
        }
        while in_line
            invariant
                reader.wf(),
                reader.data@ == data,
                reference@ == refv,
                trans.idx <= refv.len(),
                in_line ==> g4_old_line(
                    data,
                    line_start,
                    refv,
                    width,
                    Seq::empty(),
                    0,
                    Color::White,
                    true,
                    0,
                ) == g4_old_line(
                    data,
                    reader.pos as int,
                    refv,
                    width,
                    current@,
                    a0,
                    color,
                    sor,
                    trans.idx as int,
                ),
                !in_line ==> g4_old_line(
                    data,
                    line_start,
                    refv,
                    width,
                    Seq::empty(),
                    0,
                    Color::White,
                    true,
                    0,
                ) == G4Line::Line(current@, reader.pos as int),
            decreases stream_len(data) - reader.pos, (if in_line {
                1int
            } else {
                0int
            }),
        {
            let ghost p = reader.pos as int;
            proof {
                lemma_scan_mode_bounds(data, p, 1);
            }
            match decode_mode(&mut reader) {
                None => {
                    // no more mode codes: the block ends here
                    let st = block_end(&mut reader, height.is_none());
                    return (lines, st);
                },
                Some(m) => match m {
                    Mode::Pass => {
                        match trans.next_color(&reference, a0, color.flip(), false) {
                            None => {
                                return (lines, DecodeStatus::InternalError);
                            },
                            Some(_b1) => {
                                match trans.next(&reference) {
                                    Some(b2) => {
                                        a0 = b2;
                                        if b2 >= width {
                                            in_line = false;
                                        }
                                    },
                                    None => {
                                        if a0 >= width {
                                            in_line = false;
                                        }
                                    },
                                }
                            },
                        }
                    },
                    Mode::Vertical(delta) => {
                        let b1: u16 = match trans.next_color(&reference, a0, color.flip(), sor) {
                            Some(b) => b,
                            None => width,
                        };
                        let a1i: i32 = b1 as i32 + delta as i32;
                        if a1i < 0 || a1i > 65535 {
                            return (lines, DecodeStatus::FormatError);
                        }
                        let a1: u16 = a1i as u16;
                        if a1 >= width {
                            in_line = false;
                        } else {
                            current.push(a1);
                            color = color.flip();
                            a0 = a1;
                            if delta < 0 {
                                trans.seek_back(&reference, a0);
                            }
                        }
                    },
                    Mode::Horizontal => {
                        let ghost e = reader.pos as int;
                        proof {
                            lemma_run_from_bounds(color, data, e, 0);
                        }
                        let r1 = match colored(color, &mut reader) {
                            Some(x) => x,
                            None => {
                                return (lines, DecodeStatus::FormatError);
                            },
                        };
                        let ghost e1 = reader.pos as int;
                        proof {
                            lemma_run_from_bounds(color.spec_flip(), data, e1, 0);
                        }
                        let r2 = match colored(color.flip(), &mut reader) {
                            Some(x) => x,
                            None => {
                                return (lines, DecodeStatus::FormatError);
                            },
                        };
                        let a1: u32 = a0 as u32 + r1 as u32;
                        let a2: u32 = a1 + r2 as u32;
                        if a2 > 65535 {
                            return (lines, DecodeStatus::FormatError);
                        }
                        current.push(a1 as u16);
                        if a2 >= width as u32 {
                            in_line = false;
                        } else {
                            current.push(a2 as u16);
                            a0 = a2 as u16;
                        }
                    },
                    Mode::Extension => {
                        match reader.peek(3) {
                            None => {
                                return (lines, DecodeStatus::FormatError);
                            },
                            Some(_) => {
                                reader.consume(3);
                                let st = block_end(&mut reader, height.is_none());
                                return (lines, st);
                            },
                        }
                    },
                },
            }
            sor = false;
        }
        // the line is complete and becomes the reference of the next one
        let ghost lines_before = lines@;
        reference = copy_line(&current);
        lines.push(current);
        done = done + 1;
        proof {
            assert(lines@.map_values(|l: Vec<u16>| l@) =~= lines_before.map_values(
                |l: Vec<u16>| l@,
            ).push(reference@));
            let r = g4_old_from(
                data,
                reader.pos as int,
                reference@,
                width,
                limit - done,
                height is None,
            );
            assert(lines_before.map_values(|l: Vec<u16>| l@) + (seq![reference@] + r.0)
                =~= lines@.map_values(|l: Vec<u16>| l@) + r.0);
        }
    }
    // the requested number of lines is decoded
    let st = block_end(&mut reader, height.is_none());
    proof {
        assert(lines@.map_values(|l: Vec<u16>| l@) + Seq::<Seq<u16>>::empty()
            =~= lines@.map_values(|l: Vec<u16>| l@));
    }
    (lines, st)
}

} // verus!
