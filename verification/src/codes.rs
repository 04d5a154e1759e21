//! The prefix-code decoding engine and the run-length accumulator.
//!
//! A code is matched by probing windows of increasing bit-length against the
//! code tables; the code sets are prefix-free, so the shortest match is the
//! only match and the decoder consumes exactly the matched code's length. On
//! a miss or at the end of the data nothing is consumed.
use vstd::prelude::*;

use crate::Color;
use crate::bits::BitCursor;
use crate::bits::bits_val;
use crate::bits::lemma_bits_val_fits_u16;
use crate::bits::stream_bit;
use crate::bits::stream_len;
use crate::tables::MAX_MODE_CODE_LEN;
use crate::tables::MAX_RUN_CODE_LEN;
use crate::tables::Mode;
use crate::tables::lookup_mode;
use crate::tables::lookup_run;
use crate::tables::mode_code;
use crate::tables::run_code;

verus! {

/// The shortest mode code matching the bits at `pos`, probing bit-lengths
/// from `len` upward: the decoded mode and the position just past the code,
/// or nothing when no code matches before the data runs out.
pub open spec fn scan_mode_at(data: Seq<u8>, pos: int, len: int) -> Option<(Mode, int)>
    decreases MAX_MODE_CODE_LEN + 1 - len,
{
    if len > MAX_MODE_CODE_LEN as int {
        None
    } else if pos + len > stream_len(data) {
        None
    } else {
        match mode_code(len, bits_val(data, pos, len as nat)) {
            Some(m) => Some((m, pos + len)),
            None => scan_mode_at(data, pos, len + 1),
        }
    }
}

pub open spec fn scan_mode(data: Seq<u8>, pos: int) -> Option<(Mode, int)> {
    scan_mode_at(data, pos, 1)
}

pub proof fn lemma_scan_mode_bounds(data: Seq<u8>, pos: int, len: int)
    requires
        1 <= len,
    ensures
        scan_mode_at(data, pos, len) matches Some((m, e)) ==> pos + len <= e <= stream_len(data)
            && e <= pos + MAX_MODE_CODE_LEN,
    decreases MAX_MODE_CODE_LEN + 1 - len,
{
    if len <= MAX_MODE_CODE_LEN as int {
        lemma_scan_mode_bounds(data, pos, len + 1);
    }
}

/// The shortest run-length code of `color` matching the bits at `pos`,
/// probing bit-lengths from `len` upward.
pub open spec fn scan_run_at(color: Color, data: Seq<u8>, pos: int, len: int) -> Option<
    (u16, int),
>
    decreases MAX_RUN_CODE_LEN + 1 - len,
{
    if len > MAX_RUN_CODE_LEN as int {
        None
    } else if pos + len > stream_len(data) {
        None
    } else {
        match run_code(color, len, bits_val(data, pos, len as nat)) {
            Some(v) => Some((v, pos + len)),
            None => scan_run_at(color, data, pos, len + 1),
        }
    }
}

pub open spec fn scan_run(color: Color, data: Seq<u8>, pos: int) -> Option<(u16, int)> {
    scan_run_at(color, data, pos, 1)
}

pub proof fn lemma_scan_run_bounds(color: Color, data: Seq<u8>, pos: int, len: int)
    requires
        1 <= len,
    ensures
        scan_run_at(color, data, pos, len) matches Some((v, e)) ==> pos + len <= e <= stream_len(
            data,
        ) && e <= pos + MAX_RUN_CODE_LEN,
    decreases MAX_RUN_CODE_LEN + 1 - len,
{
    if len <= MAX_RUN_CODE_LEN as int {
        lemma_scan_run_bounds(color, data, pos, len + 1);
    }
}

/// A mode-code scan reads nothing before its position: two streams of one
/// bit-length that agree from `pos` on scan alike.
pub proof fn lemma_scan_mode_frame(d1: Seq<u8>, d2: Seq<u8>, pos: int, len: int)
    requires
        1 <= len,
        stream_len(d1) == stream_len(d2),
        forall|i: int| pos <= i < stream_len(d1) ==> stream_bit(d1, i) == stream_bit(d2, i),
    ensures
        scan_mode_at(d1, pos, len) == scan_mode_at(d2, pos, len),
    decreases MAX_MODE_CODE_LEN + 1 - len,
{
    if len <= MAX_MODE_CODE_LEN as int && pos + len <= stream_len(d1) {
        crate::bits::lemma_bits_val_frame(d1, d2, pos, len as nat);
        lemma_scan_mode_frame(d1, d2, pos, len + 1);
    }
}

/// A run-code scan reads nothing before its position.
pub proof fn lemma_scan_run_frame(color: Color, d1: Seq<u8>, d2: Seq<u8>, pos: int, len: int)
    requires
        1 <= len,
        stream_len(d1) == stream_len(d2),
        forall|i: int| pos <= i < stream_len(d1) ==> stream_bit(d1, i) == stream_bit(d2, i),
    ensures
        scan_run_at(color, d1, pos, len) == scan_run_at(color, d2, pos, len),
    decreases MAX_RUN_CODE_LEN + 1 - len,
{
    if len <= MAX_RUN_CODE_LEN as int && pos + len <= stream_len(d1) {
        crate::bits::lemma_bits_val_frame(d1, d2, pos, len as nat);
        lemma_scan_run_frame(color, d1, d2, pos, len + 1);
    }
}

/// A run accumulation reads nothing before its position.
pub proof fn lemma_run_from_frame(color: Color, d1: Seq<u8>, d2: Seq<u8>, pos: int, sum: int)
    requires
        stream_len(d1) == stream_len(d2),
        forall|i: int| pos <= i < stream_len(d1) ==> stream_bit(d1, i) == stream_bit(d2, i),
    ensures
        run_from(color, d1, pos, sum) == run_from(color, d2, pos, sum),
    decreases stream_len(d1) - pos,
{
    lemma_scan_run_frame(color, d1, d2, pos, 1);
    lemma_scan_run_bounds(color, d1, pos, 1);
    match scan_run(color, d1, pos) {
        None => {},
        Some((v, e)) => {
            if sum + v <= 65535 && v >= 64 {
                lemma_run_from_frame(color, d1, d2, e, sum + v);
            }
        },
    }
}

/// Decode one two-dimensional mode code. On a match the cursor stands just
/// past the code; on a miss or at the end of the data it has not moved.
pub fn decode_mode(reader: &mut BitCursor) -> (r: Option<Mode>)
    requires
        old(reader).wf(),
    ensures
        final(reader).wf(),
        final(reader).data@ == old(reader).data@,
        match scan_mode(old(reader).data@, old(reader).pos as int) {
            Some((m, e)) => r == Some(m) && final(reader).pos == e,
            None => r == None::<Mode> && final(reader).pos == old(reader).pos,
        },
{
    let ghost data = reader.data@;
    let ghost pos0 = reader.pos as int;
    let mut len: u16 = 1;
    loop
        invariant
            reader.wf(),
            reader.data@ == data,
            reader.pos == pos0,
            1 <= len <= MAX_MODE_CODE_LEN + 1,
            scan_mode_at(data, pos0, 1) == scan_mode_at(data, pos0, len as int),
        decreases MAX_MODE_CODE_LEN + 1 - len as int,
    {
        if len > MAX_MODE_CODE_LEN {
            return None;
        }
        match reader.peek(len) {
            None => {
                return None;
            },
            Some(v) => {
                proof {
                    lemma_bits_val_fits_u16(data, pos0, len as nat);
                }
                match lookup_mode(len, v) {
                    Some(m) => {
                        reader.consume(len);
                        return Some(m);
                    },
                    None => {
                        len = len + 1;
                    },
                }
            },
        }
    }
}

/// Decode one run-length code of `color`. On a match the cursor stands just
/// past the code; on a miss or at the end of the data it has not moved.
pub fn decode_run_code(color: Color, reader: &mut BitCursor) -> (r: Option<u16>)
    requires
        old(reader).wf(),
    ensures
        final(reader).wf(),
        final(reader).data@ == old(reader).data@,
        match scan_run(color, old(reader).data@, old(reader).pos as int) {
            Some((v, e)) => r == Some(v) && final(reader).pos == e,
            None => r == None::<u16> && final(reader).pos == old(reader).pos,
        },
{
    let ghost data = reader.data@;
    let ghost pos0 = reader.pos as int;
    let mut len: u16 = 1;
    loop
        invariant
            reader.wf(),
            reader.data@ == data,
            reader.pos == pos0,
            1 <= len <= MAX_RUN_CODE_LEN + 1,
            scan_run_at(color, data, pos0, 1) == scan_run_at(color, data, pos0, len as int),
        decreases MAX_RUN_CODE_LEN + 1 - len as int,
    {
        if len > MAX_RUN_CODE_LEN {
            return None;
        }
        match reader.peek(len) {
            None => {
                return None;
            },
            Some(v) => {
                proof {
                    lemma_bits_val_fits_u16(data, pos0, len as nat);
                }
                match lookup_run(color, len, v) {
                    Some(value) => {
                        reader.consume(len);
                        return Some(value);
                    },
                    None => {
                        len = len + 1;
                    },
                }
            },
        }
    }
}

/// Outcome of accumulating one run: the total run length and the position
/// just past its last code, or a failure with the position of the code that
/// could not be decoded (nothing of it is consumed).
pub enum RunScan {
    Done(u16, int),
    Fail(int),
}

/// Accumulate one run of `color` starting at `pos`: sum decoded code values
/// while they are makeup codes (>= 64) until a terminating code (< 64) closes
/// the run. A total beyond `u16::MAX` counts as a failure at the code that
/// overflowed.
pub open spec fn run_from(color: Color, data: Seq<u8>, pos: int, sum: int) -> RunScan
    decreases stream_len(data) - pos,
{
    match scan_run(color, data, pos) {
        None => RunScan::Fail(pos),
        Some((v, e)) => if sum + v > 65535 {
            RunScan::Fail(pos)
        } else if v < 64 {
            RunScan::Done((sum + v) as u16, e)
        } else {
            proof {
                lemma_scan_run_bounds(color, data, pos, 1);
            }
            run_from(color, data, e, sum + v)
        },
    }
}

pub proof fn lemma_run_from_bounds(color: Color, data: Seq<u8>, pos: int, sum: int)
    ensures
        run_from(color, data, pos, sum) matches RunScan::Done(v, e) ==> pos < e <= stream_len(
            data,
        ),
        run_from(color, data, pos, sum) matches RunScan::Fail(p) ==> pos <= p,
        pos <= stream_len(data) ==> (run_from(color, data, pos, sum) matches RunScan::Fail(p)
            ==> p <= stream_len(data)),
    decreases stream_len(data) - pos,
{
    lemma_scan_run_bounds(color, data, pos, 1);
    match scan_run(color, data, pos) {
        None => {},
        Some((v, e)) => {
            if sum + v <= 65535 && v >= 64 {
                lemma_run_from_bounds(color, data, e, sum + v);
            }
        },
    }
}

/// Decode one total run length of `color`: repeatedly decode codes from that
/// color's table, summing makeup values, until a terminating code closes the
/// run. On failure nothing of the failing code is consumed.
pub fn with_markup(color: Color, reader: &mut BitCursor) -> (r: Option<u16>)
    requires
        old(reader).wf(),
    ensures
        final(reader).wf(),
        final(reader).data@ == old(reader).data@,
        match run_from(color, old(reader).data@, old(reader).pos as int, 0) {
            RunScan::Done(v, e) => r == Some(v) && final(reader).pos == e,
            RunScan::Fail(p) => r == None::<u16> && final(reader).pos == p,
        },
{
    let ghost data = reader.data@;
    let ghost pos0 = reader.pos as int;
    let mut sum: u16 = 0;
    loop
        invariant
            reader.wf(),
            reader.data@ == data,
            run_from(color, data, pos0, 0) == run_from(color, data, reader.pos as int, sum as int),
        decreases 8 * data.len() - reader.pos,
    {
        let ghost p = reader.pos as int;
        let saved: usize = reader.pos;
        match decode_run_code(color, reader) {
            None => {
                return None;
            },
            Some(v) => {
                proof {
                    lemma_scan_run_bounds(color, data, p, 1);
                }
                let total: u32 = sum as u32 + v as u32;
                if total > 65535 {
                    reader.pos = saved;
                    return None;
                }
                sum = total as u16;
                if v < 64 {
                    return Some(sum);
                }
            },
        }
    }
}

/// Decode one total run length in the table of the given current color.
pub fn colored(current: Color, reader: &mut BitCursor) -> (r: Option<u16>)
    requires
        old(reader).wf(),
    ensures
        final(reader).wf(),
        final(reader).data@ == old(reader).data@,
        match run_from(current, old(reader).data@, old(reader).pos as int, 0) {
            RunScan::Done(v, e) => r == Some(v) && final(reader).pos == e,
            RunScan::Fail(p) => r == None::<u16> && final(reader).pos == p,
        },
{
    match current {
        Color::Black => with_markup(Color::Black, reader),
        Color::White => with_markup(Color::White, reader),
    }
}

} // verus!
