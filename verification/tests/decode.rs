use fax::Color;
use fax::bits::BitCursor;
use fax::codes::colored;
use fax::codes::decode_mode;
use fax::codes::with_markup;
use fax::decoder::DecodeStatus;
use fax::decoder::decode_g3;
use fax::decoder::decode_g4;
use fax::decoder::decode_g4_new;
use fax::decoder::get_b1_b2;
use fax::decoder::pels;
use fax::tables::Mode;

fn push_code(bits: &mut Vec<u8>, code: &str) {
    for c in code.chars() {
        bits.push(if c == '1' { 1 } else { 0 });
    }
}

fn bits_to_bytes(bits: &[u8]) -> Vec<u8> {
    let mut out = Vec::new();
    let mut cur = 0u8;
    let mut n: u32 = 0;
    for &b in bits {
        cur = (cur << 1) | b;
        n += 1;
        if n == 8 {
            out.push(cur);
            cur = 0;
            n = 0;
        }
    }
    if n > 0 {
        out.push(cur << (8 - n));
    }
    out
}

const EOL: &str = "000000000001";

#[test]
fn bit_cursor_peek_consume() {
    let mut cur = BitCursor::new(vec![0b1011_0001, 0b1000_0000]);
    assert_eq!(cur.peek(4), Some(0b1011));
    assert_eq!(cur.peek(1), Some(1));
    cur.consume(4);
    assert_eq!(cur.peek(4), Some(0b0001));
    cur.consume(4);
    assert_eq!(cur.peek(8), Some(0b1000_0000));
    assert_eq!(cur.peek(16), None);
    assert!(cur.expect(0b10000000, 8));
    assert_eq!(cur.peek(1), None);
}

#[test]
fn bit_cursor_expect_mismatch_keeps_position() {
    let mut cur = BitCursor::new(vec![0b1010_0000]);
    assert!(!cur.expect(0b1111, 4));
    assert_eq!(cur.peek(4), Some(0b1010));
}

#[test]
fn mode_codes_decode() {
    // one code of each mode, back to back
    let mut bits = Vec::new();
    push_code(&mut bits, "1"); // Vertical(0)
    push_code(&mut bits, "001"); // Horizontal
    push_code(&mut bits, "0001"); // Pass
    push_code(&mut bits, "010"); // Vertical(-1)
    push_code(&mut bits, "011"); // Vertical(1)
    push_code(&mut bits, "0000010"); // Vertical(-3)
    push_code(&mut bits, "0000001"); // Extension
    let mut cur = BitCursor::new(bits_to_bytes(&bits));
    assert!(matches!(decode_mode(&mut cur), Some(Mode::Vertical(0))));
    assert!(matches!(decode_mode(&mut cur), Some(Mode::Horizontal)));
    assert!(matches!(decode_mode(&mut cur), Some(Mode::Pass)));
    assert!(matches!(decode_mode(&mut cur), Some(Mode::Vertical(-1))));
    assert!(matches!(decode_mode(&mut cur), Some(Mode::Vertical(1))));
    assert!(matches!(decode_mode(&mut cur), Some(Mode::Vertical(-3))));
    assert!(matches!(decode_mode(&mut cur), Some(Mode::Extension)));
}

#[test]
fn white_run_terminating_code() {
    // white 3 is the code 1000
    let mut bits = Vec::new();
    push_code(&mut bits, "1000");
    let mut cur = BitCursor::new(bits_to_bytes(&bits));
    assert_eq!(colored(Color::White, &mut cur), Some(3));
}

#[test]
fn white_run_makeup_plus_terminating() {
    // white 67 = makeup 64 (11011) then terminating 3 (1000)
    let mut bits = Vec::new();
    push_code(&mut bits, "11011");
    push_code(&mut bits, "1000");
    let mut cur = BitCursor::new(bits_to_bytes(&bits));
    assert_eq!(with_markup(Color::White, &mut cur), Some(67));
}

#[test]
fn black_run_terminating_code() {
    // black 7 is the code 00011
    let mut bits = Vec::new();
    push_code(&mut bits, "00011");
    let mut cur = BitCursor::new(bits_to_bytes(&bits));
    assert_eq!(colored(Color::Black, &mut cur), Some(7));
}

#[test]
fn black_run_makeup_plus_terminating() {
    // black 66 = makeup 64 (0000001111) then terminating 2 (11)
    let mut bits = Vec::new();
    push_code(&mut bits, "0000001111");
    push_code(&mut bits, "11");
    let mut cur = BitCursor::new(bits_to_bytes(&bits));
    assert_eq!(colored(Color::Black, &mut cur), Some(66));
}

#[test]
fn run_decode_failure_consumes_nothing() {
    // twelve zero bits match no white code
    let mut cur = BitCursor::new(vec![0, 0]);
    let before = cur.pos;
    assert_eq!(colored(Color::White, &mut cur), None);
    assert_eq!(cur.pos, before);
}

#[test]
fn run_sum_overflow_fails_gracefully() {
    // twenty-six makeups of 2560 overshoot the position type: the run fails
    let mut bits = Vec::new();
    for _ in 0..26 {
        push_code(&mut bits, "000000011111");
    }
    push_code(&mut bits, "00110101"); // white 0, terminating
    let mut cur = BitCursor::new(bits_to_bytes(&bits));
    assert_eq!(colored(Color::White, &mut cur), None);
}

#[test]
fn g3_position_overflow_fails() {
    let mut bits = Vec::new();
    push_code(&mut bits, EOL);
    // white run 64000: twenty-five makeups of 2560, then terminating 0
    for _ in 0..25 {
        push_code(&mut bits, "000000011111");
    }
    push_code(&mut bits, "00110101");
    // black run 2560 pushes the position past the type's range
    push_code(&mut bits, "000000011111");
    push_code(&mut bits, "0000110111");
    let (lines, ok) = decode_g3(bits_to_bytes(&bits));
    assert!(!ok);
    assert!(lines.is_empty());
}

#[test]
fn g3_one_line_round_trip() {
    // encode runs white 3, black 7, decode back the change list [3, 10]
    let mut bits = Vec::new();
    push_code(&mut bits, EOL);
    push_code(&mut bits, "1000"); // white 3
    push_code(&mut bits, "00011"); // black 7
    push_code(&mut bits, EOL);
    for _ in 0..6 {
        push_code(&mut bits, EOL);
    }
    let (lines, ok) = decode_g3(bits_to_bytes(&bits));
    assert!(ok);
    assert_eq!(lines, vec![vec![3u16, 10]]);
}

#[test]
fn g3_makeup_round_trip() {
    // white 67 (makeup 64 + 3), black 7: change list [67, 74]
    let mut bits = Vec::new();
    push_code(&mut bits, EOL);
    push_code(&mut bits, "11011");
    push_code(&mut bits, "1000");
    push_code(&mut bits, "00011");
    push_code(&mut bits, EOL);
    for _ in 0..6 {
        push_code(&mut bits, EOL);
    }
    let (lines, ok) = decode_g3(bits_to_bytes(&bits));
    assert!(ok);
    assert_eq!(lines, vec![vec![67u16, 74]]);
}

#[test]
fn g3_two_lines() {
    let mut bits = Vec::new();
    push_code(&mut bits, EOL);
    push_code(&mut bits, "1000"); // white 3
    push_code(&mut bits, "00011"); // black 7
    push_code(&mut bits, EOL);
    push_code(&mut bits, "1100"); // white 5
    push_code(&mut bits, "0011"); // black 5
    push_code(&mut bits, EOL);
    for _ in 0..6 {
        push_code(&mut bits, EOL);
    }
    let (lines, ok) = decode_g3(bits_to_bytes(&bits));
    assert!(ok);
    assert_eq!(lines, vec![vec![3u16, 10], vec![5u16, 10]]);
}

#[test]
fn g3_missing_leading_marker_fails() {
    let (lines, ok) = decode_g3(vec![0xFF, 0xFF]);
    assert!(!ok);
    assert!(lines.is_empty());
}

#[test]
fn g3_truncated_stream_stops_gracefully() {
    // a line's runs, then no closing marker: the partial line is dropped
    let mut bits = Vec::new();
    push_code(&mut bits, EOL);
    push_code(&mut bits, "1000"); // white 3
    let (lines, ok) = decode_g3(bits_to_bytes(&bits));
    assert!(!ok);
    assert!(lines.is_empty());
}

#[test]
fn g4_new_all_white_line_by_pass() {
    // one Pass against the width sentinel completes an all-white line
    let (lines, ok) = decode_g4_new(vec![0b0001_0000], 10, Some(1));
    assert_eq!(ok, DecodeStatus::Done);
    assert_eq!(lines, vec![Vec::<u16>::new()]);
    let row = pels(&lines[0], 10);
    assert_eq!(row, vec![Color::White; 10]);
}

#[test]
fn g4_new_all_white_line_by_vertical() {
    // one Vertical(0) against the sentinel yields the change list [10]
    let (lines, ok) = decode_g4_new(vec![0b1000_0000], 10, Some(1));
    assert_eq!(ok, DecodeStatus::Done);
    assert_eq!(lines, vec![vec![10u16]]);
    let row = pels(&lines[0], 10);
    assert_eq!(row, vec![Color::White; 10]);
}

#[test]
fn g4_new_horizontal_five_five() {
    // Horizontal with runs 5 and 5 on width 10: change list [5, 10]
    let mut bits = Vec::new();
    push_code(&mut bits, "001"); // Horizontal
    push_code(&mut bits, "1100"); // white 5
    push_code(&mut bits, "0011"); // black 5
    let (lines, ok) = decode_g4_new(bits_to_bytes(&bits), 10, Some(1));
    assert_eq!(ok, DecodeStatus::Done);
    assert_eq!(lines, vec![vec![5u16, 10]]);
    let row = pels(&lines[0], 10);
    let mut want = vec![Color::White; 5];
    want.extend(vec![Color::Black; 5]);
    assert_eq!(row, want);
}

#[test]
fn g4_new_without_height_requires_end_of_block() {
    // one line, then no more mode codes: without a height bound the missing
    // end-of-block marker is fatal, though the completed line is kept
    let (lines, ok) = decode_g4_new(vec![0b1000_0000], 10, None);
    assert_eq!(ok, DecodeStatus::FormatError);
    assert_eq!(lines, vec![vec![10u16]]);
}

#[test]
fn g4_new_end_of_block_marker() {
    // one all-white line, then the two end-of-block half-markers
    let mut bits = Vec::new();
    push_code(&mut bits, "1"); // Vertical(0), line done at the width
    push_code(&mut bits, EOL);
    push_code(&mut bits, EOL);
    let (lines, ok) = decode_g4_new(bits_to_bytes(&bits), 10, None);
    assert_eq!(ok, DecodeStatus::Done);
    assert_eq!(lines, vec![vec![10u16]]);
}

#[test]
fn g4_old_all_white_line_by_vertical() {
    // Vertical(0) against the empty first reference: b1 falls back to the
    // width, the new position reaches the width, and nothing is pushed
    let (lines, ok) = decode_g4(vec![0b1000_0000], 10, Some(1));
    assert_eq!(ok, DecodeStatus::Done);
    assert_eq!(lines, vec![Vec::<u16>::new()]);
    assert_eq!(pels(&lines[0], 10), vec![Color::White; 10]);
}

#[test]
fn g4_old_pass_on_empty_reference_is_fatal() {
    let (lines, ok) = decode_g4(vec![0b0001_0000], 10, Some(1));
    assert_eq!(ok, DecodeStatus::InternalError);
    assert!(lines.is_empty());
}

#[test]
fn g4_old_two_lines_vertical_zero() {
    // line 1: Horizontal white 3 + black 7 (list [3], trailing black);
    // line 2: Vertical(0) twice against line 1 reproduces [3]
    let mut bits = Vec::new();
    push_code(&mut bits, "001"); // Horizontal
    push_code(&mut bits, "1000"); // white 3
    push_code(&mut bits, "00011"); // black 7
    push_code(&mut bits, "1"); // Vertical(0) at b1 = 3
    push_code(&mut bits, "1"); // Vertical(0), b1 falls back to the width
    let (lines, ok) = decode_g4(bits_to_bytes(&bits), 10, Some(2));
    assert_eq!(ok, DecodeStatus::Done);
    assert_eq!(lines, vec![vec![3u16], vec![3u16]]);
    let row = pels(&lines[1], 10);
    let mut want = vec![Color::White; 3];
    want.extend(vec![Color::Black; 7]);
    assert_eq!(row, want);
}

#[test]
fn g4_old_horizontal_five_five() {
    // the cursor strategy ends the line before pushing the width sentinel
    let mut bits = Vec::new();
    push_code(&mut bits, "001");
    push_code(&mut bits, "1100"); // white 5
    push_code(&mut bits, "0011"); // black 5
    let (lines, ok) = decode_g4(bits_to_bytes(&bits), 10, Some(1));
    assert_eq!(ok, DecodeStatus::Done);
    assert_eq!(lines, vec![vec![5u16]]);
    let row = pels(&lines[0], 10);
    let mut want = vec![Color::White; 5];
    want.extend(vec![Color::Black; 5]);
    assert_eq!(row, want);
}

#[test]
fn g4_old_end_of_block_marker() {
    // one all-white line, then the two end-of-block half-markers
    let mut bits = Vec::new();
    push_code(&mut bits, "1"); // Vertical(0), line done at the width
    push_code(&mut bits, EOL);
    push_code(&mut bits, EOL);
    let (lines, ok) = decode_g4(bits_to_bytes(&bits), 10, None);
    assert_eq!(ok, DecodeStatus::Done);
    assert_eq!(lines, vec![Vec::<u16>::new()]);
}

#[test]
fn g4_old_missing_end_of_block_marker_fails() {
    let mut bits = Vec::new();
    push_code(&mut bits, "1");
    let (lines, ok) = decode_g4(bits_to_bytes(&bits), 10, None);
    assert_eq!(ok, DecodeStatus::FormatError);
    assert_eq!(lines, vec![Vec::<u16>::new()]);
}

#[test]
fn g4_truncated_mid_code_stops_gracefully() {
    // Horizontal, white 5, then the black run is cut off mid-code
    let (lines, ok) = decode_g4_new(vec![0b0011_1000], 20, Some(1));
    assert_eq!(ok, DecodeStatus::FormatError);
    assert!(lines.is_empty());
    let (lines2, ok2) = decode_g4(vec![0b0011_1000], 20, Some(1));
    assert_eq!(ok2, DecodeStatus::FormatError);
    assert!(lines2.is_empty());
}

#[test]
fn g4_extension_stops_block() {
    // Extension escape (0000001) and its 3-bit tail end the block at once;
    // with a height bound no end-of-block marker is owed
    let mut bits = Vec::new();
    push_code(&mut bits, "0000001");
    push_code(&mut bits, "000");
    let (lines, ok) = decode_g4_new(bits_to_bytes(&bits), 10, Some(1));
    assert_eq!(ok, DecodeStatus::Done);
    assert!(lines.is_empty());
}

#[test]
fn g4_extension_truncated_tail_fails() {
    // the escape without its full 3-bit tail is a format failure
    let (lines, ok) = decode_g4_new(vec![0b0000001_0], 10, Some(1));
    assert_eq!(ok, DecodeStatus::FormatError);
    assert!(lines.is_empty());
}

#[test]
fn g4_old_pass_mid_line() {
    // line 1 = [2, 4, 7] by two Horizontal modes; line 2 opens with a Pass
    // over the first black run, then Vertical(0) at the next transition
    let mut bits = Vec::new();
    push_code(&mut bits, "001"); // Horizontal
    push_code(&mut bits, "0111"); // white 2
    push_code(&mut bits, "11"); // black 2
    push_code(&mut bits, "001"); // Horizontal
    push_code(&mut bits, "1000"); // white 3
    push_code(&mut bits, "10"); // black 3
    push_code(&mut bits, "0001"); // Pass: a0 moves to b2 = 4
    push_code(&mut bits, "1"); // Vertical(0) at b1 = 7
    push_code(&mut bits, "1"); // Vertical(0), b1 falls back to the width
    let (lines, ok) = decode_g4(bits_to_bytes(&bits), 10, Some(2));
    assert_eq!(ok, DecodeStatus::Done);
    assert_eq!(lines, vec![vec![2u16, 4, 7], vec![7u16]]);
}

#[test]
fn g4_old_negative_vertical_rewinds_cursor() {
    // line 1 = [5]; line 2 codes Vertical(-1) twice, which regresses below
    // the cursor and forces a rewind before the next lookup
    let mut bits = Vec::new();
    push_code(&mut bits, "001"); // Horizontal
    push_code(&mut bits, "1100"); // white 5
    push_code(&mut bits, "0011"); // black 5
    push_code(&mut bits, "010"); // Vertical(-1): a1 = 5 - 1 = 4
    push_code(&mut bits, "010"); // Vertical(-1): b1 falls back, a1 = 9
    push_code(&mut bits, "1"); // Vertical(0): a1 = 10, line done
    let (lines, ok) = decode_g4(bits_to_bytes(&bits), 10, Some(2));
    assert_eq!(ok, DecodeStatus::Done);
    assert_eq!(lines, vec![vec![5u16], vec![4u16, 9]]);
}

#[test]
fn g4_decode_is_deterministic() {
    let mut bits = Vec::new();
    push_code(&mut bits, "001");
    push_code(&mut bits, "1000");
    push_code(&mut bits, "00011");
    push_code(&mut bits, "1");
    push_code(&mut bits, "1");
    let input = bits_to_bytes(&bits);
    let first = decode_g4(input.clone(), 10, Some(2));
    let second = decode_g4(input.clone(), 10, Some(2));
    assert_eq!(first, second);
    let third = decode_g4_new(input.clone(), 10, Some(2));
    let fourth = decode_g4_new(input, 10, Some(2));
    assert_eq!(third, fourth);
}

#[test]
fn b1_b2_sentinel_only_reference() {
    // a reference with only the end sentinel answers it twice
    assert_eq!(get_b1_b2(&vec![10u16], Color::White, 0), Some((10, 10)));
    assert_eq!(get_b1_b2(&vec![10u16], Color::Black, 4), Some((10, 10)));
}

#[test]
fn b1_b2_start_of_row_fixup() {
    // a0 = 0, first transition at 0, coding color White: the first two
    // transitions answer directly
    assert_eq!(get_b1_b2(&vec![0u16, 4, 7], Color::White, 0), Some((0, 4)));
}

#[test]
fn b1_b2_general_scan() {
    // White looks for even-indexed transitions right of a0
    assert_eq!(get_b1_b2(&vec![2u16, 5, 9], Color::White, 2), Some((9, 9)));
    // Black looks for odd-indexed ones
    assert_eq!(get_b1_b2(&vec![2u16, 5, 9], Color::Black, 2), Some((5, 9)));
}

#[test]
fn b1_b2_no_answer() {
    assert_eq!(get_b1_b2(&Vec::new(), Color::White, 0), None);
    assert_eq!(get_b1_b2(&vec![2u16, 3], Color::Black, 5), None);
}
