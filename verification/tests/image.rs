use fax::Color;
use fax::decoder::pels;
use fax::generate::flatten;
use fax::generate::l1_black;
use fax::generate::l1_white;
use fax::generate::l1_white_black;
use fax::generate::multiline_testcase;
use fax::ppm::BW;
use fax::ppm::PPM;
use fax::transitions::Transitions;

#[test]
fn pels_three_white_seven_black() {
    let row = pels(&vec![3u16], 10);
    let mut want = vec![Color::White; 3];
    want.extend(vec![Color::Black; 7]);
    assert_eq!(row, want);
}

#[test]
fn pels_empty_list_is_all_white() {
    assert_eq!(pels(&Vec::new(), 4), vec![Color::White; 4]);
}

#[test]
fn pels_even_list_pads_white() {
    let row = pels(&vec![2u16, 4], 8);
    let mut want = vec![Color::White; 2];
    want.extend(vec![Color::Black; 2]);
    want.extend(vec![Color::White; 4]);
    assert_eq!(row, want);
}

#[test]
fn pels_truncates_past_width() {
    let row = pels(&vec![3u16, 20], 10);
    let mut want = vec![Color::White; 3];
    want.extend(vec![Color::Black; 7]);
    assert_eq!(row, want);
}

#[test]
fn pels_regressing_entry_emits_nothing() {
    // the entry 3 after 5 yields no pixels; the list's odd length pads black
    let row = pels(&vec![5u16, 3, 7], 10);
    let mut want = vec![Color::White; 9];
    want.extend(vec![Color::Black; 1]);
    assert_eq!(row, want);
}

#[test]
fn pels_exact_width_no_padding() {
    let row = pels(&vec![1u16, 2], 2);
    assert_eq!(row, vec![Color::White, Color::Black]);
}

#[test]
fn color_flip_inverts() {
    assert_eq!(Color::White.flip(), Color::Black);
    assert_eq!(Color::Black.flip(), Color::White);
}

#[test]
fn ppm_new_is_all_white() {
    let img = PPM::new(2, 3);
    assert_eq!(img.height, 2);
    assert_eq!(img.width, 3);
    assert_eq!(img.data, vec![BW::W; 6]);
}

#[test]
fn ppm_get_and_set_pixel() {
    let mut img = PPM::new(2, 3);
    assert!(img.set_pixel(1, 0, BW::B));
    assert!(matches!(img.get_pixel(1, 0), Some(BW::B)));
    assert!(matches!(img.get_pixel(0, 1), Some(BW::W)));
    assert!(img.get_pixel(3, 0).is_none());
    assert!(img.get_pixel(0, 2).is_none());
    assert!(!img.set_pixel(0, 2, BW::B));
}

#[test]
fn ppm_from_data_keeps_pixels() {
    let img = PPM::from_data(1, 2, vec![BW::B, BW::W]);
    assert!(matches!(img.get_pixel(0, 0), Some(BW::B)));
    assert!(matches!(img.get_pixel(1, 0), Some(BW::W)));
}

#[test]
fn ppm_file_bytes_exact() {
    let img = PPM::from_data(1, 2, vec![BW::B, BW::W]);
    let mut want = b"P6 2 1 255\n".to_vec();
    want.extend([0u8, 0, 0, 255, 255, 255]);
    assert_eq!(img.to_file_bytes(), want);
}

#[test]
fn ppm_file_bytes_multidigit_dimensions() {
    let img = PPM::new(12, 250);
    let bytes = img.to_file_bytes();
    assert!(bytes.starts_with(b"P6 250 12 255\n"));
    assert_eq!(bytes.len(), 14 + 3 * 250 * 12);
}

#[test]
fn flatten_concatenates_rows() {
    let rows = vec![vec![BW::B, BW::W], vec![BW::W, BW::B]];
    assert_eq!(flatten(rows), vec![BW::B, BW::W, BW::W, BW::B]);
}

#[test]
fn l1_builders() {
    let w = l1_white(3);
    assert_eq!((w.height, w.width), (1, 3));
    assert_eq!(w.data, vec![BW::W; 3]);
    let b = l1_black(2);
    assert_eq!((b.height, b.width), (1, 2));
    assert_eq!(b.data, vec![BW::B; 2]);
    let wb = l1_white_black(2, 1);
    assert_eq!((wb.height, wb.width), (1, 3));
    assert_eq!(wb.data, vec![BW::W, BW::W, BW::B]);
}

#[test]
fn multiline_testcase_builds_image() {
    let img = multiline_testcase(vec![
        vec![(BW::B, 1), (BW::W, 2)],
        vec![(BW::W, 1), (BW::B, 2)],
    ])
    .unwrap();
    assert_eq!((img.height, img.width), (2, 3));
    assert_eq!(img.data, vec![BW::B, BW::W, BW::W, BW::W, BW::B, BW::B]);
}

#[test]
fn multiline_testcase_rejects_ragged_rows() {
    let r = multiline_testcase(vec![vec![(BW::B, 1)], vec![(BW::W, 2)]]);
    assert!(r.is_none());
}

#[test]
fn multiline_testcase_rejects_empty() {
    assert!(multiline_testcase(Vec::new()).is_none());
}

#[test]
fn transitions_cursor_scans_and_rewinds() {
    let list = vec![2u16, 5, 9, 12];
    let mut t = Transitions::new();
    // first transition to Black (even index) right of 0
    assert_eq!(t.next_color(&list, 0, Color::Black, false), Some(2));
    assert_eq!(t.idx, 1);
    assert_eq!(t.next(&list), Some(5));
    // resume: next transition to Black right of 5 is 9
    assert_eq!(t.next_color(&list, 5, Color::Black, false), Some(9));
    assert_eq!(t.idx, 3);
    t.seek_back(&list, 4);
    assert_eq!(t.idx, 1);
    assert_eq!(t.next_color(&list, 4, Color::White, false), Some(5));
    // nothing right of 12
    assert_eq!(t.next_color(&list, 12, Color::Black, false), None);
}

#[test]
fn transitions_start_of_row_fixup() {
    let list = vec![0u16, 4, 7];
    let mut t = Transitions::new();
    assert_eq!(t.next_color(&list, 0, Color::Black, true), Some(0));
    assert_eq!(t.idx, 1);
    assert_eq!(t.next(&list), Some(4));
}
