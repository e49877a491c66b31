use minesweeper::size::parse_size;

#[test]
fn a_width_an_x_and_a_height() {
    assert_eq!(parse_size("50x30"), Some((50, 30)));
    assert_eq!(parse_size("1x1"), Some((1, 1)));
    assert_eq!(parse_size("0x0"), Some((0, 0)));
    assert_eq!(parse_size("007x010"), Some((7, 10)));
    assert_eq!(parse_size("+5x+6"), Some((5, 6)));
    assert_eq!(parse_size("12x+0"), Some((12, 0)));
}

#[test]
fn anything_else_is_no_size() {
    for text in [
        "", "x", "5", "5x", "x5", "5x6x7", "5xx6", "5X6", "5 x 6", " 5x6", "5x6 ", "-5x6", "5x-6",
        "++5x6", "+x6", "5x+", "a5x6", "5.0x6", "5x6\n", "５x６", "0x10x", "x0x",
    ] {
        assert_eq!(parse_size(text), None, "{text:?}");
    }
}

#[test]
fn a_number_that_no_usize_holds_is_no_size() {
    let max = usize::MAX;
    assert_eq!(parse_size(&format!("{max}x{max}")), Some((max, max)));
    assert_eq!(parse_size(&format!("{max}0x1")), None);
    assert_eq!(parse_size(&format!("1x{max}0")), None);
    assert_eq!(parse_size("99999999999999999999999999x1"), None);
    let past = format!("{}", max as u128 + 1);
    assert_eq!(parse_size(&format!("1x{past}")), None);
    assert_eq!(parse_size(&format!("{past}x1")), None);
    assert_eq!(parse_size(&format!("000000000000000000000000000{max}x1")), Some((max, 1)));
}

#[test]
fn parse_size_agrees_with_the_standard_parser() {
    let texts = [
        "50x30", "+1x2", "1x+2", "-1x2", "1x", "x", "1x2x3", "0001x0", "1_0x2", "1e3x2", "٣x4",
        "+x1",
    ];
    for text in texts {
        let parts: Vec<&str> = text.split('x').collect();
        let want = if parts.len() == 2 {
            match (parts[0].parse::<usize>(), parts[1].parse::<usize>()) {
                (Ok(w), Ok(h)) => Some((w, h)),
                _ => None,
            }
        } else {
            None
        };
        assert_eq!(parse_size(text), want, "{text:?}");
    }
}
