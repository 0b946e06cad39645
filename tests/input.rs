use tic_tac_toe::{
    parse_usize, prompt_usize, read_placement, Grid, NOT_A_NUMBER_MSG, OUT_OF_RANGE_MSG,
    SLOT_FULL_MSG,
};

#[test]
fn parse_plain_numbers() {
    assert_eq!(parse_usize("0"), Some(0));
    assert_eq!(parse_usize("42"), Some(42));
    assert_eq!(parse_usize("007"), Some(7));
    assert_eq!(parse_usize(&usize::MAX.to_string()), Some(usize::MAX));
}

#[test]
fn parse_rejects() {
    assert_eq!(parse_usize(""), None);
    assert_eq!(parse_usize("4a"), None);
    assert_eq!(parse_usize("+4"), None);
    assert_eq!(parse_usize(" 4"), None);
    assert_eq!(parse_usize("99999999999999999999999999"), None);
}

#[test]
fn prompt_usize_keeps_numeric_characters() {
    assert_eq!(prompt_usize("5"), Ok(5));
    assert_eq!(prompt_usize(" 7 "), Ok(7));
    assert_eq!(prompt_usize("x3y"), Ok(3));
    assert_eq!(prompt_usize("1 2"), Ok(12));
}

#[test]
fn prompt_usize_failures() {
    assert_eq!(prompt_usize("abc"), Err(String::new()));
    assert_eq!(prompt_usize(""), Err(String::new()));
    assert_eq!(prompt_usize("a\u{0663}b"), Err(String::from("\u{0663}")));
    assert_eq!(prompt_usize("\u{00BD}1"), Err(String::from("\u{00BD}1")));
}

#[test]
fn read_placement_answers() {
    let mut g = Grid::empty();
    assert_eq!(read_placement(&g, "5"), Ok(5));
    assert_eq!(read_placement(&g, "abc"), Err(NOT_A_NUMBER_MSG));
    assert_eq!(read_placement(&g, "15"), Err(OUT_OF_RANGE_MSG));
    assert_eq!(read_placement(&g, "0"), Err(OUT_OF_RANGE_MSG));
    g.plot(5, 'X');
    assert_eq!(read_placement(&g, "5"), Err(SLOT_FULL_MSG));
}
