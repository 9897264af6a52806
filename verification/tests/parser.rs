use re_parse::ast::Re;
use re_parse::error::ParseErrorKind;
use re_parse::error::render_error;
use re_parse::parse_regex;

#[test]
fn parse_abc() {
    assert_eq!(
        parse_regex("abc*"),
        Ok(Re::ReSeq(vec![
            Re::ReChar('a'),
            Re::ReChar('b'),
            Re::ReStar(Box::new(Re::ReChar('c'))),
        ]))
    );
}

#[test]
fn parse_group() {
    assert_eq!(
        parse_regex("a(bc)*"),
        Ok(Re::ReSeq(vec![
            Re::ReChar('a'),
            Re::ReStar(Box::new(Re::ReGroup(Box::new(Re::ReSeq(vec![
                Re::ReChar('b'),
                Re::ReChar('c'),
            ]))))),
        ]))
    );
}

#[test]
fn parse_empty_input() {
    assert_eq!(parse_regex(""), Ok(Re::ReSeq(vec![])));
}

#[test]
fn parse_empty_group() {
    assert_eq!(
        parse_regex("()"),
        Ok(Re::ReSeq(vec![Re::ReGroup(Box::new(Re::ReSeq(vec![])))]))
    );
}

#[test]
fn parse_dot() {
    assert_eq!(parse_regex("."), Ok(Re::ReSeq(vec![Re::ReDot])));
}

#[test]
fn parse_dot_star() {
    assert_eq!(
        parse_regex(".*"),
        Ok(Re::ReSeq(vec![Re::ReStar(Box::new(Re::ReDot))]))
    );
}

#[test]
fn parse_plus() {
    assert_eq!(
        parse_regex("a+"),
        Ok(Re::ReSeq(vec![Re::RePlus(Box::new(Re::ReChar('a')))]))
    );
}

#[test]
fn parse_escapes_verbatim() {
    // No escape-sequence interpretation: `\n` is the letter n, `\*` and
    // `\\` are the literal characters.
    assert_eq!(parse_regex("\\n"), Ok(Re::ReSeq(vec![Re::ReChar('n')])));
    assert_eq!(parse_regex("\\*"), Ok(Re::ReSeq(vec![Re::ReChar('*')])));
    assert_eq!(parse_regex("\\\\"), Ok(Re::ReSeq(vec![Re::ReChar('\\')])));
}

#[test]
fn parse_nested_groups() {
    assert_eq!(
        parse_regex("((a))"),
        Ok(Re::ReSeq(vec![Re::ReGroup(Box::new(Re::ReSeq(vec![
            Re::ReGroup(Box::new(Re::ReSeq(vec![Re::ReChar('a')]))),
        ])))]))
    );
}

#[test]
fn quantifiers_do_not_stack() {
    // The second `*` is read as a fresh atom, a literal character: the
    // result is not a doubly wrapped star and not an error.
    assert_eq!(
        parse_regex("a**"),
        Ok(Re::ReSeq(vec![
            Re::ReStar(Box::new(Re::ReChar('a'))),
            Re::ReChar('*'),
        ]))
    );
    assert_eq!(
        parse_regex("a+*"),
        Ok(Re::ReSeq(vec![
            Re::RePlus(Box::new(Re::ReChar('a'))),
            Re::ReChar('*'),
        ]))
    );
}

#[test]
fn literal_bytes_only() {
    assert_eq!(
        parse_regex("xy z"),
        Ok(Re::ReSeq(vec![
            Re::ReChar('x'),
            Re::ReChar('y'),
            Re::ReChar(' '),
            Re::ReChar('z'),
        ]))
    );
}

#[test]
fn multibyte_input_splits_per_byte() {
    // The scanner works on raw bytes: a two-byte encoded character
    // becomes two literal nodes, one per byte.
    assert_eq!(
        parse_regex("\u{e9}"),
        Ok(Re::ReSeq(vec![Re::ReChar('\u{c3}'), Re::ReChar('\u{a9}')]))
    );
}

#[test]
fn error_close_paren_at_start() {
    assert_eq!(
        parse_regex(")"),
        Err(String::from("at position 0, unexpected character ')'"))
    );
}

#[test]
fn error_unclosed_group() {
    assert_eq!(
        parse_regex("("),
        Err(String::from("at position 1, expected ')', found EOF"))
    );
}

#[test]
fn error_eof_in_escape() {
    assert_eq!(
        parse_regex("\\"),
        Err(String::from("at position 1, EOF in escape"))
    );
}

#[test]
fn error_inside_group_propagates() {
    assert_eq!(
        parse_regex("(\\"),
        Err(String::from("at position 2, EOF in escape"))
    );
}

#[test]
fn error_trailing_after_valid_prefix() {
    assert_eq!(
        parse_regex("a)b"),
        Err(String::from("at position 1, unexpected character ')'"))
    );
}

#[test]
fn error_positions_render_with_two_digits() {
    assert_eq!(
        parse_regex("aaaaaaaaaa("),
        Err(String::from("at position 11, expected ')', found EOF"))
    );
    assert_eq!(
        parse_regex("aaaaaaaaa\\"),
        Err(String::from("at position 10, EOF in escape"))
    );
}

#[test]
fn render_expected_found_char() {
    // This kind is kept for a caller that reaches the expect helper
    // with a byte that is neither the expected one nor the end of the
    // input; the driver itself never produces it.
    assert_eq!(
        render_error(
            5,
            ParseErrorKind::ExpectedCharFoundChar {
                expected: ')',
                found: 'x',
            }
        ),
        String::from("at position 5, expected ')', found 'x'")
    );
}

#[test]
fn render_unbalanced_close_paren() {
    // The kind produced by the defensive atom-routine branch for a
    // bare `)`.
    assert_eq!(
        render_error(0, ParseErrorKind::UnbalancedCloseParen),
        String::from("at position 0, Unbalanced close paren")
    );
}

#[test]
fn parse_is_deterministic() {
    assert_eq!(parse_regex("a(bc)*"), parse_regex("a(bc)*"));
    assert_eq!(parse_regex("(x"), parse_regex("(x"));
}
