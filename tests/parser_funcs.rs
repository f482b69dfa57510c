use hb_parse::{CommonParserFunctions, Cursor, ErrorKind, StrParser};

fn as_u32(t: String) -> Option<u32> {
    t.parse::<u32>().ok()
}

fn as_i32(t: String) -> Option<i32> {
    t.parse::<i32>().ok()
}

fn as_i64(t: String) -> Option<i64> {
    t.parse::<i64>().ok()
}

fn as_f32(t: String) -> Option<f32> {
    t.parse::<f32>().ok()
}

fn as_f64(t: String) -> Option<f64> {
    t.parse::<f64>().ok()
}

#[test]
fn parser_func_tests() {
    let mut source = StrParser::new(
        "This is a word. And some \"Strings, amazing!\" 1 -2 12.3 +inf -infinity infinity -nan (Or something like that) 2! 1.0",
    );
    assert_eq!(source.parse_word().unwrap(), "This".to_owned());
    assert_eq!(source.parse_word().unwrap(), "is".to_owned());
    assert_eq!(source.parse_word().unwrap(), "a".to_owned());
    assert_eq!(source.parse_word().unwrap(), "word".to_owned());
    assert_eq!(source.parse_symbol().unwrap(), '.');
    source.consume_whitespace().ok();
    assert_eq!(source.parse_word().unwrap(), "And".to_owned());
    assert_eq!(source.parse_word().unwrap(), "some".to_owned());
    assert_eq!(
        source.parse_string().unwrap(),
        "Strings, amazing!".to_owned()
    );
    assert_eq!(source.parse_num(false, as_u32).unwrap(), 1);
    assert_eq!(source.parse_num(false, as_i32).unwrap(), -2);
    assert_eq!(source.parse_num(true, as_f32).unwrap(), 12.3);
    assert_eq!(source.parse_num(true, as_f32).unwrap(), f32::INFINITY);
    assert_eq!(source.parse_num(true, as_f32).unwrap(), f32::NEG_INFINITY);
    assert_eq!(source.parse_num(true, as_f32).unwrap(), f32::INFINITY);
    assert!(source.parse_num(true, as_f32).unwrap().is_nan());
    assert_eq!(
        source.parse_brackets().unwrap(),
        "Or something like that".to_owned()
    );
    assert_eq!(source.parse_num(false, as_i64).unwrap(), 2);
    assert_eq!(source.parse_symbol().unwrap(), '!');
    assert_eq!(source.parse_num(false, as_i64).unwrap(), 1);
    assert_eq!(source.parse_symbol().unwrap(), '.');
    assert_eq!(source.parse_num(false, as_i64).unwrap(), 0);
}

#[test]
fn words_then_symbol() {
    let mut source = StrParser::new("This is a word.");
    assert_eq!(source.parse_word().unwrap(), "This");
    assert_eq!(source.parse_word().unwrap(), "is");
    assert_eq!(source.parse_word().unwrap(), "a");
    assert_eq!(source.parse_word().unwrap(), "word");
    assert_eq!(source.parse_symbol().unwrap(), '.');
    assert_eq!(source.position(), 15);
    assert_eq!(source.get_pointer_loc(), 0);
}

#[test]
fn quoted_string_strips_delimiters() {
    let mut source = StrParser::new("\"Strings, amazing!\"");
    assert_eq!(source.parse_string().unwrap(), "Strings, amazing!");
    assert_eq!(source.position(), 19);
}

#[test]
fn single_quoted_and_empty_strings() {
    let mut source = StrParser::new("  'a \"b\"' \"\" rest");
    assert_eq!(source.parse_string().unwrap(), "a \"b\"");
    assert_eq!(source.parse_string().unwrap(), "");
    assert_eq!(source.position(), 12);
    assert_eq!(source.parse_string().unwrap(), "rest");
}

#[test]
fn unclosed_string_is_empty_error() {
    let mut source = StrParser::new(" \"open");
    let e = source.parse_string().unwrap_err();
    assert_eq!(e.kind, ErrorKind::Empty);
    assert_eq!(source.position(), 0);
    assert_eq!(source.get_pointer_loc(), 0);
}

#[test]
fn signed_integer_and_float_specials() {
    let mut source = StrParser::new("-2");
    assert_eq!(source.parse_num(false, as_i32).unwrap(), -2);
    let mut source = StrParser::new("+inf");
    assert_eq!(source.parse_num(true, as_f64).unwrap(), f64::INFINITY);
    let mut source = StrParser::new("-nan");
    assert!(source.parse_num(true, as_f64).unwrap().is_nan());
    let mut source = StrParser::new("INFINITY");
    assert_eq!(source.parse_num(true, as_f64).unwrap(), f64::INFINITY);
}

#[test]
fn float_fraction_and_exponent() {
    let mut source = StrParser::new(" 1.5e-3x");
    assert_eq!(source.parse_num(true, as_f64).unwrap(), 1.5e-3);
    assert_eq!(source.position(), 7);
    let mut source = StrParser::new("2.5E2");
    assert_eq!(source.parse_num(true, as_f64).unwrap(), 250.0);
}

#[test]
fn integer_target_stops_before_fraction() {
    let mut source = StrParser::new("12.5");
    assert_eq!(source.parse_num(false, as_i64).unwrap(), 12);
    assert_eq!(source.position(), 2);
}

#[test]
fn bad_special_word_is_generic_error() {
    let mut source = StrParser::new(" info");
    let e = source.parse_num(true, as_f64).unwrap_err();
    assert_eq!(e.kind, ErrorKind::Generic);
    assert_eq!(source.position(), 0);
    assert_eq!(source.get_pointer_loc(), 0);
}

#[test]
fn failed_conversion_rolls_back() {
    let mut source = StrParser::new("  300");
    let e = source.parse_num(false, |t: String| t.parse::<u8>().ok()).unwrap_err();
    assert_eq!(e.kind, ErrorKind::Generic);
    assert_eq!(source.position(), 0);
    let mut source = StrParser::new("- 1");
    assert_eq!(source.parse_num(false, as_i64).unwrap_err().kind, ErrorKind::Generic);
    assert_eq!(source.position(), 0);
}

#[test]
fn number_on_empty_input() {
    let mut source = StrParser::new("   ");
    assert_eq!(source.parse_num(false, as_i64).unwrap_err().kind, ErrorKind::Empty);
    let mut source = StrParser::new(" -");
    assert_eq!(source.parse_num(false, as_i64).unwrap_err().kind, ErrorKind::Empty);
    assert_eq!(source.position(), 0);
}

#[test]
fn brackets_span() {
    let mut source = StrParser::new("(Or something like that)");
    assert_eq!(source.parse_brackets().unwrap(), "Or something like that");
    assert_eq!(source.position(), 24);
}

#[test]
fn brackets_nested_pairs() {
    let mut source = StrParser::new("(a(b)c) [x] {y} <z>");
    assert_eq!(source.parse_brackets().unwrap(), "a(b)c");
    assert_eq!(source.parse_brackets().unwrap(), "x");
    assert_eq!(source.parse_brackets().unwrap(), "y");
    assert_eq!(source.parse_brackets().unwrap(), "z");
}

#[test]
fn brackets_errors() {
    let mut source = StrParser::new("x)");
    assert_eq!(source.parse_brackets().unwrap_err().kind, ErrorKind::Unexpected);
    assert_eq!(source.position(), 0);
    let mut source = StrParser::new("(a(b)");
    assert_eq!(source.parse_brackets().unwrap_err().kind, ErrorKind::Empty);
    assert_eq!(source.position(), 0);
    let mut source = StrParser::new("");
    assert_eq!(source.parse_brackets().unwrap_err().kind, ErrorKind::Empty);
}

#[test]
fn read_word_on_empty_input() {
    let mut source = StrParser::new("");
    let e = source.read_word().unwrap_err();
    assert_eq!(e.kind, ErrorKind::Empty);
    assert_eq!(source.position(), 0);
    assert_eq!(source.get_pointer_loc(), 0);
}

#[test]
fn read_word_leaves_lookahead() {
    let mut source = StrParser::new("  héllo wörld");
    assert_eq!(source.read_word().unwrap(), "héllo");
    assert_eq!(source.position(), 0);
    assert_eq!(source.get_pointer_loc(), 7);
    source.reset_pointer_loc();
    assert_eq!(source.parse_word().unwrap(), "héllo");
    assert_eq!(source.parse_word().unwrap(), "wörld");
}

#[test]
fn word_before_symbol_is_empty() {
    let mut source = StrParser::new(" ,x");
    assert_eq!(source.parse_word().unwrap(), "");
    assert_eq!(source.position(), 1);
}

#[test]
fn unicode_whitespace_is_skipped() {
    let mut source = StrParser::new("\u{3000}\u{a0}\tword");
    assert_eq!(source.parse_word().unwrap(), "word");
    assert_eq!(source.position(), 7);
}

#[test]
fn fresh_cursor_is_required() {
    let mut source = StrParser::new("ab cd");
    source.read_word().unwrap();
    assert_eq!(source.parse_word().unwrap_err().kind, ErrorKind::Generic);
    assert_eq!(source.parse_string().unwrap_err().kind, ErrorKind::Generic);
    assert_eq!(source.parse_brackets().unwrap_err().kind, ErrorKind::Generic);
    assert_eq!(source.parse_num(false, as_i64).unwrap_err().kind, ErrorKind::Generic);
    assert_eq!(source.parse_symbol().unwrap_err().kind, ErrorKind::Generic);
    assert_eq!(source.match_char('a').unwrap_err().kind, ErrorKind::Generic);
    assert_eq!(source.match_str("ab").unwrap_err().kind, ErrorKind::Generic);
    assert_eq!(source.consume_whitespace().unwrap_err().kind, ErrorKind::Generic);
    assert_eq!(source.get_pointer_loc(), 2);
    assert_eq!(source.position(), 0);
}

#[test]
fn symbol_errors() {
    let mut source = StrParser::new("  a");
    assert_eq!(source.parse_symbol().unwrap_err().kind, ErrorKind::Generic);
    assert_eq!(source.get_pointer_loc(), 0);
    let mut source = StrParser::new("  ");
    assert_eq!(source.read_symbol().unwrap_err().kind, ErrorKind::Empty);
    let mut source = StrParser::new(" ;");
    assert_eq!(source.read_symbol().unwrap(), ';');
    assert_eq!(source.get_pointer_loc(), 2);
    assert_eq!(source.position(), 0);
}

#[test]
fn match_char_cases() {
    let mut source = StrParser::new("  x y");
    assert_eq!(source.match_char('y').unwrap(), false);
    assert_eq!(source.position(), 0);
    assert_eq!(source.get_pointer_loc(), 0);
    assert_eq!(source.match_char('x').unwrap(), true);
    assert_eq!(source.position(), 3);
    assert_eq!(source.match_char('y').unwrap(), true);
    assert_eq!(source.match_char('y').unwrap_err().kind, ErrorKind::Empty);
}

#[test]
fn match_str_cases() {
    let mut source = StrParser::new(" let x");
    assert_eq!(source.match_str("lex").unwrap(), false);
    assert_eq!(source.position(), 0);
    assert_eq!(source.get_pointer_loc(), 0);
    assert_eq!(source.match_str("").unwrap_err().kind, ErrorKind::Empty);
    assert_eq!(source.match_str("let").unwrap(), true);
    assert_eq!(source.position(), 4);
    assert_eq!(source.match_str("xyz").unwrap_err().kind, ErrorKind::Empty);
    assert_eq!(source.position(), 4);
    assert_eq!(source.match_str("x").unwrap(), true);
}

#[test]
fn match_num_cases() {
    let mut source = StrParser::new(" -42 7");
    assert_eq!(source.match_num(42).unwrap(), false);
    assert_eq!(source.position(), 0);
    assert_eq!(source.match_num(-42).unwrap(), true);
    assert_eq!(source.position(), 4);
    assert_eq!(source.match_num(7).unwrap(), true);
}

#[test]
fn consume_whitespace_commits() {
    let mut source = StrParser::new(" \n\t x");
    source.consume_whitespace().unwrap();
    assert_eq!(source.position(), 4);
    assert_eq!(source.get_pointer_loc(), 0);
    let mut source = StrParser::new("   ");
    source.consume_whitespace().unwrap();
    assert_eq!(source.position(), 3);
}

#[test]
fn skip_whitespace_does_not_commit() {
    let mut source = StrParser::new("  x");
    source.skip_whitespace().unwrap();
    assert_eq!(source.position(), 0);
    assert_eq!(source.get_pointer_loc(), 2);
}

#[test]
fn breadcrumbs_innermost_first() {
    let mut source = StrParser::new("");
    let e = source.parse_word().unwrap_err();
    assert_eq!(e.kind, ErrorKind::Empty);
    assert_eq!(e.context, vec!["could not read word".to_owned(), "could not parse word".to_owned()]);
}

#[test]
fn cursor_operations() {
    let mut source = StrParser::new("abc");
    assert_eq!(source.peek(), Some((0, 'a')));
    assert_eq!(source.next(), Some((0, 'a')));
    assert_eq!(source.next(), Some((1, 'b')));
    assert_eq!(source.read_substr(0, 2).unwrap(), "ab");
    assert_eq!(source.read_substr(1, 2).unwrap_err().kind, ErrorKind::Generic);
    source.consume(1);
    assert_eq!(source.position(), 1);
    assert_eq!(source.peek(), Some((0, 'b')));
    source.next();
    source.next();
    assert_eq!(source.next(), None);
}

#[test]
fn parse_int_values_and_errors() {
    let mut source = StrParser::new(" -25 +7 99999999999999999999 x");
    assert_eq!(source.parse_int().unwrap(), -25);
    assert_eq!(source.position(), 4);
    assert_eq!(source.parse_int().unwrap(), 7);
    assert_eq!(source.parse_int().unwrap_err().kind, ErrorKind::Generic);
    assert_eq!(source.position(), 7);
    source.consume_whitespace().unwrap();
    source.parse_word().unwrap();
    source.consume_whitespace().unwrap();
    assert_eq!(source.parse_int().unwrap_err().kind, ErrorKind::Generic);
    source.parse_word().unwrap();
    assert_eq!(source.parse_int().unwrap_err().kind, ErrorKind::Empty);
}

#[test]
fn integer_round_trip() {
    for v in [0i64, 7, -7, 1234567890, i64::MIN, i64::MAX] {
        let text = format!("{}", v);
        let mut source = StrParser::new(&text);
        assert_eq!(source.parse_int().unwrap(), v);
        assert_eq!(source.position(), text.chars().count());
        let mut source = StrParser::new(&text);
        assert_eq!(source.match_num(v as i128).unwrap(), true);
    }
}

#[test]
fn float_round_trip() {
    for v in [0.5f64, -1.25e-7, 3.0e300, f64::MAX, f64::MIN_POSITIVE] {
        let text = format!("{:e}", v);
        let mut source = StrParser::new(&text);
        assert_eq!(source.parse_num(true, as_f64).unwrap(), v);
        let text = format!("{}", v);
        let mut source = StrParser::new(&text);
        assert_eq!(source.parse_num(true, as_f64).unwrap(), v);
    }
    for v in [f64::INFINITY, f64::NEG_INFINITY] {
        let text = format!("{}", v);
        let mut source = StrParser::new(&text);
        assert_eq!(source.parse_num(true, as_f64).unwrap(), v);
    }
    let text = format!("{}", f64::NAN);
    let mut source = StrParser::new(&text);
    assert!(source.parse_num(true, as_f64).unwrap().is_nan());
}

#[test]
fn error_description_lists_breadcrumbs() {
    let mut source = StrParser::new("   ");
    let e = source.parse_symbol().unwrap_err();
    assert_eq!(
        e.describe(),
        "no symbol is left in the source\ncould not read symbol\ncould not parse symbol"
    );
}

#[test]
fn non_ascii_letter_is_not_a_symbol() {
    let mut source = StrParser::new(" é");
    let e = source.parse_symbol().unwrap_err();
    assert_eq!(e.kind, ErrorKind::Generic);
    assert_eq!(e.context, vec!["could not read symbol".to_owned(), "could not parse symbol".to_owned()]);
    assert_eq!(source.position(), 0);
    assert_eq!(source.get_pointer_loc(), 0);
    let mut source = StrParser::new("§x");
    assert_eq!(source.parse_symbol().unwrap(), '§');
    assert_eq!(source.position(), 1);
}

#[test]
fn match_num_beyond_i64() {
    let big = u64::MAX as i128;
    let text = format!("{} {}", big, i128::MIN);
    let mut source = StrParser::new(&text);
    assert_eq!(source.match_num(big).unwrap(), true);
    assert_eq!(source.match_num(i128::MIN).unwrap(), true);
}

#[test]
fn misuse_error_carries_one_breadcrumb() {
    let mut source = StrParser::new("ab");
    source.read_word().unwrap();
    let e = source.parse_word().unwrap_err();
    assert_eq!(e.context, vec!["could not parse word".to_owned()]);
}
