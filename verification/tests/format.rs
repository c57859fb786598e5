use fmtlib::engine::{assemble, expand};
use fmtlib::render::Piece;
use fmtlib::{Arg, Error, Value};

fn format(template: &[u8], args: &[Arg]) -> Result<Vec<u8>, Error> {
    fmtlib::engine::format(template, args)
}

fn text(r: Result<Vec<u8>, Error>) -> String {
    String::from_utf8(r.expect("formatting failed")).unwrap()
}

#[test]
fn plain_text_is_copied() {
    assert_eq!(text(format(b"hello world", &[])), "hello world");
}

#[test]
fn empty_template_gives_empty_output() {
    assert_eq!(format(b"", &[]), Ok(Vec::new()));
    assert_eq!(format(b"", &[Arg::positional(1)]), Ok(Vec::new()));
}

#[test]
fn automatic_placeholder() {
    assert_eq!(text(format(b"hello {}", &[Arg::positional("world")])), "hello world");
}

#[test]
fn explicit_indices_repeat() {
    let args = [Arg::positional(12), Arg::positional(20)];
    assert_eq!(text(format(b"{0} {0} {1}", &args)), "12 12 20");
}

#[test]
fn names_repeat() {
    let args = [Arg::named("a", 12).unwrap(), Arg::named("b", 20).unwrap()];
    assert_eq!(text(format(b"{a} {a} {b}", &args)), "12 12 20");
}

#[test]
fn index_and_name_together() {
    let args = [Arg::positional(12), Arg::named("b", 20).unwrap()];
    assert_eq!(text(format(b"{0} {0} {b}", &args)), "12 12 20");
}

#[test]
fn automatic_and_explicit_do_not_mix() {
    let args = [Arg::positional(1), Arg::positional(2)];
    assert_eq!(format(b"{} {0} {}", &args), Err(Error::MixedIndexing(3)));
    assert_eq!(format(b"{0} {}", &args), Err(Error::MixedIndexing(4)));
    let named = [Arg::positional(1), Arg::named("n", 2).unwrap()];
    assert_eq!(format(b"{} {n}", &named), Err(Error::MixedIndexing(3)));
    assert_eq!(format(b"{n} {}", &named), Err(Error::MixedIndexing(4)));
}

#[test]
fn lone_open_brace_is_malformed() {
    assert_eq!(format(b"{", &[]), Err(Error::MalformedTemplate(0)));
    assert_eq!(format(b"ab{", &[]), Err(Error::MalformedTemplate(2)));
    assert_eq!(format(b"a}b", &[]), Err(Error::MalformedTemplate(1)));
    assert_eq!(format(b"{0", &[Arg::positional(1)]), Err(Error::MalformedTemplate(0)));
    assert_eq!(format(b"{:", &[Arg::positional(1)]), Err(Error::MalformedTemplate(0)));
    assert_eq!(format(b"{:.}", &[Arg::positional("x")]), Err(Error::MalformedTemplate(0)));
    assert_eq!(format(b"{:q}", &[Arg::positional(1)]), Err(Error::MalformedTemplate(0)));
    assert_eq!(format(b"{!}", &[Arg::positional(1)]), Err(Error::MalformedTemplate(0)));
    assert_eq!(
        format(b"{:99999999999}", &[Arg::positional(1)]),
        Err(Error::MalformedTemplate(0))
    );
}

#[test]
fn escapes_collapse() {
    assert_eq!(text(format(b"{{}}", &[])), "{}");
    assert_eq!(text(format(b"a{{b}}c{{{{", &[])), "a{b}c{{");
    assert_eq!(text(format(b"{{{}}}", &[Arg::positional(7)])), "{7}");
}

#[test]
fn resolution_failures() {
    let args = [Arg::positional(1), Arg::named("n", 2).unwrap()];
    assert_eq!(format(b"{} {}", &args), Err(Error::NoAutoArg(3)));
    assert_eq!(format(b"{}", &[]), Err(Error::NoAutoArg(0)));
    assert_eq!(format(b"{1}", &args), Err(Error::IndexOutOfRange(0)));
    assert_eq!(
        format(b"{99999999999999999999999999}", &args),
        Err(Error::IndexOutOfRange(0))
    );
    assert_eq!(format(b"x{m}", &args), Err(Error::UnknownName(b"m".to_vec(), 1)));
}

#[test]
fn first_failure_in_template_order_wins() {
    let args = [Arg::positional(1)];
    assert_eq!(format(b"{5} {", &args), Err(Error::IndexOutOfRange(0)));
    assert_eq!(format(b"{0} { {5}", &args), Err(Error::MalformedTemplate(4)));
}

#[test]
fn integer_specs() {
    let f = |t: &[u8], v: i64| text(format(t, &[Arg::positional(v)]));
    assert_eq!(f(b"{}", 0), "0");
    assert_eq!(f(b"{}", -17), "-17");
    assert_eq!(f(b"{:d}", 42), "42");
    assert_eq!(f(b"{:x}", 255), "ff");
    assert_eq!(f(b"{:X}", 255), "FF");
    assert_eq!(f(b"{:#x}", 255), "0xff");
    assert_eq!(f(b"{:#X}", 255), "0XFF");
    assert_eq!(f(b"{:x}", -255), "-ff");
    assert_eq!(f(b"{:o}", 8), "10");
    assert_eq!(f(b"{:#o}", 8), "010");
    assert_eq!(f(b"{:#o}", 0), "0");
    assert_eq!(f(b"{:b}", 5), "101");
    assert_eq!(f(b"{:#b}", 5), "0b101");
    assert_eq!(f(b"{:+}", 5), "+5");
    assert_eq!(f(b"{: }", 5), " 5");
    assert_eq!(f(b"{:-}", 5), "5");
    assert_eq!(f(b"{:+}", -5), "-5");
    assert_eq!(f(b"{:5}", 42), "   42");
    assert_eq!(f(b"{:<5}", 42), "42   ");
    assert_eq!(f(b"{:^5}", 42), " 42  ");
    assert_eq!(f(b"{:*^6}", 42), "**42**");
    assert_eq!(f(b"{:*>6}", -42), "***-42");
    assert_eq!(f(b"{:05}", 42), "00042");
    assert_eq!(f(b"{:05}", -42), "-0042");
    assert_eq!(f(b"{:#06x}", 255), "0x00ff");
    assert_eq!(f(b"{:<05}", 42), "42   ");
    assert_eq!(f(b"{:1}", 1234), "1234");
    assert_eq!(f(b"{}", i64::MIN), "-9223372036854775808");
    assert_eq!(f(b"{}", i64::MAX), "9223372036854775807");
    assert_eq!(f(b"{:x}", i64::MIN), "-8000000000000000");
}

#[test]
fn string_specs() {
    let f = |t: &[u8], v: &str| text(format(t, &[Arg::positional(v)]));
    assert_eq!(f(b"{}", "abc"), "abc");
    assert_eq!(f(b"{:s}", "abc"), "abc");
    assert_eq!(f(b"{:5}", "abc"), "abc  ");
    assert_eq!(f(b"{:>5}", "abc"), "  abc");
    assert_eq!(f(b"{:^6}", "abc"), " abc  ");
    assert_eq!(f(b"{:-^7}", "abc"), "--abc--");
    assert_eq!(f(b"{:.2}", "abc"), "ab");
    assert_eq!(f(b"{:.0}", "abc"), "");
    assert_eq!(f(b"{:.9}", "abc"), "abc");
    assert_eq!(f(b"{:5.2}", "abc"), "ab   ");
    assert_eq!(f(b"{:4}", "h\u{e9}"), "h\u{e9}  ");
    assert_eq!(f(b"{:.1}", "\u{e9}t\u{e9}"), "\u{e9}");
}

#[test]
fn boolean_specs() {
    let f = |t: &[u8], v: bool| text(format(t, &[Arg::positional(v)]));
    assert_eq!(f(b"{}", true), "true");
    assert_eq!(f(b"{}", false), "false");
    assert_eq!(f(b"{:d}", true), "1");
    assert_eq!(f(b"{:d}", false), "0");
    assert_eq!(f(b"{:6}", true), "true  ");
    assert_eq!(f(b"{:>6}", false), " false");
    assert_eq!(f(b"{:03d}", true), "001");
}

#[test]
fn spec_must_suit_the_kind() {
    assert_eq!(format(b"{:d}", &[Arg::positional("x")]), Err(Error::InvalidSpec(0)));
    assert_eq!(format(b"{:+}", &[Arg::positional("x")]), Err(Error::InvalidSpec(0)));
    assert_eq!(format(b"{:#}", &[Arg::positional("x")]), Err(Error::InvalidSpec(0)));
    assert_eq!(format(b"{:05}", &[Arg::positional("x")]), Err(Error::InvalidSpec(0)));
    assert_eq!(format(b"a{:s}", &[Arg::positional(1)]), Err(Error::InvalidSpec(1)));
    assert_eq!(format(b"{:f}", &[Arg::positional(1)]), Err(Error::InvalidSpec(0)));
    assert_eq!(format(b"{:.2}", &[Arg::positional(1)]), Err(Error::InvalidSpec(0)));
    assert_eq!(format(b"{:s}", &[Arg::positional(true)]), Err(Error::InvalidSpec(0)));
    assert_eq!(format(b"{:x}", &[Arg::positional(true)]), Err(Error::InvalidSpec(0)));
    assert_eq!(format(b"{:+}", &[Arg::positional(true)]), Err(Error::InvalidSpec(0)));
    let float = [Arg::Pos(Value::from_float_bits(1.5f64.to_bits()))];
    assert_eq!(format(b"{:d}", &float), Err(Error::InvalidSpec(0)));
    assert_eq!(format(b"{:s}", &float), Err(Error::InvalidSpec(0)));
}

#[test]
fn floats_are_placed_around_their_text() {
    let args = [Arg::Pos(Value::from_float_bits(1.5f64.to_bits())), Arg::positional(2)];
    assert!(matches!(format(b"{0} {1}", &args), Err(Error::FormatFailed(_))));
    let pieces = expand(b"<{0:08.2f}|{1}|{0:>6}>", &args).unwrap();
    let mut texts: Vec<Vec<u8>> = Vec::new();
    for piece in &pieces {
        if let Piece::Float { bits, spec } = piece {
            let x = f64::from_bits(*bits);
            let s = match spec.precision {
                Some(p) => format!("{:.*}", p as usize, x),
                None => format!("{}", x),
            };
            texts.push(s.into_bytes());
        }
    }
    assert_eq!(texts.len(), 2);
    assert_eq!(text(assemble(&pieces, &texts)), "<00001.50|2|   1.5>");
    assert!(matches!(assemble(&pieces, &texts[..1]), Err(Error::FormatFailed(_))));
    texts.push(b"x".to_vec());
    assert!(matches!(assemble(&pieces, &texts), Err(Error::FormatFailed(_))));
}

#[test]
fn negative_float_text_keeps_its_sign_in_front_of_the_zeros() {
    let args = [Arg::Pos(Value::from_float_bits((-2.5f64).to_bits()))];
    let pieces = expand(b"{:07}", &args).unwrap();
    assert_eq!(text(assemble(&pieces, &[b"-2.5".to_vec()])), "-0002.5");
    let inf = [Arg::Pos(Value::from_float_bits(f64::INFINITY.to_bits()))];
    let pieces = expand(b"{:07}", &inf).unwrap();
    assert_eq!(text(assemble(&pieces, &[b"inf".to_vec()])), "    inf");
}
