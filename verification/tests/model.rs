use fmtlib::arg::{check_key, IntoArgs};
use fmtlib::builder::{args, rt_format_args, ArgMacroInput, Container};
use fmtlib::syntax::{expand_key, expand_literal, expand_value, Expansion, Expr, Lit};
use fmtlib::{Arg, Error, Key, Kind, Value};

#[test]
fn value_kinds() {
    assert_eq!(Value::from(true).kind(), Kind::Bool);
    assert_eq!(Value::from(3i64).kind(), Kind::Int64);
    assert_eq!(Value::from("s").kind(), Kind::String);
    assert_eq!(Value::from_float_bits(0).kind(), Kind::Float64);
    assert!(Value::from(true).is_bool());
    assert!(Value::from(3).is_int64());
    assert!(Value::from_float_bits(1).is_float64());
    assert!(Value::from("s").is_string());
    assert!(!Value::from("s").is_bool());
    assert!(!Value::from(true).is_int64());
    assert!(!Value::from(1).is_float64());
    assert!(!Value::from(1).is_string());
}

#[test]
fn value_conversions_widen() {
    assert_eq!(Value::from(-5i8), Value::Int64(-5));
    assert_eq!(Value::from(-5i16), Value::Int64(-5));
    assert_eq!(Value::from(-5i32), Value::Int64(-5));
    assert_eq!(Value::from(200u8), Value::Int64(200));
    assert_eq!(Value::from(60000u16), Value::Int64(60000));
    assert_eq!(Value::from(4000000000u32), Value::Int64(4000000000));
    assert_eq!(Value::from('x'), Value::String(String::from("x")));
    assert_eq!(Value::from('\u{e9}'), Value::String(String::from("\u{e9}")));
    assert_eq!(Value::from(String::from("own")), Value::String(String::from("own")));
    assert_eq!(Value::new("abc"), Value::String(String::from("abc")));
    assert_eq!(Value::new(7), Value::Int64(7));
    assert_eq!(Value::from_u64(7), Ok(Value::Int64(7)));
    assert_eq!(Value::from_u64(i64::MAX as u64), Ok(Value::Int64(i64::MAX)));
    assert!(matches!(Value::from_u64(i64::MAX as u64 + 1), Err(Error::InvalidOperation(_))));
    assert!(matches!(Value::from_u64(u64::MAX), Err(Error::InvalidOperation(_))));
}

#[test]
fn value_access_of_the_wrong_kind_fails() {
    assert_eq!(Value::Int64(3).get_string(), Err(Error::ValueAccess("string")));
    assert_eq!(Value::Int64(3).get_bool(), Err(Error::ValueAccess("bool")));
    assert_eq!(Value::Int64(3).get_float64(), Err(Error::ValueAccess("float64")));
    assert_eq!(Value::Bool(true).get_int64(), Err(Error::ValueAccess("int64")));
    assert_eq!(Value::Int64(3).get_int64(), Ok(3));
    assert_eq!(Value::Bool(true).get_bool(), Ok(true));
    assert_eq!(Value::from("s").get_string(), Ok("s"));
    assert_eq!(Value::from_float_bits(2.5f64.to_bits()).get_float64(), Ok(2.5f64.to_bits()));
}

#[test]
fn keys_are_checked_at_construction() {
    assert_eq!(Arg::named("", 1), Err(Error::InvalidKey));
    assert_eq!(Arg::named("x\0y", 1), Err(Error::InvalidKey));
    assert_eq!(Arg::named("\0", 1), Err(Error::InvalidKey));
    assert_eq!(Key::new(Vec::new()), Err(Error::InvalidKey));
    assert_eq!(Key::new(vec![b'x', 0]), Err(Error::InvalidKey));
    assert_eq!(Key::from_text("x\0"), Err(Error::InvalidKey));
    assert!(!check_key(b""));
    assert!(!check_key(b"a\0"));
    assert!(check_key(b"a"));
    let key = Key::new(b"name".to_vec()).unwrap();
    assert_eq!(key.as_bytes(), b"name");
    assert_eq!(key.clone(), key);
    let arg = Arg::named("k", "v").unwrap();
    assert!(arg.is_named());
    assert!(!arg.is_positional());
    assert_eq!(arg.get_name(), Ok(&b"k"[..]));
    assert_eq!(arg.get_value(), &Value::from("v"));
}

#[test]
fn positional_arguments_have_no_name() {
    let arg = Arg::positional(5);
    assert!(arg.is_positional());
    assert!(!arg.is_named());
    assert_eq!(
        arg.get_name(),
        Err(Error::InvalidOperation("positional argument has no name"))
    );
    assert_eq!(arg.get_value(), &Value::Int64(5));
    assert_eq!(Arg::from(5), arg);
}

#[test]
fn values_turn_into_argument_sequences() {
    assert_eq!(7.into_args(), vec![Arg::Pos(Value::Int64(7))]);
    assert_eq!(
        vec!["a", "b"].into_args(),
        vec![Arg::positional("a"), Arg::positional("b")]
    );
    let slice: &[bool] = &[true, false];
    assert_eq!(slice.into_args(), vec![Arg::positional(true), Arg::positional(false)]);
    assert_eq!(Vec::<i64>::new().into_args(), Vec::<Arg>::new());
}

#[test]
fn runtime_builder_puts_positional_first() {
    let a = rt_format_args(vec![
        Arg::named("a", "v").unwrap(),
        Arg::named("b", "v").unwrap(),
        Arg::positional('c'),
        Arg::positional(10),
    ]);
    assert_eq!(
        a,
        vec![
            Arg::positional("c"),
            Arg::positional(10),
            Arg::named("a", "v").unwrap(),
            Arg::named("b", "v").unwrap(),
        ]
    );
    assert_eq!(a.len(), 4);
    assert_eq!(rt_format_args(Vec::new()), Vec::<Arg>::new());
    let b = rt_format_args(vec![
        Arg::positional(1),
        Arg::named("x", 2).unwrap(),
        Arg::positional(3),
        Arg::named("y", 4).unwrap(),
        Arg::positional(5),
    ]);
    assert_eq!(
        b,
        vec![
            Arg::positional(1),
            Arg::positional(3),
            Arg::positional(5),
            Arg::named("x", 2).unwrap(),
            Arg::named("y", 4).unwrap(),
        ]
    );
}

#[test]
fn container_follows_the_count() {
    let many = |n: usize| (0..n).map(|_| ArgMacroInput::Pos(Expr::Path(None))).collect::<Vec<_>>();
    assert_eq!(args(many(0), false).container, Container::Empty);
    assert_eq!(args(many(1), false).container, Container::Inline);
    assert_eq!(args(many(1024), true).container, Container::Inline);
    assert_eq!(args(many(1025), false).container, Container::Heap);
    assert_eq!(args(many(1025), false).items.len(), 1025);
}

#[test]
fn named_form_needs_one_colon() {
    assert!(ArgMacroInput::is_named_form(true, false));
    assert!(!ArgMacroInput::is_named_form(true, true));
    assert!(!ArgMacroInput::is_named_form(false, false));
    assert!(!ArgMacroInput::is_named_form(false, true));
}

#[test]
fn keys_are_normalized() {
    let text = |s: &str| Expansion::Text(String::from(s));
    assert_eq!(expand_key(&Expr::Path(Some(String::from("name")))), text("name"));
    assert_eq!(expand_key(&Expr::Lit(Lit::Int(String::from("10")))), text("10"));
    assert_eq!(expand_key(&Expr::Lit(Lit::Char('b'))), text("b"));
    assert_eq!(expand_key(&Expr::Lit(Lit::Str)), Expansion::Verbatim);
    assert_eq!(expand_key(&Expr::Path(None)), Expansion::Verbatim);
    assert_eq!(
        expand_key(&Expr::Lit(Lit::Bool)),
        Expansion::Error("bool literals are not supported as keys")
    );
    assert_eq!(
        expand_key(&Expr::Lit(Lit::Float)),
        Expansion::Error("bool literals are not supported as keys")
    );
    assert_eq!(
        expand_key(&Expr::Array),
        Expansion::Error("array expressions are not supported")
    );
}

#[test]
fn literals_are_rewritten() {
    assert_eq!(expand_literal(&Lit::Str), Expansion::Verbatim);
    assert_eq!(expand_literal(&Lit::Char('c')), Expansion::Text(String::from("c")));
    assert_eq!(expand_literal(&Lit::Int(String::from("3"))), Expansion::Verbatim);
    assert_eq!(expand_literal(&Lit::Float), Expansion::Verbatim);
    assert_eq!(expand_literal(&Lit::Bool), Expansion::Verbatim);
    assert_eq!(expand_literal(&Lit::Verbatim), Expansion::Verbatim);
    assert_eq!(
        expand_literal(&Lit::ByteStr),
        Expansion::Error("byte string literals are not supported")
    );
    assert_eq!(expand_literal(&Lit::Byte), Expansion::Error("byte literals are not supported"));
}

#[test]
fn value_expressions_are_screened() {
    let accepted = [
        Expr::Binary,
        Expr::Block,
        Expr::Call,
        Expr::Cast,
        Expr::Const,
        Expr::Field,
        Expr::Group,
        Expr::If,
        Expr::Index,
        Expr::Macro,
        Expr::Match,
        Expr::MethodCall,
        Expr::Paren,
        Expr::Path(None),
        Expr::Path(Some(String::from("x"))),
        Expr::Reference,
        Expr::Try,
        Expr::Unary,
        Expr::Unsafe,
        Expr::Lit(Lit::Str),
    ];
    for e in &accepted {
        assert_eq!(expand_value(e), Expansion::Verbatim);
    }
    let rejected = [
        (Expr::Array, "array expressions are not supported"),
        (Expr::Assign, "assignment expressions are not supported"),
        (Expr::Async, "async expressions are not supported"),
        (Expr::Await, "await expressions are not supported"),
        (Expr::Break, "break expressions are not supported"),
        (Expr::Closure, "closure expressions are not supported"),
        (Expr::Continue, "continue expressions are not supported"),
        (Expr::ForLoop, "for loop expressions are not supported"),
        (Expr::Infer, "'_' expressions are not supported"),
        (Expr::Let, "let expressions are not supported"),
        (Expr::Loop, "loop expressions are not supported"),
        (Expr::Range, "range expressions are not supported"),
        (Expr::Repeat, "array literal expressions are not supported"),
        (Expr::Return, "return expressions are not supported"),
        (Expr::Struct, "struct expressions are not supported"),
        (Expr::TryBlock, "try block expressions are not supported"),
        (Expr::Tuple, "tuple expressions are not supported"),
        (Expr::Verbatim, "array expressions are not supported"),
        (Expr::While, "while loops expressions are not supported"),
        (Expr::Yield, "yield expressions are not supported"),
        (Expr::Other, "expression is not supported"),
        (Expr::Lit(Lit::Byte), "byte literals are not supported"),
    ];
    for (e, msg) in &rejected {
        assert_eq!(expand_value(e), Expansion::Error(msg));
    }
}

#[test]
fn errors_have_messages() {
    assert_eq!(
        Error::InvalidOperation("positional argument has no name").message(),
        "invalid operation: positional argument has no name"
    );
    assert_eq!(
        Error::FormatFailed(String::from("why")).message(),
        "formatting failed: why"
    );
    assert_eq!(
        Error::ValueAccess("string").message(),
        "incorrect value type access: value does not hold the type string"
    );
    assert_eq!(
        Error::InvalidKey.message(),
        "invalid key: a key is not empty and holds no NUL"
    );
    assert_eq!(Error::MalformedTemplate(3).message(), "malformed template");
    assert_eq!(
        Error::NoAutoArg(3).message(),
        "no argument left for an automatic placeholder"
    );
    assert_eq!(Error::IndexOutOfRange(3).message(), "argument index out of range");
    assert_eq!(Error::UnknownName(b"n".to_vec(), 3).message(), "unknown argument name");
    assert_eq!(
        Error::MixedIndexing(3).message(),
        "automatic and explicit argument references mixed"
    );
    assert_eq!(Error::InvalidSpec(3).message(), "format spec does not suit the argument");
}

#[test]
fn engine_errors_have_offsets() {
    assert_eq!(Error::MalformedTemplate(3).offset(), Some(3));
    assert_eq!(Error::NoAutoArg(4).offset(), Some(4));
    assert_eq!(Error::IndexOutOfRange(5).offset(), Some(5));
    assert_eq!(Error::UnknownName(b"n".to_vec(), 6).offset(), Some(6));
    assert_eq!(Error::MixedIndexing(7).offset(), Some(7));
    assert_eq!(Error::InvalidSpec(8).offset(), Some(8));
    assert_eq!(Error::InvalidKey.offset(), None);
    assert_eq!(Error::ValueAccess("bool").offset(), None);
    assert_eq!(Error::InvalidOperation("x").offset(), None);
    assert_eq!(Error::FormatFailed(String::new()).offset(), None);
}
