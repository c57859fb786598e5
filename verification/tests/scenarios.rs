use fmtlib::builder::{args, rt_format_args, ArgList, ArgMacroInput, Container};
use fmtlib::syntax::{Expansion, Expr, Lit};
use fmtlib::{Arg, Error, Value};

fn format(template: &str, args: &[Arg]) -> Result<String, Error> {
    fmtlib::engine::format(template.as_bytes(), args).map(|b| String::from_utf8(b).unwrap())
}

fn ident(name: &str) -> Expr {
    Expr::Path(Some(String::from(name)))
}

fn int_lit(digits: &str) -> Expr {
    Expr::Lit(Lit::Int(String::from(digits)))
}

/// What the code that the builder puts out evaluates to, given what each
/// expression as written evaluates to.
fn run(list: &ArgList, keys: &[Option<&str>], values: &[Value]) -> Vec<Arg> {
    let mut out = Vec::new();
    for item in &list.items {
        let value = match &item.value {
            Expansion::Verbatim => values[item.index].clone(),
            Expansion::Text(s) => Value::from(s.clone()),
            Expansion::Error(msg) => panic!("{}", msg),
        };
        match &item.key {
            None => out.push(Arg::positional(value)),
            Some(Expansion::Verbatim) => {
                out.push(Arg::named(keys[item.index].unwrap(), value).unwrap())
            }
            Some(Expansion::Text(s)) => out.push(Arg::named(s, value).unwrap()),
            Some(Expansion::Error(msg)) => panic!("{}", msg),
        }
    }
    out
}

fn is_named(arg: &Arg, key: &str, value: &str) -> bool {
    matches!(arg, Arg::Named(k, Value::String(v)) if k.as_bytes() == key.as_bytes() && v == value)
}

#[test]
fn tests() {
    // positional entries only
    let list = args(
        vec![
            ArgMacroInput::Pos(Expr::Lit(Lit::Str)),
            ArgMacroInput::Pos(Expr::Lit(Lit::Char('b'))),
            ArgMacroInput::Pos(int_lit("3")),
            ArgMacroInput::Pos(Expr::Call),
            ArgMacroInput::Pos(Expr::Call),
            ArgMacroInput::Pos(Expr::Lit(Lit::Bool)),
            ArgMacroInput::Pos(Expr::Binary),
            ArgMacroInput::Pos(Expr::Lit(Lit::Float)),
        ],
        false,
    );
    let values = [
        Value::from("a"),
        Value::from('b'),
        Value::from(3),
        Value::from(String::from("owned")),
        Value::from("fun"),
        Value::from(true),
        Value::from(2 + 2),
        Value::from_float_bits(12.3f64.to_bits()),
    ];
    let a = run(&list, &[None; 8], &values);
    assert_eq!(a.len(), 8);
    assert!(matches!(&a[0], Arg::Pos(Value::String(val)) if val == "a"));
    assert!(matches!(&a[1], Arg::Pos(Value::String(val)) if val == "b"));
    assert!(matches!(&a[2], Arg::Pos(Value::Int64(3))));
    assert!(matches!(&a[3], Arg::Pos(Value::String(val)) if val == "owned"));
    assert!(matches!(&a[4], Arg::Pos(Value::String(val)) if val == "fun"));
    assert!(matches!(&a[5], Arg::Pos(Value::Bool(true))));
    assert!(matches!(&a[6], Arg::Pos(Value::Int64(4))));
    assert!(matches!(&a[7], Arg::Pos(Value::Float64(val)) if f64::from_bits(*val).eq(&12.3)));

    // named entries only
    let v = || Expr::Lit(Lit::Str);
    let list = args(
        vec![
            ArgMacroInput::Named(Expr::Lit(Lit::Str), v()),
            ArgMacroInput::Named(Expr::Lit(Lit::Char('b')), v()),
            ArgMacroInput::Named(ident("c"), v()),
            ArgMacroInput::Named(int_lit("10"), v()),
        ],
        false,
    );
    let values = [Value::from("v"), Value::from("v"), Value::from("v"), Value::from("v")];
    let a = run(&list, &[Some("a"), None, None, None], &values);
    assert_eq!(a.len(), 4);
    assert!(is_named(&a[0], "a", "v"));
    assert!(is_named(&a[1], "b", "v"));
    assert!(is_named(&a[2], "c", "v"));
    assert!(is_named(&a[3], "10", "v"));

    // mixed entries: the positional ones come first
    let list = args(
        vec![
            ArgMacroInput::Named(Expr::Lit(Lit::Str), v()),
            ArgMacroInput::Named(Expr::Lit(Lit::Char('b')), v()),
            ArgMacroInput::Pos(Expr::Lit(Lit::Char('c'))),
            ArgMacroInput::Pos(int_lit("10")),
        ],
        true,
    );
    let values = [Value::from("v"), Value::from("v"), Value::from('c'), Value::from(10)];
    let a = run(&list, &[Some("a"), None, None, None], &values);
    assert_eq!(a.len(), 4);
    assert!(matches!(&a[0], Arg::Pos(Value::String(val)) if val == "c"));
    assert!(matches!(&a[1], Arg::Pos(Value::Int64(10))));
    assert!(is_named(&a[2], "a", "v"));
    assert!(is_named(&a[3], "b", "v"));

    let list = args(
        vec![
            ArgMacroInput::Pos(Expr::Lit(Lit::Str)),
            ArgMacroInput::Named(Expr::Lit(Lit::Str), v()),
        ],
        false,
    );
    let values = [Value::from("arg0"), Value::from("named arg")];
    let a = run(&list, &[None, Some("named")], &values);
    assert_eq!(a.len(), 2);

    // no entry at all
    let list = args(Vec::new(), false);
    assert_eq!(list.items.len(), 0);
    assert_eq!(list.container, Container::Empty);
}

#[test]
fn test_name() {
    let args = rt_format_args(vec![
        Arg::positional(String::from("string")),
        Arg::positional("static str"),
        Arg::positional(12),
        Arg::named("named", "named arg").unwrap(),
    ]);
    // a name counts as an explicit reference, which does not mix with `{}`
    assert_eq!(
        format("test '{}' '{}' '{}' '{named}'", &args),
        Err(Error::MixedIndexing(21))
    );
    match format("test '{0}' '{1}' '{2}' '{named}'", &args) {
        Ok(ref v) => {
            assert_eq!(v, "test 'string' 'static str' '12' 'named arg'");
        }
        Err(e) => panic!("error from formatter: {e:?}"),
    }
    let args = rt_format_args(vec![
        Arg::positional(1),
        Arg::positional(3),
        Arg::named("b", 2).unwrap(),
    ]);
    assert_eq!(format("test '{}' '{b}' '{}'", &args), Err(Error::MixedIndexing(11)));
    match format("test '{0}' '{b}' '{1}'", &args) {
        Ok(ref v) => {
            assert_eq!(v, "test '1' '2' '3'");
        }
        Err(e) => panic!("error from formatter: {e:?}"),
    }
}

#[test]
fn test_format() {
    let x = format("test", &[]);
    assert_eq!(x.expect("formatting failed"), "test");
    let args = rt_format_args(vec![
        Arg::positional("arg0"),
        Arg::named("named", "named arg").unwrap(),
    ]);
    // a name counts as an explicit reference, which does not mix with `{}`
    assert_eq!(format("test {} {named}", &args), Err(Error::MixedIndexing(8)));
    let x = format("test {0} {named}", &args);
    assert_eq!(x.expect("formatting failed"), "test arg0 named arg");
    let args = rt_format_args(vec![Arg::named("a", 12).unwrap(), Arg::named("b", 20).unwrap()]);
    let x = format("{a} {a} {b}", &args);
    assert_eq!(x.expect("formatting failed"), "12 12 20");
    let args = rt_format_args(vec![
        Arg::positional(12),
        Arg::named("b", 20).unwrap(),
        Arg::positional(21),
    ]);
    assert_eq!(format("{} {b} {0} {2}", &args), Err(Error::MixedIndexing(3)));
    let x = format("{0} {b} {0} {1}", &args);
    assert_eq!(x.expect("formatting failed"), "12 20 12 21");
}

#[test]
fn macros_test_format() {
    let x = format("test", &[]);
    assert_eq!(x.expect("formatting failed"), "test");
    let x = format("test {0}", &[Arg::positional("arg0")]);
    assert_eq!(x.expect("formatting failed"), "test arg0");
    let x = format("test {a}", &[Arg::named("a", "arg0").unwrap()]);
    assert_eq!(x.expect("formatting failed"), "test arg0");
    let args = rt_format_args(vec![
        Arg::positional("arg0"),
        Arg::named("named", "named arg").unwrap(),
    ]);
    let x = format("test {0} {named}", &args);
    assert_eq!(x.expect("formatting failed"), "test arg0 named arg");
    let args = rt_format_args(vec![Arg::named("a", 12).unwrap(), Arg::named("b", 20).unwrap()]);
    let x = format("{a} {a} {b}", &args);
    assert_eq!(x.expect("formatting failed"), "12 12 20");
    let args = rt_format_args(vec![
        Arg::positional(12),
        Arg::named("b", 20).unwrap(),
        Arg::positional(21),
    ]);
    // the named argument stands behind the two positional ones, and an
    // index reaches positional arguments only
    assert_eq!(format("{0} {b} {0} {2}", &args), Err(Error::IndexOutOfRange(12)));
    let x = format("{0} {b} {0} {1}", &args);
    assert_eq!(x.expect("formatting failed"), "12 20 12 21");
}
