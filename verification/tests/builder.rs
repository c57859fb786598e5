use fmtlib::builder::{args, ArgMacroInput, Container};
use fmtlib::syntax::{Expansion, Expr, Lit};

#[test]
fn mixed_entries_put_positional_first() {
    let inputs = vec![
        ArgMacroInput::Named(Expr::Lit(Lit::Str), Expr::Lit(Lit::Str)),
        ArgMacroInput::Named(Expr::Lit(Lit::Char('b')), Expr::Lit(Lit::Str)),
        ArgMacroInput::Pos(Expr::Lit(Lit::Char('c'))),
        ArgMacroInput::Pos(Expr::Lit(Lit::Int(String::from("10")))),
    ];
    let list = args(inputs, true);
    assert_eq!(list.items.len(), 4);
    assert_eq!(list.container, Container::Inline);
    let order: Vec<usize> = list.items.iter().map(|l| l.index).collect();
    assert_eq!(order, vec![2, 3, 0, 1]);
    assert_eq!(list.items[0].key, None);
    assert_eq!(list.items[0].value, Expansion::Text(String::from("c")));
    assert_eq!(list.items[1].value, Expansion::Verbatim);
    assert_eq!(list.items[2].key, Some(Expansion::Verbatim));
    assert_eq!(list.items[3].key, Some(Expansion::Text(String::from("b"))));
}
