//! How a value becomes text under a spec.

use vstd::prelude::*;
use vstd::utf8::encode_utf8;
use crate::template::{
    Align, FormatSpec, Sign, Type, BLANK, DIGIT_0, LOWER_B, LOWER_X, MINUS, PLUS, UPPER_X,
};
use crate::value::{Value, ValueView};

verus! {

/// The digit that writes `d` in a base of up to 16.
pub open spec fn digit_byte(d: nat, upper: bool) -> u8 {
    if d < 10 {
        (48 + d) as u8
    } else if upper {
        (55 + d) as u8
    } else {
        (87 + d) as u8
    }
}

/// The digits that write `n` in the base, most significant first, without
/// leading zeros; `0` is written as one digit.
pub open spec fn digits_of(n: nat, base: nat, upper: bool) -> Seq<u8>
    decreases n,
    via digits_of_decreases
{
    if base < 2 || n < base {
        seq![digit_byte(n, upper)]
    } else {
        digits_of(n / base, base, upper).push(digit_byte(n % base, upper))
    }
}

#[via_fn]
proof fn digits_of_decreases(n: nat, base: nat, upper: bool) {
    if !(base < 2 || n < base) {
        assert(n / base < n) by (nonlinear_arith)
            requires
                n >= base,
                base >= 2,
        ;
    }
}

/// `count` times the byte.
pub open spec fn repeat(b: u8, count: nat) -> Seq<u8> {
    Seq::new(count, |i: int| b)
}

/// In UTF-8, the bytes `10xxxxxx` continue a character; every other byte
/// starts one.
pub open spec fn is_continuation(b: u8) -> bool {
    128 <= b < 192
}

/// The number of characters in the bytes: the bytes that start one.
pub open spec fn chars_in(bytes: Seq<u8>) -> nat
    decreases bytes.len(),
{
    if bytes.len() == 0 {
        0
    } else if is_continuation(bytes.last()) {
        chars_in(bytes.drop_last())
    } else {
        chars_in(bytes.drop_last()) + 1
    }
}

/// Where the bytes from `pos` on have to be cut so that at most `limit`
/// characters start in what is kept.
pub open spec fn cut_from(bytes: Seq<u8>, pos: int, limit: nat) -> int
    decreases bytes.len() - pos,
{
    if !(0 <= pos < bytes.len()) {
        pos
    } else if is_continuation(bytes[pos]) {
        cut_from(bytes, pos + 1, limit)
    } else if limit == 0 {
        pos
    } else {
        cut_from(bytes, pos + 1, (limit - 1) as nat)
    }
}

/// The first `limit` characters of the bytes.
pub open spec fn first_chars(bytes: Seq<u8>, limit: nat) -> Seq<u8> {
    bytes.take(cut_from(bytes, 0, limit))
}

/// The text of `chars` characters in a field of `width`: filled up on the
/// side that the alignment leaves free, in the middle with the odd byte on
/// the right; unchanged where it is as wide as the field or wider.
pub open spec fn pad(body: Seq<u8>, chars: nat, fill: u8, align: Align, width: nat) -> Seq<u8> {
    if width <= chars {
        body
    } else {
        let free = (width - chars) as nat;
        match align {
            Align::Left => body + repeat(fill, free),
            Align::Right => repeat(fill, free) + body,
            Align::Center => repeat(fill, free / 2) + body + repeat(fill, (free - free / 2) as nat),
        }
    }
}

/// What stands in front of the digits for the sign.
pub open spec fn sign_text(negative: bool, sign: Option<Sign>) -> Seq<u8> {
    if negative {
        seq![MINUS]
    } else {
        match sign {
            Some(Sign::Plus) => seq![PLUS],
            Some(Sign::Space) => seq![BLANK],
            _ => Seq::empty(),
        }
    }
}

/// The base that the type writes integers in.
pub open spec fn base_of(ty: Option<Type>) -> nat {
    match ty {
        Some(Type::LowerHex) | Some(Type::UpperHex) => 16,
        Some(Type::Octal) => 8,
        Some(Type::Binary) => 2,
        _ => 10,
    }
}

/// What the alternate form puts in front of the digits: `0x`, `0X`, `0b`,
/// and `0` in front of an octal number that is not zero.
pub open spec fn prefix_text(ty: Option<Type>, alternate: bool, is_zero: bool) -> Seq<u8> {
    if !alternate {
        Seq::empty()
    } else {
        match ty {
            Some(Type::LowerHex) => seq![DIGIT_0, LOWER_X],
            Some(Type::UpperHex) => seq![DIGIT_0, UPPER_X],
            Some(Type::Binary) => seq![DIGIT_0, LOWER_B],
            Some(Type::Octal) => if is_zero {
                Seq::empty()
            } else {
                seq![DIGIT_0]
            },
            _ => Seq::empty(),
        }
    }
}

/// The absolute value.
pub open spec fn magnitude(v: int) -> nat {
    if v < 0 {
        (-v) as nat
    } else {
        v as nat
    }
}

/// A number in its field: `head` is what stands in front of its digits.
/// With `0` and no alignment, zeros between head and digits fill the
/// width; else the whole is padded, to the right unless the spec aligns
/// it.
pub open spec fn number_text(head: Seq<u8>, digits: Seq<u8>, spec: FormatSpec) -> Seq<u8> {
    let len = head.len() + digits.len();
    if spec.zero && spec.align is None {
        if spec.width <= len {
            head + digits
        } else {
            head + repeat(DIGIT_0, (spec.width - len) as nat) + digits
        }
    } else {
        pad(
            head + digits,
            len,
            spec.fill,
            match spec.align {
                Some(a) => a,
                None => Align::Right,
            },
            spec.width as nat,
        )
    }
}

/// What stands in front of the digits of an integer: its sign, then the
/// prefix of the alternate form.
pub open spec fn int_head(v: int, spec: FormatSpec) -> Seq<u8> {
    sign_text(v < 0, spec.sign) + prefix_text(spec.ty, spec.alternate, v == 0)
}

/// The digits of an integer in the base of the spec; `X` writes the
/// letters in upper case.
pub open spec fn int_digits(v: int, spec: FormatSpec) -> Seq<u8> {
    digits_of(magnitude(v), base_of(spec.ty), spec.ty == Some(Type::UpperHex))
}

/// An integer under a spec: sign, prefix and digits, in their field.
pub open spec fn int_text(v: int, spec: FormatSpec) -> Seq<u8> {
    number_text(int_head(v, spec), int_digits(v, spec), spec)
}

/// Text under a spec: cut to the precision, then padded, to the left
/// unless the spec aligns it.
pub open spec fn str_text(bytes: Seq<u8>, spec: FormatSpec) -> Seq<u8> {
    let shown = match spec.precision {
        Some(p) => first_chars(bytes, p as nat),
        None => bytes,
    };
    pad(
        shown,
        chars_in(shown),
        spec.fill,
        match spec.align {
            Some(a) => a,
            None => Align::Left,
        },
        spec.width as nat,
    )
}

/// `true` or `false`, spelled out.
pub open spec fn bool_text(b: bool) -> Seq<u8> {
    if b {
        seq![116u8, 114, 117, 101]
    } else {
        seq![102u8, 97, 108, 115, 101]
    }
}

/// A spec that suits an integer: no precision, and a type, if any, among
/// `d`, `x`, `X`, `o` and `b`.
pub open spec fn suits_int(spec: FormatSpec) -> bool {
    &&& spec.precision is None
    &&& match spec.ty {
        None => true,
        Some(Type::Decimal) | Some(Type::LowerHex) | Some(Type::UpperHex) => true,
        Some(Type::Octal) | Some(Type::Binary) => true,
        _ => false,
    }
}

/// A spec that suits a float: a type, if any, among `e`, `E`, `f`, `g`
/// and `G`.
pub open spec fn suits_float(spec: FormatSpec) -> bool {
    match spec.ty {
        None => true,
        Some(Type::LowerExp) | Some(Type::UpperExp) | Some(Type::Fixed) => true,
        Some(Type::General) | Some(Type::UpperGeneral) => true,
        _ => false,
    }
}

/// A spec without the options that only numbers take: sign, `#` and `0`.
pub open spec fn plain(spec: FormatSpec) -> bool {
    spec.sign is None && !spec.alternate && !spec.zero
}

/// A spec that suits a string: no numeric option, and no type or `s`.
pub open spec fn suits_str(spec: FormatSpec) -> bool {
    plain(spec) && (spec.ty is None || spec.ty == Some(Type::Str))
}

/// What a placeholder gives: text, or a float that waits for its digits.
pub enum PieceModel {
    Text(Seq<u8>),
    Float { bits: u64, spec: FormatSpec },
}

/// What a value gives under a spec, or `None` where the spec does not suit
/// the kind of the value.
///
/// An integer is written in the base of its type. A boolean is written as
/// `true` or `false` under a spec without type, numeric options or
/// precision, and as the integer 1 or 0 with `d`. A string is written as
/// its UTF-8 bytes. A float keeps its bits and its spec: its digits are
/// not made here.
pub open spec fn render(value: ValueView, spec: FormatSpec) -> Option<PieceModel> {
    match value {
        ValueView::Int64(i) => if suits_int(spec) {
            Some(PieceModel::Text(int_text(i as int, spec)))
        } else {
            None
        },
        ValueView::Bool(b) => if spec.ty == Some(Type::Decimal) && spec.precision is None {
            Some(
                PieceModel::Text(
                    int_text(
                        if b {
                            1
                        } else {
                            0
                        },
                        spec,
                    ),
                ),
            )
        } else if spec.ty is None && plain(spec) && spec.precision is None {
            Some(PieceModel::Text(str_text(bool_text(b), spec)))
        } else {
            None
        },
        ValueView::String(s) => if suits_str(spec) {
            Some(PieceModel::Text(str_text(encode_utf8(s), spec)))
        } else {
            None
        },
        ValueView::Float64(bits) => if suits_float(spec) {
            Some(PieceModel::Float { bits, spec })
        } else {
            None
        },
    }
}

/// What a placeholder gives: text, or a float that waits for its digits.
#[derive(Debug, Clone, PartialEq, Eq)]
pub enum Piece {
    Text(Vec<u8>),
    Float { bits: u64, spec: FormatSpec },
}

impl View for Piece {
    type V = PieceModel;

    open spec fn view(&self) -> PieceModel {
        match *self {
            Piece::Text(bytes) => PieceModel::Text(bytes@),
            Piece::Float { bits, spec } => PieceModel::Float { bits, spec },
        }
    }
}

/// The digit that writes `d`.
fn digit(d: u64, upper: bool) -> (b: u8)
    requires
        d < 16,
    ensures
        b == digit_byte(d as nat, upper),
{
    if d < 10 {
        48 + d as u8
    } else if upper {
        55 + d as u8
    } else {
        87 + d as u8
    }
}

/// Appends the digits that write `n` in the base.
pub fn push_digits(out: &mut Vec<u8>, n: u64, base: u64, upper: bool)
    requires
        2 <= base <= 16,
    ensures
        final(out)@ == old(out)@ + digits_of(n as nat, base as nat, upper),
    decreases n,
{
    if n < base {
        out.push(digit(n, upper));
        assert(out@ =~= old(out)@ + digits_of(n as nat, base as nat, upper));
    } else {
        assert(n / base < n) by (nonlinear_arith)
            requires
                n >= base,
                base >= 2,
        ;
        assert(n % base < base) by (nonlinear_arith)
            requires
                base >= 2,
        ;
        push_digits(out, n / base, base, upper);
        out.push(digit(n % base, upper));
        assert(out@ =~= old(out)@ + digits_of(n as nat, base as nat, upper));
    }
}

/// Appends `count` times the byte.
pub fn push_repeat(out: &mut Vec<u8>, b: u8, count: usize)
    ensures
        final(out)@ == old(out)@ + repeat(b, count as nat),
{
    let mut i: usize = 0;
    assert(out@ =~= old(out)@ + repeat(b, 0));
    while i < count
        invariant
            i <= count,
            out@ == old(out)@ + repeat(b, i as nat),
        decreases count - i,
    {
        out.push(b);
        assert(out@ =~= old(out)@ + repeat(b, (i + 1) as nat));
        i += 1;
    }
}

/// Appends the bytes in `start..end` of the slice.
pub fn push_range(out: &mut Vec<u8>, src: &[u8], start: usize, end: usize)
    requires
        start <= end <= src.len(),
    ensures
        final(out)@ == old(out)@ + src@.subrange(start as int, end as int),
{
    let mut i = start;
    assert(out@ =~= old(out)@ + src@.subrange(start as int, start as int));
    while i < end
        invariant
            start <= i <= end <= src.len(),
            out@ == old(out)@ + src@.subrange(start as int, i as int),
        decreases end - i,
    {
        out.push(src[i]);
        assert(out@ =~= old(out)@ + src@.subrange(start as int, i + 1));
        i += 1;
    }
}

/// Counts the characters in the bytes.
pub fn count_chars(bytes: &[u8]) -> (count: usize)
    ensures
        count == chars_in(bytes@),
{
    let mut count: usize = 0;
    let mut i: usize = 0;
    assert(bytes@.take(0) =~= Seq::<u8>::empty());
    while i < bytes.len()
        invariant
            i <= bytes.len(),
            count <= i,
            count == chars_in(bytes@.take(i as int)),
        decreases bytes.len() - i,
    {
        assert(bytes@.take(i + 1).drop_last() =~= bytes@.take(i as int));
        if !(128 <= bytes[i] && bytes[i] < 192) {
            count += 1;
        }
        i += 1;
    }
    assert(bytes@.take(bytes.len() as int) =~= bytes@);
    count
}

/// Finds where the bytes have to be cut so that at most `limit`
/// characters are kept.
pub fn cut(bytes: &[u8], limit: u32) -> (end: usize)
    ensures
        end == cut_from(bytes@, 0, limit as nat),
        end <= bytes.len(),
{
    let mut left = limit;
    let mut i: usize = 0;
    while i < bytes.len()
        invariant
            i <= bytes.len(),
            cut_from(bytes@, 0, limit as nat) == cut_from(bytes@, i as int, left as nat),
        decreases bytes.len() - i,
    {
        if !(128 <= bytes[i] && bytes[i] < 192) {
            if left == 0 {
                return i;
            }
            left -= 1;
        }
        i += 1;
    }
    i
}

/// Appends the text in a field of `width`.
pub fn push_padded(
    out: &mut Vec<u8>,
    body: &[u8],
    chars: usize,
    fill: u8,
    align: Align,
    width: u32,
)
    ensures
        final(out)@ == old(out)@ + pad(body@, chars as nat, fill, align, width as nat),
{
    let width = width as usize;
    let ghost all = body@.subrange(0, body.len() as int);
    assert(all =~= body@);
    if width <= chars {
        push_range(out, body, 0, body.len());
    } else {
        let free = width - chars;
        match align {
            Align::Left => {
                push_range(out, body, 0, body.len());
                push_repeat(out, fill, free);
                assert(out@ =~= old(out)@ + (body@ + repeat(fill, free as nat)));
            },
            Align::Right => {
                push_repeat(out, fill, free);
                push_range(out, body, 0, body.len());
                assert(out@ =~= old(out)@ + (repeat(fill, free as nat) + body@));
            },
            Align::Center => {
                let left = free / 2;
                push_repeat(out, fill, left);
                push_range(out, body, 0, body.len());
                push_repeat(out, fill, free - left);
                assert(out@ =~= old(out)@ + (repeat(fill, left as nat) + body@ + repeat(
                    fill,
                    (free - left) as nat,
                )));
            },
        }
    }
}

/// The base that the type writes integers in.
fn base_for(ty: Option<Type>) -> (base: u64)
    ensures
        base == base_of(ty),
        2 <= base <= 16,
{
    match ty {
        Some(Type::LowerHex) => 16,
        Some(Type::UpperHex) => 16,
        Some(Type::Octal) => 8,
        Some(Type::Binary) => 2,
        _ => 10,
    }
}

/// Appends what stands in front of the digits of an integer: the sign and
/// the prefix of the alternate form.
fn push_head(out: &mut Vec<u8>, negative: bool, is_zero: bool, spec: &FormatSpec)
    ensures
        final(out)@ == old(out)@ + (sign_text(negative, spec.sign) + prefix_text(
            spec.ty,
            spec.alternate,
            is_zero,
        )),
{
    let ghost sign = sign_text(negative, spec.sign);
    if negative {
        out.push(MINUS);
    } else {
        match spec.sign {
            Some(Sign::Plus) => out.push(PLUS),
            Some(Sign::Space) => out.push(BLANK),
            _ => {},
        }
    }
    assert(out@ =~= old(out)@ + sign);
    if spec.alternate {
        match spec.ty {
            Some(Type::LowerHex) => {
                out.push(DIGIT_0);
                out.push(LOWER_X);
            },
            Some(Type::UpperHex) => {
                out.push(DIGIT_0);
                out.push(UPPER_X);
            },
            Some(Type::Binary) => {
                out.push(DIGIT_0);
                out.push(LOWER_B);
            },
            Some(Type::Octal) => {
                if !is_zero {
                    out.push(DIGIT_0);
                }
            },
            _ => {},
        }
    }
    assert(out@ =~= old(out)@ + (sign + prefix_text(spec.ty, spec.alternate, is_zero)));
}

/// Appends a number in its field: the first `head_len` bytes of `body`
/// stand in front of its digits.
pub fn push_number(out: &mut Vec<u8>, body: &[u8], head_len: usize, spec: &FormatSpec)
    requires
        head_len <= body.len(),
    ensures
        final(out)@ == old(out)@ + number_text(
            body@.subrange(0, head_len as int),
            body@.subrange(head_len as int, body.len() as int),
            *spec,
        ),
{
    let len = body.len();
    let width = spec.width as usize;
    let ghost head = body@.subrange(0, head_len as int);
    let ghost digits = body@.subrange(head_len as int, len as int);
    assert(head + digits =~= body@);
    if spec.zero && spec.align.is_none() {
        if width <= len {
            push_range(out, body, 0, len);
            assert(body@.subrange(0, len as int) =~= body@);
        } else {
            push_range(out, body, 0, head_len);
            push_repeat(out, DIGIT_0, width - len);
            push_range(out, body, head_len, len);
            assert(out@ =~= old(out)@ + (head + repeat(DIGIT_0, (width - len) as nat) + digits));
        }
    } else {
        let align = match spec.align {
            Some(a) => a,
            None => Align::Right,
        };
        push_padded(out, body, len, spec.fill, align, spec.width);
    }
}

/// Appends an integer as the spec asks for it.
pub fn push_int(out: &mut Vec<u8>, v: i64, spec: &FormatSpec)
    ensures
        final(out)@ == old(out)@ + int_text(v as int, *spec),
{
    let size: u64 = if v < 0 {
        (-(v + 1)) as u64 + 1
    } else {
        v as u64
    };
    let mut body: Vec<u8> = Vec::new();
    push_head(&mut body, v < 0, v == 0, spec);
    let head_len = body.len();
    let ghost head = body@;
    let upper = match spec.ty {
        Some(Type::UpperHex) => true,
        _ => false,
    };
    push_digits(&mut body, size, base_for(spec.ty), upper);
    assert(head =~= int_head(v as int, *spec));
    assert(body@.subrange(0, head_len as int) =~= head);
    assert(body@.subrange(head_len as int, body.len() as int) =~= int_digits(v as int, *spec));
    push_number(out, body.as_slice(), head_len, spec);
}

/// Appends text as the spec asks for it.
pub fn push_str(out: &mut Vec<u8>, bytes: &[u8], spec: &FormatSpec)
    ensures
        final(out)@ == old(out)@ + str_text(bytes@, *spec),
{
    let end = match spec.precision {
        Some(p) => cut(bytes, p),
        None => bytes.len(),
    };
    let mut shown: Vec<u8> = Vec::new();
    push_range(&mut shown, bytes, 0, end);
    assert(shown@ =~= bytes@.take(end as int));
    assert(bytes@.take(bytes.len() as int) =~= bytes@);
    let chars = count_chars(shown.as_slice());
    let align = match spec.align {
        Some(a) => a,
        None => Align::Left,
    };
    push_padded(out, shown.as_slice(), chars, spec.fill, align, spec.width);
}

/// Tells whether the spec suits an integer.
fn check_int(spec: &FormatSpec) -> (ok: bool)
    ensures
        ok == suits_int(*spec),
{
    spec.precision.is_none() && match spec.ty {
        None => true,
        Some(Type::Decimal) => true,
        Some(Type::LowerHex) => true,
        Some(Type::UpperHex) => true,
        Some(Type::Octal) => true,
        Some(Type::Binary) => true,
        _ => false,
    }
}

/// Tells whether the spec suits a float.
fn check_float(spec: &FormatSpec) -> (ok: bool)
    ensures
        ok == suits_float(*spec),
{
    match spec.ty {
        None => true,
        Some(Type::LowerExp) => true,
        Some(Type::UpperExp) => true,
        Some(Type::Fixed) => true,
        Some(Type::General) => true,
        Some(Type::UpperGeneral) => true,
        _ => false,
    }
}

/// Tells whether the spec has none of the options that only numbers take.
fn check_plain(spec: &FormatSpec) -> (ok: bool)
    ensures
        ok == plain(*spec),
{
    spec.sign.is_none() && !spec.alternate && !spec.zero
}

/// Makes what a value gives under a spec, or `None` where the spec does
/// not suit the kind of the value.
pub fn render_value(value: &Value, spec: &FormatSpec) -> (r: Option<Piece>)
    ensures
        match render(value@, *spec) {
            Some(piece) => r is Some && r->Some_0@ == piece,
            None => r is None,
        },
{
    match value {
        Value::Int64(i) => {
            if check_int(spec) {
                let mut text: Vec<u8> = Vec::new();
                push_int(&mut text, *i, spec);
                Some(Piece::Text(text))
            } else {
                None
            }
        },
        Value::Bool(b) => {
            let is_decimal = match spec.ty {
                Some(Type::Decimal) => true,
                _ => false,
            };
            if is_decimal && spec.precision.is_none() {
                let mut text: Vec<u8> = Vec::new();
                push_int(
                    &mut text,
                    if *b {
                        1
                    } else {
                        0
                    },
                    spec,
                );
                Some(Piece::Text(text))
            } else if spec.ty.is_none() && check_plain(spec) && spec.precision.is_none() {
                let mut word: Vec<u8> = Vec::new();
                if *b {
                    word.push(116);
                    word.push(114);
                    word.push(117);
                    word.push(101);
                } else {
                    word.push(102);
                    word.push(97);
                    word.push(108);
                    word.push(115);
                    word.push(101);
                }
                assert(word@ =~= bool_text(*b));
                let mut text: Vec<u8> = Vec::new();
                push_str(&mut text, word.as_slice(), spec);
                Some(Piece::Text(text))
            } else {
                None
            }
        },
        Value::String(s) => {
            let is_str = match spec.ty {
                None => true,
                Some(Type::Str) => true,
                _ => false,
            };
            if check_plain(spec) && is_str {
                let mut text: Vec<u8> = Vec::new();
                push_str(&mut text, s.as_str().as_bytes(), spec);
                Some(Piece::Text(text))
            } else {
                None
            }
        },
        Value::Float64(bits) => {
            if check_float(spec) {
                Some(Piece::Float { bits: *bits, spec: *spec })
            } else {
                None
            }
        },
    }
}

} // verus!
