//! The template grammar: literal runs, the escapes `{{` and `}}`, and
//! placeholders of the form `{ref:spec}`.

use vstd::prelude::*;
use crate::error::{Error, ErrorView};

verus! {

/// A blank
pub const BLANK: u8 = 32;

/// `#`
pub const HASH: u8 = 35;

/// `+`
pub const PLUS: u8 = 43;

/// `-`
pub const MINUS: u8 = 45;

/// `.`
pub const DOT: u8 = 46;

/// `0`
pub const DIGIT_0: u8 = 48;

/// `9`
pub const DIGIT_9: u8 = 57;

/// `:`
pub const COLON: u8 = 58;

/// `<`
pub const LESS: u8 = 60;

/// `>`
pub const GREATER: u8 = 62;

/// `A`
pub const UPPER_A: u8 = 65;

/// `E`
pub const UPPER_E: u8 = 69;

/// `G`
pub const UPPER_G: u8 = 71;

/// `X`
pub const UPPER_X: u8 = 88;

/// `Z`
pub const UPPER_Z: u8 = 90;

/// `^`
pub const CARET: u8 = 94;

/// `_`
pub const UNDERSCORE: u8 = 95;

/// `a`
pub const LOWER_A: u8 = 97;

/// `b`
pub const LOWER_B: u8 = 98;

/// `d`
pub const LOWER_D: u8 = 100;

/// `e`
pub const LOWER_E: u8 = 101;

/// `f`
pub const LOWER_F: u8 = 102;

/// `g`
pub const LOWER_G: u8 = 103;

/// `o`
pub const LOWER_O: u8 = 111;

/// `s`
pub const LOWER_S: u8 = 115;

/// `x`
pub const LOWER_X: u8 = 120;

/// `z`
pub const LOWER_Z: u8 = 122;

/// `{`
pub const OPEN: u8 = 123;

/// `}`
pub const CLOSE: u8 = 125;

/// Where the text stands inside a field that is wider than the text.
#[derive(Debug, Clone, Copy, PartialEq, Eq, Structural)]
pub enum Align {
    Left,
    Right,
    Center,
}

/// What stands in front of a number that is not negative.
#[derive(Debug, Clone, Copy, PartialEq, Eq, Structural)]
pub enum Sign {
    /// `+`: a plus sign.
    Plus,
    /// `-`: nothing, as without a sign option.
    Minus,
    /// A blank.
    Space,
}

/// The type letter of a spec.
#[derive(Debug, Clone, Copy, PartialEq, Eq, Structural)]
pub enum Type {
    /// `d`
    Decimal,
    /// `x`
    LowerHex,
    /// `X`
    UpperHex,
    /// `o`
    Octal,
    /// `b`
    Binary,
    /// `e`
    LowerExp,
    /// `E`
    UpperExp,
    /// `f`
    Fixed,
    /// `g`
    General,
    /// `G`
    UpperGeneral,
    /// `s`
    Str,
}

/// The largest width or precision that a spec can ask for.
pub const MAX_NUMBER: u32 = 0x7fff_ffff;

/// What a placeholder says behind its colon:
/// `[[fill]align][sign][#][0][width][.precision][type]`.
#[derive(Debug, Clone, Copy, PartialEq, Eq, Structural)]
pub struct FormatSpec {
    /// The byte that fills a field up to its width; a blank unless given.
    pub fill: u8,
    pub align: Option<Align>,
    pub sign: Option<Sign>,
    /// `#`: the alternate form, with the prefix of the base.
    pub alternate: bool,
    /// `0`: zeros between sign and digits up to the width.
    pub zero: bool,
    /// The least number of characters of the field; 0 unless given.
    pub width: u32,
    pub precision: Option<u32>,
    pub ty: Option<Type>,
}

/// The spec of a placeholder that has none.
pub open spec fn default_spec() -> FormatSpec {
    FormatSpec {
        fill: BLANK,
        align: None,
        sign: None,
        alternate: false,
        zero: false,
        width: 0,
        precision: None,
        ty: None,
    }
}

/// Which argument a placeholder asks for.
pub enum RefModel {
    /// The next positional argument.
    Auto,
    /// The argument at this index.
    Index(nat),
    /// The argument of this name.
    Name(Seq<u8>),
}

/// A placeholder: the offset of its opening brace, its reference and its
/// spec.
pub struct FieldModel {
    pub at: nat,
    pub reference: RefModel,
    pub spec: FormatSpec,
}

/// A part of a template: bytes to copy, or a placeholder.
pub enum SegmentModel {
    Literal(Seq<u8>),
    Field(FieldModel),
}

/// The classes of bytes that the grammar reads in runs.
#[derive(Debug, Clone, Copy, PartialEq, Eq, Structural)]
pub enum Class {
    /// `0` to `9`.
    Digit,
    /// Letters, digits and `_`.
    Ident,
    /// Everything but the two braces.
    Plain,
}

/// `0` to `9`.
pub open spec fn is_digit(b: u8) -> bool {
    DIGIT_0 <= b <= DIGIT_9
}

/// A letter or `_`: what a name starts with.
pub open spec fn is_ident_start(b: u8) -> bool {
    (LOWER_A <= b <= LOWER_Z) || (UPPER_A <= b <= UPPER_Z) || b == UNDERSCORE
}

/// `{` or `}`.
pub open spec fn is_brace(b: u8) -> bool {
    b == OPEN || b == CLOSE
}

impl Class {
    /// Whether the byte belongs to the class.
    pub open spec fn holds(self, b: u8) -> bool {
        match self {
            Class::Digit => is_digit(b),
            Class::Ident => is_ident_start(b) || is_digit(b),
            Class::Plain => !is_brace(b),
        }
    }
}

/// The end of the longest run of bytes of the class that starts at `pos`.
pub open spec fn run_end(t: Seq<u8>, pos: int, class: Class) -> int
    decreases t.len() - pos,
{
    if 0 <= pos < t.len() && class.holds(t[pos]) {
        run_end(t, pos + 1, class)
    } else {
        pos
    }
}

/// The number that a run of decimal digits writes.
pub open spec fn decimal(digits: Seq<u8>) -> nat
    decreases digits.len(),
{
    if digits.len() == 0 {
        0
    } else {
        (decimal(digits.drop_last()) * 10 + (digits.last() - DIGIT_0)) as nat
    }
}

/// `v`, or `cap` where `v` is beyond it.
pub open spec fn clip(v: nat, cap: nat) -> nat {
    if v > cap {
        cap
    } else {
        v
    }
}

/// The byte at `pos` is `b`.
pub open spec fn at(t: Seq<u8>, pos: int, b: u8) -> bool {
    0 <= pos < t.len() && t[pos] == b
}

/// The alignment that the byte stands for: `<`, `>` or `^`.
pub open spec fn align_of(b: u8) -> Option<Align> {
    if b == LESS {
        Some(Align::Left)
    } else if b == GREATER {
        Some(Align::Right)
    } else if b == CARET {
        Some(Align::Center)
    } else {
        None
    }
}

/// The sign option that the byte stands for: `+`, `-` or a blank.
pub open spec fn sign_of(b: u8) -> Option<Sign> {
    if b == PLUS {
        Some(Sign::Plus)
    } else if b == MINUS {
        Some(Sign::Minus)
    } else if b == BLANK {
        Some(Sign::Space)
    } else {
        None
    }
}

/// The type that the letter stands for.
pub open spec fn type_of(b: u8) -> Option<Type> {
    if b == LOWER_D {
        Some(Type::Decimal)
    } else if b == LOWER_X {
        Some(Type::LowerHex)
    } else if b == UPPER_X {
        Some(Type::UpperHex)
    } else if b == LOWER_O {
        Some(Type::Octal)
    } else if b == LOWER_B {
        Some(Type::Binary)
    } else if b == LOWER_E {
        Some(Type::LowerExp)
    } else if b == UPPER_E {
        Some(Type::UpperExp)
    } else if b == LOWER_F {
        Some(Type::Fixed)
    } else if b == LOWER_G {
        Some(Type::General)
    } else if b == UPPER_G {
        Some(Type::UpperGeneral)
    } else if b == LOWER_S {
        Some(Type::Str)
    } else {
        None
    }
}

/// The reference that starts at `pos`, and where it ends. An index too
/// large for `usize` is kept as `usize::MAX`, which no argument sequence
/// reaches.
pub open spec fn parse_reference(t: Seq<u8>, pos: int) -> (RefModel, int) {
    if 0 <= pos < t.len() && is_digit(t[pos]) {
        let end = run_end(t, pos, Class::Digit);
        (RefModel::Index(clip(decimal(t.subrange(pos, end)), usize::MAX as nat)), end)
    } else if 0 <= pos < t.len() && is_ident_start(t[pos]) {
        let end = run_end(t, pos, Class::Ident);
        (RefModel::Name(t.subrange(pos, end)), end)
    } else {
        (RefModel::Auto, pos)
    }
}

/// The fill and the alignment at `pos`, and where they end. A fill is any
/// byte but a brace that stands in front of an alignment.
pub open spec fn parse_align(t: Seq<u8>, pos: int) -> (u8, Option<Align>, int) {
    if 0 <= pos && pos + 1 < t.len() && !is_brace(t[pos]) && align_of(t[pos + 1]) is Some {
        (t[pos], align_of(t[pos + 1]), pos + 2)
    } else if 0 <= pos < t.len() && align_of(t[pos]) is Some {
        (BLANK, align_of(t[pos]), pos + 1)
    } else {
        (BLANK, None, pos)
    }
}

/// The sign option, the `#` and the `0` at `pos`, each of which may be
/// absent, and where they end.
pub open spec fn parse_flags(t: Seq<u8>, pos: int) -> (Option<Sign>, bool, bool, int) {
    let sign = if 0 <= pos < t.len() {
        sign_of(t[pos])
    } else {
        None
    };
    let behind_sign = if sign is Some {
        pos + 1
    } else {
        pos
    };
    let alternate = at(t, behind_sign, HASH);
    let behind_hash = if alternate {
        behind_sign + 1
    } else {
        behind_sign
    };
    let zero = at(t, behind_hash, DIGIT_0);
    let behind_zero = if zero {
        behind_hash + 1
    } else {
        behind_hash
    };
    (sign, alternate, zero, behind_zero)
}

/// The number that the digits at `pos` write, 0 where there are none, and
/// where they end.
pub open spec fn parse_count(t: Seq<u8>, pos: int) -> (nat, int) {
    let end = run_end(t, pos, Class::Digit);
    (decimal(t.subrange(pos, end)), end)
}

/// The type letter at `pos`, which may be absent, and where it ends.
pub open spec fn parse_type(t: Seq<u8>, pos: int) -> (Option<Type>, int) {
    let ty = if 0 <= pos < t.len() {
        type_of(t[pos])
    } else {
        None
    };
    (
        ty,
        if ty is Some {
            pos + 1
        } else {
            pos
        },
    )
}

/// The spec that starts at `pos`, behind the colon, and where it ends; or
/// `None` where the bytes do not follow the grammar of a spec: a width or
/// a precision beyond `MAX_NUMBER`, or a `.` without digits behind it.
pub open spec fn parse_spec(t: Seq<u8>, pos: int) -> Option<(FormatSpec, int)> {
    let (fill, align, flags_at) = parse_align(t, pos);
    let (sign, alternate, zero, width_at) = parse_flags(t, flags_at);
    let (width, width_end) = parse_count(t, width_at);
    let has_precision = at(t, width_end, DOT);
    let (precision, type_at) = if has_precision {
        parse_count(t, width_end + 1)
    } else {
        (0nat, width_end)
    };
    let (ty, end) = parse_type(t, type_at);
    if width > MAX_NUMBER || precision > MAX_NUMBER || (has_precision && type_at == width_end + 1) {
        None
    } else {
        Some(
            (
                FormatSpec {
                    fill,
                    align,
                    sign,
                    alternate,
                    zero,
                    width: width as u32,
                    precision: if has_precision {
                        Some(precision as u32)
                    } else {
                        None
                    },
                    ty,
                },
                end,
            ),
        )
    }
}

/// The placeholder whose opening brace stands at `pos`, and where it
/// ends; or `None` where the bytes from there on are no placeholder.
pub open spec fn parse_field(t: Seq<u8>, pos: int) -> Option<(FieldModel, int)> {
    let (reference, p) = parse_reference(t, pos + 1);
    if at(t, p, CLOSE) {
        Some((FieldModel { at: pos as nat, reference, spec: default_spec() }, p + 1))
    } else if at(t, p, COLON) {
        match parse_spec(t, p + 1) {
            Some((spec, q)) => if at(t, q, CLOSE) {
                Some((FieldModel { at: pos as nat, reference, spec }, q + 1))
            } else {
                None
            },
            None => None,
        }
    } else {
        None
    }
}

/// A segment in front of what was parsed behind it.
pub open spec fn cons(
    first: SegmentModel,
    rest: (Seq<SegmentModel>, Option<ErrorView>),
) -> (Seq<SegmentModel>, Option<ErrorView>) {
    (seq![first] + rest.0, rest.1)
}

/// The segments of the template from `pos` on, up to its end or to the
/// first place where it is malformed, and the error of that place.
///
/// `{{` and `}}` give one brace. A brace that opens no placeholder, a
/// placeholder that does not follow the grammar or does not close, and a
/// closing brace on its own are malformed, at the offset of the brace.
pub open spec fn parse_from(t: Seq<u8>, pos: int) -> (Seq<SegmentModel>, Option<ErrorView>)
    decreases t.len() - pos,
{
    if !(0 <= pos < t.len()) {
        (Seq::empty(), None)
    } else if t[pos] == OPEN {
        if at(t, pos + 1, OPEN) {
            cons(SegmentModel::Literal(seq![OPEN]), parse_from(t, pos + 2))
        } else {
            match parse_field(t, pos) {
                Some((field, next)) => if pos < next <= t.len() {
                    cons(SegmentModel::Field(field), parse_from(t, next))
                } else {
                    (Seq::empty(), Some(ErrorView::MalformedTemplate(pos as nat)))
                },
                None => (Seq::empty(), Some(ErrorView::MalformedTemplate(pos as nat))),
            }
        }
    } else if t[pos] == CLOSE {
        if at(t, pos + 1, CLOSE) {
            cons(SegmentModel::Literal(seq![CLOSE]), parse_from(t, pos + 2))
        } else {
            (Seq::empty(), Some(ErrorView::MalformedTemplate(pos as nat)))
        }
    } else {
        let end = run_end(t, pos + 1, Class::Plain);
        if pos < end <= t.len() {
            cons(SegmentModel::Literal(t.subrange(pos, end)), parse_from(t, end))
        } else {
            (Seq::empty(), None)
        }
    }
}

/// The segments of a template, and the error of the first place where it
/// is malformed.
pub open spec fn parse(t: Seq<u8>) -> (Seq<SegmentModel>, Option<ErrorView>) {
    parse_from(t, 0)
}

/// Which argument a placeholder asks for, as it is kept beside the
/// template: a name is the range of its bytes in the template.
#[derive(Debug, Clone, Copy, PartialEq, Eq, Structural)]
pub enum Reference {
    Auto,
    Index(usize),
    Name { start: usize, end: usize },
}

/// A placeholder, as it is kept beside the template.
#[derive(Debug, Clone, Copy, PartialEq, Eq, Structural)]
pub struct Field {
    /// The offset of the opening brace.
    pub at: usize,
    pub reference: Reference,
    pub spec: FormatSpec,
}

/// A part of a template, as it is kept beside the template: a literal is
/// the range of its bytes in the template.
#[derive(Debug, Clone, Copy, PartialEq, Eq, Structural)]
pub enum Segment {
    Literal { start: usize, end: usize },
    Field(Field),
}

impl Reference {
    /// Whether the range of a name lies inside the template.
    pub open spec fn fits(self, t: Seq<u8>) -> bool {
        self matches Reference::Name { start, end } ==> start <= end <= t.len()
    }

    /// The reference, read against its template.
    pub open spec fn model(self, t: Seq<u8>) -> RefModel {
        match self {
            Reference::Auto => RefModel::Auto,
            Reference::Index(i) => RefModel::Index(i as nat),
            Reference::Name { start, end } => RefModel::Name(t.subrange(start as int, end as int)),
        }
    }
}

impl Field {
    /// The placeholder, read against its template.
    pub open spec fn model(self, t: Seq<u8>) -> FieldModel {
        FieldModel { at: self.at as nat, reference: self.reference.model(t), spec: self.spec }
    }
}

impl Segment {
    /// Whether the ranges of the segment lie inside the template.
    pub open spec fn fits(self, t: Seq<u8>) -> bool {
        match self {
            Segment::Literal { start, end } => start <= end <= t.len(),
            Segment::Field(field) => field.reference.fits(t),
        }
    }

    /// The segment, read against its template.
    pub open spec fn model(self, t: Seq<u8>) -> SegmentModel {
        match self {
            Segment::Literal { start, end } => SegmentModel::Literal(
                t.subrange(start as int, end as int),
            ),
            Segment::Field(field) => SegmentModel::Field(field.model(t)),
        }
    }
}

/// The segments, read against their template, one by one.
pub open spec fn segment_models(segments: Seq<Segment>, t: Seq<u8>) -> Seq<SegmentModel> {
    segments.map_values(|s: Segment| s.model(t))
}

/// The view of an error that may be absent.
pub open spec fn error_view(error: Option<Error>) -> Option<ErrorView> {
    match error {
        Some(e) => Some(e@),
        None => None,
    }
}

impl Class {
    /// Tells whether the byte belongs to the class.
    pub fn test(self, b: u8) -> (r: bool)
        ensures
            r == self.holds(b),
    {
        match self {
            Class::Digit => DIGIT_0 <= b && b <= DIGIT_9,
            Class::Ident => (LOWER_A <= b && b <= LOWER_Z) || (UPPER_A <= b && b <= UPPER_Z) || b
                == UNDERSCORE || (DIGIT_0 <= b && b <= DIGIT_9),
            Class::Plain => b != OPEN && b != CLOSE,
        }
    }
}

/// A run ends between its start and the end of the template, and every
/// byte of it belongs to the class.
pub proof fn lemma_run_end(t: Seq<u8>, pos: int, class: Class)
    requires
        0 <= pos <= t.len(),
    ensures
        pos <= run_end(t, pos, class) <= t.len(),
        forall|i: int| pos <= i < run_end(t, pos, class) ==> class.holds(#[trigger] t[i]),
        run_end(t, pos, class) < t.len() ==> !class.holds(t[run_end(t, pos, class)]),
    decreases t.len() - pos,
{
    if pos < t.len() && class.holds(t[pos]) {
        lemma_run_end(t, pos + 1, class);
    }
}

/// Finds the end of the longest run of bytes of the class from `pos` on.
pub fn scan(t: &[u8], pos: usize, class: Class) -> (end: usize)
    requires
        pos <= t.len(),
    ensures
        end == run_end(t@, pos as int, class),
        pos <= end <= t.len(),
{
    let mut i = pos;
    while i < t.len() && class.test(t[i])
        invariant
            pos <= i <= t.len(),
            run_end(t@, pos as int, class) == run_end(t@, i as int, class),
        decreases t.len() - i,
    {
        i += 1;
    }
    i
}

/// Reads the decimal number that the digits in `start..end` write, and
/// stops counting at `cap`.
pub fn read_number(t: &[u8], start: usize, end: usize, cap: usize) -> (v: usize)
    requires
        start <= end <= t.len(),
        forall|i: int| start <= i < end ==> is_digit(#[trigger] t@[i]),
        cap >= 9,
    ensures
        v == clip(decimal(t@.subrange(start as int, end as int)), cap as nat),
{
    let mut v: usize = 0;
    let mut i = start;
    assert(t@.subrange(start as int, start as int) =~= Seq::<u8>::empty());
    while i < end
        invariant
            start <= i <= end <= t.len(),
            forall|j: int| start <= j < end ==> is_digit(#[trigger] t@[j]),
            cap >= 9,
            v == clip(decimal(t@.subrange(start as int, i as int)), cap as nat),
        decreases end - i,
    {
        let ghost before = t@.subrange(start as int, i as int);
        let ghost after = t@.subrange(start as int, i + 1);
        assert(after.drop_last() =~= before);
        assert(after.last() == t@[i as int]);
        assert(is_digit(t@[i as int]));
        let d = (t[i] - DIGIT_0) as usize;
        assert(decimal(after) == decimal(before) * 10 + d);
        if v > (cap - d) / 10 {
            v = cap;
        } else {
            v = v * 10 + d;
        }
        i += 1;
    }
    v
}

/// Reads the reference that starts at `pos`.
pub fn read_reference(t: &[u8], pos: usize) -> (r: (Reference, usize))
    requires
        pos <= t.len(),
    ensures
        r.0.model(t@) == parse_reference(t@, pos as int).0,
        r.1 == parse_reference(t@, pos as int).1,
        pos <= r.1 <= t.len(),
        r.0.fits(t@),
{
    if pos < t.len() && Class::Digit.test(t[pos]) {
        let end = scan(t, pos, Class::Digit);
        proof {
            lemma_run_end(t@, pos as int, Class::Digit);
        }
        let index = read_number(t, pos, end, usize::MAX);
        (Reference::Index(index), end)
    } else if pos < t.len() && !Class::Digit.test(t[pos]) && Class::Ident.test(t[pos]) {
        let end = scan(t, pos, Class::Ident);
        (Reference::Name { start: pos, end }, end)
    } else {
        (Reference::Auto, pos)
    }
}

/// The alignment that the byte stands for.
pub fn read_align(b: u8) -> (r: Option<Align>)
    ensures
        r == align_of(b),
{
    if b == LESS {
        Some(Align::Left)
    } else if b == GREATER {
        Some(Align::Right)
    } else if b == CARET {
        Some(Align::Center)
    } else {
        None
    }
}

/// The sign option that the byte stands for.
pub fn read_sign(b: u8) -> (r: Option<Sign>)
    ensures
        r == sign_of(b),
{
    if b == PLUS {
        Some(Sign::Plus)
    } else if b == MINUS {
        Some(Sign::Minus)
    } else if b == BLANK {
        Some(Sign::Space)
    } else {
        None
    }
}

/// The type that the letter stands for.
pub fn read_type(b: u8) -> (r: Option<Type>)
    ensures
        r == type_of(b),
{
    if b == LOWER_D {
        Some(Type::Decimal)
    } else if b == LOWER_X {
        Some(Type::LowerHex)
    } else if b == UPPER_X {
        Some(Type::UpperHex)
    } else if b == LOWER_O {
        Some(Type::Octal)
    } else if b == LOWER_B {
        Some(Type::Binary)
    } else if b == LOWER_E {
        Some(Type::LowerExp)
    } else if b == UPPER_E {
        Some(Type::UpperExp)
    } else if b == LOWER_F {
        Some(Type::Fixed)
    } else if b == LOWER_G {
        Some(Type::General)
    } else if b == UPPER_G {
        Some(Type::UpperGeneral)
    } else if b == LOWER_S {
        Some(Type::Str)
    } else {
        None
    }
}

/// Reads the fill and the alignment at `pos`.
pub fn read_fill_align(t: &[u8], pos: usize) -> (r: (u8, Option<Align>, usize))
    requires
        pos <= t.len(),
    ensures
        r.0 == parse_align(t@, pos as int).0,
        r.1 == parse_align(t@, pos as int).1,
        r.2 == parse_align(t@, pos as int).2,
        pos <= r.2 <= t.len(),
{
    let n = t.len();
    if n - pos >= 2 && t[pos] != OPEN && t[pos] != CLOSE && read_align(t[pos + 1]).is_some() {
        (t[pos], read_align(t[pos + 1]), pos + 2)
    } else if pos < n && read_align(t[pos]).is_some() {
        (BLANK, read_align(t[pos]), pos + 1)
    } else {
        (BLANK, None, pos)
    }
}

/// Reads the sign option, the `#` and the `0` at `pos`.
pub fn read_flags(t: &[u8], pos: usize) -> (r: (Option<Sign>, bool, bool, usize))
    requires
        pos <= t.len(),
    ensures
        r.0 == parse_flags(t@, pos as int).0,
        r.1 == parse_flags(t@, pos as int).1,
        r.2 == parse_flags(t@, pos as int).2,
        r.3 == parse_flags(t@, pos as int).3,
        pos <= r.3 <= t.len(),
{
    let n = t.len();
    let mut p = pos;
    let sign = if p < n {
        read_sign(t[p])
    } else {
        None
    };
    if sign.is_some() {
        p += 1;
    }
    let alternate = p < n && t[p] == HASH;
    if alternate {
        p += 1;
    }
    let zero = p < n && t[p] == DIGIT_0;
    if zero {
        p += 1;
    }
    (sign, alternate, zero, p)
}

/// Reads the number that the digits at `pos` write, and stops counting
/// just beyond `MAX_NUMBER`.
pub fn read_count(t: &[u8], pos: usize) -> (r: (usize, usize))
    requires
        pos <= t.len(),
    ensures
        r.0 == clip(parse_count(t@, pos as int).0, MAX_NUMBER as nat + 1),
        r.1 == parse_count(t@, pos as int).1,
        pos <= r.1 <= t.len(),
{
    let end = scan(t, pos, Class::Digit);
    proof {
        lemma_run_end(t@, pos as int, Class::Digit);
    }
    (read_number(t, pos, end, 0x8000_0000), end)
}

/// Reads the spec that starts at `pos`, behind the colon.
pub fn read_spec(t: &[u8], pos: usize) -> (r: Option<(FormatSpec, usize)>)
    requires
        pos <= t.len(),
    ensures
        match parse_spec(t@, pos as int) {
            Some((spec, end)) => r == Some((spec, end as usize)) && pos <= end <= t.len(),
            None => r is None,
        },
{
    let n = t.len();
    let (fill, align, flags_at) = read_fill_align(t, pos);
    let (sign, alternate, zero, width_at) = read_flags(t, flags_at);
    let (width, width_end) = read_count(t, width_at);
    let has_precision = width_end < n && t[width_end] == DOT;
    let (precision, type_at) = if has_precision {
        read_count(t, width_end + 1)
    } else {
        (0, width_end)
    };
    let ty = if type_at < n {
        read_type(t[type_at])
    } else {
        None
    };
    let end = if ty.is_some() {
        type_at + 1
    } else {
        type_at
    };
    if width > 0x7fff_ffff || precision > 0x7fff_ffff || (has_precision && type_at == width_end + 1) {
        None
    } else {
        Some(
            (
                FormatSpec {
                    fill,
                    align,
                    sign,
                    alternate,
                    zero,
                    width: width as u32,
                    precision: if has_precision {
                        Some(precision as u32)
                    } else {
                        None
                    },
                    ty,
                },
                end,
            ),
        )
    }
}

/// Reads the placeholder whose opening brace stands at `pos`.
pub fn read_field(t: &[u8], pos: usize) -> (r: Option<(Field, usize)>)
    requires
        pos < t.len(),
    ensures
        match parse_field(t@, pos as int) {
            Some((field, end)) => r matches Some((f, e)) && f.model(t@) == field && e == end,
            None => r is None,
        },
        r matches Some((f, e)) ==> pos < e <= t.len() && f.reference.fits(t@),
{
    let n = t.len();
    let (reference, p) = read_reference(t, pos + 1);
    if p < n && t[p] == CLOSE {
        let spec = FormatSpec {
            fill: BLANK,
            align: None,
            sign: None,
            alternate: false,
            zero: false,
            width: 0,
            precision: None,
            ty: None,
        };
        Some((Field { at: pos, reference, spec }, p + 1))
    } else if p < n && t[p] == COLON {
        match read_spec(t, p + 1) {
            Some((spec, q)) => {
                if q < n && t[q] == CLOSE {
                    Some((Field { at: pos, reference, spec }, q + 1))
                } else {
                    None
                }
            },
            None => None,
        }
    } else {
        None
    }
}

/// A template cut into its segments.
#[derive(Debug, Clone, PartialEq, Eq)]
pub struct Parsed {
    /// The segments up to the end of the template, or up to the first
    /// place where it is malformed.
    pub segments: Vec<Segment>,
    /// The error of the first place where the template is malformed.
    pub error: Option<Error>,
}

/// Cuts a template into its segments.
pub fn parse_template(t: &[u8]) -> (r: Parsed)
    ensures
        segment_models(r.segments@, t@) == parse(t@).0,
        error_view(r.error) == parse(t@).1,
        forall|i: int| 0 <= i < r.segments@.len() ==> (#[trigger] r.segments@[i]).fits(t@),
{
    let n = t.len();
    let mut segments: Vec<Segment> = Vec::new();
    let mut pos: usize = 0;
    assert(segment_models(segments@, t@) =~= Seq::<SegmentModel>::empty());
    while pos < n
        invariant
            pos <= n,
            n == t.len(),
            parse(t@).0 == segment_models(segments@, t@) + parse_from(t@, pos as int).0,
            parse(t@).1 == parse_from(t@, pos as int).1,
            forall|i: int| 0 <= i < segments@.len() ==> (#[trigger] segments@[i]).fits(t@),
        decreases n - pos,
    {
        let ghost done = segments@;
        let b = t[pos];
        let segment: Segment;
        let next: usize;
        if b == OPEN {
            if n - pos >= 2 && t[pos + 1] == OPEN {
                segment = Segment::Literal { start: pos + 1, end: pos + 2 };
                next = pos + 2;
                assert(t@.subrange(pos + 1, pos + 2) =~= seq![OPEN]);
            } else {
                match read_field(t, pos) {
                    Some((field, end)) => {
                        segment = Segment::Field(field);
                        next = end;
                    },
                    None => {
                        return Parsed { segments, error: Some(Error::MalformedTemplate(pos)) };
                    },
                }
            }
        } else if b == CLOSE {
            if n - pos >= 2 && t[pos + 1] == CLOSE {
                segment = Segment::Literal { start: pos + 1, end: pos + 2 };
                next = pos + 2;
                assert(t@.subrange(pos + 1, pos + 2) =~= seq![CLOSE]);
            } else {
                return Parsed { segments, error: Some(Error::MalformedTemplate(pos)) };
            }
        } else {
            let end = scan(t, pos + 1, Class::Plain);
            segment = Segment::Literal { start: pos, end };
            next = end;
        }
        segments.push(segment);
        proof {
            let rest = parse_from(t@, next as int);
            assert(parse_from(t@, pos as int) == cons(segment.model(t@), rest));
            assert(segment_models(segments@, t@) =~= segment_models(done, t@).push(
                segment.model(t@),
            ));
            assert(segment_models(done, t@) + (seq![segment.model(t@)] + rest.0)
                =~= segment_models(segments@, t@) + rest.0);
        }
        pos = next;
    }
    proof {
        assert(parse_from(t@, pos as int).0 =~= Seq::<SegmentModel>::empty());
        assert(segment_models(segments@, t@) + Seq::<SegmentModel>::empty() =~= segment_models(
            segments@,
            t@,
        ));
    }
    Parsed { segments, error: None }
}

} // verus!
