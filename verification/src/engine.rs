//! The format engine: placeholders are resolved against the arguments and
//! rendered, left to right, and the first failure ends the run.

use vstd::prelude::*;
use crate::arg::{args_view, Arg, ArgView};
use crate::error::{Error, ErrorView};
use crate::render::{number_text, push_number, push_range, render, render_value, Piece, PieceModel};
use crate::template::{
    parse, parse_template, segment_models, Field, FieldModel, FormatSpec, RefModel, Reference,
    Segment, SegmentModel, BLANK, MINUS, PLUS,
};
use crate::value::{Value, ValueView};

verus! {

/// How the placeholders seen so far have referred to their arguments.
pub enum Mode {
    /// No placeholder yet.
    Unset,
    /// Automatically; the number is the index that the next one gets.
    Auto(nat),
    /// By index or by name.
    Explicit,
}

/// The number of positional arguments in the sequence.
pub open spec fn positional_count(args: Seq<ArgView>) -> nat
    decreases args.len(),
{
    if args.len() == 0 {
        0
    } else if args.last() is Pos {
        positional_count(args.drop_last()) + 1
    } else {
        positional_count(args.drop_last())
    }
}

/// The index of the first argument from `from` on that has the name, if
/// there is one.
pub open spec fn find_name(args: Seq<ArgView>, name: Seq<u8>, from: int) -> Option<int>
    decreases args.len() - from,
{
    if !(0 <= from < args.len()) {
        None
    } else if args[from] matches ArgView::Named(key, _) && key == name {
        Some(from)
    } else {
        find_name(args, name, from + 1)
    }
}

/// The value at index `i` of the sequence, where `i` is below the number
/// of positional arguments.
pub open spec fn positional_at(args: Seq<ArgView>, i: nat) -> Option<ValueView> {
    if i < positional_count(args) {
        Some(args[i as int].value())
    } else {
        None
    }
}

/// The value that a placeholder refers to, and the mode that the run is in
/// behind it.
///
/// An automatic placeholder takes the argument at the counter, which must
/// be below the number of positional arguments, and moves the counter on.
/// An index must be below the number of positional arguments. A name
/// finds the first argument that carries it. Automatic and explicit
/// references do not mix, and a name counts as explicit.
pub open spec fn resolve(field: FieldModel, args: Seq<ArgView>, mode: Mode) -> Result<
    (ValueView, Mode),
    ErrorView,
> {
    match field.reference {
        RefModel::Auto => {
            let next = match mode {
                Mode::Auto(n) => n,
                _ => 0,
            };
            if mode is Explicit {
                Err(ErrorView::MixedIndexing(field.at))
            } else {
                match positional_at(args, next) {
                    Some(value) => Ok((value, Mode::Auto(next + 1))),
                    None => Err(ErrorView::NoAutoArg(field.at)),
                }
            }
        },
        RefModel::Index(i) => {
            if mode is Auto {
                Err(ErrorView::MixedIndexing(field.at))
            } else {
                match positional_at(args, i) {
                    Some(value) => Ok((value, Mode::Explicit)),
                    None => Err(ErrorView::IndexOutOfRange(field.at)),
                }
            }
        },
        RefModel::Name(name) => {
            if mode is Auto {
                Err(ErrorView::MixedIndexing(field.at))
            } else {
                match find_name(args, name, 0) {
                    Some(j) => Ok((args[j].value(), Mode::Explicit)),
                    None => Err(ErrorView::UnknownName(name, field.at)),
                }
            }
        },
    }
}

/// What one segment gives, and the mode behind it. A spec that does not
/// suit the kind of the value is an `InvalidSpec` at the placeholder.
pub open spec fn eval_segment(segment: SegmentModel, args: Seq<ArgView>, mode: Mode) -> Result<
    (PieceModel, Mode),
    ErrorView,
> {
    match segment {
        SegmentModel::Literal(bytes) => Ok((PieceModel::Text(bytes), mode)),
        SegmentModel::Field(field) => match resolve(field, args, mode) {
            Err(e) => Err(e),
            Ok((value, after)) => match render(value, field.spec) {
                Some(piece) => Ok((piece, after)),
                None => Err(ErrorView::InvalidSpec(field.at)),
            },
        },
    }
}

/// What the segments give, one piece for each, or the first failure among
/// them.
pub open spec fn eval(segments: Seq<SegmentModel>, args: Seq<ArgView>, mode: Mode) -> Result<
    Seq<PieceModel>,
    ErrorView,
>
    decreases segments.len(),
{
    if segments.len() == 0 {
        Ok(Seq::empty())
    } else {
        match eval_segment(segments[0], args, mode) {
            Err(e) => Err(e),
            Ok((piece, after)) => match eval(segments.skip(1), args, after) {
                Err(e) => Err(e),
                Ok(rest) => Ok(seq![piece] + rest),
            },
        }
    }
}

/// What a template gives with a sequence of arguments: its pieces, or the
/// first failure in the order of the template. A placeholder that fails
/// comes before a malformed place behind it.
pub open spec fn expand_model(t: Seq<u8>, args: Seq<ArgView>) -> Result<Seq<PieceModel>, ErrorView> {
    let (segments, malformed) = parse(t);
    match eval(segments, args, Mode::Unset) {
        Err(e) => Err(e),
        Ok(pieces) => match malformed {
            Some(e) => Err(e),
            None => Ok(pieces),
        },
    }
}

/// The views of pieces, one by one.
pub open spec fn piece_models(pieces: Seq<Piece>) -> Seq<PieceModel> {
    pieces.map_values(|p: Piece| p@)
}

/// The view of the outcome of an expansion.
pub open spec fn outcome_view(r: Result<Vec<Piece>, Error>) -> Result<Seq<PieceModel>, ErrorView> {
    match r {
        Ok(pieces) => Ok(piece_models(pieces@)),
        Err(e) => Err(e@),
    }
}

/// No more arguments are positional than there are arguments.
pub proof fn lemma_positional_count_bound(args: Seq<ArgView>)
    ensures
        positional_count(args) <= args.len(),
    decreases args.len(),
{
    if args.len() > 0 {
        lemma_positional_count_bound(args.drop_last());
    }
}

/// Counts the positional arguments.
pub fn count_positional(args: &[Arg]) -> (count: usize)
    ensures
        count == positional_count(args_view(args@)),
        count <= args.len(),
{
    let ghost views = args_view(args@);
    let mut count: usize = 0;
    let mut i: usize = 0;
    assert(views.take(0) =~= Seq::<ArgView>::empty());
    while i < args.len()
        invariant
            i <= args.len(),
            count <= i,
            views == args_view(args@),
            count == positional_count(views.take(i as int)),
        decreases args.len() - i,
    {
        assert(views.take(i + 1).drop_last() =~= views.take(i as int));
        assert(views.take(i + 1).last() == args@[i as int]@);
        if args[i].is_positional() {
            count += 1;
        }
        i += 1;
    }
    assert(views.take(args.len() as int) =~= views);
    count
}

/// Tells whether `a` holds the bytes in `start..end` of `t`.
pub fn same_bytes(a: &[u8], t: &[u8], start: usize, end: usize) -> (same: bool)
    requires
        start <= end <= t.len(),
    ensures
        same == (a@ == t@.subrange(start as int, end as int)),
{
    if a.len() != end - start {
        return false;
    }
    let ghost name = t@.subrange(start as int, end as int);
    let mut i: usize = 0;
    while i < a.len()
        invariant
            i <= a.len(),
            a.len() == end - start,
            start <= end <= t.len(),
            name == t@.subrange(start as int, end as int),
            forall|j: int| 0 <= j < i ==> a@[j] == name[j],
        decreases a.len() - i,
    {
        if a[i] != t[start + i] {
            assert(a@[i as int] != name[i as int]);
            return false;
        }
        i += 1;
    }
    assert(a@ =~= name);
    true
}

/// Finds the first argument that carries the name in `start..end` of `t`.
pub fn lookup(args: &[Arg], t: &[u8], start: usize, end: usize) -> (found: Option<usize>)
    requires
        start <= end <= t.len(),
    ensures
        match find_name(args_view(args@), t@.subrange(start as int, end as int), 0) {
            Some(j) => found == Some(j as usize) && 0 <= j < args.len(),
            None => found is None,
        },
{
    let ghost views = args_view(args@);
    let ghost name = t@.subrange(start as int, end as int);
    let mut i: usize = 0;
    while i < args.len()
        invariant
            i <= args.len(),
            start <= end <= t.len(),
            views == args_view(args@),
            name == t@.subrange(start as int, end as int),
            find_name(views, name, 0) == find_name(views, name, i as int),
        decreases args.len() - i,
    {
        assert(views[i as int] == args@[i as int]@);
        match &args[i] {
            Arg::Named(key, _) => {
                if same_bytes(key.as_bytes(), t, start, end) {
                    return Some(i);
                }
            },
            Arg::Pos(_) => {},
        }
        i += 1;
    }
    None
}

/// How the placeholders seen so far have referred to their arguments, as
/// the engine keeps it while it runs.
#[derive(Debug, Clone, Copy, PartialEq, Eq, Structural)]
pub enum Indexing {
    Unset,
    Auto(usize),
    Explicit,
}

impl View for Indexing {
    type V = Mode;

    open spec fn view(&self) -> Mode {
        match *self {
            Indexing::Unset => Mode::Unset,
            Indexing::Auto(n) => Mode::Auto(n as nat),
            Indexing::Explicit => Mode::Explicit,
        }
    }
}

/// Finds the argument that a placeholder refers to.
pub fn resolve_field<'a>(
    field: &Field,
    t: &[u8],
    args: &'a [Arg],
    positional: usize,
    mode: Indexing,
) -> (r: Result<(&'a Value, Indexing), Error>)
    requires
        field.reference.fits(t@),
        positional == positional_count(args_view(args@)),
    ensures
        match resolve(field.model(t@), args_view(args@), mode@) {
            Ok((value, after)) => r matches Ok((v, m)) && v@ == value && m@ == after,
            Err(e) => r matches Err(err) && err@ == e,
        },
{
    let ghost views = args_view(args@);
    proof {
        lemma_positional_count_bound(views);
    }
    match field.reference {
        Reference::Auto => {
            let next = match mode {
                Indexing::Auto(n) => n,
                _ => 0,
            };
            match mode {
                Indexing::Explicit => Err(Error::MixedIndexing(field.at)),
                _ => {
                    if next < positional {
                        assert(views[next as int] == args@[next as int]@);
                        Ok((args[next].get_value(), Indexing::Auto(next + 1)))
                    } else {
                        Err(Error::NoAutoArg(field.at))
                    }
                },
            }
        },
        Reference::Index(i) => {
            match mode {
                Indexing::Auto(_) => Err(Error::MixedIndexing(field.at)),
                _ => {
                    if i < positional {
                        assert(views[i as int] == args@[i as int]@);
                        Ok((args[i].get_value(), Indexing::Explicit))
                    } else {
                        Err(Error::IndexOutOfRange(field.at))
                    }
                },
            }
        },
        Reference::Name { start, end } => {
            match mode {
                Indexing::Auto(_) => Err(Error::MixedIndexing(field.at)),
                _ => {
                    match lookup(args, t, start, end) {
                        Some(j) => {
                            assert(views[j as int] == args@[j as int]@);
                            Ok((args[j].get_value(), Indexing::Explicit))
                        },
                        None => {
                            let mut name: Vec<u8> = Vec::new();
                            push_range(&mut name, t, start, end);
                            assert(name@ =~= t@.subrange(start as int, end as int));
                            Err(Error::UnknownName(name, field.at))
                        },
                    }
                },
            }
        },
    }
}

/// Makes what one segment gives.
pub fn eval_one(
    segment: &Segment,
    t: &[u8],
    args: &[Arg],
    positional: usize,
    mode: Indexing,
) -> (r: Result<(Piece, Indexing), Error>)
    requires
        segment.fits(t@),
        positional == positional_count(args_view(args@)),
    ensures
        match eval_segment(segment.model(t@), args_view(args@), mode@) {
            Ok((piece, after)) => r matches Ok((p, m)) && p@ == piece && m@ == after,
            Err(e) => r matches Err(err) && err@ == e,
        },
{
    match segment {
        Segment::Literal { start, end } => {
            let mut bytes: Vec<u8> = Vec::new();
            push_range(&mut bytes, t, *start, *end);
            assert(bytes@ =~= t@.subrange(*start as int, *end as int));
            Ok((Piece::Text(bytes), mode))
        },
        Segment::Field(field) => {
            match resolve_field(field, t, args, positional, mode) {
                Err(e) => Err(e),
                Ok((value, after)) => {
                    match render_value(value, &field.spec) {
                        Some(piece) => Ok((piece, after)),
                        None => Err(Error::InvalidSpec(field.at)),
                    }
                },
            }
        },
    }
}

/// Expands a template with a sequence of arguments into its pieces: the
/// literal runs, and what each placeholder gives.
///
/// Fails with the first failure in the order of the template, at the
/// offset of the placeholder or the brace that causes it.
pub fn expand(template: &[u8], args: &[Arg]) -> (r: Result<Vec<Piece>, Error>)
    ensures
        outcome_view(r) == expand_model(template@, args_view(args@)),
{
    let parsed = parse_template(template);
    let positional = count_positional(args);
    let ghost models = segment_models(parsed.segments@, template@);
    let ghost views = args_view(args@);
    let mut pieces: Vec<Piece> = Vec::new();
    let mut mode = Indexing::Unset;
    let mut i: usize = 0;
    assert(models.skip(0) =~= models);
    assert(piece_models(pieces@) =~= Seq::<PieceModel>::empty());
    while i < parsed.segments.len()
        invariant
            i <= parsed.segments.len(),
            models == segment_models(parsed.segments@, template@),
            models == parse(template@).0,
            views == args_view(args@),
            positional == positional_count(views),
            forall|k: int|
                0 <= k < parsed.segments@.len() ==> (#[trigger] parsed.segments@[k]).fits(
                    template@,
                ),
            match eval(models.skip(i as int), views, mode@) {
                Ok(rest) => eval(models, views, Mode::Unset) == Ok::<Seq<PieceModel>, ErrorView>(
                    piece_models(pieces@) + rest,
                ),
                Err(e) => eval(models, views, Mode::Unset) == Err::<Seq<PieceModel>, ErrorView>(e),
            },
        decreases parsed.segments.len() - i,
    {
        let ghost rest = models.skip(i as int);
        let ghost done = pieces@;
        assert(rest[0] == parsed.segments@[i as int].model(template@));
        assert(rest.skip(1) =~= models.skip(i + 1));
        match eval_one(&parsed.segments[i], template, args, positional, mode) {
            Err(e) => {
                return Err(e);
            },
            Ok((piece, after)) => {
                pieces.push(piece);
                mode = after;
                proof {
                    assert(piece_models(pieces@) =~= piece_models(done).push(piece@));
                    if let Ok(tail) = eval(models.skip(i + 1), views, after@) {
                        assert(piece_models(done) + (seq![piece@] + tail) =~= piece_models(pieces@)
                            + tail);
                    }
                }
            },
        }
        i += 1;
    }
    assert(models.skip(i as int) =~= Seq::<SegmentModel>::empty());
    assert(piece_models(pieces@) + Seq::<PieceModel>::empty() =~= piece_models(pieces@));
    match parsed.error {
        Some(e) => Err(e),
        None => Ok(pieces),
    }
}

/// The number of floats among the pieces.
pub open spec fn float_count(pieces: Seq<PieceModel>) -> nat
    decreases pieces.len(),
{
    if pieces.len() == 0 {
        0
    } else if pieces.last() is Float {
        float_count(pieces.drop_last()) + 1
    } else {
        float_count(pieces.drop_last())
    }
}

/// Whether the bits are those of a finite number: neither an infinity nor
/// a NaN, whose exponent bits are all set.
pub open spec fn is_finite(bits: u64) -> bool {
    (bits >> 52) & 0x7ff != 0x7ff
}

/// Whether the text starts with a sign: `+`, `-` or a blank.
pub open spec fn has_sign(text: Seq<u8>) -> bool {
    text.len() > 0 && (text[0] == PLUS || text[0] == MINUS || text[0] == BLANK)
}

/// The text of a float in its field. The text is what was made of the
/// number outside, sign included; here it is only placed: as a number,
/// with its sign as what stands in front of the digits. An infinity or a
/// NaN is never filled up with zeros.
pub open spec fn float_text(text: Seq<u8>, bits: u64, spec: FormatSpec) -> Seq<u8> {
    let head_len: int = if has_sign(text) {
        1
    } else {
        0
    };
    number_text(
        text.subrange(0, head_len),
        text.subrange(head_len, text.len() as int),
        FormatSpec { zero: spec.zero && is_finite(bits), ..spec },
    )
}

/// The pieces in one run of bytes. The float pieces take the texts in
/// their order: the first float the first text, and so on; a float
/// without a text takes the empty one.
pub open spec fn assemble_model(pieces: Seq<PieceModel>, floats: Seq<Seq<u8>>) -> Seq<u8>
    decreases pieces.len(),
{
    if pieces.len() == 0 {
        Seq::empty()
    } else {
        let before = assemble_model(pieces.drop_last(), floats);
        match pieces.last() {
            PieceModel::Text(bytes) => before + bytes,
            PieceModel::Float { bits, spec } => {
                let k = float_count(pieces.drop_last());
                before + float_text(
                    if k < floats.len() {
                        floats[k as int]
                    } else {
                        Seq::empty()
                    },
                    bits,
                    spec,
                )
            },
        }
    }
}

/// The views of texts, one by one.
pub open spec fn text_views(texts: Seq<Vec<u8>>) -> Seq<Seq<u8>> {
    texts.map_values(|t: Vec<u8>| t@)
}

/// Among the first pieces there are no more floats than among all.
pub proof fn lemma_float_count_prefix(pieces: Seq<PieceModel>, n: int)
    requires
        0 <= n <= pieces.len(),
    ensures
        float_count(pieces.take(n)) <= float_count(pieces),
    decreases pieces.len() - n,
{
    if n < pieces.len() {
        lemma_float_count_prefix(pieces, n + 1);
        assert(pieces.take(n + 1).drop_last() =~= pieces.take(n));
    } else {
        assert(pieces.take(n) =~= pieces);
    }
}

/// Appends the text of a float in its field.
pub fn push_float(out: &mut Vec<u8>, text: &[u8], bits: u64, spec: &FormatSpec)
    ensures
        final(out)@ == old(out)@ + float_text(text@, bits, *spec),
{
    let head_len: usize = if text.len() > 0 && (text[0] == PLUS || text[0] == MINUS || text[0]
        == BLANK) {
        1
    } else {
        0
    };
    let finite = (bits >> 52) & 0x7ff != 0x7ff;
    let placed = FormatSpec {
        fill: spec.fill,
        align: spec.align,
        sign: spec.sign,
        alternate: spec.alternate,
        zero: spec.zero && finite,
        width: spec.width,
        precision: spec.precision,
        ty: spec.ty,
    };
    push_number(out, text, head_len, &placed);
}

/// Puts the pieces together in one run of bytes. `floats` holds the text
/// of each float piece, in the order of the pieces.
///
/// Fails with `FormatFailed` when the number of texts is not the number
/// of float pieces, and on no other input.
pub fn assemble(pieces: &[Piece], floats: &[Vec<u8>]) -> (r: Result<Vec<u8>, Error>)
    ensures
        floats@.len() == float_count(piece_models(pieces@)) ==> r is Ok && r->Ok_0@
            == assemble_model(piece_models(pieces@), text_views(floats@)),
        floats@.len() != float_count(piece_models(pieces@)) ==> r matches Err(
            Error::FormatFailed(_),
        ),
{
    let ghost models = piece_models(pieces@);
    let ghost texts = text_views(floats@);
    let mut out: Vec<u8> = Vec::new();
    let mut k: usize = 0;
    let mut i: usize = 0;
    assert(models.take(0) =~= Seq::<PieceModel>::empty());
    while i < pieces.len()
        invariant
            i <= pieces.len(),
            k <= floats.len(),
            models == piece_models(pieces@),
            texts == text_views(floats@),
            k == float_count(models.take(i as int)),
            out@ == assemble_model(models.take(i as int), texts),
        decreases pieces.len() - i,
    {
        assert(models.take(i + 1).drop_last() =~= models.take(i as int));
        assert(models.take(i + 1).last() == pieces@[i as int]@);
        match &pieces[i] {
            Piece::Text(bytes) => {
                push_range(&mut out, bytes.as_slice(), 0, bytes.len());
                assert(bytes@.subrange(0, bytes.len() as int) =~= bytes@);
            },
            Piece::Float { bits, spec } => {
                if k >= floats.len() {
                    proof {
                        lemma_float_count_prefix(models, i + 1);
                    }
                    return Err(
                        Error::FormatFailed("a float has no rendered text".to_owned()),
                    );
                }
                assert(texts[k as int] == floats@[k as int]@);
                push_float(&mut out, floats[k].as_slice(), *bits, spec);
                k += 1;
            },
        }
        i += 1;
    }
    assert(models.take(pieces.len() as int) =~= models);
    if k != floats.len() {
        return Err(Error::FormatFailed("more rendered texts than floats".to_owned()));
    }
    Ok(out)
}

/// Formats a template with a sequence of arguments of the kinds that are
/// rendered here: booleans, integers and strings.
///
/// Fails as `expand` does. A float keeps its digits out of reach of this
/// function: a template that refers to one is answered with
/// `FormatFailed`; `expand` and `assemble` are the way for those.
pub fn format(template: &[u8], args: &[Arg]) -> (r: Result<Vec<u8>, Error>)
    ensures
        match expand_model(template@, args_view(args@)) {
            Err(e) => r matches Err(err) && err@ == e,
            Ok(pieces) => if float_count(pieces) == 0 {
                r matches Ok(bytes) && bytes@ == assemble_model(pieces, Seq::empty())
            } else {
                r matches Err(Error::FormatFailed(_))
            },
        },
{
    match expand(template, args) {
        Err(e) => Err(e),
        Ok(pieces) => {
            let none: Vec<Vec<u8>> = Vec::new();
            assert(text_views(none@) =~= Seq::<Seq<u8>>::empty());
            assemble(pieces.as_slice(), none.as_slice())
        },
    }
}

} // verus!
