//! What holds of the formatter on every input.

use vstd::prelude::*;
use crate::arg::{args_view, Arg, ArgView};
use crate::builder::{arg_flags, lemma_order, order, ordered, positions};
use crate::engine::{
    assemble_model, eval, eval_segment, expand_model, float_count, float_text,
    lemma_positional_count_bound, positional_count, Mode,
};
use crate::error::ErrorView;
use crate::render::PieceModel;
use crate::template::{
    at, cons, is_brace, parse, parse_from, run_end, Class, FieldModel, RefModel, SegmentModel,
    lemma_run_end,
};

verus! {

/// An empty template gives no piece, and no piece gives no byte, whatever
/// the arguments are.
pub proof fn lemma_empty_template(args: Seq<ArgView>, floats: Seq<Seq<u8>>)
    ensures
        expand_model(Seq::empty(), args) == Ok::<Seq<PieceModel>, ErrorView>(Seq::empty()),
        float_count(Seq::empty()) == 0,
        assemble_model(Seq::empty(), floats) == Seq::<u8>::empty(),
{
}

/// Formatting is a function of the template and the arguments: two
/// outcomes for the same template and the same arguments are the same.
pub proof fn lemma_deterministic(
    t: Seq<u8>,
    args: Seq<ArgView>,
    first: Result<Seq<PieceModel>, ErrorView>,
    second: Result<Seq<PieceModel>, ErrorView>,
)
    requires
        first == expand_model(t, args),
        second == expand_model(t, args),
    ensures
        first == second,
{
}

/// Whether two failures are the same but for the place in the template.
pub open spec fn same_failure(first: ErrorView, second: ErrorView) -> bool {
    match (first, second) {
        (ErrorView::IndexOutOfRange(_), ErrorView::IndexOutOfRange(_)) => true,
        (ErrorView::UnknownName(a, _), ErrorView::UnknownName(b, _)) => a == b,
        (ErrorView::InvalidSpec(_), ErrorView::InvalidSpec(_)) => true,
        _ => false,
    }
}

/// Two placeholders that refer to the same index or name with the same
/// spec give the same piece, wherever they stand: both succeed with equal
/// pieces, or both fail in the same way.
pub proof fn lemma_same_reference(
    first: FieldModel,
    second: FieldModel,
    args: Seq<ArgView>,
    mode_first: Mode,
    mode_second: Mode,
)
    requires
        first.reference == second.reference,
        first.spec == second.spec,
        !(first.reference is Auto),
        !(mode_first is Auto),
        !(mode_second is Auto),
    ensures
        match (
            eval_segment(SegmentModel::Field(first), args, mode_first),
            eval_segment(SegmentModel::Field(second), args, mode_second),
        ) {
            (Ok((p, m)), Ok((q, n))) => p == q && m is Explicit && n is Explicit,
            (Err(e), Err(f)) => same_failure(e, f),
            _ => false,
        },
{
}

/// Whether the sequence has its positional arguments first and its named
/// ones behind them.
pub open spec fn positional_first(args: Seq<ArgView>) -> bool {
    forall|j: int, k: int| 0 <= j < k < args.len() && args[k] is Pos ==> args[j] is Pos
}

/// In a sequence that has its positional arguments first, they are the
/// ones at the indices below their number: an index, and the automatic
/// counter, reach positional arguments only.
pub proof fn lemma_positional_prefix(args: Seq<ArgView>, i: int)
    requires
        positional_first(args),
        0 <= i < args.len(),
    ensures
        args[i] is Pos <==> i < positional_count(args),
    decreases args.len(),
{
    let earlier = args.drop_last();
    lemma_positional_count_bound(earlier);
    assert(positional_first(earlier)) by {
        assert forall|j: int, k: int|
            0 <= j < k < earlier.len() && earlier[k] is Pos implies earlier[j] is Pos by {
            assert(earlier[k] == args[k] && earlier[j] == args[j]);
        }
    }
    if i < earlier.len() {
        lemma_positional_prefix(earlier, i);
    }
    if args.last() is Pos && earlier.len() > 0 {
        // every argument in front of a positional one is positional
        lemma_positional_prefix(earlier, earlier.len() - 1);
    }
}

/// What the runtime builder puts out has its positional arguments first.
pub proof fn lemma_ordered_positional_first(args: Seq<Arg>)
    ensures
        positional_first(args_view(ordered(args))),
        ordered(args).len() == args.len(),
{
    let flags = arg_flags(args);
    let out = ordered(args);
    lemma_order(flags);
    assert forall|j: int, k: int|
        0 <= j < k < args_view(out).len() && args_view(out)[k] is Pos implies args_view(
        out,
    )[j] is Pos by {
        let p = positions(flags, flags.len(), false).len();
        assert(args_view(out)[k] == out[k]@);
        assert(args_view(out)[j] == out[j]@);
        assert(out[k] == args[order(flags)[k]]);
        assert(out[j] == args[order(flags)[j]]);
        assert(flags[order(flags)[k]] == (args[order(flags)[k]] is Named));
        assert(flags[order(flags)[j]] == (args[order(flags)[j]] is Named));
    }
}

/// Whether every placeholder among the segments is an automatic one.
pub open spec fn all_auto(segments: Seq<SegmentModel>) -> bool {
    forall|i: int|
        0 <= i < segments.len() ==> ((#[trigger] segments[i]) matches SegmentModel::Field(f)
            ==> f.reference is Auto)
}

/// The segments with every automatic placeholder replaced by the explicit
/// index that it draws when the counter stands at `n` in front of them.
pub open spec fn numbered(segments: Seq<SegmentModel>, n: nat) -> Seq<SegmentModel>
    decreases segments.len(),
{
    if segments.len() == 0 {
        segments
    } else {
        match segments[0] {
            SegmentModel::Field(f) => if f.reference is Auto {
                seq![
                    SegmentModel::Field(
                        FieldModel { at: f.at, reference: RefModel::Index(n), spec: f.spec },
                    ),
                ] + numbered(segments.skip(1), n + 1)
            } else {
                seq![segments[0]] + numbered(segments.skip(1), n)
            },
            SegmentModel::Literal(_) => seq![segments[0]] + numbered(segments.skip(1), n),
        }
    }
}

/// A template of automatic placeholders gives the same pieces as the
/// template in which each of them is replaced by the index it draws: `{}`
/// is `{i}` where `i` is what the counter stands at. Where the one fails
/// the other fails too.
pub proof fn lemma_auto_as_index(
    segments: Seq<SegmentModel>,
    args: Seq<ArgView>,
    n: nat,
    auto_mode: Mode,
    explicit_mode: Mode,
)
    requires
        all_auto(segments),
        auto_mode == Mode::Auto(n) || (n == 0 && auto_mode is Unset),
        !(explicit_mode is Auto),
    ensures
        match eval(segments, args, auto_mode) {
            Ok(pieces) => eval(numbered(segments, n), args, explicit_mode) == Ok::<
                Seq<PieceModel>,
                ErrorView,
            >(pieces),
            Err(_) => eval(numbered(segments, n), args, explicit_mode) is Err,
        },
    decreases segments.len(),
{
    if segments.len() > 0 {
        let rest = segments.skip(1);
        let other = numbered(segments, n);
        assert(all_auto(rest)) by {
            assert forall|i: int| 0 <= i < rest.len() implies ((#[trigger] rest[i])
                matches SegmentModel::Field(f) ==> f.reference is Auto) by {
                assert(rest[i] == segments[i + 1]);
            }
        }
        match segments[0] {
            SegmentModel::Field(f) => {
                assert(f.reference is Auto);
                assert(other.skip(1) =~= numbered(rest, n + 1));
                lemma_auto_as_index(rest, args, n + 1, Mode::Auto(n + 1), Mode::Explicit);
            },
            SegmentModel::Literal(_) => {
                assert(other.skip(1) =~= numbered(rest, n));
                lemma_auto_as_index(rest, args, n, auto_mode, explicit_mode);
            },
        }
    }
}

/// Whether the template from `pos` on holds no placeholder: every brace
/// in it is one of a pair `{{` or `}}`.
pub open spec fn placeholder_free(t: Seq<u8>, pos: int) -> bool
    decreases t.len() - pos,
{
    if !(0 <= pos < t.len()) {
        true
    } else if is_brace(t[pos]) {
        at(t, pos + 1, t[pos]) && placeholder_free(t, pos + 2)
    } else {
        placeholder_free(t, pos + 1)
    }
}

/// The bytes of the template from `pos` on, with each pair `{{` or `}}`
/// collapsed to one brace.
pub open spec fn collapsed(t: Seq<u8>, pos: int) -> Seq<u8>
    decreases t.len() - pos,
{
    if !(0 <= pos < t.len()) {
        Seq::empty()
    } else if is_brace(t[pos]) && at(t, pos + 1, t[pos]) {
        seq![t[pos]] + collapsed(t, pos + 2)
    } else {
        seq![t[pos]] + collapsed(t, pos + 1)
    }
}

/// Whether every segment is a literal.
pub open spec fn all_literal(segments: Seq<SegmentModel>) -> bool {
    forall|i: int| 0 <= i < segments.len() ==> (#[trigger] segments[i]) is Literal
}

/// The bytes of the literals among the segments, in order.
pub open spec fn literal_text(segments: Seq<SegmentModel>) -> Seq<u8>
    decreases segments.len(),
{
    if segments.len() == 0 {
        Seq::empty()
    } else {
        match segments[0] {
            SegmentModel::Literal(bytes) => bytes + literal_text(segments.skip(1)),
            SegmentModel::Field(_) => literal_text(segments.skip(1)),
        }
    }
}

/// A run without braces is copied as it stands, and decides nothing about
/// what follows it.
proof fn lemma_plain_run(t: Seq<u8>, pos: int, end: int)
    requires
        0 <= pos <= end <= t.len(),
        forall|i: int| pos <= i < end ==> !is_brace(#[trigger] t[i]),
    ensures
        placeholder_free(t, pos) == placeholder_free(t, end),
        collapsed(t, pos) == t.subrange(pos, end) + collapsed(t, end),
    decreases end - pos,
{
    if pos < end {
        assert(!is_brace(t[pos]));
        lemma_plain_run(t, pos + 1, end);
        assert(t.subrange(pos, end) =~= seq![t[pos]] + t.subrange(pos + 1, end));
        assert(seq![t[pos]] + (t.subrange(pos + 1, end) + collapsed(t, end)) =~= t.subrange(
            pos,
            end,
        ) + collapsed(t, end));
    } else {
        assert(t.subrange(pos, end) + collapsed(t, end) =~= collapsed(t, end));
    }
}

/// A template without placeholders is cut into literals only, whose bytes
/// are those of the template with the escapes collapsed.
proof fn lemma_parse_literals(t: Seq<u8>, pos: int)
    requires
        0 <= pos <= t.len(),
        placeholder_free(t, pos),
    ensures
        parse_from(t, pos).1 is None,
        all_literal(parse_from(t, pos).0),
        literal_text(parse_from(t, pos).0) == collapsed(t, pos),
    decreases t.len() - pos,
{
    if pos < t.len() {
        let next = if is_brace(t[pos]) {
            pos + 2
        } else {
            run_end(t, pos + 1, Class::Plain)
        };
        let first = if is_brace(t[pos]) {
            SegmentModel::Literal(seq![t[pos]])
        } else {
            SegmentModel::Literal(t.subrange(pos, next))
        };
        if !is_brace(t[pos]) {
            lemma_run_end(t, pos + 1, Class::Plain);
            assert forall|i: int| pos <= i < next implies !is_brace(#[trigger] t[i]) by {
                if i > pos {
                    assert(Class::Plain.holds(t[i]));
                }
            }
            lemma_plain_run(t, pos, next);
        }
        lemma_parse_literals(t, next);
        let rest = parse_from(t, next);
        let all = parse_from(t, pos);
        assert(all == cons(first, rest));
        assert(all.0.skip(1) =~= rest.0);
        assert forall|i: int| 0 <= i < all.0.len() implies (#[trigger] all.0[i]) is Literal by {
            if i > 0 {
                assert(all.0[i] == rest.0[i - 1]);
            }
        }
    }
}

/// A text in front of pieces stands in front of what the pieces give, and
/// adds no float.
proof fn lemma_text_first(bytes: Seq<u8>, rest: Seq<PieceModel>, floats: Seq<Seq<u8>>)
    ensures
        float_count(seq![PieceModel::Text(bytes)] + rest) == float_count(rest),
        assemble_model(seq![PieceModel::Text(bytes)] + rest, floats) == bytes + assemble_model(
            rest,
            floats,
        ),
    decreases rest.len(),
{
    let all = seq![PieceModel::Text(bytes)] + rest;
    if rest.len() == 0 {
        assert(all.len() == 1);
        assert(all.last() == PieceModel::Text(bytes));
        assert(all.drop_last() =~= Seq::<PieceModel>::empty());
        assert(float_count(all.drop_last()) == 0);
        assert(float_count(rest) == 0);
        assert(assemble_model(all.drop_last(), floats) == Seq::<u8>::empty());
        assert(assemble_model(rest, floats) == Seq::<u8>::empty());
        assert(Seq::<u8>::empty() + bytes =~= bytes + Seq::<u8>::empty());
    } else {
        lemma_text_first(bytes, rest.drop_last(), floats);
        assert(all.drop_last() =~= seq![PieceModel::Text(bytes)] + rest.drop_last());
        assert(all.last() == rest.last());
        let inner = assemble_model(rest.drop_last(), floats);
        assert(assemble_model(all.drop_last(), floats) == bytes + inner);
        match rest.last() {
            PieceModel::Text(last) => {
                assert((bytes + inner) + last =~= bytes + (inner + last));
            },
            PieceModel::Float { bits, spec } => {
                let k = float_count(rest.drop_last());
                let text = float_text(
                    if k < floats.len() {
                        floats[k as int]
                    } else {
                        Seq::empty()
                    },
                    bits,
                    spec,
                );
                assert((bytes + inner) + text =~= bytes + (inner + text));
            },
        }
    }
}

/// Literals give their bytes, whatever the arguments and the mode are.
proof fn lemma_eval_literals(
    segments: Seq<SegmentModel>,
    args: Seq<ArgView>,
    mode: Mode,
    floats: Seq<Seq<u8>>,
)
    requires
        all_literal(segments),
    ensures
        eval(segments, args, mode) matches Ok(pieces) && float_count(pieces) == 0
            && assemble_model(pieces, floats) == literal_text(segments),
    decreases segments.len(),
{
    if segments.len() > 0 {
        let rest = segments.skip(1);
        assert forall|i: int| 0 <= i < rest.len() implies (#[trigger] rest[i]) is Literal by {
            assert(rest[i] == segments[i + 1]);
        }
        lemma_eval_literals(rest, args, mode, floats);
        assert(segments[0] is Literal);
        let bytes = segments[0]->Literal_0;
        lemma_text_first(bytes, eval(rest, args, mode)->Ok_0, floats);
    }
}

/// A template without placeholders gives its own bytes, with each pair
/// `{{` or `}}` collapsed to one brace, whatever the arguments are.
pub proof fn lemma_no_placeholders(t: Seq<u8>, args: Seq<ArgView>, floats: Seq<Seq<u8>>)
    requires
        placeholder_free(t, 0),
    ensures
        expand_model(t, args) matches Ok(pieces) && float_count(pieces) == 0 && assemble_model(
            pieces,
            floats,
        ) == collapsed(t, 0),
{
    lemma_parse_literals(t, 0);
    lemma_eval_literals(parse(t).0, args, Mode::Unset, floats);
}

/// A template without any brace gives its own bytes.
pub proof fn lemma_verbatim(t: Seq<u8>, args: Seq<ArgView>, floats: Seq<Seq<u8>>)
    requires
        forall|i: int| 0 <= i < t.len() ==> !is_brace(#[trigger] t[i]),
    ensures
        expand_model(t, args) matches Ok(pieces) && float_count(pieces) == 0 && assemble_model(
            pieces,
            floats,
        ) == t,
{
    lemma_plain_run(t, 0, t.len() as int);
    assert(t.subrange(0, t.len() as int) =~= t);
    assert(t + Seq::<u8>::empty() =~= t);
    lemma_no_placeholders(t, args, floats);
}

} // verus!
