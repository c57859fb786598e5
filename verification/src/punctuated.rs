//! The separated lists in which the builder keeps its entries.
//!
//! `syn::punctuated::Punctuated` is not verified here. The contracts below
//! state what its source shows, over two names: the values a list holds,
//! in order, and whether its last value still waits for its separator.

use vstd::prelude::*;
use syn::punctuated::Punctuated;
use syn::token::Comma;
use crate::builder::Entry;

verus! {

/// `syn::punctuated::Punctuated`, taken as it is: nothing inside it is
/// read here.
#[verifier::external_type_specification]
#[verifier::external_body]
#[verifier::reject_recursive_types(T)]
#[verifier::reject_recursive_types(P)]
pub struct ExPunctuated<T, P>(Punctuated<T, P>);

/// `syn::token::Comma`, the separator of the lists, taken as it is.
#[verifier::external_type_specification]
#[verifier::external_body]
pub struct ExComma(Comma);

/// The values that the list holds, first to last.
pub uninterp spec fn entries_of(list: Punctuated<Entry, Comma>) -> Seq<Entry>;

/// Whether the last value of the list has no separator behind it yet.
pub uninterp spec fn is_open(list: Punctuated<Entry, Comma>) -> bool;

/// `Punctuated::new`: a list with no value and nothing waiting.
#[verifier::external_body]
pub(crate) fn new_list() -> (list: Punctuated<Entry, Comma>)
    ensures
        entries_of(list) == Seq::<Entry>::empty(),
        !is_open(list),
{
    Punctuated::new()
}

/// `Punctuated::push_value`: the value goes to the end and waits for its
/// separator. The call panics while an earlier value still waits, so that
/// state is excluded.
#[verifier::external_body]
pub(crate) fn push_value(list: &mut Punctuated<Entry, Comma>, value: Entry)
    requires
        !is_open(*old(list)),
    ensures
        entries_of(*final(list)) == entries_of(*old(list)).push(value),
        is_open(*final(list)),
{
    list.push_value(value)
}

/// `Punctuated::push_punct`, with a comma made by `Comma::default`: the
/// waiting value gets its separator and the values stay as they are. The
/// call panics when no value waits, so that state is excluded.
#[verifier::external_body]
pub(crate) fn push_punct(list: &mut Punctuated<Entry, Comma>)
    requires
        is_open(*old(list)),
    ensures
        entries_of(*final(list)) == entries_of(*old(list)),
        !is_open(*final(list)),
{
    list.push_punct(Comma::default())
}

/// `Punctuated::len`: the number of values, separators not counted.
#[verifier::external_body]
pub(crate) fn list_len(list: &Punctuated<Entry, Comma>) -> (n: usize)
    ensures
        n == entries_of(*list).len(),
{
    list.len()
}

/// `Punctuated::into_iter`, collected: the values in order, without their
/// separators.
#[verifier::external_body]
pub(crate) fn into_entries(list: Punctuated<Entry, Comma>) -> (values: Vec<Entry>)
    ensures
        values@ == entries_of(list),
{
    list.into_iter().collect()
}

} // verus!
