//! The argument-list builder: from a mixed list of positional and named
//! entries to one ordered list, positional entries first.

use vstd::prelude::*;
use syn::punctuated::Punctuated;
use syn::token::Comma;
use crate::punctuated::{entries_of, into_entries, is_open, list_len, new_list, push_punct, push_value};
use crate::arg::Arg;
use crate::syntax::{expand_key, expand_value, Expansion, ExpansionView, Expr};

verus! {

/// One entry of the list as it was written: a value, or a key and a value.
#[derive(Debug, Clone, PartialEq, Eq)]
pub enum ArgMacroInput {
    Pos(Expr),
    Named(Expr, Expr),
}

/// An entry together with its place in the list as it was written.
#[derive(Debug, Clone, PartialEq, Eq)]
pub struct Entry {
    pub index: usize,
    pub input: ArgMacroInput,
}

/// One entry of the list that the builder puts out.
#[derive(Debug, Clone, PartialEq, Eq)]
pub struct Lowered {
    /// The place of the entry in the list as it was written.
    pub index: usize,
    /// What stands for the key, for a named entry.
    pub key: Option<Expansion>,
    /// What stands for the value.
    pub value: Expansion,
}

/// The mathematical content of a [`Lowered`] entry.
pub struct LoweredView {
    pub index: nat,
    pub key: Option<ExpansionView>,
    pub value: ExpansionView,
}

impl View for Lowered {
    type V = LoweredView;

    open spec fn view(&self) -> LoweredView {
        LoweredView {
            index: self.index as nat,
            key: match self.key {
                Some(k) => Some(k@),
                None => None,
            },
            value: self.value@,
        }
    }
}

impl ArgMacroInput {
    /// Whether an entry is a named one: the token behind its first is a
    /// colon, and the one behind that is none. Two colons in a row belong
    /// to a path.
    pub fn is_named_form(second_is_colon: bool, third_is_colon: bool) -> (named: bool)
        ensures
            named == (second_is_colon && !third_is_colon),
    {
        second_is_colon && !third_is_colon
    }
}

impl Entry {
    /// What the builder puts out for the entry.
    pub open spec fn lowered(self) -> LoweredView {
        match self.input {
            ArgMacroInput::Pos(value) => LoweredView {
                index: self.index as nat,
                key: None,
                value: value.value_expansion(),
            },
            ArgMacroInput::Named(key, value) => LoweredView {
                index: self.index as nat,
                key: Some(key.key_expansion()),
                value: value.value_expansion(),
            },
        }
    }

    /// Rewrites the entry: its value as a value, its key as a key.
    pub fn expand(&self) -> (r: Lowered)
        ensures
            r@ == self.lowered(),
    {
        match &self.input {
            ArgMacroInput::Pos(value) => Lowered {
                index: self.index,
                key: None,
                value: expand_value(value),
            },
            ArgMacroInput::Named(key, value) => Lowered {
                index: self.index,
                key: Some(expand_key(key)),
                value: expand_value(value),
            },
        }
    }
}

/// The indices below `n` at which the flag is `wanted`, in ascending
/// order.
pub open spec fn positions(flags: Seq<bool>, n: nat, wanted: bool) -> Seq<int>
    decreases n,
{
    if n == 0 {
        Seq::empty()
    } else {
        let earlier = positions(flags, (n - 1) as nat, wanted);
        if flags[n - 1] == wanted {
            earlier.push(n - 1)
        } else {
            earlier
        }
    }
}

/// The order in which the builder puts out a list whose entries are named
/// where the flag is set: the indices of the positional entries, then
/// those of the named ones, each kind ascending.
pub open spec fn order(flags: Seq<bool>) -> Seq<int> {
    positions(flags, flags.len(), false) + positions(flags, flags.len(), true)
}

/// What `positions` selects: indices below `n`, ascending, at which the
/// flag is `wanted`.
pub proof fn lemma_positions(flags: Seq<bool>, n: nat, wanted: bool)
    requires
        n <= flags.len(),
    ensures
        positions(flags, n, wanted).len() <= n,
        forall|k: int|
            0 <= k < positions(flags, n, wanted).len() ==> 0 <= (#[trigger] positions(
                flags,
                n,
                wanted,
            )[k]) < n && flags[positions(flags, n, wanted)[k]] == wanted,
        forall|j: int, k: int|
            0 <= j < k < positions(flags, n, wanted).len() ==> positions(flags, n, wanted)[j]
                < positions(flags, n, wanted)[k],
    decreases n,
{
    if n > 0 {
        lemma_positions(flags, (n - 1) as nat, wanted);
    }
}

/// Every index below `n` is selected once: for the one value of the flag
/// or for the other.
pub proof fn lemma_positions_lengths(flags: Seq<bool>, n: nat)
    ensures
        positions(flags, n, false).len() + positions(flags, n, true).len() == n,
    decreases n,
{
    if n > 0 {
        lemma_positions_lengths(flags, (n - 1) as nat);
    }
}

/// Every index below `n` at which the flag is `wanted` is selected.
pub proof fn lemma_positions_complete(flags: Seq<bool>, n: nat, wanted: bool, i: int)
    requires
        0 <= i < n,
        flags[i] == wanted,
    ensures
        positions(flags, n, wanted).contains(i),
    decreases n,
{
    let all = positions(flags, n, wanted);
    if i == n - 1 {
        assert(all[all.len() - 1] == i);
    } else {
        lemma_positions_complete(flags, (n - 1) as nat, wanted, i);
        let earlier = positions(flags, (n - 1) as nat, wanted);
        let k = choose|k: int| 0 <= k < earlier.len() && earlier[k] == i;
        assert(all[k] == i);
    }
}

/// The order of the list that the builder puts out. With `p` positional
/// entries among `n`: the list has `n` entries; each stands for one entry
/// as written, and each entry as written for one of the list; the first
/// `p` are the positional entries and the others the named ones; and
/// within each kind the order is that in which the entries were written.
pub proof fn lemma_order(flags: Seq<bool>)
    ensures
        order(flags).len() == flags.len(),
        forall|k: int| 0 <= k < flags.len() ==> 0 <= (#[trigger] order(flags)[k]) < flags.len(),
        forall|k: int|
            0 <= k < flags.len() ==> (flags[#[trigger] order(flags)[k]] <==> k >= positions(
                flags,
                flags.len(),
                false,
            ).len()),
        forall|j: int, k: int|
            0 <= j < k < positions(flags, flags.len(), false).len() ==> order(flags)[j] < order(
                flags,
            )[k],
        forall|j: int, k: int|
            positions(flags, flags.len(), false).len() <= j < k < flags.len() ==> order(flags)[j]
                < order(flags)[k],
        forall|i: int| 0 <= i < flags.len() ==> order(flags).contains(i),
{
    let n = flags.len();
    let first = positions(flags, n, false);
    let second = positions(flags, n, true);
    lemma_positions(flags, n, false);
    lemma_positions(flags, n, true);
    lemma_positions_lengths(flags, n);
    assert forall|k: int| 0 <= k < n implies 0 <= (#[trigger] order(flags)[k]) < n && (flags[order(
        flags,
    )[k]] <==> k >= first.len()) by {
        if k >= first.len() {
            assert(order(flags)[k] == second[k - first.len()]);
        } else {
            assert(order(flags)[k] == first[k]);
        }
    }
    assert forall|j: int, k: int| first.len() <= j < k < n implies order(flags)[j] < order(
        flags,
    )[k] by {
        assert(order(flags)[j] == second[j - first.len()]);
        assert(order(flags)[k] == second[k - first.len()]);
    }
    assert forall|i: int| 0 <= i < n implies order(flags).contains(i) by {
        lemma_positions_complete(flags, n, flags[i], i);
        if flags[i] {
            let k = choose|k: int| 0 <= k < second.len() && second[k] == i;
            assert(order(flags)[first.len() + k] == i);
        } else {
            let k = choose|k: int| 0 <= k < first.len() && first[k] == i;
            assert(order(flags)[k] == i);
        }
    }
}

/// For each entry as written, whether it is a named one.
pub open spec fn named_flags(inputs: Seq<ArgMacroInput>) -> Seq<bool> {
    inputs.map_values(|input: ArgMacroInput| input is Named)
}

/// The entries as written at the given places, each with its place.
pub open spec fn entries_at(inputs: Seq<ArgMacroInput>, places: Seq<int>) -> Seq<Entry> {
    places.map_values(|i: int| Entry { index: i as usize, input: inputs[i] })
}

/// The entries of a list, positional ones apart from named ones.
pub struct ArgsMacroInput {
    pub pos: Punctuated<Entry, Comma>,
    pub named: Punctuated<Entry, Comma>,
}

impl ArgsMacroInput {
    /// Sorts the entries of a list into the positional and the named ones,
    /// each kind in the order in which it was written. `trailing_comma`
    /// says whether a comma follows the last entry.
    pub fn parse(inputs: Vec<ArgMacroInput>, trailing_comma: bool) -> (r: ArgsMacroInput)
        ensures
            entries_of(r.pos) == entries_at(
                inputs@,
                positions(named_flags(inputs@), inputs@.len(), false),
            ),
            entries_of(r.named) == entries_at(
                inputs@,
                positions(named_flags(inputs@), inputs@.len(), true),
            ),
    {
        let ghost all = inputs@;
        let ghost flags = named_flags(all);
        let n = inputs.len();
        let mut pos = new_list();
        let mut named = new_list();
        let mut i: usize = 0;
        assert(entries_at(all, positions(flags, 0, false)) =~= Seq::<Entry>::empty());
        assert(entries_at(all, positions(flags, 0, true)) =~= Seq::<Entry>::empty());
        for input in it: inputs
            invariant
                it.seq() == all,
                flags == named_flags(all),
                n == all.len(),
                i == it.index(),
                entries_of(pos) == entries_at(all, positions(flags, i as nat, false)),
                entries_of(named) == entries_at(all, positions(flags, i as nat, true)),
                i < n ==> !is_open(pos) && !is_open(named),
        {
            let more = i + 1 < n || trailing_comma;
            let ghost entry = Entry { index: i, input };
            proof {
                let kind = input is Named;
                assert(flags[i as int] == kind);
                assert(entries_at(all, positions(flags, (i + 1) as nat, kind)) =~= entries_at(
                    all,
                    positions(flags, i as nat, kind),
                ).push(entry));
            }
            match input {
                ArgMacroInput::Pos(_) => {
                    push_value(&mut pos, Entry { index: i, input });
                    if more {
                        push_punct(&mut pos);
                    }
                },
                ArgMacroInput::Named(_, _) => {
                    push_value(&mut named, Entry { index: i, input });
                    if more {
                        push_punct(&mut named);
                    }
                },
            }
            i += 1;
        }
        ArgsMacroInput { pos, named }
    }
}

/// Where the list that the builder puts out is kept.
#[derive(Debug, Clone, Copy, PartialEq, Eq, Structural)]
pub enum Container {
    /// An empty fixed-size sequence.
    Empty,
    /// A fixed-size sequence, for up to 1024 entries.
    Inline,
    /// A growable sequence on the heap, for more than 1024 entries.
    Heap,
}

/// The number of entries up to which the list is kept in a fixed-size
/// sequence.
pub const INLINE_LIMIT: usize = 1024;

/// The container for a list of `count` entries.
pub open spec fn container_for(count: nat) -> Container {
    if count > INLINE_LIMIT {
        Container::Heap
    } else if count > 0 {
        Container::Inline
    } else {
        Container::Empty
    }
}

/// The list that the builder puts out.
#[derive(Debug, Clone, PartialEq, Eq)]
pub struct ArgList {
    pub items: Vec<Lowered>,
    pub container: Container,
}

/// The views of lowered entries, one by one.
pub open spec fn lowered_views(items: Seq<Lowered>) -> Seq<LoweredView> {
    items.map_values(|l: Lowered| l@)
}

/// The list that the builder puts out for the entries as they were
/// written: what each entry is rewritten to, in the order of `order`.
pub open spec fn lowered_list(inputs: Seq<ArgMacroInput>) -> Seq<LoweredView> {
    entries_at(inputs, order(named_flags(inputs))).map_values(|e: Entry| e.lowered())
}

/// Appends to `out` what the builder puts out for each of the entries.
fn expand_all(entries: &Vec<Entry>, out: &mut Vec<Lowered>)
    ensures
        lowered_views(final(out)@) == lowered_views(old(out)@) + entries@.map_values(
            |e: Entry| e.lowered(),
        ),
{
    let ghost before = lowered_views(out@);
    let mut i: usize = 0;
    assert(lowered_views(out@) =~= before + entries@.take(0).map_values(|e: Entry| e.lowered()));
    while i < entries.len()
        invariant
            i <= entries.len(),
            lowered_views(out@) == before + entries@.take(i as int).map_values(
                |e: Entry| e.lowered(),
            ),
        decreases entries.len() - i,
    {
        let ghost prev = out@;
        out.push(entries[i].expand());
        assert(lowered_views(out@) =~= lowered_views(prev).push(entries@[i as int].lowered()));
        assert(entries@.take(i + 1) =~= entries@.take(i as int).push(entries@[i as int]));
        assert(lowered_views(out@) =~= before + entries@.take(i + 1).map_values(
            |e: Entry| e.lowered(),
        ));
        i += 1;
    }
    assert(entries@.take(entries.len() as int) =~= entries@);
}

/// Lowers a list of entries as they were written to the list that is
/// handed to the formatter: the positional entries first, the named ones
/// behind them, and with it the container that the list is kept in.
pub fn args(inputs: Vec<ArgMacroInput>, trailing_comma: bool) -> (r: ArgList)
    ensures
        lowered_views(r.items@) == lowered_list(inputs@),
        r.items@.len() == inputs@.len(),
        r.container == container_for(inputs@.len()),
{
    let ghost all = inputs@;
    let ghost flags = named_flags(all);
    let total = inputs.len();
    proof {
        lemma_positions_lengths(flags, all.len());
    }
    let parsed = ArgsMacroInput::parse(inputs, trailing_comma);
    assert(entries_of(parsed.pos).len() + entries_of(parsed.named).len() == total);
    let count = list_len(&parsed.pos) + list_len(&parsed.named);
    let pos = into_entries(parsed.pos);
    let named = into_entries(parsed.named);
    let mut items: Vec<Lowered> = Vec::new();
    expand_all(&pos, &mut items);
    expand_all(&named, &mut items);
    assert(lowered_views(items@) =~= lowered_list(all)) by {
        assert(lowered_views(Seq::<Lowered>::empty()) =~= Seq::<LoweredView>::empty());
        assert(entries_at(all, order(flags)) =~= pos@ + named@);
        assert((pos@ + named@).map_values(|e: Entry| e.lowered()) =~= pos@.map_values(
            |e: Entry| e.lowered(),
        ) + named@.map_values(|e: Entry| e.lowered()));
    }
    assert(items@.len() == lowered_views(items@).len());
    let container = if count > INLINE_LIMIT {
        Container::Heap
    } else if count > 0 {
        Container::Inline
    } else {
        Container::Empty
    };
    ArgList { items, container }
}

/// For each argument, whether it is a named one.
pub open spec fn arg_flags(args: Seq<Arg>) -> Seq<bool> {
    args.map_values(|a: Arg| a is Named)
}

/// The arguments at the given places.
pub open spec fn args_at(args: Seq<Arg>, places: Seq<int>) -> Seq<Arg> {
    places.map_values(|i: int| args[i])
}

/// The arguments in the order that the formatter takes them in: the
/// positional ones first, the named ones behind them, each kind in the
/// order in which it was given.
pub open spec fn ordered(args: Seq<Arg>) -> Seq<Arg> {
    args_at(args, order(arg_flags(args)))
}

/// Builds the argument sequence of a formatting call from arguments that
/// were given in any order: the positional ones come first, the named
/// ones behind them, each kind in the order in which it was given.
pub fn rt_format_args(entries: Vec<Arg>) -> (r: Vec<Arg>)
    ensures
        r@ == ordered(entries@),
        r@.len() == entries@.len(),
{
    let ghost all = entries@;
    let ghost flags = arg_flags(all);
    let n = entries.len();
    let mut pos: Vec<Arg> = Vec::new();
    let mut named: Vec<Arg> = Vec::new();
    let mut i: usize = 0;
    assert(args_at(all, positions(flags, 0, false)) =~= Seq::<Arg>::empty());
    assert(args_at(all, positions(flags, 0, true)) =~= Seq::<Arg>::empty());
    for entry in it: entries
        invariant
            it.seq() == all,
            flags == arg_flags(all),
            n == all.len(),
            i == it.index(),
            pos@ == args_at(all, positions(flags, i as nat, false)),
            named@ == args_at(all, positions(flags, i as nat, true)),
    {
        proof {
            let kind = entry is Named;
            assert(flags[i as int] == kind);
            assert(args_at(all, positions(flags, (i + 1) as nat, kind)) =~= args_at(
                all,
                positions(flags, i as nat, kind),
            ).push(entry));
        }
        match entry {
            Arg::Pos(_) => pos.push(entry),
            Arg::Named(_, _) => named.push(entry),
        }
        i += 1;
    }
    let ghost first = pos@;
    let ghost second = named@;
    pos.append(&mut named);
    proof {
        lemma_positions_lengths(flags, all.len());
        assert(pos@ =~= first + second);
        assert(ordered(all) =~= first + second);
    }
    pos
}

} // verus!
