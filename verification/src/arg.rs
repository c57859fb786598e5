//! Positional and named arguments, and the keys that name them.

use vstd::prelude::*;
use vstd::std_specs::convert::IntoSpec;
use vstd::string::StringSliceAdditionalSpecFns;
use crate::error::Error;
use crate::value::{Value, ValueView};

verus! {

/// A key is usable when it is not empty and holds no NUL byte.
pub open spec fn valid_key(bytes: Seq<u8>) -> bool {
    &&& bytes.len() > 0
    &&& forall|i: int| 0 <= i < bytes.len() ==> bytes[i] != 0
}

/// Tells whether the bytes make a usable key.
pub fn check_key(bytes: &[u8]) -> (ok: bool)
    ensures
        ok == valid_key(bytes@),
{
    if bytes.len() == 0 {
        return false;
    }
    let mut i: usize = 0;
    while i < bytes.len()
        invariant
            i <= bytes.len(),
            forall|j: int| 0 <= j < i ==> bytes@[j] != 0,
        decreases bytes.len() - i,
    {
        if bytes[i] == 0 {
            return false;
        }
        i += 1;
    }
    true
}

/// A fresh vector holding the bytes of the slice.
pub fn copy_bytes(src: &[u8]) -> (bytes: Vec<u8>)
    ensures
        bytes@ == src@,
{
    let mut bytes: Vec<u8> = Vec::new();
    let mut i: usize = 0;
    while i < src.len()
        invariant
            i <= src.len(),
            bytes@ == src@.take(i as int),
        decreases src.len() - i,
    {
        bytes.push(src[i]);
        assert(src@.take(i as int).push(src@[i as int]) == src@.take(i + 1));
        i += 1;
    }
    assert(src@.take(src.len() as int) == src@);
    bytes
}

/// The name of a named argument: a non-empty byte string without NUL,
/// fixed once it is made.
#[derive(Debug, PartialEq, Eq)]
pub struct Key {
    bytes: Vec<u8>,
}

impl View for Key {
    type V = Seq<u8>;

    closed spec fn view(&self) -> Seq<u8> {
        self.bytes@
    }
}

impl Key {
    #[verifier::type_invariant]
    spec fn well_formed(self) -> bool {
        valid_key(self.bytes@)
    }

    /// Makes a key of the bytes, or fails with `InvalidKey` when they are
    /// empty or hold a NUL.
    pub fn new(bytes: Vec<u8>) -> (r: Result<Key, Error>)
        ensures
            valid_key(bytes@) ==> r is Ok && r->Ok_0@ == bytes@,
            !valid_key(bytes@) ==> r == Err::<Key, Error>(Error::InvalidKey),
    {
        if check_key(bytes.as_slice()) {
            Ok(Key { bytes })
        } else {
            Err(Error::InvalidKey)
        }
    }

    /// Makes a key of the UTF-8 bytes of the text, or fails with `InvalidKey`
    /// when the text is empty or holds a NUL.
    pub fn from_text(name: &str) -> (r: Result<Key, Error>)
        ensures
            valid_key(name.spec_bytes()) ==> r is Ok && r->Ok_0@ == name.spec_bytes(),
            !valid_key(name.spec_bytes()) ==> r == Err::<Key, Error>(Error::InvalidKey),
    {
        let bytes = copy_bytes(name.as_bytes());
        Key::new(bytes)
    }

    /// The bytes of the key: never empty, never holding a NUL.
    pub fn as_bytes(&self) -> (bytes: &[u8])
        ensures
            bytes@ == self@,
            valid_key(bytes@),
    {
        proof {
            use_type_invariant(self);
        }
        self.bytes.as_slice()
    }
}

impl Clone for Key {
    fn clone(&self) -> (r: Key)
        ensures
            r@ == self@,
    {
        proof {
            use_type_invariant(self);
        }
        Key { bytes: copy_bytes(self.bytes.as_slice()) }
    }
}

/// One argument of a formatting call: a value, with or without a name.
#[derive(Debug, Clone, PartialEq, Eq)]
pub enum Arg {
    Pos(Value),
    Named(Key, Value),
}

/// The mathematical content of an [`Arg`].
pub enum ArgView {
    Pos(ValueView),
    Named(Seq<u8>, ValueView),
}

impl ArgView {
    /// The value the argument carries.
    pub open spec fn value(self) -> ValueView {
        match self {
            ArgView::Pos(v) => v,
            ArgView::Named(_, v) => v,
        }
    }
}

impl View for Arg {
    type V = ArgView;

    open spec fn view(&self) -> ArgView {
        match *self {
            Arg::Pos(v) => ArgView::Pos(v@),
            Arg::Named(k, v) => ArgView::Named(k@, v@),
        }
    }
}

/// The views of a sequence of arguments, one by one.
pub open spec fn args_view(args: Seq<Arg>) -> Seq<ArgView> {
    args.map_values(|a: Arg| a@)
}

impl Arg {
    /// Wraps a value, or anything that converts into one, as a positional
    /// argument.
    pub fn positional<T: Into<Value>>(arg: T) -> (r: Arg)
        ensures
            r matches Arg::Pos(v) && call_ensures(<T as Into<Value>>::into, (arg,), v),
            T::obeys_into_spec() ==> r == Arg::Pos(arg.into_spec()),
    {
        Arg::Pos(arg.into())
    }

    /// Wraps a value under a name. Fails with `InvalidKey` when the name is
    /// empty or holds a NUL, and on no other input.
    pub fn named<T: Into<Value>>(name: &str, arg: T) -> (r: Result<Arg, Error>)
        ensures
            valid_key(name.spec_bytes()) ==> (r matches Ok(Arg::Named(k, v)) && k@
                == name.spec_bytes() && call_ensures(<T as Into<Value>>::into, (arg,), v) && (
            T::obeys_into_spec() ==> v == arg.into_spec())),
            !valid_key(name.spec_bytes()) ==> r == Err::<Arg, Error>(Error::InvalidKey),
    {
        match Key::from_text(name) {
            Ok(key) => Ok(Arg::Named(key, arg.into())),
            Err(e) => Err(e),
        }
    }

    /// Whether the argument has a name.
    pub fn is_named(&self) -> (b: bool)
        ensures
            b == (self is Named),
    {
        matches!(self, Arg::Named(..))
    }

    /// Whether the argument has no name.
    pub fn is_positional(&self) -> (b: bool)
        ensures
            b == (self is Pos),
    {
        matches!(self, Arg::Pos(..))
    }

    /// A fresh vector holding the bytes of the slice.
pub fn copy_bytes(src: &[u8]) -> (bytes: Vec<u8>)
    ensures
        bytes@ == src@,
{
    let mut bytes: Vec<u8> = Vec::new();
    let mut i: usize = 0;
    while i < src.len()
        invariant
            i <= src.len(),
            bytes@ == src@.take(i as int),
        decreases src.len() - i,
    {
        bytes.push(src[i]);
        assert(src@.take(i as int).push(src@[i as int]) == src@.take(i + 1));
        i += 1;
    }
    assert(src@.take(src.len() as int) == src@);
    bytes
}

/// The name of a named argument; a positional one has none, and the
    /// call fails with `InvalidOperation`.
    pub fn get_name(&self) -> (r: Result<&[u8], Error>)
        ensures
            self matches Arg::Named(k, _) ==> r is Ok && r->Ok_0@ == k@ && valid_key(k@),
            self is Pos ==> r == Err::<&[u8], Error>(
                Error::InvalidOperation("positional argument has no name"),
            ),
    {
        match self {
            Arg::Named(name, _) => Ok(name.as_bytes()),
            _ => Err(Error::InvalidOperation("positional argument has no name")),
        }
    }

    /// The value of the argument, whether it has a name or not.
    pub fn get_value(&self) -> (v: &Value)
        ensures
            self matches Arg::Named(_, value) ==> *v == value,
            self matches Arg::Pos(value) ==> *v == value,
            v@ == self@.value(),
    {
        match self {
            Arg::Named(_, value) => value,
            Arg::Pos(value) => value,
        }
    }
}

/// Anything that converts into a value is a positional argument.
impl<T: Into<Value>> From<T> for Arg {
    fn from(value: T) -> (r: Arg) {
        Arg::Pos(value.into())
    }
}

impl<T: Into<Value>> vstd::std_specs::convert::FromSpecImpl<T> for Arg {
    open spec fn obeys_from_spec() -> bool {
        T::obeys_into_spec()
    }

    open spec fn from_spec(value: T) -> Arg {
        Arg::Pos(value.into_spec())
    }
}

/// What can be handed to the formatter as its arguments.
pub trait IntoArgs: Sized {
    /// Whether `args` is a sequence that the value stands for.
    spec fn stands_for(self, args: Seq<Arg>) -> bool;

    /// Turns the value into the argument sequence it stands for.
    fn into_args(self) -> (r: Vec<Arg>)
        ensures
            self.stands_for(r@),
    ;
}

/// Each element becomes one argument, in order.
impl<T: Into<Arg>> IntoArgs for Vec<T> {
    open spec fn stands_for(self, args: Seq<Arg>) -> bool {
        &&& args.len() == self@.len()
        &&& forall|i: int|
            0 <= i < args.len() ==> call_ensures(
                <T as Into<Arg>>::into,
                (self@[i],),
                #[trigger] args[i],
            )
    }

    fn into_args(self) -> (r: Vec<Arg>) {
        let ghost all = self@;
        let mut out: Vec<Arg> = Vec::new();
        for e in it: self
            invariant
                it.seq() == all,
                out@.len() == it.index(),
                forall|i: int|
                    0 <= i < out@.len() ==> call_ensures(
                        <T as Into<Arg>>::into,
                        (all[i],),
                        #[trigger] out@[i],
                    ),
        {
            out.push(e.into());
        }
        out
    }
}

/// Whether `arg` is what a clone of `x` converts into.
pub open spec fn converts_cloned<T: Into<Arg> + Clone>(x: T, arg: Arg) -> bool {
    exists|copy: T|
        #[trigger] call_ensures(T::clone, (&x,), copy) && call_ensures(
            <T as Into<Arg>>::into,
            (copy,),
            arg,
        )
}

/// Each element is cloned and becomes one argument, in order.
impl<'a, T: Into<Arg> + Clone> IntoArgs for &'a [T] {
    open spec fn stands_for(self, args: Seq<Arg>) -> bool {
        &&& args.len() == self@.len()
        &&& forall|i: int| 0 <= i < args.len() ==> converts_cloned(self@[i], #[trigger] args[i])
    }

    fn into_args(self) -> (r: Vec<Arg>) {
        let mut out: Vec<Arg> = Vec::new();
        let mut i: usize = 0;
        while i < self.len()
            invariant
                i <= self.len(),
                out@.len() == i,
                forall|j: int|
                    0 <= j < out@.len() ==> converts_cloned(self@[j], #[trigger] out@[j]),
            decreases self.len() - i,
        {
            let copy = self[i].clone();
            let ghost kept = copy;
            let arg: Arg = copy.into();
            assert(call_ensures(T::clone, (&self@[i as int],), kept));
            assert(converts_cloned(self@[i as int], arg));
            out.push(arg);
            i += 1;
        }
        out
    }
}

/// A single value stands for the one argument it converts into.
impl<T: Into<Arg>> IntoArgs for T {
    open spec fn stands_for(self, args: Seq<Arg>) -> bool {
        args.len() == 1 && call_ensures(<T as Into<Arg>>::into, (self,), args[0])
    }

    fn into_args(self) -> (r: Vec<Arg>) {
        let mut out: Vec<Arg> = Vec::new();
        out.push(self.into());
        out
    }
}

} // verus!
