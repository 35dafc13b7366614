//! Parsers as values, and the two ways of building one parser from another.

use vstd::prelude::*;
use core::marker::PhantomData;
use crate::error::{lemma_suffix_of_suffix, outcome, within, Outcome, ParseErr, ParseResult};

verus! {

/// Anything that can be run on the unconsumed input.
///
/// A parser need not be a function of its input: `yields` is the relation
/// between an input and the results that `parse` may return on it.
pub trait Parser<'a, Out> {
    /// The inputs on which `parse` may be called.
    spec fn accepts(&self, input: &'a [u8]) -> bool;

    /// The results that `parse` may return on `input`.
    spec fn yields(&self, input: &'a [u8], r: ParseResult<'a, Out>) -> bool;

    /// Runs the parser on `input`.
    fn parse(&self, input: &'a [u8]) -> (r: ParseResult<'a, Out>)
        requires
            self.accepts(input),
        ensures
            self.yields(input, r),
    ;
}

/// Every function from input to a parse result is a parser: it accepts what
/// its precondition admits and yields what its postcondition allows.
impl<'a, Out, F> Parser<'a, Out> for F where F: Fn(&'a [u8]) -> ParseResult<'a, Out> {
    open spec fn accepts(&self, input: &'a [u8]) -> bool {
        call_requires(*self, (input,))
    }

    open spec fn yields(&self, input: &'a [u8], r: ParseResult<'a, Out>) -> bool {
        call_ensures(*self, (input,), r)
    }

    fn parse(&self, input: &'a [u8]) -> (r: ParseResult<'a, Out>) {
        self(input)
    }
}

/// A function used as a parser accepts exactly the inputs that its
/// precondition admits, and yields exactly the results that its
/// postcondition allows.
pub proof fn lemma_fn_parser<'a, Out, F>(f: F) where F: Fn(&'a [u8]) -> ParseResult<'a, Out>
    ensures
        forall|input: &'a [u8]| #[trigger] f.accepts(input) == call_requires(f, (input,)),
        forall|input: &'a [u8], r: ParseResult<'a, Out>| #[trigger]
            f.yields(input, r) == call_ensures(f, (input,), r),
{
}

/// The inputs on which `parser` may be run and its value passed to `fun`:
/// the parser must accept the input, and the function every value that the
/// parser may produce from it.
pub open spec fn map_accepts<'a, Out, Out1, P, F>(parser: P, fun: F, input: &'a [u8]) -> bool where
    P: Parser<'a, Out>,
    F: Fn(Out) -> Out1,
 {
    &&& parser.accepts(input)
    &&& forall|value: Out, rest: &'a [u8]| #[trigger]
        parser.yields(input, Ok((value, rest))) ==> call_requires(fun, (value,))
}

/// The results of running `parser` on `input` and passing its value to
/// `fun`. A success is a success of the parser with the same rest, whose
/// value the function may turn into the one returned. A failure is a
/// failure of the parser, unchanged.
pub open spec fn map_yields<'a, Out, Out1, P, F>(
    parser: P,
    fun: F,
    input: &'a [u8],
    r: ParseResult<'a, Out1>,
) -> bool where P: Parser<'a, Out>, F: Fn(Out) -> Out1 {
    match r {
        Ok((mapped, rest)) => exists|value: Out|
            parser.yields(input, Ok((value, rest))) && #[trigger] call_ensures(
                fun,
                (value,),
                mapped,
            ),
        Err(failure) => parser.yields(input, Err(failure)),
    }
}

/// The inputs on which `parser` may be run and then the parser that `fun`
/// makes from its value: the first parser must accept the input, the
/// function every value that the first parser may produce, and every parser
/// that the function may make the rest that came with the value.
pub open spec fn and_then_accepts<'a, Out, Out1, P, F, Next>(
    parser: P,
    fun: F,
    input: &'a [u8],
) -> bool where P: Parser<'a, Out>, F: Fn(Out) -> Next, Next: Parser<'a, Out1> {
    &&& parser.accepts(input)
    &&& forall|value: Out, rest: &'a [u8]| #[trigger]
        parser.yields(input, Ok((value, rest))) ==> {
            &&& call_requires(fun, (value,))
            &&& forall|next: Next| #[trigger]
                call_ensures(fun, (value,), next) ==> next.accepts(rest)
        }
}

/// The results of running `parser` on `input` and then the parser that
/// `fun` makes from its value. Either the first parser fails and its
/// failure is returned unchanged, or it succeeds and the result is one that
/// a parser made from its value yields on its rest.
pub open spec fn and_then_yields<'a, Out, Out1, P, F, Next>(
    parser: P,
    fun: F,
    input: &'a [u8],
    r: ParseResult<'a, Out1>,
) -> bool where P: Parser<'a, Out>, F: Fn(Out) -> Next, Next: Parser<'a, Out1> {
    ||| exists|failure: (ParseErr, &'a [u8])| #[trigger]
        parser.yields(input, Err(failure)) && r == Err::<(Out1, &'a [u8]), _>(failure)
    ||| exists|value: Out, rest: &'a [u8], next: Next|
        {
            &&& #[trigger] parser.yields(input, Ok((value, rest)))
            &&& #[trigger] call_ensures(fun, (value,), next)
            &&& #[trigger] next.yields(rest, r)
        }
}

/// One result followed by what `next` makes of its value and its rest. A
/// failure ends the sequence.
pub open spec fn sequence<A, B>(
    first: Outcome<A>,
    next: spec_fn(A, Seq<u8>) -> Outcome<B>,
) -> Outcome<B> {
    match first {
        Ok((value, rest)) => next(value, rest),
        Err(failure) => Err(failure),
    }
}

/// A result with its value passed through `fun`. The rest and a failure
/// stay as they are.
pub open spec fn map_value<A, B>(first: Outcome<A>, fun: spec_fn(A) -> B) -> Outcome<B> {
    match first {
        Ok((value, rest)) => Ok((fun(value), rest)),
        Err(failure) => Err(failure),
    }
}

/// Mapping a parser that computes `first` through a function that computes
/// `fun` computes `first` with its value passed through `fun`.
pub proof fn lemma_map_computes<'a, Out: View, Out1: View, P, F>(
    parser: P,
    fun: F,
    input: &'a [u8],
    r: ParseResult<'a, Out1>,
    first: spec_fn(Seq<u8>) -> Outcome<Out::V>,
    mapping: spec_fn(Out::V) -> Out1::V,
) where P: Parser<'a, Out>, F: Fn(Out) -> Out1
    requires
        map_yields(parser, fun, input, r),
        forall|x: ParseResult<'a, Out>| #[trigger]
            parser.yields(input, x) ==> outcome(x) == first(input@),
        forall|value: Out, mapped: Out1| #[trigger]
            call_ensures(fun, (value,), mapped) ==> mapped@ == mapping(value@),
    ensures
        outcome(r) == map_value(first(input@), mapping),
{
    match r {
        Ok((mapped, rest)) => {
            let value = choose|value: Out|
                parser.yields(input, Ok((value, rest))) && #[trigger] call_ensures(
                    fun,
                    (value,),
                    mapped,
                );
            let found: ParseResult<'a, Out> = Ok((value, rest));
            assert(outcome(found) == first(input@));
        },
        Err(failure) => {
            let found: ParseResult<'a, Out> = Err(failure);
            assert(outcome(found) == first(input@));
        },
    }
}

/// Running a parser that computes `first` and then the parsers that `fun`
/// makes, which compute `second` for the value handed to `fun`, computes
/// the two in sequence: the second parser sees the value and the rest of
/// the first, and the first failure is the failure of the whole.
pub proof fn lemma_and_then_computes<'a, Out: View, Out1: View, P, F, Next>(
    parser: P,
    fun: F,
    input: &'a [u8],
    r: ParseResult<'a, Out1>,
    first: spec_fn(Seq<u8>) -> Outcome<Out::V>,
    second: spec_fn(Out::V, Seq<u8>) -> Outcome<Out1::V>,
) where P: Parser<'a, Out>, F: Fn(Out) -> Next, Next: Parser<'a, Out1>
    requires
        and_then_yields(parser, fun, input, r),
        forall|x: ParseResult<'a, Out>| #[trigger]
            parser.yields(input, x) ==> outcome(x) == first(input@),
        forall|value: Out, next: Next, rest: &'a [u8], y: ParseResult<'a, Out1>|
            #[trigger] call_ensures(fun, (value,), next) && #[trigger] next.yields(rest, y)
                ==> outcome(y) == second(value@, rest@),
    ensures
        outcome(r) == sequence(first(input@), second),
{
    if exists|failure: (ParseErr, &'a [u8])| #[trigger]
        parser.yields(input, Err(failure)) && r == Err::<(Out1, &'a [u8]), _>(failure) {
        let failure = choose|failure: (ParseErr, &'a [u8])| #[trigger]
            parser.yields(input, Err(failure)) && r == Err::<(Out1, &'a [u8]), _>(failure);
        let found: ParseResult<'a, Out> = Err(failure);
        assert(outcome(found) == first(input@));
    } else {
        let (value, rest, next) = choose|value: Out, rest: &'a [u8], next: Next|
            {
                &&& #[trigger] parser.yields(input, Ok((value, rest)))
                &&& #[trigger] call_ensures(fun, (value,), next)
                &&& #[trigger] next.yields(rest, r)
            };
        let found: ParseResult<'a, Out> = Ok((value, rest));
        assert(outcome(found) == first(input@));
        assert(outcome(r) == second(value@, rest@));
    }
}

/// Passing the value of a parser through a function does not move the
/// slice that comes with a result: if the parser keeps within `input`, so
/// does the mapped parser.
pub proof fn lemma_map_within<'a, Out, Out1, P, F>(
    parser: P,
    fun: F,
    input: &'a [u8],
    r: ParseResult<'a, Out1>,
) where P: Parser<'a, Out>, F: Fn(Out) -> Out1
    requires
        map_yields(parser, fun, input, r),
        forall|first: ParseResult<'a, Out>| #[trigger]
            parser.yields(input, first) ==> within(first, input@),
    ensures
        within(r, input@),
{
    match r {
        Ok((mapped, rest)) => {
            let value = choose|value: Out|
                parser.yields(input, Ok((value, rest))) && #[trigger] call_ensures(
                    fun,
                    (value,),
                    mapped,
                );
            let found: ParseResult<'a, Out> = Ok((value, rest));
            assert(within(found, input@));
        },
        Err(failure) => {
            let found: ParseResult<'a, Out> = Err(failure);
            assert(within(found, input@));
        },
    }
}

/// Running one parser after another only ever moves forward: if the first
/// parser keeps within `input`, and every parser made from its value keeps
/// within the rest it is run on, then the two in sequence keep within
/// `input`.
pub proof fn lemma_and_then_within<'a, Out, Out1, P, F, Next>(
    parser: P,
    fun: F,
    input: &'a [u8],
    r: ParseResult<'a, Out1>,
) where P: Parser<'a, Out>, F: Fn(Out) -> Next, Next: Parser<'a, Out1>
    requires
        and_then_yields(parser, fun, input, r),
        forall|first: ParseResult<'a, Out>| #[trigger]
            parser.yields(input, first) ==> within(first, input@),
        forall|value: Out, next: Next, rest: &'a [u8], second: ParseResult<'a, Out1>|
            #[trigger] call_ensures(fun, (value,), next) && #[trigger] next.yields(rest, second)
                ==> within(second, rest@),
    ensures
        within(r, input@),
{
    if exists|failure: (ParseErr, &'a [u8])| #[trigger]
        parser.yields(input, Err(failure)) && r == Err::<(Out1, &'a [u8]), _>(failure) {
        let failure = choose|failure: (ParseErr, &'a [u8])| #[trigger]
            parser.yields(input, Err(failure)) && r == Err::<(Out1, &'a [u8]), _>(failure);
        let found: ParseResult<'a, Out> = Err(failure);
        assert(within(found, input@));
    } else {
        let (value, rest, next) = choose|value: Out, rest: &'a [u8], next: Next|
            {
                &&& #[trigger] parser.yields(input, Ok((value, rest)))
                &&& #[trigger] call_ensures(fun, (value,), next)
                &&& #[trigger] next.yields(rest, r)
            };
        let found: ParseResult<'a, Out> = Ok((value, rest));
        assert(within(found, input@));
        assert(within(r, rest@));
        match r {
            Ok((_, end)) => lemma_suffix_of_suffix(end@, rest@, input@),
            Err((_, at)) => lemma_suffix_of_suffix(at@, rest@, input@),
        }
    }
}

/// A parser whose value is passed through a function.
pub struct Mapped<P, F, Out> {
    pub parser: P,
    pub fun: F,
    pub out: PhantomData<Out>,
}

impl<'a, Out, Out1, P, F> Parser<'a, Out1> for Mapped<P, F, Out> where
    P: Parser<'a, Out>,
    F: Fn(Out) -> Out1,
 {
    open spec fn accepts(&self, input: &'a [u8]) -> bool {
        map_accepts(self.parser, self.fun, input)
    }

    open spec fn yields(&self, input: &'a [u8], r: ParseResult<'a, Out1>) -> bool {
        map_yields(self.parser, self.fun, input, r)
    }

    fn parse(&self, input: &'a [u8]) -> (r: ParseResult<'a, Out1>) {
        match self.parser.parse(input) {
            Ok((value, rest)) => {
                let mapped = (self.fun)(value);
                let r: ParseResult<'a, Out1> = Ok((mapped, rest));
                assert(r->Ok_0.0 == mapped && r->Ok_0.1 == rest);
                r
            },
            Err(failure) => Err(failure),
        }
    }
}

/// A parser followed by the parser that a function makes from its value.
pub struct AndThen<P, F, Out> {
    pub parser: P,
    pub fun: F,
    pub out: PhantomData<Out>,
}

impl<'a, Out, Out1, P, F, Next> Parser<'a, Out1> for AndThen<P, F, Out> where
    P: Parser<'a, Out>,
    F: Fn(Out) -> Next,
    Next: Parser<'a, Out1>,
 {
    open spec fn accepts(&self, input: &'a [u8]) -> bool {
        and_then_accepts(self.parser, self.fun, input)
    }

    open spec fn yields(&self, input: &'a [u8], r: ParseResult<'a, Out1>) -> bool {
        and_then_yields(self.parser, self.fun, input, r)
    }

    fn parse(&self, input: &'a [u8]) -> (r: ParseResult<'a, Out1>) {
        match self.parser.parse(input) {
            Ok((value, rest)) => {
                let next = (self.fun)(value);
                next.parse(rest)
            },
            Err(failure) => Err(failure),
        }
    }
}

/// Builds the parser that runs `parser` and passes its value through `fun`:
/// the rest of the input and any failure are those of `parser`.
pub fn map<'a, Out, Out1, F, P>(parser: P, fun: F) -> (mapped: Mapped<P, F, Out>) where
    F: Fn(Out) -> Out1,
    P: Parser<'a, Out>,

    ensures
        mapped.parser == parser,
        mapped.fun == fun,
        forall|input: &'a [u8]| #[trigger] mapped.accepts(input) == map_accepts(parser, fun, input),
        forall|input: &'a [u8], r: ParseResult<'a, Out1>| #[trigger]
            mapped.yields(input, r) == map_yields(parser, fun, input, r),
{
    Mapped { parser, fun, out: PhantomData }
}

/// Builds the parser that runs `parser`, hands its value to `fun`, and runs
/// the parser that `fun` returns on the rest. A failure of `parser` ends the
/// run at once.
pub fn and_then<'a, Out, Out1, F, P, Next>(parser: P, fun: F) -> (chained: AndThen<P, F, Out>) where
    F: Fn(Out) -> Next,
    P: Parser<'a, Out>,
    Next: Parser<'a, Out1>,

    ensures
        chained.parser == parser,
        chained.fun == fun,
        forall|input: &'a [u8]| #[trigger]
            chained.accepts(input) == and_then_accepts(parser, fun, input),
        forall|input: &'a [u8], r: ParseResult<'a, Out1>| #[trigger]
            chained.yields(input, r) == and_then_yields(parser, fun, input, r),
{
    AndThen { parser, fun, out: PhantomData }
}

} // verus!
