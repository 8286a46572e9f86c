//! How decoders combine: a decoder repeated a given number of times, or
//! once for each flag that is set; a decoder that runs only behind its
//! marker; and one of two decoders, by a condition.

use crate::parser::bits::Bits;
use crate::parser::err::{
    decodes, decodes_each, in_bounds, leaves_end, lemma_leaves_end_of_end, lemma_skip_is_end,
    Decoded, SevenZParserError, SevenZResult,
};
use crate::parser::types::property_id::PropertyID;
use crate::parser::types::{lemma_seq_view_empty, lemma_seq_view_push, seq_view, Either};
use vstd::prelude::*;
use vstd::slice::slice_subrange;

verus! {

/// `n` runs of the decoder `f`, each on what the one before left. The first
/// error ends it.
pub open spec fn spec_count<T>(f: spec_fn(Seq<u8>) -> Decoded<T>, s: Seq<u8>, n: nat) -> Decoded<
    Seq<T>,
>
    decreases n,
{
    if n == 0 {
        Ok((s, Seq::empty()))
    } else {
        match spec_count(f, s, (n - 1) as nat) {
            Err(e) => Err(e),
            Ok((rest, items)) => match f(rest) {
                Err(e) => Err(e),
                Ok((rest, item)) => Ok((rest, items.push(item))),
            },
        }
    }
}

/// An error in the first `m` runs is the error of any longer repetition.
pub proof fn lemma_count_err_persists<T>(
    f: spec_fn(Seq<u8>) -> Decoded<T>,
    s: Seq<u8>,
    m: nat,
    n: nat,
)
    requires
        m <= n,
        spec_count(f, s, m) is Err,
    ensures
        spec_count(f, s, n) == spec_count(f, s, m),
    decreases n,
{
    if m < n {
        lemma_count_err_persists(f, s, m, (n - 1) as nat);
    }
}

/// A repetition that succeeds yields one item per run.
pub proof fn lemma_count_len<T>(f: spec_fn(Seq<u8>) -> Decoded<T>, s: Seq<u8>, n: nat)
    ensures
        spec_count(f, s, n) matches Ok((_, items)) ==> items.len() == n,
    decreases n,
{
    if n > 0 {
        lemma_count_len(f, s, (n - 1) as nat);
    }
}

/// If every item that `f` decodes has the property `p`, so has every item
/// of a repetition.
pub proof fn lemma_count_all<T>(
    f: spec_fn(Seq<u8>) -> Decoded<T>,
    s: Seq<u8>,
    n: nat,
    p: spec_fn(T) -> bool,
)
    requires
        forall|x: Seq<u8>| (#[trigger] f(x)) matches Ok((_, item)) ==> p(item),
    ensures
        spec_count(f, s, n) matches Ok((_, items)) ==> forall|i: int|
            0 <= i < items.len() ==> p(#[trigger] items[i]),
    decreases n,
{
    if n > 0 {
        lemma_count_all(f, s, (n - 1) as nat, p);
    }
}

/// If every outcome of `f` lies within its input, so does the outcome of a
/// repetition.
pub proof fn lemma_count_in_bounds<T>(f: spec_fn(Seq<u8>) -> Decoded<T>, s: Seq<u8>, n: nat)
    requires
        forall|x: Seq<u8>| in_bounds(#[trigger] f(x), x),
    ensures
        in_bounds(spec_count(f, s, n), s),
    decreases n,
{
    if n > 0 {
        lemma_count_in_bounds(f, s, (n - 1) as nat);
    }
}

/// If `f` always leaves an end of its input, so does a repetition.
pub proof fn lemma_count_leaves_end<T>(f: spec_fn(Seq<u8>) -> Decoded<T>, s: Seq<u8>, n: nat)
    requires
        forall|x: Seq<u8>| leaves_end(#[trigger] f(x), x),
    ensures
        leaves_end(spec_count(f, s, n), s),
    decreases n,
{
    if n == 0 {
        lemma_skip_is_end(s, 0);
        assert(s.skip(0) =~= s);
    } else {
        lemma_count_leaves_end(f, s, (n - 1) as nat);
        if let Ok((rest, _)) = spec_count(f, s, (n - 1) as nat) {
            lemma_leaves_end_of_end(f(rest), rest, s);
        }
    }
}

/// If `f` always leaves an end of its input, so does a conditional
/// repetition.
pub proof fn lemma_many_cond_opt_leaves_end<T>(
    f: spec_fn(Seq<u8>) -> Decoded<T>,
    s: Seq<u8>,
    defined: Seq<bool>,
    n: nat,
)
    requires
        forall|x: Seq<u8>| leaves_end(#[trigger] f(x), x),
    ensures
        leaves_end(spec_many_cond_opt(f, s, defined, n), s),
    decreases n,
{
    if n == 0 {
        lemma_skip_is_end(s, 0);
        assert(s.skip(0) =~= s);
    } else {
        lemma_many_cond_opt_leaves_end(f, s, defined, (n - 1) as nat);
        if let Ok((rest, _)) = spec_many_cond_opt(f, s, defined, (n - 1) as nat) {
            lemma_leaves_end_of_end(f(rest), rest, s);
        }
    }
}

/// If `f` leaves an end of what stands behind the marker, the decoder
/// behind the marker leaves an end of its input.
pub proof fn lemma_preceded_opt_leaves_end<T>(
    id: PropertyID,
    f: spec_fn(Seq<u8>) -> Decoded<T>,
    s: Seq<u8>,
)
    requires
        leaves_end(f(s.skip(1)), s.skip(1)),
    ensures
        leaves_end(spec_preceded_opt(id, f, s), s),
{
    if spec_has_tag(s, id) {
        lemma_skip_is_end(s, 1);
        lemma_leaves_end_of_end(f(s.skip(1)), s.skip(1), s);
    } else {
        lemma_skip_is_end(s, 0);
        assert(s.skip(0) =~= s);
    }
}

/// One run of the decoder `f` for each of the first `n` flags of `defined`
/// that is set, and nothing for each that is not.
pub open spec fn spec_many_cond_opt<T>(
    f: spec_fn(Seq<u8>) -> Decoded<T>,
    s: Seq<u8>,
    defined: Seq<bool>,
    n: nat,
) -> Decoded<Seq<Option<T>>>
    decreases n,
{
    if n == 0 {
        Ok((s, Seq::empty()))
    } else {
        match spec_many_cond_opt(f, s, defined, (n - 1) as nat) {
            Err(e) => Err(e),
            Ok((rest, items)) => if defined[n - 1] {
                match f(rest) {
                    Err(e) => Err(e),
                    Ok((rest, item)) => Ok((rest, items.push(Some(item)))),
                }
            } else {
                Ok((rest, items.push(None)))
            },
        }
    }
}

/// An error in the first `m` runs is the error of any longer repetition.
pub proof fn lemma_many_cond_opt_err_persists<T>(
    f: spec_fn(Seq<u8>) -> Decoded<T>,
    s: Seq<u8>,
    defined: Seq<bool>,
    m: nat,
    n: nat,
)
    requires
        m <= n,
        spec_many_cond_opt(f, s, defined, m) is Err,
    ensures
        spec_many_cond_opt(f, s, defined, n) == spec_many_cond_opt(f, s, defined, m),
    decreases n,
{
    if m < n {
        lemma_many_cond_opt_err_persists(f, s, defined, m, (n - 1) as nat);
    }
}

/// `n` times `item`.
pub open spec fn repeated<T>(item: T, n: nat) -> Seq<T> {
    Seq::new(n, |i: int| item)
}

/// `n` flags, all set.
pub open spec fn all_defined(n: nat) -> Seq<bool> {
    repeated(true, n)
}

/// The flags that `defined` stands for: its bits, or `n` set flags where
/// there is no vector.
pub open spec fn defined_flags(defined: Option<Bits>, n: nat) -> Seq<bool> {
    match defined {
        Some(bits) => bits@,
        None => all_defined(n),
    }
}

/// `r` is the executable counterpart of `d`, for a value that is its own
/// model.
pub open spec fn yields<T>(r: SevenZResult<T>, d: Decoded<T>) -> bool {
    match (r, d) {
        (Ok((rest, value)), Ok((srest, svalue))) => rest@ == srest && value == svalue,
        (Err(e), Err(se)) => e == se,
        _ => false,
    }
}

/// If every outcome of `f` lies within its input, so does the outcome of a
/// conditional repetition.
pub proof fn lemma_many_cond_opt_in_bounds<T>(
    f: spec_fn(Seq<u8>) -> Decoded<T>,
    s: Seq<u8>,
    defined: Seq<bool>,
    n: nat,
)
    requires
        forall|x: Seq<u8>| in_bounds(#[trigger] f(x), x),
    ensures
        in_bounds(spec_many_cond_opt(f, s, defined, n), s),
    decreases n,
{
    if n > 0 {
        lemma_many_cond_opt_in_bounds(f, s, defined, (n - 1) as nat);
    }
}

/// A conditional repetition that succeeds yields one entry per flag.
pub proof fn lemma_many_cond_opt_len<T>(
    f: spec_fn(Seq<u8>) -> Decoded<T>,
    s: Seq<u8>,
    defined: Seq<bool>,
    n: nat,
)
    ensures
        spec_many_cond_opt(f, s, defined, n) matches Ok((_, items)) ==> items.len() == n,
    decreases n,
{
    if n > 0 {
        lemma_many_cond_opt_len(f, s, defined, (n - 1) as nat);
    }
}

/// The result `d` with `items` put before what it decoded.
pub open spec fn with_prefix<T>(items: Seq<T>, d: Decoded<Seq<T>>) -> Decoded<Seq<T>> {
    match d {
        Err(e) => Err(e),
        Ok((rest, more)) => Ok((rest, items + more)),
    }
}

/// Items put before a result one after another are put before it together.
pub proof fn lemma_with_prefix_push<T>(items: Seq<T>, item: T, d: Decoded<Seq<T>>)
    ensures
        with_prefix(items, with_prefix(seq![item], d)) == with_prefix(items.push(item), d),
{
    if let Ok((rest, more)) = d {
        assert(items + (seq![item] + more) =~= items.push(item) + more);
    }
}

/// Nothing is put before a result, or a result has nothing behind what is
/// put before it, without changing the items.
pub proof fn lemma_with_prefix_empty<T>(items: Seq<T>, rest: Seq<u8>)
    ensures
        with_prefix(items, Ok((rest, Seq::empty()))) == Ok::<(Seq<u8>, Seq<T>), SevenZParserError>(
            (rest, items),
        ),
        with_prefix(Seq::empty(), Ok((rest, items))) == Ok::<(Seq<u8>, Seq<T>), SevenZParserError>(
            (rest, items),
        ),
{
    assert(items + Seq::<T>::empty() =~= items);
    assert(Seq::<T>::empty() + items =~= items);
}

/// Whether `s` begins with the marker `id`.
pub open spec fn spec_has_tag(s: Seq<u8>, id: PropertyID) -> bool {
    s.len() > 0 && s[0] == id.spec_byte()
}

/// The decoder `f` behind the marker `id`: where `s` begins with the marker,
/// what `f` yields on the bytes behind it; otherwise nothing, with `s`
/// untouched.
pub open spec fn spec_preceded_opt<T>(
    id: PropertyID,
    f: spec_fn(Seq<u8>) -> Decoded<T>,
    s: Seq<u8>,
) -> Decoded<Option<T>> {
    if spec_has_tag(s, id) {
        match f(s.skip(1)) {
            Err(e) => Err(e),
            Ok((rest, item)) => Ok((rest, Some(item))),
        }
    } else {
        Ok((s, None))
    }
}

/// Whether `input` begins with the marker `id`.
pub fn has_tag(input: &[u8], id: PropertyID) -> (b: bool)
    ensures
        b == spec_has_tag(input@, id),
{
    input.len() > 0 && input[0] == id.byte()
}

/// Runs the decoder `f` `n` times, each time on what the run before left,
/// and collects what it decodes. `spec` is what `f` does on byte sequences.
pub fn count<'a, T: View, F>(
    f: F,
    n: usize,
    input: &'a [u8],
    Ghost(spec): Ghost<spec_fn(Seq<u8>) -> Decoded<T::V>>,
) -> (r: SevenZResult<'a, Vec<T>>) where F: Fn(&'a [u8]) -> SevenZResult<'a, T>
    requires
        forall|x: &'a [u8]| call_requires(f, (x,)),
        forall|x: &'a [u8], out: SevenZResult<'a, T>|
            call_ensures(f, (x,), out) ==> decodes(out, spec(x@)),
    ensures
        decodes_each(r, spec_count(spec, input@, n as nat)),
{
    let mut items: Vec<T> = Vec::new();
    let mut rest = input;
    let mut i: usize = 0;
    proof {
        lemma_seq_view_empty::<T>();
    }
    while i < n
        invariant
            i <= n,
            forall|x: &'a [u8]| call_requires(f, (x,)),
            forall|x: &'a [u8], out: SevenZResult<'a, T>|
                call_ensures(f, (x,), out) ==> decodes(out, spec(x@)),
            spec_count(spec, input@, i as nat) == Ok::<(Seq<u8>, Seq<T::V>), SevenZParserError>(
                (rest@, seq_view(items@)),
            ),
        decreases n - i,
    {
        match f(rest) {
            Err(e) => {
                proof {
                    lemma_count_err_persists(spec, input@, (i + 1) as nat, n as nat);
                }
                return Err(e);
            },
            Ok((after, item)) => {
                proof {
                    lemma_seq_view_push(items@, item);
                }
                items.push(item);
                rest = after;
            },
        }
        i = i + 1;
    }
    Ok((rest, items))
}

/// Runs the decoder `f` once for each of the `n` flags of `defined` that is
/// set, each time on what the run before left, and collects what it
/// decodes; for a flag that is not set it collects nothing. No vector
/// stands for all flags set. `spec` is what `f` does on byte sequences.
pub fn many_cond_opt<'a, T, F>(
    f: F,
    defined: &Option<Bits>,
    n: usize,
    input: &'a [u8],
    Ghost(spec): Ghost<spec_fn(Seq<u8>) -> Decoded<T>>,
) -> (r: SevenZResult<'a, Vec<Option<T>>>) where F: Fn(&'a [u8]) -> SevenZResult<'a, T>
    requires
        defined_flags(*defined, n as nat).len() == n,
        forall|x: &'a [u8]| call_requires(f, (x,)),
        forall|x: &'a [u8], out: SevenZResult<'a, T>|
            call_ensures(f, (x,), out) ==> yields(out, spec(x@)),
    ensures
        match (r, spec_many_cond_opt(spec, input@, defined_flags(*defined, n as nat), n as nat)) {
            (Ok((rest, items)), Ok((srest, sitems))) => rest@ == srest && items@ == sitems,
            (Err(e), Err(se)) => e == se,
            _ => false,
        },
{
    let ghost flags = defined_flags(*defined, n as nat);
    let mut items: Vec<Option<T>> = Vec::new();
    let mut rest = input;
    let mut i: usize = 0;
    while i < n
        invariant
            i <= n,
            flags == defined_flags(*defined, n as nat),
            flags.len() == n,
            forall|x: &'a [u8]| call_requires(f, (x,)),
            forall|x: &'a [u8], out: SevenZResult<'a, T>|
                call_ensures(f, (x,), out) ==> yields(out, spec(x@)),
            spec_many_cond_opt(spec, input@, flags, i as nat) == Ok::<
                (Seq<u8>, Seq<Option<T>>),
                SevenZParserError,
            >((rest@, items@)),
        decreases n - i,
    {
        let is_defined = match defined {
            Some(bits) => bits.get(i),
            None => true,
        };
        if is_defined {
            match f(rest) {
                Err(e) => {
                    proof {
                        lemma_many_cond_opt_err_persists(
                            spec,
                            input@,
                            flags,
                            (i + 1) as nat,
                            n as nat,
                        );
                    }
                    return Err(e);
                },
                Ok((after, item)) => {
                    items.push(Some(item));
                    rest = after;
                },
            }
        } else {
            items.push(None);
        }
        i = i + 1;
    }
    Ok((rest, items))
}

/// Runs the decoder `second` behind the marker `id` if `input` begins with
/// it, and leaves `input` untouched if not.
pub fn preceded_opt<'a, O, G>(id: PropertyID, second: G, input: &'a [u8]) -> (r: SevenZResult<
    'a,
    Option<O>,
>) where G: FnOnce(&'a [u8]) -> SevenZResult<'a, O>
    requires
        forall|x: &'a [u8]| x@ == input@.skip(1) ==> call_requires(second, (x,)),
    ensures
        !spec_has_tag(input@, id) ==> (r matches Ok((rest, None)) && rest@ == input@),
        spec_has_tag(input@, id) ==> exists|x: &'a [u8]|
            x@ == input@.skip(1) && match r {
                Ok((rest, Some(item))) => call_ensures(
                    second,
                    (x,),
                    Ok::<(&'a [u8], O), SevenZParserError>((rest, item)),
                ),
                Ok((_, None)) => false,
                Err(e) => call_ensures(second, (x,), Err::<(&'a [u8], O), SevenZParserError>(e)),
            },
{
    if has_tag(input, id) {
        let behind = slice_subrange(input, 1, input.len());
        match second(behind) {
            Ok((rest, item)) => Ok((rest, Some(item))),
            Err(e) => Err(e),
        }
    } else {
        Ok((input, None))
    }
}

/// Runs the decoder `first` if `b` holds and hands its result on as
/// `Left`; otherwise runs `second` and hands its result on as `Right`.
pub fn either<'a, O1, O2, F, G>(b: bool, first: F, second: G, input: &'a [u8]) -> (r: SevenZResult<
    'a,
    Either<O1, O2>,
>) where
    F: FnOnce(&'a [u8]) -> SevenZResult<'a, O1>,
    G: FnOnce(&'a [u8]) -> SevenZResult<'a, O2>,

    requires
        b ==> call_requires(first, (input,)),
        !b ==> call_requires(second, (input,)),
    ensures
        b ==> match r {
            Ok((rest, Either::Left(item))) => call_ensures(
                first,
                (input,),
                Ok::<(&'a [u8], O1), SevenZParserError>((rest, item)),
            ),
            Ok((_, Either::Right(_))) => false,
            Err(e) => call_ensures(first, (input,), Err::<(&'a [u8], O1), SevenZParserError>(e)),
        },
        !b ==> match r {
            Ok((rest, Either::Right(item))) => call_ensures(
                second,
                (input,),
                Ok::<(&'a [u8], O2), SevenZParserError>((rest, item)),
            ),
            Ok((_, Either::Left(_))) => false,
            Err(e) => call_ensures(second, (input,), Err::<(&'a [u8], O2), SevenZParserError>(e)),
        },
{
    if b {
        match first(input) {
            Ok((rest, item)) => Ok((rest, Either::Left(item))),
            Err(e) => Err(e),
        }
    } else {
        match second(input) {
            Ok((rest, item)) => Ok((rest, Either::Right(item))),
            Err(e) => Err(e),
        }
    }
}

} // verus!
