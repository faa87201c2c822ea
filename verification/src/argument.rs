//! The value of a command line argument: a list of parts with commas between
//! them, most of the form `kind=value`, and the error for one that is refused.
use vstd::prelude::*;

use crate::number;
use crate::text;

verus! {

/// Why an argument was refused.
#[derive(Debug)]
pub enum Error {
    /// `value` was given where `expected` says what would have been accepted.
    InvalidValue { value: String, expected: String },
}

/// The texts that an error holds.
pub struct Refusal {
    pub value: Seq<char>,
    pub expected: Seq<char>,
}

impl View for Error {
    type V = Refusal;

    open spec fn view(&self) -> Refusal {
        match self {
            Error::InvalidValue { value, expected } => Refusal {
                value: value@,
                expected: expected@,
            },
        }
    }
}

/// The error for `value`, where `expected` says what would have been accepted.
pub fn invalid(value: &str, expected: &str) -> (e: Error)
    ensures
        e@ == (Refusal { value: value@, expected: expected@ }),
{
    Error::InvalidValue { value: value.to_owned(), expected: expected.to_owned() }
}

/// Whether `r` is what `s` states: the same value, or the same refusal.
pub open spec fn agrees<T>(r: Result<T, Error>, s: Result<T, Refusal>) -> bool {
    match r {
        Ok(v) => s == Ok::<T, Refusal>(v),
        Err(e) => s == Err::<T, Refusal>(e@),
    }
}

/// Whether `r` and the list `after` are what `s` states: the device was put at
/// the end of the list, or it was refused and the list is as it was.
pub open spec fn listed<D>(
    r: Result<(), Error>,
    after: Seq<D>,
    s: Result<D, Refusal>,
    before: Seq<D>,
) -> bool {
    match s {
        Ok(device) => r is Ok && after == before.push(device),
        Err(e) => r matches Err(given) && given@ == e && after == before,
    }
}

/// The state after the options `opts`, taken in order by `apply` from `start`.
/// The first option that is refused ends it.
pub open spec fn fold<S>(
    start: S,
    opts: Seq<Seq<char>>,
    apply: spec_fn(S, Seq<char>) -> Result<S, Refusal>,
) -> Result<S, Refusal>
    decreases opts.len(),
{
    if opts.len() == 0 {
        Ok(start)
    } else {
        match fold(start, opts.drop_last(), apply) {
            Ok(state) => apply(state, opts.last()),
            Err(e) => Err(e),
        }
    }
}

/// A refusal among the first options is the refusal of all of them.
pub proof fn lemma_first_refusal_stands<S>(
    start: S,
    opts: Seq<Seq<char>>,
    apply: spec_fn(S, Seq<char>) -> Result<S, Refusal>,
    i: int,
)
    requires
        0 <= i <= opts.len(),
        fold(start, opts.take(i), apply) is Err,
    ensures
        fold(start, opts, apply) == fold(start, opts.take(i), apply),
    decreases opts.len(),
{
    if i < opts.len() {
        assert(opts.drop_last().take(i) =~= opts.take(i));
        lemma_first_refusal_stands(start, opts.drop_last(), apply, i);
    } else {
        assert(opts.take(i) =~= opts);
    }
}

/// The options of an argument are its parts but the first.
pub open spec fn options(param: Seq<char>) -> Seq<Seq<char>> {
    text::pieces(param, ',').skip(1)
}

/// The first part of an argument.
pub open spec fn head(param: Seq<char>) -> Seq<char> {
    text::pieces(param, ',')[0]
}

/// The options of an argument that may start with a word: all its parts, but
/// not a first part without a `=`.
pub open spec fn option_parts(param: Seq<char>) -> Seq<Seq<char>> {
    if text::pair(head(param), '=') is Some {
        text::pieces(param, ',')
    } else {
        options(param)
    }
}

/// A word in front of the options makes no difference to them.
pub proof fn lemma_leading_word_is_passed_over(word: Seq<char>, param: Seq<char>)
    requires
        !word.contains(','),
        !word.contains('='),
        text::pair(head(param), '=') is Some,
    ensures
        option_parts(word + seq![','] + param) == option_parts(param),
{
    let whole = word + seq![','] + param;
    text::lemma_pair_of_key_and_value(word, param, ',');
    assert(text::pieces(whole, ',') =~= seq![word] + text::pieces(param, ','));
    assert forall|j: int| 0 <= j < word.len() implies word[j] != '=' by {
        assert(word.contains(word[j]));
    }
    text::lemma_position(word, '=', word.len() as int);
    assert(text::pieces(whole, ',').skip(1) =~= text::pieces(param, ','));
}

/// What the options of one kind of device are told when they are refused.
#[derive(Clone, Copy)]
pub struct Words {
    /// An option without a `=`.
    pub form: &'static str,
    /// A label that is no number.
    pub number: &'static str,
    /// The label zero.
    pub zero: &'static str,
    /// An option of another kind.
    pub unknown: &'static str,
}

/// The kind and the value of the option `opt`.
pub open spec fn kind_value(opt: Seq<char>, form: Seq<char>) -> Result<
    (Seq<char>, Seq<char>),
    Refusal,
> {
    match text::pair(opt, '=') {
        Some(kv) => Ok(kv),
        None => Err(Refusal { value: opt, expected: form }),
    }
}

/// The label that `value` writes in hexadecimal.
pub open spec fn label(value: Seq<char>, words: Words) -> Result<u32, Refusal> {
    match number::unsigned(value, 16, u32::MAX as nat) {
        None => Err(Refusal { value, expected: words.number@ }),
        Some(v) => if v == 0 {
            Err(Refusal { value, expected: words.zero@ })
        } else {
            Ok(v as u32)
        },
    }
}

/// The label after the option `opt` of a device that takes only a label.
pub open spec fn label_option(words: Words) -> spec_fn(u32, Seq<char>) -> Result<u32, Refusal> {
    |old: u32, opt: Seq<char>|
        match kind_value(opt, words.form@) {
            Err(e) => Err(e),
            Ok((kind, value)) => if kind == "label"@ {
                label(value, words)
            } else {
                Err(Refusal { value: kind, expected: words.unknown@ })
            },
        }
}

/// The label that the argument `param` gives a device that takes only a label.
pub open spec fn only_label(param: Seq<char>, words: Words) -> Result<u32, Refusal> {
    fold(0u32, options(param), label_option(words))
}

/// The label that the argument `param`, which may start with a word, gives a
/// device that takes only a label.
pub open spec fn given_label(param: Seq<char>, words: Words) -> Result<u32, Refusal> {
    fold(0u32, option_parts(param), label_option(words))
}

/// A label that was given is never zero, and where there are no options there
/// is no label.
pub proof fn lemma_given_label_is_zero_only_without_options(param: Seq<char>, words: Words)
    requires
        given_label(param, words) is Ok,
    ensures
        given_label(param, words)->Ok_0 == 0 <==> option_parts(param).len() == 0,
{
    lemma_label_fold(option_parts(param), words);
}

/// A label that was given is never zero, and where there are no options there
/// is no label.
pub proof fn lemma_label_is_zero_only_without_options(param: Seq<char>, words: Words)
    requires
        only_label(param, words) is Ok,
    ensures
        only_label(param, words)->Ok_0 == 0 <==> options(param).len() == 0,
{
    lemma_label_fold(options(param), words);
}

proof fn lemma_label_fold(opts: Seq<Seq<char>>, words: Words)
    requires
        fold(0u32, opts, label_option(words)) is Ok,
    ensures
        fold(0u32, opts, label_option(words))->Ok_0 == 0 <==> opts.len() == 0,
{
    reveal_with_fuel(fold, 2);
}

/// A device that takes options one after the other.
pub trait Optioned: View + Sized {
    /// What an option does to the device.
    spec fn option_effect(device: Self::V, opt: Seq<char>) -> Result<Self::V, Refusal>;

    /// Takes one option.
    fn take_option(&mut self, opt: &str) -> (r: Result<(), Error>)
        ensures
            match Self::option_effect(old(self)@, opt@) {
                Ok(device) => r is Ok && final(self)@ == device,
                Err(e) => r matches Err(given) && given@ == e,
            },
    ;
}

/// What the options do to a device.
pub open spec fn with_options<T: Optioned>(device: T::V, opts: Seq<Seq<char>>) -> Result<
    T::V,
    Refusal,
> {
    fold(device, opts, |d: T::V, opt: Seq<char>| T::option_effect(d, opt))
}

/// Whether `opt` is an option of this kind.
pub open spec fn of_kind(opt: Seq<char>, kind: Seq<char>) -> bool {
    text::pair(opt, '=') matches Some((k, _)) && k == kind
}

/// Whether one of the options is of this kind.
pub open spec fn has_kind(opts: Seq<Seq<char>>, kind: Seq<char>) -> bool {
    exists|i: int| 0 <= i < opts.len() && of_kind(#[trigger] opts[i], kind)
}

/// What every single option keeps, all options keep.
pub proof fn lemma_options_keep<T: Optioned>(
    device: T::V,
    opts: Seq<Seq<char>>,
    holds: spec_fn(T::V) -> bool,
)
    requires
        holds(device),
        with_options::<T>(device, opts) is Ok,
        forall|d: T::V, i: int|
            0 <= i < opts.len() && holds(d) && (#[trigger] T::option_effect(d, opts[i])) is Ok
                ==> holds(T::option_effect(d, opts[i])->Ok_0),
    ensures
        holds(with_options::<T>(device, opts)->Ok_0),
    decreases opts.len(),
{
    if opts.len() > 0 {
        let before = opts.drop_last();
        assert forall|d: T::V, i: int|
            0 <= i < before.len() && holds(d) && (#[trigger] T::option_effect(
                d,
                before[i],
            )) is Ok implies holds(T::option_effect(d, before[i])->Ok_0) by {
            assert(before[i] == opts[i]);
            assert(T::option_effect(d, opts[i]) is Ok);
        }
        lemma_options_keep::<T>(device, before, holds);
        let d = with_options::<T>(device, before)->Ok_0;
        let last = opts.len() - 1;
        assert(T::option_effect(d, opts[last]) is Ok);
    }
}

/// Where every option of the kind `label` gives a label that is not zero, and
/// no other option touches the label, the label is zero if and only if there
/// is no such option.
pub proof fn lemma_label_follows_options<T: Optioned>(
    device: T::V,
    opts: Seq<Seq<char>>,
    label_of: spec_fn(T::V) -> u32,
)
    requires
        label_of(device) == 0,
        with_options::<T>(device, opts) is Ok,
        forall|d: T::V, opt: Seq<char>|
            (#[trigger] T::option_effect(d, opt)) is Ok ==> if of_kind(opt, "label"@) {
                label_of(T::option_effect(d, opt)->Ok_0) != 0
            } else {
                label_of(T::option_effect(d, opt)->Ok_0) == label_of(d)
            },
    ensures
        label_of(with_options::<T>(device, opts)->Ok_0) == 0 <==> !has_kind(opts, "label"@),
    decreases opts.len(),
{
    if opts.len() > 0 {
        let before = opts.drop_last();
        lemma_label_follows_options::<T>(device, before, label_of);
        let d = with_options::<T>(device, before)->Ok_0;
        assert(T::option_effect(d, opts.last()) is Ok);
        if has_kind(before, "label"@) {
            let i = choose|i: int| 0 <= i < before.len() && of_kind(#[trigger] before[i], "label"@);
            assert(of_kind(opts[i], "label"@));
        }
        if of_kind(opts.last(), "label"@) {
            assert(of_kind(opts[opts.len() - 1], "label"@));
        }
        if has_kind(opts, "label"@) && !of_kind(opts.last(), "label"@) {
            let i = choose|i: int| 0 <= i < opts.len() && of_kind(#[trigger] opts[i], "label"@);
            assert(of_kind(before[i], "label"@));
        }
    }
}

/// An option as it is written: its kind, a `=` and its value.
pub open spec fn written(kind: Seq<char>, value: Seq<char>) -> Seq<char> {
    kind + seq!['='] + value
}

/// An argument with one more part at its end: what it was, a comma and the
/// part.
pub open spec fn longer(param: Seq<char>, part: Seq<char>) -> Seq<char> {
    param + seq![','] + part
}

/// A part without a comma at the end of an argument is one more option, the
/// last one, and changes nothing of what stands before.
pub proof fn lemma_longer_argument(param: Seq<char>, part: Seq<char>)
    requires
        !part.contains(','),
    ensures
        head(longer(param, part)) == head(param),
        options(longer(param, part)) == options(param).push(part),
        option_parts(longer(param, part)) == option_parts(param).push(part),
        text::pieces(longer(param, part), ',') == text::pieces(param, ',').push(part),
{
    let all = text::pieces(longer(param, part), ',');
    let before = text::pieces(param, ',');
    text::lemma_pieces_of_two_texts(param, part, ',');
    text::lemma_pieces_of_two_texts(part, part, ',');
    text::lemma_pieces_join(param, ',');
    assert(all =~= before.push(part));
    assert(all.skip(1) =~= before.skip(1).push(part));
}

/// An argument without a comma is its own first part, and has no option unless
/// it is one where a word may stand in front of the options.
pub proof fn lemma_single_part(word: Seq<char>)
    requires
        !word.contains(','),
    ensures
        head(word) == word,
        options(word).len() == 0,
        text::pieces(word, ',') == seq![word],
        word.contains('=') ==> option_parts(word) == seq![word],
        !word.contains('=') ==> option_parts(word).len() == 0,
{
    text::lemma_pieces_of_two_texts(word, word, ',');
    text::lemma_pair_is_the_text(word, '=');
}

/// An option is read as the kind and the value it was written with. Text
/// without a `=` is refused as it stands.
pub proof fn lemma_option_reads_back(kind: Seq<char>, value: Seq<char>, form: Seq<char>)
    ensures
        !kind.contains('=') ==> kind_value(written(kind, value), form) == Ok::<_, Refusal>(
            (kind, value),
        ),
        !value.contains('=') ==> kind_value(value, form) == Err::<(Seq<char>, Seq<char>), _>(
            Refusal { value, expected: form },
        ),
{
    if !kind.contains('=') {
        text::lemma_pair_of_key_and_value(kind, value, '=');
    }
    text::lemma_pair_is_the_text(value, '=');
}

/// A label is a number in hexadecimal that is not zero and that 32 bits can
/// hold. Anything else is refused as it stands, zero in words of its own.
pub proof fn lemma_label_is_hexadecimal(value: Seq<char>, words: Words)
    ensures
        match number::unsigned(value, 16, 0xffff_ffff) {
            Some(v) => if v > 0 {
                label(value, words) matches Ok(l) && l == v
            } else {
                label(value, words) matches Err(e) && e.value == value && e.expected == words.zero@
            },
            None => label(value, words) matches Err(e) && e.value == value && e.expected
                == words.number@,
        },
{
}

/// Options that are taken one after the other can be taken in two turns: the
/// second goes on where the first ended, unless that ended with a refusal.
pub proof fn lemma_options_in_two_turns<S>(
    start: S,
    first: Seq<Seq<char>>,
    second: Seq<Seq<char>>,
    apply: spec_fn(S, Seq<char>) -> Result<S, Refusal>,
)
    ensures
        fold(start, first + second, apply) == match fold(start, first, apply) {
            Ok(state) => fold(state, second, apply),
            Err(e) => Err(e),
        },
        fold(start, Seq::empty(), apply) == Ok::<S, Refusal>(start),
    decreases second.len(),
{
    if second.len() == 0 {
        assert(first + second =~= first);
    } else {
        lemma_options_in_two_turns(start, first, second.drop_last(), apply);
        assert((first + second).drop_last() =~= first + second.drop_last());
    }
}

/// One more option is taken by what the options before it made of the device.
pub proof fn lemma_one_more_option<T: Optioned>(
    device: T::V,
    opts: Seq<Seq<char>>,
    opt: Seq<char>,
)
    ensures
        with_options::<T>(device, opts.push(opt)) == match with_options::<T>(device, opts) {
            Ok(d) => T::option_effect(d, opt),
            Err(e) => Err(e),
        },
        with_options::<T>(device, Seq::empty()) == Ok::<T::V, Refusal>(device),
{
    assert(opts.push(opt).drop_last() =~= opts);
}

/// The word for a label holds neither of the characters that cut an argument.
pub proof fn lemma_label_word()
    ensures
        !"label"@.contains('='),
        !"label"@.contains(','),
{
    reveal_strlit("label");
    assert("label"@ =~= seq!['l', 'a', 'b', 'e', 'l']);
}

/// An option whose kind and value hold no comma is one part of an argument.
pub proof fn lemma_written_part(kind: Seq<char>, value: Seq<char>)
    requires
        !kind.contains(','),
        !value.contains(','),
    ensures
        !written(kind, value).contains(','),
{
    let opt = written(kind, value);
    if opt.contains(',') {
        let i = choose|i: int| 0 <= i < opt.len() && opt[i] == ',';
        if i < kind.len() {
            assert(kind[i] == ',');
        } else if i > kind.len() {
            assert(value[i - kind.len() - 1] == ',');
        }
    }
}

/// What one more part does to an argument of a device that takes only a label:
/// a label is taken in place of what was there, anything else is refused, and
/// a refusal of what stands before stays what it is.
pub proof fn lemma_last_label_counts(
    param: Seq<char>,
    kind: Seq<char>,
    value: Seq<char>,
    words: Words,
)
    requires
        !kind.contains('='),
        !kind.contains(','),
        !value.contains(','),
    ensures
        ({
            let after = only_label(longer(param, written(kind, value)), words);
            let before = only_label(param, words);
            &&& before is Err ==> after == before
            &&& before is Ok && kind == "label"@ ==> after == label(value, words)
            &&& before is Ok && kind != "label"@ ==> (after matches Err(e) && e.value == kind
                && e.expected == words.unknown@)
        }),
        ({
            let after = given_label(longer(param, written(kind, value)), words);
            let before = given_label(param, words);
            &&& before is Err ==> after == before
            &&& before is Ok && kind == "label"@ ==> after == label(value, words)
            &&& before is Ok && kind != "label"@ ==> (after matches Err(e) && e.value == kind
                && e.expected == words.unknown@)
        }),
{
    let opt = written(kind, value);
    lemma_written_part(kind, value);
    lemma_longer_argument(param, opt);
    lemma_option_reads_back(kind, value, words.form@);
    assert(options(param).push(opt).drop_last() =~= options(param));
    assert(option_parts(param).push(opt).drop_last() =~= option_parts(param));
}

/// A part without a `=` behind the first is refused as it stands, and an
/// argument without options gives no label.
pub proof fn lemma_labels_need_their_form(param: Seq<char>, part: Seq<char>, words: Words)
    requires
        !part.contains(','),
        !part.contains('='),
    ensures
        only_label(param, words) is Ok ==> (only_label(longer(param, part), words) matches Err(e)
            && e.value == part && e.expected == words.form@),
        given_label(param, words) is Ok ==> (given_label(longer(param, part), words) matches Err(
            e,
        ) && e.value == part && e.expected == words.form@),
        only_label(part, words) == Ok::<u32, Refusal>(0),
        given_label(part, words) == Ok::<u32, Refusal>(0),
{
    lemma_longer_argument(param, part);
    lemma_single_part(part);
    lemma_option_reads_back(part, part, words.form@);
    assert(options(param).push(part).drop_last() =~= options(param));
    assert(option_parts(param).push(part).drop_last() =~= option_parts(param));
}

/// An argument that is nothing but one option is read by that option, where a
/// word in front is not needed.
pub proof fn lemma_option_alone_counts(kind: Seq<char>, value: Seq<char>, words: Words)
    requires
        !kind.contains('='),
        !kind.contains(','),
        !value.contains(','),
    ensures
        kind == "label"@ ==> given_label(written(kind, value), words) == label(value, words),
        kind != "label"@ ==> (given_label(written(kind, value), words) matches Err(e) && e.value
            == kind && e.expected == words.unknown@),
{
    let opt = written(kind, value);
    lemma_written_part(kind, value);
    assert(opt[kind.len() as int] == '=');
    assert(opt.contains('='));
    lemma_single_part(opt);
    lemma_option_reads_back(kind, value, words.form@);
    assert(seq![opt].drop_last() =~= Seq::<Seq<char>>::empty());
    assert(fold(0u32, Seq::<Seq<char>>::empty(), label_option(words)) == Ok::<u32, Refusal>(0));
}

/// Lets the device take the parts from index `from` on as options.
pub fn take_options<T: Optioned>(device: &mut T, parts: &Vec<&str>, from: usize) -> (r: Result<
    (),
    Error,
>)
    requires
        from <= parts@.len(),
    ensures
        match with_options::<T>(old(device)@, text::texts(parts@).skip(from as int)) {
            Ok(after) => r is Ok && final(device)@ == after,
            Err(e) => r matches Err(given) && given@ == e,
        },
{
    let ghost opts = text::texts(parts@).skip(from as int);
    let ghost apply = |d: T::V, opt: Seq<char>| T::option_effect(d, opt);
    let ghost start = device@;
    let n: usize = parts.len();
    let mut i: usize = from;
    assert(opts.take(0) =~= Seq::empty());
    while i < n
        invariant
            from <= i <= n,
            n == parts@.len(),
            opts == text::texts(parts@).skip(from as int),
            apply == (|d: T::V, opt: Seq<char>| T::option_effect(d, opt)),
            start == old(device)@,
            fold(start, opts.take(i - from), apply) == Ok::<_, Refusal>(device@),
        decreases n - i,
    {
        let opt = parts[i];
        proof {
            assert(text::texts(parts@)[i as int] == opt@);
            assert(opts.take(i - from + 1).drop_last() =~= opts.take(i - from));
            assert(opts.take(i - from + 1).last() == opt@);
            if fold(start, opts.take(i - from + 1), apply) is Err {
                lemma_first_refusal_stands(start, opts, apply, i - from + 1);
            }
        }
        match device.take_option(opt) {
            Ok(_) => {},
            Err(e) => {
                return Err(e);
            },
        }
        i += 1;
    }
    assert(opts.take(n - from) =~= opts);
    Ok(())
}

/// Cuts the argument into its parts.
pub fn components<'a>(param: &'a str) -> (r: Vec<&'a str>)
    ensures
        text::texts(r@) == text::pieces(param@, ','),
        r@.len() >= 1,
        r@[0]@ == head(param@),
        text::texts(r@).skip(1) == options(param@),
{
    let r = text::split(param, ',');
    assert(text::texts(r@)[0] == r@[0]@);
    r
}

/// Cuts the argument into its parts, and finds the first that is an option
/// where the argument may start with a word.
pub fn option_components<'a>(param: &'a str) -> (r: (Vec<&'a str>, usize))
    ensures
        r.0@.len() >= 1,
        r.0@[0]@ == head(param@),
        r.1 <= 1,
        text::texts(r.0@).skip(r.1 as int) == option_parts(param@),
{
    let parts = components(param);
    let from: usize = match text::split_pair(parts[0], '=') {
        Some(_) => 0,
        None => 1,
    };
    assert(text::texts(parts@).skip(0) =~= text::texts(parts@));
    (parts, from)
}

/// The first part of an argument.
pub fn first(param: &str) -> (r: &str)
    ensures
        r@ == head(param@),
{
    let parts = components(param);
    parts[0]
}

/// The kind and the value of the option `opt`.
pub fn read_option<'a>(opt: &'a str, form: &str) -> (r: Result<(&'a str, &'a str), Error>)
    ensures
        match r {
            Ok((kind, value)) => kind_value(opt@, form@) == Ok::<_, Refusal>((kind@, value@)),
            Err(e) => kind_value(opt@, form@) == Err::<(Seq<char>, Seq<char>), _>(e@),
        },
{
    match text::split_pair(opt, '=') {
        Some((kind, value)) => Ok((kind, value)),
        None => Err(invalid(opt, form)),
    }
}

/// The label that `value` writes in hexadecimal.
pub fn read_label(value: &str, words: Words) -> (r: Result<u32, Error>)
    ensures
        agrees(r, label(value@, words)),
{
    match number::parse_u32(value, 16) {
        None => Err(invalid(value, words.number)),
        Some(v) => {
            if v == 0 {
                Err(invalid(value, words.zero))
            } else {
                Ok(v)
            }
        },
    }
}

/// Reads the parts from index `from` on as options of a device that takes only
/// a label.
fn read_labels(parts: &Vec<&str>, from: usize, words: Words) -> (r: Result<u32, Error>)
    requires
        from <= parts@.len(),
    ensures
        agrees(
            r,
            fold(0u32, text::texts(parts@).skip(from as int), label_option(words)),
        ),
{
    let ghost opts = text::texts(parts@).skip(from as int);
    let ghost apply = label_option(words);
    let n: usize = parts.len();
    let mut label: u32 = 0;
    let mut i: usize = from;
    assert(opts.take(0) =~= Seq::empty());
    while i < n
        invariant
            from <= i <= n,
            n == parts@.len(),
            opts == text::texts(parts@).skip(from as int),
            apply == label_option(words),
            fold(0u32, opts.take(i - from), apply) == Ok::<_, Refusal>(label),
        decreases n - i,
    {
        let opt = parts[i];
        proof {
            assert(text::texts(parts@)[i as int] == opt@);
            assert(opts.take(i - from + 1).drop_last() =~= opts.take(i - from));
            assert(opts.take(i - from + 1).last() == opt@);
            if fold(0u32, opts.take(i - from + 1), apply) is Err {
                lemma_first_refusal_stands(0u32, opts, apply, i - from + 1);
            }
        }
        let (kind, value) = match read_option(opt, words.form) {
            Ok(kv) => kv,
            Err(e) => {
                return Err(e);
            },
        };
        if text::same(kind, "label") {
            label = match read_label(value, words) {
                Ok(v) => v,
                Err(e) => {
                    return Err(e);
                },
            };
        } else {
            return Err(invalid(kind, words.unknown));
        }
        i += 1;
    }
    assert(opts.take(n - from) =~= opts);
    Ok(label)
}

/// Reads the options of a device that takes only a label.
pub fn read_only_label(param: &str, words: Words) -> (r: Result<u32, Error>)
    ensures
        agrees(r, only_label(param@, words)),
{
    let parts = components(param);
    read_labels(&parts, 1, words)
}

/// Reads the options, which may follow a word, of a device that takes only a
/// label.
pub fn read_given_label(param: &str, words: Words) -> (r: Result<u32, Error>)
    ensures
        agrees(r, given_label(param@, words)),
{
    let (parts, from) = option_components(param);
    read_labels(&parts, from, words)
}

} // verus!
