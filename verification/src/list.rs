//! Parsing of a header value into typed items, all or nothing.

use crate::normalize::{normalize, normalized, trim, trimmed};
use crate::tokenizer::{tokens, CommaSeparatedIterator};
use vstd::prelude::*;

verus! {

/// Why a header value gave no items.
#[derive(Debug)]
pub enum ListError<E> {
    /// An element had no text left after normalisation.
    EmptyToken,
    /// The parser refused the text of an element.
    Invalid(E),
}

/// Whether `parse`, called on the text `text`, may return `out`.
pub open spec fn parses<T, E, F: Fn(&str) -> Result<T, E>>(
    parse: F,
    text: Seq<char>,
    out: Result<T, E>,
) -> bool {
    exists|t: &str| t@ == text && call_ensures(parse, (t,), out)
}

/// Whether the header value `value` may give the item `item`: it has text left
/// after normalisation, and `parse` may return `item` for that text.
pub open spec fn accepted<T, E, F: Fn(&str) -> Result<T, E>>(
    parse: F,
    value: Seq<char>,
    item: T,
) -> bool {
    normalized(value) is Some && parses(parse, normalized(value)->0, Ok::<T, E>(item))
}

/// Whether the header value `value` may give some item.
pub open spec fn accepts<T, E, F: Fn(&str) -> Result<T, E>>(parse: F, value: Seq<char>) -> bool {
    exists|item: T| accepted(parse, value, item)
}

/// Whether the header value `value` may fail with `err`: as empty where it has
/// no text left after normalisation, else with what `parse` may return for its
/// text.
pub open spec fn rejected<T, E, F: Fn(&str) -> Result<T, E>>(
    parse: F,
    value: Seq<char>,
    err: ListError<E>,
) -> bool {
    match err {
        ListError::EmptyToken => normalized(value) is None,
        ListError::Invalid(e) => normalized(value) is Some && parses(
            parse,
            normalized(value)->0,
            Err::<T, E>(e),
        ),
    }
}

/// Whether the list `value` may come out as `out`: as one item for each of its
/// elements, in order, or as the failure of the first element that fails,
/// every element before it having given an item.
pub open spec fn list_outcome<T, E, F: Fn(&str) -> Result<T, E>>(
    parse: F,
    value: Seq<char>,
    out: Result<Seq<T>, ListError<E>>,
) -> bool {
    let elements = tokens(value);
    match out {
        Ok(items) => {
            &&& items.len() == elements.len()
            &&& forall|k: int|
                0 <= k < elements.len() ==> accepted(parse, trimmed(elements[k]), #[trigger] items[k])
        },
        Err(err) => exists|k: int|
            {
                &&& 0 <= k < elements.len()
                &&& #[trigger] rejected::<T, E, F>(parse, trimmed(elements[k]), err)
                &&& forall|j: int|
                    0 <= j < k ==> #[trigger] accepts::<T, E, F>(parse, trimmed(elements[j]))
            },
    }
}

/// Parses a single header value: takes quoting and brackets off it and hands
/// the text to `parse`.
pub fn parse_value<T, E, F: Fn(&str) -> Result<T, E>>(value: &str, parse: &F) -> (r: Result<
    T,
    ListError<E>,
>)
    requires
        forall|t: &str| call_requires(*parse, (t,)),
    ensures
        match r {
            Ok(item) => accepted(*parse, value@, item),
            Err(err) => rejected::<T, E, F>(*parse, value@, err),
        },
{
    match normalize(value) {
        None => Err(ListError::EmptyToken),
        Some(text) => {
            let out = parse(text.as_str());
            assert(parses(*parse, text@, out));
            match out {
                Ok(item) => Ok(item),
                Err(e) => Err(ListError::Invalid(e)),
            }
        },
    }
}

/// The items of a comma-separated header value.
pub struct CommaSeparated<T>(pub Vec<T>);

impl<T> CommaSeparated<T> {
    /// The items, in the order of the header value.
    pub fn into_inner(self) -> (r: Vec<T>)
        ensures
            r == self.0,
    {
        self.0
    }

    /// Parses every element of `s` with `parse`, after trimming and
    /// normalising it. The first element that fails makes the whole list fail.
    pub fn from_str<E, F: Fn(&str) -> Result<T, E>>(s: &str, parse: &F) -> (r: Result<
        Self,
        ListError<E>,
    >)
        requires
            forall|t: &str| call_requires(*parse, (t,)),
        ensures
            list_outcome(
                *parse,
                s@,
                match r {
                    Ok(list) => Ok(list.0@),
                    Err(err) => Err(err),
                },
            ),
    {
        let elements = CommaSeparatedIterator::new(s).collect();
        let mut items: Vec<T> = Vec::new();
        let mut i: usize = 0;
        while i < elements.len()
            invariant
                i <= elements@.len(),
                elements@.len() == tokens(s@).len(),
                forall|k: int| 0 <= k < elements@.len() ==> (#[trigger] elements@[k])@ == tokens(s@)[k],
                forall|t: &str| call_requires(*parse, (t,)),
                items@.len() == i,
                forall|k: int|
                    0 <= k < i ==> accepted(*parse, trimmed(tokens(s@)[k]), #[trigger] items@[k]),
            decreases elements@.len() - i,
        {
            assert(elements@[i as int]@ == tokens(s@)[i as int]);
            match parse_value(trim(elements[i]), parse) {
                Ok(item) => {
                    items.push(item);
                },
                Err(err) => {
                    assert forall|j: int| 0 <= j < i implies #[trigger] accepts::<T, E, F>(
                        *parse,
                        trimmed(tokens(s@)[j]),
                    ) by {
                        assert(accepted(*parse, trimmed(tokens(s@)[j]), items@[j]));
                    }
                    assert(rejected::<T, E, F>(*parse, trimmed(tokens(s@)[i as int]), err));
                    return Err(err);
                },
            }
            i += 1;
        }
        Ok(CommaSeparated(items))
    }
}

} // verus!
