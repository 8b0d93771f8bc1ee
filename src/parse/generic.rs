//! Parsers built from other parsers: lists and parenthesized items.
use vstd::prelude::*;
use super::{Parse, ParseError};
use crate::text::{has_prefix, lemma_trim_start_len, skip_chars, starts_with, trim_start, trim_start_of};

verus! {

/// A comma-separated list of parsable items.
///
/// Context-free grammar:
///
/// ```txt
/// List<T> = T
///         | T ,
///         | T , List<T>
/// ```
#[derive(Clone, Debug, PartialEq, Eq)]
pub struct List<T>(pub Vec<T>);

impl<T: View> View for List<T> {
    type V = Seq<T::V>;

    open spec fn view(&self) -> Seq<T::V> {
        self.0@.map_values(|item: T| item@)
    }
}

/// What parsing `input` as a list gives: the views of the items and what is
/// left over.
///
/// An item is read, then white space. A comma (with the white space after
/// it) continues the list; when nothing follows the comma the list ends
/// there, with nothing left over. Without a comma the list ends after the
/// item, and what followed the item is left over. A failing item fails the
/// list, except that `ParseError::Empty` after a comma (only white space is
/// left) ends the list, with nothing left over.
///
/// (A comma is consumed before each further item; the length test only lets
/// Verus see that the recursion ends.)
pub open spec fn list_outcome<'a, T: Parse<'a>>(input: Seq<char>) -> Result<(Seq<T::V>, Seq<char>), ParseError>
    decreases input.len(),
{
    match T::outcome(input) {
        Ok((item, rest)) => {
            let after = trim_start_of(rest);
            if has_prefix(after, ","@) {
                let next = trim_start_of(after.skip(1));
                if next.len() == 0 || next.len() >= input.len() {
                    Ok((seq![item], next))
                } else {
                    match list_outcome::<T>(next) {
                        Ok((items, left)) => Ok((seq![item] + items, left)),
                        Err(ParseError::Empty) => Ok((seq![item], Seq::empty())),
                        Err(e) => Err(e),
                    }
                }
            } else {
                Ok((seq![item], rest))
            }
        },
        Err(e) => Err(e),
    }
}

/// What is owed once the items `done` are read and `s` is next: the list's
/// outcome from there on, after those items.
pub open spec fn list_continue<'a, T: Parse<'a>>(done: Seq<T::V>, s: Seq<char>) -> Result<(Seq<T::V>, Seq<char>), ParseError> {
    match list_outcome::<T>(s) {
        Ok((items, left)) => Ok((done + items, left)),
        Err(ParseError::Empty) => if done.len() > 0 {
            Ok((done, Seq::empty()))
        } else {
            Err(ParseError::Empty)
        },
        Err(e) => Err(e),
    }
}

/// A list never leaves more than it was given, and leaves less when its
/// items consume.
pub proof fn lemma_list_rest<'a, T: Parse<'a>>(input: Seq<char>)
    requires
        list_outcome::<T>(input) is Ok,
    ensures
        list_outcome::<T>(input)->Ok_0.1.len() <= input.len(),
        T::consumes() ==> list_outcome::<T>(input)->Ok_0.1.len() < input.len(),
    decreases input.len(),
{
    reveal_strlit(",");
    T::lemma_rest_len(input);
    let rest = T::outcome(input)->Ok_0.1;
    lemma_trim_start_len(rest);
    let after = trim_start_of(rest);
    lemma_trim_start_len(after.skip(1));
    let next = trim_start_of(after.skip(1));
    if has_prefix(after, ","@) && next.len() > 0 && next.len() < input.len() {
        if list_outcome::<T>(next) is Ok {
            lemma_list_rest::<T>(next);
        }
    }
}

impl<'a, T: Parse<'a>> Parse<'a> for List<T> {
    open spec fn admits(input: Seq<char>) -> bool {
        forall|s: Seq<char>| #[trigger] T::admits(s)
    }

    open spec fn outcome(input: Seq<char>) -> Result<(Seq<T::V>, Seq<char>), ParseError> {
        list_outcome::<T>(input)
    }

    open spec fn consumes() -> bool {
        T::consumes()
    }

    proof fn lemma_rest_len(input: Seq<char>) {
        lemma_list_rest::<T>(input);
    }

    fn parse(input: &'a str) -> (r: Result<(List<T>, &'a str), ParseError>) {
        let mut s = input;
        let mut list = Vec::<T>::new();
        assert(list@.map_values(|item: T| item@) + Seq::<T::V>::empty() =~= Seq::<T::V>::empty());
        loop
            invariant
                forall|x: Seq<char>| #[trigger] T::admits(x),
                list_outcome::<T>(input@) == list_continue::<T>(list@.map_values(|item: T| item@), s@),
            decreases s@.len(),
        {
            proof {
                reveal_strlit(",");
            }
            let ghost done = list@.map_values(|item: T| item@);
            let (item, rest) = match T::parse(s) {
                Ok(parsed) => parsed,
                Err(error) => {
                    if matches!(error, ParseError::Empty) && list.len() > 0 {
                        proof {
                            reveal_strlit("");
                            assert(""@ =~= Seq::<char>::empty());
                        }
                        return Ok((List(list), ""));
                    }
                    return Err(error);
                },
            };
            proof {
                T::lemma_rest_len(s@);
                lemma_trim_start_len(rest@);
                lemma_trim_start_len(trim_start_of(rest@).skip(1));
            }
            let ghost item_view = item@;
            list.push(item);
            assert(list@.map_values(|item: T| item@) =~= done.push(item_view));
            assert(done.push(item_view) =~= done + seq![item_view]);
            let after = trim_start(rest);
            if !starts_with(after, ",") {
                return Ok((List(list), rest));
            }
            let next = trim_start(skip_chars(after, 1));
            if next.unicode_len() == 0 {
                return Ok((List(list), next));
            }
            proof {
                if let Ok((items, left)) = list_outcome::<T>(next@) {
                    assert(done + (seq![item_view] + items) =~= done + seq![item_view] + items);
                }
            }
            s = next;
        }
    }
}

/// An item surrounded by parentheses.
///
/// Context-free grammar:
///
/// ```txt
/// Paren<T> = ( T )
/// ```
#[derive(Clone, Debug, PartialEq, Eq)]
pub struct Paren<T>(pub T);

impl<T: View> View for Paren<T> {
    type V = T::V;

    open spec fn view(&self) -> T::V {
        self.0@
    }
}

/// What parsing `input` as a parenthesized item gives: an opening
/// parenthesis, white space, the inner item, white space and a closing
/// parenthesis. A missing parenthesis is `ParseError::Paren`, and a failure
/// of the inner item is passed on.
pub open spec fn paren_outcome<'a, T: Parse<'a>>(input: Seq<char>) -> Result<(T::V, Seq<char>), ParseError> {
    if !has_prefix(input, "("@) {
        Err(ParseError::Paren)
    } else {
        match T::outcome(trim_start_of(input.skip(1))) {
            Ok((value, rest)) => {
                let after = trim_start_of(rest);
                if has_prefix(after, ")"@) {
                    Ok((value, after.skip(1)))
                } else {
                    Err(ParseError::Paren)
                }
            },
            Err(e) => Err(e),
        }
    }
}

impl<'a, T: Parse<'a>> Parse<'a> for Paren<T> {
    open spec fn admits(input: Seq<char>) -> bool {
        has_prefix(input, "("@) ==> T::admits(trim_start_of(input.skip(1)))
    }

    open spec fn outcome(input: Seq<char>) -> Result<(T::V, Seq<char>), ParseError> {
        paren_outcome::<T>(input)
    }

    open spec fn consumes() -> bool {
        true
    }

    proof fn lemma_rest_len(input: Seq<char>) {
        reveal_strlit("(");
        reveal_strlit(")");
        let inner = trim_start_of(input.skip(1));
        lemma_trim_start_len(input.skip(1));
        T::lemma_rest_len(inner);
        lemma_trim_start_len(T::outcome(inner)->Ok_0.1);
    }

    fn parse(input: &'a str) -> (r: Result<(Paren<T>, &'a str), ParseError>) {
        proof {
            reveal_strlit("(");
            reveal_strlit(")");
        }
        // Open parenthesis
        if !starts_with(input, "(") {
            return Err(ParseError::Paren);
        }
        let s = trim_start(skip_chars(input, 1));

        // Inner item
        let (inner, rest) = match T::parse(s) {
            Ok(parsed) => parsed,
            Err(error) => return Err(error),
        };
        let s = trim_start(rest);

        // Close parenthesis
        if !starts_with(s, ")") {
            return Err(ParseError::Paren);
        }
        Ok((Paren(inner), skip_chars(s, 1)))
    }
}

} // verus!
