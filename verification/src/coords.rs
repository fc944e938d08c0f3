//! Coordinate lists: from the text of a position list to a ring of planar positions.

use crate::error::ExtractError;
use crate::number::{is_float_text, Decimal};
use crate::text::{chars_of, is_whitespace, is_whitespace_char, words};
use vstd::prelude::*;

verus! {

/// A planar position: `x` is the longitude, `y` the latitude.
#[derive(Debug, PartialEq, Eq)]
pub struct Position {
    pub x: Decimal,
    pub y: Decimal,
}

/// A position as contracts see it: the texts of its two numbers.
pub struct PositionView {
    pub x: Seq<char>,
    pub y: Seq<char>,
}

impl View for Position {
    type V = PositionView;

    open spec fn view(&self) -> PositionView {
        PositionView { x: self.x@, y: self.y@ }
    }
}

impl DeepView for Position {
    type V = PositionView;

    open spec fn deep_view(&self) -> PositionView {
        self@
    }
}

/// The ring that a list of numbers denotes. The numbers come in triples of latitude,
/// longitude and elevation; each gives the position of its longitude and latitude.
/// Two numbers after the last triple give a position as well.
pub open spec fn ring_of(numbers: Seq<Seq<char>>) -> Seq<PositionView> {
    Seq::new(
        ((numbers.len() + 1) / 3) as nat,
        |k: int| PositionView { x: numbers[3 * k + 1], y: numbers[3 * k] },
    )
}

/// What a position list denotes: the ring of its numbers, where each word between
/// whitespace is a number and none is left alone after the last triple.
pub open spec fn coords_of(text: Seq<char>) -> Result<Seq<PositionView>, ExtractError> {
    let numbers = words(text);
    if exists|i: int| 0 <= i < numbers.len() && !is_float_text(#[trigger] numbers[i]) {
        Err(ExtractError::MalformedNumber)
    } else if numbers.len() % 3 == 1 {
        Err(ExtractError::IncompleteCoordinate)
    } else {
        Ok(ring_of(numbers))
    }
}

/// What is known of a ring while its numbers are read: `done` are the numbers read
/// so far, `ring` the positions they gave, `latitude` the first number of a triple
/// whose second is still to come.
spec fn reading(done: Seq<Seq<char>>, ring: Seq<PositionView>, latitude: Option<Decimal>) -> bool {
    &&& forall|i: int| 0 <= i < done.len() ==> is_float_text(#[trigger] done[i])
    &&& ring == ring_of(done)
    &&& done.len() % 3 == 1 <==> latitude is Some
    &&& latitude is Some ==> latitude->0@ == done.last()
}

/// Takes the number `chars[from..to]` into the ring; `false` where it is no number.
fn take_number(
    chars: &Vec<char>,
    from: usize,
    to: usize,
    count: usize,
    latitude: &mut Option<Decimal>,
    ring: &mut Vec<Position>,
    Ghost(done): Ghost<Seq<Seq<char>>>,
) -> (ok: bool)
    requires
        from <= to <= chars.len(),
        count == done.len() % 3,
        reading(done, old(ring).deep_view(), *old(latitude)),
    ensures
        ok == is_float_text(chars@.subrange(from as int, to as int)),
        ok ==> reading(
            done.push(chars@.subrange(from as int, to as int)),
            final(ring).deep_view(),
            *final(latitude),
        ),
{
    let ghost number = chars@.subrange(from as int, to as int);
    let ghost next = done.push(number);
    match Decimal::from_chars(chars, from, to) {
        None => false,
        Some(d) => {
            if count == 0 {
                *latitude = Some(d);
                assert(ring.deep_view() =~= ring_of(next));
            } else if count == 1 {
                let y = latitude.take().unwrap();
                let ghost before = ring.deep_view();
                ring.push(Position { x: d, y });
                assert(ring.deep_view() =~= ring_of(next)) by {
                    assert forall|k: int|
                        0 <= k < ring.deep_view().len() implies ring.deep_view()[k] == ring_of(
                        next,
                    )[k] by {
                        if k < before.len() {
                            assert(ring.deep_view()[k] == before[k]);
                        }
                    }
                }
            } else {
                assert(ring.deep_view() =~= ring_of(next));
            }
            true
        },
    }
}

/// The ring that the position list `poslist` denotes: its numbers in triples, each
/// triple giving the position of its second and first number.
pub fn poslist_to_coords(poslist: &str) -> (ring: Result<Vec<Position>, ExtractError>)
    ensures
        match ring {
            Ok(r) => coords_of(poslist@) == Ok::<Seq<PositionView>, ExtractError>(r.deep_view()),
            Err(e) => coords_of(poslist@) == Err::<Seq<PositionView>, ExtractError>(e),
        },
{
    let chars = chars_of(poslist);
    let n = chars.len();
    let mut ring: Vec<Position> = Vec::new();
    let mut latitude: Option<Decimal> = None;
    let mut count: usize = 0;
    let mut malformed = false;
    let mut in_word = false;
    let mut start: usize = 0;
    let mut i: usize = 0;
    let ghost mut done: Seq<Seq<char>> = Seq::empty();
    assert(ring.deep_view() =~= ring_of(done));
    while i < n
        invariant
            start <= i <= n == chars.len(),
            chars@ == poslist@,
            in_word <==> i > 0 && !is_whitespace(chars@[i - 1]),
            in_word ==> start < i,
            words(chars@.take(i as int)) == if in_word {
                done.push(chars@.subrange(start as int, i as int))
            } else {
                done
            },
            malformed <==> exists|k: int| 0 <= k < done.len() && !is_float_text(#[trigger] done[k]),
            !malformed ==> count == done.len() % 3 && reading(done, ring.deep_view(), latitude),
        decreases n - i,
    {
        let ghost prefix = chars@.take(i as int + 1);
        assert(prefix.drop_last() == chars@.take(i as int));
        if is_whitespace_char(chars[i]) {
            if in_word {
                let ghost word = chars@.subrange(start as int, i as int);
                if !malformed {
                    let ok = take_number(
                        &chars,
                        start,
                        i,
                        count,
                        &mut latitude,
                        &mut ring,
                        Ghost(done),
                    );
                    if ok {
                        count = if count == 2 {
                            0
                        } else {
                            count + 1
                        };
                    } else {
                        malformed = true;
                    }
                }
                proof {
                    lemma_pushed_number(done, word);
                    done = done.push(word);
                }
                in_word = false;
            }
        } else {
            if in_word {
                assert(chars@.subrange(start as int, i as int + 1) == chars@.subrange(
                    start as int,
                    i as int,
                ).push(chars@[i as int]));
            } else {
                start = i;
                in_word = true;
                assert(chars@.subrange(i as int, i as int + 1) == seq![chars@[i as int]]);
            }
        }
        i += 1;
    }
    assert(chars@.take(n as int) == chars@);
    if in_word {
        let ghost word = chars@.subrange(start as int, n as int);
        if !malformed {
            let ok = take_number(&chars, start, n, count, &mut latitude, &mut ring, Ghost(done));
            if ok {
                count = if count == 2 {
                    0
                } else {
                    count + 1
                };
            } else {
                malformed = true;
            }
        }
        proof {
            lemma_pushed_number(done, word);
            done = done.push(word);
        }
    }
    if malformed {
        Err(ExtractError::MalformedNumber)
    } else if count == 1 {
        Err(ExtractError::IncompleteCoordinate)
    } else {
        Ok(ring)
    }
}

/// A list with one more number has a number that is none exactly where the list had
/// one or the new number is none.
proof fn lemma_pushed_number(done: Seq<Seq<char>>, word: Seq<char>)
    ensures
        (exists|k: int|
            0 <= k < done.push(word).len() && !is_float_text(#[trigger] done.push(word)[k])) <==> (
        exists|k: int| 0 <= k < done.len() && !is_float_text(#[trigger] done[k])) || !is_float_text(
            word,
        ),
{
    let next = done.push(word);
    if exists|k: int| 0 <= k < next.len() && !is_float_text(#[trigger] next[k]) {
        let k = choose|k: int| 0 <= k < next.len() && !is_float_text(#[trigger] next[k]);
        if k < done.len() {
            assert(!is_float_text(done[k]));
        }
    }
    if exists|k: int| 0 <= k < done.len() && !is_float_text(#[trigger] done[k]) {
        let k = choose|k: int| 0 <= k < done.len() && !is_float_text(#[trigger] done[k]);
        assert(!is_float_text(next[k]));
    }
    if !is_float_text(word) {
        assert(!is_float_text(next[done.len() as int]));
    }
}

} // verus!
