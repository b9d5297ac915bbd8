//! The coordinates that the servers stream to a client.
use vstd::prelude::*;
use vstd::string::StringExecFns;

use crate::numbers::append_decimal;

verus! {

/// How many points a row or a column of the grid holds.
pub const POINTS_PER_AXIS: u64 = 50;

/// The distance of two neighbouring points, and of the first point from the origin.
pub const SPACING: u64 = 10;

/// A point as text: its two numbers with a comma between them.
pub open spec fn point_text(x: nat, y: nat) -> Seq<char> {
    crate::numbers::decimal(x) + seq![','] + crate::numbers::decimal(y)
}

/// The `k`th message: the points row by row, each row from left to right.
pub open spec fn coordinate(k: int) -> Seq<char> {
    point_text((10 * (k % 50) + 10) as nat, (10 * (k / 50) + 10) as nat)
}

/// All messages, in the order in which they are streamed.
pub open spec fn coordinates() -> Seq<Seq<char>> {
    Seq::new(2500, |k: int| coordinate(k))
}

/// The texts that a vector of strings holds.
pub open spec fn message_texts(messages: Seq<String>) -> Seq<Seq<char>> {
    Seq::new(messages.len(), |i: int| messages[i]@)
}

/// One message of the stream.
pub fn point_message(x: u64, y: u64) -> (message: String)
    ensures
        message@ == point_text(x as nat, y as nat),
{
    let mut message = String::new();
    append_decimal(&mut message, x);
    message.append(",");
    append_decimal(&mut message, y);
    proof {
        reveal_strlit(",");
        assert(","@ == seq![',']);
        assert(message@ == point_text(x as nat, y as nat));
    }
    message
}

/// The messages that visualize one run: a grid of 2500 points from `10,10` to `500,500`.
pub fn coordinate_messages() -> (messages: Vec<String>)
    ensures
        message_texts(messages@) == coordinates(),
{
    let mut messages: Vec<String> = Vec::new();
    let mut row: u64 = 0;
    while row < POINTS_PER_AXIS
        invariant
            row <= 50,
            message_texts(messages@) == coordinates().take(50 * row),
        decreases 50 - row,
    {
        let mut column: u64 = 0;
        while column < POINTS_PER_AXIS
            invariant
                row < 50,
                column <= 50,
                message_texts(messages@) == coordinates().take(50 * row + column),
            decreases 50 - column,
        {
            let ghost k = 50 * row + column;
            let ghost before = message_texts(messages@);
            messages.push(point_message(SPACING * (column + 1), SPACING * (row + 1)));
            proof {
                assert(k % 50 == column && k / 50 == row);
                assert(messages@.last()@ == coordinates()[k]);
                assert(message_texts(messages@) == before.push(coordinates()[k]));
                assert(coordinates().take(k + 1) == coordinates().take(k).push(coordinates()[k]));
            }
            column = column + 1;
        }
        row = row + 1;
    }
    assert(coordinates().take(2500) == coordinates());
    messages
}

proof fn lemma_point_text_injective(x: nat, y: nat, v: nat, w: nat)
    requires
        point_text(x, y) == point_text(v, w),
    ensures
        x == v,
        y == w,
{
    crate::numbers::lemma_decimal(x);
    crate::numbers::lemma_decimal(y);
    crate::numbers::lemma_decimal(v);
    crate::numbers::lemma_decimal(w);
    let a = seq![crate::numbers::decimal(x), crate::numbers::decimal(y)];
    let b = seq![crate::numbers::decimal(v), crate::numbers::decimal(w)];
    reveal_with_fuel(crate::text::join, 2);
    assert(a.skip(1) =~= seq![a[1]]);
    assert(b.skip(1) =~= seq![b[1]]);
    assert(crate::text::join(a, ',') == point_text(x, y));
    assert(crate::text::join(b, ',') == point_text(v, w));
    assert(!crate::numbers::is_digit(','));
    crate::text::lemma_split_of_join(a, ',');
    crate::text::lemma_split_of_join(b, ',');
    assert(a[0] == b[0] && a[1] == b[1]);
}

/// 2500 coordinates are streamed, and no two of them are the same.
pub proof fn lemma_coordinates_distinct(i: int, j: int)
    requires
        0 <= i < j < coordinates().len(),
    ensures
        coordinates().len() == 2500,
        coordinates()[i] != coordinates()[j],
{
    if coordinates()[i] == coordinates()[j] {
        lemma_point_text_injective(
            (10 * (i % 50) + 10) as nat,
            (10 * (i / 50) + 10) as nat,
            (10 * (j % 50) + 10) as nat,
            (10 * (j / 50) + 10) as nat,
        );
    }
}

/// Every point whose two numbers are multiples of ten from 10 to 500 is
/// streamed, and its place in the stream follows from its numbers.
pub proof fn lemma_coordinates_complete(x: int, y: int)
    requires
        10 <= x <= 500,
        10 <= y <= 500,
        x % 10 == 0,
        y % 10 == 0,
    ensures
        0 <= 5 * (y - 10) + (x - 10) / 10 < coordinates().len(),
        coordinates()[5 * (y - 10) + (x - 10) / 10] == point_text(x as nat, y as nat),
{
    let row = (y - 10) / 10;
    let column = (x - 10) / 10;
    let k = 50 * row + column;
    assert(y == 10 * row + 10 && x == 10 * column + 10);
    assert(k % 50 == column && k / 50 == row);
}

/// The message of a point is its two numbers in decimal with a comma between them.
pub proof fn lemma_point_message(x: u64, y: u64, message: String)
    requires
        call_ensures(point_message, (x, y), message),
    ensures
        message@ == crate::numbers::decimal(x as nat) + seq![','] + crate::numbers::decimal(
            y as nat,
        ),
        crate::text::split(message@, ',') == seq![
            crate::numbers::decimal(x as nat),
            crate::numbers::decimal(y as nat),
        ],
{
    let a = crate::numbers::decimal(x as nat);
    let b = crate::numbers::decimal(y as nat);
    crate::numbers::lemma_decimal(x as nat);
    crate::numbers::lemma_decimal(y as nat);
    crate::text::lemma_split_of_one(a, ',');
    crate::text::lemma_split_of_one(b, ',');
    crate::text::lemma_split_of_two(a, ',', b);
    assert(seq![a] + seq![b] == seq![a, b]);
}

/// The messages are the points of the grid, row by row: the numbers of each go
/// from 10 to 500 in steps of ten, the first of them faster.
pub proof fn lemma_messages_are_the_grid(messages: Vec<String>, row: int, column: int)
    requires
        call_ensures(coordinate_messages, (), messages),
        0 <= row < 50,
        0 <= column < 50,
    ensures
        messages@.len() == 2500,
        messages@[50 * row + column]@ == crate::numbers::decimal((10 * column + 10) as nat)
            + seq![','] + crate::numbers::decimal((10 * row + 10) as nat),
{
    let k = 50 * row + column;
    assert(message_texts(messages@).len() == messages@.len());
    assert(message_texts(messages@)[k] == messages@[k]@);
    assert(k % 50 == column && k / 50 == row);
}

} // verus!
