//! The FizzBuzz game: which numbers are multiples of three, of five and of
//! both, and what is called out for each number.

use vstd::prelude::*;

verus! {

/// What is called out for a number.
#[derive(Debug, Clone, Copy, PartialEq, Eq)]
pub enum Call {
    /// For a multiple of fifteen.
    FizzBuzz,
    /// For a multiple of three that is not one of five.
    Fizz,
    /// For a multiple of five that is not one of three.
    Buzz,
    /// For any other number: the number itself.
    Number(i64),
}

/// What is called out for `num`.
pub open spec fn call_for(num: i64) -> Call {
    if num % 15 == 0 {
        Call::FizzBuzz
    } else if num % 3 == 0 {
        Call::Fizz
    } else if num % 5 == 0 {
        Call::Buzz
    } else {
        Call::Number(num)
    }
}

/// A number is a multiple of fifteen exactly when it is one of three and
/// one of five.
pub proof fn law_fifteen_is_three_and_five(num: i64)
    ensures
        num % 15 == 0 <==> num % 3 == 0 && num % 5 == 0,
{
}

/// Whether `num` is a multiple of three.
pub fn div_by_three(num: i64) -> (r: bool)
    ensures
        r == (num % 3 == 0),
{
    num % 3 == 0
}

/// Whether `num` is a multiple of five.
pub fn div_by_five(num: i64) -> (r: bool)
    ensures
        r == (num % 5 == 0),
{
    num % 5 == 0
}

/// Whether `num` is a multiple of fifteen.
pub fn div_by_fifteen(num: i64) -> (r: bool)
    ensures
        r == (num % 15 == 0),
{
    num % 15 == 0
}

/// What is called out for `num`.
pub fn call(num: i64) -> (said: Call)
    ensures
        said == call_for(num),
{
    if div_by_fifteen(num) {
        Call::FizzBuzz
    } else if div_by_three(num) {
        Call::Fizz
    } else if div_by_five(num) {
        Call::Buzz
    } else {
        Call::Number(num)
    }
}

} // verus!
