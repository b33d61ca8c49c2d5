use vstd::prelude::*;

verus! {

/// Whether `n` is divisible by two.
pub fn is_even(n: i32) -> (r: bool)
    ensures
        r == (n as int % 2 == 0),
{
    n % 2 == 0
}

/// The larger of `a` and `b`.
pub fn max(a: i32, b: i32) -> (r: i32)
    ensures
        r >= a && r >= b,
        r == a || r == b,
{
    if a > b {
        a
    } else {
        b
    }
}

/// The text that `describe_number` gives for `n`.
pub open spec fn number_description(n: int) -> Seq<char> {
    if n < 0 {
        "negative"@
    } else if n == 0 {
        "zero"@
    } else if n <= 10 {
        "small positive"@
    } else {
        "large positive"@
    }
}

/// Sorts `n` into negative, zero, small positive (at most ten) or large positive.
pub fn describe_number(n: i32) -> (r: &'static str)
    ensures
        r@ == number_description(n as int),
{
    if n < 0 {
        "negative"
    } else if n == 0 {
        "zero"
    } else if n <= 10 {
        "small positive"
    } else {
        "large positive"
    }
}

/// The text that `grade_to_description` gives for `grade`.
pub open spec fn grade_description(grade: char) -> Seq<char> {
    if grade == 'A' {
        "Excellent"@
    } else if grade == 'B' {
        "Good"@
    } else if grade == 'C' {
        "Average"@
    } else if grade == 'D' {
        "Below Average"@
    } else if grade == 'F' {
        "Failing"@
    } else {
        "Invalid grade"@
    }
}

/// Names a letter grade; any letter other than A, B, C, D or F is invalid.
pub fn grade_to_description(grade: char) -> (r: &'static str)
    ensures
        r@ == grade_description(grade),
{
    match grade {
        'A' => "Excellent",
        'B' => "Good",
        'C' => "Average",
        'D' => "Below Average",
        'F' => "Failing",
        _ => "Invalid grade",
    }
}

/// The first even number of `numbers`, if there is one.
pub fn find_even(numbers: &[i32]) -> (r: Option<i32>)
    ensures
        match r {
            Some(x) => exists|i: int|
                0 <= i < numbers@.len() && numbers@[i] == x && x as int % 2 == 0 && (forall|
                    j: int,
                | 0 <= j < i ==> numbers@[j] as int % 2 != 0),
            None => forall|i: int| 0 <= i < numbers@.len() ==> numbers@[i] as int % 2 != 0,
        },
{
    let mut i: usize = 0;
    while i < numbers.len()
        invariant
            i <= numbers@.len(),
            forall|j: int| 0 <= j < i ==> numbers@[j] as int % 2 != 0,
        decreases numbers@.len() - i,
    {
        if numbers[i] % 2 == 0 {
            return Some(numbers[i]);
        }
        i = i + 1;
    }
    None
}

} // verus!
