//! The decisions of the command line `image2txt WIDTH file ...`.
use vstd::prelude::*;

verus! {

/// Whether `c` is an ASCII decimal digit.
pub open spec fn is_digit(c: char) -> bool {
    '0' as u32 <= c as u32 && c as u32 <= '9' as u32
}

/// The value of a string of decimal digits, most significant first.
pub open spec fn digits_value(s: Seq<char>) -> nat
    decreases s.len(),
{
    if s.len() == 0 {
        0
    } else {
        digits_value(s.drop_last()) * 10 + (s.last() as u32 - '0' as u32) as nat
    }
}

/// The digits of a width argument: the text after an optional leading `+`.
pub open spec fn width_digits(s: Seq<char>) -> Seq<char> {
    if s.len() > 0 && s[0] == '+' {
        s.drop_first()
    } else {
        s
    }
}

/// Whether `s` spells a positive integer that fits in `usize`: an optional
/// `+`, then one or more decimal digits.
pub open spec fn valid_width(s: Seq<char>) -> bool {
    let d = width_digits(s);
    &&& d.len() > 0
    &&& forall|i: int| 0 <= i < d.len() ==> is_digit(#[trigger] d[i])
    &&& 0 < digits_value(d) <= usize::MAX
}

/// What a command line asks for.
#[derive(Debug, Clone, Copy, PartialEq, Eq, Structural)]
pub enum Invocation {
    /// Fewer than a width and one file: nothing is done and nothing is said.
    Quiet,
    /// The width is not a positive integer: the run stops before any file is read.
    BadWidth,
    /// Convert each file after the width, this many characters wide.
    Convert(usize),
}

/// Appending digits never lowers the value of a string of digits.
proof fn lemma_digits_value_grows(s: Seq<char>, j: int, k: int)
    requires
        0 <= j <= k <= s.len(),
        forall|i: int| 0 <= i < s.len() ==> is_digit(#[trigger] s[i]),
    ensures
        digits_value(s.take(j)) <= digits_value(s.take(k)),
    decreases k - j,
{
    if j < k {
        lemma_digits_value_grows(s, j, k - 1);
        assert(s.take(k).drop_last() =~= s.take(k - 1));
    }
}

/// The width that `arg` spells, when it spells a positive integer that fits in `usize`.
pub fn parse_width(arg: &str) -> (r: Option<usize>)
    ensures
        r is Some <==> valid_width(arg@),
        r matches Some(n) ==> n as nat == digits_value(width_digits(arg@)),
{
    let len = arg.unicode_len();
    let ghost d = width_digits(arg@);
    let start: usize = if len > 0 && arg.get_char(0) == '+' {
        1
    } else {
        0
    };
    assert(d =~= arg@.subrange(start as int, len as int));
    if start == len {
        return None;
    }
    let mut i: usize = start;
    while i < len
        invariant
            start <= i <= len,
            len == arg@.len(),
            d == arg@.subrange(start as int, len as int),
            d == width_digits(arg@),
            forall|k: int| 0 <= k < i - start ==> is_digit(#[trigger] d[k]),
        decreases len - i,
    {
        let c = arg.get_char(i);
        if !(('0' as u32) <= (c as u32) && (c as u32) <= ('9' as u32)) {
            assert(!is_digit(d[i - start]));
            return None;
        }
        i += 1;
    }
    let mut value: usize = 0;
    let mut i: usize = start;
    while i < len
        invariant
            start <= i <= len,
            len == arg@.len(),
            d == arg@.subrange(start as int, len as int),
            d == width_digits(arg@),
            forall|k: int| 0 <= k < d.len() ==> is_digit(#[trigger] d[k]),
            value as nat == digits_value(d.take(i - start)),
        decreases len - i,
    {
        let c = arg.get_char(i);
        assert(is_digit(d[i - start]));
        let digit = (c as u32 - '0' as u32) as usize;
        assert(d.take(i + 1 - start).drop_last() =~= d.take(i - start));
        if value > (usize::MAX - digit) / 10 {
            proof {
                lemma_digits_value_grows(d, i + 1 - start, d.len() as int);
                assert(d.take(d.len() as int) =~= d);
            }
            return None;
        }
        value = value * 10 + digit;
        i += 1;
    }
    assert(d.take(d.len() as int) =~= d);
    if value == 0 {
        return None;
    }
    Some(value)
}

/// What the arguments `args` (the program's name first) ask for.
pub fn invocation(args: &Vec<String>) -> (r: Invocation)
    ensures
        args@.len() < 3 ==> r == Invocation::Quiet,
        args@.len() >= 3 && !valid_width(args@[1]@) ==> r == Invocation::BadWidth,
        args@.len() >= 3 && valid_width(args@[1]@) ==> r == Invocation::Convert(
            digits_value(width_digits(args@[1]@)) as usize,
        ),
{
    if args.len() < 3 {
        return Invocation::Quiet;
    }
    match parse_width(args[1].as_str()) {
        Some(width) => Invocation::Convert(width),
        None => Invocation::BadWidth,
    }
}

/// The path of the text written for the image at `image_path`: the same path with `.txt` added.
pub fn output_path(image_path: &str) -> (r: String)
    ensures
        r@ == image_path@ + ".txt"@,
{
    let mut path = String::from_str(image_path);
    path.append(".txt");
    path
}

} // verus!
