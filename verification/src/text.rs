//! Building text: decimal numbers, repeated characters and padding.
use vstd::prelude::*;
use vstd::string::StringExecFns;

verus! {

/// The character of the decimal digit `digit`.
pub open spec fn digit_char(digit: nat) -> char {
    if digit == 0 {
        '0'
    } else if digit == 1 {
        '1'
    } else if digit == 2 {
        '2'
    } else if digit == 3 {
        '3'
    } else if digit == 4 {
        '4'
    } else if digit == 5 {
        '5'
    } else if digit == 6 {
        '6'
    } else if digit == 7 {
        '7'
    } else if digit == 8 {
        '8'
    } else {
        '9'
    }
}

/// The decimal digits of `n`, most significant first, without leading zeros.
pub open spec fn decimal(n: nat) -> Seq<char>
    decreases n,
{
    if n < 10 {
        seq![digit_char(n)]
    } else {
        decimal(n / 10).push(digit_char(n % 10))
    }
}

/// `count` copies of `c`.
pub open spec fn repeated(c: char, count: nat) -> Seq<char> {
    Seq::new(count, |i: int| c)
}

/// `text` pushed to the right of a field of `width` characters: blanks are
/// put in front of a shorter text, a longer one is left as it is.
pub open spec fn right_aligned(text: Seq<char>, width: nat) -> Seq<char> {
    if text.len() < width {
        repeated(' ', (width - text.len()) as nat) + text
    } else {
        text
    }
}

/// The text of one decimal digit.
fn digit_text(digit: u8) -> (text: &'static str)
    requires
        digit < 10,
    ensures
        text@ == seq![digit_char(digit as nat)],
{
    proof {
        reveal_strlit("0");
        reveal_strlit("1");
        reveal_strlit("2");
        reveal_strlit("3");
        reveal_strlit("4");
        reveal_strlit("5");
        reveal_strlit("6");
        reveal_strlit("7");
        reveal_strlit("8");
        reveal_strlit("9");
    }
    let text = if digit == 0 {
        "0"
    } else if digit == 1 {
        "1"
    } else if digit == 2 {
        "2"
    } else if digit == 3 {
        "3"
    } else if digit == 4 {
        "4"
    } else if digit == 5 {
        "5"
    } else if digit == 6 {
        "6"
    } else if digit == 7 {
        "7"
    } else if digit == 8 {
        "8"
    } else {
        "9"
    };
    assert(text@ =~= seq![digit_char(digit as nat)]);
    text
}

/// Appends the decimal digits of `n` to `buffer`.
pub fn push_decimal(buffer: &mut String, n: u64)
    ensures
        final(buffer)@ == old(buffer)@ + decimal(n as nat),
    decreases n,
{
    if n < 10 {
        buffer.append(digit_text(n as u8));
    } else {
        push_decimal(buffer, n / 10);
        buffer.append(digit_text((n % 10) as u8));
        assert(old(buffer)@ + decimal((n / 10) as nat) + seq![digit_char((n % 10) as nat)]
            =~= old(buffer)@ + decimal(n as nat));
    }
}

/// The decimal text of `n`.
pub fn decimal_string(n: u64) -> (text: String)
    ensures
        text@ == decimal(n as nat),
{
    let mut text = String::new();
    push_decimal(&mut text, n);
    assert(Seq::<char>::empty() + decimal(n as nat) =~= decimal(n as nat));
    text
}

/// Appends `count` copies of the one-character text `piece` to `buffer`.
pub fn push_repeated(buffer: &mut String, piece: &str, count: u128)
    requires
        piece@.len() == 1,
    ensures
        final(buffer)@ == old(buffer)@ + repeated(piece@[0], count as nat),
{
    let mut done: u128 = 0;
    assert(buffer@ + repeated(piece@[0], 0) =~= buffer@);
    while done < count
        invariant
            done <= count,
            piece@.len() == 1,
            buffer@ == old(buffer)@ + repeated(piece@[0], done as nat),
        decreases count - done,
    {
        buffer.append(piece);
        done += 1;
        assert(old(buffer)@ + repeated(piece@[0], (done - 1) as nat) + piece@ =~= old(buffer)@
            + repeated(piece@[0], done as nat));
    }
}

} // verus!
