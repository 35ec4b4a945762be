//! Numbers as decimal numerals, right-aligned in a column of fixed width.

use vstd::prelude::*;

verus! {

/// The least width of a column that holds a count. A longer numeral widens
/// its column; it is never cut.
pub const COLUMN_WIDTH: usize = 7;

/// The digit that stands for `d`, for `d` below ten.
pub open spec fn digit_char(d: nat) -> char {
    if d == 0 {
        '0'
    } else if d == 1 {
        '1'
    } else if d == 2 {
        '2'
    } else if d == 3 {
        '3'
    } else if d == 4 {
        '4'
    } else if d == 5 {
        '5'
    } else if d == 6 {
        '6'
    } else if d == 7 {
        '7'
    } else if d == 8 {
        '8'
    } else {
        '9'
    }
}

/// The decimal numeral of `n`: its digits from the most significant to the
/// least, without a sign and without leading zeros; zero is `"0"`.
pub open spec fn decimal(n: nat) -> Seq<char>
    decreases n,
{
    if n < 10 {
        seq![digit_char(n)]
    } else {
        decimal(n / 10).push(digit_char(n % 10))
    }
}

/// `count` spaces.
pub open spec fn spaces(count: nat) -> Seq<char> {
    Seq::new(count, |i: int| ' ')
}

/// `text` with spaces in front of it up to `width` characters. A text that
/// is already that long or longer is left as it is.
pub open spec fn right_aligned(text: Seq<char>, width: nat) -> Seq<char> {
    if text.len() >= width {
        text
    } else {
        spaces((width - text.len()) as nat) + text
    }
}

/// The column of the count `n`: its decimal numeral, right-aligned in
/// `COLUMN_WIDTH` characters.
pub open spec fn column(n: nat) -> Seq<char> {
    right_aligned(decimal(n), COLUMN_WIDTH as nat)
}

/// The number that a digit stands for.
pub open spec fn digit_value(c: char) -> nat {
    if c == '1' {
        1
    } else if c == '2' {
        2
    } else if c == '3' {
        3
    } else if c == '4' {
        4
    } else if c == '5' {
        5
    } else if c == '6' {
        6
    } else if c == '7' {
        7
    } else if c == '8' {
        8
    } else if c == '9' {
        9
    } else {
        0
    }
}

/// Whether `c` is one of the ten digits.
pub open spec fn is_digit(c: char) -> bool {
    '0' <= c <= '9'
}

/// The number that a sequence of digits stands for, read as a decimal
/// numeral.
pub open spec fn numeral_value(digits: Seq<char>) -> nat
    decreases digits.len(),
{
    if digits.len() == 0 {
        0
    } else {
        10 * numeral_value(digits.drop_last()) + digit_value(digits.last())
    }
}

/// The decimal numeral of `n` stands for `n`. It is made of digits, has at
/// least one, and starts with a zero only where `n` is zero.
pub proof fn lemma_decimal_value(n: nat)
    ensures
        numeral_value(decimal(n)) == n,
        decimal(n).len() >= 1,
        forall|i: int| 0 <= i < decimal(n).len() ==> is_digit(#[trigger] decimal(n)[i]),
        decimal(n)[0] == '0' <==> n == 0,
    decreases n,
{
    if n < 10 {
        assert(decimal(n).drop_last() =~= Seq::<char>::empty());
        assert(numeral_value(decimal(n).drop_last()) == 0);
    } else {
        lemma_decimal_value(n / 10);
        assert(decimal(n).drop_last() =~= decimal(n / 10));
        assert(decimal(n)[0] == decimal(n / 10)[0]);
    }
}

/// A column ends with its numeral, and before the numeral it holds spaces
/// alone. It is as wide as the numeral, and `COLUMN_WIDTH` wide where the
/// numeral is shorter.
pub proof fn lemma_column_shape(n: nat)
    ensures
        column(n).len() == if decimal(n).len() >= COLUMN_WIDTH {
            decimal(n).len()
        } else {
            COLUMN_WIDTH as nat
        },
        column(n).skip(column(n).len() - decimal(n).len()) == decimal(n),
        forall|i: int| 0 <= i < column(n).len() - decimal(n).len() ==> #[trigger] column(n)[i] == ' ',
{
    assert(column(n).skip(column(n).len() - decimal(n).len()) =~= decimal(n));
}

fn digit_text(d: usize) -> (text: &'static str)
    requires
        d < 10,
    ensures
        text@ == seq![digit_char(d as nat)],
{
    proof {
        reveal_strlit("0");
        reveal_strlit("1");
        reveal_strlit("2");
        reveal_strlit("3");
        reveal_strlit("4");
        reveal_strlit("5");
        reveal_strlit("6");
        reveal_strlit("7");
        reveal_strlit("8");
        reveal_strlit("9");
    }
    let text = if d == 0 {
        "0"
    } else if d == 1 {
        "1"
    } else if d == 2 {
        "2"
    } else if d == 3 {
        "3"
    } else if d == 4 {
        "4"
    } else if d == 5 {
        "5"
    } else if d == 6 {
        "6"
    } else if d == 7 {
        "7"
    } else if d == 8 {
        "8"
    } else {
        "9"
    };
    assert(text@ =~= seq![digit_char(d as nat)]);
    text
}

/// Appends the decimal numeral of `n` to `out`.
pub fn push_decimal(out: &mut String, n: usize)
    ensures
        final(out)@ == old(out)@ + decimal(n as nat),
    decreases n,
{
    if n >= 10 {
        push_decimal(out, n / 10);
    }
    out.append(digit_text(n % 10));
    assert(out@ =~= old(out)@ + decimal(n as nat));
}

/// Appends `count` spaces to `out`.
pub fn push_spaces(out: &mut String, count: usize)
    ensures
        final(out)@ == old(out)@ + spaces(count as nat),
{
    assert(out@ =~= old(out)@ + spaces(0));
    for done in 0..count
        invariant
            out@ == old(out)@ + spaces(done as nat),
    {
        proof {
            reveal_strlit(" ");
        }
        out.append(" ");
        assert(out@ =~= old(out)@ + spaces((done + 1) as nat));
    }
}

/// Appends the column of the count `n` to `out`.
pub fn push_column(out: &mut String, n: usize)
    ensures
        final(out)@ == old(out)@ + column(n as nat),
{
    let mut numeral = String::new();
    push_decimal(&mut numeral, n);
    assert(numeral@ =~= decimal(n as nat));
    let len: usize = numeral.as_str().unicode_len();
    if len < COLUMN_WIDTH {
        push_spaces(out, COLUMN_WIDTH - len);
    }
    out.append(numeral.as_str());
    assert(out@ =~= old(out)@ + column(n as nat));
}

/// The column of the count `n` as a string.
pub fn format_count(n: usize) -> (text: String)
    ensures
        text@ == column(n as nat),
{
    let mut text = String::new();
    push_column(&mut text, n);
    assert(text@ =~= column(n as nat));
    text
}

} // verus!
