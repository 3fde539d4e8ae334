//! The text of the status panel: transpose, string and level bar.

use vstd::prelude::*;

verus! {

/// Width of the input level bar, in cells.
pub const BAR_WIDTH: usize = 24;

/// The character of decimal digit `d`.
pub open spec fn digit_char(d: int) -> char {
    (d + 48) as char
}

/// Decimal digits of `n`, most significant first.
pub open spec fn decimal(n: nat) -> Seq<char>
    decreases n,
{
    if n < 10 {
        seq![digit_char(n as int)]
    } else {
        decimal(n / 10).push(digit_char((n % 10) as int))
    }
}

/// A transpose as shown: "0", or the value with its sign, e.g. "+2", "-1".
pub open spec fn transpose_text_of(t: int) -> Seq<char> {
    if t == 0 {
        seq!['0']
    } else if t > 0 {
        seq!['+'] + decimal(t as nat)
    } else {
        seq!['-'] + decimal((-t) as nat)
    }
}

/// The selected string as shown: its number from 1, then its label.
pub open spec fn string_text_of(string_idx: int, label: Seq<char>) -> Seq<char> {
    decimal((string_idx + 1) as nat) + seq![' ', '/', ' '] + label
}

/// A level bar with `filled` cells lit, out of `BAR_WIDTH`.
pub open spec fn level_bar_of(filled: int) -> Seq<char> {
    let f = if filled < BAR_WIDTH { filled } else { BAR_WIDTH as int };
    Seq::new(BAR_WIDTH as nat, |i: int| if i < f { '█' } else { '░' })
}

/// The number written by decimal digits `s`.
pub open spec fn digits_value(s: Seq<char>) -> int
    decreases s.len(),
{
    if s.len() == 0 {
        0
    } else {
        digits_value(s.drop_last()) * 10 + (s.last() as int - 48)
    }
}

/// The decimal text of `n` reads back as `n`, uses only digits, and has no
/// leading zero.
pub proof fn lemma_decimal_reads_back(n: nat)
    ensures
        digits_value(decimal(n)) == n,
        decimal(n).len() >= 1,
        forall|i: int| 0 <= i < decimal(n).len() ==> '0' <= #[trigger] decimal(n)[i] <= '9',
        decimal(n).len() > 1 ==> decimal(n)[0] != '0',
    decreases n,
{
    let d = decimal(n);
    if n >= 10 {
        lemma_decimal_reads_back(n / 10);
        assert(d.drop_last() =~= decimal(n / 10));
        assert(d[0] == decimal(n / 10)[0]);
        lemma_digit_char((n % 10) as int);
        assert(d.last() == digit_char((n % 10) as int));
        if n / 10 < 10 {
            lemma_digit_char((n / 10) as int);
            assert(decimal((n / 10) as nat)[0] == digit_char((n / 10) as int));
        } else {
            lemma_decimal_reads_back(n / 100);
            assert(decimal((n / 10) as nat).len() == decimal(((n / 10) / 10) as nat).len() + 1);
        }
        assert(d[0] != '0');
        assert(n == (n / 10) * 10 + n % 10) by (nonlinear_arith);
        assert(digits_value(d) == digits_value(d.drop_last()) * 10 + (d.last() as int - 48));
    } else {
        assert(d == seq![digit_char(n as int)]);
        assert(digits_value(d.drop_last()) == 0);
        lemma_digit_char(n as int);
        assert(d.drop_last() =~= Seq::<char>::empty());
    }
}

proof fn lemma_digit_char(k: int)
    requires
        0 <= k < 10,
    ensures
        digit_char(k) as int == k + 48,
        '0' <= digit_char(k) <= '9',
        k != 0 ==> digit_char(k) != '0',
{
    assert(((k + 48) as char) as int == k + 48);
}

/// A transpose is shown as "0" for zero, otherwise as its sign followed by
/// the digits of its magnitude.
pub proof fn lemma_transpose_text_reads_back(t: int)
    ensures
        t == 0 ==> transpose_text_of(t) == seq!['0'],
        t > 0 ==> transpose_text_of(t)[0] == '+' && digits_value(transpose_text_of(t).drop_first()) == t,
        t < 0 ==> transpose_text_of(t)[0] == '-' && digits_value(transpose_text_of(t).drop_first()) == -t,
{
    if t > 0 {
        lemma_decimal_reads_back(t as nat);
        assert(transpose_text_of(t).drop_first() =~= decimal(t as nat));
    } else if t < 0 {
        lemma_decimal_reads_back((-t) as nat);
        assert(transpose_text_of(t).drop_first() =~= decimal((-t) as nat));
    }
}

/// The level bar is always `BAR_WIDTH` cells, lit exactly on the first
/// `min(filled, BAR_WIDTH)` and dim on the rest.
pub proof fn lemma_level_bar_cells(filled: int)
    ensures
        level_bar_of(filled).len() == BAR_WIDTH,
        forall|i: int|
            0 <= i < BAR_WIDTH ==> (#[trigger] level_bar_of(filled)[i] == '█' <==> i < filled)
                && (level_bar_of(filled)[i] == '█' || level_bar_of(filled)[i] == '░'),
{
}

fn digit_str(d: u64) -> (s: &'static str)
    requires
        d < 10,
    ensures
        s@ == seq![digit_char(d as int)],
{
    proof {
        reveal_strlit("0");
        reveal_strlit("1");
        reveal_strlit("2");
        reveal_strlit("3");
        reveal_strlit("4");
        reveal_strlit("5");
        reveal_strlit("6");
        reveal_strlit("7");
        reveal_strlit("8");
        reveal_strlit("9");
    }
    if d == 0 { "0" }
    else if d == 1 { "1" }
    else if d == 2 { "2" }
    else if d == 3 { "3" }
    else if d == 4 { "4" }
    else if d == 5 { "5" }
    else if d == 6 { "6" }
    else if d == 7 { "7" }
    else if d == 8 { "8" }
    else { "9" }
}

fn append_decimal(s: &mut String, n: u64)
    ensures
        final(s)@ == old(s)@ + decimal(n as nat),
    decreases n,
{
    if n >= 10 {
        append_decimal(s, n / 10);
    }
    s.append(digit_str(n % 10));
    proof {
        if n >= 10 {
            assert(decimal(n as nat) == decimal((n / 10) as nat).push(digit_char((n % 10) as int)));
        }
    }
}

/// The transpose as shown in the status panel.
pub fn transpose_text(t: i32) -> (text: String)
    ensures
        text@ == transpose_text_of(t as int),
{
    if t == 0 {
        proof { reveal_strlit("0"); }
        String::from_str("0")
    } else if t > 0 {
        proof { reveal_strlit("+"); }
        let mut text = String::from_str("+");
        append_decimal(&mut text, t as u64);
        text
    } else {
        proof { reveal_strlit("-"); }
        let mut text = String::from_str("-");
        let magnitude: i64 = -(t as i64);
        append_decimal(&mut text, magnitude as u64);
        text
    }
}

/// The selected string as shown in the status panel, e.g. "1 / E2".
pub fn string_text(string_idx: usize, label: &str) -> (text: String)
    requires
        string_idx < usize::MAX,
    ensures
        text@ == string_text_of(string_idx as int, label@),
{
    let mut text = String::new();
    append_decimal(&mut text, string_idx as u64 + 1);
    proof { reveal_strlit(" / "); }
    text.append(" / ");
    text.append(label);
    text
}

/// The input level bar: `filled` lit cells (at most `BAR_WIDTH`), the rest dim.
pub fn level_bar(filled: usize) -> (bar: String)
    ensures
        bar@ == level_bar_of(filled as int),
{
    let f = if filled < BAR_WIDTH { filled } else { BAR_WIDTH };
    let mut bar = String::new();
    let mut i: usize = 0;
    while i < BAR_WIDTH
        invariant
            f <= BAR_WIDTH,
            f == (if filled < BAR_WIDTH { filled } else { BAR_WIDTH }),
            i <= BAR_WIDTH,
            bar@ == Seq::new(i as nat, |k: int| if k < f { '█' } else { '░' }),
        decreases BAR_WIDTH - i,
    {
        proof {
            reveal_strlit("█");
            reveal_strlit("░");
        }
        if i < f {
            bar.append("█");
        } else {
            bar.append("░");
        }
        assert(bar@ =~= Seq::new((i + 1) as nat, |k: int| if k < f { '█' } else { '░' }));
        i += 1;
    }
    assert(bar@ =~= level_bar_of(filled as int));
    bar
}

} // verus!
