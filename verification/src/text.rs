use vstd::prelude::*;

verus! {

/// `String::push` appends one character at the end of the string, as its
/// documentation says; nothing else is claimed of it.
pub assume_specification[ String::push ](s: &mut String, ch: char)
    ensures
        final(s)@ == old(s)@.push(ch),
;

/// The text of each string.
pub open spec fn texts(strings: Seq<String>) -> Seq<Seq<char>> {
    strings.map_values(|s: String| s@)
}

/// The pieces written one after another with `sep` between each two.
pub open spec fn joined(pieces: Seq<Seq<char>>, sep: Seq<char>) -> Seq<char>
    decreases pieces.len(),
{
    if pieces.len() == 0 {
        seq![]
    } else if pieces.len() == 1 {
        pieces[0]
    } else {
        joined(pieces.drop_last(), sep) + sep + pieces.last()
    }
}

/// Joins the strings with `sep` between each two, as `[String]::join` does.
pub fn join_strings(items: &Vec<String>, sep: &str) -> (s: String)
    ensures
        s@ == joined(texts(items@), sep@),
{
    let mut out = String::new();
    let n = items.len();
    let mut i: usize = 0;
    while i < n
        invariant
            n == items@.len(),
            i <= n,
            out@ == joined(texts(items@).take(i as int), sep@),
        decreases n - i,
    {
        let ghost prefix = texts(items@).take(i + 1);
        assert(prefix.drop_last() =~= texts(items@).take(i as int));
        assert(prefix.last() == items@[i as int]@);
        if i == 0 {
            out.append(items[i].as_str());
            assert(out@ =~= prefix[0]);
        } else {
            out.append(sep);
            out.append(items[i].as_str());
        }
        i = i + 1;
    }
    assert(texts(items@).take(n as int) =~= texts(items@));
    out
}

/// The decimal digits of `n`, most significant first, without leading zeros
/// (and `"0"` for zero): what `Display` writes for an unsigned integer.
pub open spec fn decimal(n: nat) -> Seq<char>
    decreases n,
{
    if n < 10 {
        seq![digit_char(n)]
    } else {
        decimal(n / 10).push(digit_char(n % 10))
    }
}

/// The character of a single decimal digit.
pub open spec fn digit_char(d: nat) -> char {
    if d == 0 { '0' }
    else if d == 1 { '1' }
    else if d == 2 { '2' }
    else if d == 3 { '3' }
    else if d == 4 { '4' }
    else if d == 5 { '5' }
    else if d == 6 { '6' }
    else if d == 7 { '7' }
    else if d == 8 { '8' }
    else { '9' }
}

fn digit_to_char(d: u64) -> (c: char)
    requires
        d < 10,
    ensures
        c == digit_char(d as nat),
{
    if d == 0 { '0' }
    else if d == 1 { '1' }
    else if d == 2 { '2' }
    else if d == 3 { '3' }
    else if d == 4 { '4' }
    else if d == 5 { '5' }
    else if d == 6 { '6' }
    else if d == 7 { '7' }
    else if d == 8 { '8' }
    else { '9' }
}

/// Writes `n` in decimal, as `n.to_string()` does.
pub fn decimal_string(n: u64) -> (s: String)
    ensures
        s@ == decimal(n as nat),
{
    let mut digits: Vec<char> = Vec::new();
    let mut m: u64 = n;
    // digits holds the low-order digits already taken, least significant first
    loop
        invariant_except_break
            decimal(n as nat) == decimal(m as nat) + digits@.reverse(),
        ensures
            decimal(n as nat) == digits@.reverse(),
        decreases m,
    {
        let d = m % 10;
        let c = digit_to_char(d);
        if m < 10 {
            let ghost old_digits = digits@;
            digits.push(c);
            assert(decimal(m as nat) == seq![c]);
            assert(digits@.reverse() =~= seq![c] + old_digits.reverse());
            break;
        }
        proof {
            assert(decimal(m as nat) == decimal((m / 10) as nat).push(c));
        }
        let ghost old_digits = digits@;
        digits.push(c);
        assert(digits@.reverse() =~= seq![c] + old_digits.reverse());
        assert(decimal((m / 10) as nat) + digits@.reverse() =~= decimal((m / 10) as nat).push(c) + old_digits.reverse());
        m = m / 10;
    }
    let mut s = String::new();
    let len = digits.len();
    let mut i: usize = len;
    while i > 0
        invariant
            i <= len,
            len == digits@.len(),
            s@ == digits@.subrange(i as int, len as int).reverse(),
        decreases i,
    {
        i = i - 1;
        let c = digits[i];
        let ghost before = s@;
        s.push(c);
        assert(digits@.subrange(i as int, len as int).reverse() =~= before.push(c));
    }
    assert(digits@.subrange(0, len as int) =~= digits@);
    assert(digits@.reverse().len() == len);
    s
}

} // verus!
