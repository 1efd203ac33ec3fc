//! Text as sequences of characters: numbers in decimal and hexadecimal, lists,
//! prefixes, and the reverse reading of a decimal number.

use vstd::prelude::*;

verus! {

/// `String::push` puts one character at the end of the string.
pub assume_specification[ String::push ](s: &mut String, ch: char)
    ensures
        final(s)@ == old(s)@.push(ch),
;

/// The character of one decimal digit.
pub open spec fn digit_char(d: nat) -> char {
    (48 + d) as char
}

/// `n` in decimal, without leading zeros.
pub open spec fn decimal(n: nat) -> Seq<char>
    decreases n,
{
    if n < 10 {
        seq![digit_char(n)]
    } else {
        decimal(n / 10).push(digit_char(n % 10))
    }
}

/// `n` in decimal, with a minus sign where it is negative.
pub open spec fn signed_decimal(n: int) -> Seq<char> {
    if n < 0 {
        "-"@ + decimal((-n) as nat)
    } else {
        decimal(n as nat)
    }
}

/// Renders `n` in decimal.
pub fn show_decimal(n: u128) -> (r: String)
    ensures
        r@ == decimal(n as nat),
    decreases n,
{
    if n < 10 {
        let mut r = String::new();
        r.push((48u8 + n as u8) as char);
        assert(r@ =~= seq![digit_char(n as nat)]);
        r
    } else {
        let mut r = show_decimal(n / 10);
        r.push((48u8 + (n % 10) as u8) as char);
        r
    }
}

/// Renders `n` in decimal, with its sign.
pub fn show_signed(n: i64) -> (r: String)
    ensures
        r@ == signed_decimal(n as int),
{
    if n < 0 {
        let mut r = "-".to_owned();
        r.append(show_decimal((-(n as i128)) as u128).as_str());
        r
    } else {
        show_decimal(n as u128)
    }
}

/// Collects the characters of `s`.
pub fn chars_of(s: &str) -> (r: Vec<char>)
    ensures
        r@ == s@,
{
    let mut r: Vec<char> = Vec::new();
    for c in it: s.chars()
        invariant
            r@ == it.seq().take(it.index()),
    {
        r.push(c);
    }
    r
}

/// The elements of `s` as integers.
pub open spec fn usize_values(s: Seq<usize>) -> Seq<int> {
    Seq::new(s.len(), |i: int| s[i] as int)
}

/// The elements of `s` as integers.
pub open spec fn i64_values(s: Seq<i64>) -> Seq<int> {
    Seq::new(s.len(), |i: int| s[i] as int)
}

/// The elements of `s` in decimal, separated by a comma and a space.
pub open spec fn comma_separated(s: Seq<int>) -> Seq<char>
    decreases s.len(),
{
    if s.len() == 0 {
        Seq::empty()
    } else if s.len() == 1 {
        signed_decimal(s[0])
    } else {
        comma_separated(s.drop_last()) + ", "@ + signed_decimal(s.last())
    }
}

/// The elements of `s` as a bracketed list.
pub open spec fn list_text(s: Seq<int>) -> Seq<char> {
    "["@ + comma_separated(s) + "]"@
}

/// Renders a list of unsigned numbers, as in `[1, 2, 3]`.
pub fn show_usizes(s: &[usize]) -> (r: String)
    ensures
        r@ == list_text(usize_values(s@)),
{
    let mut body = String::new();
    let ghost all = usize_values(s@);
    let mut i: usize = 0;
    while i < s.len()
        invariant
            i <= s@.len(),
            all == usize_values(s@),
            body@ == comma_separated(all.take(i as int)),
        decreases s@.len() - i,
    {
        assert(all.take(i + 1).drop_last() =~= all.take(i as int));
        if i > 0 {
            body.append(", ");
        }
        body.append(show_decimal(s[i] as u128).as_str());
        assert(i == 0 ==> body@ =~= comma_separated(all.take(i + 1)));
        i += 1;
    }
    assert(all.take(i as int) =~= all);
    let mut r = "[".to_owned();
    r.append(body.as_str());
    r.append("]");
    r
}

/// Renders a list of signed numbers, as in `[1, -1, 3]`.
pub fn show_i64s(s: &[i64]) -> (r: String)
    ensures
        r@ == list_text(i64_values(s@)),
{
    let mut body = String::new();
    let ghost all = i64_values(s@);
    let mut i: usize = 0;
    while i < s.len()
        invariant
            i <= s@.len(),
            all == i64_values(s@),
            body@ == comma_separated(all.take(i as int)),
        decreases s@.len() - i,
    {
        assert(all.take(i + 1).drop_last() =~= all.take(i as int));
        if i > 0 {
            body.append(", ");
        }
        body.append(show_signed(s[i]).as_str());
        assert(i == 0 ==> body@ =~= comma_separated(all.take(i + 1)));
        i += 1;
    }
    assert(all.take(i as int) =~= all);
    let mut r = "[".to_owned();
    r.append(body.as_str());
    r.append("]");
    r
}

/// The character of one lower-case hexadecimal digit.
pub open spec fn hex_char(d: nat) -> char {
    if d < 10 {
        digit_char(d)
    } else {
        (87 + d) as char
    }
}

/// The last `width` hexadecimal digits of `n`, with leading zeros.
pub open spec fn hex_digits(n: nat, width: nat) -> Seq<char>
    decreases width,
{
    if width == 0 {
        Seq::empty()
    } else {
        hex_digits(n / 16, (width - 1) as nat).push(hex_char(n % 16))
    }
}

/// Renders the last `width` hexadecimal digits of `n`.
pub fn show_hex(n: u64, width: u32) -> (r: String)
    ensures
        r@ == hex_digits(n as nat, width as nat),
    decreases width,
{
    if width == 0 {
        String::new()
    } else {
        let mut r = show_hex(n / 16, width - 1);
        let d: u8 = (n % 16) as u8;
        if d < 10 {
            r.push((48u8 + d) as char);
        } else {
            r.push((87u8 + d) as char);
        }
        r
    }
}

/// `s` begins with `prefix`.
pub open spec fn has_prefix(s: Seq<char>, prefix: Seq<char>) -> bool {
    prefix.len() <= s.len() && s.take(prefix.len() as int) == prefix
}

/// Whether `s` begins with `prefix`.
pub fn starts_with(s: &[char], prefix: &[char]) -> (r: bool)
    ensures
        r == has_prefix(s@, prefix@),
{
    if s.len() < prefix.len() {
        return false;
    }
    let mut i: usize = 0;
    while i < prefix.len()
        invariant
            i <= prefix@.len() <= s@.len(),
            forall|j: int| 0 <= j < i ==> s@[j] == prefix@[j],
        decreases prefix@.len() - i,
    {
        if s[i] != prefix[i] {
            assert(s@.take(prefix@.len() as int)[i as int] != prefix@[i as int]);
            return false;
        }
        i += 1;
    }
    assert(s@.take(prefix@.len() as int) =~= prefix@);
    true
}

/// Whether `c` is one of `0` to `9`.
pub open spec fn is_digit(c: char) -> bool {
    '0' <= c <= '9'
}

/// Every character of `s` is a decimal digit.
pub open spec fn all_digits(s: Seq<char>) -> bool {
    forall|i: int| 0 <= i < s.len() ==> is_digit(#[trigger] s[i])
}

/// The number that the decimal digits `s` denote.
pub open spec fn digits_value(s: Seq<char>) -> nat
    decreases s.len(),
{
    if s.len() == 0 {
        0
    } else {
        digits_value(s.drop_last()) * 10 + (s.last() as nat - 48) as nat
    }
}

/// The unsigned number that `s` denotes: decimal digits after at most one plus
/// sign, with a value that fits in `usize`.
pub open spec fn parsed_usize(s: Seq<char>) -> Option<usize> {
    let body = if s.len() > 0 && s[0] == '+' {
        s.skip(1)
    } else {
        s
    };
    if body.len() > 0 && all_digits(body) && digits_value(body) <= usize::MAX {
        Some(digits_value(body) as usize)
    } else {
        None
    }
}

proof fn lemma_decimal_digits(n: nat)
    ensures
        decimal(n).len() > 0,
        all_digits(decimal(n)),
        digits_value(decimal(n)) == n,
    decreases n,
{
    if n < 10 {
        reveal_with_fuel(digits_value, 2);
        assert(decimal(n).drop_last() =~= Seq::<char>::empty());
    } else {
        lemma_decimal_digits(n / 10);
        assert(decimal(n).drop_last() =~= decimal(n / 10));
    }
}

/// Reading a number that was written in decimal gives the number back.
pub proof fn reading_a_decimal_gives_the_number_back(n: usize)
    ensures
        parsed_usize(decimal(n as nat)) == Some(n),
{
    lemma_decimal_digits(n as nat);
    assert(is_digit(decimal(n as nat)[0]));
}

/// Reads an unsigned number from the characters of `s` from position `start` on.
pub fn parse_usize(s: &[char], start: usize) -> (r: Option<usize>)
    requires
        start <= s@.len(),
    ensures
        r == parsed_usize(s@.skip(start as int)),
{
    let ghost text = s@.skip(start as int);
    let first: usize = if start < s.len() && s[start] == '+' {
        start + 1
    } else {
        start
    };
    let ghost body = if text.len() > 0 && text[0] == '+' {
        text.skip(1)
    } else {
        text
    };
    assert(body =~= s@.skip(first as int));
    if first == s.len() {
        return None;
    }
    let mut value: usize = 0;
    let mut i: usize = first;
    let mut overflowed = false;
    while i < s.len()
        invariant
            first <= i <= s@.len(),
            text == s@.skip(start as int),
            body == (if text.len() > 0 && text[0] == '+' {
                text.skip(1)
            } else {
                text
            }),
            body == s@.skip(first as int),
            forall|j: int| 0 <= j < i - first ==> is_digit(#[trigger] body[j]),
            overflowed ==> digits_value(body.take(i - first)) > usize::MAX,
            !overflowed ==> digits_value(body.take(i - first)) == value,
        decreases s@.len() - i,
    {
        let c = s[i];
        assert(c == body[i - first]);
        if c < '0' || c > '9' {
            assert(!all_digits(body));
            return None;
        }
        let d: usize = (c as u32 - 48) as usize;
        assert(body.take(i + 1 - first).drop_last() =~= body.take(i - first));
        if !overflowed {
            match value.checked_mul(10) {
                None => {
                    overflowed = true;
                },
                Some(scaled) => match scaled.checked_add(d) {
                    None => {
                        overflowed = true;
                    },
                    Some(sum) => {
                        value = sum;
                    },
                },
            }
        }
        i += 1;
    }
    assert(body.take(i - first) =~= body);
    if overflowed {
        None
    } else {
        Some(value)
    }
}

/// `names` holds `name`.
pub open spec fn lists_name(names: Seq<String>, name: Seq<char>) -> bool {
    exists|i: int| 0 <= i < names.len() && #[trigger] names[i]@ == name
}

/// Whether `names` holds `name`.
pub fn contains_name(names: &[String], name: &String) -> (r: bool)
    ensures
        r == lists_name(names@, name@),
{
    let mut i: usize = 0;
    while i < names.len()
        invariant
            i <= names@.len(),
            forall|j: int| 0 <= j < i ==> #[trigger] names@[j]@ != name@,
        decreases names@.len() - i,
    {
        if names[i] == *name {
            assert(names@[i as int]@ == name@);
            return true;
        }
        i += 1;
    }
    false
}

/// The decimal form of a number has no leading zero, and ten times a number and a digit
/// is written as the number and then the digit.
pub proof fn decimals_grow_digit_by_digit(n: nat, d: nat)
    requires
        n > 0,
        d < 10,
    ensures
        decimal(d) == seq![(48 + d) as char],
        decimal(n * 10 + d) == decimal(n).push((48 + d) as char),
        decimal(n)[0] != '0',
    decreases n,
{
    assert((n * 10 + d) / 10 == n && (n * 10 + d) % 10 == d) by (nonlinear_arith)
        requires
            d < 10,
    ;
    if n >= 10 {
        decimals_grow_digit_by_digit(n / 10, 0);
        lemma_decimal_digits(n / 10);
    }
}

/// Numbers are shown in decimal, negative ones behind a minus sign.
pub proof fn shown_numbers_are_decimals(n: u128, shown: String, i: i64, signed: String)
    requires
        call_ensures(show_decimal, (n,), shown),
        call_ensures(show_signed, (i,), signed),
    ensures
        shown@ == decimal(n as nat),
        i >= 0 ==> signed@ == decimal(i as nat),
        i < 0 ==> signed@.len() > 0 && signed@[0] == '-' && signed@.skip(1) == decimal((-i) as nat),
{
    reveal_strlit("-");
    if i < 0 {
        assert(signed@.skip(1) =~= decimal((-i) as nat));
    }
}

/// A number is read from the digits alone, after at most one plus sign: any other
/// character makes it unreadable, and one digit more makes ten times the number and the
/// digit, as long as that fits.
pub proof fn numbers_are_read_digit_by_digit(s: Seq<char>, c: char)
    ensures
        parsed_usize(Seq::empty()) is None,
        !('0' <= c <= '9') ==> parsed_usize(s.push(c)) is None,
        '0' <= c <= '9' ==> parsed_usize(seq![c]) == Some((c as int - 48) as usize),
        '0' <= c <= '9' ==> parsed_usize(seq!['+'] + s.push(c)) == (if s.len() > 0 && s[0] == '+' {
            None
        } else {
            parsed_usize(s.push(c))
        }),
        parsed_usize(s) matches Some(n) ==> '0' <= c <= '9' && n * 10 + (c as int - 48)
            <= usize::MAX ==> parsed_usize(s.push(c)) == Some((n * 10 + (c as int - 48)) as usize),
        parsed_usize(s) matches Some(n) ==> '0' <= c <= '9' && n * 10 + (c as int - 48)
            > usize::MAX ==> parsed_usize(s.push(c)) is None,
{
    let body = |t: Seq<char>|
        if t.len() > 0 && t[0] == '+' {
            t.skip(1)
        } else {
            t
        };
    let longer = s.push(c);
    if s.len() > 0 {
        assert(body(longer) =~= body(s).push(c));
        assert(body(longer).drop_last() =~= body(s));
    } else {
        assert(longer =~= seq![c]);
        reveal_with_fuel(digits_value, 2);
        assert(longer.drop_last() =~= Seq::<char>::empty());
    }
    if !('0' <= c <= '9') && body(longer).len() > 0 {
        assert(!is_digit(body(longer).last()));
    }
    let plus = seq!['+'] + longer;
    assert(plus.skip(1) =~= longer);
    if '0' <= c <= '9' && s.len() > 0 && s[0] == '+' {
        assert(!is_digit(longer[0]));
    }
    reveal_with_fuel(digits_value, 2);
    assert(seq![c].drop_last() =~= Seq::<char>::empty());
    if parsed_usize(s) is Some && '0' <= c <= '9' {
        assert forall|i: int| 0 <= i < body(longer).len() implies is_digit(
            #[trigger] body(longer)[i],
        ) by {
            if i < body(s).len() {
                assert(is_digit(body(s)[i]));
            }
        }
    }
}

/// Text begins with a prefix exactly where it is the prefix and something behind it.
pub proof fn prefixes_stand_at_the_beginning(s: &[char], prefix: &[char], rest: Seq<char>, r: bool)
    requires
        call_ensures(starts_with, (s, prefix), r),
    ensures
        s@ == prefix@ + rest ==> r,
        r ==> s@ == prefix@ + s@.skip(prefix@.len() as int),
{
    if s@ == prefix@ + rest {
        assert(s@.take(prefix@.len() as int) =~= prefix@);
    }
    if r {
        assert(s@ =~= prefix@ + s@.skip(prefix@.len() as int));
    }
}

/// A list shows its numbers one after the other, with a comma and a space between two,
/// in square brackets.
pub proof fn lists_show_every_number(s: Seq<int>, n: int)
    ensures
        list_text(Seq::empty()) == "["@ + "]"@,
        list_text(seq![n]) == "["@ + signed_decimal(n) + "]"@,
        s.len() > 0 ==> list_text(s.push(n)) == list_text(s).drop_last() + ", "@ + signed_decimal(n)
            + "]"@,
{
    reveal_strlit("[");
    reveal_strlit("]");
    assert(s.push(n).drop_last() =~= s);
    assert(list_text(Seq::empty()) =~= "["@ + "]"@);
    if s.len() > 0 {
        assert(list_text(s).drop_last() =~= "["@ + comma_separated(s));
        assert(list_text(s.push(n)) =~= list_text(s).drop_last() + ", "@ + signed_decimal(n)
            + "]"@);
    }
}

/// A hexadecimal form has as many digits as asked for, and the last one is the remainder
/// by sixteen.
pub proof fn hexadecimals_end_with_the_remainder(n: u64, width: u32, r: String)
    requires
        call_ensures(show_hex, (n, width), r),
        width > 0,
    ensures
        r@.len() == width,
        r@.drop_last() == hex_digits((n / 16) as nat, (width - 1) as nat),
        n % 16 < 10 ==> r@.last() as int == 48 + n % 16,
        n % 16 >= 10 ==> r@.last() as int == 87 + n % 16,
{
    lemma_hex_width(n as nat, width as nat);
    assert(r@.drop_last() =~= hex_digits((n / 16) as nat, (width - 1) as nat));
}

proof fn lemma_hex_width(n: nat, width: nat)
    ensures
        hex_digits(n, width).len() == width,
    decreases width,
{
    if width > 0 {
        lemma_hex_width(n / 16, (width - 1) as nat);
    }
}

/// A name is found exactly where it stands in the list, whole.
pub proof fn names_are_found_where_they_stand(names: &[String], name: &String, r: bool)
    requires
        call_ensures(contains_name, (names, name), r),
    ensures
        r <==> exists|i: int| 0 <= i < names@.len() && #[trigger] names@[i]@ == name@,
{
}

/// What is read from a position on is what is read of the text behind it, and the
/// characters of a text are those that it has.
pub proof fn numbers_are_read_from_a_position_on(
    s: &[char],
    start: usize,
    r: Option<usize>,
    n: usize,
    text: &str,
    chars: Vec<char>,
)
    requires
        call_ensures(parse_usize, (s, start), r),
        start <= s@.len(),
        call_ensures(chars_of, (text,), chars),
    ensures
        s@.skip(start as int) == decimal(n as nat) ==> r == Some(n),
        s@.skip(start as int).len() == 0 ==> r is None,
        r == parsed_usize(s@.skip(start as int)),
        chars@.len() == text@.len(),
        forall|i: int| 0 <= i < chars@.len() ==> #[trigger] chars@[i] == text@[i],
{
    reading_a_decimal_gives_the_number_back(n);
}

/// Lists of numbers are shown number by number, whatever their type.
pub proof fn lists_are_shown(
    a: &[usize],
    x: String,
    b: &[i64],
    y: String,
    numbers: Seq<int>,
)
    requires
        call_ensures(show_usizes, (a,), x),
        call_ensures(show_i64s, (b,), y),
    ensures
        numbers.len() == a@.len() && (forall|i: int|
            0 <= i < a@.len() ==> numbers[i] == #[trigger] a@[i]) ==> x@ == list_text(numbers),
        numbers.len() == b@.len() && (forall|i: int|
            0 <= i < b@.len() ==> numbers[i] == #[trigger] b@[i]) ==> y@ == list_text(numbers),
{
    if numbers.len() == a@.len() && (forall|i: int|
        0 <= i < a@.len() ==> numbers[i] == #[trigger] a@[i]) {
        assert(numbers =~= usize_values(a@));
    }
    if numbers.len() == b@.len() && (forall|i: int|
        0 <= i < b@.len() ==> numbers[i] == #[trigger] b@[i]) {
        assert(numbers =~= i64_values(b@));
    }
}

} // verus!
