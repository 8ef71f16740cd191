//! Text handling for attribute files: whitespace trimming and unsigned
//! number grammars, stated over sequences of characters.

use vstd::prelude::*;

verus! {

/// Whether `c` has the Unicode property `White_Space`.
pub open spec fn is_whitespace(c: char) -> bool {
    let n = c as u32;
    ||| 0x09 <= n <= 0x0D
    ||| n == 0x20
    ||| n == 0x85
    ||| n == 0xA0
    ||| n == 0x1680
    ||| 0x2000 <= n <= 0x200A
    ||| n == 0x2028
    ||| n == 0x2029
    ||| n == 0x202F
    ||| n == 0x205F
    ||| n == 0x3000
}

/// The number of whitespace characters at the start of `s`.
pub open spec fn leading_whitespace(s: Seq<char>) -> nat
    decreases s.len(),
{
    if s.len() > 0 && is_whitespace(s[0]) {
        1 + leading_whitespace(s.drop_first())
    } else {
        0
    }
}

/// The number of whitespace characters at the end of `s`.
pub open spec fn trailing_whitespace(s: Seq<char>) -> nat
    decreases s.len(),
{
    if s.len() > 0 && is_whitespace(s.last()) {
        1 + trailing_whitespace(s.drop_last())
    } else {
        0
    }
}

/// `s` without its leading and trailing whitespace.
pub open spec fn trim(s: Seq<char>) -> Seq<char> {
    let rest = s.skip(leading_whitespace(s) as int);
    rest.take(rest.len() - trailing_whitespace(rest))
}

/// A run of whitespace that ends at the first other character is the
/// whole leading whitespace.
pub proof fn lemma_leading_whitespace(s: Seq<char>, n: int)
    requires
        0 <= n <= s.len(),
        forall|i: int| 0 <= i < n ==> is_whitespace(#[trigger] s[i]),
        n < s.len() ==> !is_whitespace(s[n]),
    ensures
        leading_whitespace(s) == n,
    decreases n,
{
    if n > 0 {
        let t = s.drop_first();
        assert forall|i: int| 0 <= i < n - 1 implies is_whitespace(#[trigger] t[i]) by {
            assert(t[i] == s[i + 1]);
        }
        if n < s.len() {
            assert(t[n - 1] == s[n]);
        }
        lemma_leading_whitespace(t, n - 1);
    }
}

/// A run of whitespace that reaches back from the end to the last other
/// character is the whole trailing whitespace.
pub proof fn lemma_trailing_whitespace(s: Seq<char>, n: int)
    requires
        0 <= n <= s.len(),
        forall|i: int| s.len() - n <= i < s.len() ==> is_whitespace(#[trigger] s[i]),
        n < s.len() ==> !is_whitespace(s[s.len() - n - 1]),
    ensures
        trailing_whitespace(s) == n,
    decreases n,
{
    if n > 0 {
        let t = s.drop_last();
        assert forall|i: int| t.len() - (n - 1) <= i < t.len() implies is_whitespace(
            #[trigger] t[i],
        ) by {
            assert(t[i] == s[i]);
        }
        if n < s.len() {
            assert(t[t.len() - (n - 1) - 1] == s[s.len() - n - 1]);
        }
        lemma_trailing_whitespace(t, n - 1);
    }
}

/// The characters of `s`, in order.
pub fn chars_of(s: &str) -> (r: Vec<char>)
    ensures
        r@ == s@,
{
    let mut out: Vec<char> = Vec::new();
    for c in iter: s.chars()
        invariant
            out@ == iter.history(),
            iter.seq() == s@,
    {
        out.push(c);
    }
    assert(out@ =~= s@);
    out
}

/// Tests a character for the Unicode property `White_Space`.
pub fn is_space(c: char) -> (r: bool)
    ensures
        r == is_whitespace(c),
{
    let n: u32 = c as u32;
    (0x09 <= n && n <= 0x0D) || n == 0x20 || n == 0x85 || n == 0xA0 || n == 0x1680 || (0x2000 <= n
        && n <= 0x200A) || n == 0x2028 || n == 0x2029 || n == 0x202F || n == 0x205F || n == 0x3000
}

/// The bounds of `chars` without its leading and trailing whitespace.
fn trim_bounds(chars: &Vec<char>) -> (r: (usize, usize))
    ensures
        r.0 <= r.1 <= chars@.len(),
        chars@.subrange(r.0 as int, r.1 as int) == trim(chars@),
{
    let n: usize = chars.len();
    let mut start: usize = 0;
    while start < n && is_space(chars[start])
        invariant
            n == chars@.len(),
            start <= n,
            forall|i: int| 0 <= i < start ==> is_whitespace(#[trigger] chars@[i]),
        decreases n - start,
    {
        start += 1;
    }
    let mut end: usize = n;
    while end > start && is_space(chars[end - 1])
        invariant
            n == chars@.len(),
            start <= end <= n,
            forall|i: int| end <= i < n ==> is_whitespace(#[trigger] chars@[i]),
        decreases end,
    {
        end -= 1;
    }
    proof {
        lemma_leading_whitespace(chars@, start as int);
        let rest = chars@.skip(start as int);
        assert forall|i: int| rest.len() - (n - end) <= i < rest.len() implies is_whitespace(
            #[trigger] rest[i],
        ) by {
            assert(rest[i] == chars@[i + start]);
        }
        lemma_trailing_whitespace(rest, n - end);
        assert(rest.take(rest.len() - (n - end)) =~= chars@.subrange(start as int, end as int));
    }
    (start, end)
}

/// `s` without its leading and trailing whitespace.
pub fn trimmed(s: &str) -> (r: &str)
    ensures
        r@ == trim(s@),
{
    let chars = chars_of(s);
    let (start, end) = trim_bounds(&chars);
    s.substring_char(start, end)
}

/// The value of `c` as a digit in base `radix`, where it is one: `0` to
/// `9`, then the letters in either case from ten on.
pub open spec fn digit_value(c: char, radix: nat) -> Option<nat> {
    let n = c as u32;
    let v: int = if 0x30 <= n <= 0x39 {
        n - 0x30
    } else if 0x61 <= n <= 0x7A {
        n - 0x61 + 10
    } else if 0x41 <= n <= 0x5A {
        n - 0x41 + 10
    } else {
        36
    };
    if v < radix {
        Some(v as nat)
    } else {
        None
    }
}

/// Whether every character of `s` is a digit in base `radix`.
pub open spec fn all_digits(s: Seq<char>, radix: nat) -> bool {
    forall|i: int| 0 <= i < s.len() ==> (#[trigger] digit_value(s[i], radix)) is Some
}

/// The number that the digits `s` write in base `radix`.
pub open spec fn number(s: Seq<char>, radix: nat) -> nat
    decreases s.len(),
{
    if s.len() == 0 {
        0
    } else {
        number(s.drop_last(), radix) * radix + digit_value(s.last(), radix).unwrap_or(0)
    }
}

/// The unsigned number grammar: an optional `+`, then one digit or more in
/// base `radix`, writing a number of at most `max`.
pub open spec fn parse_unsigned(s: Seq<char>, radix: nat, max: nat) -> Option<nat> {
    let digits = if s.len() > 0 && s[0] == '+' {
        s.drop_first()
    } else {
        s
    };
    if digits.len() > 0 && all_digits(digits, radix) && number(digits, radix) <= max {
        Some(number(digits, radix))
    } else {
        None
    }
}

/// A number is at least the number that any prefix of its digits writes.
pub proof fn lemma_number_prefix(s: Seq<char>, k: int, radix: nat)
    requires
        0 <= k <= s.len(),
        radix >= 1,
    ensures
        number(s.take(k), radix) <= number(s, radix),
    decreases s.len() - k,
{
    if k == s.len() {
        assert(s.take(k) =~= s);
    } else {
        lemma_number_prefix(s.drop_last(), k, radix);
        assert(s.drop_last().take(k) =~= s.take(k));
        let a = number(s.drop_last(), radix);
        assert(a * radix >= a) by (nonlinear_arith)
            requires
                radix >= 1,
                a >= 0,
        ;
    }
}

/// Reads one digit in base `radix`.
fn digit(c: char, radix: u32) -> (r: Option<u32>)
    requires
        radix <= 36,
    ensures
        match r {
            Some(d) => digit_value(c, radix as nat) == Some(d as nat),
            None => digit_value(c, radix as nat) is None,
        },
{
    let n: u32 = c as u32;
    let v: u32 = if 0x30 <= n && n <= 0x39 {
        n - 0x30
    } else if 0x61 <= n && n <= 0x7A {
        n - 0x61 + 10
    } else if 0x41 <= n && n <= 0x5A {
        n - 0x41 + 10
    } else {
        36
    };
    if v < radix {
        Some(v)
    } else {
        None
    }
}

/// Reads `chars[from..to]` by the unsigned number grammar.
fn parse_number_in(chars: &Vec<char>, from: usize, to: usize, radix: u32, max: u32) -> (r:
    Option<u32>)
    requires
        from <= to <= chars@.len(),
        2 <= radix <= 36,
    ensures
        match r {
            Some(v) => parse_unsigned(
                chars@.subrange(from as int, to as int),
                radix as nat,
                max as nat,
            ) == Some(v as nat),
            None => parse_unsigned(
                chars@.subrange(from as int, to as int),
                radix as nat,
                max as nat,
            ) is None,
        },
{
    let ghost s = chars@.subrange(from as int, to as int);
    let mut i: usize = from;
    if i < to && chars[i] == '+' {
        i += 1;
    }
    let start: usize = i;
    let ghost digits = chars@.subrange(start as int, to as int);
    proof {
        if start > from {
            assert(s[0] == '+');
            assert(digits =~= s.drop_first());
        } else {
            if from < to {
                assert(s[0] == chars@[from as int]);
            }
            assert(digits =~= s);
        }
    }
    if i == to {
        return None;
    }
    let mut acc: u64 = 0;
    while i < to
        invariant
            from <= start <= i <= to <= chars@.len(),
            2 <= radix <= 36,
            s == chars@.subrange(from as int, to as int),
            digits == chars@.subrange(start as int, to as int),
            digits == if s.len() > 0 && s[0] == '+' {
                s.drop_first()
            } else {
                s
            },
            all_digits(digits.take(i - start), radix as nat),
            acc == number(digits.take(i - start), radix as nat),
            acc <= max,
        decreases to - i,
    {
        let ghost before = digits.take(i - start);
        let ghost after = digits.take(i + 1 - start);
        proof {
            assert(after.drop_last() =~= before);
            assert(after.last() == chars@[i as int]);
        }
        match digit(chars[i], radix) {
            None => {
                proof {
                    assert(digits[i - start] == chars@[i as int]);
                }
                return None;
            },
            Some(d) => {
                assert(acc * radix + d <= 0xFFFF_FFFF * 36 + 35) by (nonlinear_arith)
                    requires
                        acc <= 0xFFFF_FFFF,
                        radix <= 36,
                        d < 36,
                ;
                acc = acc * (radix as u64) + (d as u64);
                proof {
                    assert(acc == number(after, radix as nat));
                    lemma_number_prefix(digits, i + 1 - start, radix as nat);
                }
                if acc > max as u64 {
                    return None;
                }
                proof {
                    assert forall|j: int| 0 <= j < after.len() implies (#[trigger] digit_value(
                        after[j],
                        radix as nat,
                    )) is Some by {
                        if j < before.len() {
                            assert(after[j] == before[j]);
                        }
                    }
                }
            },
        }
        i += 1;
    }
    proof {
        assert(digits.take(to - start) =~= digits);
    }
    Some(acc as u32)
}

/// Reads the whole of `s` by the unsigned number grammar.
pub fn parse_number(s: &str, radix: u32, max: u32) -> (r: Option<u32>)
    requires
        2 <= radix <= 36,
    ensures
        match r {
            Some(v) => parse_unsigned(s@, radix as nat, max as nat) == Some(v as nat),
            None => parse_unsigned(s@, radix as nat, max as nat) is None,
        },
{
    let chars = chars_of(s);
    assert(chars@.subrange(0, chars@.len() as int) =~= s@);
    parse_number_in(&chars, 0, chars.len(), radix, max)
}

/// Whether two strings hold the same characters.
pub fn same_text(a: &str, b: &str) -> (r: bool)
    ensures
        r == (a@ == b@),
{
    let x = String::from_str(a);
    let y = String::from_str(b);
    x == y
}

/// The path of the entry `name` of the directory `dir`: an absolute `name`
/// stands alone, otherwise the two are put together with one separator
/// between them unless `dir` is empty or already ends in one.
pub open spec fn join_path(dir: Seq<char>, name: Seq<char>) -> Seq<char> {
    if name.len() > 0 && name[0] == '/' {
        name
    } else if dir.len() == 0 || dir.last() == '/' {
        dir + name
    } else {
        dir + seq!['/'] + name
    }
}

/// Builds the path of the entry `name` of the directory `dir`.
pub fn join(dir: &str, name: &str) -> (r: String)
    ensures
        r@ == join_path(dir@, name@),
{
    let entry = chars_of(name);
    if entry.len() > 0 && entry[0] == '/' {
        return String::from_str(name);
    }
    let parent = chars_of(dir);
    let mut out = String::from_str(dir);
    if parent.len() > 0 && parent[parent.len() - 1] != '/' {
        proof {
            reveal_strlit("/");
            assert("/"@ =~= seq!['/']);
        }
        out.append("/");
    }
    out.append(name);
    out
}

/// The character that writes the decimal digit `d`.
pub open spec fn decimal_digit(d: nat) -> char {
    if d == 0 {
        '0'
    } else if d == 1 {
        '1'
    } else if d == 2 {
        '2'
    } else if d == 3 {
        '3'
    } else if d == 4 {
        '4'
    } else if d == 5 {
        '5'
    } else if d == 6 {
        '6'
    } else if d == 7 {
        '7'
    } else if d == 8 {
        '8'
    } else {
        '9'
    }
}

/// `n` in decimal, filled with zeros on the left to three digits.
pub open spec fn three_digits(n: u8) -> Seq<char> {
    seq![
        decimal_digit((n / 100) as nat),
        decimal_digit((n / 10 % 10) as nat),
        decimal_digit((n % 10) as nat),
    ]
}

/// Three digits read back as the number they were written for.
pub proof fn lemma_three_digits(n: u8)
    ensures
        three_digits(n).len() == 3,
        all_digits(three_digits(n), 10),
        parse_unsigned(three_digits(n), 10, 0xFF) == Some(n as nat),
{
    let s = three_digits(n);
    let h = (n / 100) as nat;
    let t = (n / 10 % 10) as nat;
    let u = (n % 10) as nat;
    assert forall|d: nat| d < 10 implies digit_value(decimal_digit(d), 10) == Some(d) by {}
    assert(digit_value(s[0], 10) == Some(h));
    assert(digit_value(s[1], 10) == Some(t));
    assert(digit_value(s[2], 10) == Some(u));
    let two = s.drop_last();
    let one = two.drop_last();
    assert(one.drop_last() =~= Seq::<char>::empty());
    assert(number(one.drop_last(), 10) == 0);
    assert(number(one, 10) == h);
    assert(number(two, 10) == h * 10 + t);
    assert(number(s, 10) == (h * 10 + t) * 10 + u);
    assert(s[0] != '+');
}

fn digit_text(d: u8) -> (r: &'static str)
    requires
        d < 10,
    ensures
        r@ == seq![decimal_digit(d as nat)],
{
    proof {
        reveal_strlit("0");
        reveal_strlit("1");
        reveal_strlit("2");
        reveal_strlit("3");
        reveal_strlit("4");
        reveal_strlit("5");
        reveal_strlit("6");
        reveal_strlit("7");
        reveal_strlit("8");
        reveal_strlit("9");
    }
    let r = if d == 0 {
        "0"
    } else if d == 1 {
        "1"
    } else if d == 2 {
        "2"
    } else if d == 3 {
        "3"
    } else if d == 4 {
        "4"
    } else if d == 5 {
        "5"
    } else if d == 6 {
        "6"
    } else if d == 7 {
        "7"
    } else if d == 8 {
        "8"
    } else {
        "9"
    };
    assert(r@ =~= seq![decimal_digit(d as nat)]);
    r
}

/// Writes `n` in decimal, filled with zeros on the left to three digits.
pub fn format_three_digits(n: u8) -> (r: String)
    ensures
        r@ == three_digits(n),
{
    let mut out = String::from_str(digit_text(n / 100));
    out.append(digit_text(n / 10 % 10));
    out.append(digit_text(n % 10));
    assert(out@ =~= three_digits(n));
    out
}

/// The index of the first `.` of `s`, or the length of `s` where it has
/// none.
pub open spec fn first_dot(s: Seq<char>) -> nat
    decreases s.len(),
{
    if s.len() == 0 || s[0] == '.' {
        0
    } else {
        1 + first_dot(s.drop_first())
    }
}

/// Where the first `.` of `s` is.
pub proof fn lemma_first_dot(s: Seq<char>, k: int)
    requires
        0 <= k <= s.len(),
        forall|i: int| 0 <= i < k ==> #[trigger] s[i] != '.',
        k < s.len() ==> s[k] == '.',
    ensures
        first_dot(s) == k,
    decreases k,
{
    if k > 0 {
        let t = s.drop_first();
        assert forall|i: int| 0 <= i < k - 1 implies #[trigger] t[i] != '.' by {
            assert(t[i] == s[i + 1]);
        }
        if k < s.len() {
            assert(t[k - 1] == s[k]);
        }
        lemma_first_dot(t, k - 1);
    }
}

/// The port chain that `s` writes: numbers of at most 255 in decimal, set
/// apart by `.`. One part that is no such number and the whole is no port
/// chain.
pub open spec fn port_chain(s: Seq<char>) -> Option<Seq<u8>>
    decreases s.len(),
{
    let k = first_dot(s) as int;
    match parse_unsigned(s.take(k), 10, 255) {
        None => None,
        Some(hop) => if k >= s.len() {
            Some(seq![hop as u8])
        } else {
            match port_chain(s.skip(k + 1)) {
                None => None,
                Some(rest) => Some(seq![hop as u8] + rest),
            }
        },
    }
}

/// How many `.` stand in `s`.
pub open spec fn dots(s: Seq<char>) -> nat
    decreases s.len(),
{
    if s.len() == 0 {
        0
    } else if s[0] == '.' {
        1 + dots(s.drop_first())
    } else {
        dots(s.drop_first())
    }
}

/// The first `.` of `s` lies within `s` and has the other `.` of `s`
/// behind it, or `s` has none.
pub proof fn lemma_dots_behind_first(s: Seq<char>)
    ensures
        first_dot(s) <= s.len(),
        first_dot(s) == s.len() ==> dots(s) == 0,
        first_dot(s) < s.len() ==> dots(s) == 1 + dots(s.skip(first_dot(s) as int + 1)),
    decreases s.len(),
{
    if s.len() == 0 {
    } else if s[0] == '.' {
        assert(s.skip(1) =~= s.drop_first());
    } else {
        let t = s.drop_first();
        lemma_dots_behind_first(t);
        if first_dot(t) < t.len() {
            assert(t.skip(first_dot(t) as int + 1) =~= s.skip(first_dot(s) as int + 1));
        }
    }
}

/// A port chain is had whole or not at all: it has one hop for each part
/// of the text, which is one more than the text has `.`.
pub proof fn lemma_port_chain_is_whole(s: Seq<char>)
    ensures
        port_chain(s) matches Some(hops) ==> hops.len() == dots(s) + 1,
    decreases s.len(),
{
    lemma_dots_behind_first(s);
    let k = first_dot(s) as int;
    if k < s.len() {
        lemma_port_chain_is_whole(s.skip(k + 1));
    }
}

/// Reads a port chain.
pub fn parse_port_chain(s: &str) -> (r: Option<Vec<u8>>)
    ensures
        match r {
            Some(hops) => port_chain(s@) == Some(hops@),
            None => port_chain(s@) is None,
        },
{
    let chars = chars_of(s);
    let n: usize = chars.len();
    let mut hops: Vec<u8> = Vec::new();
    let mut start: usize = 0;
    proof {
        assert(chars@.skip(0) =~= chars@);
        assert(Seq::<u8>::empty() + port_chain(chars@).unwrap() =~= port_chain(chars@).unwrap());
    }
    loop
        invariant
            n == chars@.len(),
            chars@ == s@,
            start <= n,
            port_chain(s@) == match port_chain(chars@.skip(start as int)) {
                None => None::<Seq<u8>>,
                Some(rest) => Some(hops@ + rest),
            },
        decreases n - start,
    {
        let ghost rest = chars@.skip(start as int);
        let mut end: usize = start;
        while end < n && chars[end] != '.'
            invariant
                n == chars@.len(),
                start <= end <= n,
                forall|i: int| start <= i < end ==> #[trigger] chars@[i] != '.',
            decreases n - end,
        {
            end += 1;
        }
        proof {
            assert forall|i: int| 0 <= i < end - start implies #[trigger] rest[i] != '.' by {
                assert(rest[i] == chars@[i + start]);
            }
            if end < n {
                assert(rest[end - start] == chars@[end as int]);
            }
            lemma_first_dot(rest, end - start);
            assert(rest.take(end - start) =~= chars@.subrange(start as int, end as int));
        }
        match parse_number_in(&chars, start, end, 10, 255) {
            None => {
                return None;
            },
            Some(hop) => {
                let ghost before = hops@;
                hops.push(hop as u8);
                if end == n {
                    proof {
                        assert(before + seq![hop as u8] =~= hops@);
                    }
                    return Some(hops);
                }
                proof {
                    assert(rest.skip(end - start + 1) =~= chars@.skip(end + 1));
                    let tail = port_chain(chars@.skip(end + 1));
                    if tail is Some {
                        assert(before + (seq![hop as u8] + tail.unwrap()) =~= hops@
                            + tail.unwrap());
                    }
                }
                start = end + 1;
            },
        }
    }
}

/// Whether `c` occurs in `s`.
pub fn contains_char(s: &str, c: char) -> (r: bool)
    ensures
        r == s@.contains(c),
{
    let chars = chars_of(s);
    let mut i: usize = 0;
    while i < chars.len()
        invariant
            i <= chars@.len(),
            chars@ == s@,
            forall|j: int| 0 <= j < i ==> chars@[j] != c,
        decreases chars@.len() - i,
    {
        if chars[i] == c {
            return true;
        }
        i += 1;
    }
    false
}

} // verus!
