//! Character-level text primitives. Strings are viewed as `Seq<char>`; the
//! executable functions work on `Vec<char>` and convert at the boundary.

use vstd::prelude::*;

verus! {

/// `String::push` of the standard library appends the character to the end
/// of the string.
pub assume_specification[ String::push ](s: &mut String, c: char)
    ensures
        final(s)@ == old(s)@.push(c),
;

/// The characters of `s`, in order.
pub fn chars_of(s: &str) -> (v: Vec<char>)
    ensures
        v@ == s@,
{
    let mut v: Vec<char> = Vec::new();
    for c in it: s.chars()
        invariant
            v@ == it.seq().take(it.index()),
            it.seq() == s@,
    {
        v.push(c);
    }
    v
}

/// The string made of the characters of `v`, in order.
pub fn string_of(v: &Vec<char>) -> (s: String)
    ensures
        s@ == v@,
{
    let mut s = String::new();
    let mut i: usize = 0;
    while i < v.len()
        invariant
            i <= v.len(),
            s@ == v@.take(i as int),
        decreases v.len() - i,
    {
        s.push(v[i]);
        i += 1;
    }
    s
}

/// Appends `part` to `out`.
pub fn push_all(out: &mut Vec<char>, part: &Vec<char>)
    ensures
        final(out)@ == old(out)@ + part@,
{
    let mut i: usize = 0;
    while i < part.len()
        invariant
            i <= part.len(),
            out@ == old(out)@ + part@.take(i as int),
        decreases part.len() - i,
    {
        out.push(part[i]);
        i += 1;
    }
}

/// Appends the characters of `s` to `out`.
pub fn push_str(out: &mut Vec<char>, s: &str)
    ensures
        final(out)@ == old(out)@ + s@,
{
    let part = chars_of(s);
    push_all(out, &part);
}

/// Whether two character vectors hold the same text.
pub fn same_text(a: &Vec<char>, b: &Vec<char>) -> (r: bool)
    ensures
        r == (a@ == b@),
{
    if a.len() != b.len() {
        return false;
    }
    let mut i: usize = 0;
    while i < a.len()
        invariant
            i <= a.len(),
            a.len() == b.len(),
            a@.take(i as int) == b@.take(i as int),
        decreases a.len() - i,
    {
        if a[i] != b[i] {
            return false;
        }
        assert(a@.take(i + 1) == a@.take(i as int).push(a@[i as int]));
        assert(b@.take(i + 1) == b@.take(i as int).push(b@[i as int]));
        i += 1;
    }
    assert(a@.take(a.len() as int) == a@);
    assert(b@.take(b.len() as int) == b@);
    true
}

/// `p` occurs in `s` at position `at`.
pub open spec fn occurs_at(s: Seq<char>, at: int, p: Seq<char>) -> bool {
    0 <= at && at + p.len() <= s.len() && s.subrange(at, at + p.len()) == p
}

/// `s` begins with `p`.
pub open spec fn has_prefix(s: Seq<char>, p: Seq<char>) -> bool {
    occurs_at(s, 0, p)
}

/// `s` ends with `p`.
pub open spec fn has_suffix(s: Seq<char>, p: Seq<char>) -> bool {
    occurs_at(s, s.len() - p.len(), p)
}

/// Whether `p` occurs in `s` at position `at`.
pub fn matches_at(s: &Vec<char>, at: usize, p: &Vec<char>) -> (r: bool)
    ensures
        r == occurs_at(s@, at as int, p@),
{
    if at > s.len() || p.len() > s.len() - at {
        return false;
    }
    let mut i: usize = 0;
    while i < p.len()
        invariant
            i <= p.len(),
            at + p.len() <= s.len(),
            s@.subrange(at as int, at + i) == p@.take(i as int),
        decreases p.len() - i,
    {
        if s[at + i] != p[i] {
            assert(s@.subrange(at as int, at + p.len())[i as int] != p@[i as int]);
            return false;
        }
        assert(s@.subrange(at as int, at + i + 1) == s@.subrange(at as int, at + i).push(
            s@[at + i],
        ));
        assert(p@.take(i + 1) == p@.take(i as int).push(p@[i as int]));
        i += 1;
    }
    assert(p@.take(p.len() as int) == p@);
    true
}

/// Whether `s` begins with `p`.
pub fn starts_with(s: &Vec<char>, p: &Vec<char>) -> (r: bool)
    ensures
        r == has_prefix(s@, p@),
{
    matches_at(s, 0, p)
}

/// Whether `s` ends with `p`.
pub fn ends_with(s: &Vec<char>, p: &Vec<char>) -> (r: bool)
    ensures
        r == has_suffix(s@, p@),
{
    if p.len() > s.len() {
        return false;
    }
    matches_at(s, s.len() - p.len(), p)
}

/// An ASCII capital letter becomes its small letter; any other character is
/// left alone.
pub open spec fn ascii_lower_char(c: char) -> char {
    if 'A' <= c && c <= 'Z' {
        ((c as u8) + 32) as char
    } else {
        c
    }
}

/// `s` with every ASCII capital letter made small.
pub open spec fn ascii_lower(s: Seq<char>) -> Seq<char> {
    Seq::new(s.len(), |i: int| ascii_lower_char(s[i]))
}

/// Lowercases the ASCII letters of `s`.
pub fn lowercase(s: &Vec<char>) -> (r: Vec<char>)
    ensures
        r@ == ascii_lower(s@),
{
    let mut r: Vec<char> = Vec::new();
    let mut i: usize = 0;
    while i < s.len()
        invariant
            i <= s.len(),
            r@ == ascii_lower(s@).take(i as int),
        decreases s.len() - i,
    {
        let c = s[i];
        let l = if 'A' <= c && c <= 'Z' {
            ((c as u8) + 32) as char
        } else {
            c
        };
        r.push(l);
        i += 1;
    }
    r
}

/// `s` with every occurrence of `pat` replaced by `rep`, searching from the
/// left and never inside text that a match has already covered. An empty `pat`
/// occurs before every character and at the end.
pub open spec fn replace_all(s: Seq<char>, pat: Seq<char>, rep: Seq<char>) -> Seq<char>
    decreases s.len(),
{
    if s.len() == 0 {
        if pat.len() == 0 {
            rep
        } else {
            s
        }
    } else if pat.len() == 0 {
        rep + seq![s[0]] + replace_all(s.skip(1), pat, rep)
    } else if has_prefix(s, pat) {
        rep + replace_all(s.skip(pat.len() as int), pat, rep)
    } else {
        seq![s[0]] + replace_all(s.skip(1), pat, rep)
    }
}

/// Replaces every occurrence of `pat` in `s` by `rep`.
pub fn replace(s: &Vec<char>, pat: &Vec<char>, rep: &Vec<char>) -> (r: Vec<char>)
    ensures
        r@ == replace_all(s@, pat@, rep@),
{
    let mut r: Vec<char> = Vec::new();
    let mut i: usize = 0;
    assert(s@.skip(0) == s@);
    assert(r@ + replace_all(s@, pat@, rep@) == replace_all(s@, pat@, rep@));
    while i < s.len()
        invariant
            i <= s.len(),
            r@ + replace_all(s@.skip(i as int), pat@, rep@) == replace_all(s@, pat@, rep@),
        decreases s.len() - i,
    {
        let ghost rest = s@.skip(i as int);
        let ghost before = r@;
        assert(rest.len() > 0 && rest[0] == s@[i as int]);
        if pat.len() == 0 {
            push_all(&mut r, rep);
            r.push(s[i]);
            assert(rest.skip(1) == s@.skip(i + 1));
            assert(r@ == before + (rep@ + seq![s@[i as int]]));
            assert(before + (rep@ + seq![s@[i as int]]) + replace_all(
                s@.skip(i + 1),
                pat@,
                rep@,
            ) == before + (rep@ + seq![s@[i as int]] + replace_all(s@.skip(i + 1), pat@, rep@)));
            i += 1;
        } else if matches_at(s, i, pat) {
            assert(has_prefix(rest, pat@)) by {
                assert(rest.subrange(0, pat@.len() as int) == s@.subrange(
                    i as int,
                    i + pat@.len(),
                ));
            }
            push_all(&mut r, rep);
            assert(rest.skip(pat@.len() as int) == s@.skip(i + pat@.len()));
            assert(before + rep@ + replace_all(s@.skip(i + pat@.len()), pat@, rep@) == before + (
            rep@ + replace_all(s@.skip(i + pat@.len()), pat@, rep@)));
            i += pat.len();
        } else {
            assert(!has_prefix(rest, pat@)) by {
                if rest.len() >= pat@.len() {
                    assert(rest.subrange(0, pat@.len() as int) == s@.subrange(
                        i as int,
                        i + pat@.len(),
                    ));
                }
            }
            r.push(s[i]);
            assert(rest.skip(1) == s@.skip(i + 1));
            assert(r@ == before + seq![s@[i as int]]);
            assert(before + seq![s@[i as int]] + replace_all(s@.skip(i + 1), pat@, rep@)
                == before + (seq![s@[i as int]] + replace_all(s@.skip(i + 1), pat@, rep@)));
            i += 1;
        }
    }
    assert(s@.skip(s.len() as int).len() == 0);
    if pat.len() == 0 {
        push_all(&mut r, rep);
    } else {
        assert(r@ + Seq::<char>::empty() == r@);
    }
    r
}

/// The texts of `parts` with `sep` between neighbours.
pub open spec fn join(parts: Seq<Seq<char>>, sep: Seq<char>) -> Seq<char>
    decreases parts.len(),
{
    if parts.len() == 0 {
        Seq::empty()
    } else if parts.len() == 1 {
        parts[0]
    } else {
        join(parts.drop_last(), sep) + sep + parts.last()
    }
}

/// The views of a sequence of strings.
pub open spec fn texts(parts: Seq<String>) -> Seq<Seq<char>> {
    Seq::new(parts.len(), |i: int| parts[i]@)
}

/// Joins `parts` with `sep` between neighbours.
pub fn join_strings(parts: &Vec<String>, sep: &str) -> (r: String)
    ensures
        r@ == join(texts(parts@), sep@),
{
    let mut out: Vec<char> = Vec::new();
    let mut i: usize = 0;
    while i < parts.len()
        invariant
            i <= parts.len(),
            out@ == join(texts(parts@).take(i as int), sep@),
        decreases parts.len() - i,
    {
        let ghost prefix = texts(parts@).take(i + 1);
        assert(prefix.drop_last() == texts(parts@).take(i as int));
        assert(prefix.last() == parts@[i as int]@);
        if i > 0 {
            push_str(&mut out, sep);
        } else {
            assert(out@ == Seq::<char>::empty());
            assert(Seq::<char>::empty() + parts@[i as int]@ == parts@[i as int]@);
        }
        push_str(&mut out, parts[i].as_str());
        i += 1;
    }
    assert(texts(parts@).take(parts.len() as int) == texts(parts@));
    string_of(&out)
}

/// The character that writes the digit `d` (small letters from ten on).
pub open spec fn digit_char(d: nat) -> char {
    if d < 10 {
        ((d + 48) as u8) as char
    } else {
        ((d + 87) as u8) as char
    }
}

/// `n` written in decimal, without sign or leading zeros.
pub open spec fn decimal(n: nat) -> Seq<char>
    decreases n,
{
    if n < 10 {
        seq![digit_char(n)]
    } else {
        decimal(n / 10).push(digit_char(n % 10))
    }
}

/// Appends `n` in decimal to `out`.
pub fn push_decimal(out: &mut Vec<char>, n: u64)
    ensures
        final(out)@ == old(out)@ + decimal(n as nat),
    decreases n,
{
    if n >= 10 {
        push_decimal(out, n / 10);
    }
    let d: u8 = (n % 10) as u8;
    out.push((d + 48) as char);
    assert(out@ == old(out)@ + decimal(n as nat)) by {
        if n >= 10 {
            assert(old(out)@ + decimal((n / 10) as nat).push(digit_char((n % 10) as nat))
                == (old(out)@ + decimal((n / 10) as nat)).push(digit_char((n % 10) as nat)));
        } else {
            assert(old(out)@ + seq![digit_char(n as nat)] == old(out)@.push(digit_char(n as nat)));
        }
    }
}

/// The characters of `s` from `from` up to, not including, `to`.
pub fn slice_of(s: &Vec<char>, from: usize, to: usize) -> (r: Vec<char>)
    requires
        from <= to <= s.len(),
    ensures
        r@ == s@.subrange(from as int, to as int),
{
    let mut r: Vec<char> = Vec::new();
    let mut i: usize = from;
    while i < to
        invariant
            from <= i <= to <= s.len(),
            r@ == s@.subrange(from as int, i as int),
        decreases to - i,
    {
        r.push(s[i]);
        i += 1;
    }
    r
}

/// The value of `c` as a digit in base `radix`: `0`-`9`, then letters of
/// either case from ten on. `None` if `c` is no digit of that base.
pub open spec fn digit_value(c: char, radix: nat) -> Option<nat> {
    let v: int = if '0' <= c && c <= '9' {
        c as int - 48
    } else if 'a' <= c && c <= 'z' {
        c as int - 87
    } else if 'A' <= c && c <= 'Z' {
        c as int - 55
    } else {
        -1
    };
    if 0 <= v && v < radix {
        Some(v as nat)
    } else {
        None
    }
}

/// The number that the digits `s` write in base `radix`, the first digit
/// weighing most. `None` if some character is no digit. No digits write zero.
pub open spec fn digits_value(s: Seq<char>, radix: nat) -> Option<nat>
    decreases s.len(),
{
    if s.len() == 0 {
        Some(0)
    } else {
        match (digits_value(s.drop_last(), radix), digit_value(s.last(), radix)) {
            (Some(high), Some(low)) => Some(high * radix + low),
            _ => None,
        }
    }
}

/// `s` without one leading plus sign.
pub open spec fn without_plus(s: Seq<char>) -> Seq<char> {
    if s.len() > 0 && s[0] == '+' {
        s.skip(1)
    } else {
        s
    }
}

/// The unsigned number that `s` writes in base `radix`: an optional plus
/// sign, then at least one digit, the value at most `max`. Anything else
/// (empty text, a minus sign, blanks, too large a value) is `None`.
pub open spec fn parse_unsigned(s: Seq<char>, radix: nat, max: nat) -> Option<nat> {
    let digits = without_plus(s);
    if digits.len() == 0 {
        None
    } else {
        match digits_value(digits, radix) {
            Some(v) => if v <= max {
                Some(v)
            } else {
                None
            },
            None => None,
        }
    }
}

/// A prefix of valid digits is valid and writes no more than the whole.
pub proof fn lemma_digits_prefix(s: Seq<char>, j: int, radix: nat)
    requires
        0 <= j <= s.len(),
        radix >= 1,
    ensures
        digits_value(s.take(j), radix) is None ==> digits_value(s, radix) is None,
        digits_value(s, radix) is Some ==> digits_value(s.take(j), radix) is Some
            && digits_value(s.take(j), radix)->0 <= digits_value(s, radix)->0,
    decreases s.len(),
{
    if j < s.len() {
        lemma_digits_prefix(s.drop_last(), j, radix);
        assert(s.drop_last().take(j) == s.take(j));
        if digits_value(s, radix) is Some {
            let high = digits_value(s.drop_last(), radix)->0;
            assert(high * radix >= high) by (nonlinear_arith)
                requires
                    radix >= 1,
                    high >= 0,
            ;
        }
    } else {
        assert(s.take(j) == s);
    }
}

/// The digit value of `c` in base `radix`, if it has one.
pub fn digit_of(c: char, radix: u32) -> (r: Option<u32>)
    requires
        radix <= 36,
    ensures
        match r {
            Some(d) => digit_value(c, radix as nat) == Some(d as nat) && d < radix,
            None => digit_value(c, radix as nat) is None,
        },
{
    let n: u32 = c as u32;
    let v: u32 = if '0' <= c && c <= '9' {
        n - 48
    } else if 'a' <= c && c <= 'z' {
        n - 87
    } else if 'A' <= c && c <= 'Z' {
        n - 55
    } else {
        return None;
    };
    if v < radix {
        Some(v)
    } else {
        None
    }
}

/// Reads an unsigned number in base `radix` that is at most `max`.
pub fn parse_number(s: &Vec<char>, radix: u32, max: u64) -> (r: Option<u64>)
    requires
        2 <= radix <= 36,
    ensures
        match r {
            Some(v) => parse_unsigned(s@, radix as nat, max as nat) == Some(v as nat),
            None => parse_unsigned(s@, radix as nat, max as nat) is None,
        },
{
    let start: usize = if s.len() > 0 && s[0] == '+' {
        1
    } else {
        0
    };
    let ghost digits = without_plus(s@);
    assert(digits == s@.skip(start as int));
    if start == s.len() {
        return None;
    }
    let mut acc: u64 = 0;
    let mut i: usize = start;
    assert(digits.take(0) == Seq::<char>::empty());
    while i < s.len()
        invariant
            start <= i <= s.len(),
            2 <= radix <= 36,
            digits == s@.skip(start as int),
            digits == without_plus(s@),
            digits.len() == s.len() - start,
            digits_value(digits.take(i - start), radix as nat) == Some(acc as nat),
            acc <= max,
        decreases s.len() - i,
    {
        let ghost prefix = digits.take(i - start + 1);
        assert(prefix.drop_last() == digits.take(i - start));
        assert(prefix.last() == s@[i as int]);
        match digit_of(s[i], radix) {
            None => {
                proof {
                    assert(digits_value(prefix, radix as nat) is None);
                    lemma_digits_prefix(digits, i - start + 1, radix as nat);
                }
                return None;
            },
            Some(d) => {
                assert(acc * radix <= u64::MAX * 36) by (nonlinear_arith)
                    requires
                        acc <= u64::MAX,
                        radix <= 36,
                ;
                let next: u128 = (acc as u128) * (radix as u128) + (d as u128);
                assert(digits_value(prefix, radix as nat) == Some(next as nat));
                if next > max as u128 {
                    proof {
                        lemma_digits_prefix(digits, i - start + 1, radix as nat);
                    }
                    return None;
                }
                acc = next as u64;
            },
        }
        i += 1;
    }
    assert(digits.take(s.len() - start) == digits);
    Some(acc)
}

/// White space as Unicode defines it: the characters with the property
/// `White_Space`.
pub open spec fn is_whitespace(c: char) -> bool {
    let n = c as u32;
    ||| (0x09 <= n && n <= 0x0D)
    ||| n == 0x20
    ||| n == 0x85
    ||| n == 0xA0
    ||| n == 0x1680
    ||| (0x2000 <= n && n <= 0x200A)
    ||| n == 0x2028
    ||| n == 0x2029
    ||| n == 0x202F
    ||| n == 0x205F
    ||| n == 0x3000
}

/// Whether `c` is white space.
pub fn whitespace(c: char) -> (r: bool)
    ensures
        r == is_whitespace(c),
{
    let n: u32 = c as u32;
    (0x09 <= n && n <= 0x0D) || n == 0x20 || n == 0x85 || n == 0xA0 || n == 0x1680 || (0x2000 <= n
        && n <= 0x200A) || n == 0x2028 || n == 0x2029 || n == 0x202F || n == 0x205F || n == 0x3000
}

/// Every character of `s` is white space.
pub open spec fn is_blank(s: Seq<char>) -> bool {
    forall|i: int| 0 <= i < s.len() ==> is_whitespace(#[trigger] s[i])
}

/// Whether `s` holds nothing but white space.
pub fn blank(s: &Vec<char>) -> (r: bool)
    ensures
        r == is_blank(s@),
{
    let mut i: usize = 0;
    while i < s.len()
        invariant
            i <= s.len(),
            forall|j: int| 0 <= j < i ==> is_whitespace(#[trigger] s@[j]),
        decreases s.len() - i,
    {
        if !whitespace(s[i]) {
            return false;
        }
        i += 1;
    }
    true
}

/// `s` without its leading run of the character `c`.
pub open spec fn without_leading(s: Seq<char>, c: char) -> Seq<char>
    decreases s.len(),
{
    if s.len() > 0 && s[0] == c {
        without_leading(s.skip(1), c)
    } else {
        s
    }
}

/// Drops the leading run of `c` from `s`.
pub fn strip_leading(s: &Vec<char>, c: char) -> (r: Vec<char>)
    ensures
        r@ == without_leading(s@, c),
{
    let mut i: usize = 0;
    assert(s@.skip(0) == s@);
    while i < s.len() && s[i] == c
        invariant
            i <= s.len(),
            without_leading(s@, c) == without_leading(s@.skip(i as int), c),
        decreases s.len() - i,
    {
        assert(s@.skip(i as int).skip(1) == s@.skip(i + 1));
        i += 1;
    }
    slice_of(s, i, s.len())
}

/// The least position of `c` in `s`.
pub open spec fn first_index(s: Seq<char>, c: char) -> Option<int>
    decreases s.len(),
{
    if s.len() == 0 {
        None
    } else if s[0] == c {
        Some(0)
    } else {
        match first_index(s.skip(1), c) {
            Some(i) => Some(i + 1),
            None => None,
        }
    }
}

/// The greatest position of `c` in `s`.
pub open spec fn last_index(s: Seq<char>, c: char) -> Option<int>
    decreases s.len(),
{
    if s.len() == 0 {
        None
    } else if s.last() == c {
        Some(s.len() - 1)
    } else {
        last_index(s.drop_last(), c)
    }
}

/// `first_index` is the position before which `c` does not occur.
pub proof fn lemma_first_index(s: Seq<char>, c: char, i: int)
    requires
        0 <= i <= s.len(),
        forall|j: int| 0 <= j < i ==> s[j] != c,
        i < s.len() ==> s[i] == c,
    ensures
        first_index(s, c) == (if i < s.len() {
            Some(i)
        } else {
            None
        }),
    decreases i,
{
    if i > 0 {
        assert(s[0] != c);
        assert forall|j: int| 0 <= j < i - 1 implies s.skip(1)[j] != c by {
            assert(s.skip(1)[j] == s[j + 1]);
        }
        lemma_first_index(s.skip(1), c, i - 1);
    }
}

/// `last_index` is the position after which `c` does not occur; `i` is
/// `-1` when `c` does not occur at all.
pub proof fn lemma_last_index(s: Seq<char>, c: char, i: int)
    requires
        -1 <= i < s.len(),
        forall|j: int| i < j < s.len() ==> s[j] != c,
        0 <= i ==> s[i] == c,
    ensures
        last_index(s, c) == (if 0 <= i {
            Some(i)
        } else {
            None
        }),
    decreases s.len(),
{
    if s.len() > 0 && i < s.len() - 1 {
        assert(s.last() != c);
        lemma_last_index(s.drop_last(), c, i);
    }
}

/// Finds the first `c` in `s`.
pub fn find_first(s: &Vec<char>, c: char) -> (r: Option<usize>)
    ensures
        match r {
            Some(i) => first_index(s@, c) == Some(i as int) && i < s.len(),
            None => first_index(s@, c) is None,
        },
{
    let mut i: usize = 0;
    while i < s.len() && s[i] != c
        invariant
            i <= s.len(),
            forall|j: int| 0 <= j < i ==> s@[j] != c,
        decreases s.len() - i,
    {
        i += 1;
    }
    proof {
        lemma_first_index(s@, c, i as int);
    }
    if i < s.len() {
        Some(i)
    } else {
        None
    }
}

/// Finds the last `c` in `s`.
pub fn find_last(s: &Vec<char>, c: char) -> (r: Option<usize>)
    ensures
        match r {
            Some(i) => last_index(s@, c) == Some(i as int) && i < s.len(),
            None => last_index(s@, c) is None,
        },
{
    let mut i: usize = s.len();
    while i > 0 && s[i - 1] != c
        invariant
            i <= s.len(),
            forall|j: int| i <= j < s.len() ==> s@[j] != c,
        decreases i,
    {
        i -= 1;
    }
    proof {
        lemma_last_index(s@, c, i - 1);
    }
    if i > 0 {
        Some(i - 1)
    } else {
        None
    }
}

/// Whether `s` spells the literal `lit`.
pub fn text_is(s: &Vec<char>, lit: &str) -> (r: bool)
    ensures
        r == (s@ == lit@),
{
    let l = chars_of(lit);
    same_text(s, &l)
}

/// Replacing a pattern that is not empty by text that is not empty leaves
/// an empty text empty and any other text not empty.
pub proof fn lemma_replace_keeps_emptiness(s: Seq<char>, pat: Seq<char>, rep: Seq<char>)
    requires
        pat.len() > 0,
        rep.len() > 0,
    ensures
        (replace_all(s, pat, rep).len() == 0) == (s.len() == 0),
{
}

} // verus!
