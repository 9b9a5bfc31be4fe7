//! Decimal numbers written into and read out of text.
use vstd::prelude::*;

verus! {

/// The character of a decimal digit.
pub open spec fn digit_char(d: int) -> char {
    if d == 0 { '0' }
    else if d == 1 { '1' }
    else if d == 2 { '2' }
    else if d == 3 { '3' }
    else if d == 4 { '4' }
    else if d == 5 { '5' }
    else if d == 6 { '6' }
    else if d == 7 { '7' }
    else if d == 8 { '8' }
    else { '9' }
}

/// The decimal digits of a natural number, without leading zeros.
pub open spec fn digits_of(n: nat) -> Seq<char>
    decreases n,
{
    if n < 10 {
        seq![digit_char(n as int)]
    } else {
        digits_of(n / 10) + seq![digit_char((n % 10) as int)]
    }
}

/// An integer written in decimal, with a leading `-` when negative.
pub open spec fn decimal(n: int) -> Seq<char> {
    if n < 0 {
        seq!['-'] + digits_of((-n) as nat)
    } else {
        digits_of(n as nat)
    }
}

fn digit_str(d: u64) -> (s: &'static str)
    requires
        d < 10,
    ensures
        s@ == seq![digit_char(d as int)],
{
    let all = "0123456789";
    proof {
        reveal_strlit("0123456789");
    }
    let s = all.substring_char(d as usize, (d + 1) as usize);
    assert(s@ =~= seq![digit_char(d as int)]);
    s
}

fn digits_string(n: u64) -> (s: String)
    ensures
        s@ == digits_of(n as nat),
    decreases n,
{
    if n < 10 {
        String::from_str(digit_str(n))
    } else {
        let mut s = digits_string(n / 10);
        s.append(digit_str(n % 10));
        s
    }
}

/// Writes an integer in decimal.
pub fn decimal_string(n: i64) -> (s: String)
    ensures
        s@ == decimal(n as int),
{
    if n < 0 {
        let m: u64 = (0i128 - (n as i128)) as u64;
        let mut s = String::from_str("-");
        proof {
            reveal_strlit("-");
        }
        let d = digits_string(m);
        s.append(d.as_str());
        s
    } else {
        digits_string(n as u64)
    }
}

// ---------------------------------------------------------------------------------
// Reading numbers back.

/// Every character is an ASCII digit.
pub open spec fn all_digits(s: Seq<char>) -> bool {
    forall|i: int| 0 <= i < s.len() ==> '0' <= #[trigger] s[i] <= '9'
}

/// The value of a string of decimal digits.
pub open spec fn digits_value(s: Seq<char>) -> int
    decreases s.len(),
{
    if s.len() == 0 {
        0
    } else {
        digits_value(s.drop_last()) * 10 + (s.last() as int - '0' as int)
    }
}

/// What parsing text as an `i32` gives: an optional `+` or `-`, then one or more
/// decimal digits whose value fits in `i32`; `None` for anything else.
pub open spec fn parse_i32(s: Seq<char>) -> Option<i32> {
    let neg = s.len() > 0 && s[0] == '-';
    let signed = s.len() > 0 && (s[0] == '-' || s[0] == '+');
    let body = if signed { s.drop_first() } else { s };
    if body.len() == 0 || !all_digits(body) {
        None
    } else {
        let v = if neg { -digits_value(body) } else { digits_value(body) };
        if i32::MIN <= v <= i32::MAX {
            Some(v as i32)
        } else {
            None
        }
    }
}

/// The value of a sign-less digit string read as an `i32`, negated when `neg`.
pub open spec fn signed_body_value(body: Seq<char>, neg: bool) -> Option<i32> {
    if body.len() == 0 || !all_digits(body) {
        None
    } else {
        let v = if neg { -digits_value(body) } else { digits_value(body) };
        if i32::MIN <= v <= i32::MAX {
            Some(v as i32)
        } else {
            None
        }
    }
}

/// `s` with every leading copy of `prefix` removed.
pub open spec fn strip_prefix_all(s: Seq<char>, prefix: Seq<char>) -> Seq<char>
    decreases s.len(),
{
    if prefix.len() > 0 && prefix.len() <= s.len() && s.subrange(0, prefix.len() as int) == prefix {
        strip_prefix_all(s.subrange(prefix.len() as int, s.len() as int), prefix)
    } else {
        s
    }
}

proof fn lemma_digits_value_nonneg(s: Seq<char>)
    requires
        all_digits(s),
    ensures
        digits_value(s) >= 0,
    decreases s.len(),
{
    if s.len() > 0 {
        assert(all_digits(s.drop_last()));
        lemma_digits_value_nonneg(s.drop_last());
    }
}

proof fn lemma_digits_value_push(s: Seq<char>, c: char)
    ensures
        digits_value(s.push(c)) == digits_value(s) * 10 + (c as int - '0' as int),
{
    assert(s.push(c).drop_last() =~= s);
}

fn starts_with_at(s: &str, n: usize, prefix: &str, plen: usize, at: usize) -> (r: bool)
    requires
        n == s@.len(),
        plen == prefix@.len(),
        at <= n,
    ensures
        r == (plen <= n - at && s@.subrange(at as int, (at + plen) as int) == prefix@),
{
    if plen > n - at {
        return false;
    }
    let mut i: usize = 0;
    while i < plen
        invariant
            plen <= n - at,
            n == s@.len(),
            plen == prefix@.len(),
            i <= plen,
            forall|j: int| 0 <= j < i ==> s@[at + j] == prefix@[j],
        decreases plen - i,
    {
        if s.get_char(at + i) != prefix.get_char(i) {
            assert(s@.subrange(at as int, (at + plen) as int)[i as int] != prefix@[i as int]);
            return false;
        }
        i += 1;
    }
    assert(s@.subrange(at as int, (at + plen) as int) =~= prefix@);
    true
}

/// Reads the number that follows the leading copies of `prefix` in `name`, as a
/// recognition template name such as `current_meter120` carries its value.
pub fn template_value(name: &str, prefix: &str) -> (r: Option<i32>)
    ensures
        r == parse_i32(strip_prefix_all(name@, prefix@)),
{
    let n = name.unicode_len();
    let plen = prefix.unicode_len();
    let mut at: usize = 0;
    assert(name@.subrange(0, n as int) =~= name@);
    if plen > 0 {
        loop
            invariant
                n == name@.len(),
                plen == prefix@.len(),
                plen > 0,
                at <= n,
                strip_prefix_all(name@.subrange(at as int, n as int), prefix@) == strip_prefix_all(name@, prefix@),
            ensures
                at <= n,
                strip_prefix_all(name@.subrange(at as int, n as int), prefix@) == strip_prefix_all(name@, prefix@),
                strip_prefix_all(name@.subrange(at as int, n as int), prefix@) == name@.subrange(at as int, n as int),
            decreases n - at,
        {
            let ghost rest = name@.subrange(at as int, n as int);
            let more = starts_with_at(name, n, prefix, plen, at);
            if !more {
                proof {
                    if plen <= rest.len() {
                        assert(rest.subrange(0, plen as int) =~= name@.subrange(at as int, (at + plen) as int));
                    }
                }
                break;
            }
            assert(rest.subrange(0, plen as int) =~= name@.subrange(at as int, (at + plen) as int));
            assert(rest.subrange(plen as int, rest.len() as int) =~= name@.subrange((at + plen) as int, n as int));
            at = at + plen;
        }
    }
    parse_i32_from(name, n, at)
}

/// Parses `s[from..]` as an `i32`.
fn parse_i32_from(s: &str, n: usize, from: usize) -> (r: Option<i32>)
    requires
        n == s@.len(),
        from <= n,
    ensures
        r == parse_i32(s@.subrange(from as int, n as int)),
{
    let ghost t = s@.subrange(from as int, n as int);
    if from == n {
        return None;
    }
    let first = s.get_char(from);
    let neg = first == '-';
    let start = if first == '-' || first == '+' { from + 1 } else { from };
    let ghost body = s@.subrange(start as int, n as int);
    assert(t[0] == first);
    proof {
        if first == '-' || first == '+' {
            assert(t.drop_first() =~= body);
        } else {
            assert(t =~= body);
        }
    }
    assert(parse_i32(t) == signed_body_value(body, neg));
    if start == n {
        return None;
    }
    let mut v: i64 = 0;
    let mut i: usize = start;
    while i < n
        invariant
            start <= i <= n,
            n == s@.len(),
            body == s@.subrange(start as int, n as int),
            t == s@.subrange(from as int, n as int),
            parse_i32(t) == signed_body_value(body, neg),
            all_digits(s@.subrange(start as int, i as int)),
            v == digits_value(s@.subrange(start as int, i as int)),
            0 <= v <= 2147483648,
        decreases n - i,
    {
        let c = s.get_char(i);
        if !('0' <= c && c <= '9') {
            assert(body[i - start] == c);
            return None;
        }
        let d: i64 = (c as u32 - '0' as u32) as i64;
        proof {
            assert(s@.subrange(start as int, (i + 1) as int) =~= s@.subrange(start as int, i as int).push(c));
            lemma_digits_value_push(s@.subrange(start as int, i as int), c);
        }
        let nv = v * 10 + d;
        if nv > 2147483648 {
            proof {
                assert(body.subrange(0, (i + 1 - start) as int) =~= s@.subrange(start as int, (i + 1) as int));
                lemma_value_only_grows(body, (i + 1 - start) as int);
            }
            return None;
        }
        v = nv;
        i += 1;
    }
    assert(s@.subrange(start as int, n as int) =~= body);
    if neg {
        Some((0 - v) as i32)
    } else if v <= 2147483647 {
        Some(v as i32)
    } else {
        None
    }
}

/// Appending digits never lowers the value of a digit string.
proof fn lemma_value_only_grows(s: Seq<char>, k: int)
    requires
        0 <= k <= s.len(),
    ensures
        all_digits(s) ==> digits_value(s) >= digits_value(s.subrange(0, k)),
    decreases s.len(),
{
    if all_digits(s) {
        if k < s.len() {
            assert(all_digits(s.drop_last()));
            assert(s.drop_last().subrange(0, k) =~= s.subrange(0, k));
            lemma_value_only_grows(s.drop_last(), k);
            lemma_digits_value_nonneg(s.drop_last());
        } else {
            assert(s.subrange(0, k) =~= s);
        }
    }
}


// ---------------------------------------------------------------------------------
// Whitespace, case and words.

/// The characters Unicode calls white space, as `char::is_whitespace` knows them.
pub open spec fn is_ws(c: char) -> bool {
    ||| c == '\t'
    ||| c == '\n'
    ||| c == '\u{0B}'
    ||| c == '\u{0C}'
    ||| c == '\r'
    ||| c == ' '
    ||| c == '\u{85}'
    ||| c == '\u{A0}'
    ||| c == '\u{1680}'
    ||| ('\u{2000}' <= c && c <= '\u{200A}')
    ||| c == '\u{2028}'
    ||| c == '\u{2029}'
    ||| c == '\u{202F}'
    ||| c == '\u{205F}'
    ||| c == '\u{3000}'
}

/// Returns whether `c` is white space.
pub fn is_whitespace(c: char) -> (r: bool)
    ensures
        r == is_ws(c),
{
    c == '\t' || c == '\n' || c == '\u{0B}' || c == '\u{0C}' || c == '\r' || c == ' '
        || c == '\u{85}' || c == '\u{A0}' || c == '\u{1680}' || ('\u{2000}' <= c && c <= '\u{200A}')
        || c == '\u{2028}' || c == '\u{2029}' || c == '\u{202F}' || c == '\u{205F}'
        || c == '\u{3000}'
}

/// `s` without its leading white space.
pub open spec fn trim_start(s: Seq<char>) -> Seq<char>
    decreases s.len(),
{
    if s.len() > 0 && is_ws(s[0]) {
        trim_start(s.drop_first())
    } else {
        s
    }
}

/// `s` without its trailing white space.
pub open spec fn trim_end(s: Seq<char>) -> Seq<char>
    decreases s.len(),
{
    if s.len() > 0 && is_ws(s.last()) {
        trim_end(s.drop_last())
    } else {
        s
    }
}

/// `s` without its leading and trailing white space.
pub open spec fn trim(s: Seq<char>) -> Seq<char> {
    trim_end(trim_start(s))
}

/// Trimming the start keeps a suffix of the text.
pub proof fn lemma_trim_start_suffix(s: Seq<char>)
    ensures
        trim_start(s).len() <= s.len(),
        trim_start(s) == s.subrange(s.len() - trim_start(s).len(), s.len() as int),
        trim_start(s).len() > 0 ==> !is_ws(trim_start(s)[0]),
    decreases s.len(),
{
    if s.len() > 0 && is_ws(s[0]) {
        lemma_trim_start_suffix(s.drop_first());
        assert(s.drop_first().subrange(
            s.drop_first().len() - trim_start(s).len(),
            s.drop_first().len() as int,
        ) =~= s.subrange(s.len() - trim_start(s).len(), s.len() as int));
    } else {
        assert(s.subrange(0, s.len() as int) =~= s);
    }
}

fn trim_start_str(s: &str) -> (r: &str)
    ensures
        r@ == trim_start(s@),
    decreases s@.len(),
{
    let n = s.unicode_len();
    if n > 0 && is_whitespace(s.get_char(0)) {
        let rest = s.substring_char(1, n);
        assert(rest@ =~= s@.drop_first());
        trim_start_str(rest)
    } else {
        s
    }
}

fn trim_end_str(s: &str) -> (r: &str)
    ensures
        r@ == trim_end(s@),
    decreases s@.len(),
{
    let n = s.unicode_len();
    if n > 0 && is_whitespace(s.get_char(n - 1)) {
        let rest = s.substring_char(0, n - 1);
        assert(rest@ =~= s@.drop_last());
        trim_end_str(rest)
    } else {
        s
    }
}

/// Returns `s` without leading and trailing white space.
pub fn trim_str(s: &str) -> (r: &str)
    ensures
        r@ == trim(s@),
{
    trim_end_str(trim_start_str(s))
}

/// The code of `c` after ASCII upper-case letters are made lower case.
pub open spec fn ascii_lower(c: char) -> int {
    if 'A' <= c && c <= 'Z' {
        c as int + 32
    } else {
        c as int
    }
}

/// The two texts are equal when ASCII case is ignored.
pub open spec fn eq_ignore_ascii_case(a: Seq<char>, b: Seq<char>) -> bool {
    a.len() == b.len() && forall|i: int| 0 <= i < a.len() ==> ascii_lower(#[trigger] a[i]) == ascii_lower(b[i])
}

fn ascii_lower_exec(c: char) -> (r: u32)
    ensures
        r == ascii_lower(c),
{
    if 'A' <= c && c <= 'Z' {
        c as u32 + 32
    } else {
        c as u32
    }
}

/// Returns whether the two texts are equal when ASCII case is ignored.
pub fn str_eq_ignore_ascii_case(a: &str, b: &str) -> (r: bool)
    ensures
        r == eq_ignore_ascii_case(a@, b@),
{
    let n = a.unicode_len();
    if n != b.unicode_len() {
        return false;
    }
    let mut i: usize = 0;
    while i < n
        invariant
            n == a@.len(),
            n == b@.len(),
            i <= n,
            forall|j: int| 0 <= j < i ==> ascii_lower(#[trigger] a@[j]) == ascii_lower(b@[j]),
        decreases n - i,
    {
        if ascii_lower_exec(a.get_char(i)) != ascii_lower_exec(b.get_char(i)) {
            return false;
        }
        i += 1;
    }
    true
}

/// Where the word that starts `s` ends: the first white space, or the end.
pub open spec fn word_end(s: Seq<char>, i: int) -> int
    decreases s.len() - i,
{
    if i >= s.len() || is_ws(s[i]) {
        i
    } else {
        word_end(s, i + 1)
    }
}

/// A word runs from its start to the first white space.
pub proof fn lemma_word_end_bounds(s: Seq<char>, i: int)
    requires
        0 <= i <= s.len(),
    ensures
        i <= word_end(s, i) <= s.len(),
        forall|j: int| i <= j < word_end(s, i) ==> !is_ws(#[trigger] s[j]),
    decreases s.len() - i,
{
    if i < s.len() && !is_ws(s[i]) {
        lemma_word_end_bounds(s, i + 1);
    }
}

/// The words of `s`: the maximal runs of characters that are not white space, in order.
pub open spec fn words(s: Seq<char>) -> Seq<Seq<char>>
    decreases s.len(),
{
    let t = trim_start(s);
    if t.len() == 0 {
        seq![]
    } else {
        let e = word_end(t, 0);
        proof {
            lemma_trim_start_suffix(s);
            lemma_word_end_bounds(t, 0);
        }
        if 0 < e <= t.len() <= s.len() {
            seq![t.subrange(0, e)] + words(t.subrange(e, t.len() as int))
        } else {
            seq![]
        }
    }
}

fn word_end_exec(s: &str, n: usize) -> (e: usize)
    requires
        n == s@.len(),
    ensures
        e == word_end(s@, 0),
        e <= n,
{
    let mut i: usize = 0;
    while i < n && !is_whitespace(s.get_char(i))
        invariant
            n == s@.len(),
            i <= n,
            word_end(s@, i as int) == word_end(s@, 0),
        decreases n - i,
    {
        i += 1;
    }
    proof {
        lemma_word_end_bounds(s@, 0);
    }
    i
}

/// Returns the words of `s`.
pub fn split_words(s: &str) -> (v: Vec<String>)
    ensures
        v@.len() == words(s@).len(),
        forall|i: int| 0 <= i < v@.len() ==> #[trigger] v@[i]@ == words(s@)[i],
    decreases s@.len(),
{
    let t = trim_start_str(s);
    let n = t.unicode_len();
    proof {
        lemma_trim_start_suffix(s@);
    }
    if n == 0 {
        return Vec::new();
    }
    let e = word_end_exec(t, n);
    proof {
        lemma_word_end_bounds(t@, 0);
        lemma_word_end_bounds(t@, 1);
        assert(!is_ws(t@[0]));
        assert(word_end(t@, 0) == word_end(t@, 1));
    }
    let w = t.substring_char(0, e);
    let rest = t.substring_char(e, n);
    assert(words(s@) == seq![w@] + words(rest@));
    let mut tail = split_words(rest);
    let ghost before = tail@;
    tail.insert(0, String::from_str(w));
    proof {
        assert forall|i: int| 0 <= i < tail@.len() implies #[trigger] tail@[i]@ == words(s@)[i] by {
            if i > 0 {
                assert(tail@[i] == before[i - 1]);
            }
        }
    }
    tail
}


/// The digits of a number are one or more decimal digits whose value is the number.
pub proof fn lemma_digits_of(m: nat)
    ensures
        digits_of(m).len() >= 1,
        all_digits(digits_of(m)),
        digits_value(digits_of(m)) == m,
        '0' <= digits_of(m)[0] <= '9',
    decreases m,
{
    let d = (m % 10) as int;
    assert(digit_char(d) as int - '0' as int == d);
    vstd::arithmetic::div_mod::lemma_fundamental_div_mod(m as int, 10);
    if m < 10 {
        assert(seq![digit_char(d)].drop_last() =~= Seq::<char>::empty());
        assert(digits_value(Seq::<char>::empty()) == 0);
        assert(d == m);
    } else {
        lemma_digits_of(m / 10);
        let s = digits_of(m / 10);
        assert((s + seq![digit_char(d)]).drop_last() =~= s);
        assert((s + seq![digit_char(d)])[0] == s[0]);
        assert(digits_value(s + seq![digit_char(d)]) == digits_value(s) * 10 + d);
    }
}

/// A number written in decimal reads back as the same number.
pub proof fn lemma_decimal_round_trip(n: i32)
    ensures
        parse_i32(decimal(n as int)) == Some(n),
{
    if n < 0 {
        lemma_digits_of((-n) as nat);
        let s = seq!['-'] + digits_of((-n) as nat);
        assert(s.drop_first() =~= digits_of((-n) as nat));
    } else {
        lemma_digits_of(n as nat);
    }
}

/// A template named after a number by a prefix that starts with neither a digit nor
/// a minus sign reads back as that number.
pub proof fn lemma_template_name_round_trip(prefix: Seq<char>, n: i32)
    requires
        prefix.len() > 0,
        !('0' <= prefix[0] <= '9'),
        prefix[0] != '-',
    ensures
        parse_i32(strip_prefix_all(prefix + decimal(n as int), prefix)) == Some(n),
{
    let d = decimal(n as int);
    let name = prefix + d;
    assert(name.subrange(0, prefix.len() as int) =~= prefix);
    assert(name.subrange(prefix.len() as int, name.len() as int) =~= d);
    lemma_decimal_round_trip(n);
    if n < 0 {
        lemma_digits_of((-n) as nat);
    } else {
        lemma_digits_of(n as nat);
    }
    if prefix.len() <= d.len() {
        assert(d.subrange(0, prefix.len() as int)[0] == d[0]);
    }
    assert(strip_prefix_all(d, prefix) == d);
}

} // verus!
