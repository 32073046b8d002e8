//! Character-level text utilities: HTML escaping, decimal integers,
//! whitespace handling, comma-separated lists and placeholder substitution.
use vstd::prelude::*;

verus! {

// ----------------------------------------------------------------------
// HTML escaping
// ----------------------------------------------------------------------

/// What a single character becomes once escaped for HTML markup.
pub open spec fn escape_char(c: char) -> Seq<char> {
    if c == '&' {
        seq!['&', 'a', 'm', 'p', ';']
    } else if c == '<' {
        seq!['&', 'l', 't', ';']
    } else if c == '>' {
        seq!['&', 'g', 't', ';']
    } else {
        seq![c]
    }
}

/// The text `s` with `&`, `<` and `>` replaced by their entities.
pub open spec fn escaped(s: Seq<char>) -> Seq<char>
    decreases s.len(),
{
    if s.len() == 0 {
        Seq::empty()
    } else {
        escaped(s.drop_last()) + escape_char(s.last())
    }
}

/// The one-character string holding `s@[i]`.
pub fn char_at(s: &str, i: usize) -> (r: &str)
    requires
        i < s@.len() <= usize::MAX,
    ensures
        r@ == seq![s@[i as int]],
{
    let r = s.substring_char(i, i + 1);
    assert(r@ =~= seq![s@[i as int]]);
    r
}

/// Escapes `&`, `<` and `>` (and nothing else) so that `s` can be embedded
/// in HTML markup.
pub fn escape_html(s: &str) -> (r: String)
    ensures
        r@ == escaped(s@),
{
    let n = s.unicode_len();
    let mut r = String::new();
    let mut i: usize = 0;
    while i < n
        invariant
            n == s@.len(),
            i <= n,
            r@ == escaped(s@.subrange(0, i as int)),
        decreases n - i,
    {
        let c = s.get_char(i);
        proof {
            reveal_strlit("&amp;");
            reveal_strlit("&lt;");
            reveal_strlit("&gt;");
            assert(s@.subrange(0, i + 1).drop_last() =~= s@.subrange(0, i as int));
        }
        if c == '&' {
            r.append("&amp;");
            assert("&amp;"@ =~= escape_char(c));
        } else if c == '<' {
            r.append("&lt;");
            assert("&lt;"@ =~= escape_char(c));
        } else if c == '>' {
            r.append("&gt;");
            assert("&gt;"@ =~= escape_char(c));
        } else {
            r.append(char_at(s, i));
        }
        i += 1;
    }
    assert(s@.subrange(0, n as int) =~= s@);
    r
}

/// Escaped text never holds a raw `<` or `>`: every user-controlled angle
/// bracket has become an entity.
pub proof fn lemma_escaped_has_no_angle_brackets(s: Seq<char>)
    ensures
        forall|i: int| 0 <= i < escaped(s).len() ==> escaped(s)[i] != '<' && escaped(s)[i] != '>',
    decreases s.len(),
{
    if s.len() > 0 {
        lemma_escaped_has_no_angle_brackets(s.drop_last());
        let e = escaped(s);
        let p = escaped(s.drop_last());
        let t = escape_char(s.last());
        assert forall|i: int| 0 <= i < e.len() implies e[i] != '<' && e[i] != '>' by {
            if i >= p.len() {
                assert(e[i] == t[i - p.len()]);
            } else {
                assert(e[i] == p[i]);
            }
        }
    }
}

// ----------------------------------------------------------------------
// Decimal integers
// ----------------------------------------------------------------------

/// The ASCII digit for `d`, where `0 <= d < 10`.
pub open spec fn digit_char(d: int) -> char {
    if d == 0 {
        '0'
    } else if d == 1 {
        '1'
    } else if d == 2 {
        '2'
    } else if d == 3 {
        '3'
    } else if d == 4 {
        '4'
    } else if d == 5 {
        '5'
    } else if d == 6 {
        '6'
    } else if d == 7 {
        '7'
    } else if d == 8 {
        '8'
    } else {
        '9'
    }
}

/// Decimal digits of `n`, most significant first, without leading zeros.
pub open spec fn nat_text(n: nat) -> Seq<char>
    decreases n,
{
    if n < 10 {
        seq![digit_char(n as int)]
    } else {
        nat_text(n / 10).push(digit_char((n % 10) as int))
    }
}

/// Decimal text of `n`, with a leading `-` when negative.
pub open spec fn int_text(n: int) -> Seq<char> {
    if n < 0 {
        seq!['-'] + nat_text((-n) as nat)
    } else {
        nat_text(n as nat)
    }
}

fn digit_str(d: u64) -> (r: &'static str)
    requires
        d < 10,
    ensures
        r@ == seq![digit_char(d as int)],
{
    proof {
        reveal_strlit("0123456789");
    }
    let r = char_at("0123456789", d as usize);
    r
}

/// Decimal text of an unsigned integer.
pub fn u64_to_text(n: u64) -> (r: String)
    ensures
        r@ == nat_text(n as nat),
    decreases n,
{
    if n < 10 {
        let mut r = String::new();
        r.append(digit_str(n));
        r
    } else {
        let mut r = u64_to_text(n / 10);
        r.append(digit_str(n % 10));
        r
    }
}

/// Decimal text of a signed integer, as `{}` and `{:?}` print it.
pub fn i64_to_text(n: i64) -> (r: String)
    ensures
        r@ == int_text(n as int),
{
    if n < 0 {
        let m: u64 = (-(n as i128)) as u64;
        let d = u64_to_text(m);
        let mut r = String::new();
        r.append("-");
        proof {
            reveal_strlit("-");
        }
        r.append(d.as_str());
        r
    } else {
        u64_to_text(n as u64)
    }
}

pub open spec fn is_digit(c: char) -> bool {
    '0' <= c && c <= '9'
}

pub open spec fn digit_value(c: char) -> int {
    (c as u32) as int - ('0' as u32) as int
}

pub open spec fn all_digits(s: Seq<char>) -> bool {
    s.len() > 0 && forall|i: int| 0 <= i < s.len() ==> is_digit(s[i])
}

/// Value of a run of decimal digits.
pub open spec fn digits_value(s: Seq<char>) -> int
    decreases s.len(),
{
    if s.len() == 0 {
        0
    } else {
        digits_value(s.drop_last()) * 10 + digit_value(s.last())
    }
}

/// The integer that `s` spells: an optional `+` or `-`, then one or more
/// ASCII digits, and nothing else.
pub open spec fn decimal_value(s: Seq<char>) -> Option<int> {
    if s.len() > 0 && s[0] == '-' && all_digits(s.drop_first()) {
        Some(-digits_value(s.drop_first()))
    } else if s.len() > 0 && s[0] == '+' && all_digits(s.drop_first()) {
        Some(digits_value(s.drop_first()))
    } else if all_digits(s) {
        Some(digits_value(s))
    } else {
        None
    }
}

/// The `i64` that `s` spells, if it spells one in range.
pub open spec fn parsed_i64(s: Seq<char>) -> Option<i64> {
    match decimal_value(s) {
        Some(v) => if i64::MIN <= v <= i64::MAX {
            Some(v as i64)
        } else {
            None
        },
        None => None,
    }
}

proof fn lemma_digits_value_grows(s: Seq<char>, i: int)
    requires
        0 <= i <= s.len(),
        forall|k: int| 0 <= k < s.len() ==> is_digit(s[k]),
    ensures
        digits_value(s.subrange(0, i)) <= digits_value(s),
    decreases s.len(),
{
    if i == s.len() {
        assert(s.subrange(0, i) =~= s);
    } else {
        lemma_digits_value_grows(s.drop_last(), i);
        assert(s.drop_last().subrange(0, i) =~= s.subrange(0, i));
        lemma_digits_value_nonneg(s.drop_last());
    }
}

proof fn lemma_digits_value_nonneg(s: Seq<char>)
    requires
        forall|k: int| 0 <= k < s.len() ==> is_digit(s[k]),
    ensures
        0 <= digits_value(s),
    decreases s.len(),
{
    if s.len() > 0 {
        lemma_digits_value_nonneg(s.drop_last());
    }
}

/// Reads the digits of `s` from position `start` on; `None` when one of
/// them is not a digit, when there are none, or when the value exceeds
/// `limit`.
fn digits_from(s: &str, start: usize, limit: u64) -> (r: Option<u64>)
    requires
        start <= s@.len(),
    ensures
        ({
            let t = s@.subrange(start as int, s@.len() as int);
            match r {
                Some(v) => all_digits(t) && v == digits_value(t) && v <= limit,
                None => !all_digits(t) || digits_value(t) > limit,
            }
        }),
{
    let n = s.unicode_len();
    if start == n {
        return None;
    }
    let ghost t = s@.subrange(start as int, n as int);
    let mut acc: u128 = 0;
    let mut i: usize = start;
    while i < n
        invariant
            n == s@.len(),
            start < n,
            start <= i <= n,
            t == s@.subrange(start as int, n as int),
            acc <= limit,
            forall|k: int| 0 <= k < i - start ==> is_digit(t[k]),
            acc == digits_value(t.subrange(0, i - start)),
        decreases n - i,
    {
        let c = s.get_char(i);
        assert(t[i - start] == c);
        if !('0' <= c && c <= '9') {
            return None;
        }
        let d: u128 = (c as u32 - '0' as u32) as u128;
        assert(t.subrange(0, i + 1 - start).drop_last() =~= t.subrange(0, i - start));
        acc = acc * 10 + d;
        i += 1;
        if acc > limit as u128 {
            proof {
                if all_digits(t) {
                    lemma_digits_value_grows(t, i - start);
                }
            }
            return None;
        }
    }
    assert(t.subrange(0, n - start) =~= t);
    Some(acc as u64)
}

/// Parses `s` as an `i64` the way `str::parse::<i64>` does: an optional
/// sign followed by at least one ASCII digit, rejecting out-of-range values.
pub fn parse_i64(s: &str) -> (r: Option<i64>)
    ensures
        r == parsed_i64(s@),
{
    let n = s.unicode_len();
    let limit: u64 = 9223372036854775808;
    if n > 0 && (s.get_char(0) == '-' || s.get_char(0) == '+') {
        let neg = s.get_char(0) == '-';
        assert(s@.subrange(1, n as int) =~= s@.drop_first());
        proof {
            assert(!all_digits(s@)) by {
                assert(!is_digit(s@[0]));
            }
        }
        match digits_from(s, 1, limit) {
            Some(v) => {
                if neg {
                    Some((-(v as i128)) as i64)
                } else if v <= 9223372036854775807 {
                    Some(v as i64)
                } else {
                    None
                }
            },
            None => None,
        }
    } else {
        assert(s@.subrange(0, n as int) =~= s@);
        match digits_from(s, 0, limit) {
            Some(v) => {
                if v <= 9223372036854775807 {
                    Some(v as i64)
                } else {
                    None
                }
            },
            None => None,
        }
    }
}

// ----------------------------------------------------------------------
// Whitespace
// ----------------------------------------------------------------------

/// The characters with the Unicode `White_Space` property, which
/// `char::is_whitespace` recognises.
pub open spec fn is_space(c: char) -> bool {
    ('\u{9}' <= c && c <= '\u{d}') || c == ' ' || c == '\u{85}' || c == '\u{a0}' || c
        == '\u{1680}' || ('\u{2000}' <= c && c <= '\u{200a}') || c == '\u{2028}' || c
        == '\u{2029}' || c == '\u{202f}' || c == '\u{205f}' || c == '\u{3000}'
}

pub fn is_space_char(c: char) -> (r: bool)
    ensures
        r == is_space(c),
{
    ('\u{9}' <= c && c <= '\u{d}') || c == ' ' || c == '\u{85}' || c == '\u{a0}' || c
        == '\u{1680}' || ('\u{2000}' <= c && c <= '\u{200a}') || c == '\u{2028}' || c
        == '\u{2029}' || c == '\u{202f}' || c == '\u{205f}' || c == '\u{3000}'
}

/// `s` without its leading whitespace.
pub open spec fn trim_start(s: Seq<char>) -> Seq<char>
    decreases s.len(),
{
    if s.len() > 0 && is_space(s[0]) {
        trim_start(s.drop_first())
    } else {
        s
    }
}

/// `s` without its trailing whitespace.
pub open spec fn trim_end(s: Seq<char>) -> Seq<char>
    decreases s.len(),
{
    if s.len() > 0 && is_space(s.last()) {
        trim_end(s.drop_last())
    } else {
        s
    }
}

/// `s` without leading and trailing whitespace, as `str::trim` gives it.
pub open spec fn trimmed(s: Seq<char>) -> Seq<char> {
    trim_end(trim_start(s))
}

/// The position of the first non-whitespace character of `s` at or after
/// `from`, or the length of `s`.
fn skip_space(s: &str, from: usize) -> (i: usize)
    requires
        from <= s@.len(),
    ensures
        from <= i <= s@.len(),
        trim_start(s@.subrange(from as int, s@.len() as int)) == s@.subrange(
            i as int,
            s@.len() as int,
        ),
{
    let n = s.unicode_len();
    let mut i = from;
    while i < n && is_space_char(s.get_char(i))
        invariant
            n == s@.len(),
            from <= i <= n,
            trim_start(s@.subrange(from as int, n as int)) == trim_start(
                s@.subrange(i as int, n as int),
            ),
        decreases n - i,
    {
        assert(s@.subrange(i as int, n as int).drop_first() =~= s@.subrange(i + 1, n as int));
        i += 1;
    }
    i
}

/// Returns `s` without leading and trailing whitespace.
pub fn trim(s: &str) -> (r: String)
    ensures
        r@ == trimmed(s@),
{
    let n = s.unicode_len();
    assert(s@.subrange(0, n as int) =~= s@);
    let i = skip_space(s, 0);
    let mut j = n;
    while j > i && is_space_char(s.get_char(j - 1))
        invariant
            n == s@.len(),
            i <= j <= n,
            trim_start(s@) == s@.subrange(i as int, n as int),
            trim_end(s@.subrange(i as int, n as int)) == trim_end(s@.subrange(i as int, j as int)),
        decreases j,
    {
        assert(s@.subrange(i as int, j as int).drop_last() =~= s@.subrange(i as int, j - 1));
        j -= 1;
    }
    s.substring_char(i, j).to_owned()
}

/// The leading run of non-whitespace characters of `s`.
pub open spec fn take_word(s: Seq<char>) -> Seq<char>
    decreases s.len(),
{
    if s.len() == 0 || is_space(s[0]) {
        Seq::empty()
    } else {
        seq![s[0]] + take_word(s.drop_first())
    }
}

/// What follows the leading run of non-whitespace characters of `s`.
pub open spec fn after_word(s: Seq<char>) -> Seq<char>
    decreases s.len(),
{
    if s.len() == 0 || is_space(s[0]) {
        s
    } else {
        after_word(s.drop_first())
    }
}

/// The first whitespace-separated word of `s`, and the text after it:
/// one step of `str::split_whitespace`. The word is empty when `s` holds
/// only whitespace.
pub fn next_word(s: &str) -> (r: (String, String))
    ensures
        r.0@ == take_word(trim_start(s@)),
        r.1@ == after_word(trim_start(s@)),
{
    let n = s.unicode_len();
    assert(s@.subrange(0, n as int) =~= s@);
    let i = skip_space(s, 0);
    let mut j = i;
    while j < n && !is_space_char(s.get_char(j))
        invariant
            n == s@.len(),
            i <= j <= n,
            take_word(s@.subrange(i as int, n as int)) == s@.subrange(i as int, j as int) + take_word(
                s@.subrange(j as int, n as int),
            ),
            after_word(s@.subrange(i as int, n as int)) == after_word(
                s@.subrange(j as int, n as int),
            ),
        decreases n - j,
    {
        assert(s@.subrange(j as int, n as int).drop_first() =~= s@.subrange(j + 1, n as int));
        assert(s@.subrange(i as int, j + 1) =~= s@.subrange(i as int, j as int) + seq![
            s@[j as int],
        ]);
        j += 1;
    }
    assert(s@.subrange(i as int, j as int) + take_word(s@.subrange(j as int, n as int))
        =~= s@.subrange(i as int, j as int));
    (s.substring_char(i, j).to_owned(), s.substring_char(j, n).to_owned())
}

// ----------------------------------------------------------------------
// Comma-separated lists
// ----------------------------------------------------------------------

/// The pieces of `s` between commas, as `str::split(',')` yields them:
/// always at least one, possibly empty.
pub open spec fn comma_fields(s: Seq<char>) -> Seq<Seq<char>>
    decreases s.len(),
{
    if s.len() == 0 {
        seq![Seq::empty()]
    } else {
        let prev = comma_fields(s.drop_last());
        if s.last() == ',' {
            prev.push(Seq::empty())
        } else {
            prev.update(prev.len() - 1, prev.last().push(s.last()))
        }
    }
}

proof fn lemma_comma_fields_nonempty(s: Seq<char>)
    ensures
        comma_fields(s).len() >= 1,
    decreases s.len(),
{
    if s.len() > 0 {
        lemma_comma_fields_nonempty(s.drop_last());
    }
}

/// Splits `s` at every comma.
pub fn split_commas(s: &str) -> (r: Vec<String>)
    ensures
        r@.len() == comma_fields(s@).len(),
        forall|k: int| 0 <= k < r@.len() ==> r@[k]@ == comma_fields(s@)[k],
{
    let n = s.unicode_len();
    let mut done: Vec<String> = Vec::new();
    let mut cur = String::new();
    let mut i: usize = 0;
    while i < n
        invariant
            n == s@.len(),
            i <= n,
            comma_fields(s@.subrange(0, i as int)).len() == done@.len() + 1,
            forall|k: int|
                0 <= k < done@.len() ==> done@[k]@ == comma_fields(s@.subrange(0, i as int))[k],
            cur@ == comma_fields(s@.subrange(0, i as int)).last(),
        decreases n - i,
    {
        let c = s.get_char(i);
        proof {
            assert(s@.subrange(0, i + 1).drop_last() =~= s@.subrange(0, i as int));
            lemma_comma_fields_nonempty(s@.subrange(0, i as int));
        }
        if c == ',' {
            done.push(cur);
            cur = String::new();
        } else {
            cur.append(char_at(s, i));
        }
        i += 1;
    }
    done.push(cur);
    assert(s@.subrange(0, n as int) =~= s@);
    done
}

// ----------------------------------------------------------------------
// Placeholder substitution
// ----------------------------------------------------------------------

/// `s` with every non-overlapping occurrence of `pat`, scanned left to
/// right, replaced by `rep`, as `str::replace` does for a non-empty `pat`.
pub open spec fn replaced(s: Seq<char>, pat: Seq<char>, rep: Seq<char>) -> Seq<char>
    decreases s.len(),
{
    if pat.len() == 0 || s.len() < pat.len() {
        s
    } else if s.subrange(0, pat.len() as int) == pat {
        rep + replaced(s.subrange(pat.len() as int, s.len() as int), pat, rep)
    } else {
        seq![s[0]] + replaced(s.drop_first(), pat, rep)
    }
}

/// Whether `pat` occurs in `s` at position `i`.
pub fn occurs_at(s: &str, i: usize, pat: &str) -> (r: bool)
    requires
        i <= s@.len(),
    ensures
        r == (i + pat@.len() <= s@.len() && s@.subrange(i as int, i + pat@.len()) == pat@),
{
    let n = s.unicode_len();
    let m = pat.unicode_len();
    if m > n - i {
        return false;
    }
    let mut k: usize = 0;
    while k < m
        invariant
            n == s@.len(),
            m == pat@.len(),
            i + m <= n,
            k <= m,
            forall|t: int| 0 <= t < k ==> s@[i + t] == pat@[t],
        decreases m - k,
    {
        if s.get_char(i + k) != pat.get_char(k) {
            assert(s@.subrange(i as int, i + m)[k as int] != pat@[k as int]);
            return false;
        }
        k += 1;
    }
    assert(s@.subrange(i as int, i + m) =~= pat@);
    true
}

/// Whether `s` begins with `p`.
pub fn starts_with(s: &str, p: &str) -> (r: bool)
    ensures
        r == (p@.len() <= s@.len() && s@.subrange(0, p@.len() as int) == p@),
{
    occurs_at(s, 0, p)
}

/// Whether `a` and `b` hold the same characters.
pub fn text_eq(a: &str, b: &str) -> (r: bool)
    ensures
        r == (a@ == b@),
{
    if a.unicode_len() != b.unicode_len() {
        return false;
    }
    let r = occurs_at(a, 0, b);
    assert(a@.subrange(0, b@.len() as int) =~= a@);
    r
}

/// Replaces every occurrence of the non-empty `pat` in `s` by `rep`.
pub fn replace_all(s: &str, pat: &str, rep: &str) -> (r: String)
    requires
        pat@.len() > 0,
    ensures
        r@ == replaced(s@, pat@, rep@),
{
    let n = s.unicode_len();
    let m = pat.unicode_len();
    let mut r = String::new();
    let mut i: usize = 0;
    assert(s@.subrange(0, n as int) =~= s@);
    while i < n
        invariant
            n == s@.len(),
            m == pat@.len(),
            m > 0,
            i <= n,
            r@ + replaced(s@.subrange(i as int, n as int), pat@, rep@) == replaced(
                s@,
                pat@,
                rep@,
            ),
        decreases n - i,
    {
        let ghost rest = s@.subrange(i as int, n as int);
        if occurs_at(s, i, pat) {
            assert(rest.subrange(0, m as int) =~= s@.subrange(i as int, i + m));
            assert(rest.subrange(m as int, rest.len() as int) =~= s@.subrange(i + m, n as int));
            let ghost r0 = r@;
            r.append(rep);
            assert(r@ + replaced(s@.subrange(i + m, n as int), pat@, rep@) =~= r0 + (rep@
                + replaced(s@.subrange(i + m, n as int), pat@, rep@)));
            i += m;
        } else {
            proof {
                if rest.len() >= m {
                    assert(rest.subrange(0, m as int) =~= s@.subrange(i as int, i + m));
                }
            }
            assert(rest.drop_first() =~= s@.subrange(i + 1, n as int));
            let ghost r0 = r@;
            r.append(char_at(s, i));
            assert(r@ + replaced(s@.subrange(i + 1, n as int), pat@, rep@) =~= r0 + (seq![
                s@[i as int],
            ] + replaced(s@.subrange(i + 1, n as int), pat@, rep@)));
            i += 1;
        }
    }
    assert(replaced(s@.subrange(n as int, n as int), pat@, rep@) =~= Seq::<char>::empty());
    assert(r@ + Seq::<char>::empty() =~= r@);
    r
}

// ----------------------------------------------------------------------
// Prefixes, separators
// ----------------------------------------------------------------------

/// `s` with every leading repetition of the non-empty `p` removed, as
/// `str::trim_start_matches` does.
pub open spec fn strip_prefixes(s: Seq<char>, p: Seq<char>) -> Seq<char>
    decreases s.len(),
{
    if p.len() > 0 && p.len() <= s.len() && s.subrange(0, p.len() as int) == p {
        strip_prefixes(s.subrange(p.len() as int, s.len() as int), p)
    } else {
        s
    }
}

/// `s` without its leading copies of `c`.
pub open spec fn trim_start_char(s: Seq<char>, c: char) -> Seq<char>
    decreases s.len(),
{
    if s.len() > 0 && s[0] == c {
        trim_start_char(s.drop_first(), c)
    } else {
        s
    }
}

/// `s` without its trailing copies of `c`.
pub open spec fn trim_end_char(s: Seq<char>, c: char) -> Seq<char>
    decreases s.len(),
{
    if s.len() > 0 && s.last() == c {
        trim_end_char(s.drop_last(), c)
    } else {
        s
    }
}

/// `s` cut at the first `c`, which belongs to neither part; none when `s`
/// holds no `c`.
pub open spec fn split_once(s: Seq<char>, c: char) -> Option<(Seq<char>, Seq<char>)>
    decreases s.len(),
{
    if s.len() == 0 {
        None
    } else if s[0] == c {
        Some((Seq::empty(), s.drop_first()))
    } else {
        match split_once(s.drop_first(), c) {
            Some((a, b)) => Some((seq![s[0]] + a, b)),
            None => None,
        }
    }
}

/// Removes every leading repetition of the non-empty `p` from `s`.
pub fn strip_prefix_repeats(s: &str, p: &str) -> (r: String)
    requires
        p@.len() > 0,
    ensures
        r@ == strip_prefixes(s@, p@),
{
    let n = s.unicode_len();
    let m = p.unicode_len();
    let mut i: usize = 0;
    assert(s@.subrange(0, n as int) =~= s@);
    while occurs_at(s, i, p)
        invariant
            n == s@.len(),
            m == p@.len(),
            m > 0,
            i <= n,
            strip_prefixes(s@, p@) == strip_prefixes(s@.subrange(i as int, n as int), p@),
        decreases n - i,
    {
        let ghost t = s@.subrange(i as int, n as int);
        assert(t.subrange(0, m as int) =~= s@.subrange(i as int, i + m));
        assert(t.subrange(m as int, t.len() as int) =~= s@.subrange(i + m, n as int));
        i += m;
    }
    proof {
        let t = s@.subrange(i as int, n as int);
        if m <= t.len() {
            assert(t.subrange(0, m as int) =~= s@.subrange(i as int, i + m));
        }
    }
    s.substring_char(i, n).to_owned()
}

/// Removes leading and trailing copies of `c` from `s`.
pub fn trim_char(s: &str, c: char) -> (r: String)
    ensures
        r@ == trim_end_char(trim_start_char(s@, c), c),
{
    let n = s.unicode_len();
    let mut i: usize = 0;
    assert(s@.subrange(0, n as int) =~= s@);
    while i < n && s.get_char(i) == c
        invariant
            n == s@.len(),
            i <= n,
            trim_start_char(s@, c) == trim_start_char(s@.subrange(i as int, n as int), c),
        decreases n - i,
    {
        assert(s@.subrange(i as int, n as int).drop_first() =~= s@.subrange(i + 1, n as int));
        i += 1;
    }
    let mut j = n;
    while j > i && s.get_char(j - 1) == c
        invariant
            n == s@.len(),
            i <= j <= n,
            trim_start_char(s@, c) == s@.subrange(i as int, n as int),
            trim_end_char(s@.subrange(i as int, n as int), c) == trim_end_char(
                s@.subrange(i as int, j as int),
                c,
            ),
        decreases j,
    {
        assert(s@.subrange(i as int, j as int).drop_last() =~= s@.subrange(i as int, j - 1));
        j -= 1;
    }
    s.substring_char(i, j).to_owned()
}

proof fn lemma_split_once_at(s: Seq<char>, c: char, k: int)
    requires
        0 <= k < s.len(),
        s[k] == c,
        forall|t: int| 0 <= t < k ==> s[t] != c,
    ensures
        split_once(s, c) == Some((s.subrange(0, k), s.subrange(k + 1, s.len() as int))),
    decreases k,
{
    if k == 0 {
        assert(s.subrange(0, 0) =~= Seq::<char>::empty());
        assert(s.subrange(1, s.len() as int) =~= s.drop_first());
    } else {
        let d = s.drop_first();
        lemma_split_once_at(d, c, k - 1);
        assert(seq![s[0]] + d.subrange(0, k - 1) =~= s.subrange(0, k));
        assert(d.subrange(k, d.len() as int) =~= s.subrange(k + 1, s.len() as int));
    }
}

proof fn lemma_split_once_none(s: Seq<char>, c: char)
    requires
        forall|t: int| 0 <= t < s.len() ==> s[t] != c,
    ensures
        split_once(s, c) is None,
    decreases s.len(),
{
    if s.len() > 0 {
        lemma_split_once_none(s.drop_first(), c);
    }
}

/// Cuts `s` at its first `c`.
pub fn split_at_first(s: &str, c: char) -> (r: Option<(String, String)>)
    ensures
        match r {
            Some(parts) => split_once(s@, c) == Some((parts.0@, parts.1@)),
            None => split_once(s@, c) is None,
        },
{
    let n = s.unicode_len();
    let mut k: usize = 0;
    while k < n && s.get_char(k) != c
        invariant
            n == s@.len(),
            k <= n,
            forall|t: int| 0 <= t < k ==> s@[t] != c,
        decreases n - k,
    {
        k += 1;
    }
    if k == n {
        proof {
            lemma_split_once_none(s@, c);
        }
        None
    } else {
        proof {
            lemma_split_once_at(s@, c, k as int);
        }
        Some((s.substring_char(0, k).to_owned(), s.substring_char(k + 1, n).to_owned()))
    }
}

/// What follows the last `c` in `s`; none when `s` holds no `c`.
pub open spec fn after_last(s: Seq<char>, c: char) -> Option<Seq<char>>
    decreases s.len(),
{
    if s.len() == 0 {
        None
    } else if s.last() == c {
        Some(Seq::empty())
    } else {
        match after_last(s.drop_last(), c) {
            Some(t) => Some(t.push(s.last())),
            None => None,
        }
    }
}

/// The text after the last `c` in `s`.
pub fn text_after_last(s: &str, c: char) -> (r: Option<String>)
    ensures
        opt_seq(r) == after_last(s@, c),
{
    let n = s.unicode_len();
    let mut j = n;
    assert(s@.subrange(0, n as int) =~= s@);
    assert(s@.subrange(n as int, n as int) =~= Seq::<char>::empty());
    while j > 0 && s.get_char(j - 1) != c
        invariant
            n == s@.len(),
            j <= n,
            match after_last(s@.subrange(0, j as int), c) {
                Some(t) => after_last(s@, c) == Some(t + s@.subrange(j as int, n as int)),
                None => after_last(s@, c) is None,
            },
        decreases j,
    {
        let ghost p = s@.subrange(0, j as int);
        assert(p.drop_last() =~= s@.subrange(0, j - 1));
        assert(p.last() == s@[j - 1]);
        proof {
            if let Some(t) = after_last(s@.subrange(0, j - 1), c) {
                assert(t.push(s@[j - 1]) + s@.subrange(j as int, n as int) =~= t + s@.subrange(
                    j - 1,
                    n as int,
                ));
            }
        }
        j -= 1;
    }
    if j == 0 {
        assert(s@.subrange(0, 0) =~= Seq::<char>::empty());
        None
    } else {
        let ghost p = s@.subrange(0, j as int);
        assert(p.last() == s@[j - 1]);
        assert(Seq::<char>::empty() + s@.subrange(j as int, n as int) =~= s@.subrange(
            j as int,
            n as int,
        ));
        Some(s.substring_char(j, n).to_owned())
    }
}

pub open spec fn opt_seq(s: Option<String>) -> Option<Seq<char>> {
    match s {
        Some(v) => Some(v@),
        None => None,
    }
}

} // verus!
