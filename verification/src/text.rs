//! Character-level text handling: whitespace fields, separators, trimming,
//! integer parsing and decimal rendering.

use vstd::prelude::*;
use vstd::string::*;

verus! {

/// `Some` of the characters of a string, or `None`.
pub open spec fn opt_view(o: Option<String>) -> Option<Seq<char>> {
    match o {
        Some(s) => Some(s@),
        None => None,
    }
}

/// The characters that `char::is_whitespace` accepts (Unicode `White_Space`).
pub open spec fn is_ws(c: char) -> bool {
    ||| ('\u{9}' <= c && c <= '\u{d}')
    ||| c == ' '
    ||| c == '\u{85}'
    ||| c == '\u{a0}'
    ||| c == '\u{1680}'
    ||| ('\u{2000}' <= c && c <= '\u{200a}')
    ||| c == '\u{2028}'
    ||| c == '\u{2029}'
    ||| c == '\u{202f}'
    ||| c == '\u{205f}'
    ||| c == '\u{3000}'
}

/// Executable test for `is_ws`.
pub fn char_is_ws(c: char) -> (r: bool)
    ensures
        r == is_ws(c),
{
    ('\u{9}' <= c && c <= '\u{d}') || c == ' ' || c == '\u{85}' || c == '\u{a0}' || c == '\u{1680}'
        || ('\u{2000}' <= c && c <= '\u{200a}') || c == '\u{2028}' || c == '\u{2029}'
        || c == '\u{202f}' || c == '\u{205f}' || c == '\u{3000}'
}

/// `String::push`. Claimed: the string afterwards is the string before
/// followed by `c`.
#[verifier::external_body]
pub(crate) fn push_char(s: &mut String, c: char)
    ensures
        final(s)@ == old(s)@.push(c),
{
    s.push(c)
}

/// Appends the characters of `t` to `s`.
pub fn push_str(s: &mut String, t: &str)
    ensures
        final(s)@ == old(s)@ + t@,
{
    let n = t.unicode_len();
    let mut i: usize = 0;
    while i < n
        invariant
            n == t@.len(),
            i <= n,
            s@ == old(s)@ + t@.take(i as int),
        decreases n - i,
    {
        let c = t.get_char(i);
        push_char(s, c);
        assert(t@.take(i + 1) =~= t@.take(i as int).push(c));
        i = i + 1;
    }
    assert(t@.take(n as int) =~= t@);
}

/// Character-wise equality of two strings.
pub fn str_eq(a: &str, b: &str) -> (r: bool)
    ensures
        r == (a@ == b@),
{
    let n = a.unicode_len();
    let m = b.unicode_len();
    if n != m {
        return false;
    }
    let mut i: usize = 0;
    while i < n
        invariant
            n == a@.len(),
            m == b@.len(),
            n == m,
            i <= n,
            forall|j: int| 0 <= j < i ==> a@[j] == b@[j],
        decreases n - i,
    {
        if a.get_char(i) != b.get_char(i) {
            return false;
        }
        i = i + 1;
    }
    assert(a@ =~= b@);
    true
}


/// Scanning state of `split_whitespace` after reading `s`: the fields closed
/// so far and the field being read.
pub open spec fn ws_state(s: Seq<char>) -> (Seq<Seq<char>>, Seq<char>)
    decreases s.len(),
{
    if s.len() == 0 {
        (Seq::empty(), Seq::empty())
    } else {
        let (done, cur) = ws_state(s.drop_last());
        let c = s.last();
        if is_ws(c) {
            if cur.len() > 0 {
                (done.push(cur), Seq::empty())
            } else {
                (done, Seq::empty())
            }
        } else {
            (done, cur.push(c))
        }
    }
}

/// The whitespace-separated fields of `s` (`str::split_whitespace`): the
/// maximal runs of characters that are not whitespace, in order.
pub open spec fn ws_fields(s: Seq<char>) -> Seq<Seq<char>> {
    let (done, cur) = ws_state(s);
    if cur.len() > 0 {
        done.push(cur)
    } else {
        done
    }
}

/// Splits `s` into its whitespace-separated fields.
pub fn split_whitespace(s: &str) -> (r: Vec<String>)
    ensures
        r.deep_view() == ws_fields(s@),
{
    let n = s.unicode_len();
    let mut out: Vec<String> = Vec::new();
    let mut cur = String::new();
    let mut in_field: bool = false;
    let mut i: usize = 0;
    assert(s@.take(0) =~= Seq::<char>::empty());
    while i < n
        invariant
            n == s@.len(),
            i <= n,
            in_field == (cur@.len() > 0),
            out.deep_view() == ws_state(s@.take(i as int)).0,
            cur@ == ws_state(s@.take(i as int)).1,
        decreases n - i,
    {
        let c = s.get_char(i);
        let ghost pre = s@.take(i as int);
        assert(s@.take(i + 1).drop_last() =~= pre);
        assert(s@.take(i + 1).last() == c);
        if char_is_ws(c) {
            if in_field {
                let ghost old_out = out.deep_view();
                let done = cur;
                out.push(done);
                assert(out.deep_view() =~= old_out.push(ws_state(pre).1));
                cur = String::new();
                in_field = false;
            } else {
                cur = String::new();
            }
        } else {
            push_char(&mut cur, c);
            in_field = true;
        }
        i = i + 1;
    }
    assert(s@.take(n as int) =~= s@);
    if in_field {
        let ghost old_out = out.deep_view();
        out.push(cur);
        assert(out.deep_view() =~= old_out.push(ws_state(s@).1));
    }
    out
}


/// Whether `t` holds no whitespace.
pub open spec fn no_ws(t: Seq<char>) -> bool {
    forall|j: int| 0 <= j < t.len() ==> !is_ws(#[trigger] t[j])
}

proof fn lemma_ws_state_clean(s: Seq<char>)
    ensures
        forall|i: int|
            0 <= i < ws_state(s).0.len() ==> (#[trigger] ws_state(s).0[i]).len() > 0 && no_ws(
                ws_state(s).0[i],
            ),
        no_ws(ws_state(s).1),
    decreases s.len(),
{
    if s.len() > 0 {
        lemma_ws_state_clean(s.drop_last());
        let (done, cur) = ws_state(s.drop_last());
        let c = s.last();
        if !is_ws(c) {
            assert(no_ws(cur.push(c))) by {
                assert forall|j: int| 0 <= j < cur.push(c).len() implies !is_ws(
                    #[trigger] cur.push(c)[j],
                ) by {
                    if j < cur.len() {
                        assert(cur.push(c)[j] == cur[j]);
                    }
                }
            }
        }
    }
}

/// Every whitespace-separated field is non-empty and holds no whitespace.
pub proof fn lemma_ws_fields_clean(s: Seq<char>)
    ensures
        forall|i: int|
            0 <= i < ws_fields(s).len() ==> (#[trigger] ws_fields(s)[i]).len() > 0 && no_ws(
                ws_fields(s)[i],
            ),
{
    lemma_ws_state_clean(s);
    let (done, cur) = ws_state(s);
    assert forall|i: int| 0 <= i < ws_fields(s).len() implies (#[trigger] ws_fields(s)[i]).len() > 0
        && no_ws(ws_fields(s)[i]) by {
        if i < done.len() {
            assert(ws_fields(s)[i] == done[i]);
        }
    }
}

/// Scanning state of a split on the separator `sep` after reading `s`: the
/// pieces closed so far and the piece being read.
pub open spec fn split_state(s: Seq<char>, sep: char) -> (Seq<Seq<char>>, Seq<char>)
    decreases s.len(),
{
    if s.len() == 0 {
        (Seq::empty(), Seq::empty())
    } else {
        let (done, cur) = split_state(s.drop_last(), sep);
        if s.last() == sep {
            (done.push(cur), Seq::empty())
        } else {
            (done, cur.push(s.last()))
        }
    }
}

/// The pieces of `s` between occurrences of `sep` (`str::split` with a
/// one-character pattern): one more piece than there are separators, empty
/// pieces included.
pub open spec fn split_pieces(s: Seq<char>, sep: char) -> Seq<Seq<char>> {
    split_state(s, sep).0.push(split_state(s, sep).1)
}

/// The pieces joined again, with `sep` between neighbours.
pub open spec fn join_pieces(p: Seq<Seq<char>>, sep: char) -> Seq<char>
    decreases p.len(),
{
    if p.len() == 0 {
        Seq::empty()
    } else if p.len() == 1 {
        p[0]
    } else {
        join_pieces(p.drop_last(), sep).push(sep) + p.last()
    }
}

/// Splits `s` at every occurrence of `sep`.
pub fn split_on(s: &str, sep: char) -> (r: Vec<String>)
    ensures
        r.deep_view() == split_pieces(s@, sep),
{
    let n = s.unicode_len();
    let mut out: Vec<String> = Vec::new();
    let mut cur = String::new();
    let mut i: usize = 0;
    assert(s@.take(0) =~= Seq::<char>::empty());
    while i < n
        invariant
            n == s@.len(),
            i <= n,
            out.deep_view() == split_state(s@.take(i as int), sep).0,
            cur@ == split_state(s@.take(i as int), sep).1,
        decreases n - i,
    {
        let c = s.get_char(i);
        let ghost pre = s@.take(i as int);
        assert(s@.take(i + 1).drop_last() =~= pre);
        assert(s@.take(i + 1).last() == c);
        if c == sep {
            let ghost old_out = out.deep_view();
            let done = cur;
            out.push(done);
            assert(out.deep_view() =~= old_out.push(split_state(pre, sep).1));
            cur = String::new();
        } else {
            push_char(&mut cur, c);
        }
        i = i + 1;
    }
    assert(s@.take(n as int) =~= s@);
    let ghost old_out = out.deep_view();
    out.push(cur);
    assert(out.deep_view() =~= old_out.push(split_state(s@, sep).1));
    out
}

proof fn lemma_join_push(p: Seq<Seq<char>>, x: Seq<char>, c: char, sep: char)
    ensures
        join_pieces(p.push(x.push(c)), sep) == join_pieces(p.push(x), sep).push(c),
{
    if p.len() == 0 {
        assert(p.push(x.push(c)).len() == 1);
    } else {
        assert(p.push(x.push(c)).drop_last() =~= p);
        assert(p.push(x).drop_last() =~= p);
        assert(join_pieces(p, sep).push(sep) + x.push(c) =~= (join_pieces(p, sep).push(sep)
            + x).push(c));
    }
}

/// Splitting at `sep` and joining the pieces with `sep` gives back the text,
/// and no piece holds the separator.
pub proof fn lemma_split_join(s: Seq<char>, sep: char)
    ensures
        join_pieces(split_pieces(s, sep), sep) == s,
        forall|i: int, j: int|
            0 <= i < split_pieces(s, sep).len() && 0 <= j < split_pieces(s, sep)[i].len()
                ==> split_pieces(s, sep)[i][j] != sep,
    decreases s.len(),
{
    if s.len() == 0 {
        assert(split_pieces(s, sep) =~= seq![Seq::<char>::empty()]);
    } else {
        let t = s.drop_last();
        lemma_split_join(t, sep);
        let (done, cur) = split_state(t, sep);
        if s.last() == sep {
            let p = done.push(cur).push(Seq::<char>::empty());
            assert(split_pieces(s, sep) == p);
            assert(p.drop_last() =~= done.push(cur));
            assert(join_pieces(p, sep) =~= s);
        } else {
            lemma_join_push(done, cur, s.last(), sep);
            assert(split_pieces(s, sep) == done.push(cur.push(s.last())));
            assert(t.push(s.last()) =~= s);
            assert forall|i: int, j: int|
                0 <= i < split_pieces(s, sep).len() && 0 <= j < split_pieces(s, sep)[i].len()
                implies split_pieces(s, sep)[i][j] != sep by {
                if i < done.len() {
                    assert(split_pieces(s, sep)[i] == split_pieces(t, sep)[i]);
                } else if j < cur.len() {
                    assert(split_pieces(s, sep)[i][j] == split_pieces(t, sep)[i][j]);
                }
            }
        }
    }
}

/// Whether `c` is removed by the trimming selected with `newlines_only`:
/// line feeds only, or all whitespace.
pub open spec fn trimmed_char(newlines_only: bool, c: char) -> bool {
    if newlines_only {
        c == '\n'
    } else {
        is_ws(c)
    }
}

/// `s` without its leading trimmed characters.
pub open spec fn strip_start(s: Seq<char>, newlines_only: bool) -> Seq<char>
    decreases s.len(),
{
    if s.len() > 0 && trimmed_char(newlines_only, s[0]) {
        strip_start(s.drop_first(), newlines_only)
    } else {
        s
    }
}

/// `s` without its trailing trimmed characters.
pub open spec fn strip_end(s: Seq<char>, newlines_only: bool) -> Seq<char>
    decreases s.len(),
{
    if s.len() > 0 && trimmed_char(newlines_only, s.last()) {
        strip_end(s.drop_last(), newlines_only)
    } else {
        s
    }
}

/// `s` without leading and trailing whitespace (`str::trim`).
pub open spec fn trim_spec(s: Seq<char>) -> Seq<char> {
    strip_end(strip_start(s, false), false)
}

/// `s` without leading and trailing line feeds (`str::trim_matches('\n')`).
pub open spec fn trim_newlines_spec(s: Seq<char>) -> Seq<char> {
    strip_end(strip_start(s, true), true)
}

fn trimmed_at(s: &str, i: usize, newlines_only: bool) -> (r: bool)
    requires
        i < s@.len(),
    ensures
        r == trimmed_char(newlines_only, s@[i as int]),
{
    let c = s.get_char(i);
    if newlines_only {
        c == '\n'
    } else {
        char_is_ws(c)
    }
}

fn strip(s: &str, newlines_only: bool) -> (r: String)
    ensures
        r@ == strip_end(strip_start(s@, newlines_only), newlines_only),
{
    let n = s.unicode_len();
    let mut i: usize = 0;
    assert(s@.subrange(0, n as int) =~= s@);
    while i < n && trimmed_at(s, i, newlines_only)
        invariant
            n == s@.len(),
            i <= n,
            strip_start(s@, newlines_only) == strip_start(s@.subrange(i as int, n as int),
                newlines_only),
        decreases n - i,
    {
        assert(s@.subrange(i as int, n as int).drop_first() =~= s@.subrange(i + 1, n as int));
        i = i + 1;
    }
    let ghost rest = s@.subrange(i as int, n as int);
    assert(strip_start(rest, newlines_only) == rest);
    let mut j: usize = n;
    while j > i && trimmed_at(s, j - 1, newlines_only)
        invariant
            n == s@.len(),
            i <= j <= n,
            rest == s@.subrange(i as int, n as int),
            strip_end(rest, newlines_only) == strip_end(s@.subrange(i as int, j as int),
                newlines_only),
        decreases j - i,
    {
        assert(s@.subrange(i as int, j as int).drop_last() =~= s@.subrange(i as int, j - 1));
        j = j - 1;
    }
    let ghost kept = s@.subrange(i as int, j as int);
    assert(strip_end(kept, newlines_only) == kept);
    s.substring_char(i, j).to_owned()
}

/// Removes leading and trailing whitespace.
pub fn trim(s: &str) -> (r: String)
    ensures
        r@ == trim_spec(s@),
{
    strip(s, false)
}

/// Removes leading and trailing line feeds.
pub fn trim_newlines(s: &str) -> (r: String)
    ensures
        r@ == trim_newlines_spec(s@),
{
    strip(s, true)
}

/// The first `n` characters of `s`, or all of it when it is shorter: what a
/// precision of `n` keeps of a string in `format!`.
pub open spec fn take_chars_spec(s: Seq<char>, n: nat) -> Seq<char> {
    if s.len() <= n {
        s
    } else {
        s.take(n as int)
    }
}

/// Keeps at most the first `n` characters of `s`.
pub fn take_chars(s: &str, n: usize) -> (r: String)
    ensures
        r@ == take_chars_spec(s@, n as nat),
{
    let len = s.unicode_len();
    if len <= n {
        s.to_owned()
    } else {
        s.substring_char(0, n).to_owned()
    }
}


/// An ASCII decimal digit.
pub open spec fn is_digit(c: char) -> bool {
    '0' <= c && c <= '9'
}

/// The value of a decimal digit character.
pub open spec fn digit_value(c: char) -> int {
    (c as int) - ('0' as int)
}

/// Whether every character of `d` is a decimal digit.
pub open spec fn all_digits(d: Seq<char>) -> bool {
    forall|i: int| 0 <= i < d.len() ==> is_digit(#[trigger] d[i])
}

/// The value of the decimal numeral `d` (most significant digit first).
pub open spec fn digits_value(d: Seq<char>) -> int
    decreases d.len(),
{
    if d.len() == 0 {
        0
    } else {
        digits_value(d.drop_last()) * 10 + digit_value(d.last())
    }
}

/// Whether `s` starts with a minus sign, and the characters after an
/// optional sign.
pub open spec fn sign_split(s: Seq<char>) -> (bool, Seq<char>) {
    if s.len() > 0 && s[0] == '-' {
        (true, s.drop_first())
    } else if s.len() > 0 && s[0] == '+' {
        (false, s.drop_first())
    } else {
        (false, s)
    }
}

/// What `str::parse::<i64>` gives: an optional sign followed by at least one
/// decimal digit, whose value fits in an `i64`; `None` for everything else.
pub open spec fn parse_i64_spec(s: Seq<char>) -> Option<i64> {
    let (neg, d) = sign_split(s);
    if d.len() > 0 && all_digits(d) {
        let v = if neg {
            -digits_value(d)
        } else {
            digits_value(d)
        };
        if i64::MIN <= v && v <= i64::MAX {
            Some(v as i64)
        } else {
            None
        }
    } else {
        None
    }
}

proof fn lemma_digits_value_nonneg(d: Seq<char>)
    requires
        all_digits(d),
    ensures
        digits_value(d) >= 0,
    decreases d.len(),
{
    if d.len() > 0 {
        assert(all_digits(d.drop_last())) by {
            assert forall|i: int| 0 <= i < d.drop_last().len() implies is_digit(
                #[trigger] d.drop_last()[i],
            ) by {
                assert(d.drop_last()[i] == d[i]);
            }
        }
        lemma_digits_value_nonneg(d.drop_last());
        assert(is_digit(d[d.len() - 1]));
    }
}

proof fn lemma_digits_value_mono(d: Seq<char>, k: int)
    requires
        all_digits(d),
        0 <= k <= d.len(),
    ensures
        digits_value(d.take(k)) <= digits_value(d),
    decreases d.len() - k,
{
    if k < d.len() {
        lemma_digits_value_mono(d, k + 1);
        assert(d.take(k + 1).drop_last() =~= d.take(k));
        assert(all_digits(d.take(k))) by {
            assert forall|i: int| 0 <= i < d.take(k).len() implies is_digit(
                #[trigger] d.take(k)[i],
            ) by {
                assert(d.take(k)[i] == d[i]);
            }
        }
        lemma_digits_value_nonneg(d.take(k));
        assert(is_digit(d[k]));
        assert(d.take(k + 1).last() == d[k]);
    } else {
        assert(d.take(k) =~= d);
    }
}

/// Parses a decimal `i64` as `str::parse::<i64>` does.
pub fn parse_i64(s: &str) -> (r: Option<i64>)
    ensures
        r == parse_i64_spec(s@),
{
    let n = s.unicode_len();
    let mut start: usize = 0;
    let mut neg = false;
    if n > 0 {
        let c0 = s.get_char(0);
        if c0 == '-' {
            neg = true;
            start = 1;
        } else if c0 == '+' {
            start = 1;
        }
    }
    let ghost d = sign_split(s@).1;
    assert(d =~= s@.subrange(start as int, n as int));
    if start >= n {
        return None;
    }
    let limit: u128 = 9223372036854775808;
    let mut mag: u128 = 0;
    let mut i: usize = start;
    assert(d.take(0) =~= Seq::<char>::empty());
    while i < n
        invariant
            n == s@.len(),
            start <= i <= n,
            start <= 1,
            d == s@.subrange(start as int, n as int),
            d == sign_split(s@).1,
            neg == sign_split(s@).0,
            d.len() > 0,
            mag <= limit,
            limit == 9223372036854775808,
            all_digits(d.take(i - start)),
            mag == digits_value(d.take(i - start)),
        decreases n - i,
    {
        let c = s.get_char(i);
        let k: usize = i - start;
        assert(d[k as int] == c);
        if !('0' <= c && c <= '9') {
            assert(!all_digits(d)) by {
                assert(!is_digit(d[k as int]));
            }
            return None;
        }
        let dv: u128 = ((c as u32) - ('0' as u32)) as u128;
        let next: u128 = mag * 10 + dv;
        assert(d.take(k + 1).drop_last() =~= d.take(k as int));
        assert(d.take(k + 1).last() == c);
        assert(all_digits(d.take(k + 1))) by {
            assert forall|j: int| 0 <= j < d.take(k + 1).len() implies is_digit(
                #[trigger] d.take(k + 1)[j],
            ) by {
                if j < k {
                    assert(d.take(k + 1)[j] == d.take(k as int)[j]);
                }
            }
        }
        assert(next == digits_value(d.take(k + 1)));
        if next > limit {
            proof {
                if all_digits(d) {
                    lemma_digits_value_mono(d, k + 1);
                }
            }
            return None;
        }
        mag = next;
        i = i + 1;
    }
    assert(d.take(n - start) =~= d);
    if neg {
        let v: i128 = 0i128 - (mag as i128);
        Some(v as i64)
    } else {
        if mag > 9223372036854775807 {
            None
        } else {
            Some(mag as i64)
        }
    }
}

/// The character of the decimal digit `d` (below ten).
pub open spec fn digit_char(d: nat) -> char {
    ((d + ('0' as nat)) as u32) as char
}

/// The decimal numeral of `n`, without leading zeros.
pub open spec fn decimal(n: nat) -> Seq<char>
    decreases n,
{
    if n < 10 {
        seq![digit_char(n)]
    } else {
        decimal(n / 10).push(digit_char(n % 10))
    }
}

fn digit_to_char(d: u64) -> (c: char)
    requires
        d < 10,
    ensures
        c == digit_char(d as nat),
{
    let b: u8 = (d as u8) + 48;
    b as char
}

/// Renders `n` in decimal (what `Display` writes for an unsigned integer).
pub fn u64_to_decimal(n: u64) -> (r: String)
    ensures
        r@ == decimal(n as nat),
{
    let mut q: u64 = n;
    let mut tail: Vec<char> = Vec::new();
    while q >= 10
        invariant
            decimal(n as nat) == decimal(q as nat) + tail@,
        decreases q,
    {
        let c = digit_to_char(q % 10);
        let ghost old_tail = tail@;
        tail.insert(0, c);
        assert(decimal(q as nat) == decimal((q / 10) as nat).push(c));
        assert(decimal((q / 10) as nat).push(c) + old_tail =~= decimal((q / 10) as nat) + tail@);
        q = q / 10;
    }
    let mut out = String::new();
    push_char(&mut out, digit_to_char(q));
    let mut k: usize = 0;
    while k < tail.len()
        invariant
            k <= tail@.len(),
            decimal(n as nat) == decimal(q as nat) + tail@,
            q < 10,
            out@ == seq![digit_char(q as nat)] + tail@.take(k as int),
        decreases tail@.len() - k,
    {
        push_char(&mut out, tail[k]);
        assert(tail@.take(k + 1) =~= tail@.take(k as int).push(tail@[k as int]));
        k = k + 1;
    }
    assert(tail@.take(k as int) =~= tail@);
    out
}


/// The parts joined, with `sep` between neighbours.
pub open spec fn join_with(p: Seq<Seq<char>>, sep: Seq<char>) -> Seq<char>
    decreases p.len(),
{
    if p.len() == 0 {
        Seq::empty()
    } else if p.len() == 1 {
        p[0]
    } else {
        join_with(p.drop_last(), sep) + sep + p.last()
    }
}

/// Joins `parts` with `sep` between neighbours.
pub fn join_strings(parts: &Vec<String>, sep: &str) -> (r: String)
    ensures
        r@ == join_with(parts.deep_view(), sep@),
{
    let ghost p = parts.deep_view();
    let mut out = String::new();
    let mut i: usize = 0;
    assert(p.take(0) =~= Seq::<Seq<char>>::empty());
    while i < parts.len()
        invariant
            p == parts.deep_view(),
            i <= p.len(),
            out@ == join_with(p.take(i as int), sep@),
        decreases p.len() - i,
    {
        assert(p.take(i + 1).drop_last() =~= p.take(i as int));
        assert(p.take(i + 1).last() == parts@[i as int]@);
        if i > 0 {
            push_str(&mut out, sep);
        }
        push_str(&mut out, parts[i].as_str());
        if i == 0 {
            assert(p.take(1).len() == 1);
            assert(out@ =~= p.take(1)[0]);
        }
        i = i + 1;
    }
    assert(p.take(p.len() as int) =~= p);
    out
}

} // verus!
