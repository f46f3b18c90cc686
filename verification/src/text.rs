//! Character-level text utilities shared by the parsers and formatters.
//!
//! All text logic in this crate works over `Vec<char>` so that contracts can
//! speak of `Seq<char>` views directly; the two trusted conversions at the
//! bottom bridge to `str` / `String` at the library boundary.

use vstd::prelude::*;

verus! {

/// The characters with the Unicode `White_Space` property, exactly the set
/// that `char::is_whitespace` recognizes.
pub open spec fn is_space(c: char) -> bool {
    c == ' ' || c == '\t' || c == '\n' || c == '\r' || c == '\u{b}' || c == '\u{c}'
        || c == '\u{85}' || c == '\u{a0}' || c == '\u{1680}'
        || ('\u{2000}' <= c && c <= '\u{200a}')
        || c == '\u{2028}' || c == '\u{2029}' || c == '\u{202f}' || c == '\u{205f}'
        || c == '\u{3000}'
}

/// Decide the `White_Space` property of one character.
pub fn is_space_char(c: char) -> (r: bool)
    ensures
        r == is_space(c),
{
    c == ' ' || c == '\t' || c == '\n' || c == '\r' || c == '\u{b}' || c == '\u{c}'
        || c == '\u{85}' || c == '\u{a0}' || c == '\u{1680}'
        || ('\u{2000}' <= c && c <= '\u{200a}')
        || c == '\u{2028}' || c == '\u{2029}' || c == '\u{202f}' || c == '\u{205f}'
        || c == '\u{3000}'
}

pub open spec fn is_digit(c: char) -> bool {
    '0' <= c && c <= '9'
}

pub open spec fn digit_val(c: char) -> nat {
    ((c as int) - ('0' as int)) as nat
}

/// Decide whether a character is an ASCII decimal digit.
pub fn is_digit_char(c: char) -> (r: bool)
    ensures
        r == is_digit(c),
{
    '0' <= c && c <= '9'
}

/// The decimal digit character for a value below ten.
pub open spec fn dec_digit(d: nat) -> char {
    if d == 0 { '0' } else if d == 1 { '1' } else if d == 2 { '2' } else if d == 3 { '3' }
    else if d == 4 { '4' } else if d == 5 { '5' } else if d == 6 { '6' } else if d == 7 { '7' }
    else if d == 8 { '8' } else { '9' }
}

/// The usual decimal rendering of a natural number, most significant digit
/// first, with no sign and no leading zeros (`0` renders as `"0"`).
pub open spec fn dec_rep(n: nat) -> Seq<char>
    decreases n,
{
    if n < 10 {
        seq![dec_digit(n)]
    } else {
        dec_rep(n / 10).push(dec_digit(n % 10))
    }
}

fn dec_digit_char(d: u64) -> (r: char)
    requires
        d < 10,
    ensures
        r == dec_digit(d as nat),
{
    if d == 0 { '0' } else if d == 1 { '1' } else if d == 2 { '2' } else if d == 3 { '3' }
    else if d == 4 { '4' } else if d == 5 { '5' } else if d == 6 { '6' } else if d == 7 { '7' }
    else if d == 8 { '8' } else { '9' }
}

/// Format a number in decimal.
pub fn fmt_u64(n: u64) -> (r: String)
    ensures
        r@ == dec_rep(n as nat),
{
    let mut rev: Vec<char> = Vec::new();
    let mut m: u64 = n;
    let d0 = dec_digit_char(m % 10);
    rev.push(d0);
    m = m / 10;
    assert(dec_rep(n as nat) == (if m > 0 {
        dec_rep(m as nat) + rev@.reverse()
    } else {
        rev@.reverse()
    })) by {
        reveal_with_fuel(dec_rep, 2);
        assert(rev@.reverse() =~= seq![dec_digit((n % 10) as nat)]);
    }
    while m > 0
        invariant
            dec_rep(n as nat) == (if m > 0 {
                dec_rep(m as nat) + rev@.reverse()
            } else {
                rev@.reverse()
            }),
        decreases m,
    {
        let ghost prev = rev@;
        let ghost mprev = m as nat;
        let d = dec_digit_char(m % 10);
        rev.push(d);
        m = m / 10;
        proof {
            assert(rev@.reverse() =~= seq![dec_digit(mprev % 10)] + prev.reverse());
            if m > 0 {
                assert(dec_rep(mprev) == dec_rep(mprev / 10).push(dec_digit(mprev % 10)));
                assert(dec_rep(mprev / 10).push(dec_digit(mprev % 10)) + prev.reverse()
                    =~= dec_rep(mprev / 10) + (seq![dec_digit(mprev % 10)] + prev.reverse()));
            } else {
                assert(dec_rep(mprev) =~= seq![dec_digit(mprev % 10)]);
            }
        }
    }
    let mut out: Vec<char> = Vec::new();
    let mut i = rev.len();
    while i > 0
        invariant
            i <= rev@.len(),
            out@.len() == rev@.len() - i,
            forall|k: int| 0 <= k < out@.len() ==> out@[k] == rev@[rev@.len() - 1 - k],
        decreases i,
    {
        i = i - 1;
        let c = rev[i];
        out.push(c);
    }
    assert(out@ =~= rev@.reverse());
    chars_string(&out)
}

pub open spec fn all_digits(s: Seq<char>) -> bool {
    forall|i: int| 0 <= i < s.len() ==> is_digit(#[trigger] s[i])
}

/// The value of a sequence of decimal digits, most significant first.
pub open spec fn digits_val(s: Seq<char>) -> nat
    decreases s.len(),
{
    if s.len() == 0 {
        0
    } else {
        digits_val(s.drop_last()) * 10 + digit_val(s.last())
    }
}

/// What `str::parse::<u32>` accepts: an optional leading `+`, then at least
/// one decimal digit, with the value fitting in 32 bits.
pub open spec fn parse_u32_spec(s: Seq<char>) -> Option<u32> {
    let d = if s.len() > 0 && s[0] == '+' {
        s.subrange(1, s.len() as int)
    } else {
        s
    };
    if d.len() > 0 && all_digits(d) && digits_val(d) <= u32::MAX {
        Some(digits_val(d) as u32)
    } else {
        None
    }
}

proof fn lemma_digits_val_take_step(s: Seq<char>, i: int)
    requires
        0 <= i < s.len(),
    ensures
        digits_val(s.take(i + 1)) == digits_val(s.take(i)) * 10 + digit_val(s[i]),
{
    assert(s.take(i + 1).drop_last() =~= s.take(i));
    assert(s.take(i + 1).last() == s[i]);
}

/// Parse a slice of characters as a decimal `u32`.
#[verifier::loop_isolation(false)]
pub fn parse_u32_chars(v: &Vec<char>) -> (r: Option<u32>)
    ensures
        r == parse_u32_spec(v@),
{
    let start: usize = if v.len() > 0 && v[0] == '+' { 1 } else { 0 };
    let ghost d: Seq<char> = if v@.len() > 0 && v@[0] == '+' {
        v@.subrange(1, v@.len() as int)
    } else {
        v@
    };
    if v.len() == start {
        return None;
    }
    let mut acc: u64 = 0;
    let mut over: bool = false;
    let mut i: usize = start;
    while i < v.len()
        invariant
            start <= i <= v@.len(),
            start <= 1,
            d =~= v@.subrange(start as int, v@.len() as int),
            all_digits(d.take(i - start)),
            !over ==> acc == digits_val(d.take(i - start)) && acc <= u32::MAX,
            over ==> digits_val(d.take(i - start)) > u32::MAX,
        decreases v@.len() - i,
    {
        let c = v[i];
        if !is_digit_char(c) {
            proof {
                assert(d[i - start] == v@[i as int]);
                assert(!all_digits(d)) by {
                    assert(!is_digit(d[i - start]));
                }
                assert(d == (if v@.len() > 0 && v@[0] == '+' {
                    v@.subrange(1, v@.len() as int)
                } else {
                    v@
                }));
                assert(parse_u32_spec(v@) is None);
            }
            return None;
        }
        let dv: u64 = (c as u32) as u64 - 48;
        proof {
            lemma_digits_val_take_step(d, i - start);
            assert(d.take(i - start + 1).take(i - start) =~= d.take(i - start));
            assert(dv == digit_val(d[i - start]));
        }
        if over {
            proof {
                assert(digits_val(d.take(i - start + 1)) > u32::MAX);
            }
        } else if acc > (u32::MAX as u64 - dv) / 10 && acc * 10 + dv > u32::MAX as u64 {
            over = true;
            proof {
                assert(digits_val(d.take(i - start + 1)) > u32::MAX);
            }
        } else {
            acc = acc * 10 + dv;
        }
        i = i + 1;
        proof {
            assert(all_digits(d.take(i - start))) by {
                assert(forall|k: int| 0 <= k < i - start ==> d.take((i - start) as int)[k]
                    == d[k]);
            }
        }
    }
    proof {
        assert(d.take(d.len() as int) =~= d);
    }
    if over {
        None
    } else {
        Some(acc as u32)
    }
}

/// Whether `needle` occurs in `hay` starting at position `i`.
pub open spec fn matches_at(hay: Seq<char>, needle: Seq<char>, i: int) -> bool {
    0 <= i && i + needle.len() <= hay.len() && hay.subrange(i, i + needle.len()) == needle
}

/// The position of the first occurrence of `needle` at or after `i`.
pub open spec fn find_sub_from(hay: Seq<char>, needle: Seq<char>, i: int) -> Option<int>
    decreases hay.len() - i,
{
    if i + needle.len() > hay.len() || i < 0 {
        None
    } else if matches_at(hay, needle, i) {
        Some(i)
    } else if i >= hay.len() {
        None
    } else {
        find_sub_from(hay, needle, i + 1)
    }
}

/// The position of the first occurrence of `needle` in `hay`, as `str::find`
/// reports it.
pub open spec fn find_sub_spec(hay: Seq<char>, needle: Seq<char>) -> Option<int> {
    find_sub_from(hay, needle, 0)
}

/// Check one candidate position.
pub fn match_at(hay: &Vec<char>, needle: &Vec<char>, i: usize) -> (r: bool)
    requires
        i + needle@.len() <= hay@.len(),
    ensures
        r == matches_at(hay@, needle@, i as int),
{
    let hay_len = hay.len();
    let mut j: usize = 0;
    while j < needle.len()
        invariant
            i + needle@.len() <= hay@.len(),
            hay_len == hay@.len(),
            j <= needle@.len(),
            forall|k: int| 0 <= k < j ==> hay@[i + k] == needle@[k],
        decreases needle@.len() - j,
    {
        if hay[i + j] != needle[j] {
            assert(hay@.subrange(i as int, i + needle@.len())[j as int] != needle@[j as int]);
            return false;
        }
        j = j + 1;
    }
    assert(hay@.subrange(i as int, i + needle@.len()) =~= needle@);
    true
}

proof fn lemma_find_sub_from_skip(hay: Seq<char>, needle: Seq<char>, i: int, j: int)
    requires
        0 <= i <= j,
        forall|k: int| i <= k < j ==> !matches_at(hay, needle, k),
    ensures
        find_sub_from(hay, needle, i) == find_sub_from(hay, needle, j),
    decreases j - i,
{
    if i < j {
        if i + needle.len() > hay.len() {
            assert(j + needle.len() > hay.len());
        } else if i >= hay.len() {
            assert(j + needle.len() > hay.len());
        } else {
            lemma_find_sub_from_skip(hay, needle, i + 1, j);
        }
    }
}

/// Find the first occurrence of `needle` in `hay`.
pub fn find_sub(hay: &Vec<char>, needle: &Vec<char>) -> (r: Option<usize>)
    ensures
        match r {
            Some(i) => find_sub_spec(hay@, needle@) == Some(i as int) && matches_at(
                hay@,
                needle@,
                i as int,
            ),
            None => find_sub_spec(hay@, needle@) is None,
        },
{
    if needle.len() > hay.len() {
        return None;
    }
    if needle.len() == 0 {
        assert(hay@.subrange(0, 0) =~= needle@);
        return Some(0);
    }
    let limit = hay.len() - needle.len();
    let mut i: usize = 0;
    while i <= limit
        invariant
            1 <= needle@.len() <= hay@.len(),
            hay@.len() <= usize::MAX,
            limit == hay@.len() - needle@.len(),
            i <= limit + 1,
            forall|k: int| 0 <= k < i ==> !matches_at(hay@, needle@, k),
        decreases limit + 1 - i,
    {
        if match_at(hay, needle, i) {
            proof {
                lemma_find_sub_from_skip(hay@, needle@, 0, i as int);
            }
            return Some(i);
        }
        i = i + 1;
    }
    proof {
        lemma_find_sub_from_skip(hay@, needle@, 0, i as int);
    }
    None
}

/// Copy out a subrange of a character vector.
pub fn sub_vec(v: &Vec<char>, from: usize, to: usize) -> (r: Vec<char>)
    requires
        from <= to <= v@.len(),
    ensures
        r@ == v@.subrange(from as int, to as int),
{
    let mut out: Vec<char> = Vec::new();
    let mut i = from;
    while i < to
        invariant
            from <= i <= to <= v@.len(),
            out@ =~= v@.subrange(from as int, i as int),
        decreases to - i,
    {
        out.push(v[i]);
        assert(out@ =~= v@.subrange(from as int, i + 1 as int));
        i = i + 1;
    }
    out
}

/// `str::trim`: the subsequence left once every leading and trailing
/// whitespace character is removed.
pub open spec fn trim_spec(s: Seq<char>) -> Seq<char>
    decreases s.len(),
{
    if s.len() > 0 && is_space(s[0]) {
        trim_spec(s.subrange(1, s.len() as int))
    } else if s.len() > 0 && is_space(s.last()) {
        trim_spec(s.drop_last())
    } else {
        s
    }
}

/// Trim whitespace from both ends.
pub fn trim_chars(v: &Vec<char>) -> (r: Vec<char>)
    ensures
        r@ == trim_spec(v@),
{
    assert(v@.subrange(0, v@.len() as int) =~= v@);
    let mut lo: usize = 0;
    while lo < v.len() && is_space_char(v[lo])
        invariant
            lo <= v@.len(),
            trim_spec(v@) == trim_spec(v@.subrange(lo as int, v@.len() as int)),
        decreases v@.len() - lo,
    {
        proof {
            let cur = v@.subrange(lo as int, v@.len() as int);
            let next = v@.subrange(lo + 1, v@.len() as int);
            assert(cur[0] == v@[lo as int]);
            assert(cur.subrange(1, cur.len() as int) =~= next);
        }
        lo = lo + 1;
    }
    let mut hi: usize = v.len();
    while hi > lo && is_space_char(v[hi - 1])
        invariant
            lo <= hi <= v@.len(),
            lo < hi ==> !is_space(v@[lo as int]),
            trim_spec(v@) == trim_spec(v@.subrange(lo as int, hi as int)),
        decreases hi,
    {
        proof {
            let cur = v@.subrange(lo as int, hi as int);
            let next = v@.subrange(lo as int, hi - 1);
            assert(cur[0] == v@[lo as int]);
            assert(cur.drop_last() =~= next);
            assert(cur.last() == v@[hi - 1]);
        }
        hi = hi - 1;
    }
    proof {
        let fin = v@.subrange(lo as int, hi as int);
        if fin.len() > 0 {
            assert(fin[0] == v@[lo as int]);
            assert(fin.last() == v@[hi - 1]);
        }
    }
    sub_vec(v, lo, hi)
}

/// A line terminated by `\n` loses one trailing carriage return, so that
/// `\r\n` endings read like plain `\n` endings.
pub open spec fn strip_cr(l: Seq<char>) -> Seq<char> {
    if l.len() > 0 && l.last() == '\r' {
        l.drop_last()
    } else {
        l
    }
}

/// The lines of `s` from position `pos` on, with `cur` the part of the
/// current line read so far: split at every `\n`, `\r\n` recognized too, the
/// final line ending optional.
pub open spec fn lines_acc(s: Seq<char>, pos: int, cur: Seq<char>) -> Seq<Seq<char>>
    decreases s.len() - pos,
{
    if !(0 <= pos < s.len()) {
        if cur.len() > 0 {
            seq![cur]
        } else {
            Seq::empty()
        }
    } else if s[pos] == '\n' {
        seq![strip_cr(cur)] + lines_acc(s, pos + 1, Seq::empty())
    } else {
        lines_acc(s, pos + 1, cur.push(s[pos]))
    }
}

/// The lines of `s`, as `str::lines` yields them.
pub open spec fn spec_lines(s: Seq<char>) -> Seq<Seq<char>> {
    lines_acc(s, 0, Seq::empty())
}

/// Split into lines at `\n`, dropping one `\r` before each `\n`.
pub fn split_lines(v: &Vec<char>) -> (r: Vec<Vec<char>>)
    ensures
        r.deep_view() == spec_lines(v@),
{
    let mut out: Vec<Vec<char>> = Vec::new();
    let mut cur: Vec<char> = Vec::new();
    let mut pos: usize = 0;
    while pos < v.len()
        invariant
            pos <= v@.len(),
            spec_lines(v@) == out.deep_view() + lines_acc(v@, pos as int, cur@),
        decreases v@.len() - pos,
    {
        let c = v[pos];
        if c == '\n' {
            let ghost pre_out = out.deep_view();
            let ghost pre_cur = cur@;
            if cur.len() > 0 && cur[cur.len() - 1] == '\r' {
                cur.pop();
            }
            assert(cur@ == strip_cr(pre_cur));
            out.push(cur);
            cur = Vec::new();
            proof {
                assert(out.deep_view() =~~= pre_out + seq![strip_cr(pre_cur)]);
                assert(out.deep_view() + lines_acc(v@, pos + 1, cur@) =~~= pre_out + (seq![
                    strip_cr(pre_cur),
                ] + lines_acc(v@, pos + 1, Seq::empty())));
            }
        } else {
            cur.push(c);
        }
        pos = pos + 1;
    }
    if cur.len() > 0 {
        let ghost pre_out = out.deep_view();
        let ghost final_cur = cur@;
        out.push(cur);
        proof {
            assert(out.deep_view() =~~= pre_out + seq![final_cur]);
        }
    } else {
        assert(out.deep_view() + lines_acc(v@, pos as int, cur@) =~~= out.deep_view());
    }
    out
}

/// The whitespace-separated tokens of `s` from position `pos` on, with `cur`
/// the part of the current token read so far.
pub open spec fn tokens_acc(s: Seq<char>, pos: int, cur: Seq<char>) -> Seq<Seq<char>>
    decreases s.len() - pos,
{
    if !(0 <= pos < s.len()) {
        if cur.len() > 0 {
            seq![cur]
        } else {
            Seq::empty()
        }
    } else if is_space(s[pos]) {
        (if cur.len() > 0 {
            seq![cur]
        } else {
            Seq::empty()
        }) + tokens_acc(s, pos + 1, Seq::empty())
    } else {
        tokens_acc(s, pos + 1, cur.push(s[pos]))
    }
}

/// The nonempty whitespace-separated tokens of `s`, as `str::split_whitespace`
/// yields them.
pub open spec fn tokens_spec(s: Seq<char>) -> Seq<Seq<char>> {
    tokens_acc(s, 0, Seq::empty())
}

/// Split into whitespace-separated tokens.
pub fn split_ws(v: &Vec<char>) -> (r: Vec<Vec<char>>)
    ensures
        r.deep_view() == tokens_spec(v@),
{
    let mut out: Vec<Vec<char>> = Vec::new();
    let mut cur: Vec<char> = Vec::new();
    let mut pos: usize = 0;
    while pos < v.len()
        invariant
            pos <= v@.len(),
            tokens_spec(v@) == out.deep_view() + tokens_acc(v@, pos as int, cur@),
        decreases v@.len() - pos,
    {
        let c = v[pos];
        if is_space_char(c) {
            let ghost pre_out = out.deep_view();
            let ghost pre_cur = cur@;
            if cur.len() > 0 {
                out.push(cur);
                cur = Vec::new();
                proof {
                    assert(out.deep_view() =~~= pre_out + seq![pre_cur]);
                    assert(out.deep_view() + tokens_acc(v@, pos + 1, cur@) =~~= pre_out + ((seq![
                        pre_cur,
                    ]) + tokens_acc(v@, pos + 1, Seq::empty())));
                }
            } else {
                proof {
                    assert(cur@ =~= Seq::<char>::empty());
                    assert(tokens_acc(v@, pos as int, pre_cur) =~~= Seq::<Seq<char>>::empty()
                        + tokens_acc(v@, pos + 1, Seq::empty()));
                    assert(Seq::<Seq<char>>::empty() + tokens_acc(v@, pos + 1, Seq::empty())
                        =~~= tokens_acc(v@, pos + 1, Seq::empty()));
                }
            }
        } else {
            cur.push(c);
        }
        pos = pos + 1;
    }
    if cur.len() > 0 {
        let ghost pre_out = out.deep_view();
        let ghost final_cur = cur@;
        out.push(cur);
        proof {
            assert(out.deep_view() =~~= pre_out + seq![final_cur]);
        }
    } else {
        assert(out.deep_view() + tokens_acc(v@, pos as int, cur@) =~~= out.deep_view());
    }
    out
}

/// The position of the last occurrence of `c` in `s`.
pub open spec fn rfind_char(s: Seq<char>, c: char) -> Option<int>
    decreases s.len(),
{
    if s.len() == 0 {
        None
    } else if s.last() == c {
        Some(s.len() - 1)
    } else {
        rfind_char(s.drop_last(), c)
    }
}

proof fn lemma_rfind_char_take(s: Seq<char>, c: char, i: int)
    requires
        0 <= i <= s.len(),
        forall|k: int| i <= k < s.len() ==> s[k] != c,
    ensures
        rfind_char(s, c) == rfind_char(s.take(i), c),
    decreases s.len() - i,
{
    if i < s.len() {
        lemma_rfind_char_take(s, c, i + 1);
        assert(s.take(i + 1).drop_last() =~= s.take(i));
        assert(s.take(i + 1).last() == s[i]);
        assert(s.take(s.len() as int) =~= s);
    } else {
        assert(s.take(i) =~= s);
    }
}

/// Find the last occurrence of `c`.
pub fn rfind_char_vec(v: &Vec<char>, c: char) -> (r: Option<usize>)
    ensures
        match r {
            Some(i) => rfind_char(v@, c) == Some(i as int) && i < v@.len(),
            None => rfind_char(v@, c) is None,
        },
{
    let mut i: usize = v.len();
    while i > 0
        invariant
            i <= v@.len(),
            forall|k: int| i <= k < v@.len() ==> v@[k] != c,
        decreases i,
    {
        i = i - 1;
        if v[i] == c {
            proof {
                lemma_rfind_char_take(v@, c, i + 1);
                assert(v@.take(i + 1).last() == v@[i as int]);
                assert(v@.take(i + 1).drop_last() =~= v@.take(i as int));
            }
            return Some(i);
        }
    }
    proof {
        lemma_rfind_char_take(v@, c, 0);
        assert(v@.take(0) =~= Seq::<char>::empty());
    }
    None
}

/// Compare two character vectors.
pub fn chars_eq(a: &Vec<char>, b: &Vec<char>) -> (r: bool)
    ensures
        r == (a@ == b@),
{
    if a.len() != b.len() {
        return false;
    }
    if match_at(a, b, 0) {
        assert(a@.subrange(0, a@.len() as int) =~= a@);
        true
    } else {
        proof {
            if a@ == b@ {
                assert(a@.subrange(0, b@.len() as int) =~= b@);
            }
        }
        false
    }
}

/// Whether `p` is a prefix of `s`.
pub open spec fn has_prefix(s: Seq<char>, p: Seq<char>) -> bool {
    matches_at(s, p, 0)
}

/// Check a prefix.
pub fn starts_with(v: &Vec<char>, p: &Vec<char>) -> (r: bool)
    ensures
        r == has_prefix(v@, p@),
{
    if p.len() > v.len() {
        return false;
    }
    match_at(v, p, 0)
}

/// Relies on `Iterator::collect` for `String` from `char` items: the
/// collected string holds exactly the characters of the vector, in order.
#[verifier::external_body]
pub fn chars_string(v: &Vec<char>) -> (r: String)
    ensures
        r@ == v@,
{
    v.iter().collect()
}

/// Relies on `str::chars` followed by `Iterator::collect` for `Vec<char>`:
/// the vector holds exactly the characters of the string, in order.
#[verifier::external_body]
pub fn str_chars(s: &str) -> (r: Vec<char>)
    ensures
        r@ == s@,
{
    s.chars().collect()
}

} // verus!
