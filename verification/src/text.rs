//! Character and string groundwork shared by the rest of the library:
//! whitespace, substring search, word matching, decimal rendering, number
//! parsing, lowercasing and percent-encoding.

use vstd::prelude::*;

verus! {

/// The characters with the Unicode `White_Space` property, which is what
/// `str::split_whitespace` splits on.
pub open spec fn is_space_char(c: char) -> bool {
    c == ' ' || c == '\t' || c == '\n' || c == '\u{b}' || c == '\u{c}' || c == '\r'
        || c == '\u{85}' || c == '\u{a0}' || c == '\u{1680}'
        || ('\u{2000}' <= c && c <= '\u{200a}')
        || c == '\u{2028}' || c == '\u{2029}' || c == '\u{202f}' || c == '\u{205f}'
        || c == '\u{3000}'
}

/// Whitespace test on one character.
pub fn is_space(c: char) -> (r: bool)
    ensures
        r == is_space_char(c),
{
    c == ' ' || c == '\t' || c == '\n' || c == '\u{b}' || c == '\u{c}' || c == '\r'
        || c == '\u{85}' || c == '\u{a0}' || c == '\u{1680}'
        || ('\u{2000}' <= c && c <= '\u{200a}')
        || c == '\u{2028}' || c == '\u{2029}' || c == '\u{202f}' || c == '\u{205f}'
        || c == '\u{3000}'
}

/// `needle` occurs contiguously somewhere in `hay`.
pub open spec fn contains_seq(hay: Seq<char>, needle: Seq<char>) -> bool {
    exists|i: int|
        0 <= i && i + needle.len() <= hay.len() && #[trigger] hay.subrange(
            i,
            i + needle.len(),
        ) == needle
}

/// The characters of `a` from `a1` on equal those of `b` from `b1` on, over a
/// window of `n` characters.
fn window_eq(a: &str, b: &str, a1: usize, b1: usize, n: usize) -> (r: bool)
    requires
        a1 + n <= a@.len(),
        b1 + n <= b@.len(),
        a1 + n <= usize::MAX,
        b1 + n <= usize::MAX,
    ensures
        r == (a@.subrange(a1 as int, a1 + n) == b@.subrange(b1 as int, b1 + n)),
{
    let mut k: usize = 0;
    while k < n
        invariant
            k <= n,
            a1 + n <= a@.len(),
            b1 + n <= b@.len(),
            a1 + n <= usize::MAX,
            b1 + n <= usize::MAX,
            forall|j: int| 0 <= j < k ==> a@[a1 + j] == #[trigger] b@[b1 + j],
        decreases n - k,
    {
        if a.get_char(a1 + k) != b.get_char(b1 + k) {
            assert(a@.subrange(a1 as int, a1 + n)[k as int] != b@.subrange(b1 as int, b1 + n)[k as int]);
            return false;
        }
        k = k + 1;
    }
    assert forall|j: int| 0 <= j < n implies #[trigger] a@.subrange(a1 as int, a1 + n)[j]
        == b@.subrange(b1 as int, b1 + n)[j] by {
        assert(a@[a1 + j] == b@[b1 + j]);
    }
    assert(a@.subrange(a1 as int, a1 + n) =~= b@.subrange(b1 as int, b1 + n));
    true
}

/// Substring search: whether `needle` occurs in `hay`.
pub fn contains_sub(hay: &str, needle: &str) -> (r: bool)
    ensures
        r == contains_seq(hay@, needle@),
{
    let hl: usize = hay.unicode_len();
    let nl: usize = needle.unicode_len();
    if nl > hl {
        return false;
    }
    let bound: usize = hl - nl;
    let mut i: usize = 0;
    loop
        invariant
            nl <= hl,
            hl == hay@.len(),
            nl == needle@.len(),
            bound == hl - nl,
            i <= bound,
            forall|j: int|
                0 <= j < i ==> #[trigger] hay@.subrange(j, j + needle@.len()) != needle@,
        decreases bound - i,
    {
        proof {
            assert(needle@.subrange(0, needle@.len() as int) =~= needle@);
        }
        if window_eq(hay, needle, i, 0, nl) {
            return true;
        }
        if i == bound {
            return false;
        }
        i = i + 1;
    }
}

/// `s[i..j)` is a maximal whitespace-free run: exactly one of the words that
/// `str::split_whitespace` yields.
pub open spec fn is_word_at(s: Seq<char>, i: int, j: int) -> bool {
    &&& 0 <= i < j <= s.len()
    &&& forall|k: int| i <= k < j ==> !is_space_char(#[trigger] s[k])
    &&& (i == 0 || is_space_char(s[i - 1]))
    &&& (j == s.len() || is_space_char(s[j]))
}

/// Some whitespace-delimited word of `a` equals some whitespace-delimited
/// word of `b`.
pub open spec fn shares_word(a: Seq<char>, b: Seq<char>) -> bool {
    exists|i1: int, j1: int, i2: int, j2: int|
        #[trigger] is_word_at(a, i1, j1) && #[trigger] is_word_at(b, i2, j2) && a.subrange(
            i1,
            j1,
        ) == b.subrange(i2, j2)
}

/// The span list holds only words of `s`.
pub open spec fn spans_sound(s: Seq<char>, v: Seq<(usize, usize)>) -> bool {
    forall|idx: int|
        0 <= idx < v.len() ==> is_word_at(s, (#[trigger] v[idx]).0 as int, v[idx].1 as int)
}

/// Every word of `s` stands in the span list.
pub open spec fn spans_complete(s: Seq<char>, v: Seq<(usize, usize)>) -> bool {
    forall|i: int, j: int|
        #[trigger] is_word_at(s, i, j) ==> exists|idx: int|
            0 <= idx < v.len() && (#[trigger] v[idx]).0 == i && v[idx].1 == j
}

/// The start and end positions of each whitespace-delimited word of `s`, in
/// order of appearance.
fn word_spans(s: &str) -> (v: Vec<(usize, usize)>)
    ensures
        spans_sound(s@, v@),
        spans_complete(s@, v@),
{
    let len: usize = s.unicode_len();
    let mut v: Vec<(usize, usize)> = Vec::new();
    let mut cur: Option<usize> = None;
    let mut i: usize = 0;
    while i < len
        invariant
            i <= len,
            len == s@.len(),
            spans_sound(s@, v@),
            match cur {
                None => i == 0 || is_space_char(s@[i - 1]),
                Some(st) => {
                    &&& st < i
                    &&& (st == 0 || is_space_char(s@[st as int - 1]))
                    &&& forall|k: int| st <= k < i ==> !is_space_char(#[trigger] s@[k])
                },
            },
            forall|i1: int, j1: int|
                #[trigger] is_word_at(s@, i1, j1) && j1 < i ==> exists|idx: int|
                    0 <= idx < v@.len() && (#[trigger] v@[idx]).0 == i1 && v@[idx].1 == j1,
        decreases len - i,
    {
        let c = s.get_char(i);
        if is_space(c) {
            if let Some(st) = cur {
                let ghost old_v = v@;
                v.push((st, i));
                assert(is_word_at(s@, st as int, i as int));
                assert forall|i1: int, j1: int|
                    #[trigger] is_word_at(s@, i1, j1) && j1 < i + 1 implies exists|idx: int|
                    0 <= idx < v@.len() && (#[trigger] v@[idx]).0 == i1 && v@[idx].1 == j1 by {
                    if j1 < i {
                        let idx = choose|idx: int|
                            0 <= idx < old_v.len() && (#[trigger] old_v[idx]).0 == i1
                                && old_v[idx].1 == j1;
                        assert(v@[idx].0 == i1 && v@[idx].1 == j1);
                    } else {
                        // A word ending exactly at i must start at st: on either
                        // side of st a space would sit inside the other run.
                        assert(!is_space_char(s@[i1]));
                        if i1 < st {
                            assert(is_space_char(s@[st as int - 1]));
                        } else if st < i1 {
                            assert(is_space_char(s@[i1 - 1]));
                            assert(!is_space_char(s@[i1 - 1]));
                        }
                        assert(i1 == st);
                        assert(v@[v@.len() - 1].0 == i1 && v@[v@.len() - 1].1 == j1);
                    }
                }
                cur = None;
            }
        } else {
            if cur.is_none() {
                cur = Some(i);
            }
        }
        i = i + 1;
    }
    if let Some(st) = cur {
        let ghost old_v = v@;
        v.push((st, len));
        assert(is_word_at(s@, st as int, len as int));
        assert forall|i1: int, j1: int| #[trigger] is_word_at(s@, i1, j1) implies exists|idx: int|
            0 <= idx < v@.len() && (#[trigger] v@[idx]).0 == i1 && v@[idx].1 == j1 by {
            if j1 < len {
                let idx = choose|idx: int|
                    0 <= idx < old_v.len() && (#[trigger] old_v[idx]).0 == i1 && old_v[idx].1
                        == j1;
                assert(v@[idx].0 == i1 && v@[idx].1 == j1);
            } else {
                assert(!is_space_char(s@[i1]));
                if i1 < st {
                    assert(is_space_char(s@[st as int - 1]));
                } else if st < i1 {
                    assert(is_space_char(s@[i1 - 1]));
                    assert(!is_space_char(s@[i1 - 1]));
                }
                assert(i1 == st);
                assert(v@[v@.len() - 1].0 == i1 && v@[v@.len() - 1].1 == j1);
            }
        }
    } else {
        assert forall|i1: int, j1: int| #[trigger] is_word_at(s@, i1, j1) implies j1 < len by {
            if j1 == len {
                assert(is_space_char(s@[len - 1]));
                assert(!is_space_char(s@[j1 - 1]));
            }
        }
    }
    v
}

/// Whether the two strings share a whitespace-delimited word.
pub fn shares_word_exec(a: &str, b: &str) -> (r: bool)
    ensures
        r == shares_word(a@, b@),
{
    let sa = word_spans(a);
    let sb = word_spans(b);
    let mut p: usize = 0;
    while p < sa.len()
        invariant
            spans_sound(a@, sa@),
            spans_sound(b@, sb@),
            spans_complete(a@, sa@),
            spans_complete(b@, sb@),
            p <= sa.len(),
            forall|x: int, y: int|
                0 <= x < p && 0 <= y < sb@.len() ==> #[trigger] a@.subrange(
                    sa@[x].0 as int,
                    sa@[x].1 as int,
                ) != #[trigger] b@.subrange(sb@[y].0 as int, sb@[y].1 as int),
        decreases sa.len() - p,
    {
        let (i1, j1) = sa[p];
        let mut q: usize = 0;
        while q < sb.len()
            invariant
                spans_sound(a@, sa@),
                spans_sound(b@, sb@),
                p < sa.len(),
                q <= sb.len(),
                (i1, j1) == sa@[p as int],
                forall|y: int|
                    0 <= y < q ==> #[trigger] a@.subrange(i1 as int, j1 as int) != b@.subrange(
                        sb@[y].0 as int,
                        sb@[y].1 as int,
                    ),
            decreases sb.len() - q,
        {
            let (i2, j2) = sb[q];
            if j1 - i1 == j2 - i2 {
                if window_eq(a, b, i1, i2, j1 - i1) {
                    assert(a@.subrange(i1 as int, i1 as int + (j1 - i1)) == a@.subrange(
                        i1 as int,
                        j1 as int,
                    ));
                    assert(b@.subrange(i2 as int, i2 as int + (j1 - i1)) == b@.subrange(
                        i2 as int,
                        j2 as int,
                    ));
                    assert(is_word_at(a@, i1 as int, j1 as int) && is_word_at(
                        b@,
                        i2 as int,
                        j2 as int,
                    ) && a@.subrange(i1 as int, j1 as int) == b@.subrange(i2 as int, j2 as int));
                    return true;
                }
            } else {
                assert(a@.subrange(i1 as int, j1 as int).len() != b@.subrange(
                    i2 as int,
                    j2 as int,
                ).len());
            }
            q = q + 1;
        }
        p = p + 1;
    }
    assert forall|i1: int, j1: int, i2: int, j2: int|
        #[trigger] is_word_at(a@, i1, j1) && #[trigger] is_word_at(b@, i2, j2) implies a@.subrange(
        i1,
        j1,
    ) != b@.subrange(i2, j2) by {
        let x = choose|idx: int|
            0 <= idx < sa@.len() && (#[trigger] sa@[idx]).0 == i1 && sa@[idx].1 == j1;
        let y = choose|idx: int|
            0 <= idx < sb@.len() && (#[trigger] sb@[idx]).0 == i2 && sb@[idx].1 == j2;
        assert(a@.subrange(sa@[x].0 as int, sa@[x].1 as int) != b@.subrange(
            sb@[y].0 as int,
            sb@[y].1 as int,
        ));
    }
    false
}

/// The result of `str::to_lowercase` on the string with these characters: a
/// function of the characters alone.
pub uninterp spec fn lower_of(s: Seq<char>) -> Seq<char>;

/// Relies on str::to_lowercase: the Unicode lowercase of the string, which
/// depends on its characters alone.
#[verifier::external_body]
pub fn lowercase(s: &str) -> (r: String)
    ensures
        r@ == lower_of(s@),
        s@.len() == 0 ==> r@.len() == 0,
{
    s.to_lowercase()
}

/// One decimal digit as a character.
pub open spec fn dec_digit(d: nat) -> char {
    if d == 0 {
        '0'
    } else if d == 1 {
        '1'
    } else if d == 2 {
        '2'
    } else if d == 3 {
        '3'
    } else if d == 4 {
        '4'
    } else if d == 5 {
        '5'
    } else if d == 6 {
        '6'
    } else if d == 7 {
        '7'
    } else if d == 8 {
        '8'
    } else {
        '9'
    }
}

/// The decimal rendering of `n`, without leading zeros (a single `'0'` for 0).
pub open spec fn dec_str(n: nat) -> Seq<char>
    decreases n,
{
    if n < 10 {
        seq![dec_digit(n)]
    } else {
        dec_str(n / 10).push(dec_digit(n % 10))
    }
}

/// Appends the digit `d` to `s`.
fn push_digit(s: &mut String, d: u64)
    requires
        d < 10,
    ensures
        final(s)@ == old(s)@ + seq![dec_digit(d as nat)],
{
    let t: &str = if d == 0 {
        "0"
    } else if d == 1 {
        "1"
    } else if d == 2 {
        "2"
    } else if d == 3 {
        "3"
    } else if d == 4 {
        "4"
    } else if d == 5 {
        "5"
    } else if d == 6 {
        "6"
    } else if d == 7 {
        "7"
    } else if d == 8 {
        "8"
    } else {
        "9"
    };
    proof {
        reveal_strlit("0");
        reveal_strlit("1");
        reveal_strlit("2");
        reveal_strlit("3");
        reveal_strlit("4");
        reveal_strlit("5");
        reveal_strlit("6");
        reveal_strlit("7");
        reveal_strlit("8");
        reveal_strlit("9");
    }
    s.append(t);
    proof {
        assert(s@ =~= old(s)@ + seq![dec_digit(d as nat)]);
    }
}

/// Renders `n` in decimal.
pub fn fmt_u64(n: u64) -> (r: String)
    ensures
        r@ == dec_str(n as nat),
    decreases n,
{
    if n < 10 {
        let mut s = String::new();
        push_digit(&mut s, n);
        proof {
            assert(s@ =~= dec_str(n as nat));
        }
        s
    } else {
        let mut s = fmt_u64(n / 10);
        push_digit(&mut s, n % 10);
        proof {
            assert(s@ =~= dec_str(n as nat));
        }
        s
    }
}

/// The decimal rendering of `n` left-padded with zeros to `width` characters
/// (unpadded when already wider).
pub open spec fn dec_str_pad(n: nat, width: nat) -> Seq<char>
    decreases width,
{
    if dec_str(n).len() >= width {
        dec_str(n)
    } else {
        seq!['0'] + dec_str_pad(n, (width - 1) as nat)
    }
}

/// How many digits the decimal rendering of `n` has.
proof fn lemma_dec_str_len(n: nat)
    ensures
        n < 10 ==> dec_str(n).len() == 1,
        10 <= n < 100 ==> dec_str(n).len() == 2,
        100 <= n < 1000 ==> dec_str(n).len() == 3,
        1000 <= n < 10000 ==> dec_str(n).len() == 4,
        dec_str(n).len() >= 1,
    decreases n,
{
    if n >= 10 {
        lemma_dec_str_len(n / 10);
    }
}

/// Renders `n` zero-padded to two digits.
pub fn fmt_pad2(n: u64) -> (r: String)
    requires
        n < 100,
    ensures
        r@ == dec_str_pad(n as nat, 2),
{
    proof {
        lemma_dec_str_len(n as nat);
    }
    if n < 10 {
        let mut s = String::new();
        push_digit(&mut s, 0);
        push_digit(&mut s, n);
        proof {
            reveal_with_fuel(dec_str_pad, 3);
            assert(s@ =~= dec_str_pad(n as nat, 2));
        }
        s
    } else {
        let s = fmt_u64(n);
        s
    }
}

/// Renders `n` zero-padded to four digits.
pub fn fmt_pad4(n: u64) -> (r: String)
    requires
        n < 10000,
    ensures
        r@ == dec_str_pad(n as nat, 4),
{
    proof {
        lemma_dec_str_len(n as nat);
    }
    let digits = fmt_u64(n);
    let mut s = String::new();
    if n < 10 {
        push_digit(&mut s, 0);
        push_digit(&mut s, 0);
        push_digit(&mut s, 0);
    } else if n < 100 {
        push_digit(&mut s, 0);
        push_digit(&mut s, 0);
    } else if n < 1000 {
        push_digit(&mut s, 0);
    }
    s.append(digits.as_str());
    proof {
        reveal_with_fuel(dec_str_pad, 5);
        assert(s@ =~= dec_str_pad(n as nat, 4));
    }
    s
}

/// A non-negative amount of cents rendered with two decimal places.
pub open spec fn cents_str_nonneg(c: nat) -> Seq<char> {
    dec_str(c / 100) + seq!['.'] + dec_str_pad(c % 100, 2)
}

/// A signed amount of cents rendered with two decimal places, as `{:.2}`
/// renders the corresponding decimal number.
pub open spec fn cents_str(c: int) -> Seq<char> {
    if c < 0 {
        seq!['-'] + cents_str_nonneg((-c) as nat)
    } else {
        cents_str_nonneg(c as nat)
    }
}

/// Renders a non-negative cent amount with two decimal places.
fn fmt_cents_nonneg(c: u64) -> (r: String)
    ensures
        r@ == cents_str_nonneg(c as nat),
{
    let mut s = fmt_u64(c / 100);
    proof {
        reveal_strlit(".");
    }
    s.append(".");
    let frac = fmt_pad2(c % 100);
    s.append(frac.as_str());
    proof {
        assert(s@ =~= cents_str_nonneg(c as nat));
    }
    s
}

/// Renders a signed cent amount with two decimal places.
pub fn fmt_cents(c: i64) -> (r: String)
    requires
        c > i64::MIN,
    ensures
        r@ == cents_str(c as int),
{
    if c < 0 {
        let mut s = String::new();
        proof {
            reveal_strlit("-");
        }
        s.append("-");
        let pos = fmt_cents_nonneg((-c) as u64);
        s.append(pos.as_str());
        proof {
            assert(s@ =~= cents_str(c as int));
        }
        s
    } else {
        fmt_cents_nonneg(c as u64)
    }
}

/// A duplicate of a string list, for moving configured values into owners.
pub fn clone_string_vec(v: &Vec<String>) -> (r: Vec<String>)
    ensures
        r@ == v@,
{
    let mut r: Vec<String> = Vec::new();
    let mut i: usize = 0;
    while i < v.len()
        invariant
            i <= v.len(),
            r@ =~= v@.take(i as int),
        decreases v.len() - i,
    {
        r.push(v[i].clone());
        i = i + 1;
    }
    proof {
        assert(v@.take(v@.len() as int) =~= v@);
    }
    r
}

/// Whether two strings hold the same characters.
pub fn str_eq(a: &str, b: &str) -> (r: bool)
    ensures
        r == (a@ == b@),
{
    let la: usize = a.unicode_len();
    let lb: usize = b.unicode_len();
    if la != lb {
        return false;
    }
    let r = window_eq(a, b, 0, 0, la);
    proof {
        assert(a@.subrange(0, la as int) =~= a@);
        assert(b@.subrange(0, lb as int) =~= b@);
    }
    r
}

/// A duplicate of an optional string.
pub fn clone_opt_string(o: &Option<String>) -> (r: Option<String>)
    ensures
        r == *o,
{
    match o {
        Some(s) => Some(s.clone()),
        None => None,
    }
}

/// A decimal digit character.
pub open spec fn is_dec_digit(c: char) -> bool {
    '0' <= c && c <= '9'
}

/// The numeric value of a digit character.
pub open spec fn digit_val(c: char) -> nat {
    (c as nat - '0' as nat) as nat
}

/// The numeric value of a digit string, most significant first.
pub open spec fn digits_val(s: Seq<char>) -> nat
    decreases s.len(),
{
    if s.len() == 0 {
        0
    } else {
        digits_val(s.drop_last()) * 10 + digit_val(s.last())
    }
}

/// Every character is a decimal digit.
pub open spec fn all_dec_digits(s: Seq<char>) -> bool {
    forall|i: int| 0 <= i < s.len() ==> is_dec_digit(#[trigger] s[i])
}

/// The digit part of a number literal: what follows an optional leading `'+'`.
pub open spec fn unsigned_digits(s: Seq<char>) -> Seq<char> {
    if s.len() > 0 && s[0] == '+' {
        s.drop_first()
    } else {
        s
    }
}

/// What `str::parse::<u16>` accepts: an optional leading `'+'`, then one or
/// more decimal digits whose value fits in sixteen bits.
pub open spec fn u16_parse_spec(s: Seq<char>) -> Option<u16> {
    if unsigned_digits(s).len() > 0 && all_dec_digits(unsigned_digits(s)) && digits_val(
        unsigned_digits(s),
    ) <= u16::MAX {
        Some(digits_val(unsigned_digits(s)) as u16)
    } else {
        None
    }
}

/// A longer digit string never has a smaller value.
proof fn lemma_digits_val_monotone(s: Seq<char>, i: int, j: int)
    requires
        0 <= i <= j <= s.len(),
    ensures
        digits_val(s.subrange(0, i)) <= digits_val(s.subrange(0, j)),
    decreases j - i,
{
    if i < j {
        lemma_digits_val_monotone(s, i, j - 1);
        assert(s.subrange(0, j).drop_last() =~= s.subrange(0, j - 1));
    }
}

/// Parses an unsigned sixteen-bit decimal number, as `str::parse::<u16>` does.
pub fn parse_u16(s: &str) -> (r: Option<u16>)
    ensures
        r == u16_parse_spec(s@),
{
    let len: usize = s.unicode_len();
    let mut start: usize = 0;
    if len > 0 && s.get_char(0) == '+' {
        start = 1;
    }
    let ghost ds = if s@.len() > 0 && s@[0] == '+' {
        s@.drop_first()
    } else {
        s@
    };
    proof {
        if start == 1 {
            assert(s@.drop_first() =~= s@.subrange(1, len as int));
        } else {
            assert(s@ =~= s@.subrange(0, len as int));
        }
    }
    if start >= len {
        return None;
    }
    let mut acc: u32 = 0;
    let mut i: usize = start;
    while i < len
        invariant
            start <= i <= len,
            len == s@.len(),
            start == 0 || start == 1,
            start == 1 ==> (s@.len() > 0 && s@[0] == '+'),
            start == 0 ==> !(s@.len() > 0 && s@[0] == '+'),
            ds == s@.subrange(start as int, len as int),
            forall|k: int| start <= k < i ==> is_dec_digit(#[trigger] s@[k]),
            acc == digits_val(s@.subrange(start as int, i as int)),
            acc <= u16::MAX,
        decreases len - i,
    {
        let c = s.get_char(i);
        if c < '0' || c > '9' {
            proof {
                if start == 1 {
                    assert(s@.drop_first() =~= s@.subrange(1, len as int));
                } else {
                    assert(s@ =~= s@.subrange(0, len as int));
                }
                assert(unsigned_digits(s@) == ds);
                assert(0 <= i - start < ds.len() && !is_dec_digit(ds[i - start]));
                assert(!all_dec_digits(unsigned_digits(s@)));
            }
            return None;
        }
        let d: u32 = (c as u32) - ('0' as u32);
        acc = acc * 10 + d;
        proof {
            assert(s@.subrange(start as int, i + 1).drop_last() =~= s@.subrange(
                start as int,
                i as int,
            ));
        }
        i = i + 1;
        if acc > 65535 {
            proof {
                if start == 1 {
                    assert(s@.drop_first() =~= s@.subrange(1, len as int));
                } else {
                    assert(s@ =~= s@.subrange(0, len as int));
                }
                let sub = s@.subrange(start as int, len as int);
                lemma_digits_val_monotone(sub, i - start, len - start);
                assert(sub.subrange(0, i - start) =~= s@.subrange(start as int, i as int));
                assert(sub.subrange(0, len - start) =~= sub);
            }
            return None;
        }
    }
    proof {
        if start == 1 {
            assert(s@.drop_first() =~= s@.subrange(1, len as int));
        } else {
            assert(s@ =~= s@.subrange(0, len as int));
        }
        assert(s@.subrange(start as int, len as int) =~= ds);
    }
    Some(acc as u16)
}

/// What `str::split(',')` yields: the pieces between commas, empty pieces
/// kept, one empty piece for the empty string.
pub open spec fn split_commas(s: Seq<char>) -> Seq<Seq<char>>
    decreases s.len(),
{
    if s.len() == 0 {
        seq![Seq::<char>::empty()]
    } else if s.last() == ',' {
        split_commas(s.drop_last()).push(Seq::<char>::empty())
    } else {
        let rest = split_commas(s.drop_last());
        rest.update(rest.len() - 1, rest.last().push(s.last()))
    }
}

/// The comma split always yields at least one piece.
proof fn lemma_split_commas_len(s: Seq<char>)
    ensures
        split_commas(s).len() >= 1,
    decreases s.len(),
{
    if s.len() > 0 {
        lemma_split_commas_len(s.drop_last());
    }
}

/// Splits on commas, as `str::split(',')` does.
pub fn split_commas_exec(s: &str) -> (v: Vec<String>)
    ensures
        v@.map_values(|p: String| p@) == split_commas(s@),
{
    let len: usize = s.unicode_len();
    let mut done: Vec<String> = Vec::new();
    let mut start: usize = 0;
    let mut i: usize = 0;
    while i < len
        invariant
            start <= i <= len,
            len == s@.len(),
            done@.map_values(|p: String| p@) =~= split_commas(s@.take(i as int)).drop_last(),
            split_commas(s@.take(i as int)).last() =~= s@.subrange(start as int, i as int),
        decreases len - i,
    {
        proof {
            lemma_split_commas_len(s@.take(i as int));
            lemma_split_commas_len(s@.take(i + 1));
            assert(s@.take(i + 1).drop_last() =~= s@.take(i as int));
        }
        let c = s.get_char(i);
        if c == ',' {
            let ghost old_done = done@;
            let piece = String::from_str(s.substring_char(start, i));
            done.push(piece);
            start = i + 1;
            proof {
                old_done.lemma_push_map_commute(|p: String| p@, piece);
                assert(s@.take(i + 1).last() == ',');
                assert(done@.map_values(|p: String| p@) =~= split_commas(s@.take(i as int)));
                assert(done@.map_values(|p: String| p@) =~= split_commas(s@.take(i + 1)).drop_last());
                assert(split_commas(s@.take(i + 1)).last() =~= s@.subrange(i + 1, i + 1));
            }
        } else {
            proof {
                let old_split = split_commas(s@.take(i as int));
                let new_split = split_commas(s@.take(i + 1));
                assert(new_split == old_split.update(
                    old_split.len() - 1,
                    old_split.last().push(s@[i as int]),
                ));
                assert(new_split.drop_last() =~= old_split.drop_last());
                assert(new_split.last() =~= s@.subrange(start as int, i + 1));
            }
        }
        i = i + 1;
    }
    proof {
        lemma_split_commas_len(s@.take(len as int));
        assert(s@.take(len as int) =~= s@);
    }
    let ghost old_done = done@;
    let piece = String::from_str(s.substring_char(start, len));
    done.push(piece);
    proof {
        old_done.lemma_push_map_commute(|p: String| p@, piece);
        assert(done@.map_values(|p: String| p@) =~= split_commas(s@));
    }
    done
}

/// `s` with leading and trailing whitespace removed.
pub open spec fn trim_spec(s: Seq<char>) -> Seq<char>
    decreases s.len(),
{
    if s.len() == 0 {
        s
    } else if is_space_char(s.first()) {
        trim_spec(s.drop_first())
    } else if is_space_char(s.last()) {
        trim_spec(s.drop_last())
    } else {
        s
    }
}

/// Removes leading and trailing whitespace, as `str::trim` does.
pub fn trim_str(s: &str) -> (r: String)
    ensures
        r@ == trim_spec(s@),
    decreases s@.len(),
{
    let n: usize = s.unicode_len();
    if n == 0 {
        String::new()
    } else if is_space(s.get_char(0)) {
        let rest = s.substring_char(1, n);
        proof {
            assert(rest@ =~= s@.drop_first());
        }
        trim_str(rest)
    } else if is_space(s.get_char(n - 1)) {
        let rest = s.substring_char(0, n - 1);
        proof {
            assert(rest@ =~= s@.drop_last());
        }
        trim_str(rest)
    } else {
        String::from_str(s)
    }
}

/// The parts joined with `sep` between consecutive parts.
pub open spec fn join_seq(parts: Seq<Seq<char>>, sep: Seq<char>) -> Seq<char>
    decreases parts.len(),
{
    if parts.len() == 0 {
        Seq::empty()
    } else if parts.len() == 1 {
        parts[0]
    } else {
        join_seq(parts.drop_last(), sep) + sep + parts.last()
    }
}

/// Joins the strings with the separator, as `[String]::join` does.
pub fn join_with(parts: &Vec<String>, sep: &str) -> (r: String)
    ensures
        r@ == join_seq(parts@.map_values(|p: String| p@), sep@),
{
    let ghost mapped = parts@.map_values(|p: String| p@);
    let mut r = String::new();
    let mut i: usize = 0;
    while i < parts.len()
        invariant
            i <= parts.len(),
            mapped == parts@.map_values(|p: String| p@),
            r@ == join_seq(mapped.take(i as int), sep@),
        decreases parts.len() - i,
    {
        if i > 0 {
            r.append(sep);
        }
        r.append(parts[i].as_str());
        proof {
            assert(mapped.take(i + 1).drop_last() =~= mapped.take(i as int));
            assert(mapped.take(i + 1).last() == mapped[i as int]);
            if i == 0 {
                assert(r@ =~= join_seq(mapped.take(1), sep@));
            }
        }
        i = i + 1;
    }
    proof {
        assert(mapped.take(parts@.len() as int) =~= mapped);
    }
    r
}

/// A character that percent-encoding leaves as it stands.
pub open spec fn is_url_safe(c: char) -> bool {
    ('0' <= c && c <= '9') || ('A' <= c && c <= 'Z') || ('a' <= c && c <= 'z') || c == '-' || c
        == '.' || c == '_' || c == '~'
}

/// One hexadecimal digit, upper case.
pub open spec fn hex_digit(d: nat) -> char {
    if d < 10 {
        dec_digit(d)
    } else if d == 10 {
        'A'
    } else if d == 11 {
        'B'
    } else if d == 12 {
        'C'
    } else if d == 13 {
        'D'
    } else if d == 14 {
        'E'
    } else {
        'F'
    }
}

/// Percent-encoding of one ASCII character.
pub open spec fn percent_encode_char(c: char) -> Seq<char> {
    if is_url_safe(c) {
        seq![c]
    } else {
        seq!['%', hex_digit((c as nat) / 16), hex_digit((c as nat) % 16)]
    }
}

/// Percent-encoding of an ASCII string, character by character.
pub open spec fn percent_encode_ascii(s: Seq<char>) -> Seq<char>
    decreases s.len(),
{
    if s.len() == 0 {
        Seq::empty()
    } else {
        percent_encode_ascii(s.drop_last()) + percent_encode_char(s.last())
    }
}

/// The result of `urlencoding::encode` on the string with these characters:
/// a function of the characters alone.
pub uninterp spec fn urlenc_of(s: Seq<char>) -> Seq<char>;

/// Relies on urlencoding::encode: percent-encodes every byte of the UTF-8
/// form except ASCII alphanumerics and `-`, `.`, `_`, `~`, with upper-case
/// hex digits; on an ASCII string that is exactly the character-wise
/// percent-encoding.
#[verifier::external_body]
pub fn url_encode(s: &str) -> (r: String)
    ensures
        r@ == urlenc_of(s@) && (vstd::utf8::is_ascii_chars(s@) ==> r@ == percent_encode_ascii(
            s@,
        )),
{
    urlencoding::encode(s).into_owned()
}

} // verus!
