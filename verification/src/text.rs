//! Character-level text operations with mathematical specifications.
//!
//! Strings are modelled by their `Seq<char>` views. The functions here are
//! the building blocks for keyword matching, prompt construction and plan
//! validation.
use vstd::prelude::*;

verus! {

/// Whether `c` has the Unicode `White_Space` property, the set that
/// `char::is_whitespace` and `str::trim` use.
pub open spec fn is_ws(c: char) -> bool {
    ||| ('\u{9}' <= c && c <= '\u{d}')
    ||| c == ' '
    ||| c == '\u{85}'
    ||| c == '\u{a0}'
    ||| c == '\u{1680}'
    ||| ('\u{2000}' <= c && c <= '\u{200a}')
    ||| c == '\u{2028}'
    ||| c == '\u{2029}'
    ||| c == '\u{202f}'
    ||| c == '\u{205f}'
    ||| c == '\u{3000}'
}

/// `s` with leading and trailing whitespace removed.
pub open spec fn trim_seq(s: Seq<char>) -> Seq<char>
    decreases s.len(),
{
    if s.len() > 0 && is_ws(s[0]) {
        trim_seq(s.drop_first())
    } else if s.len() > 0 && is_ws(s.last()) {
        trim_seq(s.drop_last())
    } else {
        s
    }
}

/// Whether `s` consists of whitespace only (the empty sequence included).
pub open spec fn is_blank(s: Seq<char>) -> bool {
    forall|i: int| 0 <= i < s.len() ==> is_ws(#[trigger] s[i])
}

/// ASCII lowercase mapping of one character; other characters are unchanged.
pub open spec fn lower(c: char) -> char {
    if 'A' <= c && c <= 'Z' {
        ((c as u32) + 32) as char
    } else {
        c
    }
}

/// ASCII lowercase mapping of a whole sequence.
pub open spec fn lower_seq(s: Seq<char>) -> Seq<char> {
    s.map_values(|c: char| lower(c))
}

/// Whether `pat` occurs in `text` at position `i`.
pub open spec fn occurs_at(text: Seq<char>, pat: Seq<char>, i: int) -> bool {
    &&& 0 <= i
    &&& i + pat.len() <= text.len()
    &&& text.subrange(i, i + pat.len()) == pat
}

/// Whether `pat` occurs somewhere in `text`.
pub open spec fn contains_seq(text: Seq<char>, pat: Seq<char>) -> bool {
    exists|i: int| occurs_at(text, pat, i)
}

/// Whether `pre` is a prefix of `s`.
pub open spec fn has_prefix(s: Seq<char>, pre: Seq<char>) -> bool {
    pre.len() <= s.len() && s.subrange(0, pre.len() as int) == pre
}

/// Whether `suf` is a suffix of `s`.
pub open spec fn has_suffix(s: Seq<char>, suf: Seq<char>) -> bool {
    suf.len() <= s.len() && s.subrange(s.len() - suf.len(), s.len() as int) == suf
}

/// `s` without the prefix `pre` when it has it, else `s` unchanged.
pub open spec fn strip_prefix_or_keep(s: Seq<char>, pre: Seq<char>) -> Seq<char> {
    if has_prefix(s, pre) {
        s.subrange(pre.len() as int, s.len() as int)
    } else {
        s
    }
}

/// `s` without the suffix `suf` when it has it, else `s` unchanged.
pub open spec fn strip_suffix_or_keep(s: Seq<char>, suf: Seq<char>) -> Seq<char> {
    if has_suffix(s, suf) {
        s.subrange(0, s.len() - suf.len())
    } else {
        s
    }
}

/// The decimal digit character for `d` (`0 <= d < 10`).
pub open spec fn digit_char(d: nat) -> char {
    ((d + 48) as u32) as char
}

/// Decimal representation of a natural number, without leading zeros.
pub open spec fn decimal(n: nat) -> Seq<char>
    decreases n,
{
    if n < 10 {
        seq![digit_char(n)]
    } else {
        decimal(n / 10).push(digit_char(n % 10))
    }
}

/// `2^k`.
pub open spec fn two_pow(k: nat) -> nat
    decreases k,
{
    if k == 0 {
        1
    } else {
        2 * two_pow((k - 1) as nat)
    }
}

/// `2^23 * 1000`: a magnitude of `a` thousandths scaled by `2^k` to at
/// least this, and below twice this, is `a / 1000` with 24 significant bits
/// before the point after scaling.
pub const SCALED_SIGNIFICAND_FLOOR: u128 = 8_388_608_000;

/// The smallest `k` from `j` on (below 64) with `a * 2^k` at least
/// [`SCALED_SIGNIFICAND_FLOOR`].
pub open spec fn significand_scale_from(a: nat, j: nat) -> nat
    decreases 64 - j,
{
    if j >= 64 || a * two_pow(j) >= SCALED_SIGNIFICAND_FLOOR {
        j
    } else {
        significand_scale_from(a, j + 1)
    }
}

/// `n / d` rounded to the nearest integer, ties to even.
pub open spec fn div_round_even(n: nat, d: nat) -> nat {
    let q = n / d;
    let r = n % d;
    if 2 * r > d || (2 * r == d && q % 2 == 1) {
        q + 1
    } else {
        q
    }
}

/// For a magnitude of `a >= 1` thousandths, the `f32` nearest to `a / 1000`
/// is `f32_significand(a) / 2^significand_scale_from(a, 0)`: the value is
/// scaled to 24 significant bits and rounded to an integer, ties to even.
pub open spec fn f32_significand(a: nat) -> nat {
    div_round_even(a * two_pow(significand_scale_from(a, 0)), 1000)
}

/// A thousandths value rounded to hundredths as `{:.2}` rounds the `f32`
/// nearest to it: the float's exact binary value is rounded, ties to even.
pub open spec fn hundredths_of(v: int) -> nat {
    let a = (if v < 0 { -v } else { v }) as nat;
    if a == 0 {
        0
    } else {
        div_round_even(f32_significand(a) * 100, two_pow(significand_scale_from(a, 0)))
    }
}

/// A thousandths value rendered with exactly two decimals, as `{:.2}`
/// renders the `f32` nearest to it: `700` as `0.70`, `-1250` as `-1.25`.
/// The float's exact value decides the last digit, ties to even: `125`
/// (exactly 0.125) shows as `0.12`, `135` (stored just above 0.135) as
/// `0.14` and `145` (stored just below 0.145) as `0.14`. A negative value
/// keeps its sign even when it rounds to zero.
pub open spec fn fixed2(v: int) -> Seq<char> {
    let h = hundredths_of(v);
    let sign = if v < 0 { seq!['-'] } else { Seq::<char>::empty() };
    sign + decimal(h / 100) + seq!['.', digit_char((h % 100) / 10), digit_char(h % 10)]
}

/// The views of a vector of strings.
pub open spec fn views(v: Seq<String>) -> Seq<Seq<char>> {
    v.map_values(|s: String| s@)
}

/// Appends one character to a string.
#[verifier::external_body]
pub(crate) fn push_char(s: &mut String, c: char)
    ensures
        final(s)@ == old(s)@.push(c),
{
    s.push(c);
}

/// What std's `Debug` for `str` writes for a text: the text between double
/// quotes, with quotes, backslashes, control characters, non-printable
/// characters and grapheme-extending marks escaped by std's own tables.
pub uninterp spec fn str_debug_text(s: Seq<char>) -> Seq<char>;

/// The debug rendering of a text, `format!("{:?}", s)`.
///
/// The contract names the result and says nothing more of it: the escape
/// set is std's `char::escape_debug`, driven by Unicode tables.
#[verifier::external_body]
pub(crate) fn str_debug(s: &str) -> (r: String)
    ensures
        r@ == str_debug_text(s@),
{
    format!("{:?}", s)
}

/// Returns a fresh string holding the characters of `s`.
pub fn string_of(s: &str) -> (r: String)
    ensures
        r@ == s@,
{
    let mut r = String::new();
    r.append(s);
    r
}

/// The characters of `s`, in order.
pub fn chars_of(s: &str) -> (v: Vec<char>)
    ensures
        v@ == s@,
{
    let mut v: Vec<char> = Vec::new();
    for c in it: s.chars()
        invariant
            v@ == it.seq().take(it.index() as int),
    {
        v.push(c);
    }
    v
}

/// A string made of `v[lo..hi]`.
pub fn string_from_range(v: &Vec<char>, lo: usize, hi: usize) -> (r: String)
    requires
        lo <= hi <= v.len(),
    ensures
        r@ == v@.subrange(lo as int, hi as int),
{
    let mut r = String::new();
    let mut i = lo;
    while i < hi
        invariant
            lo <= i <= hi <= v.len(),
            r@ == v@.subrange(lo as int, i as int),
        decreases hi - i,
    {
        push_char(&mut r, v[i]);
        assert(v@.subrange(lo as int, i + 1) == v@.subrange(lo as int, i as int).push(v@[i as int]));
        i = i + 1;
    }
    r
}

/// Whether `c` is a whitespace character.
pub fn is_whitespace_char(c: char) -> (b: bool)
    ensures
        b == is_ws(c),
{
    ('\u{9}' <= c && c <= '\u{d}') || c == ' ' || c == '\u{85}' || c == '\u{a0}' || c
        == '\u{1680}' || ('\u{2000}' <= c && c <= '\u{200a}') || c == '\u{2028}' || c
        == '\u{2029}' || c == '\u{202f}' || c == '\u{205f}' || c == '\u{3000}'
}

/// Trimming a sequence that neither starts nor ends with whitespace leaves it unchanged.
pub proof fn lemma_trim_stops(s: Seq<char>)
    requires
        s.len() == 0 || (!is_ws(s[0]) && !is_ws(s.last())),
    ensures
        trim_seq(s) == s,
{
}

/// The bounds of the trimmed part of `v`.
fn trim_bounds(v: &Vec<char>) -> (r: (usize, usize))
    ensures
        r.0 <= r.1 <= v.len(),
        trim_seq(v@) == v@.subrange(r.0 as int, r.1 as int),
{
    let mut i: usize = 0;
    let mut j: usize = v.len();
    assert(v@.subrange(0, v@.len() as int) == v@);
    while i < j && is_whitespace_char(v[i])
        invariant
            i <= j == v.len(),
            trim_seq(v@) == trim_seq(v@.subrange(i as int, j as int)),
        decreases j - i,
    {
        assert(v@.subrange(i as int, j as int).drop_first() == v@.subrange(i + 1, j as int));
        i = i + 1;
    }
    while j > i && is_whitespace_char(v[j - 1])
        invariant
            i <= j <= v.len(),
            i < j ==> !is_ws(v@[i as int]),
            trim_seq(v@) == trim_seq(v@.subrange(i as int, j as int)),
        decreases j - i,
    {
        let ghost sub = v@.subrange(i as int, j as int);
        assert(sub.drop_last() == v@.subrange(i as int, j - 1));
        assert(sub[0] == v@[i as int]);
        j = j - 1;
    }
    proof {
        let sub = v@.subrange(i as int, j as int);
        if sub.len() > 0 {
            assert(sub[0] == v@[i as int]);
            assert(sub.last() == v@[j - 1]);
        }
        lemma_trim_stops(sub);
    }
    (i, j)
}

/// `s` with leading and trailing whitespace removed.
pub fn trim(s: &str) -> (r: String)
    ensures
        r@ == trim_seq(s@),
{
    let v = chars_of(s);
    let (lo, hi) = trim_bounds(&v);
    string_from_range(&v, lo, hi)
}

/// Whether `s` holds nothing but whitespace.
pub fn is_blank_str(s: &str) -> (b: bool)
    ensures
        b == is_blank(s@),
        b == (trim_seq(s@).len() == 0),
{
    let v = chars_of(s);
    let (lo, hi) = trim_bounds(&v);
    proof {
        lemma_trim_empty_iff_blank(s@);
    }
    lo == hi
}

/// Trimming yields the empty sequence exactly when every character is whitespace.
pub proof fn lemma_trim_empty_iff_blank(s: Seq<char>)
    ensures
        (trim_seq(s).len() == 0) == is_blank(s),
    decreases s.len(),
{
    if s.len() > 0 && is_ws(s[0]) {
        lemma_trim_empty_iff_blank(s.drop_first());
        if is_blank(s.drop_first()) {
            assert forall|i: int| 0 <= i < s.len() implies is_ws(#[trigger] s[i]) by {
                if i > 0 {
                    assert(s[i] == s.drop_first()[i - 1]);
                }
            }
        } else {
            let k = choose|k: int| 0 <= k < s.drop_first().len() && !is_ws(#[trigger] s.drop_first()[k]);
            assert(s[k + 1] == s.drop_first()[k]);
        }
    } else if s.len() > 0 && is_ws(s.last()) {
        lemma_trim_empty_iff_blank(s.drop_last());
        assert(!is_ws(s[0]));
        assert(s.drop_last()[0] == s[0]);
    } else {
        if s.len() > 0 {
            assert(!is_ws(s[0]));
        }
    }
}

/// ASCII lowercase of one character.
pub fn lower_char(c: char) -> (r: char)
    ensures
        r == lower(c),
{
    if 'A' <= c && c <= 'Z' {
        let u: u32 = (c as u32) + 32;
        (u as u8) as char
    } else {
        c
    }
}

/// ASCII lowercase of a whole string; other characters are kept.
pub fn to_ascii_lowercase(s: &str) -> (r: String)
    ensures
        r@ == lower_seq(s@),
{
    let mut r = String::new();
    for c in it: s.chars()
        invariant
            r@ == lower_seq(it.seq().take(it.index() as int)),
    {
        let ghost before = it.seq().take(it.index() as int);
        push_char(&mut r, lower_char(c));
        assert(it.seq().take(it.index() + 1) == before.push(c));
        assert(lower_seq(before.push(c)) == lower_seq(before).push(lower(c)));
    }
    r
}

/// Whether `pat` occurs in `text` starting at index `i`.
fn occurs_at_exec(text: &Vec<char>, pat: &Vec<char>, i: usize) -> (b: bool)
    requires
        i + pat.len() <= text.len(),
    ensures
        b == occurs_at(text@, pat@, i as int),
{
    let mut k: usize = 0;
    while k < pat.len()
        invariant
            i + pat.len() <= text.len(),
            k <= pat.len(),
            forall|m: int| 0 <= m < k ==> text@[i + m] == pat@[m],
        decreases pat.len() - k,
    {
        if text[i + k] != pat[k] {
            assert(text@.subrange(i as int, i + pat.len())[k as int] != pat@[k as int]);
            return false;
        }
        k = k + 1;
    }
    assert(text@.subrange(i as int, i + pat.len()) == pat@);
    true
}

/// Whether `pat` occurs in `text`, searching every start position.
pub fn contains_chars(text: &Vec<char>, pat: &Vec<char>) -> (b: bool)
    ensures
        b == contains_seq(text@, pat@),
{
    if pat.len() > text.len() {
        return false;
    }
    if pat.len() == 0 {
        assert(text@.subrange(0, 0) == pat@);
        assert(occurs_at(text@, pat@, 0));
        return true;
    }
    let last = text.len() - pat.len();
    let mut i: usize = 0;
    while i <= last
        invariant
            last == text.len() - pat.len(),
            0 < pat.len() <= text.len(),
            i <= last + 1,
            forall|m: int| 0 <= m < i ==> !occurs_at(text@, pat@, m),
        decreases last + 1 - i,
    {
        if occurs_at_exec(text, pat, i) {
            return true;
        }
        i = i + 1;
    }
    false
}

/// Whether `pat` occurs in `text`.
pub fn contains(text: &str, pat: &str) -> (b: bool)
    ensures
        b == contains_seq(text@, pat@),
{
    let t = chars_of(text);
    let p = chars_of(pat);
    contains_chars(&t, &p)
}

/// `s` without the prefix `pre` when it starts with it, else `s` unchanged.
pub fn strip_prefix_or_keep_str(s: &str, pre: &str) -> (r: String)
    ensures
        r@ == strip_prefix_or_keep(s@, pre@),
{
    let v = chars_of(s);
    let p = chars_of(pre);
    if p.len() <= v.len() && occurs_at_exec(&v, &p, 0) {
        string_from_range(&v, p.len(), v.len())
    } else {
        string_from_range(&v, 0, v.len())
    }
}

/// `s` without the suffix `suf` when it ends with it, else `s` unchanged.
pub fn strip_suffix_or_keep_str(s: &str, suf: &str) -> (r: String)
    ensures
        r@ == strip_suffix_or_keep(s@, suf@),
{
    let v = chars_of(s);
    let p = chars_of(suf);
    if p.len() <= v.len() && occurs_at_exec(&v, &p, v.len() - p.len()) {
        string_from_range(&v, 0, v.len() - p.len())
    } else {
        string_from_range(&v, 0, v.len())
    }
}

/// The character for decimal digit `d`.
fn digit(d: u64) -> (c: char)
    requires
        d < 10,
    ensures
        c == digit_char(d as nat),
{
    ((d + 48) as u8) as char
}

/// Appends the decimal representation of `n`.
pub fn push_decimal(out: &mut String, n: u64)
    ensures
        final(out)@ == old(out)@ + decimal(n as nat),
    decreases n,
{
    if n >= 10 {
        push_decimal(out, n / 10);
        push_char(out, digit(n % 10));
    } else {
        push_char(out, digit(n));
    }
}

/// `n / d` rounded to the nearest integer, ties to even.
fn div_round_even_exec(n: u128, d: u128) -> (r: u128)
    requires
        0 < d <= 0x1_0000_0000_0000_0000,
        n <= 0x1_0000_0000_0000_0000_0000,
    ensures
        r == div_round_even(n as nat, d as nat),
{
    let q = n / d;
    let r = n % d;
    if 2 * r > d || (2 * r == d && q % 2 == 1) {
        q + 1
    } else {
        q
    }
}

/// A magnitude of `a` thousandths rounded to hundredths as [`hundredths_of`] does.
fn hundredths(a: u64) -> (h: u64)
    requires
        a <= 0x8000_0000,
    ensures
        h == hundredths_of(a as int),
{
    if a == 0 {
        return 0;
    }
    let wide: u128 = a as u128;
    let mut p: u128 = 1;
    let ghost mut k: nat = 0;
    assert(two_pow(0) == 1);
    while wide * p < SCALED_SIGNIFICAND_FLOOR
        invariant
            1 <= wide <= 0x8000_0000,
            wide == a,
            p == two_pow(k),
            p >= 1,
            wide * p < 2 * SCALED_SIGNIFICAND_FLOOR,
            k <= 40,
            significand_scale_from(a as nat, 0) == significand_scale_from(a as nat, k),
        decreases 2 * SCALED_SIGNIFICAND_FLOOR - wide * p,
    {
        proof {
            assert(p < SCALED_SIGNIFICAND_FLOOR) by (nonlinear_arith)
                requires
                    wide * p < SCALED_SIGNIFICAND_FLOOR,
                    wide >= 1,
            ;
            if k == 40 {
                lemma_two_pow_40();
                assert(false);
            }
            assert(wide * (2 * p) == 2 * (wide * p)) by (nonlinear_arith);
            assert(wide * p >= 1) by (nonlinear_arith)
                requires
                    wide >= 1,
                    p >= 1,
            ;
        }
        p = 2 * p;
        proof {
            k = k + 1;
        }
    }
    assert(significand_scale_from(a as nat, k) == k);
    assert(p < 2 * SCALED_SIGNIFICAND_FLOOR) by (nonlinear_arith)
        requires
            wide * p < 2 * SCALED_SIGNIFICAND_FLOOR,
            wide >= 1,
    ;
    let n: u128 = wide * p;
    let m: u128 = div_round_even_exec(n, 1000);
    assert(m <= n / 1000 + 1);
    let h: u128 = div_round_even_exec(m * 100, p);
    assert(h <= m * 100 + 1) by (nonlinear_arith)
        requires
            h == div_round_even((m * 100) as nat, p as nat),
            p >= 1,
    ;
    h as u64
}

/// `2^40` exceeds twice [`SCALED_SIGNIFICAND_FLOOR`].
proof fn lemma_two_pow_40()
    ensures
        two_pow(40) > 2 * SCALED_SIGNIFICAND_FLOOR,
{
    reveal_with_fuel(two_pow, 41);
}

/// Appends a thousandths value rendered with two decimals.
pub fn push_fixed2(out: &mut String, v: i32)
    ensures
        final(out)@ == old(out)@ + fixed2(v as int),
{
    let a: u64 = if v < 0 { (-(v as i64)) as u64 } else { v as u64 };
    let h: u64 = hundredths(a);
    assert(h == hundredths_of(v as int));
    let ghost start = out@;
    if v < 0 {
        push_char(out, '-');
    }
    push_decimal(out, h / 100);
    push_char(out, '.');
    push_char(out, digit((h % 100) / 10));
    push_char(out, digit(h % 10));
    proof {
        let sign = if v < 0 { seq!['-'] } else { Seq::<char>::empty() };
        assert(out@ == start + (sign + decimal((h / 100) as nat) + seq!['.', digit_char(((h % 100) / 10) as nat), digit_char((h % 10) as nat)]));
    }
}

/// A copy of every string in `v`.
pub fn clone_strings(v: &Vec<String>) -> (r: Vec<String>)
    ensures
        views(r@) == views(v@),
{
    let mut r: Vec<String> = Vec::new();
    let mut i: usize = 0;
    while i < v.len()
        invariant
            i <= v.len(),
            r.len() == i,
            forall|k: int| 0 <= k < i ==> (#[trigger] r@[k])@ == v@[k]@,
        decreases v.len() - i,
    {
        r.push(v[i].clone());
        i = i + 1;
    }
    assert(views(r@) == views(v@));
    r
}

/// Whether two strings hold the same characters.
pub fn str_eq(a: &str, b: &str) -> (r: bool)
    ensures
        r == (a@ == b@),
{
    let va = chars_of(a);
    let vb = chars_of(b);
    if va.len() != vb.len() {
        return false;
    }
    let mut i: usize = 0;
    while i < va.len()
        invariant
            va@ == a@,
            vb@ == b@,
            va.len() == vb.len(),
            i <= va.len(),
            forall|k: int| 0 <= k < i ==> va@[k] == vb@[k],
        decreases va.len() - i,
    {
        if va[i] != vb[i] {
            assert(va@[i as int] != vb@[i as int]);
            return false;
        }
        i = i + 1;
    }
    assert(va@ == vb@);
    true
}

/// Trimming keeps a contiguous part of the sequence that neither starts nor
/// ends with whitespace.
pub proof fn lemma_trim_is_subrange(s: Seq<char>) -> (r: (int, int))
    ensures
        0 <= r.0 <= r.1 <= s.len(),
        trim_seq(s) == s.subrange(r.0, r.1),
        trim_seq(s).len() == 0 || (!is_ws(trim_seq(s)[0]) && !is_ws(trim_seq(s).last())),
    decreases s.len(),
{
    if s.len() > 0 && is_ws(s[0]) {
        let (i, j) = lemma_trim_is_subrange(s.drop_first());
        assert(s.drop_first().subrange(i, j) =~= s.subrange(i + 1, j + 1));
        (i + 1, j + 1)
    } else if s.len() > 0 && is_ws(s.last()) {
        let (i, j) = lemma_trim_is_subrange(s.drop_last());
        assert(s.drop_last().subrange(i, j) =~= s.subrange(i, j));
        (i, j)
    } else {
        assert(s.subrange(0, s.len() as int) =~= s);
        (0, s.len() as int)
    }
}

/// Trimming twice is trimming once.
pub proof fn lemma_trim_idempotent(s: Seq<char>)
    ensures
        trim_seq(trim_seq(s)) == trim_seq(s),
{
    lemma_trim_is_subrange(s);
    lemma_trim_stops(trim_seq(s));
}

} // verus!
