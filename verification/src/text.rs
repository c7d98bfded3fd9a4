//! Text building blocks: decimal and fixed-point rendering, whitespace
//! trimming, lowercasing, and joining, each with the exact text it produces.
use vstd::prelude::*;

verus! {

/// The text of one decimal digit.
pub open spec fn digit_text(d: int) -> Seq<char> {
    if d == 0 {
        "0"@
    } else if d == 1 {
        "1"@
    } else if d == 2 {
        "2"@
    } else if d == 3 {
        "3"@
    } else if d == 4 {
        "4"@
    } else if d == 5 {
        "5"@
    } else if d == 6 {
        "6"@
    } else if d == 7 {
        "7"@
    } else if d == 8 {
        "8"@
    } else {
        "9"@
    }
}

/// The decimal text of a natural number, without leading zeros.
pub open spec fn decimal_text(n: nat) -> Seq<char>
    decreases n,
{
    if n < 10 {
        digit_text(n as int)
    } else {
        decimal_text(n / 10) + digit_text((n % 10) as int)
    }
}

/// The decimal text of an integer, with a leading `-` when negative.
pub open spec fn signed_decimal_text(n: int) -> Seq<char> {
    if n < 0 {
        "-"@ + decimal_text((-n) as nat)
    } else {
        decimal_text(n as nat)
    }
}

/// The fractional digits of `f` thousandths (`1 <= f <= 999`), without
/// trailing zeros.
pub open spec fn fraction_text(f: int) -> Seq<char> {
    let d1 = f / 100;
    let d2 = (f / 10) % 10;
    let d3 = f % 10;
    if d3 != 0 {
        digit_text(d1) + digit_text(d2) + digit_text(d3)
    } else if d2 != 0 {
        digit_text(d1) + digit_text(d2)
    } else {
        digit_text(d1)
    }
}

/// The text of a non-negative amount counted in thousandths: the whole part,
/// then a point and the fraction without trailing zeros when there is one.
pub open spec fn unsigned_milli_text(a: nat) -> Seq<char> {
    if a % 1000 == 0 {
        decimal_text(a / 1000)
    } else {
        decimal_text(a / 1000) + "."@ + fraction_text((a % 1000) as int)
    }
}

/// The text of an amount counted in thousandths (`1500` reads `1.5`,
/// `-250` reads `-0.25`, `3000` reads `3`).
pub open spec fn milli_text(q: int) -> Seq<char> {
    if q < 0 {
        "-"@ + unsigned_milli_text((-q) as nat)
    } else {
        unsigned_milli_text(q as nat)
    }
}

/// Whether `c` has the Unicode `White_Space` property.
pub open spec fn is_white_space(c: char) -> bool {
    let v = c as u32;
    ||| 0x9 <= v <= 0xd
    ||| v == 0x20
    ||| v == 0x85
    ||| v == 0xa0
    ||| v == 0x1680
    ||| 0x2000 <= v <= 0x200a
    ||| v == 0x2028
    ||| v == 0x2029
    ||| v == 0x202f
    ||| v == 0x205f
    ||| v == 0x3000
}

/// `s` without its leading white space.
pub open spec fn trim_start(s: Seq<char>) -> Seq<char>
    decreases s.len(),
{
    if s.len() > 0 && is_white_space(s[0]) {
        trim_start(s.drop_first())
    } else {
        s
    }
}

/// `s` without its trailing white space.
pub open spec fn trim_end(s: Seq<char>) -> Seq<char>
    decreases s.len(),
{
    if s.len() > 0 && is_white_space(s.last()) {
        trim_end(s.drop_last())
    } else {
        s
    }
}

/// `s` without its leading and trailing white space.
pub open spec fn trimmed(s: Seq<char>) -> Seq<char> {
    trim_end(trim_start(s))
}

/// What `str::to_lowercase` makes of a text (Unicode case mapping).
pub uninterp spec fn lowercase(s: Seq<char>) -> Seq<char>;

/// `str::to_lowercase`: the lowercase equivalent of the text under Unicode
/// case mapping. The contract names the result, and states the documented
/// fact that each character lowercases to one or more characters, so the
/// result is empty exactly when the text is.
#[verifier::external_body]
fn to_lowercase_str(s: &str) -> (r: String)
    ensures
        r@ == lowercase(s@),
        r@.len() == 0 <==> s@.len() == 0,
{
    s.to_lowercase()
}

/// Whether `c` has the Unicode `White_Space` property.
pub fn is_white_space_char(c: char) -> (r: bool)
    ensures
        r == is_white_space(c),
{
    let v = c as u32;
    (0x9 <= v && v <= 0xd) || v == 0x20 || v == 0x85 || v == 0xa0 || v == 0x1680 || (0x2000 <= v && v <= 0x200a)
        || v == 0x2028 || v == 0x2029 || v == 0x202f || v == 0x205f || v == 0x3000
}

proof fn lemma_trim_start_at(s: Seq<char>, i: int)
    requires
        0 <= i <= s.len(),
        forall|k: int| 0 <= k < i ==> is_white_space(#[trigger] s[k]),
        i == s.len() || !is_white_space(s[i]),
    ensures
        trim_start(s) == s.subrange(i, s.len() as int),
    decreases i,
{
    if i == 0 {
        assert(s.subrange(0, s.len() as int) =~= s);
    } else {
        assert(is_white_space(s[0]));
        let t = s.drop_first();
        assert forall|k: int| 0 <= k < i - 1 implies is_white_space(#[trigger] t[k]) by {
            assert(t[k] == s[k + 1]);
        }
        lemma_trim_start_at(t, i - 1);
        assert(t.subrange(i - 1, t.len() as int) =~= s.subrange(i, s.len() as int));
    }
}

proof fn lemma_trim_end_at(s: Seq<char>, j: int)
    requires
        0 <= j <= s.len(),
        forall|k: int| j <= k < s.len() ==> is_white_space(#[trigger] s[k]),
        j == 0 || !is_white_space(s[j - 1]),
    ensures
        trim_end(s) == s.subrange(0, j),
    decreases s.len() - j,
{
    if j == s.len() {
        assert(s.subrange(0, j) =~= s);
    } else {
        assert(is_white_space(s.last()));
        let t = s.drop_last();
        assert forall|k: int| j <= k < t.len() implies is_white_space(#[trigger] t[k]) by {
            assert(t[k] == s[k]);
        }
        lemma_trim_end_at(t, j);
        assert(t.subrange(0, j) =~= s.subrange(0, j));
    }
}

/// The text without leading and trailing white space (as `str::trim`), as a
/// new string.
pub fn trim_text(s: &str) -> (r: String)
    ensures
        r@ == trimmed(s@),
{
    let len = s.unicode_len();
    let mut i: usize = 0;
    while i < len
        invariant
            len == s@.len(),
            0 <= i <= len,
            forall|k: int| 0 <= k < i ==> is_white_space(#[trigger] s@[k]),
        ensures
            0 <= i <= len,
            forall|k: int| 0 <= k < i ==> is_white_space(#[trigger] s@[k]),
            i == len || !is_white_space(s@[i as int]),
        decreases len - i,
    {
        if !is_white_space_char(s.get_char(i)) {
            break;
        }
        i = i + 1;
    }
    proof {
        lemma_trim_start_at(s@, i as int);
    }
    let ghost rest = s@.subrange(i as int, len as int);
    let mut j: usize = len;
    while j > i
        invariant
            len == s@.len(),
            0 <= i <= j <= len,
            forall|k: int| j <= k < len ==> is_white_space(#[trigger] s@[k]),
        ensures
            0 <= i <= j <= len,
            forall|k: int| j <= k < len ==> is_white_space(#[trigger] s@[k]),
            j == i || !is_white_space(s@[j - 1]),
        decreases j - i,
    {
        if !is_white_space_char(s.get_char(j - 1)) {
            break;
        }
        j = j - 1;
    }
    proof {
        assert forall|k: int| j - i <= k < rest.len() implies is_white_space(#[trigger] rest[k]) by {
            assert(rest[k] == s@[k + i]);
        }
        if j > i {
            assert(rest[j - i - 1] == s@[j - 1]);
        }
        lemma_trim_end_at(rest, j - i);
        assert(rest.subrange(0, j - i) =~= s@.subrange(i as int, j as int));
    }
    String::from_str(s.substring_char(i, j))
}

/// The lowercase form of a text.
pub fn lowercase_text(s: &str) -> (r: String)
    ensures
        r@ == lowercase(s@),
        r@.len() == 0 <==> s@.len() == 0,
{
    to_lowercase_str(s)
}

/// The normalised form of a product name: trimmed, then lowercased. It is
/// empty exactly when the name is only white space.
pub fn normalize_name(s: &str) -> (r: String)
    ensures
        r@ == lowercase(trimmed(s@)),
        r@.len() == 0 <==> trimmed(s@).len() == 0,
{
    let t = trim_text(s);
    to_lowercase_str(t.as_str())
}

fn digit_str(d: u64) -> (r: &'static str)
    requires
        d < 10,
    ensures
        r@ == digit_text(d as int),
{
    if d == 0 {
        "0"
    } else if d == 1 {
        "1"
    } else if d == 2 {
        "2"
    } else if d == 3 {
        "3"
    } else if d == 4 {
        "4"
    } else if d == 5 {
        "5"
    } else if d == 6 {
        "6"
    } else if d == 7 {
        "7"
    } else if d == 8 {
        "8"
    } else {
        "9"
    }
}

/// Appends `tail` to a copy of `head`.
pub fn concat_text(head: &str, tail: &str) -> (r: String)
    ensures
        r@ == head@ + tail@,
{
    let mut s = String::from_str(head);
    s.append(tail);
    s
}

/// The decimal text of `n`.
pub fn u64_text(n: u64) -> (s: String)
    ensures
        s@ == decimal_text(n as nat),
{
    let mut m: u64 = n / 10;
    let mut s = String::from_str(digit_str(n % 10));
    assert(decimal_text(n as nat) == (if m > 0 { decimal_text(m as nat) } else { Seq::<char>::empty() }) + s@) by {
        if n >= 10 {
        } else {
            assert(Seq::<char>::empty() + s@ =~= s@);
        }
    }
    while m > 0
        invariant
            decimal_text(n as nat) == (if m > 0 { decimal_text(m as nat) } else { Seq::<char>::empty() }) + s@,
        decreases m,
    {
        let ghost old_s = s@;
        let d = digit_str(m % 10);
        s = concat_text(d, s.as_str());
        let ghost mm = m;
        m = m / 10;
        proof {
            if mm >= 10 {
                assert(decimal_text(mm as nat) == decimal_text(m as nat) + digit_text((mm % 10) as int));
                assert(decimal_text(m as nat) + digit_text((mm % 10) as int) + old_s =~= decimal_text(m as nat) + s@);
            } else {
                assert(Seq::<char>::empty() + s@ =~= s@);
            }
        }
    }
    s
}

/// The decimal text of `n`, with a leading `-` when negative.
pub fn i64_text(n: i64) -> (s: String)
    ensures
        s@ == signed_decimal_text(n as int),
{
    if n < 0 {
        let m: u64 = (0i128 - n as i128) as u64;
        let digits = u64_text(m);
        concat_text("-", digits.as_str())
    } else {
        u64_text(n as u64)
    }
}

fn unsigned_milli_string(a: u64) -> (s: String)
    ensures
        s@ == unsigned_milli_text(a as nat),
{
    let whole = u64_text(a / 1000);
    let f = a % 1000;
    if f == 0 {
        whole
    } else {
        let d1 = f / 100;
        let d2 = (f / 10) % 10;
        let d3 = f % 10;
        let mut frac = String::from_str(digit_str(d1));
        if d2 != 0 || d3 != 0 {
            frac.append(digit_str(d2));
        }
        if d3 != 0 {
            frac.append(digit_str(d3));
        }
        let mut s = whole;
        s.append(".");
        s.append(frac.as_str());
        proof {
            assert(s@ =~= decimal_text((a / 1000) as nat) + "."@ + fraction_text(f as int));
        }
        s
    }
}

/// The text of an amount counted in thousandths (see [`milli_text`]).
pub fn milli_string(q: i64) -> (s: String)
    ensures
        s@ == milli_text(q as int),
{
    if q < 0 {
        let m: u64 = (0i128 - q as i128) as u64;
        let t = unsigned_milli_string(m);
        concat_text("-", t.as_str())
    } else {
        unsigned_milli_string(q as u64)
    }
}

/// The parts one after the other, with `sep` between each two.
pub open spec fn join_text(parts: Seq<Seq<char>>, sep: Seq<char>) -> Seq<char>
    decreases parts.len(),
{
    if parts.len() == 0 {
        Seq::empty()
    } else if parts.len() == 1 {
        parts[0]
    } else {
        join_text(parts.drop_last(), sep) + sep + parts.last()
    }
}

/// The views of a list of strings.
pub open spec fn texts(v: Seq<String>) -> Seq<Seq<char>> {
    v.map_values(|s: String| s@)
}

/// Joins the strings with `sep` between each two.
pub fn join_strings(parts: &Vec<String>, sep: &str) -> (r: String)
    ensures
        r@ == join_text(texts(parts@), sep@),
{
    let mut s = String::new();
    let mut i: usize = 0;
    while i < parts.len()
        invariant
            0 <= i <= parts@.len(),
            s@ == join_text(texts(parts@.take(i as int)), sep@),
        decreases parts@.len() - i,
    {
        let ghost prev = texts(parts@.take(i as int));
        if i > 0 {
            s.append(sep);
        }
        s.append(parts[i].as_str());
        proof {
            let next = texts(parts@.take(i + 1));
            assert(next.drop_last() =~= prev);
            assert(next.last() == parts@[i as int]@);
            if i == 0 {
                assert(s@ =~= parts@[0]@);
            }
        }
        i = i + 1;
    }
    assert(parts@.take(parts@.len() as int) =~= parts@);
    s
}

} // verus!
