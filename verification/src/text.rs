//! Character classes, trimming, splitting and decimal numbers, stated over
//! `Seq<char>` and implemented on `Vec<char>`.
use vstd::prelude::*;

verus! {

pub open spec fn code_of(c: char) -> u32 {
    c as u32
}

pub open spec fn is_ascii_upper(c: char) -> bool {
    65 <= code_of(c) && code_of(c) <= 90
}

pub open spec fn is_ascii_lower(c: char) -> bool {
    97 <= code_of(c) && code_of(c) <= 122
}

pub open spec fn is_ascii_alpha(c: char) -> bool {
    is_ascii_upper(c) || is_ascii_lower(c)
}

pub open spec fn is_ascii_digit(c: char) -> bool {
    48 <= code_of(c) && code_of(c) <= 57
}

/// The Unicode `White_Space` property, which is what `char::is_whitespace`,
/// `str::trim` and `str::split_whitespace` go by.
pub open spec fn is_whitespace(c: char) -> bool {
    let u = code_of(c);
    ||| 9 <= u && u <= 13
    ||| u == 32
    ||| u == 0x85
    ||| u == 0xA0
    ||| u == 0x1680
    ||| 0x2000 <= u && u <= 0x200A
    ||| u == 0x2028
    ||| u == 0x2029
    ||| u == 0x202F
    ||| u == 0x205F
    ||| u == 0x3000
}

pub fn is_ascii_alpha_char(c: char) -> (b: bool)
    ensures
        b == is_ascii_alpha(c),
{
    let u = c as u32;
    (65 <= u && u <= 90) || (97 <= u && u <= 122)
}

pub fn is_whitespace_char(c: char) -> (b: bool)
    ensures
        b == is_whitespace(c),
{
    let u = c as u32;
    (9 <= u && u <= 13) || u == 32 || u == 0x85 || u == 0xA0 || u == 0x1680 || (0x2000 <= u && u
        <= 0x200A) || u == 0x2028 || u == 0x2029 || u == 0x202F || u == 0x205F || u == 0x3000
}

/// The characters of a string slice, in order (`str::chars`).
pub fn chars_of(s: &str) -> (v: Vec<char>)
    ensures
        v@ == s@,
{
    broadcast use vstd::string::axiom_spec_iter;
    let mut v: Vec<char> = Vec::new();
    for c in it: s.chars()
        invariant
            v@ == it.seq().take(it.index() as int),
            it.seq() == s@,
    {
        v.push(c);
        assert(v@ =~= it.seq().take(it.index() + 1));
    }
    assert(v@ =~= s@);
    v
}

/// `String::from_iter` over characters: trusted to give the string made of
/// exactly these characters, in order.
#[verifier::external_body]
pub(crate) fn string_from_chars(cs: &[char]) -> (s: String)
    ensures
        s@ == cs@,
{
    String::from_iter(cs)
}


// ---------------------------------------------------------------- trimming

/// How many whitespace characters `s` starts with.
pub open spec fn leading_ws(s: Seq<char>) -> nat
    decreases s.len(),
{
    if s.len() > 0 && is_whitespace(s[0]) { 1 + leading_ws(s.drop_first()) } else { 0 }
}

/// How many whitespace characters `s` ends with.
pub open spec fn trailing_ws(s: Seq<char>) -> nat
    decreases s.len(),
{
    if s.len() > 0 && is_whitespace(s.last()) { 1 + trailing_ws(s.drop_last()) } else { 0 }
}

/// `s` without its leading and trailing whitespace (`str::trim`).
pub open spec fn trim_spec(s: Seq<char>) -> Seq<char> {
    if leading_ws(s) == s.len() {
        Seq::empty()
    } else {
        s.subrange(leading_ws(s) as int, s.len() - trailing_ws(s))
    }
}

proof fn lemma_leading_ws_bound(s: Seq<char>)
    ensures
        leading_ws(s) <= s.len(),
        leading_ws(s) < s.len() ==> !is_whitespace(s[leading_ws(s) as int]),
        forall|j: int| 0 <= j < leading_ws(s) ==> is_whitespace(#[trigger] s[j]),
    decreases s.len(),
{
    if s.len() > 0 && is_whitespace(s[0]) {
        lemma_leading_ws_bound(s.drop_first());
        assert forall|j: int| 0 <= j < leading_ws(s) implies is_whitespace(#[trigger] s[j]) by {
            if j > 0 {
                assert(s[j] == s.drop_first()[j - 1]);
            }
        }
    }
}

proof fn lemma_trailing_ws_bound(s: Seq<char>)
    ensures
        trailing_ws(s) <= s.len(),
        trailing_ws(s) < s.len() ==> !is_whitespace(s[s.len() - 1 - trailing_ws(s)]),
        forall|j: int| s.len() - trailing_ws(s) <= j < s.len() ==> is_whitespace(#[trigger] s[j]),
    decreases s.len(),
{
    if s.len() > 0 && is_whitespace(s.last()) {
        lemma_trailing_ws_bound(s.drop_last());
        assert forall|j: int| s.len() - trailing_ws(s) <= j < s.len() implies is_whitespace(#[trigger] s[j]) by {
            if j < s.len() - 1 {
                assert(s[j] == s.drop_last()[j]);
            }
        }
    }
}

/// `leading_ws` counted from the front: the first `i` characters are whitespace.
proof fn lemma_leading_ws_skip(s: Seq<char>, i: int)
    requires
        0 <= i <= s.len(),
        forall|j: int| 0 <= j < i ==> is_whitespace(#[trigger] s[j]),
    ensures
        leading_ws(s) == i + leading_ws(s.skip(i)),
    decreases i,
{
    if i > 0 {
        assert(s.drop_first().skip(i - 1) =~= s.skip(i));
        assert forall|j: int| 0 <= j < i - 1 implies is_whitespace(#[trigger] s.drop_first()[j]) by {
            assert(s.drop_first()[j] == s[j + 1]);
        }
        lemma_leading_ws_skip(s.drop_first(), i - 1);
    } else {
        assert(s.skip(0) =~= s);
    }
}

proof fn lemma_trailing_ws_take(s: Seq<char>, k: int)
    requires
        0 <= k <= s.len(),
        forall|j: int| k <= j < s.len() ==> is_whitespace(#[trigger] s[j]),
    ensures
        trailing_ws(s) == (s.len() - k) + trailing_ws(s.take(k)),
    decreases s.len() - k,
{
    if k < s.len() {
        assert(s.drop_last().take(k) =~= s.take(k));
        assert forall|j: int| k <= j < s.len() - 1 implies is_whitespace(#[trigger] s.drop_last()[j]) by {
            assert(s.drop_last()[j] == s[j]);
        }
        lemma_trailing_ws_take(s.drop_last(), k);
    } else {
        assert(s.take(k) =~= s);
    }
}

/// The characters of `s` without leading and trailing whitespace.
pub fn trim_chars(s: &[char]) -> (r: Vec<char>)
    ensures
        r@ == trim_spec(s@),
{
    let n = s.len();
    let mut i: usize = 0;
    while i < n && is_whitespace_char(s[i])
        invariant
            n == s@.len(),
            i <= n,
            forall|j: int| 0 <= j < i ==> is_whitespace(#[trigger] s@[j]),
        decreases n - i,
    {
        i = i + 1;
    }
    proof {
        lemma_leading_ws_skip(s@, i as int);
        if i < n {
            assert(s@.skip(i as int)[0] == s@[i as int]);
        }
    }
    let mut r: Vec<char> = Vec::new();
    if i == n {
        return r;
    }
    let mut k: usize = n;
    while k > i && is_whitespace_char(s[k - 1])
        invariant
            n == s@.len(),
            i < n,
            !is_whitespace(s@[i as int]),
            i <= k <= n,
            forall|j: int| k <= j < n ==> is_whitespace(#[trigger] s@[j]),
        decreases k,
    {
        k = k - 1;
    }
    proof {
        lemma_trailing_ws_take(s@, k as int);
        assert(k > i);
        assert(s@.take(k as int).last() == s@[k - 1]);
    }
    let mut j: usize = i;
    while j < k
        invariant
            i <= j <= k <= n,
            n == s@.len(),
            r@ == s@.subrange(i as int, j as int),
        decreases k - j,
    {
        r.push(s[j]);
        j = j + 1;
        assert(r@ =~= s@.subrange(i as int, j as int));
    }
    r
}

/// A text with a character that is not whitespace does not trim to nothing.
pub proof fn lemma_trim_nonempty(s: Seq<char>, i: int)
    requires
        0 <= i < s.len(),
        !is_whitespace(s[i]),
    ensures
        trim_spec(s).len() > 0,
{
    lemma_leading_ws_bound(s);
    lemma_trailing_ws_bound(s);
    if leading_ws(s) > i {
        assert(is_whitespace(s[i]));
    }
    if s.len() - trailing_ws(s) <= i {
        assert(is_whitespace(s[i]));
    }
}

/// Whether a text is empty once trimmed (`str::trim` then `is_empty`).
pub fn is_blank(s: &str) -> (b: bool)
    ensures
        b == (trim_spec(s@).len() == 0),
{
    let chars = chars_of(s);
    trim_chars(chars.as_slice()).len() == 0
}

// ---------------------------------------------------------------- splitting

/// Reading `s` left to right: the pieces before each `sep` so far, and the
/// piece in progress.
pub open spec fn split_scan(s: Seq<char>, sep: char) -> (Seq<Seq<char>>, Seq<char>)
    decreases s.len(),
{
    if s.len() == 0 {
        (Seq::empty(), Seq::empty())
    } else {
        let (done, cur) = split_scan(s.drop_last(), sep);
        if s.last() == sep { (done.push(cur), Seq::empty()) } else { (done, cur.push(s.last())) }
    }
}

/// The pieces between occurrences of `sep` (`str::split`), empty pieces
/// included; there is always at least one.
pub open spec fn split_spec(s: Seq<char>, sep: char) -> Seq<Seq<char>> {
    let (done, cur) = split_scan(s, sep);
    done.push(cur)
}

pub open spec fn views_of(v: Seq<Vec<char>>) -> Seq<Seq<char>> {
    v.map_values(|t: Vec<char>| t@)
}

/// The pieces of `s` between occurrences of `sep`.
pub fn split_chars(s: &[char], sep: char) -> (r: Vec<Vec<char>>)
    ensures
        views_of(r@) == split_spec(s@, sep),
{
    let mut done: Vec<Vec<char>> = Vec::new();
    let mut cur: Vec<char> = Vec::new();
    let mut i: usize = 0;
    while i < s.len()
        invariant
            i <= s.len(),
            split_scan(s@.take(i as int), sep) == (views_of(done@), cur@),
        decreases s.len() - i,
    {
        assert(s@.take(i + 1).drop_last() =~= s@.take(i as int));
        let c = s[i];
        if c == sep {
            let ghost d = done@;
            let finished = cur;
            done.push(finished);
            cur = Vec::new();
            assert(views_of(done@) =~= views_of(d).push(finished@));
            assert(cur@ =~= Seq::<char>::empty());
        } else {
            cur.push(c);
        }
        i = i + 1;
    }
    assert(s@.take(s@.len() as int) =~= s@);
    let ghost d = done@;
    let finished = cur;
    done.push(finished);
    assert(views_of(done@) =~= views_of(d).push(finished@));
    done
}

// ---------------------------------------------------------------- numbers

pub open spec fn all_digits(d: Seq<char>) -> bool {
    forall|i: int| 0 <= i < d.len() ==> is_ascii_digit(#[trigger] d[i])
}

/// The number a run of decimal digits spells.
pub open spec fn digits_value(d: Seq<char>) -> int
    decreases d.len(),
{
    if d.len() == 0 { 0 } else { digits_value(d.drop_last()) * 10 + (code_of(d.last()) - 48) }
}

/// What `str::parse::<i32>` accepts: an optional `+` or `-`, then one or more
/// ASCII digits, the value within `i32`.
pub open spec fn parse_i32_spec(s: Seq<char>) -> Option<i32> {
    let signed = s.len() > 0 && (s[0] == '+' || s[0] == '-');
    let negative = s.len() > 0 && s[0] == '-';
    let d = if signed { s.drop_first() } else { s };
    let v = if negative { -digits_value(d) } else { digits_value(d) };
    if d.len() == 0 || !all_digits(d) || v < i32::MIN || v > i32::MAX {
        None
    } else {
        Some(v as i32)
    }
}

/// What `str::parse::<usize>` accepts: an optional `+`, then one or more
/// ASCII digits, the value within `usize`.
pub open spec fn parse_usize_spec(s: Seq<char>) -> Option<usize> {
    let d = if s.len() > 0 && s[0] == '+' { s.drop_first() } else { s };
    if d.len() == 0 || !all_digits(d) || digits_value(d) > usize::MAX {
        None
    } else {
        Some(digits_value(d) as usize)
    }
}

proof fn lemma_digits_value_grows(d: Seq<char>, k: int)
    requires
        0 <= k <= d.len(),
        all_digits(d),
    ensures
        0 <= digits_value(d.take(k)) <= digits_value(d),
    decreases d.len() - k,
{
    if k < d.len() {
        lemma_digits_value_grows(d.drop_last(), if k < d.len() { k } else { k - 1 });
        assert(d.drop_last().take(k) =~= d.take(k));
        assert(all_digits(d.drop_last()));
        lemma_digits_value_grows(d.drop_last(), d.len() - 1);
        assert(d.drop_last().take(d.len() - 1) =~= d.drop_last());
    } else {
        assert(d.take(k) =~= d);
        lemma_digits_nonneg(d);
    }
}

proof fn lemma_digits_nonneg(d: Seq<char>)
    requires
        all_digits(d),
    ensures
        digits_value(d) >= 0,
    decreases d.len(),
{
    if d.len() > 0 {
        assert(all_digits(d.drop_last()));
        lemma_digits_nonneg(d.drop_last());
    }
}

/// Reads the digits of `d` while the value stays at most `limit`.
fn read_digits(d: &[char], limit: u128) -> (r: Option<u128>)
    requires
        limit <= 0x1000_0000_0000_0000_0000_0000_0000_0000int,
    ensures
        match r {
            Some(v) => d@.len() > 0 && all_digits(d@) && v == digits_value(d@) && v <= limit,
            None => d@.len() == 0 || !all_digits(d@) || digits_value(d@) > limit,
        },
{
    if d.len() == 0 {
        return None;
    }
    let mut acc: u128 = 0;
    let mut i: usize = 0;
    while i < d.len()
        invariant
            limit <= 0x1000_0000_0000_0000_0000_0000_0000_0000int,
            i <= d@.len(),
            all_digits(d@.take(i as int)),
            acc == digits_value(d@.take(i as int)),
            acc <= limit,
        decreases d@.len() - i,
    {
        let c = d[i];
        let u = c as u32;
        assert(d@.take(i + 1).drop_last() =~= d@.take(i as int));
        if u < 48 || u > 57 {
            assert(!is_ascii_digit(d@[i as int]));
            return None;
        }
        assert(all_digits(d@.take(i + 1))) by {
            assert forall|j: int| 0 <= j < i + 1 implies is_ascii_digit(#[trigger] d@.take(i + 1)[j]) by {
                if j < i {
                    assert(d@.take(i + 1)[j] == d@.take(i as int)[j]);
                }
            }
        }
        acc = acc * 10 + (u - 48) as u128;
        if acc > limit {
            proof {
                if all_digits(d@) {
                    lemma_digits_value_grows(d@, i + 1);
                }
            }
            return None;
        }
        i = i + 1;
    }
    assert(d@.take(d@.len() as int) =~= d@);
    Some(acc)
}

/// `str::parse::<i32>` on characters.
pub fn parse_i32(s: &[char]) -> (r: Option<i32>)
    ensures
        r == parse_i32_spec(s@),
{
    let signed = s.len() > 0 && (s[0] == '+' || s[0] == '-');
    let negative = s.len() > 0 && s[0] == '-';
    let start: usize = if signed { 1 } else { 0 };
    let mut d: Vec<char> = Vec::new();
    let mut i: usize = start;
    while i < s.len()
        invariant
            start <= i <= s@.len(),
            d@ == s@.subrange(start as int, i as int),
        decreases s@.len() - i,
    {
        d.push(s[i]);
        i = i + 1;
        assert(d@ =~= s@.subrange(start as int, i as int));
    }
    proof {
        if signed {
            assert(d@ =~= s@.drop_first());
        } else {
            assert(d@ =~= s@);
        }
    }
    match read_digits(d.as_slice(), 2147483648) {
        None => None,
        Some(v) => {
            if negative {
                let x: i64 = -(v as i64);
                Some(x as i32)
            } else if v <= 2147483647 {
                Some(v as i32)
            } else {
                None
            }
        },
    }
}

/// `str::parse::<usize>` on characters.
pub fn parse_usize(s: &[char]) -> (r: Option<usize>)
    ensures
        r == parse_usize_spec(s@),
{
    let start: usize = if s.len() > 0 && s[0] == '+' { 1 } else { 0 };
    let mut d: Vec<char> = Vec::new();
    let mut i: usize = start;
    while i < s.len()
        invariant
            start <= i <= s@.len(),
            d@ == s@.subrange(start as int, i as int),
        decreases s@.len() - i,
    {
        d.push(s[i]);
        i = i + 1;
        assert(d@ =~= s@.subrange(start as int, i as int));
    }
    proof {
        if start == 1 {
            assert(d@ =~= s@.drop_first());
        } else {
            assert(d@ =~= s@);
        }
    }
    match read_digits(d.as_slice(), usize::MAX as u128) {
        Some(v) => Some(v as usize),
        None => None,
    }
}


pub open spec fn digit_char(n: int) -> char {
    ((48 + n) as u8) as char
}

/// The decimal digits of `n`, most significant first, without leading zeros.
pub open spec fn decimal_digits(n: nat) -> Seq<char>
    decreases n,
{
    if n < 10 { seq![digit_char(n as int)] } else { decimal_digits(n / 10).push(digit_char((n % 10) as int)) }
}

/// `x` written in decimal, with `-` in front when negative (`Display` for integers).
pub open spec fn decimal_int(x: int) -> Seq<char> {
    if x < 0 { seq!['-'] + decimal_digits((-x) as nat) } else { decimal_digits(x as nat) }
}

fn digits_of(n: u64) -> (r: Vec<char>)
    ensures
        r@ == decimal_digits(n as nat),
    decreases n,
{
    let d: u8 = (n % 10) as u8;
    let c = (48 + d) as char;
    if n < 10 {
        vec![c]
    } else {
        let mut v = digits_of(n / 10);
        v.push(c);
        v
    }
}

/// `x` in decimal.
pub fn decimal_i64(x: i64) -> (r: Vec<char>)
    ensures
        r@ == decimal_int(x as int),
{
    if x < 0 {
        let m: u64 = if x == i64::MIN { 9223372036854775808 } else { (-x) as u64 };
        let digits = digits_of(m);
        let mut r = vec!['-'];
        let mut i: usize = 0;
        while i < digits.len()
            invariant
                i <= digits@.len(),
                r@ == seq!['-'] + digits@.take(i as int),
            decreases digits@.len() - i,
        {
            r.push(digits[i]);
            i = i + 1;
            assert(r@ =~= seq!['-'] + digits@.take(i as int));
        }
        assert(digits@.take(digits@.len() as int) =~= digits@);
        r
    } else {
        digits_of(x as u64)
    }
}

/// `n` in decimal.
pub fn decimal_usize(n: usize) -> (r: Vec<char>)
    ensures
        r@ == decimal_int(n as int),
{
    digits_of(n as u64)
}

pub proof fn lemma_decimal_digits(n: nat)
    ensures
        decimal_digits(n).len() > 0,
        all_digits(decimal_digits(n)),
        digits_value(decimal_digits(n)) == n,
    decreases n,
{
    if n < 10 {
        assert(decimal_digits(n).drop_last() =~= Seq::<char>::empty());
        assert(code_of(decimal_digits(n).last()) == 48 + n);
        assert(digits_value(Seq::<char>::empty()) == 0);
    } else {
        lemma_decimal_digits(n / 10);
        let d = decimal_digits(n);
        assert(d.drop_last() =~= decimal_digits(n / 10));
        vstd::arithmetic::div_mod::lemma_fundamental_div_mod(n as int, 10);
        assert(code_of(d.last()) == 48 + n % 10);
        assert(digits_value(d) == digits_value(decimal_digits(n / 10)) * 10 + (n % 10));
        assert forall|i: int| 0 <= i < d.len() implies is_ascii_digit(#[trigger] d[i]) by {
            if i < d.len() - 1 {
                assert(d[i] == decimal_digits(n / 10)[i]);
            }
        }
    }
}

/// Reading back a written `i32` gives the number.
pub proof fn lemma_parse_decimal_i32(x: i32)
    ensures
        parse_i32_spec(decimal_int(x as int)) == Some(x),
{
    let s = decimal_int(x as int);
    if x < 0 {
        lemma_decimal_digits((-x) as nat);
        assert(s.drop_first() =~= decimal_digits((-x) as nat));
    } else {
        lemma_decimal_digits(x as nat);
        assert(is_ascii_digit(s[0]));
    }
}

/// Reading back a written `usize` gives the number.
pub proof fn lemma_parse_decimal_usize(n: usize)
    ensures
        parse_usize_spec(decimal_int(n as int)) == Some(n),
{
    lemma_decimal_digits(n as nat);
    assert(is_ascii_digit(decimal_int(n as int)[0]));
}

// ---------------------------------------------------------------- joining

/// The parts with `sep` between each two (`[String]::join`).
pub open spec fn join_with(parts: Seq<Seq<char>>, sep: Seq<char>) -> Seq<char>
    decreases parts.len(),
{
    if parts.len() == 0 {
        Seq::empty()
    } else if parts.len() == 1 {
        parts[0]
    } else {
        join_with(parts.drop_last(), sep) + sep + parts.last()
    }
}

/// The characters of each string.
pub open spec fn string_views(v: Seq<String>) -> Seq<Seq<char>> {
    v.map_values(|s: String| s@)
}

/// The strings joined with `sep` between each two.
pub fn join_strings(parts: &[String], sep: &str) -> (r: String)
    ensures
        r@ == join_with(string_views(parts@), sep@),
{
    let ghost ps = string_views(parts@);
    let sep_chars = chars_of(sep);
    let mut out: Vec<char> = Vec::new();
    let mut i: usize = 0;
    while i < parts.len()
        invariant
            i <= parts@.len(),
            ps == string_views(parts@),
            sep_chars@ == sep@,
            out@ == join_with(ps.take(i as int), sep@),
        decreases parts@.len() - i,
    {
        assert(ps.take(i + 1).drop_last() =~= ps.take(i as int));
        assert(ps.take(i + 1).last() == parts@[i as int]@);
        let ghost before = out@;
        if i > 0 {
            push_all(&mut out, sep_chars.as_slice());
        }
        let part = chars_of(parts[i].as_str());
        push_all(&mut out, part.as_slice());
        proof {
            if i == 0 {
                assert(out@ =~= part@);
            } else {
                assert(out@ =~= before + sep@ + part@);
            }
        }
        i = i + 1;
    }
    assert(ps.take(ps.len() as int) =~= ps);
    string_from_chars(out.as_slice())
}

/// Appends characters.
pub fn push_all(out: &mut Vec<char>, more: &[char])
    ensures
        final(out)@ == old(out)@ + more@,
{
    let ghost start = old(out)@;
    let mut i: usize = 0;
    while i < more.len()
        invariant
            i <= more@.len(),
            out@ == start + more@.take(i as int),
        decreases more@.len() - i,
    {
        out.push(more[i]);
        i = i + 1;
        assert(out@ =~= start + more@.take(i as int));
    }
    assert(more@.take(more@.len() as int) =~= more@);
}

} // verus!
