//! International Morse code for the letters, the digits and the space, with
//! one space between symbols and `/` for a space.
use vstd::prelude::*;
use crate::error::{ErrorModel, SighFarError};
use crate::primitives::{str_lowercase, text_lowercase};
use crate::text::{chars_of, join_with, string_from_chars};
use crate::text::{code_of, is_ascii_upper, is_whitespace, is_whitespace_char};

verus! {

/// The code of each character the table knows.
pub open spec fn morse_code(c: char) -> Option<Seq<char>> {
    match c {
        'a' => Some(seq!['.', '-']),
        'b' => Some(seq!['-', '.', '.', '.']),
        'c' => Some(seq!['-', '.', '-', '.']),
        'd' => Some(seq!['-', '.', '.']),
        'e' => Some(seq!['.']),
        'f' => Some(seq!['.', '.', '-', '.']),
        'g' => Some(seq!['-', '-', '.']),
        'h' => Some(seq!['.', '.', '.', '.']),
        'i' => Some(seq!['.', '.']),
        'j' => Some(seq!['.', '-', '-', '-']),
        'k' => Some(seq!['-', '.', '-']),
        'l' => Some(seq!['.', '-', '.', '.']),
        'm' => Some(seq!['-', '-']),
        'n' => Some(seq!['-', '.']),
        'o' => Some(seq!['-', '-', '-']),
        'p' => Some(seq!['.', '-', '-', '.']),
        'q' => Some(seq!['-', '-', '.', '-']),
        'r' => Some(seq!['.', '-', '.']),
        's' => Some(seq!['.', '.', '.']),
        't' => Some(seq!['-']),
        'u' => Some(seq!['.', '.', '-']),
        'v' => Some(seq!['.', '.', '.', '-']),
        'w' => Some(seq!['.', '-', '-']),
        'x' => Some(seq!['-', '.', '.', '-']),
        'y' => Some(seq!['-', '.', '-', '-']),
        'z' => Some(seq!['-', '-', '.', '.']),
        '0' => Some(seq!['-', '-', '-', '-', '-']),
        '1' => Some(seq!['.', '-', '-', '-', '-']),
        '2' => Some(seq!['.', '.', '-', '-', '-']),
        '3' => Some(seq!['.', '.', '.', '-', '-']),
        '4' => Some(seq!['.', '.', '.', '.', '-']),
        '5' => Some(seq!['.', '.', '.', '.', '.']),
        '6' => Some(seq!['-', '.', '.', '.', '.']),
        '7' => Some(seq!['-', '-', '.', '.', '.']),
        '8' => Some(seq!['-', '-', '-', '.', '.']),
        '9' => Some(seq!['-', '-', '-', '-', '.']),
        ' ' => Some(seq!['/']),
        _ => None,
    }
}

/// The table's `k`-th character, in table order.
pub open spec fn morse_entry(k: int) -> char {
    if k == 0 {
        'a'
    } else if k == 1 {
        'b'
    } else if k == 2 {
        'c'
    } else if k == 3 {
        'd'
    } else if k == 4 {
        'e'
    } else if k == 5 {
        'f'
    } else if k == 6 {
        'g'
    } else if k == 7 {
        'h'
    } else if k == 8 {
        'i'
    } else if k == 9 {
        'j'
    } else if k == 10 {
        'k'
    } else if k == 11 {
        'l'
    } else if k == 12 {
        'm'
    } else if k == 13 {
        'n'
    } else if k == 14 {
        'o'
    } else if k == 15 {
        'p'
    } else if k == 16 {
        'q'
    } else if k == 17 {
        'r'
    } else if k == 18 {
        's'
    } else if k == 19 {
        't'
    } else if k == 20 {
        'u'
    } else if k == 21 {
        'v'
    } else if k == 22 {
        'w'
    } else if k == 23 {
        'x'
    } else if k == 24 {
        'y'
    } else if k == 25 {
        'z'
    } else if k == 26 {
        '0'
    } else if k == 27 {
        '1'
    } else if k == 28 {
        '2'
    } else if k == 29 {
        '3'
    } else if k == 30 {
        '4'
    } else if k == 31 {
        '5'
    } else if k == 32 {
        '6'
    } else if k == 33 {
        '7'
    } else if k == 34 {
        '8'
    } else if k == 35 {
        '9'
    } else if k == 36 {
        ' '
    } else {
        ' '
    }
}

/// An ASCII capital made small; any other character unchanged.
pub open spec fn ascii_lower(c: char) -> char {
    if is_ascii_upper(c) { ((code_of(c) + 32) as u8) as char } else { c }
}

/// Whether every character of `s` is ASCII.
pub open spec fn is_ascii_text(s: Seq<char>) -> bool {
    forall|i: int| 0 <= i < s.len() ==> code_of(#[trigger] s[i]) < 128
}

/// Each ASCII capital of `s` made small.
pub open spec fn ascii_lowered(s: Seq<char>) -> Seq<char> {
    s.map_values(|c: char| ascii_lower(c))
}

/// The text Morse encoding works on: `str::to_lowercase` of the whole text.
/// On ASCII text that is each capital made small, which the library computes
/// itself; on other text it is the standard library's result, which applies
/// Unicode's context rules (such as the final sigma).
pub open spec fn morse_lowered(s: Seq<char>) -> Seq<char> {
    if is_ascii_text(s) {
        ascii_lowered(s)
    } else {
        text_lowercase(s)
    }
}

/// The character whose code is `token`, if any.
pub open spec fn morse_char_of(token: Seq<char>) -> Option<char> {
    if exists|c: char| morse_code(c) == Some(token) {
        Some(choose|c: char| morse_code(c) == Some(token))
    } else {
        None
    }
}

/// Each character replaced by its code, codes separated by one space; the
/// first character without a code is the error.
pub open spec fn morse_encode_chars(s: Seq<char>) -> Result<Seq<char>, ErrorModel>
    decreases s.len(),
{
    if s.len() == 0 {
        Ok(Seq::empty())
    } else {
        match morse_encode_chars(s.drop_last()) {
            Err(e) => Err(e),
            Ok(prev) => match morse_code(s.last()) {
                None => Err(ErrorModel::UnsupportedMorseCharacter(s.last())),
                Some(code) => Ok(if s.len() == 1 { code } else { prev + seq![' '] + code }),
            },
        }
    }
}

/// Morse encoding: the text lowercased, then each character's code.
pub open spec fn morse_encode_spec(s: Seq<char>) -> Result<Seq<char>, ErrorModel> {
    morse_encode_chars(morse_lowered(s))
}

/// Reading `s` left to right: the tokens completed so far and the token in progress.
pub open spec fn scan_tokens(s: Seq<char>) -> (Seq<Seq<char>>, Seq<char>)
    decreases s.len(),
{
    if s.len() == 0 {
        (Seq::empty(), Seq::empty())
    } else {
        let (done, cur) = scan_tokens(s.drop_last());
        if is_whitespace(s.last()) {
            if cur.len() > 0 { (done.push(cur), Seq::empty()) } else { (done, Seq::empty()) }
        } else {
            (done, cur.push(s.last()))
        }
    }
}

/// The maximal runs of non-whitespace characters (`str::split_whitespace`).
pub open spec fn whitespace_tokens(s: Seq<char>) -> Seq<Seq<char>> {
    let (done, cur) = scan_tokens(s);
    if cur.len() > 0 { done.push(cur) } else { done }
}

/// Each token replaced by its character; the first unknown token is the error.
pub open spec fn morse_decode_tokens(ts: Seq<Seq<char>>) -> Result<Seq<char>, ErrorModel>
    decreases ts.len(),
{
    if ts.len() == 0 {
        Ok(Seq::empty())
    } else {
        match morse_decode_tokens(ts.drop_last()) {
            Err(e) => Err(e),
            Ok(prev) => match morse_char_of(ts.last()) {
                None => Err(ErrorModel::UnsupportedMorseToken(ts.last())),
                Some(c) => Ok(prev.push(c)),
            },
        }
    }
}

pub open spec fn morse_decode_spec(s: Seq<char>) -> Result<Seq<char>, ErrorModel> {
    morse_decode_tokens(whitespace_tokens(s))
}

// ---------------------------------------------------------------- exec

fn morse_symbol(c: char) -> (r: Option<Vec<char>>)
    ensures
        match r {
            Some(v) => morse_code(c) == Some(v@),
            None => morse_code(c) is None,
        },
{
    match c {
        'a' => Some(vec!['.', '-']),
        'b' => Some(vec!['-', '.', '.', '.']),
        'c' => Some(vec!['-', '.', '-', '.']),
        'd' => Some(vec!['-', '.', '.']),
        'e' => Some(vec!['.']),
        'f' => Some(vec!['.', '.', '-', '.']),
        'g' => Some(vec!['-', '-', '.']),
        'h' => Some(vec!['.', '.', '.', '.']),
        'i' => Some(vec!['.', '.']),
        'j' => Some(vec!['.', '-', '-', '-']),
        'k' => Some(vec!['-', '.', '-']),
        'l' => Some(vec!['.', '-', '.', '.']),
        'm' => Some(vec!['-', '-']),
        'n' => Some(vec!['-', '.']),
        'o' => Some(vec!['-', '-', '-']),
        'p' => Some(vec!['.', '-', '-', '.']),
        'q' => Some(vec!['-', '-', '.', '-']),
        'r' => Some(vec!['.', '-', '.']),
        's' => Some(vec!['.', '.', '.']),
        't' => Some(vec!['-']),
        'u' => Some(vec!['.', '.', '-']),
        'v' => Some(vec!['.', '.', '.', '-']),
        'w' => Some(vec!['.', '-', '-']),
        'x' => Some(vec!['-', '.', '.', '-']),
        'y' => Some(vec!['-', '.', '-', '-']),
        'z' => Some(vec!['-', '-', '.', '.']),
        '0' => Some(vec!['-', '-', '-', '-', '-']),
        '1' => Some(vec!['.', '-', '-', '-', '-']),
        '2' => Some(vec!['.', '.', '-', '-', '-']),
        '3' => Some(vec!['.', '.', '.', '-', '-']),
        '4' => Some(vec!['.', '.', '.', '.', '-']),
        '5' => Some(vec!['.', '.', '.', '.', '.']),
        '6' => Some(vec!['-', '.', '.', '.', '.']),
        '7' => Some(vec!['-', '-', '.', '.', '.']),
        '8' => Some(vec!['-', '-', '-', '.', '.']),
        '9' => Some(vec!['-', '-', '-', '-', '.']),
        ' ' => Some(vec!['/']),
        _ => None,
    }
}

fn morse_entry_at(k: usize) -> (c: char)
    requires
        k < 37,
    ensures
        c == morse_entry(k as int),
{
    match k {
        0 => 'a',
        1 => 'b',
        2 => 'c',
        3 => 'd',
        4 => 'e',
        5 => 'f',
        6 => 'g',
        7 => 'h',
        8 => 'i',
        9 => 'j',
        10 => 'k',
        11 => 'l',
        12 => 'm',
        13 => 'n',
        14 => 'o',
        15 => 'p',
        16 => 'q',
        17 => 'r',
        18 => 's',
        19 => 't',
        20 => 'u',
        21 => 'v',
        22 => 'w',
        23 => 'x',
        24 => 'y',
        25 => 'z',
        26 => '0',
        27 => '1',
        28 => '2',
        29 => '3',
        30 => '4',
        31 => '5',
        32 => '6',
        33 => '7',
        34 => '8',
        35 => '9',
        36 => ' ',
        _ => ' ',
    }
}

/// The text Morse encoding works on.
fn lowercase_for_morse(input: &[char]) -> (r: Vec<char>)
    ensures
        r@ == morse_lowered(input@),
{
    let mut ascii = true;
    let mut i: usize = 0;
    while i < input.len()
        invariant
            i <= input.len(),
            ascii == (forall|j: int| 0 <= j < i ==> code_of(#[trigger] input@[j]) < 128),
        decreases input.len() - i,
    {
        if input[i] as u32 >= 128 {
            ascii = false;
        }
        i = i + 1;
    }
    if !ascii {
        let text = string_from_chars(input);
        let low = str_lowercase(text.as_str());
        return chars_of(low.as_str());
    }
    let mut out: Vec<char> = Vec::new();
    let mut k: usize = 0;
    while k < input.len()
        invariant
            k <= input.len(),
            out@ == ascii_lowered(input@.take(k as int)),
        decreases input.len() - k,
    {
        let c = input[k];
        let u = c as u32;
        let l = if 65 <= u && u <= 90 {
            let b: u8 = (u + 32) as u8;
            b as char
        } else {
            c
        };
        out.push(l);
        k = k + 1;
        assert(out@ =~= ascii_lowered(input@.take(k as int)));
    }
    assert(input@.take(input@.len() as int) =~= input@);
    out
}

/// Whether two character sequences are equal.
pub fn chars_equal(a: &[char], b: &[char]) -> (r: bool)
    ensures
        r == (a@ == b@),
{
    if a.len() != b.len() {
        return false;
    }
    let mut i: usize = 0;
    while i < a.len()
        invariant
            a@.len() == b@.len(),
            i <= a.len(),
            forall|j: int| 0 <= j < i ==> a@[j] == b@[j],
        decreases a.len() - i,
    {
        if a[i] != b[i] {
            return false;
        }
        i = i + 1;
    }
    assert(a@ =~= b@);
    true
}

fn morse_lookup(token: &[char]) -> (r: Option<char>)
    ensures
        r == morse_char_of(token@),
{
    let mut k: usize = 0;
    while k < 37
        invariant
            k <= 37,
            forall|j: int| 0 <= j < k ==> morse_code(#[trigger] morse_entry(j)) != Some(token@),
        decreases 37 - k,
    {
        let c = morse_entry_at(k);
        match morse_symbol(c) {
            Some(code) => {
                if chars_equal(code.as_slice(), token) {
                    proof {
                        let d = choose|d: char| morse_code(d) == Some(token@);
                        lemma_codes_distinct(c, d);
                    }
                    return Some(c);
                }
            },
            None => {},
        }
        k = k + 1;
    }
    proof {
        if exists|c: char| morse_code(c) == Some(token@) {
            let c = choose|c: char| morse_code(c) == Some(token@);
            lemma_table(c);
            let k = choose|k: int| 0 <= k < 37 && morse_entry(k) == c;
            assert(morse_code(morse_entry(k)) != Some(token@));
        }
    }
    None
}

proof fn lemma_encode_error_extends(x: Seq<char>, y: Seq<char>, e: ErrorModel)
    requires
        morse_encode_chars(x) == Err::<Seq<char>, ErrorModel>(e),
    ensures
        morse_encode_chars(x + y) == Err::<Seq<char>, ErrorModel>(e),
    decreases y.len(),
{
    if y.len() == 0 {
        assert(x + y =~= x);
    } else {
        lemma_encode_error_extends(x, y.drop_last(), e);
        assert((x + y).drop_last() =~= x + y.drop_last());
    }
}

/// Morse encipherment of `input`, lowercased first.
pub fn morse_encode(input: &[char]) -> (r: Result<Vec<char>, SighFarError>)
    ensures
        match r {
            Ok(v) => morse_encode_spec(input@) == Ok::<Seq<char>, ErrorModel>(v@),
            Err(e) => morse_encode_spec(input@) == Err::<Seq<char>, ErrorModel>(e@),
        },
{
    let low = lowercase_for_morse(input);
    let mut out: Vec<char> = Vec::new();
    let mut i: usize = 0;
    while i < low.len()
        invariant
            i <= low@.len(),
            low@ == morse_lowered(input@),
            morse_encode_chars(low@.take(i as int)) == Ok::<Seq<char>, ErrorModel>(out@),
        decreases low@.len() - i,
    {
        assert(low@.take(i + 1).drop_last() =~= low@.take(i as int));
        let ch = low[i];
        match morse_symbol(ch) {
            None => {
                proof {
                    assert(low@.take(i + 1).last() == ch);
                    assert(morse_encode_chars(low@.take(i + 1)) == Err::<Seq<char>, ErrorModel>(ErrorModel::UnsupportedMorseCharacter(ch)));
                    assert(low@ =~= low@.take(i + 1) + low@.skip(i + 1));
                    lemma_encode_error_extends(low@.take(i + 1), low@.skip(i + 1), ErrorModel::UnsupportedMorseCharacter(ch));
                    assert(morse_encode_chars(low@) == Err::<Seq<char>, ErrorModel>(ErrorModel::UnsupportedMorseCharacter(ch)));
                    assert(morse_encode_spec(input@) == Err::<Seq<char>, ErrorModel>(ErrorModel::UnsupportedMorseCharacter(ch)));
                }
                return Err(SighFarError::UnsupportedMorseCharacter(ch));
            },
            Some(code) => {
                let ghost prev = out@;
                if i > 0 {
                    out.push(' ');
                }
                let mut j: usize = 0;
                while j < code.len()
                    invariant
                        j <= code@.len(),
                        out@ == (if i > 0 { prev + seq![' '] } else { prev }) + code@.take(j as int),
                    decreases code.len() - j,
                {
                    out.push(code[j]);
                    j = j + 1;
                    assert(code@.take(j as int) =~= code@.take(j - 1).push(code@[j - 1]));
                }
                assert(code@.take(code@.len() as int) =~= code@);
                proof {
                    if i == 0 {
                        assert(prev =~= Seq::<char>::empty());
                        assert(out@ =~= code@);
                    }
                }
            },
        }
        i = i + 1;
    }
    assert(low@.take(low@.len() as int) =~= low@);
    Ok(out)
}

/// The whitespace-separated tokens of `input`.
pub fn split_whitespace_chars(input: &[char]) -> (r: Vec<Vec<char>>)
    ensures
        r@.map_values(|t: Vec<char>| t@) == whitespace_tokens(input@),
{
    let mut done: Vec<Vec<char>> = Vec::new();
    let mut cur: Vec<char> = Vec::new();
    let mut i: usize = 0;
    while i < input.len()
        invariant
            i <= input.len(),
            scan_tokens(input@.take(i as int)) == (done@.map_values(|t: Vec<char>| t@), cur@),
        decreases input.len() - i,
    {
        assert(input@.take(i + 1).drop_last() =~= input@.take(i as int));
        let c = input[i];
        if is_whitespace_char(c) {
            if cur.len() > 0 {
                let ghost d = done@;
                let finished = cur;
                done.push(finished);
                cur = Vec::new();
                assert(done@.map_values(|t: Vec<char>| t@) =~= d.map_values(|t: Vec<char>| t@).push(finished@));
            }
            assert(cur@ =~= Seq::<char>::empty());
        } else {
            cur.push(c);
        }
        i = i + 1;
    }
    assert(input@.take(input@.len() as int) =~= input@);
    if cur.len() > 0 {
        let ghost d = done@;
        let finished = cur;
        done.push(finished);
        assert(done@.map_values(|t: Vec<char>| t@) =~= d.map_values(|t: Vec<char>| t@).push(finished@));
    }
    done
}

proof fn lemma_decode_error_extends(ts: Seq<Seq<char>>, k: int, e: ErrorModel)
    requires
        0 <= k <= ts.len(),
        morse_decode_tokens(ts.take(k)) == Err::<Seq<char>, ErrorModel>(e),
    ensures
        morse_decode_tokens(ts) == Err::<Seq<char>, ErrorModel>(e),
    decreases ts.len() - k,
{
    if k < ts.len() {
        assert(ts.take(k + 1).drop_last() =~= ts.take(k));
        lemma_decode_error_extends(ts, k + 1, e);
    } else {
        assert(ts.take(k) =~= ts);
    }
}

/// Morse decipherment: each whitespace-separated token becomes its character.
pub fn morse_decode(input: &[char]) -> (r: Result<Vec<char>, SighFarError>)
    ensures
        match r {
            Ok(v) => morse_decode_spec(input@) == Ok::<Seq<char>, ErrorModel>(v@),
            Err(e) => morse_decode_spec(input@) == Err::<Seq<char>, ErrorModel>(e@),
        },
{
    let tokens = split_whitespace_chars(input);
    let ghost ts = tokens@.map_values(|t: Vec<char>| t@);
    let mut out: Vec<char> = Vec::new();
    let mut i: usize = 0;
    while i < tokens.len()
        invariant
            i <= tokens@.len(),
            ts == tokens@.map_values(|t: Vec<char>| t@),
            ts == whitespace_tokens(input@),
            morse_decode_tokens(ts.take(i as int)) == Ok::<Seq<char>, ErrorModel>(out@),
        decreases tokens.len() - i,
    {
        assert(ts.take(i + 1).drop_last() =~= ts.take(i as int));
        assert(ts.take(i + 1).last() == tokens@[i as int]@);
        match morse_lookup(tokens[i].as_slice()) {
            None => {
                let t = crate::text::string_from_chars(tokens[i].as_slice());
                proof { lemma_decode_error_extends(ts, i + 1, ErrorModel::UnsupportedMorseToken(tokens@[i as int]@)); }
                return Err(SighFarError::UnsupportedMorseToken(t));
            },
            Some(c) => {
                out.push(c);
            },
        }
        i = i + 1;
    }
    assert(ts.take(ts.len() as int) =~= ts);
    Ok(out)
}

// ---------------------------------------------------------------- round trip

/// The characters that survive a Morse round trip unchanged.
pub open spec fn morse_plain(s: Seq<char>) -> bool {
    forall|i: int| 0 <= i < s.len() ==> #[trigger] morse_code(s[i]) is Some
}

pub open spec fn morse_codes(s: Seq<char>) -> Seq<Seq<char>> {
    s.map_values(|c: char| morse_code(c).unwrap())
}

/// A Morse token read as a base-3 number behind a leading 1
/// (`.` = 1, `-` = 2, anything else 0); it tells the table's codes apart.
spec fn token_value(t: Seq<char>) -> int
    decreases t.len(),
{
    if t.len() == 0 {
        1
    } else {
        3 * token_value(t.drop_last()) + if t.last() == '.' { 1int } else if t.last() == '-' { 2int } else { 0int }
    }
}

spec fn char_of_value(v: int) -> char {
    if v == 14 {
        'a'
    } else if v == 148 {
        'b'
    } else if v == 151 {
        'c'
    } else if v == 49 {
        'd'
    } else if v == 4 {
        'e'
    } else if v == 124 {
        'f'
    } else if v == 52 {
        'g'
    } else if v == 121 {
        'h'
    } else if v == 13 {
        'i'
    } else if v == 134 {
        'j'
    } else if v == 50 {
        'k'
    } else if v == 130 {
        'l'
    } else if v == 17 {
        'm'
    } else if v == 16 {
        'n'
    } else if v == 53 {
        'o'
    } else if v == 133 {
        'p'
    } else if v == 158 {
        'q'
    } else if v == 43 {
        'r'
    } else if v == 40 {
        's'
    } else if v == 5 {
        't'
    } else if v == 41 {
        'u'
    } else if v == 122 {
        'v'
    } else if v == 44 {
        'w'
    } else if v == 149 {
        'x'
    } else if v == 152 {
        'y'
    } else if v == 157 {
        'z'
    } else if v == 485 {
        '0'
    } else if v == 404 {
        '1'
    } else if v == 377 {
        '2'
    } else if v == 368 {
        '3'
    } else if v == 365 {
        '4'
    } else if v == 364 {
        '5'
    } else if v == 445 {
        '6'
    } else if v == 472 {
        '7'
    } else if v == 481 {
        '8'
    } else if v == 484 {
        '9'
    } else if v == 3 {
        ' '
    } else {
        '?'
    }
}

/// Facts about each entry of the table: its code is a non-empty run of
/// non-whitespace symbols, its code's value leads back to it, it is its own
/// lowercase form, and it stands somewhere in the table's order.
proof fn lemma_table(c: char)
    requires
        morse_code(c) is Some,
    ensures
        morse_code(c).unwrap().len() > 0,
        forall|j: int| 0 <= j < morse_code(c).unwrap().len() ==> !is_whitespace(#[trigger] morse_code(c).unwrap()[j]),
        char_of_value(token_value(morse_code(c).unwrap())) == c,
        code_of(c) < 128 && !is_ascii_upper(c),
        exists|k: int| 0 <= k < 37 && morse_entry(k) == c,
{
    reveal_with_fuel(token_value, 6);
    match c {
        'a' => { assert(morse_entry(0) == 'a'); },
        'b' => { assert(morse_entry(1) == 'b'); },
        'c' => { assert(morse_entry(2) == 'c'); },
        'd' => { assert(morse_entry(3) == 'd'); },
        'e' => { assert(morse_entry(4) == 'e'); },
        'f' => { assert(morse_entry(5) == 'f'); },
        'g' => { assert(morse_entry(6) == 'g'); },
        'h' => { assert(morse_entry(7) == 'h'); },
        'i' => { assert(morse_entry(8) == 'i'); },
        'j' => { assert(morse_entry(9) == 'j'); },
        'k' => { assert(morse_entry(10) == 'k'); },
        'l' => { assert(morse_entry(11) == 'l'); },
        'm' => { assert(morse_entry(12) == 'm'); },
        'n' => { assert(morse_entry(13) == 'n'); },
        'o' => { assert(morse_entry(14) == 'o'); },
        'p' => { assert(morse_entry(15) == 'p'); },
        'q' => { assert(morse_entry(16) == 'q'); },
        'r' => { assert(morse_entry(17) == 'r'); },
        's' => { assert(morse_entry(18) == 's'); },
        't' => { assert(morse_entry(19) == 't'); },
        'u' => { assert(morse_entry(20) == 'u'); },
        'v' => { assert(morse_entry(21) == 'v'); },
        'w' => { assert(morse_entry(22) == 'w'); },
        'x' => { assert(morse_entry(23) == 'x'); },
        'y' => { assert(morse_entry(24) == 'y'); },
        'z' => { assert(morse_entry(25) == 'z'); },
        '0' => { assert(morse_entry(26) == '0'); },
        '1' => { assert(morse_entry(27) == '1'); },
        '2' => { assert(morse_entry(28) == '2'); },
        '3' => { assert(morse_entry(29) == '3'); },
        '4' => { assert(morse_entry(30) == '4'); },
        '5' => { assert(morse_entry(31) == '5'); },
        '6' => { assert(morse_entry(32) == '6'); },
        '7' => { assert(morse_entry(33) == '7'); },
        '8' => { assert(morse_entry(34) == '8'); },
        '9' => { assert(morse_entry(35) == '9'); },
        ' ' => { assert(morse_entry(36) == ' '); },
        _ => {},
    }
}

/// No two characters share a code.
proof fn lemma_codes_distinct(c1: char, c2: char)
    requires
        morse_code(c1) is Some,
        morse_code(c1) == morse_code(c2),
    ensures
        c1 == c2,
{
    lemma_table(c1);
    lemma_table(c2);
}

proof fn lemma_char_of_code(c: char)
    requires
        morse_code(c) is Some,
    ensures
        morse_char_of(morse_code(c).unwrap()) == Some(c),
{
    let t = morse_code(c).unwrap();
    let d = choose|d: char| morse_code(d) == Some(t);
    lemma_codes_distinct(c, d);
}

proof fn lemma_scan_append(x: Seq<char>, y: Seq<char>)
    requires
        forall|j: int| 0 <= j < y.len() ==> !is_whitespace(#[trigger] y[j]),
    ensures
        scan_tokens(x + y) == (scan_tokens(x).0, scan_tokens(x).1 + y),
    decreases y.len(),
{
    if y.len() == 0 {
        assert(x + y =~= x);
        assert(scan_tokens(x).1 + y =~= scan_tokens(x).1);
    } else {
        lemma_scan_append(x, y.drop_last());
        assert((x + y).drop_last() =~= x + y.drop_last());
        assert((scan_tokens(x).1 + y.drop_last()).push(y.last()) =~= scan_tokens(x).1 + y);
    }
}

proof fn lemma_encode_plain(s: Seq<char>)
    requires
        s.len() > 0,
        morse_plain(s),
    ensures
        morse_encode_chars(s) is Ok,
        scan_tokens(morse_encode_chars(s)->Ok_0) == (morse_codes(s).drop_last(), morse_codes(s).last()),
        morse_codes(s).last().len() > 0,
    decreases s.len(),
{
    let c = s.last();
    assert(morse_code(s[s.len() - 1]) is Some);
    lemma_table(c);
    let code = morse_code(c).unwrap();
    assert(morse_code(s.last()) == Some(code));
    if s.len() == 1 {
        assert(s.drop_last() =~= Seq::<char>::empty());
        assert(morse_encode_chars(s.drop_last()) == Ok::<Seq<char>, ErrorModel>(Seq::<char>::empty()));
        assert(morse_encode_chars(s) == Ok::<Seq<char>, ErrorModel>(code));
        lemma_scan_append(Seq::empty(), code);
        assert(Seq::<char>::empty() + code =~= code);
        assert(morse_codes(s).drop_last() =~= Seq::<Seq<char>>::empty());
        assert(Seq::<char>::empty() + code =~= code);
    } else {
        let s0 = s.drop_last();
        assert(morse_plain(s0)) by {
            assert forall|i: int| 0 <= i < s0.len() implies #[trigger] morse_code(s0[i]) is Some by {
                assert(s0[i] == s[i]);
            }
        }
        lemma_encode_plain(s0);
        let x0 = morse_encode_chars(s0)->Ok_0;
        assert(morse_encode_chars(s) == Ok::<Seq<char>, ErrorModel>(x0 + seq![' '] + code));
        let xs = x0 + seq![' '];
        assert(xs.drop_last() =~= x0);
        assert(is_whitespace(xs.last()));
        assert(morse_codes(s0).drop_last().push(morse_codes(s0).last()) =~= morse_codes(s0));
        assert(scan_tokens(xs) == (morse_codes(s0), Seq::<char>::empty()));
        lemma_scan_append(xs, code);
        assert(Seq::<char>::empty() + code =~= code);
        assert(morse_codes(s).drop_last() =~= morse_codes(s0));
    }
}

proof fn lemma_decode_codes(s: Seq<char>)
    requires
        morse_plain(s),
    ensures
        morse_decode_tokens(morse_codes(s)) == Ok::<Seq<char>, ErrorModel>(s),
    decreases s.len(),
{
    if s.len() > 0 {
        let s0 = s.drop_last();
        assert(morse_plain(s0)) by {
            assert forall|i: int| 0 <= i < s0.len() implies #[trigger] morse_code(s0[i]) is Some by {
                assert(s0[i] == s[i]);
            }
        }
        lemma_decode_codes(s0);
        assert(morse_codes(s).drop_last() =~= morse_codes(s0));
        assert(morse_code(s[s.len() - 1]) is Some);
        lemma_table(s.last());
        lemma_char_of_code(s.last());
        assert(morse_codes(s).last() == morse_code(s.last()).unwrap());
        assert(morse_char_of(morse_codes(s).last()) == Some(s.last()));
        assert(s0.push(s.last()) =~= s);
        assert(morse_decode_tokens(morse_codes(s)) == Ok::<Seq<char>, ErrorModel>(s0.push(s.last())));
    } else {
        assert(morse_codes(s) =~= Seq::<Seq<char>>::empty());
        assert(s =~= Seq::<char>::empty());
    }
}

/// Text made of the table's characters is its own lowercase form.
proof fn lemma_lowered_plain(s: Seq<char>)
    requires
        morse_plain(s),
    ensures
        morse_lowered(s) == s,
{
    assert forall|i: int| 0 <= i < s.len() implies code_of(#[trigger] s[i]) < 128 && !is_ascii_upper(s[i]) by {
        assert(morse_code(s[i]) is Some);
        lemma_table(s[i]);
    }
    assert(ascii_lowered(s) =~= s);
}

/// Text made of the table's characters (lowercase letters, digits, spaces)
/// comes back unchanged from Morse encoding followed by decoding.
pub proof fn lemma_morse_round_trip(s: Seq<char>)
    requires
        morse_plain(s),
    ensures
        morse_encode_spec(s) is Ok,
        morse_decode_spec(morse_encode_spec(s)->Ok_0) == Ok::<Seq<char>, ErrorModel>(s),
{
    lemma_lowered_plain(s);
    lemma_decode_codes(s);
    if s.len() == 0 {
        assert(morse_codes(s) =~= Seq::<Seq<char>>::empty());
    } else {
        lemma_encode_plain(s);
        assert(morse_codes(s).drop_last().push(morse_codes(s).last()) =~= morse_codes(s));
    }
}

/// ASCII text comes back from Morse encoding followed by decoding with its
/// capitals made small, when that lowercase form is made of the table's
/// characters.
pub proof fn lemma_morse_round_trip_lowercases(s: Seq<char>)
    requires
        is_ascii_text(s),
        morse_plain(ascii_lowered(s)),
    ensures
        morse_encode_spec(s) is Ok,
        morse_decode_spec(morse_encode_spec(s)->Ok_0) == Ok::<Seq<char>, ErrorModel>(ascii_lowered(s)),
{
    let low = ascii_lowered(s);
    lemma_lowered_plain(low);
    lemma_morse_round_trip(low);
}

/// What Morse encoding writes is made of `.`, `-`, `/` and spaces.
pub proof fn lemma_encode_chars_symbols(s: Seq<char>)
    requires
        morse_encode_chars(s) is Ok,
    ensures
        forall|i: int| 0 <= i < morse_encode_chars(s)->Ok_0.len() ==> {
            let c = #[trigger] morse_encode_chars(s)->Ok_0[i];
            c == '.' || c == '-' || c == '/' || c == ' '
        },
    decreases s.len(),
{
    if s.len() > 0 {
        lemma_encode_chars_symbols(s.drop_last());
        let c = s.last();
        assert(morse_code(c) is Some);
        let code = morse_code(c)->Some_0;
        assert forall|j: int| 0 <= j < code.len() implies code[j] == '.' || code[j] == '-' || code[j] == '/' by {}
    }
}

/// Whether `i` is the first position of `s` whose character has no code.
pub open spec fn first_without_code(s: Seq<char>, i: int) -> bool {
    &&& 0 <= i < s.len()
    &&& morse_code(s[i]) is None
    &&& forall|j: int| 0 <= j < i ==> morse_code(#[trigger] s[j]) is Some
}

proof fn lemma_encode_chars_cases(l: Seq<char>)
    ensures
        morse_encode_chars(l) is Ok <==> morse_plain(l),
        morse_plain(l) ==> morse_encode_chars(l) == Ok::<Seq<char>, ErrorModel>(join_with(morse_codes(l), seq![' '])),
        !morse_plain(l) ==> exists|i: int|
            first_without_code(l, i) && morse_encode_chars(l) == Err::<Seq<char>, ErrorModel>(
                ErrorModel::UnsupportedMorseCharacter(#[trigger] l[i]),
            ),
    decreases l.len(),
{
    if l.len() == 0 {
        assert(morse_codes(l) =~= Seq::<Seq<char>>::empty());
    } else {
        let p = l.drop_last();
        let c = l.last();
        lemma_encode_chars_cases(p);
        assert forall|j: int| 0 <= j < p.len() implies #[trigger] p[j] == l[j] by {}
        if !morse_plain(p) {
            let i = choose|i: int|
                first_without_code(p, i) && morse_encode_chars(p) == Err::<Seq<char>, ErrorModel>(
                    ErrorModel::UnsupportedMorseCharacter(#[trigger] p[i]),
                );
            assert(p[i] == l[i]);
            assert forall|j: int| 0 <= j < i implies morse_code(#[trigger] l[j]) is Some by {
                assert(l[j] == p[j]);
            }
            assert(first_without_code(l, i));
            assert(!morse_plain(l)) by {
                assert(morse_code(l[i]) is None);
            }
        } else if morse_code(c) is None {
            let i = l.len() - 1;
            assert(l[i] == c);
            assert forall|j: int| 0 <= j < i implies morse_code(#[trigger] l[j]) is Some by {
                assert(l[j] == p[j]);
            }
            assert(first_without_code(l, i));
        } else {
            assert forall|j: int| 0 <= j < l.len() implies #[trigger] morse_code(l[j]) is Some by {
                if j < l.len() - 1 {
                    assert(l[j] == p[j]);
                }
            }
            assert(morse_codes(l).drop_last() =~= morse_codes(p));
            if l.len() == 1 {
                assert(p =~= Seq::<char>::empty());
            }
        }
    }
}

/// Morse encoding succeeds exactly when every character of the lowercased
/// text is in the table (a to z, 0 to 9 and the space); it then gives their
/// codes separated by single spaces, and otherwise reports the first
/// lowercased character that is not in the table.
pub proof fn lemma_morse_encode_cases(s: Seq<char>)
    ensures
        morse_encode_spec(s) is Ok <==> morse_plain(morse_lowered(s)),
        morse_plain(morse_lowered(s)) ==> morse_encode_spec(s) == Ok::<Seq<char>, ErrorModel>(
            join_with(morse_codes(morse_lowered(s)), seq![' ']),
        ),
        !morse_plain(morse_lowered(s)) ==> exists|i: int|
            first_without_code(morse_lowered(s), i) && morse_encode_spec(s) == Err::<Seq<char>, ErrorModel>(
                ErrorModel::UnsupportedMorseCharacter(#[trigger] morse_lowered(s)[i]),
            ),
{
    lemma_encode_chars_cases(morse_lowered(s));
}

} // verus!
