//! The cipher chain: Morse, Caesar, Vigenere, Rail Fence, Reverse and the
//! one-way SHA-256 / SHA-512 digests, each with a direction.
use vstd::prelude::*;
use crate::error::{ErrorModel, SighFarError};
use crate::models::{OperationKind, Technique, TechniqueDescriptor};
use crate::models::techniques_view;
use crate::morse::{
    ascii_lower, ascii_lowered, is_ascii_text, lemma_encode_chars_symbols, lemma_morse_encode_cases, lemma_morse_round_trip, lemma_morse_round_trip_lowercases,
    morse_decode, morse_decode_spec, morse_encode, morse_encode_spec, morse_lowered, morse_plain,
};
use crate::primitives::{hex_encode, hex_lower, sha256_digest, sha256_of, sha512_digest, sha512_of};
use crate::rail_fence::{lemma_fence_pos_bounds, lemma_fence_pos_onto, lemma_pattern_bounded, lemma_rail_fence_round_trip, pattern, rail_fence_decode, rail_fence_decode_spec, rail_fence_encode, rail_fence_encode_spec};
use crate::text::{chars_of, code_of, is_ascii_alpha, is_ascii_alpha_char, is_ascii_upper, is_ascii_lower, string_from_chars};
use vstd::string::StringSliceAdditionalSpecFns;
use vstd::utf8::encode_utf8;

verus! {

// ---------------------------------------------------------------- rotation

/// A letter moved `amount` places round its own alphabet (case kept);
/// anything else unchanged.
pub open spec fn rotate_spec(c: char, amount: int) -> char {
    if is_ascii_upper(c) {
        ((65 + (code_of(c) - 65 + amount) % 26) as u8) as char
    } else if is_ascii_lower(c) {
        ((97 + (code_of(c) - 97 + amount) % 26) as u8) as char
    } else {
        c
    }
}

/// `amount` reduced into `0..26`.
fn shift_mod(amount: i64) -> (r: u32)
    requires
        -0x1_0000_0000 <= amount <= 0x1_0000_0000,
    ensures
        r < 26,
        r as int == (amount as int) % 26,
{
    if amount >= 0 {
        let a: u64 = amount as u64;
        (a % 26) as u32
    } else {
        let n: u64 = (-amount) as u64;
        let m: u32 = (n % 26) as u32;
        proof {
            let q = (n as int) / 26;
            vstd::arithmetic::div_mod::lemma_fundamental_div_mod(n as int, 26);
            if m == 0 {
                assert(-(n as int) == (-q) * 26 + 0) by (nonlinear_arith)
                    requires n as int == 26 * q;
                vstd::arithmetic::div_mod::lemma_fundamental_div_mod_converse_mod(-(n as int), 26, -q, 0);
            } else {
                assert(-(n as int) == (-q - 1) * 26 + (26 - m as int)) by (nonlinear_arith)
                    requires n as int == 26 * q + m as int;
                vstd::arithmetic::div_mod::lemma_fundamental_div_mod_converse_mod(-(n as int), 26, -q - 1, 26 - m as int);
            }
        }
        if m == 0 { 0 } else { 26 - m }
    }
}

proof fn lemma_rotate_offset(off: int, amount: int, m: int)
    requires
        0 <= off < 26,
        m == amount % 26,
    ensures
        (off + m) % 26 == (off + amount) % 26,
{
    vstd::arithmetic::div_mod::lemma_add_mod_noop_right(off, amount, 26);
}

/// Rotates an ASCII letter by `amount` places; other characters pass through.
pub fn rotate_ascii(ch: char, amount: i32) -> (r: char)
    ensures
        r == rotate_spec(ch, amount as int),
{
    rotate_by(ch, amount as i64)
}

fn rotate_by(ch: char, amount: i64) -> (r: char)
    requires
        -0x1_0000_0000 <= amount <= 0x1_0000_0000,
    ensures
        r == rotate_spec(ch, amount as int),
{
    let u = ch as u32;
    if 65 <= u && u <= 90 {
        let m = shift_mod(amount);
        proof { lemma_rotate_offset(u - 65, amount as int, m as int); }
        let b: u8 = (65 + (u - 65 + m) % 26) as u8;
        b as char
    } else if 97 <= u && u <= 122 {
        let m = shift_mod(amount);
        proof { lemma_rotate_offset(u - 97, amount as int, m as int); }
        let b: u8 = (97 + (u - 97 + m) % 26) as u8;
        b as char
    } else {
        ch
    }
}

/// The rotation a technique applies: forward when encoding, backward when decoding.
pub open spec fn signed(amount: int, direction: OperationKind) -> int {
    match direction {
        OperationKind::Encode => amount,
        OperationKind::Decode => -amount,
    }
}

// ---------------------------------------------------------------- Caesar

pub open spec fn caesar_spec(s: Seq<char>, shift: i32, direction: OperationKind) -> Seq<char> {
    s.map_values(|c: char| rotate_spec(c, signed(shift as int, direction)))
}

/// Every letter rotated by `shift` (encode) or `-shift` (decode).
pub fn process_caesar(input: &[char], shift: i32, direction: OperationKind) -> (r: Vec<char>)
    ensures
        r@ == caesar_spec(input@, shift, direction),
{
    let mut out: Vec<char> = Vec::new();
    let mut i: usize = 0;
    while i < input.len()
        invariant
            i <= input.len(),
            out@.len() == i,
            forall|j: int| 0 <= j < i ==> out@[j] == rotate_spec(input@[j], signed(shift as int, direction)),
        decreases input.len() - i,
    {
        let c = match direction {
            OperationKind::Encode => rotate_ascii(input[i], shift),
            OperationKind::Decode => rotate_back(input[i], shift),
        };
        out.push(c);
        i = i + 1;
    }
    assert(out@ =~= caesar_spec(input@, shift, direction));
    out
}

/// Rotates by `-amount`, for every `amount` (also `i32::MIN`).
fn rotate_back(ch: char, amount: i32) -> (r: char)
    ensures
        r == rotate_spec(ch, -(amount as int)),
{
    rotate_by(ch, -(amount as i64))
}

// ---------------------------------------------------------------- Vigenere

/// Position of an ASCII letter in the alphabet, whatever its case.
pub open spec fn letter_index(c: char) -> i32 {
    if is_ascii_upper(c) { (code_of(c) - 65) as i32 } else { (code_of(c) - 97) as i32 }
}

/// The shifts a keyword gives: the positions of its ASCII letters, in order.
pub open spec fn vigenere_key(keyword: Seq<char>) -> Seq<i32>
    decreases keyword.len(),
{
    if keyword.len() == 0 {
        Seq::empty()
    } else {
        let k = vigenere_key(keyword.drop_last());
        if is_ascii_alpha(keyword.last()) { k.push(letter_index(keyword.last())) } else { k }
    }
}

/// How many ASCII letters `s` holds.
pub open spec fn count_alpha(s: Seq<char>) -> nat
    decreases s.len(),
{
    if s.len() == 0 {
        0
    } else {
        count_alpha(s.drop_last()) + if is_ascii_alpha(s.last()) { 1nat } else { 0nat }
    }
}

/// The `n`-th letter of the text uses the key entry `n % key.len()`; other
/// characters are copied and do not advance the key.
pub open spec fn vigenere_spec(s: Seq<char>, key: Seq<i32>, direction: OperationKind) -> Seq<char> {
    Seq::new(
        s.len(),
        |i: int|
            if is_ascii_alpha(s[i]) {
                rotate_spec(s[i], signed(key[(count_alpha(s.take(i)) % key.len()) as int] as int, direction))
            } else {
                s[i]
            },
    )
}

pub open spec fn process_vigenere_spec(s: Seq<char>, keyword: Seq<char>, direction: OperationKind) -> Result<Seq<char>, ErrorModel> {
    if vigenere_key(keyword).len() == 0 {
        Err(ErrorModel::VigenereKeywordWithoutLetters)
    } else {
        Ok(vigenere_spec(s, vigenere_key(keyword), direction))
    }
}

/// How many ASCII letters come before position `i` of `s`.
pub open spec fn letters_before(s: Seq<char>, i: int) -> nat {
    s.take(i).filter(|c: char| is_ascii_alpha(c)).len()
}

proof fn lemma_count_alpha_is_filter(t: Seq<char>)
    ensures
        count_alpha(t) == t.filter(|c: char| is_ascii_alpha(c)).len(),
    decreases t.len(),
{
    if t.len() > 0 {
        lemma_count_alpha_is_filter(t.drop_last());
        assert(t.drop_last().push(t.last()) =~= t);
        t.drop_last().lemma_filter_push(t.last(), |c: char| is_ascii_alpha(c));
    } else {
        reveal(Seq::filter);
    }
}

/// The Vigenere law: the output has the text's length; each ASCII letter is
/// rotated by the key entry chosen by how many letters come before it (so
/// spaces, digits and punctuation never advance the key), and every other
/// character is copied unchanged.
pub proof fn lemma_vigenere_letters(s: Seq<char>, key: Seq<i32>, direction: OperationKind)
    requires
        key.len() > 0,
    ensures
        vigenere_spec(s, key, direction).len() == s.len(),
        forall|i: int|
            0 <= i < s.len() && is_ascii_alpha(s[i]) ==> #[trigger] vigenere_spec(s, key, direction)[i] == rotate_spec(
                s[i],
                signed(key[(letters_before(s, i) % key.len()) as int] as int, direction),
            ),
        forall|i: int|
            0 <= i < s.len() && !is_ascii_alpha(s[i]) ==> #[trigger] vigenere_spec(s, key, direction)[i] == s[i],
{
    assert forall|i: int| 0 <= i < s.len() implies count_alpha(#[trigger] s.take(i)) == letters_before(s, i) by {
        lemma_count_alpha_is_filter(s.take(i));
    }
}

fn vigenere_key_of(keyword: &[char]) -> (key: Vec<i32>)
    ensures
        key@ == vigenere_key(keyword@),
        forall|j: int| 0 <= j < key@.len() ==> 0 <= #[trigger] key@[j] < 26,
{
    let mut key: Vec<i32> = Vec::new();
    let mut i: usize = 0;
    while i < keyword.len()
        invariant
            i <= keyword.len(),
            key@ == vigenere_key(keyword@.take(i as int)),
            forall|j: int| 0 <= j < key@.len() ==> 0 <= #[trigger] key@[j] < 26,
        decreases keyword.len() - i,
    {
        let c = keyword[i];
        assert(keyword@.take(i + 1).drop_last() =~= keyword@.take(i as int));
        if is_ascii_alpha_char(c) {
            let u = c as u32;
            let k: i32 = if u <= 90 { (u - 65) as i32 } else { (u - 97) as i32 };
            key.push(k);
        }
        i = i + 1;
    }
    assert(keyword@.take(keyword@.len() as int) =~= keyword@);
    key
}

/// Vigenere over the ASCII letters of `input`, keyed by the letters of `keyword`.
pub fn process_vigenere(input: &[char], keyword: &[char], direction: OperationKind) -> (r: Result<Vec<char>, SighFarError>)
    ensures
        match r {
            Ok(v) => process_vigenere_spec(input@, keyword@, direction) == Ok::<Seq<char>, ErrorModel>(v@),
            Err(e) => process_vigenere_spec(input@, keyword@, direction) == Err::<Seq<char>, ErrorModel>(e@),
        },
        r matches Ok(v) ==> v@.len() == input@.len(),
        r matches Ok(v) ==> forall|i: int|
            0 <= i < input@.len() && is_ascii_alpha(input@[i]) ==> #[trigger] v@[i] == rotate_spec(
                input@[i],
                signed(
                    vigenere_key(keyword@)[(letters_before(input@, i) % vigenere_key(keyword@).len()) as int] as int,
                    direction,
                ),
            ),
        r matches Ok(v) ==> forall|i: int| 0 <= i < input@.len() && !is_ascii_alpha(input@[i]) ==> #[trigger] v@[i] == input@[i],
{
    let key = vigenere_key_of(keyword);
    if key.len() == 0 {
        return Err(SighFarError::VigenereKeywordWithoutLetters);
    }
    let mut index: usize = 0;
    let mut out: Vec<char> = Vec::new();
    let mut i: usize = 0;
    while i < input.len()
        invariant
            i <= input.len(),
            key@ == vigenere_key(keyword@),
            key@.len() > 0,
            forall|j: int| 0 <= j < key@.len() ==> 0 <= #[trigger] key@[j] < 26,
            index == count_alpha(input@.take(i as int)),
            index <= i,
            out@.len() == i,
            forall|j: int| 0 <= j < i ==> out@[j] == vigenere_spec(input@, key@, direction)[j],
        decreases input.len() - i,
    {
        let ch = input[i];
        assert(input@.take(i + 1).drop_last() =~= input@.take(i as int));
        if is_ascii_alpha_char(ch) {
            let shift = key[index % key.len()];
            let applied: i32 = match direction {
                OperationKind::Encode => shift,
                OperationKind::Decode => -shift,
            };
            out.push(rotate_ascii(ch, applied));
            index = index + 1;
        } else {
            out.push(ch);
        }
        i = i + 1;
    }
    assert(out@ =~= vigenere_spec(input@, key@, direction));
    proof {
        lemma_vigenere_letters(input@, key@, direction);
    }
    Ok(out)
}

// ---------------------------------------------------------------- Reverse

/// The characters in reverse order.
pub fn reverse_chars(input: &[char]) -> (r: Vec<char>)
    ensures
        r@ == input@.reverse(),
{
    let mut out: Vec<char> = Vec::new();
    let n = input.len();
    let mut i: usize = 0;
    while i < n
        invariant
            n == input.len(),
            i <= n,
            out@.len() == i,
            forall|j: int| 0 <= j < i ==> out@[j] == input@[n - 1 - j],
        decreases n - i,
    {
        out.push(input[n - 1 - i]);
        i = i + 1;
    }
    assert(out@ =~= input@.reverse());
    out
}

// ---------------------------------------------------------------- digests

/// The lowercase hex SHA-256 digest of the text's UTF-8 bytes.
pub open spec fn sha256_hex(s: Seq<char>) -> Seq<char> {
    hex_lower(sha256_of(encode_utf8(s)))
}

/// The lowercase hex SHA-512 digest of the text's UTF-8 bytes.
pub open spec fn sha512_hex(s: Seq<char>) -> Seq<char> {
    hex_lower(sha512_of(encode_utf8(s)))
}

fn process_sha256(input: &[char], direction: OperationKind) -> (r: Result<Vec<char>, SighFarError>)
    ensures
        match direction {
            OperationKind::Encode => r matches Ok(v) && v@ == sha256_hex(input@),
            OperationKind::Decode => r matches Err(e) && e@ == ErrorModel::Sha256NotReversible,
        },
{
    match direction {
        OperationKind::Encode => {
            let text = string_from_chars(input);
            let digest = sha256_digest(text.as_str().as_bytes());
            let hex = hex_encode(digest.as_slice());
            Ok(chars_of(hex.as_str()))
        },
        OperationKind::Decode => Err(SighFarError::Sha256NotReversible),
    }
}

fn process_sha512(input: &[char], direction: OperationKind) -> (r: Result<Vec<char>, SighFarError>)
    ensures
        match direction {
            OperationKind::Encode => r matches Ok(v) && v@ == sha512_hex(input@),
            OperationKind::Decode => r matches Err(e) && e@ == ErrorModel::Sha512NotReversible,
        },
{
    match direction {
        OperationKind::Encode => {
            let text = string_from_chars(input);
            let digest = sha512_digest(text.as_str().as_bytes());
            let hex = hex_encode(digest.as_slice());
            Ok(chars_of(hex.as_str()))
        },
        OperationKind::Decode => Err(SighFarError::Sha512NotReversible),
    }
}

// ---------------------------------------------------------------- one step

/// One technique applied to a text in one direction.
pub open spec fn transform_spec(s: Seq<char>, t: Technique, direction: OperationKind) -> Result<Seq<char>, ErrorModel> {
    match t {
        Technique::Morse => match direction {
            OperationKind::Encode => morse_encode_spec(s),
            OperationKind::Decode => morse_decode_spec(s),
        },
        Technique::Caesar { shift } => Ok(caesar_spec(s, shift, direction)),
        Technique::Vigenere { keyword } => process_vigenere_spec(s, keyword, direction),
        Technique::RailFence { rails } => if rails < 2 {
            Err(ErrorModel::RailFenceTooFewRails)
        } else {
            match direction {
                OperationKind::Encode => Ok(rail_fence_encode_spec(s, rails as int)),
                OperationKind::Decode => Ok(rail_fence_decode_spec(s, rails as int)),
            }
        },
        Technique::Reverse => Ok(s.reverse()),
        Technique::Sha256 => match direction {
            OperationKind::Encode => Ok(sha256_hex(s)),
            OperationKind::Decode => Err(ErrorModel::Sha256NotReversible),
        },
        Technique::Sha512 => match direction {
            OperationKind::Encode => Ok(sha512_hex(s)),
            OperationKind::Decode => Err(ErrorModel::Sha512NotReversible),
        },
    }
}

pub open spec fn result_matches(r: Result<Vec<char>, SighFarError>, spec: Result<Seq<char>, ErrorModel>) -> bool {
    match r {
        Ok(v) => spec == Ok::<Seq<char>, ErrorModel>(v@),
        Err(e) => spec == Err::<Seq<char>, ErrorModel>(e@),
    }
}

fn transform(input: &[char], technique: &TechniqueDescriptor, direction: OperationKind) -> (r: Result<Vec<char>, SighFarError>)
    ensures
        result_matches(r, transform_spec(input@, technique@, direction)),
{
    match technique {
        TechniqueDescriptor::Morse => match direction {
            OperationKind::Encode => morse_encode(input),
            OperationKind::Decode => morse_decode(input),
        },
        TechniqueDescriptor::Caesar { shift } => Ok(process_caesar(input, *shift, direction)),
        TechniqueDescriptor::Vigenere { keyword } => {
            let key_chars = chars_of(keyword.as_str());
            process_vigenere(input, key_chars.as_slice(), direction)
        },
        TechniqueDescriptor::RailFence { rails } => {
            if *rails < 2 {
                Err(SighFarError::RailFenceTooFewRails)
            } else {
                match direction {
                    OperationKind::Encode => Ok(rail_fence_encode(input, *rails)),
                    OperationKind::Decode => Ok(rail_fence_decode(input, *rails)),
                }
            }
        },
        TechniqueDescriptor::Reverse => Ok(reverse_chars(input)),
        TechniqueDescriptor::Sha256 => process_sha256(input, direction),
        TechniqueDescriptor::Sha512 => process_sha512(input, direction),
    }
}

// ---------------------------------------------------------------- the chain

/// Encoding applies the techniques in order; the first failure stops it.
pub open spec fn pipeline_encode_spec(s: Seq<char>, ts: Seq<Technique>) -> Result<Seq<char>, ErrorModel>
    decreases ts.len(),
{
    if ts.len() == 0 {
        Ok(s)
    } else {
        match transform_spec(s, ts[0], OperationKind::Encode) {
            Ok(y) => pipeline_encode_spec(y, ts.drop_first()),
            Err(e) => Err(e),
        }
    }
}

/// Decoding undoes the techniques in reverse order: the rest of the chain
/// first, then the first technique.
pub open spec fn pipeline_decode_spec(s: Seq<char>, ts: Seq<Technique>) -> Result<Seq<char>, ErrorModel>
    decreases ts.len(),
{
    if ts.len() == 0 {
        Ok(s)
    } else {
        match pipeline_decode_spec(s, ts.drop_first()) {
            Ok(y) => transform_spec(y, ts[0], OperationKind::Decode),
            Err(e) => Err(e),
        }
    }
}

/// The cipher chain.
#[derive(Debug, Clone, Copy, Default)]
pub struct CipherPipeline;

proof fn lemma_decode_error_reaches_top(s: Seq<char>, ts: Seq<Technique>, k: int, e: ErrorModel)
    requires
        0 <= k <= ts.len(),
        pipeline_decode_spec(s, ts.skip(k)) == Err::<Seq<char>, ErrorModel>(e),
    ensures
        pipeline_decode_spec(s, ts) == Err::<Seq<char>, ErrorModel>(e),
    decreases k,
{
    if k > 0 {
        assert(ts.skip(k - 1).drop_first() =~= ts.skip(k));
        lemma_decode_error_reaches_top(s, ts, k - 1, e);
    } else {
        assert(ts.skip(0) =~= ts);
    }
}

impl CipherPipeline {
    /// Applies each technique in turn to `input`.
    pub fn encode(&self, input: &str, techniques: &[TechniqueDescriptor]) -> (r: Result<String, SighFarError>)
        ensures
            match r {
                Ok(out) => pipeline_encode_spec(input@, techniques_view(techniques@)) == Ok::<Seq<char>, ErrorModel>(out@),
                Err(e) => pipeline_encode_spec(input@, techniques_view(techniques@)) == Err::<Seq<char>, ErrorModel>(e@),
            },
    {
        let ghost ts = techniques_view(techniques@);
        let mut cur = chars_of(input);
        let mut i: usize = 0;
        assert(ts.skip(0) =~= ts);
        while i < techniques.len()
            invariant
                i <= techniques.len(),
                ts == techniques_view(techniques@),
                pipeline_encode_spec(input@, ts) == pipeline_encode_spec(cur@, ts.skip(i as int)),
            decreases techniques.len() - i,
        {
            assert(ts.skip(i as int)[0] == techniques@[i as int]@);
            assert(ts.skip(i as int).drop_first() =~= ts.skip(i + 1));
            match transform(cur.as_slice(), &techniques[i], OperationKind::Encode) {
                Ok(next) => {
                    cur = next;
                },
                Err(e) => {
                    return Err(e);
                },
            }
            i = i + 1;
        }
        assert(ts.skip(i as int) =~= Seq::<Technique>::empty());
        Ok(string_from_chars(cur.as_slice()))
    }

    /// Undoes each technique of the chain, last one first.
    pub fn decode(&self, input: &str, techniques: &[TechniqueDescriptor]) -> (r: Result<String, SighFarError>)
        ensures
            match r {
                Ok(out) => pipeline_decode_spec(input@, techniques_view(techniques@)) == Ok::<Seq<char>, ErrorModel>(out@),
                Err(e) => pipeline_decode_spec(input@, techniques_view(techniques@)) == Err::<Seq<char>, ErrorModel>(e@),
            },
    {
        let ghost ts = techniques_view(techniques@);
        let mut cur = chars_of(input);
        let mut k: usize = techniques.len();
        assert(ts.skip(k as int) =~= Seq::<Technique>::empty());
        while k > 0
            invariant
                k <= techniques.len(),
                ts == techniques_view(techniques@),
                pipeline_decode_spec(input@, ts.skip(k as int)) == Ok::<Seq<char>, ErrorModel>(cur@),
            decreases k,
        {
            assert(ts.skip(k - 1)[0] == techniques@[k - 1]@);
            assert(ts.skip(k - 1).drop_first() =~= ts.skip(k as int));
            match transform(cur.as_slice(), &techniques[k - 1], OperationKind::Decode) {
                Ok(next) => {
                    cur = next;
                },
                Err(e) => {
                    proof { lemma_decode_error_reaches_top(input@, ts, k - 1, e@); }
                    return Err(e);
                },
            }
            k = k - 1;
        }
        assert(ts.skip(0) =~= ts);
        Ok(string_from_chars(cur.as_slice()))
    }
}

// ---------------------------------------------------------------- round trip

proof fn lemma_rotate_letter(c: char, amount: int)
    ensures
        is_ascii_upper(rotate_spec(c, amount)) == is_ascii_upper(c),
        is_ascii_lower(rotate_spec(c, amount)) == is_ascii_lower(c),
        rotate_spec(rotate_spec(c, amount), -amount) == c,
{
    if is_ascii_upper(c) || is_ascii_lower(c) {
        let base: int = if is_ascii_upper(c) { 65 } else { 97 };
        let off = code_of(c) - base;
        let r = (off + amount) % 26;
        let r2 = (r - amount) % 26;
        vstd::arithmetic::div_mod::lemma_add_mod_noop(off + amount, -amount, 26);
        vstd::arithmetic::div_mod::lemma_small_mod(off as nat, 26);
        assert(((off + amount) % 26 + (-amount) % 26) % 26 == off);
        vstd::arithmetic::div_mod::lemma_add_mod_noop_right(r, -amount, 26);
        assert(r2 == off);
        let d = rotate_spec(c, amount);
        assert(code_of(d) == base + r);
        vstd::utf8::char_u32_cast(c, code_of(c));
    }
}

proof fn lemma_caesar_round_trip(s: Seq<char>, shift: i32)
    ensures
        caesar_spec(caesar_spec(s, shift, OperationKind::Encode), shift, OperationKind::Decode) == s,
{
    let e = caesar_spec(s, shift, OperationKind::Encode);
    let d = caesar_spec(e, shift, OperationKind::Decode);
    assert forall|i: int| 0 <= i < s.len() implies d[i] == s[i] by {
        lemma_rotate_letter(s[i], shift as int);
    }
    assert(d =~= s);
}

proof fn lemma_count_alpha_same(s: Seq<char>, t: Seq<char>, k: int)
    requires
        s.len() == t.len(),
        0 <= k <= s.len(),
        forall|i: int| 0 <= i < s.len() ==> is_ascii_alpha(#[trigger] s[i]) == is_ascii_alpha(t[i]),
    ensures
        count_alpha(s.take(k)) == count_alpha(t.take(k)),
    decreases k,
{
    if k > 0 {
        lemma_count_alpha_same(s, t, k - 1);
        assert(s.take(k).drop_last() =~= s.take(k - 1));
        assert(t.take(k).drop_last() =~= t.take(k - 1));
        assert(is_ascii_alpha(s[k - 1]) == is_ascii_alpha(t[k - 1]));
    }
}

proof fn lemma_vigenere_round_trip(s: Seq<char>, key: Seq<i32>)
    requires
        key.len() > 0,
    ensures
        vigenere_spec(vigenere_spec(s, key, OperationKind::Encode), key, OperationKind::Decode) == s,
{
    let e = vigenere_spec(s, key, OperationKind::Encode);
    let d = vigenere_spec(e, key, OperationKind::Decode);
    assert forall|i: int| 0 <= i < s.len() implies is_ascii_alpha(#[trigger] s[i]) == is_ascii_alpha(e[i]) by {
        let k = key[(count_alpha(s.take(i)) % key.len()) as int] as int;
        lemma_rotate_letter(s[i], k);
    }
    assert forall|i: int| 0 <= i < s.len() implies d[i] == s[i] by {
        lemma_count_alpha_same(s, e, i);
        let k = key[(count_alpha(s.take(i)) % key.len()) as int] as int;
        lemma_rotate_letter(s[i], k);
    }
    assert(d =~= s);
}

proof fn lemma_reverse_twice(s: Seq<char>)
    ensures
        s.reverse().reverse() == s,
{
    if s.len() > 0 {
        assert(s.reverse().reverse() =~= s);
    }
}

/// Whether a technique can be undone on this text: the digests cannot be,
/// and Morse only gives back lowercase letters, digits and spaces.
pub open spec fn step_reversible(s: Seq<char>, t: Technique) -> bool {
    match t {
        Technique::Morse => morse_plain(s),
        Technique::Sha256 => false,
        Technique::Sha512 => false,
        _ => true,
    }
}

/// Every technique of the chain can be undone on the text it receives while
/// encoding.
pub open spec fn reversible_chain(s: Seq<char>, ts: Seq<Technique>) -> bool
    decreases ts.len(),
{
    ts.len() == 0 || (step_reversible(s, ts[0]) && match transform_spec(s, ts[0], OperationKind::Encode) {
        Ok(y) => reversible_chain(y, ts.drop_first()),
        Err(_) => true,
    })
}

/// Decoding a technique's output with the same technique gives its input back.
pub proof fn lemma_step_round_trip(s: Seq<char>, t: Technique)
    requires
        step_reversible(s, t),
        transform_spec(s, t, OperationKind::Encode) is Ok,
    ensures
        transform_spec(transform_spec(s, t, OperationKind::Encode)->Ok_0, t, OperationKind::Decode)
            == Ok::<Seq<char>, ErrorModel>(s),
{
    match t {
        Technique::Morse => lemma_morse_round_trip(s),
        Technique::Caesar { shift } => lemma_caesar_round_trip(s, shift),
        Technique::Vigenere { keyword } => lemma_vigenere_round_trip(s, vigenere_key(keyword)),
        Technique::RailFence { rails } => lemma_rail_fence_round_trip(s, rails as int),
        Technique::Reverse => lemma_reverse_twice(s),
        _ => {},
    }
}

/// The pipeline's round trip: when encoding succeeds and every technique can
/// be undone on the text it receives, decoding with the same chain gives the
/// original text back.
pub proof fn lemma_pipeline_round_trip(s: Seq<char>, ts: Seq<Technique>)
    requires
        reversible_chain(s, ts),
        pipeline_encode_spec(s, ts) is Ok,
    ensures
        pipeline_decode_spec(pipeline_encode_spec(s, ts)->Ok_0, ts) == Ok::<Seq<char>, ErrorModel>(s),
    decreases ts.len(),
{
    if ts.len() > 0 {
        let y = transform_spec(s, ts[0], OperationKind::Encode)->Ok_0;
        lemma_pipeline_round_trip(y, ts.drop_first());
        lemma_step_round_trip(s, ts[0]);
    }
}


// ---------------------------------------------------------------- more laws

/// Encoding with two chains joined is encoding with the first, then with the
/// second; the first failure is the result.
pub proof fn lemma_encode_concat(s: Seq<char>, a: Seq<Technique>, b: Seq<Technique>)
    ensures
        pipeline_encode_spec(s, a + b) == match pipeline_encode_spec(s, a) {
            Ok(y) => pipeline_encode_spec(y, b),
            Err(e) => Err(e),
        },
    decreases a.len(),
{
    if a.len() == 0 {
        assert(a + b =~= b);
    } else {
        assert((a + b)[0] == a[0]);
        assert((a + b).drop_first() =~= a.drop_first() + b);
        match transform_spec(s, a[0], OperationKind::Encode) {
            Ok(y) => lemma_encode_concat(y, a.drop_first(), b),
            Err(_) => {},
        }
    }
}

/// Decoding with two chains joined undoes the second chain first, then the
/// first; the first failure is the result.
pub proof fn lemma_decode_concat(s: Seq<char>, a: Seq<Technique>, b: Seq<Technique>)
    ensures
        pipeline_decode_spec(s, a + b) == match pipeline_decode_spec(s, b) {
            Ok(y) => pipeline_decode_spec(y, a),
            Err(e) => Err(e),
        },
    decreases a.len(),
{
    if a.len() == 0 {
        assert(a + b =~= b);
        match pipeline_decode_spec(s, b) {
            Ok(y) => { assert(pipeline_decode_spec(y, a) == Ok::<Seq<char>, ErrorModel>(y)); },
            Err(_) => {},
        }
    } else {
        assert((a + b)[0] == a[0]);
        assert((a + b).drop_first() =~= a.drop_first() + b);
        lemma_decode_concat(s, a.drop_first(), b);
    }
}

proof fn lemma_rotate_congruent(c: char, a: int, b: int, k: int)
    requires
        a == b + 26 * k,
    ensures
        rotate_spec(c, a) == rotate_spec(c, b),
{
    if is_ascii_upper(c) || is_ascii_lower(c) {
        let base: int = if is_ascii_upper(c) { 65 } else { 97 };
        let off = code_of(c) - base;
        vstd::arithmetic::div_mod::lemma_mod_multiples_vanish(k, off + b, 26);
        assert(off + a == 26 * k + (off + b));
    }
}

/// A Caesar layer acts as its shift reduced into `0..26`.
pub proof fn lemma_caesar_reduced(s: Seq<char>, shift: i32, direction: OperationKind)
    ensures
        transform_spec(s, Technique::Caesar { shift }, direction) == transform_spec(
            s,
            Technique::Caesar { shift: (shift as int % 26) as i32 },
            direction,
        ),
{
    let r = shift as int % 26;
    let q = shift as int / 26;
    vstd::arithmetic::div_mod::lemma_fundamental_div_mod(shift as int, 26);
    assert(shift as int == 26 * q + r);
    let x = caesar_spec(s, shift, direction);
    let y = caesar_spec(s, r as i32, direction);
    assert forall|i: int| 0 <= i < s.len() implies x[i] == y[i] by {
        match direction {
            OperationKind::Encode => lemma_rotate_congruent(s[i], shift as int, r, q),
            OperationKind::Decode => lemma_rotate_congruent(s[i], -(shift as int), -r, -q),
        }
    }
    assert(x =~= y);
}

/// A technique that undoes every text: Caesar, Vigenere with a keyword that
/// has a letter, Reverse, and Rail Fence with at least two rails.
pub open spec fn step_invertible(t: Technique) -> bool {
    match t {
        Technique::Caesar { .. } => true,
        Technique::Vigenere { keyword } => vigenere_key(keyword).len() > 0,
        Technique::Reverse => true,
        Technique::RailFence { rails } => rails >= 2,
        _ => false,
    }
}

proof fn lemma_caesar_right_inverse(s: Seq<char>, shift: i32)
    ensures
        caesar_spec(caesar_spec(s, shift, OperationKind::Decode), shift, OperationKind::Encode) == s,
{
    let d = caesar_spec(s, shift, OperationKind::Decode);
    let e = caesar_spec(d, shift, OperationKind::Encode);
    assert forall|i: int| 0 <= i < s.len() implies e[i] == s[i] by {
        lemma_rotate_letter(s[i], -(shift as int));
    }
    assert(e =~= s);
}

proof fn lemma_vigenere_right_inverse(s: Seq<char>, key: Seq<i32>)
    requires
        key.len() > 0,
    ensures
        vigenere_spec(vigenere_spec(s, key, OperationKind::Decode), key, OperationKind::Encode) == s,
{
    let d = vigenere_spec(s, key, OperationKind::Decode);
    let e = vigenere_spec(d, key, OperationKind::Encode);
    assert forall|i: int| 0 <= i < s.len() implies is_ascii_alpha(#[trigger] s[i]) == is_ascii_alpha(d[i]) by {
        let k = key[(count_alpha(s.take(i)) % key.len()) as int] as int;
        lemma_rotate_letter(s[i], -k);
    }
    assert forall|i: int| 0 <= i < s.len() implies e[i] == s[i] by {
        lemma_count_alpha_same(s, d, i);
        let k = key[(count_alpha(s.take(i)) % key.len()) as int] as int;
        lemma_rotate_letter(s[i], -k);
    }
    assert(e =~= s);
}

/// Encoding a technique's decoding gives the text back.
pub proof fn lemma_step_right_inverse(s: Seq<char>, t: Technique)
    requires
        step_invertible(t),
    ensures
        transform_spec(s, t, OperationKind::Decode) is Ok,
        transform_spec(transform_spec(s, t, OperationKind::Decode)->Ok_0, t, OperationKind::Encode)
            == Ok::<Seq<char>, ErrorModel>(s),
{
    match t {
        Technique::Caesar { shift } => lemma_caesar_right_inverse(s, shift),
        Technique::Vigenere { keyword } => lemma_vigenere_right_inverse(s, vigenere_key(keyword)),
        Technique::RailFence { rails } => lemma_rail_fence_round_trip(s, rails as int),
        Technique::Reverse => lemma_reverse_twice(s),
        _ => {},
    }
}

/// Decoding is also a right inverse of encoding: for a chain of techniques
/// that undo every text, every text decodes, and encoding the result gives
/// the text back.
pub proof fn lemma_pipeline_right_inverse(y: Seq<char>, ts: Seq<Technique>)
    requires
        forall|i: int| 0 <= i < ts.len() ==> step_invertible(#[trigger] ts[i]),
    ensures
        pipeline_decode_spec(y, ts) is Ok,
        pipeline_encode_spec(pipeline_decode_spec(y, ts)->Ok_0, ts) == Ok::<Seq<char>, ErrorModel>(y),
    decreases ts.len(),
{
    if ts.len() > 0 {
        let rest = ts.drop_first();
        assert forall|i: int| 0 <= i < rest.len() implies step_invertible(#[trigger] rest[i]) by {
            assert(rest[i] == ts[i + 1]);
        }
        assert(step_invertible(ts[0]));
        lemma_pipeline_right_inverse(y, rest);
        let z = pipeline_decode_spec(y, rest)->Ok_0;
        lemma_step_right_inverse(z, ts[0]);
    }
}


// ---------------------------------------------------------------- lowercasing

proof fn lemma_rotate_lower(c: char, amount: int)
    ensures
        rotate_spec(ascii_lower(c), amount) == ascii_lower(rotate_spec(c, amount)),
        is_ascii_alpha(ascii_lower(c)) == is_ascii_alpha(c),
{
    lemma_rotate_letter(c, amount);
    if is_ascii_upper(c) {
        let off = code_of(c) - 65;
        let r = (off + amount) % 26;
        let l = ascii_lower(c);
        assert(code_of(l) == code_of(c) + 32);
        assert(is_ascii_lower(l));
        assert(code_of(rotate_spec(l, amount)) == 97 + r);
        assert(code_of(rotate_spec(c, amount)) == 65 + r);
        assert(code_of(ascii_lower(rotate_spec(c, amount))) == 97 + r);
        vstd::utf8::char_u32_cast(rotate_spec(l, amount), (97 + r) as u32);
        vstd::utf8::char_u32_cast(ascii_lower(rotate_spec(c, amount)), (97 + r) as u32);
    }
}

proof fn lemma_caesar_lower(s: Seq<char>, shift: i32, direction: OperationKind)
    ensures
        caesar_spec(ascii_lowered(s), shift, direction) == ascii_lowered(caesar_spec(s, shift, direction)),
{
    let x = caesar_spec(ascii_lowered(s), shift, direction);
    let y = ascii_lowered(caesar_spec(s, shift, direction));
    assert forall|i: int| 0 <= i < s.len() implies x[i] == y[i] by {
        lemma_rotate_lower(s[i], signed(shift as int, direction));
    }
    assert(x =~= y);
}

proof fn lemma_vigenere_lower(s: Seq<char>, key: Seq<i32>, direction: OperationKind)
    ensures
        vigenere_spec(ascii_lowered(s), key, direction) == ascii_lowered(vigenere_spec(s, key, direction)),
{
    let l = ascii_lowered(s);
    let x = vigenere_spec(l, key, direction);
    let y = ascii_lowered(vigenere_spec(s, key, direction));
    assert forall|i: int| 0 <= i < s.len() implies is_ascii_alpha(#[trigger] l[i]) == is_ascii_alpha(s[i]) by {
        lemma_rotate_lower(s[i], 0);
    }
    assert forall|i: int| 0 <= i < s.len() implies x[i] == y[i] by {
        lemma_count_alpha_same(l, s, i);
        let k = key[(count_alpha(s.take(i)) % key.len()) as int] as int;
        lemma_rotate_lower(s[i], signed(k, direction));
    }
    assert(x =~= y);
}

/// Undoing a technique other than Morse or a digest commutes with making
/// capitals small.
proof fn lemma_decode_lower(z: Seq<char>, t: Technique)
    requires
        step_invertible(t),
    ensures
        transform_spec(ascii_lowered(z), t, OperationKind::Decode) == match transform_spec(z, t, OperationKind::Decode) {
            Ok(d) => Ok::<Seq<char>, ErrorModel>(ascii_lowered(d)),
            Err(e) => Err(e),
        },
{
    let l = ascii_lowered(z);
    match t {
        Technique::Caesar { shift } => lemma_caesar_lower(z, shift, OperationKind::Decode),
        Technique::Vigenere { keyword } => lemma_vigenere_lower(z, vigenere_key(keyword), OperationKind::Decode),
        Technique::Reverse => {
            assert(l.reverse() =~= ascii_lowered(z.reverse()));
        },
        Technique::RailFence { rails } => {
            let n = z.len() as int;
            if n > 1 {
                let p = pattern(n, rails as int);
                lemma_pattern_bounded(n, rails as int);
                let x = rail_fence_decode_spec(l, rails as int);
                let y = ascii_lowered(rail_fence_decode_spec(z, rails as int));
                assert forall|i: int| 0 <= i < n implies x[i] == y[i] by {
                    lemma_fence_pos_bounds(p, rails as int, i);
                }
            }
            assert(rail_fence_decode_spec(l, rails as int) =~= ascii_lowered(rail_fence_decode_spec(z, rails as int)));
        },
        _ => {},
    }
}

/// Whether a chain has a Morse step.
pub open spec fn has_morse(ts: Seq<Technique>) -> bool {
    exists|i: int| 0 <= i < ts.len() && ts[i] is Morse
}

/// Every step of the chain can be undone on the text it receives, up to
/// case at Morse: a Morse step receives ASCII text whose lowercase form is
/// made of the table's characters, the other steps undo every text, and no
/// step is a digest.
pub open spec fn reversible_chain_up_to_case(s: Seq<char>, ts: Seq<Technique>) -> bool
    decreases ts.len(),
{
    ts.len() == 0 || ((if ts[0] is Morse {
        is_ascii_text(s) && morse_plain(ascii_lowered(s))
    } else {
        step_invertible(ts[0])
    }) && match transform_spec(s, ts[0], OperationKind::Encode) {
        Ok(y) => reversible_chain_up_to_case(y, ts.drop_first()),
        Err(_) => true,
    })
}

/// Morse output never holds a capital.
proof fn lemma_morse_output_lower(s: Seq<char>)
    requires
        morse_encode_spec(s) is Ok,
    ensures
        ascii_lowered(morse_encode_spec(s)->Ok_0) == morse_encode_spec(s)->Ok_0,
{
    lemma_encode_chars_symbols(morse_lowered(s));
    let m = morse_encode_spec(s)->Ok_0;
    assert forall|i: int| 0 <= i < m.len() implies ascii_lower(m[i]) == m[i] by {}
    assert(ascii_lowered(m) =~= m);
}

/// The round trip of the chain when Morse may lower the case: decoding gives
/// back the text, with its capitals made small when the chain has Morse.
pub proof fn lemma_pipeline_round_trip_up_to_case(s: Seq<char>, ts: Seq<Technique>)
    requires
        reversible_chain_up_to_case(s, ts),
        pipeline_encode_spec(s, ts) is Ok,
    ensures
        pipeline_decode_spec(pipeline_encode_spec(s, ts)->Ok_0, ts) == Ok::<Seq<char>, ErrorModel>(
            if has_morse(ts) { ascii_lowered(s) } else { s },
        ),
    decreases ts.len(),
{
    if ts.len() == 0 {
        return;
    }
    let t0 = ts[0];
    let rest = ts.drop_first();
    let y = transform_spec(s, t0, OperationKind::Encode)->Ok_0;
    lemma_pipeline_round_trip_up_to_case(y, rest);
    assert(has_morse(ts) == (t0 is Morse || has_morse(rest))) by {
        if has_morse(rest) {
            let i = choose|i: int| 0 <= i < rest.len() && rest[i] is Morse;
            assert(ts[i + 1] == rest[i]);
        }
        if has_morse(ts) && !(t0 is Morse) {
            let i = choose|i: int| 0 <= i < ts.len() && ts[i] is Morse;
            assert(rest[i - 1] == ts[i]);
        }
    }
    if t0 is Morse {
        lemma_morse_round_trip_lowercases(s);
        if has_morse(rest) {
            lemma_morse_output_lower(s);
        }
    } else {
        assert(step_reversible(s, t0));
        lemma_step_round_trip(s, t0);
        if has_morse(rest) {
            lemma_decode_lower(y, t0);
        }
    }
}

/// Whether a chain has no digest step.
pub open spec fn no_digest(ts: Seq<Technique>) -> bool {
    forall|i: int| 0 <= i < ts.len() ==> !(#[trigger] ts[i] is Sha256) && !(ts[i] is Sha512)
}

proof fn lemma_rotate_ascii(c: char, amount: int)
    requires
        code_of(c) < 128,
    ensures
        code_of(rotate_spec(c, amount)) < 128,
{
    lemma_rotate_letter(c, amount);
}

/// Encoding one step of ASCII text, other than a digest, gives ASCII text.
proof fn lemma_step_keeps_ascii(s: Seq<char>, t: Technique)
    requires
        is_ascii_text(s),
        !(t is Sha256),
        !(t is Sha512),
        transform_spec(s, t, OperationKind::Encode) is Ok,
    ensures
        is_ascii_text(transform_spec(s, t, OperationKind::Encode)->Ok_0),
{
    let y = transform_spec(s, t, OperationKind::Encode)->Ok_0;
    match t {
        Technique::Morse => {
            lemma_encode_chars_symbols(morse_lowered(s));
        },
        Technique::Caesar { shift } => {
            assert forall|i: int| 0 <= i < y.len() implies code_of(#[trigger] y[i]) < 128 by {
                lemma_rotate_ascii(s[i], shift as int);
            }
        },
        Technique::Vigenere { keyword } => {
            let key = vigenere_key(keyword);
            assert forall|i: int| 0 <= i < y.len() implies code_of(#[trigger] y[i]) < 128 by {
                if is_ascii_alpha(s[i]) {
                    lemma_rotate_ascii(s[i], key[(count_alpha(s.take(i)) % key.len()) as int] as int);
                }
            }
        },
        Technique::RailFence { rails } => {
            let n = s.len() as int;
            if n > 1 {
                let p = pattern(n, rails as int);
                lemma_pattern_bounded(n, rails as int);
                assert forall|k: int| 0 <= k < y.len() implies code_of(#[trigger] y[k]) < 128 by {
                    lemma_fence_pos_onto(p, rails as int, k);
                }
            }
        },
        Technique::Reverse => {
            assert forall|i: int| 0 <= i < y.len() implies code_of(#[trigger] y[i]) < 128 by {
                assert(y[i] == s[s.len() - 1 - i]);
            }
        },
        _ => {},
    }
}

/// ASCII text whose encoding through a chain without digests succeeds meets
/// the condition of `lemma_pipeline_round_trip_up_to_case`: decoding the
/// result gives the text back, lowercased when the chain has Morse.
pub proof fn lemma_ascii_chain_reversible(s: Seq<char>, ts: Seq<Technique>)
    requires
        is_ascii_text(s),
        no_digest(ts),
        pipeline_encode_spec(s, ts) is Ok,
    ensures
        reversible_chain_up_to_case(s, ts),
    decreases ts.len(),
{
    if ts.len() > 0 {
        let t0 = ts[0];
        let rest = ts.drop_first();
        assert(!(t0 is Sha256) && !(t0 is Sha512));
        assert(transform_spec(s, t0, OperationKind::Encode) is Ok);
        let y = transform_spec(s, t0, OperationKind::Encode)->Ok_0;
        lemma_step_keeps_ascii(s, t0);
        assert(no_digest(rest)) by {
            assert forall|i: int| 0 <= i < rest.len() implies !(#[trigger] rest[i] is Sha256) && !(rest[i] is Sha512) by {
                assert(rest[i] == ts[i + 1]);
            }
        }
        lemma_ascii_chain_reversible(y, rest);
        if t0 is Morse {
            lemma_morse_encode_cases(s);
        }
    }
}

/// For ASCII text and a chain without digests, whenever encoding succeeds,
/// decoding its result gives the text back, with its capitals made small
/// when the chain has Morse.
pub proof fn lemma_ascii_round_trip(s: Seq<char>, ts: Seq<Technique>)
    requires
        is_ascii_text(s),
        no_digest(ts),
        pipeline_encode_spec(s, ts) is Ok,
    ensures
        pipeline_decode_spec(pipeline_encode_spec(s, ts)->Ok_0, ts) == Ok::<Seq<char>, ErrorModel>(
            if has_morse(ts) { ascii_lowered(s) } else { s },
        ),
{
    lemma_ascii_chain_reversible(s, ts);
    lemma_pipeline_round_trip_up_to_case(s, ts);
}

} // verus!
