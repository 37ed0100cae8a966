//! The workflow around the cipher chain: reading a chain like
//! `caesar:3,reverse,morse`, shortening text for previews, and the encode /
//! decode operations that combine the chain with the secure envelope.
use vstd::prelude::*;
use vstd::string::StringExecFns;
use crate::cipher::{lemma_pipeline_round_trip, pipeline_decode_spec, pipeline_encode_spec, reversible_chain, CipherPipeline};
use crate::error::{ErrorModel, SighFarError};
use crate::history::{diagnostics_text, HistoryStore};
use crate::keys::{bytes_result_matches, decrypt_outcome, encryption_result, RsaKeyStore};
use crate::store::join_path;
use crate::models::{
    copy_techniques, techniques_view, EncodedMessage, HistoryEntry, KeyEntry, OperationKind, SecureKeyPair, Technique,
    TechniqueDescriptor,
};
use crate::morse::chars_equal;
use crate::primitives::random_nonce;
use crate::secure::{code_alphabet, is_code_text, open_spec, random_code, seal_spec, sealed_from, SecureEnvelope};
use crate::text::{
    chars_of, decimal_i64, decimal_int, is_blank, is_whitespace, lemma_trim_nonempty, parse_i32, parse_i32_spec,
    parse_usize, parse_usize_spec, split_chars, split_spec, string_from_chars, trim_chars, trim_spec, views_of,
};

verus! {

// ---------------------------------------------------------------- chain words

pub open spec fn word_morse() -> Seq<char> { seq!['m', 'o', 'r', 's', 'e'] }
pub open spec fn word_reverse() -> Seq<char> { seq!['r', 'e', 'v', 'e', 'r', 's', 'e'] }
pub open spec fn word_sha256() -> Seq<char> { seq!['s', 'h', 'a', '2', '5', '6'] }
pub open spec fn word_sha512() -> Seq<char> { seq!['s', 'h', 'a', '5', '1', '2'] }
pub open spec fn prefix_caesar() -> Seq<char> { seq!['c', 'a', 'e', 's', 'a', 'r', ':'] }
pub open spec fn prefix_vigenere() -> Seq<char> { seq!['v', 'i', 'g', 'e', 'n', 'e', 'r', 'e', ':'] }
pub open spec fn prefix_railfence() -> Seq<char> { seq!['r', 'a', 'i', 'l', 'f', 'e', 'n', 'c', 'e', ':'] }

pub fn word_morse_chars() -> (v: Vec<char>) ensures v@ == word_morse() { vec!['m', 'o', 'r', 's', 'e'] }
pub fn word_reverse_chars() -> (v: Vec<char>) ensures v@ == word_reverse() { vec!['r', 'e', 'v', 'e', 'r', 's', 'e'] }
pub fn word_sha256_chars() -> (v: Vec<char>) ensures v@ == word_sha256() { vec!['s', 'h', 'a', '2', '5', '6'] }
pub fn word_sha512_chars() -> (v: Vec<char>) ensures v@ == word_sha512() { vec!['s', 'h', 'a', '5', '1', '2'] }
pub fn prefix_caesar_chars() -> (v: Vec<char>) ensures v@ == prefix_caesar() { vec!['c', 'a', 'e', 's', 'a', 'r', ':'] }
pub fn prefix_vigenere_chars() -> (v: Vec<char>) ensures v@ == prefix_vigenere() { vec!['v', 'i', 'g', 'e', 'n', 'e', 'r', 'e', ':'] }
pub fn prefix_railfence_chars() -> (v: Vec<char>) ensures v@ == prefix_railfence() { vec!['r', 'a', 'i', 'l', 'f', 'e', 'n', 'c', 'e', ':'] }

pub open spec fn starts_with(s: Seq<char>, prefix: Seq<char>) -> bool {
    prefix.len() <= s.len() && s.take(prefix.len() as int) == prefix
}

/// Whether `s` starts with `prefix`, and what follows it.
fn strip_prefix(s: &[char], prefix: &[char]) -> (r: Option<Vec<char>>)
    ensures
        match r {
            Some(rest) => starts_with(s@, prefix@) && rest@ == s@.skip(prefix@.len() as int),
            None => !starts_with(s@, prefix@),
        },
{
    if prefix.len() > s.len() {
        return None;
    }
    let mut i: usize = 0;
    while i < prefix.len()
        invariant
            prefix@.len() <= s@.len(),
            i <= prefix@.len(),
            forall|j: int| 0 <= j < i ==> s@[j] == prefix@[j],
        decreases prefix@.len() - i,
    {
        if s[i] != prefix[i] {
            assert(s@.take(prefix@.len() as int)[i as int] != prefix@[i as int]);
            return None;
        }
        i = i + 1;
    }
    assert(s@.take(prefix@.len() as int) =~= prefix@);
    let mut rest: Vec<char> = Vec::new();
    let mut k: usize = prefix.len();
    while k < s.len()
        invariant
            prefix@.len() <= k <= s@.len(),
            rest@ == s@.subrange(prefix@.len() as int, k as int),
        decreases s@.len() - k,
    {
        rest.push(s[k]);
        k = k + 1;
        assert(rest@ =~= s@.subrange(prefix@.len() as int, k as int));
    }
    assert(rest@ =~= s@.skip(prefix@.len() as int));
    Some(rest)
}

// ---------------------------------------------------------------- parsing

/// The trimmed, non-empty pieces of a chain.
pub open spec fn nonempty_trimmed(pieces: Seq<Seq<char>>) -> Seq<Seq<char>>
    decreases pieces.len(),
{
    if pieces.len() == 0 {
        Seq::empty()
    } else {
        let before = nonempty_trimmed(pieces.drop_last());
        let t = trim_spec(pieces.last());
        if t.len() > 0 { before.push(t) } else { before }
    }
}

/// The items of a chain: split at commas, trimmed, empty ones dropped.
pub open spec fn chain_items(chain: Seq<char>) -> Seq<Seq<char>> {
    nonempty_trimmed(split_spec(chain, ','))
}

/// One item of a chain.
pub open spec fn parse_item_spec(item: Seq<char>) -> Result<Technique, ErrorModel> {
    if item == word_morse() {
        Ok(Technique::Morse)
    } else if item == word_reverse() {
        Ok(Technique::Reverse)
    } else if item == word_sha256() {
        Ok(Technique::Sha256)
    } else if item == word_sha512() {
        Ok(Technique::Sha512)
    } else if starts_with(item, prefix_caesar()) {
        match parse_i32_spec(item.skip(7)) {
            Some(shift) => Ok(Technique::Caesar { shift }),
            None => Err(ErrorModel::CaesarFormat),
        }
    } else if starts_with(item, prefix_vigenere()) {
        if item.skip(9).len() == 0 {
            Err(ErrorModel::VigenereFormat)
        } else {
            Ok(Technique::Vigenere { keyword: item.skip(9) })
        }
    } else if starts_with(item, prefix_railfence()) {
        match parse_usize_spec(item.skip(10)) {
            Some(rails) => Ok(Technique::RailFence { rails }),
            None => Err(ErrorModel::RailFenceFormat),
        }
    } else {
        Err(ErrorModel::UnknownTechnique(item))
    }
}

/// Every item parsed in order; the first bad item is the error.
pub open spec fn parse_items_spec(items: Seq<Seq<char>>) -> Result<Seq<Technique>, ErrorModel>
    decreases items.len(),
{
    if items.len() == 0 {
        Ok(Seq::empty())
    } else {
        match parse_items_spec(items.drop_last()) {
            Err(e) => Err(e),
            Ok(ts) => match parse_item_spec(items.last()) {
                Err(e) => Err(e),
                Ok(t) => Ok(ts.push(t)),
            },
        }
    }
}

/// A whole chain: at least one item, each of them a known technique.
pub open spec fn parse_techniques_spec(chain: Seq<char>) -> Result<Seq<Technique>, ErrorModel> {
    if chain_items(chain).len() == 0 {
        Err(ErrorModel::NoTechniques)
    } else {
        parse_items_spec(chain_items(chain))
    }
}

fn parse_item(item: &[char]) -> (r: Result<TechniqueDescriptor, SighFarError>)
    ensures
        match r {
            Ok(t) => parse_item_spec(item@) == Ok::<Technique, ErrorModel>(t@),
            Err(e) => parse_item_spec(item@) == Err::<Technique, ErrorModel>(e@),
        },
{
    if chars_equal(item, word_morse_chars().as_slice()) {
        return Ok(TechniqueDescriptor::Morse);
    }
    if chars_equal(item, word_reverse_chars().as_slice()) {
        return Ok(TechniqueDescriptor::Reverse);
    }
    if chars_equal(item, word_sha256_chars().as_slice()) {
        return Ok(TechniqueDescriptor::Sha256);
    }
    if chars_equal(item, word_sha512_chars().as_slice()) {
        return Ok(TechniqueDescriptor::Sha512);
    }
    if let Some(rest) = strip_prefix(item, prefix_caesar_chars().as_slice()) {
        return match parse_i32(rest.as_slice()) {
            Some(shift) => Ok(TechniqueDescriptor::Caesar { shift }),
            None => Err(SighFarError::CaesarFormat),
        };
    }
    if let Some(rest) = strip_prefix(item, prefix_vigenere_chars().as_slice()) {
        if rest.len() == 0 {
            return Err(SighFarError::VigenereFormat);
        }
        return Ok(TechniqueDescriptor::Vigenere { keyword: string_from_chars(rest.as_slice()) });
    }
    if let Some(rest) = strip_prefix(item, prefix_railfence_chars().as_slice()) {
        return match parse_usize(rest.as_slice()) {
            Some(rails) => Ok(TechniqueDescriptor::RailFence { rails }),
            None => Err(SighFarError::RailFenceFormat),
        };
    }
    Err(SighFarError::UnknownTechnique(string_from_chars(item)))
}

proof fn lemma_parse_error_extends(items: Seq<Seq<char>>, k: int, e: ErrorModel)
    requires
        0 <= k <= items.len(),
        parse_items_spec(items.take(k)) == Err::<Seq<Technique>, ErrorModel>(e),
    ensures
        parse_items_spec(items) == Err::<Seq<Technique>, ErrorModel>(e),
    decreases items.len() - k,
{
    if k < items.len() {
        assert(items.take(k + 1).drop_last() =~= items.take(k));
        lemma_parse_error_extends(items, k + 1, e);
    } else {
        assert(items.take(k) =~= items);
    }
}

/// Reads a technique chain such as `caesar:3, reverse, morse`.
pub fn parse_techniques(input: &str) -> (r: Result<Vec<TechniqueDescriptor>, SighFarError>)
    ensures
        match r {
            Ok(ts) => parse_techniques_spec(input@) == Ok::<Seq<Technique>, ErrorModel>(techniques_view(ts@)),
            Err(e) => parse_techniques_spec(input@) == Err::<Seq<Technique>, ErrorModel>(e@),
        },
{
    let chars = chars_of(input);
    let pieces = split_chars(chars.as_slice(), ',');
    let ghost ps = views_of(pieces@);
    let mut items: Vec<Vec<char>> = Vec::new();
    let mut i: usize = 0;
    while i < pieces.len()
        invariant
            i <= pieces@.len(),
            ps == views_of(pieces@),
            views_of(items@) == nonempty_trimmed(ps.take(i as int)),
        decreases pieces@.len() - i,
    {
        assert(ps.take(i + 1).drop_last() =~= ps.take(i as int));
        assert(ps.take(i + 1).last() == pieces@[i as int]@);
        let t = trim_chars(pieces[i].as_slice());
        if t.len() > 0 {
            let ghost before = items@;
            items.push(t);
            assert(views_of(items@) =~= views_of(before).push(t@));
        }
        i = i + 1;
    }
    assert(ps.take(ps.len() as int) =~= ps);
    let ghost its = views_of(items@);
    assert(its == chain_items(input@));
    if items.len() == 0 {
        return Err(SighFarError::NoTechniques);
    }
    let mut out: Vec<TechniqueDescriptor> = Vec::new();
    let mut k: usize = 0;
    assert(its.take(0) =~= Seq::<Seq<char>>::empty());
    assert(techniques_view(out@) =~= Seq::<Technique>::empty());
    while k < items.len()
        invariant
            k <= items@.len(),
            its == views_of(items@),
            its == chain_items(input@),
            its.len() > 0,
            parse_items_spec(its.take(k as int)) == Ok::<Seq<Technique>, ErrorModel>(techniques_view(out@)),
        decreases items@.len() - k,
    {
        assert(its.take(k + 1).drop_last() =~= its.take(k as int));
        assert(its.take(k + 1).last() == items@[k as int]@);
        match parse_item(items[k].as_slice()) {
            Ok(t) => {
                let ghost before = out@;
                out.push(t);
                assert(techniques_view(out@) =~= techniques_view(before).push(t@));
            },
            Err(e) => {
                proof { lemma_parse_error_extends(its, k + 1, e@); }
                return Err(e);
            },
        }
        k = k + 1;
    }
    assert(its.take(its.len() as int) =~= its);
    Ok(out)
}

// ---------------------------------------------------------------- previews

/// A one-line preview: newlines become spaces, and text over 80 characters
/// keeps its first 77 followed by `...`.
pub open spec fn truncate_spec(value: Seq<char>) -> Seq<char> {
    let cleaned = value.map_values(|c: char| if c == '\n' { ' ' } else { c });
    if cleaned.len() > 80 { cleaned.take(77) + seq!['.', '.', '.'] } else { cleaned }
}

/// A preview is never longer than 80 characters and holds no newline.
pub proof fn lemma_truncate_bounds(value: Seq<char>)
    ensures
        truncate_spec(value).len() <= 80,
        !truncate_spec(value).contains('\n'),
{
    let cleaned = value.map_values(|c: char| if c == '\n' { ' ' } else { c });
    let t = truncate_spec(value);
    assert forall|i: int| 0 <= i < t.len() implies t[i] != '\n' by {
        if cleaned.len() > 80 && i >= 77 {
            assert(t[i] == '.');
        } else {
            assert(t[i] == cleaned[i]);
        }
    }
}

/// A character as a preview shows it: a newline becomes a space.
pub open spec fn preview_char(c: char) -> char {
    if c == '\n' { ' ' } else { c }
}

/// The preview law: text of at most 80 characters is kept whole; longer text
/// keeps its first 77 characters and ends in `...`, 80 characters in all; in
/// both cases every kept character is the text's character at the same
/// place, with a newline shown as a space.
pub proof fn lemma_truncate_prefix(value: Seq<char>)
    ensures
        value.len() <= 80 ==> truncate_spec(value).len() == value.len(),
        value.len() > 80 ==> truncate_spec(value).len() == 80,
        forall|i: int|
            0 <= i < value.len() && i < 77 ==> #[trigger] truncate_spec(value)[i] == preview_char(value[i]),
        forall|i: int|
            0 <= i < value.len() && value.len() <= 80 ==> #[trigger] truncate_spec(value)[i] == preview_char(value[i]),
        value.len() > 80 ==> truncate_spec(value)[77] == '.' && truncate_spec(value)[78] == '.' && truncate_spec(value)[79]
            == '.',
{
}

/// Shortens text for history previews.
pub fn truncate(value: &str) -> (r: String)
    ensures
        r@ == truncate_spec(value@),
        value@.len() <= 80 ==> r@.len() == value@.len(),
        value@.len() > 80 ==> r@.len() == 80 && r@[77] == '.' && r@[78] == '.' && r@[79] == '.',
        forall|i: int| 0 <= i < value@.len() && i < 77 ==> #[trigger] r@[i] == preview_char(value@[i]),
        forall|i: int| 0 <= i < value@.len() && value@.len() <= 80 ==> #[trigger] r@[i] == preview_char(value@[i]),
{
    proof {
        lemma_truncate_prefix(value@);
    }
    let chars = chars_of(value);
    let mut cleaned: Vec<char> = Vec::new();
    let mut i: usize = 0;
    while i < chars.len()
        invariant
            i <= chars@.len(),
            cleaned@ == chars@.take(i as int).map_values(|c: char| if c == '\n' { ' ' } else { c }),
        decreases chars@.len() - i,
    {
        let c = chars[i];
        cleaned.push(if c == '\n' { ' ' } else { c });
        i = i + 1;
        assert(cleaned@ =~= chars@.take(i as int).map_values(|c: char| if c == '\n' { ' ' } else { c }));
    }
    assert(chars@.take(chars@.len() as int) =~= chars@);
    if cleaned.len() > 80 {
        let mut short: Vec<char> = Vec::new();
        let mut k: usize = 0;
        while k < 77
            invariant
                k <= 77,
                cleaned@.len() > 80,
                short@ == cleaned@.take(k as int),
            decreases 77 - k,
        {
            short.push(cleaned[k]);
            k = k + 1;
            assert(short@ =~= cleaned@.take(k as int));
        }
        short.push('.');
        short.push('.');
        short.push('.');
        assert(short@ =~= cleaned@.take(77) + seq!['.', '.', '.']);
        string_from_chars(short.as_slice())
    } else {
        string_from_chars(cleaned.as_slice())
    }
}

// ---------------------------------------------------------------- encode / decode

/// An optional text's characters.
pub open spec fn opt_chars(o: Option<&str>) -> Option<Seq<char>> {
    match o {
        Some(s) => Some(s@),
        None => None,
    }
}

/// An optional `String`'s characters.
pub open spec fn opt_string_chars(o: Option<String>) -> Option<Seq<char>> {
    match o {
        Some(s) => Some(s@),
        None => None,
    }
}

/// Whether an optional text is there and not blank.
pub open spec fn given(o: Option<Seq<char>>) -> bool {
    o matches Some(p) && trim_spec(p).len() > 0
}

/// What encoding gives: the chain, the text it makes, and the envelope when
/// one is asked for, sealed under the passphrase and `companion_code` with
/// `nonce`.  The chain is read first, then applied, then the passphrase is
/// checked.
pub open spec fn encode_outcome(
    message: Seq<char>,
    chain: Seq<char>,
    use_secure_envelope: bool,
    passphrase: Option<Seq<char>>,
    companion_code: Seq<char>,
    nonce: Seq<u8>,
) -> Result<(Seq<Technique>, Seq<char>, Option<Seq<char>>), ErrorModel> {
    match parse_techniques_spec(chain) {
        Err(e) => Err(e),
        Ok(ts) => match pipeline_encode_spec(message, ts) {
            Err(e) => Err(e),
            Ok(t) => if !use_secure_envelope {
                Ok((ts, t, None))
            } else if !given(passphrase) {
                Err(ErrorModel::PassphraseRequiredForEnvelope)
            } else {
                match seal_spec(t, passphrase->Some_0, companion_code, nonce) {
                    Ok(p) => Ok((ts, t, Some(p))),
                    Err(e) => Err(e),
                }
            },
        },
    }
}

/// Whether `r` is what encoding gives with this companion code and nonce.
pub open spec fn encode_result(
    r: Result<EncodedMessage, SighFarError>,
    message: Seq<char>,
    chain: Seq<char>,
    use_secure_envelope: bool,
    passphrase: Option<Seq<char>>,
    companion_code: Seq<char>,
    nonce: Seq<u8>,
) -> bool {
    match r {
        Ok(m) => {
            &&& encode_outcome(message, chain, use_secure_envelope, passphrase, companion_code, nonce)
                == Ok::<(Seq<Technique>, Seq<char>, Option<Seq<char>>), ErrorModel>(
                (techniques_view(m.techniques@), m.transformed_text@, opt_string_chars(m.secure_payload)),
            )
            &&& m.original_input@ == message
            &&& m.used_secure_envelope == use_secure_envelope
            &&& if use_secure_envelope {
                m.key_pair matches Some(kp) && kp.passphrase@ == passphrase->Some_0 && kp.companion_code@
                    == companion_code
            } else {
                m.key_pair is None
            }
            &&& m.secure_payload matches Some(p) ==> open_spec(p@, passphrase->Some_0, companion_code)
                == Ok::<Seq<char>, ErrorModel>(m.transformed_text@)
        },
        Err(e) => encode_outcome(message, chain, use_secure_envelope, passphrase, companion_code, nonce)
            == Err::<(Seq<Technique>, Seq<char>, Option<Seq<char>>), ErrorModel>(e@),
    }
}

/// What decoding gives: the text the chain is undone on (the opened
/// envelope, or the input itself), the chain, and the decoded text.  The
/// passphrase and companion code are checked first, then the envelope is
/// opened, then the chain is read and undone.
pub open spec fn decode_outcome(
    raw_input: Seq<char>,
    chain: Seq<char>,
    secure_payload: bool,
    passphrase: Option<Seq<char>>,
    companion_code: Option<Seq<char>>,
) -> Result<(Seq<char>, Seq<Technique>, Seq<char>), ErrorModel> {
    let resolved: Result<Seq<char>, ErrorModel> = if !secure_payload {
        Ok(raw_input)
    } else if !given(passphrase) {
        Err(ErrorModel::PassphraseRequired)
    } else if !given(companion_code) {
        Err(ErrorModel::CompanionCodeRequired)
    } else {
        open_spec(raw_input, passphrase->Some_0, companion_code->Some_0)
    };
    match resolved {
        Err(e) => Err(e),
        Ok(input) => match parse_techniques_spec(chain) {
            Err(e) => Err(e),
            Ok(ts) => match pipeline_decode_spec(input, ts) {
                Err(e) => Err(e),
                Ok(d) => Ok((input, ts, d)),
            },
        },
    }
}

/// `raw_input` is what encoding `message` with this chain gave (its envelope
/// when one was asked for, sealed under the passphrase and companion code,
/// a code of the kind encoding makes), and every technique of the chain can
/// be undone on the text it received.
pub open spec fn encoded_from(
    raw_input: Seq<char>,
    chain: Seq<char>,
    secure_payload: bool,
    passphrase: Option<Seq<char>>,
    companion_code: Option<Seq<char>>,
    message: Seq<char>,
    nonce: Seq<u8>,
) -> bool {
    let code = match companion_code {
        Some(c) => c,
        None => Seq::empty(),
    };
    &&& nonce.len() == 12
    &&& secure_payload ==> (companion_code is Some && code.len() == 18 && is_code_text(code))
    &&& encode_outcome(message, chain, secure_payload, passphrase, code, nonce) matches Ok(o)
        && raw_input == (if secure_payload { o.2->Some_0 } else { o.1 })
        && reversible_chain(message, o.0)
}

/// A companion code that encoding makes is never blank.
proof fn lemma_code_not_blank(code: Seq<char>)
    requires
        code.len() == 18,
        is_code_text(code),
    ensures
        trim_spec(code).len() > 0,
{
    assert(code_alphabet().contains(code[0]));
    let k = choose|k: int| 0 <= k < code_alphabet().len() && code_alphabet()[k] == code[0];
    assert(!is_whitespace(code_alphabet()[k]));
    lemma_trim_nonempty(code, 0);
}

/// The encode and decode operations: the cipher chain, the secure envelope,
/// and the history the results are recorded in.
pub struct SighFarCore {
    pub pipeline: CipherPipeline,
    pub secure_envelope: SecureEnvelope,
    pub history_store: HistoryStore,
}

impl SighFarCore {
    /// The workflow whose history is kept under `root`.
    pub fn with_root(root: String) -> (c: SighFarCore)
        ensures
            c.history_store.root@ == root@,
            c.history_store.key_file@ == join_path(root@, "history.key"@),
            c.history_store.history_file@ == join_path(root@, "history.enc"@),
    {
        SighFarCore {
            pipeline: CipherPipeline,
            secure_envelope: SecureEnvelope,
            history_store: HistoryStore::with_root(root),
        }
    }
    /// Encodes `message` with the chain, sealing the result in an envelope
    /// under the passphrase, `companion_code` and `nonce` when asked to.
    pub fn encode_with(
        &self,
        message: &str,
        chain: &str,
        use_secure_envelope: bool,
        passphrase: Option<&str>,
        companion_code: &str,
        nonce: &[u8; 12],
    ) -> (r: Result<EncodedMessage, SighFarError>)
        ensures
            encode_result(r, message@, chain@, use_secure_envelope, opt_chars(passphrase), companion_code@, nonce@),
    {
        let techniques = match parse_techniques(chain) {
            Ok(ts) => ts,
            Err(e) => return Err(e),
        };
        let transformed = match self.pipeline.encode(message, techniques.as_slice()) {
            Ok(t) => t,
            Err(e) => return Err(e),
        };
        if !use_secure_envelope {
            return Ok(EncodedMessage {
                original_input: message.to_owned(),
                transformed_text: transformed,
                secure_payload: None,
                techniques,
                used_secure_envelope: false,
                key_pair: None,
            });
        }
        let pass = match passphrase {
            Some(p) => p,
            None => return Err(SighFarError::PassphraseRequiredForEnvelope),
        };
        if is_blank(pass) {
            return Err(SighFarError::PassphraseRequiredForEnvelope);
        }
        let key_pair = SecureKeyPair { passphrase: pass.to_owned(), companion_code: companion_code.to_owned() };
        let payload = match self.secure_envelope.seal_with_nonce(transformed.as_str(), &key_pair, nonce) {
            Ok(p) => p,
            Err(e) => return Err(e),
        };
        Ok(EncodedMessage {
            original_input: message.to_owned(),
            transformed_text: transformed,
            secure_payload: Some(payload),
            techniques,
            used_secure_envelope: true,
            key_pair: Some(key_pair),
        })
    }

    /// Encodes `message` with the chain; with the secure envelope, the
    /// result also carries the envelope and the key pair that opens it: the
    /// passphrase and a fresh 18-character companion code.
    pub fn encode(&self, message: &str, chain: &str, use_secure_envelope: bool, passphrase: Option<&str>) -> (r: Result<
        EncodedMessage,
        SighFarError,
    >)
        ensures
            exists|code: Seq<char>, nonce: Seq<u8>|
                code.len() == 18 && is_code_text(code) && nonce.len() == 12 && #[trigger] encode_result(
                    r,
                    message@,
                    chain@,
                    use_secure_envelope,
                    opt_chars(passphrase),
                    code,
                    nonce,
                ),
    {
        let code = random_code(18);
        let nonce = random_nonce();
        self.encode_with(message, chain, use_secure_envelope, passphrase, code.as_str(), &nonce)
    }

    /// Decodes `raw_input` with the chain, first opening it as an envelope
    /// when `secure_payload` is set.  Whatever `encode` made from a message
    /// decodes, with the same chain and key pair, back to that message when
    /// every technique of the chain can be undone on the text it received.
    pub fn decode(
        &self,
        raw_input: &str,
        chain: &str,
        secure_payload: bool,
        passphrase: Option<&str>,
        companion_code: Option<&str>,
    ) -> (r: Result<EncodedMessage, SighFarError>)
        ensures
            match r {
                Ok(m) => {
                    &&& decode_outcome(raw_input@, chain@, secure_payload, opt_chars(passphrase), opt_chars(companion_code))
                        == Ok::<(Seq<char>, Seq<Technique>, Seq<char>), ErrorModel>(
                        (m.original_input@, techniques_view(m.techniques@), m.transformed_text@),
                    )
                    &&& m.secure_payload is None
                    &&& m.key_pair is None
                    &&& m.used_secure_envelope == secure_payload
                },
                Err(e) => decode_outcome(raw_input@, chain@, secure_payload, opt_chars(passphrase), opt_chars(companion_code))
                    == Err::<(Seq<char>, Seq<Technique>, Seq<char>), ErrorModel>(e@),
            },
            forall|message: Seq<char>, nonce: Seq<u8>|
                #[trigger] encoded_from(
                    raw_input@,
                    chain@,
                    secure_payload,
                    opt_chars(passphrase),
                    opt_chars(companion_code),
                    message,
                    nonce,
                ) ==> (r matches Ok(m) && m.transformed_text@ == message),
    {
        let ghost pass = opt_chars(passphrase);
        let ghost code = opt_chars(companion_code);
        let resolved = if secure_payload {
            let p = match passphrase {
                Some(p) => p,
                None => return Err(SighFarError::PassphraseRequired),
            };
            if is_blank(p) {
                return Err(SighFarError::PassphraseRequired);
            }
            let c = match companion_code {
                Some(c) => c,
                None => {
                    proof {
                        assert forall|m: Seq<char>, n: Seq<u8>|
                            #[trigger] encoded_from(raw_input@, chain@, secure_payload, pass, code, m, n) implies false by {}
                    }
                    return Err(SighFarError::CompanionCodeRequired);
                },
            };
            if is_blank(c) {
                proof {
                    assert forall|m: Seq<char>, n: Seq<u8>|
                        #[trigger] encoded_from(raw_input@, chain@, secure_payload, pass, code, m, n) implies false by {
                        lemma_code_not_blank(c@);
                    }
                }
                return Err(SighFarError::CompanionCodeRequired);
            }
            let key_pair = SecureKeyPair { passphrase: p.to_owned(), companion_code: c.to_owned() };
            match self.secure_envelope.open(raw_input, &key_pair) {
                Ok(s) => {
                    proof {
                        assert forall|m: Seq<char>, n: Seq<u8>|
                            #[trigger] encoded_from(raw_input@, chain@, secure_payload, pass, code, m, n) implies
                            s@ == pipeline_encode_spec(m, parse_techniques_spec(chain@)->Ok_0)->Ok_0 by {
                            let o = encode_outcome(m, chain@, secure_payload, pass, c@, n)->Ok_0;
                            assert(sealed_from(raw_input@, p@, c@, o.1, n));
                        }
                    }
                    s
                },
                Err(e) => {
                    proof {
                        assert forall|m: Seq<char>, n: Seq<u8>|
                            #[trigger] encoded_from(raw_input@, chain@, secure_payload, pass, code, m, n) implies false by {
                            let o = encode_outcome(m, chain@, secure_payload, pass, c@, n)->Ok_0;
                            assert(sealed_from(raw_input@, p@, c@, o.1, n));
                        }
                    }
                    return Err(e);
                },
            }
        } else {
            raw_input.to_owned()
        };
        let techniques = match parse_techniques(chain) {
            Ok(ts) => ts,
            Err(e) => return Err(e),
        };
        let decoded = match self.pipeline.decode(resolved.as_str(), techniques.as_slice()) {
            Ok(d) => d,
            Err(e) => {
                proof {
                    assert forall|m: Seq<char>, n: Seq<u8>|
                        #[trigger] encoded_from(raw_input@, chain@, secure_payload, pass, code, m, n) implies false by {
                        let ts = techniques_view(techniques@);
                        lemma_pipeline_round_trip(m, ts);
                    }
                }
                return Err(e);
            },
        };
        proof {
            assert forall|m: Seq<char>, n: Seq<u8>|
                #[trigger] encoded_from(raw_input@, chain@, secure_payload, pass, code, m, n) implies decoded@ == m by {
                let ts = techniques_view(techniques@);
                lemma_pipeline_round_trip(m, ts);
            }
        }
        Ok(EncodedMessage {
            original_input: resolved,
            transformed_text: decoded,
            secure_payload: None,
            techniques,
            used_secure_envelope: secure_payload,
            key_pair: None,
        })
    }

    /// Encrypts with the stored RSA key labelled `label` (OAEP over SHA-256).
    pub fn rsa_encrypt(&self, entries: &[KeyEntry], label: &str, plaintext: &[u8]) -> (r: Result<Vec<u8>, SighFarError>)
        ensures
            encryption_result(r, entries@, label@, plaintext@),
    {
        RsaKeyStore::encrypt(entries, label, plaintext)
    }

    /// Decrypts with the stored RSA key labelled `label` (OAEP over SHA-256).
    pub fn rsa_decrypt(&self, entries: &[KeyEntry], label: &str, ciphertext: &[u8]) -> (r: Result<Vec<u8>, SighFarError>)
        ensures
            bytes_result_matches(r, decrypt_outcome(entries@, label@, ciphertext@)),
    {
        RsaKeyStore::decrypt(entries, label, ciphertext)
    }

    /// Where the history is kept.
    pub fn diagnostics(&self) -> (d: String)
        ensures
            d@ == diagnostics_text(
                self.history_store.root@,
                self.history_store.key_file@,
                self.history_store.history_file@,
            ),
    {
        self.history_store.diagnostics()
    }
}

/// The milliseconds since the Unix epoch of a time given in seconds and
/// nanoseconds.
pub open spec fn millis_of(secs: i64, nanos: u32) -> int {
    secs * 1000 + nanos / 1_000_000
}

/// The history line for an encode or decode result, stamped with the given
/// time: its id is `entry-` and the time in milliseconds, and its previews
/// are the shortened input and output (the envelope, when there is one).
pub fn history_entry_for(result: &EncodedMessage, operation: OperationKind, timestamp_secs: i64, timestamp_nanos: u32) -> (h: HistoryEntry)
    requires
        i64::MIN <= millis_of(timestamp_secs, timestamp_nanos) <= i64::MAX,
        i64::MIN <= timestamp_secs * 1000,
    ensures
        h.id@ == "entry-"@ + decimal_int(millis_of(timestamp_secs, timestamp_nanos)),
        h.timestamp_secs == timestamp_secs,
        h.timestamp_nanos == timestamp_nanos,
        h.operation == operation,
        h.input_preview@ == truncate_spec(result.original_input@),
        h.output_preview@ == truncate_spec(
            match result.secure_payload {
                Some(p) => p@,
                None => result.transformed_text@,
            },
        ),
        techniques_view(h.techniques@) == techniques_view(result.techniques@),
        h.used_secure_envelope == result.used_secure_envelope,
{
    let millis: i64 = timestamp_secs * 1000 + (timestamp_nanos / 1_000_000) as i64;
    let digits = string_from_chars(decimal_i64(millis).as_slice());
    let output_preview = match &result.secure_payload {
        Some(p) => truncate(p.as_str()),
        None => truncate(result.transformed_text.as_str()),
    };
    HistoryEntry {
        id: String::from_str("entry-").concat(digits.as_str()),
        timestamp_secs,
        timestamp_nanos,
        operation,
        input_preview: truncate(result.original_input.as_str()),
        output_preview,
        techniques: copy_techniques(result.techniques.as_slice()),
        used_secure_envelope: result.used_secure_envelope,
    }
}

} // verus!
