//! Building a technique chain step by step and writing it out in the chain
//! syntax that `parse_techniques` reads.
use vstd::prelude::*;
use crate::error::ErrorModel;
use vstd::string::StringExecFns;
use crate::models::{techniques_view, title_text, Technique, TechniqueDescriptor};
use crate::text::{
    decimal_i64, decimal_int, decimal_usize, is_ascii_digit, is_whitespace,
    lemma_decimal_digits, lemma_parse_decimal_i32, lemma_parse_decimal_usize, leading_ws,
    split_scan, split_spec, string_from_chars, trailing_ws, trim_chars, trim_spec,
};
use crate::workflow::{
    chain_items, nonempty_trimmed, parse_item_spec, parse_items_spec, parse_techniques_spec,
    prefix_caesar, prefix_caesar_chars, prefix_railfence, prefix_railfence_chars, prefix_vigenere,
    prefix_vigenere_chars, word_morse, word_morse_chars, word_reverse, word_reverse_chars,
    word_sha256, word_sha256_chars, word_sha512, word_sha512_chars,
};

verus! {

/// The kinds of technique offered when building a chain.
#[derive(Debug, Clone, Copy, PartialEq, Eq, Structural)]
pub enum DraftTechniqueKind {
    Morse,
    Caesar,
    Vigenere,
    RailFence,
    Reverse,
}

pub open spec fn label_text(kind: DraftTechniqueKind) -> Seq<char> {
    match kind {
        DraftTechniqueKind::Morse => "Morse"@,
        DraftTechniqueKind::Caesar => "Caesar"@,
        DraftTechniqueKind::Vigenere => "Vigenere"@,
        DraftTechniqueKind::RailFence => "Rail Fence"@,
        DraftTechniqueKind::Reverse => "Reverse"@,
    }
}

impl DraftTechniqueKind {
    /// The name shown for the kind.
    pub fn label(self) -> (r: &'static str)
        ensures
            r@ == label_text(self),
    {
        match self {
            DraftTechniqueKind::Morse => "Morse",
            DraftTechniqueKind::Caesar => "Caesar",
            DraftTechniqueKind::Vigenere => "Vigenere",
            DraftTechniqueKind::RailFence => "Rail Fence",
            DraftTechniqueKind::Reverse => "Reverse",
        }
    }

    /// Every kind, in the order they are offered.
    pub fn all() -> (r: [DraftTechniqueKind; 5])
        ensures
            r@ == seq![
                DraftTechniqueKind::Morse,
                DraftTechniqueKind::Caesar,
                DraftTechniqueKind::Vigenere,
                DraftTechniqueKind::RailFence,
                DraftTechniqueKind::Reverse,
            ],
    {
        [
            DraftTechniqueKind::Morse,
            DraftTechniqueKind::Caesar,
            DraftTechniqueKind::Vigenere,
            DraftTechniqueKind::RailFence,
            DraftTechniqueKind::Reverse,
        ]
    }
}

/// A chain under construction, with the settings of the next item to add.
pub struct TechniqueBuilder {
    pub items: Vec<TechniqueDescriptor>,
    pub draft_kind: DraftTechniqueKind,
    pub draft_shift: i32,
    pub draft_keyword: String,
    pub draft_rails: usize,
}

/// The technique the builder's draft settings describe.
pub open spec fn draft_technique(
    kind: DraftTechniqueKind,
    shift: i32,
    keyword: Seq<char>,
    rails: usize,
) -> Technique {
    match kind {
        DraftTechniqueKind::Morse => Technique::Morse,
        DraftTechniqueKind::Caesar => Technique::Caesar { shift },
        DraftTechniqueKind::Vigenere => Technique::Vigenere { keyword: trim_spec(keyword) },
        DraftTechniqueKind::RailFence => Technique::RailFence { rails: if rails < 2 { 2 } else { rails } },
        DraftTechniqueKind::Reverse => Technique::Reverse,
    }
}

// ---------------------------------------------------------------- chain syntax

/// How one technique is written in a chain.
pub open spec fn chain_token(t: Technique) -> Seq<char> {
    match t {
        Technique::Morse => word_morse(),
        Technique::Caesar { shift } => prefix_caesar() + decimal_int(shift as int),
        Technique::Vigenere { keyword } => prefix_vigenere() + keyword,
        Technique::RailFence { rails } => prefix_railfence() + decimal_int(rails as int),
        Technique::Reverse => word_reverse(),
        Technique::Sha256 => word_sha256(),
        Technique::Sha512 => word_sha512(),
    }
}

/// The parts joined with commas.
pub open spec fn join_commas(parts: Seq<Seq<char>>) -> Seq<char>
    decreases parts.len(),
{
    if parts.len() == 0 {
        Seq::empty()
    } else if parts.len() == 1 {
        parts[0]
    } else {
        join_commas(parts.drop_last()) + seq![','] + parts.last()
    }
}

/// A chain written out: each technique's token, separated by commas.
pub open spec fn chain_text(ts: Seq<Technique>) -> Seq<char> {
    join_commas(ts.map_values(|t: Technique| chain_token(t)))
}

fn chain_token_chars(t: &TechniqueDescriptor) -> (r: Vec<char>)
    ensures
        r@ == chain_token(t@),
{
    match t {
        TechniqueDescriptor::Morse => word_morse_chars(),
        TechniqueDescriptor::Caesar { shift } => {
            let mut r = prefix_caesar_chars();
            crate::text::push_all(&mut r, decimal_i64(*shift as i64).as_slice());
            r
        },
        TechniqueDescriptor::Vigenere { keyword } => {
            let mut r = prefix_vigenere_chars();
            crate::text::push_all(&mut r, crate::text::chars_of(keyword.as_str()).as_slice());
            r
        },
        TechniqueDescriptor::RailFence { rails } => {
            let mut r = prefix_railfence_chars();
            crate::text::push_all(&mut r, decimal_usize(*rails).as_slice());
            r
        },
        TechniqueDescriptor::Reverse => word_reverse_chars(),
        TechniqueDescriptor::Sha256 => word_sha256_chars(),
        TechniqueDescriptor::Sha512 => word_sha512_chars(),
    }
}

/// A chain of techniques written in chain syntax.
pub fn chain_string(techniques: &[TechniqueDescriptor]) -> (r: String)
    ensures
        r@ == chain_text(techniques_view(techniques@)),
{
    let ghost ts = techniques_view(techniques@);
    let ghost parts = ts.map_values(|t: Technique| chain_token(t));
    let mut out: Vec<char> = Vec::new();
    let mut i: usize = 0;
    while i < techniques.len()
        invariant
            i <= techniques@.len(),
            ts == techniques_view(techniques@),
            parts == ts.map_values(|t: Technique| chain_token(t)),
            out@ == join_commas(parts.take(i as int)),
        decreases techniques@.len() - i,
    {
        assert(parts.take(i + 1).drop_last() =~= parts.take(i as int));
        assert(parts.take(i + 1).last() == chain_token(techniques@[i as int]@));
        if i > 0 {
            out.push(',');
        }
        let token = chain_token_chars(&techniques[i]);
        crate::text::push_all(&mut out, token.as_slice());
        proof {
            if i == 0 {
                assert(out@ =~= token@);
            }
        }
        i = i + 1;
    }
    assert(parts.take(parts.len() as int) =~= parts);
    string_from_chars(out.as_slice())
}

/// `n` written with at least two digits, zero-padded.
pub open spec fn zero_pad2(n: int) -> Seq<char> {
    if decimal_int(n).len() < 2 { seq!['0'] + decimal_int(n) } else { decimal_int(n) }
}

/// How layer `idx` of a chain is listed: its number from 01, then its name.
pub fn layer_label(idx: usize, item: &TechniqueDescriptor) -> (r: String)
    requires
        idx < usize::MAX,
    ensures
        r@ == zero_pad2(idx + 1) + ". "@ + title_text(item@),
{
    let digits = decimal_usize(idx + 1);
    let mut text: Vec<char> = Vec::new();
    if digits.len() < 2 {
        text.push('0');
    }
    crate::text::push_all(&mut text, digits.as_slice());
    proof {
        if digits@.len() < 2 {
            assert(text@ =~= seq!['0'] + digits@);
        } else {
            assert(text@ =~= digits@);
        }
    }
    string_from_chars(text.as_slice()).concat(". ").concat(item.title().as_str())
}

/// The chain with layers `i` and `i + 1` exchanged.
pub open spec fn swapped(ts: Seq<Technique>, i: int) -> Seq<Technique> {
    ts.update(i, ts[i + 1]).update(i + 1, ts[i])
}

/// The chain after moving layer `idx` one place towards the start.
pub open spec fn moved_up(ts: Seq<Technique>, idx: int) -> Seq<Technique> {
    if idx > 0 { swapped(ts, idx - 1) } else { ts }
}

/// The chain after moving layer `idx` one place towards the end.
pub open spec fn moved_down(ts: Seq<Technique>, idx: int) -> Seq<Technique> {
    if idx + 1 < ts.len() { swapped(ts, idx) } else { ts }
}

/// Moving a layer up and then back down restores the chain.
pub proof fn lemma_move_up_then_down(ts: Seq<Technique>, idx: int)
    requires
        0 < idx < ts.len(),
    ensures
        moved_down(moved_up(ts, idx), idx - 1) == ts,
{
    assert(moved_down(moved_up(ts, idx), idx - 1) =~= ts);
}

impl TechniqueBuilder {
    /// The starting chain `morse, caesar:4, reverse`, drafting a Caesar shift of 4.
    pub fn with_defaults() -> (b: TechniqueBuilder)
        ensures
            techniques_view(b.items@) == seq![
                Technique::Morse,
                Technique::Caesar { shift: 4 },
                Technique::Reverse,
            ],
            b.draft_kind == DraftTechniqueKind::Caesar,
            b.draft_shift == 4,
            b.draft_keyword@ == "smile"@,
            b.draft_rails == 3,
    {
        let items = vec![
            TechniqueDescriptor::Morse,
            TechniqueDescriptor::Caesar { shift: 4 },
            TechniqueDescriptor::Reverse,
        ];
        assert(techniques_view(items@) =~= seq![
            Technique::Morse,
            Technique::Caesar { shift: 4 },
            Technique::Reverse,
        ]);
        TechniqueBuilder {
            items,
            draft_kind: DraftTechniqueKind::Caesar,
            draft_shift: 4,
            draft_keyword: String::from_str("smile"),
            draft_rails: 3,
        }
    }

    /// Appends the drafted technique: a Vigenere keyword is trimmed and a rail
    /// count below 2 is raised to 2.
    pub fn add_current(&mut self)
        ensures
            techniques_view(final(self).items@) == techniques_view(old(self).items@).push(
                draft_technique(old(self).draft_kind, old(self).draft_shift, old(self).draft_keyword@, old(self).draft_rails),
            ),
            final(self).draft_kind == old(self).draft_kind,
            final(self).draft_shift == old(self).draft_shift,
            final(self).draft_keyword@ == old(self).draft_keyword@,
            final(self).draft_rails == old(self).draft_rails,
    {
        let item = match self.draft_kind {
            DraftTechniqueKind::Morse => TechniqueDescriptor::Morse,
            DraftTechniqueKind::Caesar => TechniqueDescriptor::Caesar { shift: self.draft_shift },
            DraftTechniqueKind::Vigenere => {
                let kw = crate::text::chars_of(self.draft_keyword.as_str());
                let trimmed = trim_chars(kw.as_slice());
                TechniqueDescriptor::Vigenere { keyword: string_from_chars(trimmed.as_slice()) }
            },
            DraftTechniqueKind::RailFence => TechniqueDescriptor::RailFence {
                rails: if self.draft_rails < 2 { 2 } else { self.draft_rails },
            },
            DraftTechniqueKind::Reverse => TechniqueDescriptor::Reverse,
        };
        let ghost before = self.items@;
        self.items.push(item);
        assert(techniques_view(self.items@) =~= techniques_view(before).push(item@));
    }

    /// Removes every layer.
    pub fn clear(&mut self)
        ensures
            final(self).items@.len() == 0,
            final(self).draft_kind == old(self).draft_kind,
            final(self).draft_shift == old(self).draft_shift,
            final(self).draft_keyword@ == old(self).draft_keyword@,
            final(self).draft_rails == old(self).draft_rails,
    {
        self.items.clear();
    }

    /// Moves layer `idx` one place towards the start; the first layer stays.
    pub fn move_up(&mut self, idx: usize)
        requires
            idx < old(self).items@.len(),
        ensures
            techniques_view(final(self).items@) == moved_up(techniques_view(old(self).items@), idx as int),
            final(self).draft_kind == old(self).draft_kind,
            final(self).draft_shift == old(self).draft_shift,
            final(self).draft_keyword@ == old(self).draft_keyword@,
            final(self).draft_rails == old(self).draft_rails,
    {
        if idx > 0 {
            self.swap_layers(idx - 1);
        }
        assert(techniques_view(self.items@) =~= moved_up(techniques_view(old(self).items@), idx as int));
    }

    /// Moves layer `idx` one place towards the end; the last layer stays.
    pub fn move_down(&mut self, idx: usize)
        requires
            idx < old(self).items@.len(),
        ensures
            techniques_view(final(self).items@) == moved_down(techniques_view(old(self).items@), idx as int),
            final(self).draft_kind == old(self).draft_kind,
            final(self).draft_shift == old(self).draft_shift,
            final(self).draft_keyword@ == old(self).draft_keyword@,
            final(self).draft_rails == old(self).draft_rails,
    {
        if self.items.len() - idx > 1 {
            self.swap_layers(idx);
        }
        assert(techniques_view(self.items@) =~= moved_down(techniques_view(old(self).items@), idx as int));
    }

    /// Removes layer `idx`.
    pub fn remove(&mut self, idx: usize)
        requires
            idx < old(self).items@.len(),
        ensures
            techniques_view(final(self).items@) == techniques_view(old(self).items@).remove(idx as int),
            final(self).draft_kind == old(self).draft_kind,
            final(self).draft_shift == old(self).draft_shift,
            final(self).draft_keyword@ == old(self).draft_keyword@,
            final(self).draft_rails == old(self).draft_rails,
    {
        let _ = self.items.remove(idx);
        assert(techniques_view(self.items@) =~= techniques_view(old(self).items@).remove(idx as int));
    }

    /// Exchanges layers `i` and `i + 1`.
    fn swap_layers(&mut self, i: usize)
        requires
            i + 1 < old(self).items@.len(),
        ensures
            techniques_view(final(self).items@) == swapped(techniques_view(old(self).items@), i as int),
            final(self).draft_kind == old(self).draft_kind,
            final(self).draft_shift == old(self).draft_shift,
            final(self).draft_keyword@ == old(self).draft_keyword@,
            final(self).draft_rails == old(self).draft_rails,
    {
        let n = self.items.len();
        assert(i + 1 < n);
        let first = self.items[i].duplicate();
        let second = self.items[i + 1].duplicate();
        self.items.set(i, second);
        self.items.set(i + 1, first);
        assert(techniques_view(self.items@) =~= swapped(techniques_view(old(self).items@), i as int));
    }

    /// The chain built so far, in chain syntax.
    pub fn chain_string(&self) -> (r: String)
        ensures
            r@ == chain_text(techniques_view(self.items@)),
    {
        chain_string(self.items.as_slice())
    }
}


// ---------------------------------------------------------------- round trip

/// A technique that survives being written into a chain: a Vigenere keyword
/// must be non-empty, hold no comma and not end in whitespace.
pub open spec fn chain_safe(t: Technique) -> bool {
    match t {
        Technique::Vigenere { keyword } => keyword.len() > 0 && !keyword.contains(',') && !is_whitespace(keyword.last()),
        _ => true,
    }
}

proof fn lemma_token(t: Technique)
    requires
        chain_safe(t),
    ensures
        chain_token(t).len() > 0,
        !chain_token(t).contains(','),
        !is_whitespace(chain_token(t)[0]),
        !is_whitespace(chain_token(t).last()),
        parse_item_spec(chain_token(t)) == Ok::<Technique, ErrorModel>(t),
{
    let tok = chain_token(t);
    match t {
        Technique::Caesar { shift } => {
            let d = decimal_int(shift as int);
            lemma_parse_decimal_i32(shift);
            lemma_decimal_digits(if shift < 0 { (-shift) as nat } else { shift as nat });
            assert(tok[0] == 'c');
            assert(tok[1] == 'a');
            assert(tok.skip(7) =~= d);
            assert(tok.take(7) =~= prefix_caesar());
            assert(is_ascii_digit(tok.last()));
            assert forall|i: int| 0 <= i < tok.len() implies tok[i] != ',' by {
                if i >= 7 && shift >= 0 {
                    assert(tok[i] == d[i - 7]);
                } else if i >= 8 {
                    assert(tok[i] == d[i - 7]);
                }
            }
        },
        Technique::Vigenere { keyword } => {
            assert(tok[0] == 'v');
            assert(tok.skip(9) =~= keyword);
            assert(tok.take(9) =~= prefix_vigenere());
            assert(tok.last() == keyword.last());
            assert forall|i: int| 0 <= i < tok.len() implies tok[i] != ',' by {
                if i >= 9 {
                    assert(tok[i] == keyword[i - 9]);
                }
            }
        },
        Technique::RailFence { rails } => {
            let d = decimal_int(rails as int);
            lemma_parse_decimal_usize(rails);
            lemma_decimal_digits(rails as nat);
            assert(tok[0] == 'r');
            assert(tok[1] == 'a');
            assert(tok.skip(10) =~= d);
            assert(tok.take(10) =~= prefix_railfence());
            assert(is_ascii_digit(tok.last()));
            assert forall|i: int| 0 <= i < tok.len() implies tok[i] != ',' by {
                if i >= 10 {
                    assert(tok[i] == d[i - 10]);
                }
            }
        },
        Technique::Reverse => {
            assert(tok[0] == 'r');
            assert(tok.len() != word_morse().len());
        },
        Technique::Sha256 => {
            assert(tok.len() != word_morse().len());
            assert(tok.len() != word_reverse().len());
        },
        Technique::Sha512 => {
            assert(tok.len() != word_morse().len());
            assert(tok.len() != word_reverse().len());
            assert(tok[3] != word_sha256()[3]);
        },
        Technique::Morse => {},
    }
}

proof fn lemma_split_scan_append(x: Seq<char>, y: Seq<char>)
    requires
        !y.contains(','),
    ensures
        split_scan(x + y, ',') == (split_scan(x, ',').0, split_scan(x, ',').1 + y),
    decreases y.len(),
{
    if y.len() == 0 {
        assert(x + y =~= x);
        assert(split_scan(x, ',').1 + y =~= split_scan(x, ',').1);
    } else {
        assert(!y.drop_last().contains(',')) by {
            if y.drop_last().contains(',') {
                let i = choose|i: int| 0 <= i < y.drop_last().len() && y.drop_last()[i] == ',';
                assert(y[i] == ',');
            }
        }
        lemma_split_scan_append(x, y.drop_last());
        assert((x + y).drop_last() =~= x + y.drop_last());
        assert(y.last() != ',') by {
            assert(y[y.len() - 1] == y.last());
        }
        assert((split_scan(x, ',').1 + y.drop_last()).push(y.last()) =~= split_scan(x, ',').1 + y);
    }
}

proof fn lemma_split_scan_join(parts: Seq<Seq<char>>)
    requires
        parts.len() > 0,
        forall|i: int| 0 <= i < parts.len() ==> !(#[trigger] parts[i]).contains(','),
    ensures
        split_scan(join_commas(parts), ',') == (parts.drop_last(), parts.last()),
    decreases parts.len(),
{
    if parts.len() == 1 {
        lemma_split_scan_append(Seq::empty(), parts[0]);
        assert(Seq::<char>::empty() + parts[0] =~= parts[0]);
        assert(Seq::<char>::empty() + parts[0] =~= parts[0]);
        assert(parts.drop_last() =~= Seq::<Seq<char>>::empty());
    } else {
        let p0 = parts.drop_last();
        assert forall|i: int| 0 <= i < p0.len() implies !(#[trigger] p0[i]).contains(',') by {
            assert(p0[i] == parts[i]);
        }
        lemma_split_scan_join(p0);
        let x = join_commas(p0) + seq![','];
        assert(x.drop_last() =~= join_commas(p0));
        assert(p0.drop_last().push(p0.last()) =~= p0);
        assert(split_scan(x, ',') == (p0, Seq::<char>::empty()));
        assert(!parts[parts.len() - 1].contains(','));
        lemma_split_scan_append(x, parts.last());
        assert(Seq::<char>::empty() + parts.last() =~= parts.last());
    }
}

proof fn lemma_trim_fixed(t: Seq<char>)
    requires
        t.len() > 0,
        !is_whitespace(t[0]),
        !is_whitespace(t.last()),
    ensures
        trim_spec(t) == t,
{
    assert(leading_ws(t) == 0);
    assert(trailing_ws(t) == 0);
    assert(t.subrange(0, t.len() as int) =~= t);
}

proof fn lemma_nonempty_trimmed_fixed(parts: Seq<Seq<char>>)
    requires
        forall|i: int| 0 <= i < parts.len() ==> trim_spec(#[trigger] parts[i]) == parts[i] && parts[i].len() > 0,
    ensures
        nonempty_trimmed(parts) == parts,
    decreases parts.len(),
{
    if parts.len() > 0 {
        let p0 = parts.drop_last();
        assert forall|i: int| 0 <= i < p0.len() implies trim_spec(#[trigger] p0[i]) == p0[i] && p0[i].len() > 0 by {
            assert(p0[i] == parts[i]);
        }
        lemma_nonempty_trimmed_fixed(p0);
        assert(trim_spec(parts[parts.len() - 1]) == parts[parts.len() - 1]);
        assert(p0.push(parts.last()) =~= parts);
    }
}

proof fn lemma_parse_tokens(ts: Seq<Technique>)
    requires
        forall|i: int| 0 <= i < ts.len() ==> chain_safe(#[trigger] ts[i]),
    ensures
        parse_items_spec(ts.map_values(|t: Technique| chain_token(t))) == Ok::<Seq<Technique>, ErrorModel>(ts),
    decreases ts.len(),
{
    let parts = ts.map_values(|t: Technique| chain_token(t));
    if ts.len() > 0 {
        let t0 = ts.drop_last();
        assert forall|i: int| 0 <= i < t0.len() implies chain_safe(#[trigger] t0[i]) by {
            assert(t0[i] == ts[i]);
        }
        lemma_parse_tokens(t0);
        assert(parts.drop_last() =~= t0.map_values(|t: Technique| chain_token(t)));
        assert(chain_safe(ts[ts.len() - 1]));
        lemma_token(ts.last());
        assert(t0.push(ts.last()) =~= ts);
    } else {
        assert(parts =~= Seq::<Seq<char>>::empty());
        assert(ts =~= Seq::<Technique>::empty());
    }
}

/// Writing a chain out and reading it back gives the same techniques, as
/// long as the chain is not empty and its Vigenere keywords are chain-safe.
pub proof fn lemma_chain_round_trip(ts: Seq<Technique>)
    requires
        ts.len() > 0,
        forall|i: int| 0 <= i < ts.len() ==> chain_safe(#[trigger] ts[i]),
    ensures
        parse_techniques_spec(chain_text(ts)) == Ok::<Seq<Technique>, ErrorModel>(ts),
{
    let parts = ts.map_values(|t: Technique| chain_token(t));
    assert forall|i: int| 0 <= i < parts.len() implies !(#[trigger] parts[i]).contains(',')
        && trim_spec(parts[i]) == parts[i] && parts[i].len() > 0 by {
        assert(chain_safe(ts[i]));
        lemma_token(ts[i]);
        lemma_trim_fixed(parts[i]);
    }
    lemma_split_scan_join(parts);
    assert(parts.drop_last().push(parts.last()) =~= parts);
    assert(split_spec(chain_text(ts), ',') == parts);
    lemma_nonempty_trimmed_fixed(parts);
    assert(chain_items(chain_text(ts)) == parts);
    lemma_parse_tokens(ts);
}

} // verus!
