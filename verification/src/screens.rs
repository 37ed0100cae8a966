//! The state behind the desktop screens for encoding and decoding: the text
//! typed in, the chain being built, the envelope options, the last result
//! and the status line.
use vstd::prelude::*;
use vstd::string::StringExecFns;
use crate::builder::{DraftTechniqueKind, TechniqueBuilder};
use crate::error::{message_text, SighFarError};
use crate::models::{techniques_view, EncodedMessage, Technique};

verus! {

/// The encode screen.
pub struct EncodeState {
    pub message: String,
    pub technique_builder: TechniqueBuilder,
    pub secure: bool,
    pub passphrase: String,
    pub result: Option<EncodedMessage>,
    pub status: String,
}

/// The decode screen.
pub struct DecodeState {
    pub input: String,
    pub technique_builder: TechniqueBuilder,
    pub secure: bool,
    pub passphrase: String,
    pub companion_code: String,
    pub result: Option<EncodedMessage>,
    pub status: String,
}

/// The chain a screen starts with.
pub open spec fn starting_chain() -> Seq<Technique> {
    seq![Technique::Morse, Technique::Caesar { shift: 4 }, Technique::Reverse]
}

impl EncodeState {
    /// A fresh encode screen: nothing typed, the default chain, the envelope on.
    pub fn new() -> (s: EncodeState)
        ensures
            s.message@ == Seq::<char>::empty(),
            techniques_view(s.technique_builder.items@) == starting_chain(),
            s.technique_builder.draft_kind == DraftTechniqueKind::Caesar,
            s.secure,
            s.passphrase@ == Seq::<char>::empty(),
            s.result is None,
            s.status@ == "Ready to encode a message."@,
    {
        EncodeState {
            message: String::new(),
            technique_builder: TechniqueBuilder::with_defaults(),
            secure: true,
            passphrase: String::new(),
            result: None,
            status: String::from_str("Ready to encode a message."),
        }
    }

    /// Takes in what an encode gave: the result and a success line, or the
    /// error's message with the last result kept.
    pub fn record(&mut self, outcome: Result<EncodedMessage, SighFarError>)
        ensures
            final(self).message == old(self).message,
            final(self).technique_builder == old(self).technique_builder,
            final(self).secure == old(self).secure,
            final(self).passphrase == old(self).passphrase,
            match outcome {
                Ok(m) => final(self).result == Some(m) && final(self).status@ == "Message encoded successfully."@,
                Err(e) => final(self).result == old(self).result && final(self).status@ == message_text(e@),
            },
    {
        match outcome {
            Ok(m) => {
                self.status = String::from_str("Message encoded successfully.");
                self.result = Some(m);
            },
            Err(e) => {
                self.status = e.message();
            },
        }
    }
}

impl DecodeState {
    /// A fresh decode screen: nothing typed, the default chain, no envelope.
    pub fn new() -> (s: DecodeState)
        ensures
            s.input@ == Seq::<char>::empty(),
            techniques_view(s.technique_builder.items@) == starting_chain(),
            s.technique_builder.draft_kind == DraftTechniqueKind::Caesar,
            !s.secure,
            s.passphrase@ == Seq::<char>::empty(),
            s.companion_code@ == Seq::<char>::empty(),
            s.result is None,
            s.status@ == "Ready to decode a message."@,
    {
        DecodeState {
            input: String::new(),
            technique_builder: TechniqueBuilder::with_defaults(),
            secure: false,
            passphrase: String::new(),
            companion_code: String::new(),
            result: None,
            status: String::from_str("Ready to decode a message."),
        }
    }

    /// Takes in what a decode gave: the result and a success line, or the
    /// error's message with the last result kept.
    pub fn record(&mut self, outcome: Result<EncodedMessage, SighFarError>)
        ensures
            final(self).input == old(self).input,
            final(self).technique_builder == old(self).technique_builder,
            final(self).secure == old(self).secure,
            final(self).passphrase == old(self).passphrase,
            final(self).companion_code == old(self).companion_code,
            match outcome {
                Ok(m) => final(self).result == Some(m) && final(self).status@ == "Message decoded successfully."@,
                Err(e) => final(self).result == old(self).result && final(self).status@ == message_text(e@),
            },
    {
        match outcome {
            Ok(m) => {
                self.status = String::from_str("Message decoded successfully.");
                self.result = Some(m);
            },
            Err(e) => {
                self.status = e.message();
            },
        }
    }
}

} // verus!
