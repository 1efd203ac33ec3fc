//! The tokenizer's vocabulary and the tokens that steer recognition.

use crate::text::chars_of;
use tokenizers::DecoderWrapper as Wrapper;
use vstd::prelude::*;

verus! {

/// The tokenizer of the `tokenizers` crate.
#[verifier::external_type_specification]
#[verifier::external_body]
pub struct ExTokenizer(tokenizers::Tokenizer);

/// One of the decoders by which a tokenizer turns tokens back into text.
#[derive(Clone, Copy, Debug, PartialEq, Eq, Structural)]
pub enum DecoderKind {
    Bpe,
    ByteLevel,
    WordPiece,
    Metaspace,
    Ctc,
    Sequence,
    Replace,
    Fuse,
    /// Strips up to `stop` characters off the end of each token.
    Strip { stop: usize },
    ByteFallback,
}

/// The tokens of the vocabulary, added tokens among them, with their numbers.
pub uninterp spec fn tokenizer_vocab(t: tokenizers::Tokenizer) -> Map<Seq<char>, u32>;

/// The numbers that stand for a token, with that token.
pub uninterp spec fn tokenizer_tokens(t: tokenizers::Tokenizer) -> Map<u32, Seq<char>>;

/// The decoders by which the tokenizer turns tokens back into text, in the order in which
/// they are applied.
pub uninterp spec fn tokenizer_decoders(t: tokenizers::Tokenizer) -> Seq<DecoderKind>;

/// The text that the numbers decode to, or nothing where decoding fails.
pub uninterp spec fn tokenizer_decoded(
    t: tokenizers::Tokenizer,
    ids: Seq<u32>,
    skip_special_tokens: bool,
) -> Option<Seq<char>>;

/// The characters of `s`, where there is a string.
pub open spec fn text_of(s: Option<String>) -> Option<Seq<char>> {
    match s {
        Some(s) => Some(s@),
        None => None,
    }
}

/// The characters of `s`, where there is a string.
pub open spec fn str_text(s: Option<&str>) -> Option<Seq<char>> {
    match s {
        Some(s) => Some(s@),
        None => None,
    }
}

/// The value of `key`, where the map has one.
pub open spec fn lookup<K, V>(m: Map<K, V>, key: K) -> Option<V> {
    if m.dom().contains(key) {
        Some(m[key])
    } else {
        None
    }
}

/// Decoding with this kind of decoder returns on every input. The others can abort:
/// byte pairs on no token at all, stripping on a token shorter than what is stripped off
/// its end, and replacing where a match begins before the last one has ended. A sequence
/// within a sequence may hold any of them.
pub open spec fn decoder_always_returns(kind: DecoderKind) -> bool {
    match kind {
        DecoderKind::ByteLevel => true,
        DecoderKind::WordPiece => true,
        DecoderKind::Metaspace => true,
        DecoderKind::Ctc => true,
        DecoderKind::Fuse => true,
        DecoderKind::ByteFallback => true,
        DecoderKind::Strip { stop } => stop == 0,
        DecoderKind::Bpe => false,
        DecoderKind::Sequence => false,
        DecoderKind::Replace => false,
    }
}

/// Decoding with these decoders, one after the other, returns on every input.
pub open spec fn decoders_always_return(kinds: Seq<DecoderKind>) -> bool {
    forall|i: int| 0 <= i < kinds.len() ==> decoder_always_returns(#[trigger] kinds[i])
}

impl DecoderKind {
    /// Whether decoding with this kind of decoder returns on every input.
    pub fn is_total(&self) -> (r: bool)
        ensures
            r == decoder_always_returns(*self),
    {
        match self {
            DecoderKind::Bpe => false,
            DecoderKind::Sequence => false,
            DecoderKind::Replace => false,
            DecoderKind::Strip { stop } => *stop == 0,
            _ => true,
        }
    }
}

/// Whether decoding with this tokenizer returns on every input.
pub fn decode_returns(t: &tokenizers::Tokenizer) -> (r: bool)
    ensures
        r == decoders_always_return(tokenizer_decoders(*t)),
{
    let kinds = decoder_kinds(t);
    let mut i: usize = 0;
    while i < kinds.len()
        invariant
            kinds@ == tokenizer_decoders(*t),
            i <= kinds@.len(),
            forall|j: int| 0 <= j < i ==> decoder_always_returns(#[trigger] kinds@[j]),
        decreases kinds@.len() - i,
    {
        if !kinds[i].is_total() {
            return false;
        }
        i += 1;
    }
    true
}

/// Calls `tokenizers::TokenizerImpl::get_vocab_size`, with added tokens: the
/// number of tokens of the vocabulary.
#[verifier::external_body]
fn get_vocab_size(t: &tokenizers::Tokenizer) -> (r: usize)
    ensures
        r == tokenizer_vocab(*t).dom().len(),
{
    t.get_vocab_size(true)
}

/// Calls `tokenizers::TokenizerImpl::token_to_id`: the number of a token of the
/// vocabulary, or nothing for any other text.
#[verifier::external_body]
fn token_to_id(t: &tokenizers::Tokenizer, token: &str) -> (r: Option<u32>)
    ensures
        r == lookup(tokenizer_vocab(*t), token@),
{
    t.token_to_id(token)
}

/// Calls `tokenizers::TokenizerImpl::id_to_token`: the token that a number stands
/// for, where it stands for one.
#[verifier::external_body]
pub(crate) fn id_to_token(t: &tokenizers::Tokenizer, id: u32) -> (r: Option<String>)
    ensures
        text_of(r) == lookup(tokenizer_tokens(*t), id),
{
    t.id_to_token(id)
}

/// Calls `tokenizers::TokenizerImpl::get_decoder`, and `get_decoders` of a sequence: the
/// decoders that the tokenizer applies in turn, each by its kind. They are none where it
/// has no decoder, and the members where it has a sequence.
#[verifier::external_body]
fn decoder_kinds(t: &tokenizers::Tokenizer) -> (r: Vec<DecoderKind>)
    ensures
        r@ == tokenizer_decoders(*t),
{
    let whole = t.get_decoder().map_or(&[][..], std::slice::from_ref);
    let parts = if let [Wrapper::Sequence(s)] = whole { s.get_decoders() } else { whole };
    parts.iter().map(|decoder| match decoder {
        Wrapper::BPE(_) => DecoderKind::Bpe,
        Wrapper::ByteLevel(_) => DecoderKind::ByteLevel,
        Wrapper::WordPiece(_) => DecoderKind::WordPiece,
        Wrapper::Metaspace(_) => DecoderKind::Metaspace,
        Wrapper::CTC(_) => DecoderKind::Ctc,
        Wrapper::Sequence(_) => DecoderKind::Sequence,
        Wrapper::Replace(_) => DecoderKind::Replace,
        Wrapper::Fuse(_) => DecoderKind::Fuse,
        Wrapper::Strip(s) => DecoderKind::Strip { stop: s.stop },
        Wrapper::ByteFallback(_) => DecoderKind::ByteFallback,
    }).collect()
}

/// Calls `tokenizers::TokenizerImpl::decode`: the text of the numbers, or nothing
/// where it reports an error. The text is a function of the tokenizer, the
/// numbers and the flag.
#[verifier::external_body]
pub(crate) fn decode(t: &tokenizers::Tokenizer, ids: &[u32], skip_special_tokens: bool) -> (r: Option<String>)
    requires
        decoders_always_return(tokenizer_decoders(*t)),
    ensures
        text_of(r) == tokenizer_decoded(*t, ids@, skip_special_tokens),
{
    t.decode(ids, skip_special_tokens).ok()
}

/// The token number reserved for unknown text.
pub const UNK_TOKEN_ID: i32 = 0;

/// The end-of-utterance token of a vocabulary that does not name it.
pub const DEFAULT_EOU_ID: i32 = 1024;

/// The token numbers that steer recognition.
#[derive(Clone, Copy, Debug, PartialEq, Eq, Structural)]
pub struct TokenIds {
    /// The number of tokens of the vocabulary.
    pub vocab_size: usize,
    /// The blank, which follows the vocabulary and is known to the network alone.
    pub blank_id: i32,
    /// The end of an utterance.
    pub eou_id: i32,
    /// The end of a backchannel, where the vocabulary has one.
    pub eob_id: Option<i32>,
}

/// The steering tokens of a vocabulary of that size, in which `<EOU>` and `<EOB>`
/// have those numbers.
pub open spec fn steering_tokens(
    vocab_size: nat,
    eou: Option<u32>,
    eob: Option<u32>,
) -> TokenIds {
    TokenIds {
        vocab_size: vocab_size as usize,
        blank_id: vocab_size as i32,
        eou_id: match eou {
            Some(id) => id as i32,
            None => DEFAULT_EOU_ID,
        },
        eob_id: match eob {
            Some(id) => Some(id as i32),
            None => None,
        },
    }
}

impl TokenIds {
    /// The steering tokens of a vocabulary of that size, in which `<EOU>` and `<EOB>`
    /// have those numbers.
    pub fn new(vocab_size: usize, eou: Option<u32>, eob: Option<u32>) -> (r: TokenIds)
        ensures
            r == steering_tokens(vocab_size as nat, eou, eob),
    {
        TokenIds {
            vocab_size,
            blank_id: vocab_size as i32,
            eou_id: match eou {
                Some(id) => id as i32,
                None => DEFAULT_EOU_ID,
            },
            eob_id: match eob {
                Some(id) => Some(id as i32),
                None => None,
            },
        }
    }

    /// The steering tokens of the tokenizer's vocabulary.
    pub fn of_tokenizer(t: &tokenizers::Tokenizer) -> (r: TokenIds)
        ensures
            r == steering_tokens(
                tokenizer_vocab(*t).dom().len(),
                lookup(tokenizer_vocab(*t), "<EOU>"@),
                lookup(tokenizer_vocab(*t), "<EOB>"@),
            ),
    {
        let vocab_size = get_vocab_size(t);
        TokenIds::new(vocab_size, token_to_id(t, "<EOU>"), token_to_id(t, "<EOB>"))
    }
}

/// `token` is enclosed in angle brackets.
pub open spec fn angle_bracketed(token: Seq<char>) -> bool {
    token.len() > 0 && token[0] == '<' && token.last() == '>'
}

/// Whether `token` is enclosed in angle brackets, as tokens are that stand for no
/// text.
pub fn is_angle_bracket_meta_token(token: &str) -> (r: bool)
    ensures
        r == angle_bracketed(token@),
{
    let chars = chars_of(token);
    chars.len() > 0 && chars[0] == '<' && chars[chars.len() - 1] == '>'
}

/// What a token that stands for no text means.
#[derive(Clone, Copy, Debug, PartialEq, Eq, Structural)]
pub enum MetaTokenKind {
    /// Unknown text.
    Unk,
    /// The end of an utterance.
    Eou,
    /// The end of a backchannel.
    Eob,
    /// Any other token in angle brackets.
    Special,
}

impl MetaTokenKind {
    /// The kind marks the end of a segment.
    pub open spec fn ends_segment(self) -> bool {
        self == MetaTokenKind::Eou || self == MetaTokenKind::Eob
    }

    /// Whether the kind marks the end of a segment.
    pub fn is_endpoint(&self) -> (r: bool)
        ensures
            r == self.ends_segment(),
    {
        match self {
            MetaTokenKind::Eou => true,
            MetaTokenKind::Eob => true,
            _ => false,
        }
    }

    /// The kind's name.
    pub fn name(&self) -> (r: &'static str)
        ensures
            r@ == (match *self {
                MetaTokenKind::Unk => "unk"@,
                MetaTokenKind::Eou => "eou"@,
                MetaTokenKind::Eob => "eob"@,
                MetaTokenKind::Special => "special"@,
            }),
    {
        match self {
            MetaTokenKind::Unk => "unk",
            MetaTokenKind::Eou => "eou",
            MetaTokenKind::Eob => "eob",
            MetaTokenKind::Special => "special",
        }
    }
}

impl TokenIds {
    /// What the token means, where it stands for no text: its number decides before
    /// its text does.
    pub open spec fn meta_kind(self, token_id: i32, token_text: Option<Seq<char>>) -> Option<
        MetaTokenKind,
    > {
        if token_id == UNK_TOKEN_ID {
            Some(MetaTokenKind::Unk)
        } else if token_id == self.eou_id {
            Some(MetaTokenKind::Eou)
        } else if self.eob_id == Some(token_id) {
            Some(MetaTokenKind::Eob)
        } else if token_text is Some && angle_bracketed(token_text->0) {
            Some(MetaTokenKind::Special)
        } else {
            None
        }
    }

    /// What the token means, where it stands for no text.
    pub fn meta_token_kind(&self, token_id: i32, token_text: Option<&str>) -> (r: Option<
        MetaTokenKind,
    >)
        ensures
            r == self.meta_kind(token_id, str_text(token_text)),
    {
        if token_id == UNK_TOKEN_ID {
            return Some(MetaTokenKind::Unk);
        }
        if token_id == self.eou_id {
            return Some(MetaTokenKind::Eou);
        }
        if let Some(eob) = self.eob_id {
            if eob == token_id {
                return Some(MetaTokenKind::Eob);
            }
        }
        match token_text {
            Some(text) => if is_angle_bracket_meta_token(text) {
                Some(MetaTokenKind::Special)
            } else {
                None
            },
            None => None,
        }
    }
}

/// The blank has the number that follows the vocabulary. The end of an utterance has the
/// number of `<EOU>`, or 1024 where the vocabulary does not name it, and the end of a
/// backchannel that of `<EOB>`, where there is one.
pub proof fn steering_tokens_come_from_the_vocabulary(
    vocab_size: usize,
    eou: Option<u32>,
    eob: Option<u32>,
    r: TokenIds,
    t: &tokenizers::Tokenizer,
    of: TokenIds,
)
    requires
        call_ensures(TokenIds::new, (vocab_size, eou, eob), r),
        call_ensures(TokenIds::of_tokenizer, (t,), of),
        tokenizer_vocab(*t).dom().len() == vocab_size,
        eou is Some <==> tokenizer_vocab(*t).dom().contains("<EOU>"@),
        eou is Some ==> eou == Some(tokenizer_vocab(*t)["<EOU>"@]),
        eob is Some <==> tokenizer_vocab(*t).dom().contains("<EOB>"@),
        eob is Some ==> eob == Some(tokenizer_vocab(*t)["<EOB>"@]),
    ensures
        of == r,
        r.vocab_size == vocab_size,
        r.blank_id == vocab_size as i32,
        eou is None ==> r.eou_id == 1024,
        eou matches Some(id) ==> r.eou_id == id as i32,
        eob is None ==> r.eob_id is None,
        eob matches Some(id) ==> r.eob_id == Some(id as i32),
{
}

/// Number 0 is unknown text whatever it is called. Else the two numbers that end a segment
/// decide, and only then the angle brackets.
pub proof fn meta_tokens_are_told_by_number_and_then_by_text(
    tokens: &TokenIds,
    id: i32,
    text: Option<&str>,
    r: Option<MetaTokenKind>,
)
    requires
        call_ensures(TokenIds::meta_token_kind, (tokens, id, text), r),
    ensures
        ({
            let bracketed = text matches Some(text) && text@.len() > 0 && text@[0] == '<'
                && text@[text@.len() - 1] == '>';
            let eou = id == tokens.eou_id;
            let eob = tokens.eob_id == Some(id);
            &&& r == Some(MetaTokenKind::Unk) <==> id == 0
            &&& r == Some(MetaTokenKind::Eou) <==> id != 0 && eou
            &&& r == Some(MetaTokenKind::Eob) <==> id != 0 && !eou && eob
            &&& r == Some(MetaTokenKind::Special) <==> id != 0 && !eou && !eob && bracketed
            &&& r is None <==> id != 0 && !eou && !eob && !bracketed
        }),
{
}

/// A token stands in angle brackets where it begins with `<` and ends with `>`.
pub proof fn brackets_stand_at_both_ends(token: &str, r: bool)
    requires
        call_ensures(is_angle_bracket_meta_token, (token,), r),
    ensures
        token@.len() == 0 ==> !r,
        token@.len() > 0 ==> (r <==> token@[0] == '<' && token@[token@.len() - 1] == '>'),
{
}

/// Two of the four kinds end a segment, and each has its name.
pub proof fn meta_kinds_are_named(kind: &MetaTokenKind, ends: bool, name: &'static str)
    requires
        call_ensures(MetaTokenKind::is_endpoint, (kind,), ends),
        call_ensures(MetaTokenKind::name, (kind,), name),
    ensures
        ends <==> *kind is Eou || *kind is Eob,
        *kind is Unk ==> name@ == "unk"@,
        *kind is Eou ==> name@ == "eou"@,
        *kind is Eob ==> name@ == "eob"@,
        *kind is Special ==> name@ == "special"@,
{
}

/// Decoding returns on every input exactly where every decoder does: none of them merges
/// byte pairs, replaces text, strips the end of a token or is a sequence again.
pub proof fn decoding_returns_where_every_decoder_does(
    kind: &DecoderKind,
    total: bool,
    t: &tokenizers::Tokenizer,
    r: bool,
)
    requires
        call_ensures(DecoderKind::is_total, (kind,), total),
        call_ensures(decode_returns, (t,), r),
    ensures
        total <==> !(*kind is Bpe || *kind is Sequence || *kind is Replace || (kind matches
            DecoderKind::Strip { stop } && *stop > 0)),
        r <==> forall|i: int|
            0 <= i < tokenizer_decoders(*t).len() ==> !({
                let at = #[trigger] tokenizer_decoders(*t)[i];
                at is Bpe || at is Sequence || at is Replace || (at matches
                    DecoderKind::Strip { stop } && stop > 0)
            }),
{
    let kinds = tokenizer_decoders(*t);
    if r {
        assert forall|i: int| 0 <= i < kinds.len() implies !({
            let at = #[trigger] kinds[i];
            at is Bpe || at is Sequence || at is Replace || (at matches DecoderKind::Strip { stop }
                && stop > 0)
        }) by {
            assert(decoder_always_returns(kinds[i]));
        }
    } else {
        let i = choose|i: int|
            0 <= i < kinds.len() && !decoder_always_returns(#[trigger] kinds[i]);
        let at = kinds[i];
        assert(at is Bpe || at is Sequence || at is Replace || at is Strip);
    }
}

/// A key is looked up where the map has it, and a text is there where the string is.
pub proof fn lookups_give_what_is_there(m: Map<Seq<char>, u32>, key: Seq<char>, s: Option<String>)
    ensures
        lookup(m, key) is Some <==> m.dom().contains(key),
        lookup(m, key) matches Some(value) ==> value == m[key],
        text_of(s) is Some <==> s is Some,
        s matches Some(text) ==> text_of(s) == Some(text@),
{
}

} // verus!
