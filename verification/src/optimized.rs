//! Where optimized models are kept, and how they are named.

use crate::execution::ExecutionProvider;
use crate::text::{chars_of, decimal, hex_digits, show_decimal, show_hex};
use vstd::prelude::*;
use vstd::utf8::*;

verus! {

/// The multiplier of the 64-bit FNV-1a hash.
pub const FNV_PRIME: u64 = 0x0000_0100_0000_01b3;

/// The 64-bit FNV-1a hash `hash` extended by `bytes`.
pub open spec fn fnv1a(hash: u64, bytes: Seq<u8>) -> u64
    decreases bytes.len(),
{
    if bytes.len() == 0 {
        hash
    } else {
        let before = fnv1a(hash, bytes.drop_last());
        (((before ^ (bytes.last() as u64)) as int * FNV_PRIME as int) % 0x1_0000_0000_0000_0000) as u64
    }
}

/// Extends the hash by `bytes`.
pub fn update_fnv1a(hash: &mut u64, bytes: &[u8])
    ensures
        *final(hash) == fnv1a(*old(hash), bytes@),
{
    let mut i: usize = 0;
    assert(bytes@.take(0) =~= Seq::<u8>::empty());
    while i < bytes.len()
        invariant
            i <= bytes@.len(),
            *hash == fnv1a(*old(hash), bytes@.take(i as int)),
        decreases bytes@.len() - i,
    {
        assert(bytes@.take(i + 1).drop_last() =~= bytes@.take(i as int));
        *hash = *hash ^ (bytes[i] as u64);
        *hash = hash.wrapping_mul(FNV_PRIME);
        i += 1;
    }
    assert(bytes@.take(i as int) =~= bytes@);
}

/// `c` may stand in the name of a cached file.
pub open spec fn is_plain(c: char) -> bool {
    ('a' <= c <= 'z') || ('A' <= c <= 'Z') || ('0' <= c <= '9') || c == '-' || c == '_' || c == '.'
}

/// `text` with an underscore in place of every character that is not plain.
pub open spec fn sanitized(text: Seq<char>) -> Seq<char> {
    Seq::new(
        text.len(),
        |i: int| if is_plain(text[i]) {
            text[i]
        } else {
            '_'
        },
    )
}

/// Replaces by an underscore every character that may not stand in a file name.
pub fn sanitize_cache_path_component(value: &str) -> (r: String)
    ensures
        r@ == sanitized(value@),
{
    let chars = chars_of(value);
    let mut r = String::new();
    let mut i: usize = 0;
    while i < chars.len()
        invariant
            i <= chars@.len(),
            r@ == sanitized(chars@).take(i as int),
        decreases chars@.len() - i,
    {
        let c = chars[i];
        if ('a' <= c && c <= 'z') || ('A' <= c && c <= 'Z') || ('0' <= c && c <= '9') || c == '-'
            || c == '_' || c == '.' {
            r.push(c);
        } else {
            r.push('_');
        }
        assert(r@ =~= sanitized(chars@).take(i + 1));
        i += 1;
    }
    assert(sanitized(chars@).take(i as int) =~= sanitized(chars@));
    r
}

/// Only plain characters are left, none is added or lost, and text that is plain
/// already stays as it is.
pub proof fn sanitized_text_is_plain(text: Seq<char>)
    ensures
        sanitized(text).len() == text.len(),
        forall|i: int| 0 <= i < text.len() ==> is_plain(#[trigger] sanitized(text)[i]),
        sanitized(sanitized(text)) == sanitized(text),
        (forall|i: int| 0 <= i < text.len() ==> is_plain(#[trigger] text[i])) ==> sanitized(text)
            == text,
{
    assert(sanitized(sanitized(text)) =~= sanitized(text));
    if forall|i: int| 0 <= i < text.len() ==> is_plain(#[trigger] text[i]) {
        assert(sanitized(text) =~= text);
    }
}

/// Extending a hash by one text and then another is extending it by both.
pub proof fn fnv1a_of_both(hash: u64, a: Seq<u8>, b: Seq<u8>)
    ensures
        fnv1a(fnv1a(hash, a), b) == fnv1a(hash, a + b),
    decreases b.len(),
{
    if b.len() == 0 {
        assert(a + b =~= a);
    } else {
        fnv1a_of_both(hash, a, b.drop_last());
        assert((a + b).drop_last() =~= a + b.drop_last());
    }
}

/// The value that the 64-bit FNV-1a hash begins with.
pub const FNV_OFFSET: u64 = 0xcbf2_9ce4_8422_2325;

/// What a cached model depends on.
pub struct CacheKeyParts<'a> {
    /// Which part of the model it is.
    pub component: &'a str,
    /// The path of the file that it was made from.
    pub source_path: &'a str,
    /// The size of that file.
    pub source_len: u64,
    /// When that file last changed, in nanoseconds, or zero.
    pub modified_ns: u128,
    pub execution_provider: ExecutionProvider,
    pub intra_threads: usize,
    pub inter_threads: usize,
    /// How the runtime was built.
    pub runtime_info: &'a str,
}

impl<'a> CacheKeyParts<'a> {
    /// The texts that the key is made of, in their order.
    pub open spec fn texts(self) -> Seq<Seq<char>> {
        seq![
            "sayboard-parakeet-ort-cache-v1"@,
            self.component@,
            self.source_path@,
            decimal(self.source_len as nat),
            decimal(self.modified_ns as nat),
            self.execution_provider.name_text(),
            decimal(self.intra_threads as nat),
            decimal(self.inter_threads as nat),
            self.runtime_info@,
        ]
    }

    /// The key: the hash of the texts, in sixteen hexadecimal digits.
    pub open spec fn key(self) -> Seq<char> {
        hex_digits(hash_of_texts(FNV_OFFSET, self.texts()) as nat, 16)
    }
}

/// `hash` extended by the UTF-8 bytes of the texts, one after the other.
pub open spec fn hash_of_texts(hash: u64, texts: Seq<Seq<char>>) -> u64
    decreases texts.len(),
{
    if texts.len() == 0 {
        hash
    } else {
        fnv1a(hash_of_texts(hash, texts.drop_last()), encode_utf8(texts.last()))
    }
}

fn hash_text(hash: &mut u64, text: &str, Ghost(done): Ghost<Seq<Seq<char>>>, Ghost(initial): Ghost<
    u64,
>)
    requires
        *old(hash) == hash_of_texts(initial, done),
    ensures
        *final(hash) == hash_of_texts(initial, done.push(text@)),
{
    assert(done.push(text@).drop_last() =~= done);
    update_fnv1a(hash, text.as_bytes());
}

/// The key of an optimized model: it changes with what the model depends on.
pub fn optimized_model_cache_key(parts: &CacheKeyParts) -> (r: String)
    ensures
        r@ == parts.key(),
{
    let mut hash: u64 = FNV_OFFSET;
    let ghost mut done: Seq<Seq<char>> = Seq::empty();
    hash_text(&mut hash, "sayboard-parakeet-ort-cache-v1", Ghost(done), Ghost(FNV_OFFSET));
    proof {
        done = done.push("sayboard-parakeet-ort-cache-v1"@);
    }
    hash_text(&mut hash, parts.component, Ghost(done), Ghost(FNV_OFFSET));
    proof {
        done = done.push(parts.component@);
    }
    hash_text(&mut hash, parts.source_path, Ghost(done), Ghost(FNV_OFFSET));
    proof {
        done = done.push(parts.source_path@);
    }
    let source_len = show_decimal(parts.source_len as u128);
    hash_text(&mut hash, source_len.as_str(), Ghost(done), Ghost(FNV_OFFSET));
    proof {
        done = done.push(source_len@);
    }
    let modified_ns = show_decimal(parts.modified_ns);
    hash_text(&mut hash, modified_ns.as_str(), Ghost(done), Ghost(FNV_OFFSET));
    proof {
        done = done.push(modified_ns@);
    }
    hash_text(&mut hash, parts.execution_provider.name(), Ghost(done), Ghost(FNV_OFFSET));
    proof {
        done = done.push(parts.execution_provider.name_text());
    }
    let intra_threads = show_decimal(parts.intra_threads as u128);
    hash_text(&mut hash, intra_threads.as_str(), Ghost(done), Ghost(FNV_OFFSET));
    proof {
        done = done.push(intra_threads@);
    }
    let inter_threads = show_decimal(parts.inter_threads as u128);
    hash_text(&mut hash, inter_threads.as_str(), Ghost(done), Ghost(FNV_OFFSET));
    proof {
        done = done.push(inter_threads@);
    }
    hash_text(&mut hash, parts.runtime_info, Ghost(done), Ghost(FNV_OFFSET));
    proof {
        done = done.push(parts.runtime_info@);
        assert(done =~= parts.texts());
    }
    show_hex(hash, 16)
}

/// The names, in the cache directory, of an optimized model and of the file that
/// it is written to first.
#[derive(Debug)]
pub struct OptimizedModelCachePaths {
    pub final_name: String,
    pub temp_name: String,
}

/// The name of an optimized model.
pub open spec fn optimized_name(component: Seq<char>, stem: Seq<char>, key: Seq<char>) -> Seq<char> {
    component + "."@ + stem + "."@ + key + ".optimized.onnx"@
}

/// The names for an optimized model, where a cache directory is set. `source_stem`
/// is the source's file name without its extension, where that is text.
pub fn optimized_model_cache_paths(
    has_cache_dir: bool,
    source_stem: Option<&str>,
    parts: &CacheKeyParts,
) -> (r: Option<OptimizedModelCachePaths>)
    ensures
        r is Some <==> has_cache_dir,
        r matches Some(paths) ==> {
            let stem = match source_stem {
                Some(stem) => sanitized(stem@),
                None => "model"@,
            };
            &&& paths.final_name@ == optimized_name(parts.component@, stem, parts.key())
            &&& paths.temp_name@ == paths.final_name@ + ".tmp"@
        },
{
    if !has_cache_dir {
        return None;
    }
    let stem = match source_stem {
        Some(stem) => sanitize_cache_path_component(stem),
        None => "model".to_owned(),
    };
    let key = optimized_model_cache_key(parts);
    let mut final_name = parts.component.to_owned();
    final_name.append(".");
    final_name.append(stem.as_str());
    final_name.append(".");
    final_name.append(key.as_str());
    final_name.append(".optimized.onnx");
    let mut temp_name = final_name.clone();
    temp_name.append(".tmp");
    Some(OptimizedModelCachePaths { final_name, temp_name })
}

/// How far loading a session through the cache has come.
#[derive(Clone, Copy, Debug, PartialEq, Eq, Structural)]
pub enum LoadState {
    /// Nothing was tried yet.
    Start,
    /// The cached model is being loaded.
    LoadingCached,
    /// The source is being loaded, and its optimized form is written to the
    /// temporary file where `caching` holds.
    LoadingSource { caching: bool },
    /// The session is there; it is being looked whether a temporary file is.
    Storing,
    /// The session is there.
    Loaded,
    /// There is no session.
    Failed,
}

/// What happened while a session was loaded.
#[derive(Clone, Copy, Debug, PartialEq, Eq, Structural)]
pub enum LoadEvent {
    /// Whether there is a cache, and whether the cached model exists.
    Looked { caching: bool, cached_exists: bool },
    /// The session was made.
    Made,
    /// The session could not be made.
    NotMade,
    /// Whether the temporary file exists.
    LookedForTemp { exists: bool },
}

/// What is to be done while a session is loaded.
#[derive(Clone, Copy, Debug, PartialEq, Eq, Structural)]
pub enum LoadAction {
    /// Make a session from the cached model, as it is.
    LoadCached,
    /// Make a session from the source; where `caching` holds, write its optimized
    /// form to the temporary file.
    LoadSource { caching: bool },
    /// Delete the cached model, if it is there.
    RemoveFinal,
    /// Delete the temporary file, if it is there.
    RemoveTemp,
    /// Look whether the temporary file is there.
    LookForTemp,
    /// Make the temporary file the cached model.
    RenameTempToFinal,
}

impl LoadState {
    /// What can happen in this state.
    pub open spec fn expects(self, event: LoadEvent) -> bool {
        match self {
            LoadState::Start => event is Looked,
            LoadState::LoadingCached => event is Made || event is NotMade,
            LoadState::LoadingSource { .. } => event is Made || event is NotMade,
            LoadState::Storing => event is LookedForTemp,
            LoadState::Loaded => false,
            LoadState::Failed => false,
        }
    }

    /// The state after the event.
    pub open spec fn after(self, event: LoadEvent) -> LoadState {
        match (self, event) {
            (LoadState::Start, LoadEvent::Looked { caching, cached_exists }) => if caching
                && cached_exists {
                LoadState::LoadingCached
            } else {
                LoadState::LoadingSource { caching }
            },
            (LoadState::LoadingCached, LoadEvent::NotMade) => LoadState::LoadingSource {
                caching: true,
            },
            (LoadState::LoadingCached, _) => LoadState::Storing,
            (LoadState::LoadingSource { caching }, LoadEvent::Made) => if caching {
                LoadState::Storing
            } else {
                LoadState::Loaded
            },
            (LoadState::LoadingSource { .. }, _) => LoadState::Failed,
            _ => LoadState::Loaded,
        }
    }

    /// What is to be done after the event, in this order.
    pub open spec fn actions(self, event: LoadEvent) -> Seq<LoadAction> {
        match (self, event) {
            (LoadState::Start, LoadEvent::Looked { caching, cached_exists }) => if !caching {
                seq![LoadAction::LoadSource { caching: false }]
            } else if cached_exists {
                seq![LoadAction::LoadCached]
            } else {
                seq![LoadAction::RemoveTemp, LoadAction::LoadSource { caching: true }]
            },
            (LoadState::LoadingCached, LoadEvent::NotMade) => seq![
                LoadAction::RemoveFinal,
                LoadAction::RemoveTemp,
                LoadAction::LoadSource { caching: true },
            ],
            (LoadState::Storing, LoadEvent::LookedForTemp { exists }) => if exists {
                seq![LoadAction::RemoveFinal, LoadAction::RenameTempToFinal]
            } else {
                Seq::empty()
            },
            _ => if self.after(event) == LoadState::Storing {
                seq![LoadAction::LookForTemp]
            } else {
                Seq::empty()
            },
        }
    }

    /// Goes on after an event: the next state, and what is to be done.
    pub fn next(self, event: LoadEvent) -> (r: (LoadState, Vec<LoadAction>))
        requires
            self.expects(event),
        ensures
            r.0 == self.after(event),
            r.1@ == self.actions(event),
    {
        let mut actions: Vec<LoadAction> = Vec::new();
        let state = match (self, event) {
            (LoadState::Start, LoadEvent::Looked { caching, cached_exists }) => {
                if caching && cached_exists {
                    actions.push(LoadAction::LoadCached);
                    LoadState::LoadingCached
                } else {
                    if caching {
                        actions.push(LoadAction::RemoveTemp);
                    }
                    actions.push(LoadAction::LoadSource { caching });
                    LoadState::LoadingSource { caching }
                }
            },
            (LoadState::LoadingCached, LoadEvent::NotMade) => {
                actions.push(LoadAction::RemoveFinal);
                actions.push(LoadAction::RemoveTemp);
                actions.push(LoadAction::LoadSource { caching: true });
                LoadState::LoadingSource { caching: true }
            },
            (LoadState::LoadingCached, _) => {
                actions.push(LoadAction::LookForTemp);
                LoadState::Storing
            },
            (LoadState::LoadingSource { caching }, LoadEvent::Made) => {
                if caching {
                    actions.push(LoadAction::LookForTemp);
                    LoadState::Storing
                } else {
                    LoadState::Loaded
                }
            },
            (LoadState::LoadingSource { .. }, _) => LoadState::Failed,
            (_, LoadEvent::LookedForTemp { exists }) => {
                if exists {
                    actions.push(LoadAction::RemoveFinal);
                    actions.push(LoadAction::RenameTempToFinal);
                }
                LoadState::Loaded
            },
            _ => LoadState::Loaded,
        };
        assert(actions@ =~= self.actions(event));
        (state, actions)
    }

    /// How many events can still come.
    pub open spec fn remaining(self) -> nat {
        match self {
            LoadState::Start => 4,
            LoadState::LoadingCached => 3,
            LoadState::LoadingSource { .. } => 2,
            LoadState::Storing => 1,
            LoadState::Loaded => 0,
            LoadState::Failed => 0,
        }
    }
}

/// Loading ends: every event brings it nearer to its end, and it ends only with a
/// session or without one.
pub proof fn loading_ends(state: LoadState, event: LoadEvent)
    requires
        state.expects(event),
    ensures
        state.after(event).remaining() < state.remaining(),
        state.after(event).remaining() == 0 <==> (state.after(event) == LoadState::Loaded
            || state.after(event) == LoadState::Failed),
{
}

/// A cached model that cannot be loaded is deleted before the source is loaded,
/// and loading fails only where the source itself cannot be loaded.
pub proof fn broken_cached_models_are_replaced(state: LoadState, event: LoadEvent)
    requires
        state.expects(event),
    ensures
        state == LoadState::LoadingCached && event == LoadEvent::NotMade ==> {
            &&& state.actions(event)[0] == LoadAction::RemoveFinal
            &&& state.actions(event).last() == LoadAction::LoadSource { caching: true }
            &&& state.after(event) == LoadState::LoadingSource { caching: true }
        },
        state.after(event) == LoadState::Failed ==> state is LoadingSource && event
            == LoadEvent::NotMade,
{
}

/// Without a cache directory, no file is deleted, looked for or renamed.
pub proof fn nothing_is_touched_without_a_cache(event: LoadEvent)
    ensures
        event == (LoadEvent::Looked { caching: false, cached_exists: false }) || event
            == (LoadEvent::Looked { caching: false, cached_exists: true }) ==> {
            &&& LoadState::Start.after(event) == LoadState::LoadingSource { caching: false }
            &&& LoadState::Start.actions(event) == seq![LoadAction::LoadSource { caching: false }]
        },
        event == LoadEvent::Made || event == LoadEvent::NotMade ==> (LoadState::LoadingSource {
            caching: false,
        }).actions(event) == Seq::<LoadAction>::empty(),
{
}

/// Every byte is mixed into the hash by an exclusive or, and the hash is multiplied by
/// 1099511628211 then, modulo the power of two that its 64 bits count to. No byte changes
/// nothing, and two runs of bytes are hashed like both in one.
pub proof fn every_byte_is_mixed_in(
    empty: &mut u64,
    one: &mut u64,
    byte: u8,
    first: &mut u64,
    second: &mut u64,
    whole: &mut u64,
    none: &[u8],
    single: &[u8],
    a: &[u8],
    b: &[u8],
    both: &[u8],
)
    requires
        call_ensures(update_fnv1a, (empty, none), ()),
        none@.len() == 0,
        call_ensures(update_fnv1a, (one, single), ()),
        single@ == seq![byte],
        call_ensures(update_fnv1a, (first, a), ()),
        call_ensures(update_fnv1a, (second, b), ()),
        *old(second) == *final(first),
        call_ensures(update_fnv1a, (whole, both), ()),
        *old(whole) == *old(first),
        both@ == a@ + b@,
    ensures
        *final(empty) == *old(empty),
        *final(one) == (((*old(one) ^ (byte as u64)) * 1_099_511_628_211)
            % 18_446_744_073_709_551_616) as u64,
        *final(whole) == *final(second),
{
    assert(single@.drop_last() =~= Seq::<u8>::empty());
    reveal_with_fuel(fnv1a, 3);
    fnv1a_of_both(*old(first), a@, b@);
}

proof fn lemma_hash_of_one_more(hash: u64, texts: Seq<Seq<char>>, bytes: Seq<u8>, text: Seq<char>)
    requires
        hash_of_texts(hash, texts) == fnv1a(hash, bytes),
    ensures
        hash_of_texts(hash, texts.push(text)) == fnv1a(hash, bytes + encode_utf8(text)),
{
    assert(texts.push(text).drop_last() =~= texts);
    fnv1a_of_both(hash, bytes, encode_utf8(text));
}

/// The key is the hash of nine texts, one after the other and from the usual beginning of
/// the hash on, in sixteen hexadecimal digits: the version of the cache, the component, the
/// path, the size and the time of the source, the provider, the two numbers of threads and
/// the runtime.
pub proof fn keys_hash_everything_that_counts(
    parts: &CacheKeyParts,
    r: String,
    hash: &mut u64,
    bytes: &[u8],
    provider: &'static str,
    digits: String,
)
    requires
        call_ensures(optimized_model_cache_key, (parts,), r),
        call_ensures(ExecutionProvider::name, (&parts.execution_provider,), provider),
        bytes@ == encode_utf8("sayboard-parakeet-ort-cache-v1"@) + encode_utf8(parts.component@)
            + encode_utf8(parts.source_path@) + encode_utf8(decimal(parts.source_len as nat))
            + encode_utf8(decimal(parts.modified_ns as nat)) + encode_utf8(provider@)
            + encode_utf8(decimal(parts.intra_threads as nat)) + encode_utf8(
            decimal(parts.inter_threads as nat),
        ) + encode_utf8(parts.runtime_info@),
        *old(hash) == 0xcbf2_9ce4_8422_2325,
        call_ensures(update_fnv1a, (hash, bytes), ()),
        call_ensures(show_hex, (*final(hash), 16u32), digits),
    ensures
        r@ == digits@,
{
    let h = 0xcbf2_9ce4_8422_2325u64;
    let t = parts.texts();
    let e = Seq::<Seq<char>>::empty();
    let z = Seq::<u8>::empty();
    lemma_hash_of_one_more(h, e, z, t[0]);
    assert(z + encode_utf8(t[0]) =~= encode_utf8(t[0]));
    let (b1, t1) = (encode_utf8(t[0]), e.push(t[0]));
    lemma_hash_of_one_more(h, t1, b1, t[1]);
    let (b2, t2) = (b1 + encode_utf8(t[1]), t1.push(t[1]));
    lemma_hash_of_one_more(h, t2, b2, t[2]);
    let (b3, t3) = (b2 + encode_utf8(t[2]), t2.push(t[2]));
    lemma_hash_of_one_more(h, t3, b3, t[3]);
    let (b4, t4) = (b3 + encode_utf8(t[3]), t3.push(t[3]));
    lemma_hash_of_one_more(h, t4, b4, t[4]);
    let (b5, t5) = (b4 + encode_utf8(t[4]), t4.push(t[4]));
    lemma_hash_of_one_more(h, t5, b5, t[5]);
    let (b6, t6) = (b5 + encode_utf8(t[5]), t5.push(t[5]));
    lemma_hash_of_one_more(h, t6, b6, t[6]);
    let (b7, t7) = (b6 + encode_utf8(t[6]), t6.push(t[6]));
    lemma_hash_of_one_more(h, t7, b7, t[7]);
    let (b8, t8) = (b7 + encode_utf8(t[7]), t7.push(t[7]));
    lemma_hash_of_one_more(h, t8, b8, t[8]);
    assert(t8.push(t[8]) =~= t);
}

/// Letters, digits, dashes, underscores and dots stay, and every other character becomes an
/// underscore.
pub proof fn other_characters_become_underscores(value: &str, r: String)
    requires
        call_ensures(sanitize_cache_path_component, (value,), r),
    ensures
        r@.len() == value@.len(),
        forall|i: int|
            0 <= i < r@.len() ==> ({
                let c = value@[i];
                let stays = ('a' <= c && c <= 'z') || ('A' <= c && c <= 'Z') || ('0' <= c && c
                    <= '9') || c == '-' || c == '_' || c == '.';
                &&& stays ==> #[trigger] r@[i] == c
                &&& !stays ==> r@[i] == '_'
            }),
{
}

/// An optimized model is named after its component, the source and the key, and is written
/// under that name with a further ending first. Without a cache directory it has no name.
pub proof fn optimized_models_are_named(
    has_cache_dir: bool,
    source_stem: Option<&str>,
    parts: &CacheKeyParts,
    stem: String,
    key: String,
    r: Option<OptimizedModelCachePaths>,
)
    requires
        call_ensures(optimized_model_cache_paths, (has_cache_dir, source_stem, parts), r),
        source_stem is Some ==> call_ensures(
            sanitize_cache_path_component,
            (source_stem->0,),
            stem,
        ),
        source_stem is None ==> stem@ == "model"@,
        call_ensures(optimized_model_cache_key, (parts,), key),
    ensures
        r is Some <==> has_cache_dir,
        r matches Some(paths) ==> {
            let name = parts.component@ + "."@ + stem@ + "."@ + key@ + ".optimized.onnx"@;
            &&& paths.final_name@ == name
            &&& paths.temp_name@ == name + ".tmp"@
        },
{
}

/// Loading begins with the cached model where there is one, and else with the source. A
/// cached model that cannot be loaded is deleted, and the source takes its place; without a
/// session from the source there is none. A new optimized model takes the place of the old.
pub proof fn loading_goes_from_the_cache_to_the_source(
    state: LoadState,
    event: LoadEvent,
    r: (LoadState, Vec<LoadAction>),
)
    requires
        call_ensures(LoadState::next, (state, event), r),
        state.expects(event),
    ensures
        ({
            let (next, actions) = (r.0, r.1@);
            match state {
                LoadState::Start => match event {
                    LoadEvent::Looked { caching, cached_exists } => {
                        &&& caching && cached_exists ==> next == LoadState::LoadingCached
                            && actions == seq![LoadAction::LoadCached]
                        &&& caching && !cached_exists ==> next == LoadState::LoadingSource {
                            caching: true,
                        } && actions == seq![
                            LoadAction::RemoveTemp,
                            LoadAction::LoadSource { caching: true },
                        ]
                        &&& !caching ==> next == LoadState::LoadingSource { caching: false }
                            && actions == seq![LoadAction::LoadSource { caching: false }]
                    },
                    _ => false,
                },
                LoadState::LoadingCached => {
                    &&& event is Made ==> next == LoadState::Storing && actions == seq![
                        LoadAction::LookForTemp,
                    ]
                    &&& event is NotMade ==> next == LoadState::LoadingSource { caching: true }
                        && actions == seq![
                        LoadAction::RemoveFinal,
                        LoadAction::RemoveTemp,
                        LoadAction::LoadSource { caching: true },
                    ]
                },
                LoadState::LoadingSource { caching } => {
                    &&& event is Made && caching ==> next == LoadState::Storing && actions == seq![
                        LoadAction::LookForTemp,
                    ]
                    &&& event is Made && !caching ==> next == LoadState::Loaded && actions.len()
                        == 0
                    &&& event is NotMade ==> next == LoadState::Failed && actions.len() == 0
                },
                LoadState::Storing => {
                    &&& next == LoadState::Loaded
                    &&& event == (LoadEvent::LookedForTemp { exists: true }) ==> actions == seq![
                        LoadAction::RemoveFinal,
                        LoadAction::RenameTempToFinal,
                    ]
                    &&& event == (LoadEvent::LookedForTemp { exists: false }) ==> actions.len()
                        == 0
                },
                _ => false,
            }
        }),
{
}

/// Nothing but the answer to what was asked last is awaited, and nothing at the end.
pub proof fn answers_are_awaited(state: LoadState, event: LoadEvent)
    ensures
        state.expects(event) <==> match event {
            LoadEvent::Looked { .. } => state is Start,
            LoadEvent::Made => state is LoadingCached || state is LoadingSource,
            LoadEvent::NotMade => state is LoadingCached || state is LoadingSource,
            LoadEvent::LookedForTemp { .. } => state is Storing,
        },
{
}

} // verus!
