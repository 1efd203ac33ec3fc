//! Which of the files in a model directory are loaded.

use crate::error::{Error, ErrorView};
use vstd::prelude::*;

verus! {

/// An encoder graph that a model directory can hold.
#[derive(Clone, Copy, Debug, PartialEq, Eq, Structural)]
pub enum EncoderFile {
    ProjectedKvLayeredFixed,
    ProjectedKvLayered,
    ProjectedKvInt8,
    FixedRawCacheInt8,
    FixedRawCache,
    PosconstInt8,
    ConservativeInt8,
    /// The graph that is taken where no other is there.
    Plain,
}

/// The backend of a model, and the encoder graph that it loads.
#[derive(Clone, Copy, Debug, PartialEq, Eq, Structural)]
pub enum Backend {
    /// Encoder and decoder run in LiteRT.
    FullLiteRt,
    /// The graphs run in the ONNX runtime.
    Onnx(EncoderFile),
}

/// Which files a model directory holds.
#[derive(Clone, Copy, Debug, PartialEq, Eq, Structural)]
pub struct ModelFiles {
    pub litert_encoder: bool,
    /// The file whose presence allows the LiteRT encoder.
    pub litert_encoder_enabled: bool,
    pub litert_decoder: bool,
    pub projected_kv_layered_fixed: bool,
    pub projected_kv_layered: bool,
    pub projected_kv_int8: bool,
    pub fixed_raw_cache_int8: bool,
    pub fixed_raw_cache: bool,
    pub posconst_int8: bool,
    pub conservative_int8: bool,
}

impl EncoderFile {
    /// The name of the file.
    pub open spec fn name_text(self) -> Seq<char> {
        match self {
            EncoderFile::ProjectedKvLayeredFixed => "encoder.projected_kv_cache.layered.fixed.onnx"@,
            EncoderFile::ProjectedKvLayered => "encoder.projected_kv_cache.layered.onnx"@,
            EncoderFile::ProjectedKvInt8 => "encoder.projected_kv_cache.onnx"@,
            EncoderFile::FixedRawCacheInt8 =>
                "encoder.fixed_raw_cache.dynamic_int8.matmul_gemm.onnx"@,
            EncoderFile::FixedRawCache => "encoder.fixed_raw_cache.onnx"@,
            EncoderFile::PosconstInt8 =>
                "encoder.matmul_gemm.dynamic_int8.fullpre_cacheabi.posconst.onnx"@,
            EncoderFile::ConservativeInt8 =>
                "encoder.matmul_gemm.dynamic_int8.fullpre_cacheabi.onnx"@,
            EncoderFile::Plain => "encoder.onnx"@,
        }
    }

    /// The name of the file.
    pub fn file_name(&self) -> (r: &'static str)
        ensures
            r@ == self.name_text(),
    {
        match self {
            EncoderFile::ProjectedKvLayeredFixed => "encoder.projected_kv_cache.layered.fixed.onnx",
            EncoderFile::ProjectedKvLayered => "encoder.projected_kv_cache.layered.onnx",
            EncoderFile::ProjectedKvInt8 => "encoder.projected_kv_cache.onnx",
            EncoderFile::FixedRawCacheInt8 =>
                "encoder.fixed_raw_cache.dynamic_int8.matmul_gemm.onnx",
            EncoderFile::FixedRawCache => "encoder.fixed_raw_cache.onnx",
            EncoderFile::PosconstInt8 =>
                "encoder.matmul_gemm.dynamic_int8.fullpre_cacheabi.posconst.onnx",
            EncoderFile::ConservativeInt8 =>
                "encoder.matmul_gemm.dynamic_int8.fullpre_cacheabi.onnx",
            EncoderFile::Plain => "encoder.onnx",
        }
    }

    /// The graph keeps projected keys and values.
    pub open spec fn is_projected(self) -> bool {
        self == EncoderFile::ProjectedKvLayeredFixed || self == EncoderFile::ProjectedKvLayered
            || self == EncoderFile::ProjectedKvInt8
    }
}

/// The graphs with raw caches and those with any, best first.
pub open spec fn raw_preference() -> Seq<EncoderFile> {
    seq![
        EncoderFile::FixedRawCacheInt8,
        EncoderFile::FixedRawCache,
        EncoderFile::PosconstInt8,
        EncoderFile::ConservativeInt8,
    ]
}

/// The graphs with projected caches and those with any, best first.
pub open spec fn projected_preference() -> Seq<EncoderFile> {
    seq![
        EncoderFile::ProjectedKvLayeredFixed,
        EncoderFile::ProjectedKvLayered,
        EncoderFile::ProjectedKvInt8,
        EncoderFile::PosconstInt8,
        EncoderFile::ConservativeInt8,
    ]
}

impl ModelFiles {
    /// The directory holds that graph. The plain one is not asked for.
    pub open spec fn holds(self, file: EncoderFile) -> bool {
        match file {
            EncoderFile::ProjectedKvLayeredFixed => self.projected_kv_layered_fixed,
            EncoderFile::ProjectedKvLayered => self.projected_kv_layered,
            EncoderFile::ProjectedKvInt8 => self.projected_kv_int8,
            EncoderFile::FixedRawCacheInt8 => self.fixed_raw_cache_int8,
            EncoderFile::FixedRawCache => self.fixed_raw_cache,
            EncoderFile::PosconstInt8 => self.posconst_int8,
            EncoderFile::ConservativeInt8 => self.conservative_int8,
            EncoderFile::Plain => true,
        }
    }

    /// The first of those graphs that the directory holds, or the plain one.
    pub open spec fn first_held(self, preference: Seq<EncoderFile>) -> EncoderFile
        decreases preference.len(),
    {
        if preference.len() == 0 {
            EncoderFile::Plain
        } else if self.holds(preference[0]) {
            preference[0]
        } else {
            self.first_held(preference.skip(1))
        }
    }

    /// The LiteRT encoder is there, and allowed.
    pub open spec fn litert_encoder_is_enabled(self) -> bool {
        self.litert_encoder && self.litert_encoder_enabled
    }

    /// The backend of the model. LiteRT takes over where encoder, marker and decoder
    /// are there; where only the decoder is missing, the graph must have raw caches.
    pub open spec fn backend(self) -> Backend {
        if self.litert_encoder_is_enabled() && self.litert_decoder {
            Backend::FullLiteRt
        } else if self.litert_encoder_is_enabled() {
            Backend::Onnx(self.first_held(raw_preference()))
        } else {
            Backend::Onnx(self.first_held(projected_preference()))
        }
    }

    fn holds_file(&self, file: EncoderFile) -> (r: bool)
        ensures
            r == self.holds(file),
    {
        match file {
            EncoderFile::ProjectedKvLayeredFixed => self.projected_kv_layered_fixed,
            EncoderFile::ProjectedKvLayered => self.projected_kv_layered,
            EncoderFile::ProjectedKvInt8 => self.projected_kv_int8,
            EncoderFile::FixedRawCacheInt8 => self.fixed_raw_cache_int8,
            EncoderFile::FixedRawCache => self.fixed_raw_cache,
            EncoderFile::PosconstInt8 => self.posconst_int8,
            EncoderFile::ConservativeInt8 => self.conservative_int8,
            EncoderFile::Plain => true,
        }
    }

    fn pick(&self, preference: &[EncoderFile]) -> (r: EncoderFile)
        ensures
            r == self.first_held(preference@),
    {
        let mut i: usize = 0;
        assert(preference@.skip(0) =~= preference@);
        while i < preference.len()
            invariant
                i <= preference@.len(),
                self.first_held(preference@) == self.first_held(preference@.skip(i as int)),
            decreases preference@.len() - i,
        {
            assert(preference@.skip(i as int).skip(1) =~= preference@.skip(i + 1));
            if self.holds_file(preference[i]) {
                return preference[i];
            }
            i += 1;
        }
        EncoderFile::Plain
    }

    /// Selects the backend of the model.
    pub fn select_backend(&self) -> (r: Backend)
        ensures
            r == self.backend(),
    {
        if self.litert_encoder && self.litert_encoder_enabled {
            if self.litert_decoder {
                return Backend::FullLiteRt;
            }
            let preference = [
                EncoderFile::FixedRawCacheInt8,
                EncoderFile::FixedRawCache,
                EncoderFile::PosconstInt8,
                EncoderFile::ConservativeInt8,
            ];
            assert(preference@ =~= raw_preference());
            Backend::Onnx(self.pick(&preference))
        } else {
            let preference = [
                EncoderFile::ProjectedKvLayeredFixed,
                EncoderFile::ProjectedKvLayered,
                EncoderFile::ProjectedKvInt8,
                EncoderFile::PosconstInt8,
                EncoderFile::ConservativeInt8,
            ];
            assert(preference@ =~= projected_preference());
            Backend::Onnx(self.pick(&preference))
        }
    }
}

/// The message about graphs that are not there.
pub open spec fn missing_graphs_message(model_dir: Seq<char>) -> Seq<char> {
    "Missing ONNX files in "@ + model_dir + ". Expected encoder.onnx and decoder_joint.onnx"@
}

/// Checks that both graphs are there. `model_dir` is the directory as it is shown.
pub fn check_onnx_files(encoder_exists: bool, decoder_exists: bool, model_dir: &str) -> (r: Result<
    (),
    Error,
>)
    ensures
        r is Ok <==> encoder_exists && decoder_exists,
        r matches Err(e) ==> e@ == ErrorView::Config(missing_graphs_message(model_dir@)),
{
    if encoder_exists && decoder_exists {
        Ok(())
    } else {
        let mut m = "Missing ONNX files in ".to_owned();
        m.append(model_dir);
        m.append(". Expected encoder.onnx and decoder_joint.onnx");
        Err(Error::Config(m))
    }
}

proof fn lemma_first_held(files: ModelFiles, preference: Seq<EncoderFile>)
    ensures
        files.holds(files.first_held(preference)),
        files.first_held(preference) == EncoderFile::Plain || preference.contains(
            files.first_held(preference),
        ),
        files.first_held(preference) == EncoderFile::Plain && !preference.contains(
            EncoderFile::Plain,
        ) ==> forall|i: int| 0 <= i < preference.len() ==> !files.holds(#[trigger] preference[i]),
    decreases preference.len(),
{
    if preference.len() > 0 && !files.holds(preference[0]) {
        let rest = preference.skip(1);
        lemma_first_held(files, rest);
        if rest.contains(files.first_held(rest)) {
            let i = choose|i: int| 0 <= i < rest.len() && rest[i] == files.first_held(rest);
            assert(preference[i + 1] == rest[i]);
        }
        if files.first_held(rest) == EncoderFile::Plain && !preference.contains(EncoderFile::Plain) {
            assert(!rest.contains(EncoderFile::Plain)) by {
                if rest.contains(EncoderFile::Plain) {
                    let i = choose|i: int| 0 <= i < rest.len() && rest[i] == EncoderFile::Plain;
                    assert(preference[i + 1] == EncoderFile::Plain);
                }
            }
            assert forall|i: int| 0 <= i < preference.len() implies !files.holds(
                #[trigger] preference[i],
            ) by {
                if i > 0 {
                    assert(rest[i - 1] == preference[i]);
                }
            }
        }
    } else if preference.len() > 0 {
        assert(preference.contains(preference[0]));
    }
}

/// A graph other than the plain one is chosen only where the directory holds it.
pub proof fn chosen_graphs_are_there(files: ModelFiles, file: EncoderFile)
    requires
        files.backend() == Backend::Onnx(file),
    ensures
        files.holds(file),
{
    lemma_first_held(files, raw_preference());
    lemma_first_held(files, projected_preference());
}

/// Where the LiteRT encoder is allowed, no graph with projected caches is chosen.
pub proof fn enabled_litert_encoders_need_raw_caches(files: ModelFiles, file: EncoderFile)
    requires
        files.litert_encoder_is_enabled(),
        files.backend() == Backend::Onnx(file),
    ensures
        !file.is_projected(),
{
    lemma_first_held(files, raw_preference());
}

/// A LiteRT encoder without its marker is ignored: the choice is the one that is
/// made where the directory holds no LiteRT encoder.
pub proof fn litert_encoders_without_marker_are_ignored(files: ModelFiles)
    requires
        !files.litert_encoder_enabled,
    ensures
        files.backend() == (ModelFiles { litert_encoder: false, ..files }).backend(),
{
    let without = ModelFiles { litert_encoder: false, ..files };
    lemma_same_first_held(files, without, projected_preference());
}

proof fn lemma_same_first_held(a: ModelFiles, b: ModelFiles, preference: Seq<EncoderFile>)
    requires
        forall|file: EncoderFile| a.holds(file) == b.holds(file),
    ensures
        a.first_held(preference) == b.first_held(preference),
    decreases preference.len(),
{
    if preference.len() > 0 {
        lemma_same_first_held(a, b, preference.skip(1));
    }
}

/// LiteRT runs the whole model exactly where encoder, marker and decoder are there.
pub proof fn full_litert_needs_all_three(files: ModelFiles)
    ensures
        files.backend() == Backend::FullLiteRt <==> files.litert_encoder
            && files.litert_encoder_enabled && files.litert_decoder,
{
}

/// LiteRT runs the model where its encoder, the marker and its decoder are there. Else, with
/// encoder and marker, the raw caches come first, and without them the projected ones; in
/// each row the first graph that is there is taken, and `encoder.onnx` where none is.
pub proof fn the_first_graph_in_its_row_is_taken(files: &ModelFiles, r: Backend)
    requires
        call_ensures(ModelFiles::select_backend, (files,), r),
    ensures
        ({
            let enabled = files.litert_encoder && files.litert_encoder_enabled;
            let full = enabled && files.litert_decoder;
            let raw = enabled && !files.litert_decoder;
            let no_raw = raw && !files.fixed_raw_cache_int8 && !files.fixed_raw_cache;
            let no_projected = !enabled && !files.projected_kv_layered_fixed
                && !files.projected_kv_layered && !files.projected_kv_int8;
            let left = no_raw || no_projected;
            &&& r == Backend::FullLiteRt <==> full
            &&& r == Backend::Onnx(EncoderFile::FixedRawCacheInt8) <==> raw
                && files.fixed_raw_cache_int8
            &&& r == Backend::Onnx(EncoderFile::FixedRawCache) <==> raw
                && !files.fixed_raw_cache_int8 && files.fixed_raw_cache
            &&& r == Backend::Onnx(EncoderFile::ProjectedKvLayeredFixed) <==> !enabled
                && files.projected_kv_layered_fixed
            &&& r == Backend::Onnx(EncoderFile::ProjectedKvLayered) <==> !enabled
                && !files.projected_kv_layered_fixed && files.projected_kv_layered
            &&& r == Backend::Onnx(EncoderFile::ProjectedKvInt8) <==> !enabled
                && !files.projected_kv_layered_fixed && !files.projected_kv_layered
                && files.projected_kv_int8
            &&& r == Backend::Onnx(EncoderFile::PosconstInt8) <==> left && files.posconst_int8
            &&& r == Backend::Onnx(EncoderFile::ConservativeInt8) <==> left
                && !files.posconst_int8 && files.conservative_int8
            &&& r == Backend::Onnx(EncoderFile::Plain) <==> left && !files.posconst_int8
                && !files.conservative_int8
        }),
{
    reveal_with_fuel(ModelFiles::first_held, 7);
    let (a, b) = (raw_preference(), projected_preference());
    assert(a.skip(1)[0] == a[1] && a.skip(1).skip(1)[0] == a[2] && a.skip(1).skip(1).skip(1)[0]
        == a[3]);
    assert(b.skip(1)[0] == b[1] && b.skip(1).skip(1)[0] == b[2] && b.skip(1).skip(1).skip(1)[0]
        == b[3] && b.skip(1).skip(1).skip(1).skip(1)[0] == b[4]);
}

/// Every graph has its file.
pub proof fn graphs_have_their_files(file: &EncoderFile, name: &'static str)
    requires
        call_ensures(EncoderFile::file_name, (file,), name),
    ensures
        *file is ProjectedKvLayeredFixed ==> name@
            == "encoder.projected_kv_cache.layered.fixed.onnx"@,
        *file is ProjectedKvLayered ==> name@ == "encoder.projected_kv_cache.layered.onnx"@,
        *file is ProjectedKvInt8 ==> name@ == "encoder.projected_kv_cache.onnx"@,
        *file is FixedRawCacheInt8 ==> name@
            == "encoder.fixed_raw_cache.dynamic_int8.matmul_gemm.onnx"@,
        *file is FixedRawCache ==> name@ == "encoder.fixed_raw_cache.onnx"@,
        *file is PosconstInt8 ==> name@
            == "encoder.matmul_gemm.dynamic_int8.fullpre_cacheabi.posconst.onnx"@,
        *file is ConservativeInt8 ==> name@
            == "encoder.matmul_gemm.dynamic_int8.fullpre_cacheabi.onnx"@,
        *file is Plain ==> name@ == "encoder.onnx"@,
{
}

/// Both graphs must be there; else the directory is named.
pub proof fn both_graphs_must_be_there(
    encoder_exists: bool,
    decoder_exists: bool,
    model_dir: &str,
    r: Result<(), Error>,
)
    requires
        call_ensures(check_onnx_files, (encoder_exists, decoder_exists, model_dir), r),
    ensures
        r is Ok <==> encoder_exists && decoder_exists,
        r matches Err(e) ==> e@ == ErrorView::Config(
            "Missing ONNX files in "@ + model_dir@
                + ". Expected encoder.onnx and decoder_joint.onnx"@,
        ),
{
}

} // verus!
