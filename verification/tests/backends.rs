use parakeet_eou::error::Error;
use parakeet_eou::layout::{EncoderCacheAbi, LiteRtEncoderLayout};
use parakeet_eou::litert::{
    check_litert_handle, check_litert_run, read_c_error, reported_error, set_litert_encoder_api,
    start_litert, LayoutReply, LiteRtEncoder, LiteRtEncoderApi, LiteRtPart, LiteRtStart,
};

fn table() -> LiteRtEncoderApi {
    LiteRtEncoderApi {
        version: 3,
        create: true,
        destroy: true,
        run: true,
        run_projected_layered: true,
        get_encoder_layout: true,
        create_decoder: true,
        destroy_decoder: true,
        run_decoder: true,
    }
}

#[test]
fn only_complete_callback_tables_are_taken() {
    assert_eq!(set_litert_encoder_api(None, Some(table())), (Some(table()), true));
    assert_eq!(set_litert_encoder_api(Some(table()), None), (Some(table()), false));
    let old = LiteRtEncoderApi { version: 2, ..table() };
    assert_eq!(set_litert_encoder_api(None, Some(old)), (None, false));
    let partial = LiteRtEncoderApi { run_decoder: false, ..table() };
    assert_eq!(set_litert_encoder_api(Some(table()), Some(partial)), (Some(table()), false));
}

#[test]
fn error_buffers_are_read_up_to_the_first_nul() {
    assert_eq!(read_c_error(b"no such file\0garbage"), "no such file");
    assert_eq!(read_c_error(b"unterminated"), "unterminated");
    assert_eq!(read_c_error(&[0, 65]), "");
    assert_eq!(read_c_error("fehlt: ü\0".as_bytes()), "fehlt: ü");
    assert_eq!(read_c_error(&[65, 0xff, 66, 0]), "A\u{fffd}B");
    assert_eq!(reported_error(""), "unknown error");
    assert_eq!(reported_error("x"), "x");
}

#[test]
fn backends_start_only_where_they_can() {
    let start = |model, api, create, nul| start_litert(LiteRtPart::Decoder, model, api, create, nul);
    assert_eq!(start(false, true, true, true).unwrap(), LiteRtStart::NoModel);
    assert_eq!(start(true, false, false, true).unwrap(), LiteRtStart::NoApi);
    assert_eq!(start(true, true, true, false).unwrap(), LiteRtStart::Create);
    let error = start(true, true, false, true).unwrap_err();
    assert!(matches!(error, Error::Config(_)));
    assert_eq!(error.message(), "LiteRT decoder create callback missing");
    let error = start_litert(LiteRtPart::Encoder, true, true, true, true).unwrap_err();
    assert_eq!(error.message(), "LiteRT encoder path contains NUL");
}

#[test]
fn failed_calls_are_reported() {
    assert!(check_litert_handle(LiteRtPart::Encoder, "/m/e", false, "ignored").is_ok());
    let error = check_litert_handle(LiteRtPart::Encoder, "/m/e", true, "").unwrap_err();
    assert_eq!(error.message(), "Failed to create LiteRT encoder /m/e: unknown error");
    let error = check_litert_handle(LiteRtPart::Decoder, "/m/d", true, "bad").unwrap_err();
    assert_eq!(error.message(), "Failed to create LiteRT decoder /m/d: bad");
    assert!(check_litert_run(LiteRtPart::Decoder, true, "ignored").is_ok());
    let error = check_litert_run(LiteRtPart::Decoder, false, "oom").unwrap_err();
    assert_eq!(error.message(), "LiteRT decoder run failed: oom");
}

#[test]
fn reported_layouts_are_accepted_or_refused() {
    let layout = LiteRtEncoderLayout {
        batch: 1,
        n_mels: 128,
        input_frames: 25,
        output_frames: 2,
        num_layers: 17,
        cache_len: 70,
        hidden_size: 512,
        time_cache_len: 8,
        cache_abi: 2,
    };
    let encoder = LiteRtEncoder::accept(LayoutReply::Layout(layout)).unwrap();
    assert_eq!(encoder.encoder_cache_abi(), EncoderCacheAbi::ProjectedKvLayered);
    assert_eq!(encoder.encoder_layout().hidden_size, 512);
    let unknown = LiteRtEncoderLayout { cache_abi: 1, batch: 0, ..layout };
    assert_eq!(
        LiteRtEncoder::accept(LayoutReply::Layout(unknown)).unwrap_err().message(),
        "LiteRT encoder reported unsupported cache ABI 1"
    );
    let empty = LiteRtEncoderLayout { n_mels: 0, ..layout };
    assert_eq!(
        LiteRtEncoder::accept(LayoutReply::Layout(empty)).unwrap_err().message(),
        "LiteRT encoder layout has invalid n_mels=0"
    );
    let error = LiteRtEncoder::accept(LayoutReply::NoCallback).unwrap_err();
    assert!(matches!(error, Error::Config(_)));
    assert_eq!(error.message(), "LiteRT encoder layout callback missing");
    assert_eq!(
        LiteRtEncoder::accept(LayoutReply::Failed("")).unwrap_err().message(),
        "LiteRT encoder layout failed: unknown error"
    );
}
