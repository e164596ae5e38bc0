//! The whole conversion: from an input buffer to a WSD file.
use vstd::prelude::*;
use crate::bytes::occurs_at;
use crate::container::{dsd_tag, frm8_tag, riff_tag, handle_multi_mono_files, handle_single_file, multi_spec, single_spec};
use crate::error::ConvertError;
use crate::params::{AudioParams, Metadata, ParamsView};
use crate::wsd::{lemma_wsd_length, create_wsd_file, encode_spec, encoded_matches};

verus! {

/// How many mono files the input holds; one when not given.
pub open spec fn file_count(p: ParamsView) -> usize {
    match p.input_file_count {
        Some(n) => n,
        None => 1,
    }
}

/// The payload and parameters that the encoder is handed.
pub open spec fn source_spec(d: Seq<u8>, p: ParamsView) -> Result<(Seq<u8>, ParamsView), ConvertError> {
    if file_count(p) > 1 {
        multi_spec(d, p, file_count(p) as nat)
    } else {
        single_spec(d, p)
    }
}

/// The WSD file made from an input buffer, or why none is made.
pub open spec fn convert_spec(d: Seq<u8>, m: Metadata, p: ParamsView) -> Result<Seq<u8>, ConvertError> {
    match source_spec(d, p) {
        Ok((payload, q)) => encode_spec(payload, m, q),
        Err(e) => Err(e),
    }
}

/// Converts one DSF, DSDIFF or raw file, or `input_file_count` concatenated
/// mono files, into a WSD file.
pub fn process_audio(file_data: &[u8], metadata: &Metadata, params: AudioParams) -> (r: Result<
    Vec<u8>,
    ConvertError,
>)
    ensures
        encoded_matches(r, convert_spec(file_data@, *metadata, params@)),
{
    let count = match params.input_file_count {
        Some(n) => n,
        None => 1,
    };
    let source = if count > 1 {
        handle_multi_mono_files(file_data, params, count)
    } else {
        handle_single_file(file_data, params)
    };
    match source {
        Ok((payload, final_params)) => create_wsd_file(payload.as_slice(), metadata, &final_params),
        Err(e) => Err(e),
    }
}

/// A single input that starts with `RIFF` is refused as unsupported, whatever
/// follows and whatever the parameters say.
pub proof fn lemma_riff_rejected(d: Seq<u8>, m: Metadata, p: ParamsView)
    requires
        occurs_at(d, 0, riff_tag()),
        file_count(p) <= 1,
    ensures
        convert_spec(d, m, p) == Err::<Seq<u8>, ConvertError>(ConvertError::UnsupportedFormat),
{
    assert(!occurs_at(d, 0, dsd_tag())) by {
        assert(d[0] == riff_tag()[0]);
    }
    assert(!occurs_at(d, 0, frm8_tag())) by {
        assert(d[0] == riff_tag()[0] && d[1] == riff_tag()[1]);
    }
}

/// A successful conversion is the 2048-byte header followed by the payload
/// that the input's format gives, so its length is 2048 plus the payload's.
pub proof fn lemma_convert_length(d: Seq<u8>, m: Metadata, p: ParamsView)
    requires
        convert_spec(d, m, p) is Ok,
    ensures
        source_spec(d, p) is Ok,
        convert_spec(d, m, p)->Ok_0.len() == 2048 + source_spec(d, p)->Ok_0.0.len(),
        convert_spec(d, m, p)->Ok_0.subrange(2048, convert_spec(d, m, p)->Ok_0.len() as int)
            == source_spec(d, p)->Ok_0.0,
{
    let (payload, q) = source_spec(d, p)->Ok_0;
    lemma_wsd_length(payload, m, q);
}

} // verus!
