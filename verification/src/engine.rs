//! Configuration types of the speech-recognition engines. The engines
//! themselves — model sessions, audio feature extraction, decoding —
//! are external collaborators; only their configuration shapes live
//! here.

use vstd::prelude::*;

verus! {

/// Mel-spectrogram extraction parameters.
#[derive(Clone, Debug)]
pub struct MelConfig {
    pub sample_rate: usize,
    pub n_fft: usize,
    pub hop_length: usize,
    pub win_length: usize,
    pub n_mels: usize,
}

impl Default for MelConfig {
    /// The processor defaults the bundled model was exported with.
    fn default() -> (r: MelConfig)
        ensures
            r.sample_rate == 16000,
            r.n_fft == 512,
            r.hop_length == 160,
            r.win_length == 400,
            r.n_mels == 128,
    {
        MelConfig { sample_rate: 16000, n_fft: 512, hop_length: 160, win_length: 400, n_mels: 128 }
    }
}

/// The unit timestamps are reported in.
#[derive(Clone, Copy, Debug, PartialEq, Eq, Structural)]
pub enum TimestampGranularity {
    Token,
    Word,
    Segment,
}

/// Which weight precision a model is loaded with.
#[derive(Clone, Copy, Debug, PartialEq, Eq, Structural)]
pub enum QuantizationType {
    FP32,
    Int8,
}

/// Loading parameters of the general recognizer.
#[derive(Clone, Debug)]
pub struct ParakeetModelParams {
    pub quantization: QuantizationType,
}

impl Default for ParakeetModelParams {
    fn default() -> (r: ParakeetModelParams)
        ensures
            r.quantization == QuantizationType::FP32,
    {
        ParakeetModelParams { quantization: QuantizationType::FP32 }
    }
}

impl ParakeetModelParams {
    /// Parameters selecting the quantized weights.
    pub fn int8() -> (r: ParakeetModelParams)
        ensures
            r.quantization == QuantizationType::Int8,
    {
        ParakeetModelParams { quantization: QuantizationType::Int8 }
    }
}

/// Inference parameters of the general recognizer.
#[derive(Clone, Debug)]
pub struct ParakeetInferenceParams {
    pub timestamp_granularity: TimestampGranularity,
}

impl Default for ParakeetInferenceParams {
    fn default() -> (r: ParakeetInferenceParams)
        ensures
            r.timestamp_granularity == TimestampGranularity::Token,
    {
        ParakeetInferenceParams { timestamp_granularity: TimestampGranularity::Token }
    }
}

/// Loading parameters of the medical recognizer.
#[derive(Clone, Debug, Default)]
pub struct MedAsrModelParams {}

/// Inference parameters of the medical recognizer.
#[derive(Clone, Debug)]
pub struct MedAsrInferenceParams {
    pub timestamp_granularity: TimestampGranularity,
    /// Beam width for the decoder; `1` decodes greedily.
    pub beam_width: usize,
}

impl Default for MedAsrInferenceParams {
    fn default() -> (r: MedAsrInferenceParams)
        ensures
            r.timestamp_granularity == TimestampGranularity::Token,
            r.beam_width == 8,
    {
        MedAsrInferenceParams { timestamp_granularity: TimestampGranularity::Token, beam_width: 8 }
    }
}

} // verus!
