//! The parameters and text metadata that a conversion is given.
use vstd::prelude::*;

verus! {

/// Audio parameters; each is optional, and absence differs from zero.
pub struct AudioParams {
    pub sampling_frequency: Option<u32>,
    pub channel_count: Option<u8>,
    pub lfe_enabled: Option<bool>,
    /// Speaker position tokens such as `"lf"` or `"cf"`.
    pub channel_layout: Option<Vec<String>>,
    pub input_file_count: Option<usize>,
}

/// The parameters with the layout seen as sequences of characters.
pub ghost struct ParamsView {
    pub sampling_frequency: Option<u32>,
    pub channel_count: Option<u8>,
    pub lfe_enabled: Option<bool>,
    pub channel_layout: Option<Seq<Seq<char>>>,
    pub input_file_count: Option<usize>,
}

/// The characters of each token of a layout.
pub open spec fn tokens_view(l: Seq<String>) -> Seq<Seq<char>> {
    l.map_values(|s: String| s@)
}

pub open spec fn layout_view(l: Option<Vec<String>>) -> Option<Seq<Seq<char>>> {
    match l {
        Some(v) => Some(tokens_view(v@)),
        None => None,
    }
}

impl View for AudioParams {
    type V = ParamsView;

    open spec fn view(&self) -> ParamsView {
        ParamsView {
            sampling_frequency: self.sampling_frequency,
            channel_count: self.channel_count,
            lfe_enabled: self.lfe_enabled,
            channel_layout: layout_view(self.channel_layout),
            input_file_count: self.input_file_count,
        }
    }
}

impl AudioParams {
    /// No parameter given.
    pub fn empty() -> (r: AudioParams)
        ensures
            r@ == (ParamsView {
                sampling_frequency: None,
                channel_count: None,
                lfe_enabled: None,
                channel_layout: None,
                input_file_count: None,
            }),
    {
        AudioParams {
            sampling_frequency: None,
            channel_count: None,
            lfe_enabled: None,
            channel_layout: None,
            input_file_count: None,
        }
    }
}

/// The ten text fields of a WSD file; an absent field is written as empty.
pub struct Metadata {
    pub title: Option<String>,
    pub composer: Option<String>,
    pub song_writer: Option<String>,
    pub artist: Option<String>,
    pub album: Option<String>,
    pub genre: Option<String>,
    pub date_time: Option<String>,
    pub location: Option<String>,
    pub comment: Option<String>,
    pub user_specific: Option<String>,
}

impl Metadata {
    /// Every field absent.
    pub fn empty() -> (r: Metadata)
        ensures
            r.title is None && r.composer is None && r.song_writer is None && r.artist is None
                && r.album is None && r.genre is None && r.date_time is None && r.location is None
                && r.comment is None && r.user_specific is None,
    {
        Metadata {
            title: None,
            composer: None,
            song_writer: None,
            artist: None,
            album: None,
            genre: None,
            date_time: None,
            location: None,
            comment: None,
            user_specific: None,
        }
    }
}

} // verus!
