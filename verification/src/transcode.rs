//! The transcode orchestrator: turning a conversion request into hops.
//!
//! A request names a source and a target format by file extension.  No
//! single tool both encodes and decodes the middleware's compressed stream
//! format, so a request touching that format on one side pivots through the
//! uncompressed format: the decoder or the encoder handles the compressed
//! side, the general-purpose transcoder the other.  Everything else is one
//! direct hop through the general-purpose transcoder.

use vstd::prelude::*;

use crate::subprocess::ffmpeg::FFmpegCli;
use crate::subprocess::vgmstream::VgmstreamCli;
use crate::subprocess::wwise::WwiseConsole;

verus! {

/// The external tool that performs one hop.
#[derive(Clone, Copy, Debug, PartialEq, Eq)]
pub enum Tool {
    /// The general-purpose transcoder.
    Ffmpeg,
    /// The proprietary-console encoder, pivot format to compressed format.
    WwiseConsole,
    /// The stream decoder, compressed format to pivot format.
    Vgmstream,
}

/// One hop of a conversion path: a tool and the two formats it bridges.
#[derive(Clone, Debug, PartialEq, Eq)]
pub struct FormatHop {
    pub tool: Tool,
    pub from_ext: String,
    pub to_ext: String,
}

/// Failures of resolving a conversion request.
#[derive(Clone, Debug, PartialEq, Eq)]
pub enum TranscodeError {
    /// The input or the output path names no format.
    MissingExtension,
    /// The input and the output name the same format.
    SameExtension,
}

/// Whether a hop is made of exactly the given tool and formats.
pub open spec fn hop_is(h: FormatHop, tool: Tool, from: Seq<char>, to: Seq<char>) -> bool {
    h.tool == tool && h.from_ext@ == from && h.to_ext@ == to
}

/// The conversion path a request resolves to, by case: the compressed
/// format decodes to the pivot in one hop and encodes from the pivot in one
/// hop; any other request touching the compressed format pivots in two
/// hops; the rest is one direct hop.
pub open spec fn planned_hops(i: Seq<char>, o: Seq<char>, hops: Seq<FormatHop>) -> bool {
    if i == "wem"@ && o == "wav"@ {
        hops.len() == 1 && hop_is(hops[0], Tool::Vgmstream, i, o)
    } else if i == "wav"@ && o == "wem"@ {
        hops.len() == 1 && hop_is(hops[0], Tool::WwiseConsole, i, o)
    } else if o == "wem"@ {
        hops.len() == 2 && hop_is(hops[0], Tool::Ffmpeg, i, "wav"@) && hop_is(
            hops[1],
            Tool::WwiseConsole,
            "wav"@,
            o,
        )
    } else if i == "wem"@ {
        hops.len() == 2 && hop_is(hops[0], Tool::Vgmstream, i, "wav"@) && hop_is(
            hops[1],
            Tool::Ffmpeg,
            "wav"@,
            o,
        )
    } else {
        hops.len() == 1 && hop_is(hops[0], Tool::Ffmpeg, i, o)
    }
}

/// Whether two strings read the same.
fn str_eq(a: &str, b: &str) -> (r: bool)
    ensures
        r == (a@ == b@),
{
    let a2: String = a.to_owned();
    let b2: String = b.to_owned();
    a2 == b2
}

/// Resolve a conversion request, given as the two paths' extensions, into
/// its hops.
///
/// A path without an extension cannot name a format, and a request whose
/// two formats agree asks for nothing; both are rejected before any tool is
/// considered.
pub fn resolve_hops(input_ext: Option<&str>, output_ext: Option<&str>) -> (r: Result<
    Vec<FormatHop>,
    TranscodeError,
>)
    ensures
        (input_ext is None || output_ext is None) <==> (r matches Err(
            TranscodeError::MissingExtension,
        )),
        input_ext matches Some(i) ==> (output_ext matches Some(o) ==> ((i@ == o@) <==> (r matches Err(
            TranscodeError::SameExtension,
        )))),
        input_ext matches Some(i) ==> (output_ext matches Some(o) ==> (i@ != o@ ==> (r matches Ok(
            hops,
        ) && planned_hops(i@, o@, hops@)))),
{
    let i = match input_ext {
        Option::Some(i) => i,
        Option::None => {
            return Result::Err(TranscodeError::MissingExtension);
        },
    };
    let o = match output_ext {
        Option::Some(o) => o,
        Option::None => {
            return Result::Err(TranscodeError::MissingExtension);
        },
    };
    if str_eq(i, o) {
        return Result::Err(TranscodeError::SameExtension);
    }
    let mut hops: Vec<FormatHop> = Vec::new();
    let i_wem = str_eq(i, "wem");
    let o_wem = str_eq(o, "wem");
    let i_wav = str_eq(i, "wav");
    let o_wav = str_eq(o, "wav");
    if i_wem && o_wav {
        hops.push(FormatHop { tool: Tool::Vgmstream, from_ext: i.to_owned(), to_ext: o.to_owned() });
    } else if i_wav && o_wem {
        hops.push(
            FormatHop { tool: Tool::WwiseConsole, from_ext: i.to_owned(), to_ext: o.to_owned() },
        );
    } else if o_wem {
        hops.push(
            FormatHop { tool: Tool::Ffmpeg, from_ext: i.to_owned(), to_ext: "wav".to_owned() },
        );
        hops.push(
            FormatHop {
                tool: Tool::WwiseConsole,
                from_ext: "wav".to_owned(),
                to_ext: o.to_owned(),
            },
        );
    } else if i_wem {
        hops.push(
            FormatHop { tool: Tool::Vgmstream, from_ext: i.to_owned(), to_ext: "wav".to_owned() },
        );
        hops.push(
            FormatHop { tool: Tool::Ffmpeg, from_ext: "wav".to_owned(), to_ext: o.to_owned() },
        );
    } else {
        hops.push(FormatHop { tool: Tool::Ffmpeg, from_ext: i.to_owned(), to_ext: o.to_owned() });
    }
    Result::Ok(hops)
}

/// The configured paths of the three external tools, as one value.
#[derive(Clone, Debug, PartialEq, Eq)]
pub struct TranscodePaths {
    pub ffmpeg: Option<String>,
    pub wwise_console: Option<String>,
    pub vgmstream: Option<String>,
}

/// The three tool adapters as one explicit, caller-owned configuration.
pub struct TranscodeService {
    pub ffmpeg: FFmpegCli,
    pub wwise: WwiseConsole,
    pub vgmstream: VgmstreamCli,
}

impl TranscodeService {
    /// A fresh service with every tool undetected; discovery probes the
    /// process's environment, so it happens outside the library and is
    /// handed in through the setters.
    pub fn new() -> (r: Self)
        ensures
            r.ffmpeg.path is None,
            r.wwise.path is None,
            r.vgmstream.path is None,
    {
        TranscodeService {
            ffmpeg: FFmpegCli { path: Option::None },
            wwise: WwiseConsole { path: Option::None },
            vgmstream: VgmstreamCli { path: Option::None },
        }
    }

    /// Configure the general-purpose transcoder's path.
    pub fn set_ffmpeg_path(&mut self, path: String)
        ensures
            final(self).ffmpeg.path == Some(path),
            final(self).wwise == old(self).wwise,
            final(self).vgmstream == old(self).vgmstream,
    {
        self.ffmpeg.set_path(path);
    }

    /// Configure the proprietary console's path.
    pub fn set_wwise_path(&mut self, path: String)
        ensures
            final(self).wwise.path == Some(path),
            final(self).ffmpeg == old(self).ffmpeg,
            final(self).vgmstream == old(self).vgmstream,
    {
        self.wwise.set_path(path);
    }

    /// Configure the stream decoder's path.
    pub fn set_vgmstream_path(&mut self, path: &str)
        ensures
            final(self).vgmstream.path matches Some(p) && p@ == path@,
            final(self).ffmpeg == old(self).ffmpeg,
            final(self).wwise == old(self).wwise,
    {
        self.vgmstream.set_path(path);
    }

    /// Configure every tool whose path the request names, and leave the
    /// others as they are.
    pub fn set_paths(&mut self, paths: TranscodePaths)
        ensures
            match paths.ffmpeg {
                Some(p) => final(self).ffmpeg.path == Some(p),
                None => final(self).ffmpeg == old(self).ffmpeg,
            },
            match paths.wwise_console {
                Some(p) => final(self).wwise.path == Some(p),
                None => final(self).wwise == old(self).wwise,
            },
            match paths.vgmstream {
                Some(p) => final(self).vgmstream.path == Some(p),
                None => final(self).vgmstream == old(self).vgmstream,
            },
    {
        match paths.ffmpeg {
            Option::Some(p) => self.set_ffmpeg_path(p),
            Option::None => {},
        }
        match paths.wwise_console {
            Option::Some(p) => self.set_wwise_path(p),
            Option::None => {},
        }
        match paths.vgmstream {
            Option::Some(p) => {
                self.vgmstream.path = Option::Some(p);
            },
            Option::None => {},
        }
    }
}

} // verus!
