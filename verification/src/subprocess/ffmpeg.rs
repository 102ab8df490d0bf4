//! The adapter of the general-purpose transcoder.
//!
//! It converts between ordinary audio formats in a single hop.  The adapter
//! keeps the executable's configured path and builds the exact command line
//! of a simple input-to-output transcode; a non-zero exit of the spawned
//! process is folded into `FFmpegError::CommandFailed` with the decoded
//! output streams.

use vstd::prelude::*;

use crate::subprocess::lossy_utf8;
use crate::subprocess::utf8_lossy;

verus! {

/// Failures of the general-purpose transcoder adapter.
#[derive(Clone, Debug, PartialEq, Eq)]
pub enum FFmpegError {
    /// The surrounding system failed before the tool could be addressed.
    IO { message: String },
    /// No executable is configured or discoverable.
    FFmpegNotFound,
    /// The tool ran and exited with a failure.
    CommandFailed { code: Option<i32>, stdout: String, stderr: String },
    /// The process could not be started at all.
    CommandExecutionFailed { message: String },
}

impl FFmpegError {
    /// Fold a failed invocation's exit code and captured output streams into
    /// one failure value.
    pub fn command_failed(code: Option<i32>, stdout: &[u8], stderr: &[u8]) -> (r: Self)
        ensures
            r matches FFmpegError::CommandFailed { code: c, stdout: so, stderr: se } && c == code
                && so@ == lossy_utf8(stdout@) && se@ == lossy_utf8(stderr@),
    {
        FFmpegError::CommandFailed {
            code,
            stdout: utf8_lossy(stdout),
            stderr: utf8_lossy(stderr),
        }
    }
}

/// The configured location of the general-purpose transcoder.
#[derive(Clone, Debug, PartialEq, Eq)]
pub struct FFmpegCli {
    pub path: Option<String>,
}

impl Default for FFmpegCli {
    /// A fresh adapter starts undetected.
    fn default() -> (r: Self)
        ensures
            r.path is None,
    {
        FFmpegCli { path: Option::None }
    }
}

/// The exact argument list of a simple transcode: quiet flags, the input,
/// overwrite consent, the output.
pub open spec fn simple_transcode_args_spec(
    input: Seq<char>,
    output: Seq<char>,
    args: Seq<String>,
) -> bool {
    &&& args.len() == 7
    &&& args[0]@ == "-hide_banner"@
    &&& args[1]@ == "-loglevel"@
    &&& args[2]@ == "warning"@
    &&& args[3]@ == "-i"@
    &&& args[4]@ == input
    &&& args[5]@ == "-y"@
    &&& args[6]@ == output
}

impl FFmpegCli {
    /// Configure the executable's path.
    pub fn set_path(&mut self, path: String)
        ensures
            final(self).path == Some(path),
    {
        self.path = Option::Some(path);
    }

    /// The program and argument list of a simple transcode from `input` to
    /// `output`; fails when no executable is configured.
    pub fn simple_transcode_args(&self, input: &str, output: &str) -> (r: Result<
        (String, Vec<String>),
        FFmpegError,
    >)
        ensures
            self.path is None <==> r matches Err(FFmpegError::FFmpegNotFound),
            self.path is Some <==> r is Ok,
            r matches Ok(pa) ==> (self.path matches Some(p) && pa.0@ == p@)
                && simple_transcode_args_spec(input@, output@, pa.1@),
    {
        let program: String = match &self.path {
            Option::Some(p) => p.clone(),
            Option::None => {
                return Result::Err(FFmpegError::FFmpegNotFound);
            },
        };
        let mut args: Vec<String> = Vec::new();
        args.push("-hide_banner".to_owned());
        args.push("-loglevel".to_owned());
        args.push("warning".to_owned());
        args.push("-i".to_owned());
        args.push(input.to_owned());
        args.push("-y".to_owned());
        args.push(output.to_owned());
        Result::Ok((program, args))
    }
}

} // verus!
