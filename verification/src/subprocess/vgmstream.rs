//! The adapter of the proprietary-stream decoder.
//!
//! It decodes the middleware's compressed stream format into the
//! uncompressed pivot format, and nothing else.  The adapter keeps the
//! executable's configured path and builds the exact command line of one
//! decode; a non-zero exit of the spawned process is folded into
//! `VgmstreamError::CommandFailed` with the decoded output streams.

use vstd::prelude::*;

use crate::subprocess::lossy_utf8;
use crate::subprocess::utf8_lossy;

verus! {

/// Failures of the stream-decoder adapter.
#[derive(Clone, Debug, PartialEq, Eq)]
pub enum VgmstreamError {
    /// The surrounding system failed before the tool could be addressed.
    IO { message: String },
    /// No executable is configured or discoverable.
    CliNotFound,
    /// The tool ran and exited with a failure.
    CommandFailed { code: Option<i32>, stdout: String, stderr: String },
    /// The process could not be started at all.
    CommandExecutionFailed { message: String },
}

impl VgmstreamError {
    /// Fold a failed invocation's exit code and captured output streams into
    /// one failure value.
    pub fn command_failed(code: Option<i32>, stdout: &[u8], stderr: &[u8]) -> (r: Self)
        ensures
            r matches VgmstreamError::CommandFailed { code: c, stdout: so, stderr: se } && c
                == code && so@ == lossy_utf8(stdout@) && se@ == lossy_utf8(stderr@),
    {
        VgmstreamError::CommandFailed {
            code,
            stdout: utf8_lossy(stdout),
            stderr: utf8_lossy(stderr),
        }
    }
}

/// The configured location of the stream decoder.
#[derive(Clone, Debug, PartialEq, Eq)]
pub struct VgmstreamCli {
    pub path: Option<String>,
}

impl Default for VgmstreamCli {
    /// A fresh adapter starts undetected.
    fn default() -> (r: Self)
        ensures
            r.path is None,
    {
        VgmstreamCli { path: Option::None }
    }
}

/// The exact argument list of one decode: the input, then the output behind
/// the output flag.
pub open spec fn wem_to_wav_args_spec(input: Seq<char>, output: Seq<char>, args: Seq<String>) -> bool {
    &&& args.len() == 3
    &&& args[0]@ == input
    &&& args[1]@ == "-o"@
    &&& args[2]@ == output
}

impl VgmstreamCli {
    /// Configure the executable's path.
    pub fn set_path(&mut self, path: &str)
        ensures
            final(self).path matches Some(p) && p@ == path@,
    {
        self.path = Option::Some(path.to_owned());
    }

    /// The program and argument list of one decode from `input` to
    /// `output`; fails when no executable is configured.
    pub fn wem_to_wav_args(&self, input: &str, output: &str) -> (r: Result<
        (String, Vec<String>),
        VgmstreamError,
    >)
        ensures
            self.path is None <==> r matches Err(VgmstreamError::CliNotFound),
            self.path is Some <==> r is Ok,
            r matches Ok(pa) ==> (self.path matches Some(p) && pa.0@ == p@)
                && wem_to_wav_args_spec(input@, output@, pa.1@),
    {
        let program: String = match &self.path {
            Option::Some(p) => p.clone(),
            Option::None => {
                return Result::Err(VgmstreamError::CliNotFound);
            },
        };
        let mut args: Vec<String> = Vec::new();
        args.push(input.to_owned());
        args.push("-o".to_owned());
        args.push(output.to_owned());
        Result::Ok((program, args))
    }
}

} // verus!
