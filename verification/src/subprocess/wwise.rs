//! The adapter of the proprietary-console encoder.
//!
//! It encodes the uncompressed pivot format into the middleware's compressed
//! stream format by driving the middleware's own console through a temporary
//! project.  The project plumbing lives with the process and file handling
//! outside the library; here the adapter keeps the executable's configured
//! path.

use vstd::prelude::*;

use vstd::string::StringExecFns;

verus! {

/// The configured location of the proprietary console.
#[derive(Clone, Debug, PartialEq, Eq)]
pub struct WwiseConsole {
    pub path: Option<String>,
}

impl Default for WwiseConsole {
    /// A fresh adapter starts undetected.
    fn default() -> (r: Self)
        ensures
            r.path is None,
    {
        WwiseConsole { path: Option::None }
    }
}

impl WwiseConsole {
    /// Configure the executable's path.
    pub fn set_path(&mut self, path: String)
        ensures
            final(self).path == Some(path),
    {
        self.path = Option::Some(path);
    }
}

/// Where the console leaves an encoded stream: under the platform-named
/// subdirectory of the requested output directory, named by the source's
/// stem with the compressed format's extension.  The caller checks this
/// path and moves the file to where the request asked.
pub fn wwise_expected_output(out_dir: &str, stem: &str) -> (r: String)
    ensures
        r@ == out_dir@ + "/Windows/"@ + stem@ + ".wem"@,
{
    let mut r: String = out_dir.to_owned();
    r.append("/Windows/");
    r.append(stem);
    r.append(".wem");
    proof {
        assert(r@ =~= out_dir@ + "/Windows/"@ + stem@ + ".wem"@);
    }
    r
}

} // verus!
