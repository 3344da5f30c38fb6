use vstd::prelude::*;
use vstd::string::StringExecFns;

verus! {

/// Everything the rendering pipeline can fail with.
///
/// Both kinds are terminal: the pipeline aborts and no partial output is
/// emitted. Each carries the user-facing name of the offending file.
#[derive(Debug, Clone, Hash)]
pub enum Error {
    /// Neither the extension nor the magic bytes identified a supported codec.
    GuessingFormatFailed(String),
    /// The image file could not be opened for reading.
    OpeningImageFailed(String),
}

impl Error {
    /// The human-readable report for this failure, naming the offending file.
    pub open spec fn spec_message(self) -> Seq<char> {
        match self {
            Error::GuessingFormatFailed(n) => "Failed to guess format of \""@ + n@ + "\"."@,
            Error::OpeningImageFailed(n) => "Failed to open image file \""@ + n@ + "\"."@,
        }
    }

    /// The human-readable report for this failure, naming the offending file.
    pub fn error_message(&self) -> (r: String)
        ensures
            r@ == self.spec_message(),
    {
        match self {
            Error::GuessingFormatFailed(n) => {
                let mut m = String::from_str("Failed to guess format of \"");
                m.append(n.as_str());
                m.append("\".");
                m
            },
            Error::OpeningImageFailed(n) => {
                let mut m = String::from_str("Failed to open image file \"");
                m.append(n.as_str());
                m.append("\".");
                m
            },
        }
    }

    /// Write the report of [`Self::error_message`], and a line break, to the
    /// given sink.
    pub fn print_error<W: std::io::Write>(&self, err_out: &mut W) {
        let mut m = self.error_message();
        m.append("\n");
        crate::ops::write_str(err_out, m.as_str());
    }

    /// Get the executable exit value from an `Error` instance.
    pub fn exit_value(&self) -> (r: i32)
        ensures
            r == (match self {
                Error::GuessingFormatFailed(_) => 1int,
                Error::OpeningImageFailed(_) => 2int,
            }),
    {
        match self {
            Error::GuessingFormatFailed(_) => 1,
            Error::OpeningImageFailed(_) => 2,
        }
    }
}

} // verus!
