//! The failures a build can encounter. Only a discovery failure is fatal;
//! every other kind concerns a single document or resource, is recorded in
//! the build report, and leaves the rest of the run unaffected.

use vstd::prelude::*;

verus! {

#[derive(Debug)]
pub enum SiteError {
    /// The source root could not be read at all; fatal, nothing is written.
    Discovery { path: String },
    /// A document's relative path does not end in the markdown extension or
    /// escapes the source root through a parent-directory segment.
    InvalidPath { path: String },
    /// A document's source file could not be read.
    Read { path: String },
    /// The markdown converter reported malformed input.
    Conversion { path: String },
    /// A page or an output directory could not be written.
    Write { path: String },
    /// A resource file could not be copied.
    Copy { source: String, destination: String },
    /// Two distinct resource files would be copied to the same flattened name.
    ResourceCollision { source: String, destination: String },
}

impl Clone for SiteError {
    fn clone(&self) -> (r: Self)
        ensures
            r == *self,
    {
        match self {
            SiteError::Discovery { path } => SiteError::Discovery { path: path.clone() },
            SiteError::InvalidPath { path } => SiteError::InvalidPath { path: path.clone() },
            SiteError::Read { path } => SiteError::Read { path: path.clone() },
            SiteError::Conversion { path } => SiteError::Conversion { path: path.clone() },
            SiteError::Write { path } => SiteError::Write { path: path.clone() },
            SiteError::Copy { source, destination } => SiteError::Copy {
                source: source.clone(),
                destination: destination.clone(),
            },
            SiteError::ResourceCollision { source, destination } => SiteError::ResourceCollision {
                source: source.clone(),
                destination: destination.clone(),
            },
        }
    }
}

} // verus!
