//! Storage sinks: where a materialized byte response is written and under
//! what name. The decision and the filename preparation are verified; the
//! writing itself is I/O, done by the caller from the returned plan.

use vstd::prelude::*;
use vstd::string::StringExecFns;
use crate::response_adaptor::Resp;

verus! {

/// How the stored file is named: the response's own name, or a fresh
/// random identifier.
#[derive(Debug, Clone, Copy, PartialEq, Eq, Structural)]
pub enum FileName {
    RandomNanoid,
    Origin,
}

impl Default for FileName {
    /// The response's own name, unless the sink says otherwise.
    fn default() -> (r: Self)
        ensures
            r == FileName::Origin,
    {
        FileName::Origin
    }
}

/// A file extension forced onto the stored name.
#[derive(Debug, Clone, Copy, PartialEq, Eq, Structural)]
pub enum FileExt {
    MP4,
    JPEG,
}

/// The extension suffix appended for a forced extension, empty for none.
pub open spec fn spec_ext_suffix(ext: Option<FileExt>) -> Seq<char> {
    match ext {
        Some(FileExt::MP4) => seq!['.', 'm', 'p', '4'],
        Some(FileExt::JPEG) => seq!['.', 'j', 'p', 'e', 'g'],
        None => Seq::empty(),
    }
}

/// A storage sink: a local directory, or a remote folder.
#[derive(Debug, Clone)]
pub enum Storage {
    LocalDrive { dirname: String, filename_class: FileName, ext: Option<FileExt> },
    GoogleDrive { folder_id: String },
}

/// How many characters a fresh random identifier holds.
pub const RANDOM_NAME_LEN: usize = 10;

/// Relies on nanoid::format with the crate's default URL-safe alphabet
/// and secure random source: the result holds exactly `size` characters,
/// and nothing more can be said of a random value.
#[verifier::external_body]
fn random_name(size: usize) -> (r: String)
    requires
        1 <= size,
    ensures
        r@.len() == size as nat,
{
    nanoid::format(nanoid::rngs::default, &nanoid::alphabet::SAFE, size)
}

/// Where one response is written: the plan a sink decides, which the
/// caller carries out.
#[derive(Debug, Clone)]
pub enum StorePlan {
    WriteLocal { dir: String, filename: String },
    UploadRemote { folder_id: String, filename: String, mime_type: Option<String> },
}

impl Storage {
    /// Prepares the name the stored file gets: the original name or a
    /// fresh random identifier, with a forced extension appended when one
    /// is configured.
    pub fn prepare_filename(&self, filename: &str, filename_class: &FileName, ext: Option<&FileExt>)
        -> (r: String)
        ensures
            filename_class == FileName::Origin ==> r@ == filename@ + spec_ext_suffix(
                spec_ext_of(ext),
            ),
            filename_class == FileName::RandomNanoid ==> {
                let suffix = spec_ext_suffix(spec_ext_of(ext));
                &&& r@.len() == RANDOM_NAME_LEN + suffix.len()
                &&& r@.skip(RANDOM_NAME_LEN as int) == suffix
            },
    {
        let mut new_filename = match filename_class {
            FileName::Origin => filename.to_owned(),
            FileName::RandomNanoid => random_name(RANDOM_NAME_LEN),
        };
        proof {
            reveal_strlit(".mp4");
            reveal_strlit(".jpeg");
        }
        match ext {
            Some(FileExt::MP4) => {
                new_filename.append(".mp4");
                proof {
                    assert(".mp4"@ =~= spec_ext_suffix(spec_ext_of(ext)));
                }
            },
            Some(FileExt::JPEG) => {
                new_filename.append(".jpeg");
                proof {
                    assert(".jpeg"@ =~= spec_ext_suffix(spec_ext_of(ext)));
                }
            },
            None => {},
        }
        proof {
            assert(new_filename@.skip(RANDOM_NAME_LEN as int) =~= new_filename@.skip(
                RANDOM_NAME_LEN as int,
            ));
        }
        new_filename
    }

    /// Decides where and under what name a materialized byte response is
    /// stored. A local sink names the file by its configuration; a remote
    /// sink keeps the response's own name and media type.
    pub fn store(&self, resp: &Resp) -> (r: StorePlan)
        requires
            resp matches Resp::RespBytes { .. },
        ensures
            self matches Storage::LocalDrive { dirname, filename_class, ext } ==> resp matches
                Resp::RespBytes { filename, .. } ==> {
                &&& r matches StorePlan::WriteLocal { dir, filename: prepared }
                &&& dir@ == dirname@
                &&& (filename_class == FileName::Origin ==> prepared@ == filename@
                    + spec_ext_suffix(*ext))
                &&& (filename_class == FileName::RandomNanoid ==> prepared@.len()
                    == RANDOM_NAME_LEN + spec_ext_suffix(*ext).len() && prepared@.skip(
                    RANDOM_NAME_LEN as int,
                ) == spec_ext_suffix(*ext))
            },
            self matches Storage::GoogleDrive { folder_id } ==> resp matches Resp::RespBytes {
                filename,
                mime_type,
                ..
            } ==> {
                &&& r matches StorePlan::UploadRemote { folder_id: f, filename: n, mime_type: m }
                &&& f@ == folder_id@
                &&& n@ == filename@
                &&& (mime_type matches Some(t) ==> m matches Some(u) && u@ == t@)
                &&& (mime_type is None ==> m is None)
            },
    {
        match self {
            Storage::LocalDrive { dirname, filename_class, ext } => {
                match resp {
                    Resp::RespBytes { filename, .. } => {
                        let prepared = self.prepare_filename(
                            filename.as_str(),
                            filename_class,
                            ext.as_ref(),
                        );
                        StorePlan::WriteLocal { dir: dirname.clone(), filename: prepared }
                    },
                    Resp::RespText(_) => {
                        // excluded by the precondition
                        StorePlan::WriteLocal { dir: dirname.clone(), filename: String::new() }
                    },
                }
            },
            Storage::GoogleDrive { folder_id } => {
                match resp {
                    Resp::RespBytes { filename, mime_type, .. } => {
                        let m = match mime_type {
                            Some(t) => Some(t.clone()),
                            None => None,
                        };
                        StorePlan::UploadRemote {
                            folder_id: folder_id.clone(),
                            filename: filename.clone(),
                            mime_type: m,
                        }
                    },
                    Resp::RespText(_) => StorePlan::UploadRemote {
                        folder_id: folder_id.clone(),
                        filename: String::new(),
                        mime_type: None,
                    },
                }
            },
        }
    }
}

/// The extension value behind an optional reference.
pub open spec fn spec_ext_of(ext: Option<&FileExt>) -> Option<FileExt> {
    match ext {
        Some(e) => Some(*e),
        None => None,
    }
}

} // verus!
