use vstd::prelude::*;

use crate::format::{detected, is_gz_name, tar_gz_suffix, tgz_suffix, zip_suffix, Format};
use crate::text::{
    ascii_lowercase, ascii_only, chars_of, ends_with, ends_with_chars, lowercase, to_lowercase,
};

verus! {

/// A tar archive on disk, plain or gzip-compressed.
pub struct TarArchive {
    /// Where the archive is.
    pub path: String,
    /// Whether it is gzip-compressed.
    pub gz: bool,
}

impl TarArchive {
    /// The tar archive at `path`; it is taken as gzip-compressed when the name ends
    /// with `.tar.gz` or `.tgz`, whatever the case of its letters.
    pub fn open(path: &str) -> (r: TarArchive)
        ensures
            r.path@ == path@,
            r.gz == is_gz_name(lowercase(path@)),
            ascii_only(path@) ==> r.gz == is_gz_name(ascii_lowercase(path@)),
    {
        let lower = to_lowercase(path);
        let l = chars_of(lower.as_str());
        let tar_gz = vec!['.', 't', 'a', 'r', '.', 'g', 'z'];
        let tgz = vec!['.', 't', 'g', 'z'];
        assert(tar_gz@ =~= tar_gz_suffix());
        assert(tgz@ =~= tgz_suffix());
        let gz = ends_with_chars(&l, &tar_gz) || ends_with_chars(&l, &tgz);
        TarArchive { path: path.to_owned(), gz }
    }
}

/// A tar archive is opened as gzip-compressed exactly when its name is detected as
/// `tar.gz`.
pub proof fn lemma_gz_flag_agrees_with_detect(path: Seq<char>)
    ensures
        is_gz_name(lowercase(path)) == (detected(path) == Some(Format::TarGz)),
{
    let l = lowercase(path);
    if ends_with(l, zip_suffix()) && is_gz_name(l) {
        let n = l.len();
        assert(l.skip(n - 4)[3] == l[n - 1]);
        if ends_with(l, tar_gz_suffix()) {
            assert(l.skip(n - 7)[6] == l[n - 1]);
        } else {
            assert(l.skip(n - 4)[3] == 'z');
        }
    }
}

} // verus!
