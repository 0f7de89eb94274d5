use vstd::prelude::*;

use crate::text::{
    ascii_lower, ascii_lowercase, ascii_only, chars_of, ends_with, ends_with_chars, lowercase, to_lowercase,
};

verus! {

/// The archive formats that the tool reads and writes.
#[derive(Debug, Clone, Copy, PartialEq, Eq, Structural)]
pub enum Format {
    Zip,
    Tar,
    TarGz,
}

/// How the entries of a zip archive are stored.
#[derive(Debug, Clone, Copy, PartialEq, Eq, Structural)]
pub enum ZipMethod {
    /// Kept as they are, without compression.
    Stored,
    /// Compressed with deflate.
    Deflated,
}

/// The name of a format, as the tool prints it; it is also the format's extension.
pub open spec fn format_name(f: Format) -> Seq<char> {
    match f {
        Format::Zip => seq!['z', 'i', 'p'],
        Format::Tar => seq!['t', 'a', 'r'],
        Format::TarGz => seq!['t', 'a', 'r', '.', 'g', 'z'],
    }
}

pub open spec fn zip_suffix() -> Seq<char> {
    seq!['.', 'z', 'i', 'p']
}

pub open spec fn tar_suffix() -> Seq<char> {
    seq!['.', 't', 'a', 'r']
}

pub open spec fn tar_gz_suffix() -> Seq<char> {
    seq!['.', 't', 'a', 'r', '.', 'g', 'z']
}

pub open spec fn tgz_suffix() -> Seq<char> {
    seq!['.', 't', 'g', 'z']
}

/// A lower-case file name names a gzip-compressed tar archive.
pub open spec fn is_gz_name(lower: Seq<char>) -> bool {
    ends_with(lower, tar_gz_suffix()) || ends_with(lower, tgz_suffix())
}

/// The format that a lower-case file name names by its extension: `.zip`; `.tar.gz`
/// or `.tgz`; `.tar`; tried in that order.
pub open spec fn format_of_name(lower: Seq<char>) -> Option<Format> {
    if ends_with(lower, zip_suffix()) {
        Some(Format::Zip)
    } else if is_gz_name(lower) {
        Some(Format::TarGz)
    } else if ends_with(lower, tar_suffix()) {
        Some(Format::Tar)
    } else {
        None
    }
}

/// The format of a file name, whatever the case of its letters.
pub open spec fn detected(name: Seq<char>) -> Option<Format> {
    format_of_name(lowercase(name))
}

/// A file name whose extension names no supported format.
#[derive(Debug)]
pub struct UnsupportedFormat {
    /// The file name, in lower case.
    pub name: String,
}

/// `flate2::Compression`, a gzip compression level.
#[verifier::external_type_specification]
#[verifier::external_body]
pub struct ExCompression(flate2::Compression);

/// The level that `flate2::Compression::level` reports for a compression setting.
pub uninterp spec fn gz_level(c: flate2::Compression) -> u32;

impl Format {
    /// The name of the format: `zip`, `tar` or `tar.gz`.
    pub fn name(&self) -> (r: &'static str)
        ensures
            r@ == format_name(*self),
    {
        match self {
            Format::Zip => {
                proof {
                    reveal_strlit("zip");
                }
                "zip"
            },
            Format::Tar => {
                proof {
                    reveal_strlit("tar");
                }
                "tar"
            },
            Format::TarGz => {
                proof {
                    reveal_strlit("tar.gz");
                }
                "tar.gz"
            },
        }
    }

    /// The zip storage method for a compression level: level 0 stores, any other
    /// level deflates.
    pub fn from_zip_level(level: u32) -> (m: ZipMethod)
        ensures
            m == (if level == 0 { ZipMethod::Stored } else { ZipMethod::Deflated }),
    {
        if level == 0 {
            ZipMethod::Stored
        } else {
            ZipMethod::Deflated
        }
    }

    /// Calls `flate2::Compression::new`. Claimed: the setting keeps the level as
    /// it is given, so that `Compression::level` reports it back; the source stores
    /// the level unchanged and returns it unchanged.
    #[verifier::external_body]
    pub fn from_gz_level(level: u32) -> (c: flate2::Compression)
        ensures
            gz_level(c) == level,
    {
        flate2::Compression::new(level)
    }
}

/// The format that a lower-case file name names by its extension.
pub fn format_from_lowercase(lower: &str) -> (r: Option<Format>)
    ensures
        r == format_of_name(lower@),
{
    let l = chars_of(lower);
    let zip = vec!['.', 'z', 'i', 'p'];
    let tar_gz = vec!['.', 't', 'a', 'r', '.', 'g', 'z'];
    let tgz = vec!['.', 't', 'g', 'z'];
    let tar = vec!['.', 't', 'a', 'r'];
    assert(zip@ =~= zip_suffix());
    assert(tar_gz@ =~= tar_gz_suffix());
    assert(tgz@ =~= tgz_suffix());
    assert(tar@ =~= tar_suffix());
    if ends_with_chars(&l, &zip) {
        Some(Format::Zip)
    } else if ends_with_chars(&l, &tar_gz) || ends_with_chars(&l, &tgz) {
        Some(Format::TarGz)
    } else if ends_with_chars(&l, &tar) {
        Some(Format::Tar)
    } else {
        None
    }
}

/// The format of an archive, by the extension of its file name, whatever the case
/// of its letters. A name with no supported extension is an error that carries
/// the name in lower case. For an ASCII name, lower case means `A`..`Z` turned
/// into `a`..`z`.
pub fn detect(path: &str) -> (r: Result<Format, UnsupportedFormat>)
    ensures
        match r {
            Ok(f) => detected(path@) == Some(f),
            Err(e) => detected(path@) is None && e.name@ == lowercase(path@),
        },
        ascii_only(path@) ==> detected(path@) == format_of_name(ascii_lowercase(path@)),
        ascii_only(path@) ==> (r matches Err(e) ==> e.name@ == ascii_lowercase(path@)),
{
    let lower = to_lowercase(path);
    match format_from_lowercase(lower.as_str()) {
        Some(f) => Ok(f),
        None => Err(UnsupportedFormat { name: lower }),
    }
}

/// The format to write an archive in: the one asked for, or else the one that the
/// output file's name names.
pub fn target_format(force: Option<Format>, output: &str) -> (r: Result<Format, UnsupportedFormat>)
    ensures
        match force {
            Some(f) => r matches Ok(g) && g == f,
            None => match r {
                Ok(f) => detected(output@) == Some(f),
                Err(e) => detected(output@) is None && e.name@ == lowercase(output@),
            },
        },
        force is None && ascii_only(output@) ==> detected(output@) == format_of_name(ascii_lowercase(output@)),
{
    match force {
        Some(f) => Ok(f),
        None => detect(output),
    }
}

/// Detection ignores the case of ASCII letters: two ASCII names that differ only
/// in the case of their letters name the same format.
pub proof fn lemma_detection_ignores_ascii_case(a: Seq<char>, b: Seq<char>)
    requires
        a.len() == b.len(),
        forall|i: int| 0 <= i < a.len() ==> ascii_lower(#[trigger] a[i]) == ascii_lower(b[i]),
    ensures
        format_of_name(ascii_lowercase(a)) == format_of_name(ascii_lowercase(b)),
{
    assert(ascii_lowercase(a) =~= ascii_lowercase(b));
}

/// `l` ends with the characters of `suffix`, compared one by one.
pub open spec fn last_chars_are(l: Seq<char>, suffix: Seq<char>) -> bool {
    suffix.len() <= l.len() && forall|i: int| 0 <= i < suffix.len() ==> #[trigger] l[l.len() - suffix.len() + i] == suffix[i]
}

/// Formats by extension: `.zip` gives zip; otherwise `.tar.gz` or `.tgz` gives
/// tar.gz; otherwise `.tar` gives tar; otherwise no format. The gzip flag of a tar
/// archive goes by `.tar.gz` and `.tgz` alone.
pub proof fn lemma_format_by_extension(l: Seq<char>)
    ensures
        is_gz_name(l) == (last_chars_are(l, seq!['.', 't', 'a', 'r', '.', 'g', 'z']) || last_chars_are(
            l,
            seq!['.', 't', 'g', 'z'],
        )),
        (format_of_name(l) == Some(Format::Zip)) == last_chars_are(l, seq!['.', 'z', 'i', 'p']),
        (format_of_name(l) == Some(Format::TarGz)) == (!last_chars_are(l, seq!['.', 'z', 'i', 'p'])
            && is_gz_name(l)),
        (format_of_name(l) == Some(Format::Tar)) == (!last_chars_are(l, seq!['.', 'z', 'i', 'p'])
            && !is_gz_name(l) && last_chars_are(l, seq!['.', 't', 'a', 'r'])),
        (format_of_name(l) is None) == (!last_chars_are(l, seq!['.', 'z', 'i', 'p']) && !is_gz_name(l)
            && !last_chars_are(l, seq!['.', 't', 'a', 'r'])),
{
    lemma_ends_with_is_last_chars(l, zip_suffix());
    lemma_ends_with_is_last_chars(l, tar_suffix());
    lemma_ends_with_is_last_chars(l, tar_gz_suffix());
    lemma_ends_with_is_last_chars(l, tgz_suffix());
}

proof fn lemma_ends_with_is_last_chars(l: Seq<char>, suffix: Seq<char>)
    ensures
        ends_with(l, suffix) == last_chars_are(l, suffix),
{
    if suffix.len() <= l.len() {
        if last_chars_are(l, suffix) {
            assert forall|j: int| 0 <= j < suffix.len() implies #[trigger] l.skip(l.len() - suffix.len())[j] == suffix[j] by {
                assert(l[l.len() - suffix.len() + j] == suffix[j]);
            }
            assert(l.skip(l.len() - suffix.len()) =~= suffix);
        }
        if ends_with(l, suffix) {
            assert forall|i: int| 0 <= i < suffix.len() implies #[trigger] l[l.len() - suffix.len() + i] == suffix[i] by {
                assert(l.skip(l.len() - suffix.len())[i] == l[l.len() - suffix.len() + i]);
            }
        }
    }
}

/// A file name that ends with a format's extension is detected as that format:
/// what `Format::name` gives back, `detect` reads.
pub proof fn lemma_extension_names_format(stem: Seq<char>, f: Format)
    ensures
        format_of_name(stem + seq!['.'] + format_name(f)) == Some(f),
{
    let s = stem + seq!['.'] + format_name(f);
    let n = s.len();
    match f {
        Format::Zip => {
            assert(s.skip(n - 4) =~= zip_suffix());
        },
        Format::Tar => {
            assert(s.skip(n - 4) =~= tar_suffix());
            assert(s[n - 1] == 'r');
            assert(s.skip(n - 4)[3] == s[n - 1]);
            assert(s.skip(n - 4)[1] == 't' && s.skip(n - 4)[2] == 'a');
            if tar_gz_suffix().len() <= n {
                assert(s.skip(n - 7)[6] == s[n - 1]);
            }
        },
        Format::TarGz => {
            assert(s.skip(n - 7) =~= tar_gz_suffix());
            assert(s[n - 1] == 'z');
            assert(s.skip(n - 4)[3] == s[n - 1]);
        },
    }
}

} // verus!
