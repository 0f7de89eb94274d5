use vstd::prelude::*;

use crate::text::{chars_of, string_of};

verus! {

/// A path with every backslash turned into a forward slash, as archives store it.
pub open spec fn slashed(s: Seq<char>) -> Seq<char> {
    s.map_values(|c: char| if c == '\\' { '/' } else { c })
}

/// An archive entry names a directory when its name ends with `/`.
pub open spec fn is_dir_entry(name: Seq<char>) -> bool {
    name.len() > 0 && name.last() == '/'
}

/// How many entries of `entries` name files, that is, do not end with `/`.
pub open spec fn file_count(entries: Seq<String>) -> nat
    decreases entries.len(),
{
    if entries.len() == 0 {
        0
    } else {
        file_count(entries.drop_last()) + if is_dir_entry(entries.last()@) {
            0nat
        } else {
            1nat
        }
    }
}

/// The name under which an entry is stored: the path relative to the source's
/// parent, with forward slashes.
pub fn entry_name(rel: &str) -> (r: String)
    ensures
        r@ == slashed(rel@),
        r@.len() == rel@.len(),
        forall|i: int| 0 <= i < rel@.len() ==> #[trigger] r@[i] == (if rel@[i] == '\\' { '/' } else { rel@[i] }),
{
    let chars = chars_of(rel);
    let mut out: Vec<char> = Vec::new();
    let mut i: usize = 0;
    while i < chars.len()
        invariant
            i <= chars.len(),
            chars@ == rel@,
            out@ == slashed(chars@.take(i as int)),
        decreases chars.len() - i,
    {
        let c = chars[i];
        if c == '\\' {
            out.push('/');
        } else {
            out.push(c);
        }
        i = i + 1;
        assert(out@ =~= slashed(chars@.take(i as int)));
    }
    assert(chars@.take(chars.len() as int) =~= chars@);
    string_of(&out)
}

/// Storing a path turns each backslash into a forward slash and keeps every other
/// character where it stands.
pub proof fn lemma_slashed_changes_only_backslashes(s: Seq<char>)
    ensures
        slashed(s).len() == s.len(),
        forall|i: int| 0 <= i < s.len() ==> #[trigger] slashed(s)[i] == (if s[i] == '\\' { '/' } else { s[i] }),
{
}

/// The name under which a directory entry is stored: its name followed by `/`, or
/// `./` for the source directory itself when its name is empty.
pub fn dir_entry_name(name: &str) -> (r: String)
    ensures
        r@ == (if name@.len() == 0 { seq!['.', '/'] } else { name@.push('/') }),
{
    let mut chars = chars_of(name);
    if chars.len() == 0 {
        chars.push('.');
    }
    chars.push('/');
    proof {
        if name@.len() == 0 {
            assert(chars@ =~= seq!['.', '/']);
        }
    }
    string_of(&chars)
}

/// The number of file entries and of directory entries in a listing: a name that
/// ends with `/` is a directory, any other a file.
pub fn count_entries(entries: &[String]) -> (r: (usize, usize))
    ensures
        r.0 == file_count(entries@),
        r.0 + r.1 == entries@.len(),
{
    let mut files: usize = 0;
    let mut i: usize = 0;
    while i < entries.len()
        invariant
            i <= entries@.len(),
            files == file_count(entries@.take(i as int)),
            files <= i,
        decreases entries.len() - i,
    {
        let e = chars_of(entries[i].as_str());
        let dir = e.len() > 0 && e[e.len() - 1] == '/';
        assert(entries@.take(i + 1).drop_last() =~= entries@.take(i as int));
        if !dir {
            files = files + 1;
        }
        i = i + 1;
    }
    assert(entries@.take(entries@.len() as int) =~= entries@);
    (files, entries.len() - files)
}

/// Counting files: an empty listing holds none, and a name added to a listing adds
/// one file exactly when it does not end with `/`, whatever its other characters.
pub proof fn lemma_file_count_by_trailing_slash(entries: Seq<String>, e: String)
    ensures
        file_count(Seq::<String>::empty()) == 0,
        file_count(entries.push(e)) == file_count(entries) + (if e@.len() > 0 && e@[e@.len() - 1] == '/' {
            0int
        } else {
            1int
        }),
{
    assert(entries.push(e).drop_last() =~= entries);
}

/// The entry to rename was not in the archive.
#[derive(Debug)]
pub struct EntryNotFound {
    /// The name that was looked for.
    pub name: String,
}

/// The new names of an archive's entries when the entries named `from` are renamed
/// to `to`; the others keep their names. An error when no entry is named `from`.
pub fn rename_plan(names: &[String], from: &str, to: &str) -> (r: Result<Vec<String>, EntryNotFound>)
    ensures
        match r {
            Ok(v) => {
                &&& exists|i: int| 0 <= i < names@.len() && (#[trigger] names@[i])@ == from@
                &&& v@.len() == names@.len()
                &&& forall|i: int| 0 <= i < names@.len() ==> (#[trigger] v@[i])@ == (if names@[i]@ == from@ { to@ } else { names@[i]@ })
            },
            Err(e) => {
                &&& forall|i: int| 0 <= i < names@.len() ==> (#[trigger] names@[i])@ != from@
                &&& e.name@ == from@
            },
        },
{
    let from_s = from.to_owned();
    let mut out: Vec<String> = Vec::new();
    let mut found = false;
    let mut i: usize = 0;
    while i < names.len()
        invariant
            i <= names@.len(),
            from_s@ == from@,
            out@.len() == i,
            forall|k: int| 0 <= k < i ==> (#[trigger] out@[k])@ == (if names@[k]@ == from@ { to@ } else { names@[k]@ }),
            found == exists|k: int| 0 <= k < i && (#[trigger] names@[k])@ == from@,
        decreases names.len() - i,
    {
        if names[i] == from_s {
            found = true;
            out.push(to.to_owned());
        } else {
            out.push(names[i].clone());
        }
        i = i + 1;
    }
    if found {
        Ok(out)
    } else {
        Err(EntryNotFound { name: from_s })
    }
}

} // verus!
