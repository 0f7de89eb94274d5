use vstd::prelude::*;

use crate::format::{detect, detected, Format};

verus! {

/// The last argument names an archive by its extension, so it is the output and
/// the others are the sources.
pub open spec fn ends_in_archive_name(args: Seq<String>) -> bool {
    args.len() >= 1 && detected(args.last()@) is Some
}

/// Splits positional arguments into the sources and the output archive: the last
/// argument is the output when its extension names an archive format; otherwise
/// all arguments are sources and there is no output.
pub fn split_out(args: &[String]) -> (r: (Vec<String>, Option<String>))
    ensures
        ends_in_archive_name(args@) ==> r.0@ == args@.drop_last() && r.1 == Some(args@.last()),
        !ends_in_archive_name(args@) ==> r.0@ == args@ && r.1 is None,
        args@.len() >= 1 && detected(args@.last()@) is Some ==> r.1 == Some(args@.last()),
        args@.len() == 0 || detected(args@.last()@) is None ==> r.1 is None,
{
    if args.len() == 0 {
        let v: Vec<String> = Vec::new();
        assert(v@ =~= args@);
        return (v, None);
    }
    let last = args.len() - 1;
    let is_archive = match detect(args[last].as_str()) {
        Ok(_) => true,
        Err(_) => false,
    };
    let keep = if is_archive { last } else { args.len() };
    let mut sources: Vec<String> = Vec::new();
    let mut i: usize = 0;
    while i < keep
        invariant
            keep <= args@.len(),
            i <= keep,
            sources@ == args@.take(i as int),
        decreases keep - i,
    {
        sources.push(args[i].clone());
        i = i + 1;
        assert(sources@ =~= args@.take(i as int));
    }
    assert(args@.take(args@.len() as int) =~= args@);
    if is_archive {
        (sources, Some(args[last].clone()))
    } else {
        (sources, None)
    }
}

/// What was asked on the command line: the action flags and the positional
/// arguments.
pub struct Request {
    pub unpack: bool,
    pub pack: bool,
    pub zip: bool,
    pub tar: bool,
    pub tar_gz: bool,
    pub list: bool,
    pub info: bool,
    /// The arguments given to rename: archive, old name, new name.
    pub rename: Option<Vec<String>>,
    /// The positional arguments.
    pub inputs: Vec<String>,
}

/// What the tool is to do.
pub enum Plan {
    /// Unpack an archive.
    Unpack { archive: String },
    /// List the entries of an archive.
    List { archive: String },
    /// Describe an archive.
    Info { archive: String },
    /// Rename an entry inside an archive.
    Rename { archive: String, from: String, to: String },
    /// Pack sources into an archive, in the format asked for or else the one that
    /// the output's name names.
    Pack { sources: Vec<String>, output: String, force: Option<Format> },
    /// Print the help.
    Help,
}

/// A command line that asks for an action without what the action needs.
#[derive(Debug, Clone, Copy, PartialEq, Eq, Structural)]
pub enum UsageError {
    /// Unpack, list or info without an archive.
    NoArchive,
    /// Rename without exactly three arguments.
    RenameUsage,
    /// Packing without any source.
    NoSource,
    /// Packing without an output archive name.
    NoOutput,
}

/// The format that the packing flags ask for: zip, else tar.gz, else tar, else none.
pub open spec fn forced_format(zip: bool, tar: bool, tar_gz: bool) -> Option<Format> {
    if zip {
        Some(Format::Zip)
    } else if tar_gz {
        Some(Format::TarGz)
    } else if tar {
        Some(Format::Tar)
    } else {
        None
    }
}

/// The last argument is the output exactly when some format is detected from its
/// name, whichever format that is; otherwise there is no output.
pub proof fn lemma_output_is_any_archive_name(args: Seq<String>)
    ensures
        ends_in_archive_name(args) == (args.len() >= 1 && (detected(args.last()@) == Some(Format::Zip)
            || detected(args.last()@) == Some(Format::Tar) || detected(args.last()@) == Some(
            Format::TarGz,
        ))),
{
    if args.len() >= 1 {
        match detected(args.last()@) {
            Some(f) => {
                match f {
                    Format::Zip => {},
                    Format::Tar => {},
                    Format::TarGz => {},
                }
            },
            None => {},
        }
    }
}

/// The zip flag forces zip whatever else is set; without it tar.gz, then tar;
/// with none of them nothing is forced.
pub proof fn lemma_forced_format_order(zip: bool, tar: bool, tar_gz: bool)
    ensures
        zip ==> forced_format(zip, tar, tar_gz) == Some(Format::Zip),
        !zip && tar_gz ==> forced_format(zip, tar, tar_gz) == Some(Format::TarGz),
        !zip && !tar_gz && tar ==> forced_format(zip, tar, tar_gz) == Some(Format::Tar),
        !zip && !tar_gz && !tar ==> forced_format(zip, tar, tar_gz) is None,
{
}

/// Some packing flag is set.
pub open spec fn wants_pack(req: &Request) -> bool {
    req.pack || req.zip || req.tar || req.tar_gz
}

/// The format that the packing flags ask for.
pub fn forced(zip: bool, tar: bool, tar_gz: bool) -> (r: Option<Format>)
    ensures
        r == forced_format(zip, tar, tar_gz),
        zip ==> r == Some(Format::Zip),
        !zip && tar_gz ==> r == Some(Format::TarGz),
        !zip && !tar_gz && tar ==> r == Some(Format::Tar),
        !zip && !tar_gz && !tar ==> r is None,
{
    if zip {
        Some(Format::Zip)
    } else if tar_gz {
        Some(Format::TarGz)
    } else if tar {
        Some(Format::Tar)
    } else {
        None
    }
}

/// Any one of the packing flags asks for packing; with none of them set there is
/// no packing.
pub proof fn lemma_any_pack_flag_packs(req: &Request)
    ensures
        req.pack ==> wants_pack(req),
        req.zip ==> wants_pack(req),
        req.tar ==> wants_pack(req),
        req.tar_gz ==> wants_pack(req),
        !req.pack && !req.zip && !req.tar && !req.tar_gz ==> !wants_pack(req),
{
}

/// Decides what the command line asks for. The actions are tried in this order:
/// unpack, list, info, rename, pack; with none of them, the help. Unpack, list and
/// info take the first positional argument as the archive. Packing splits the
/// positional arguments with `split_out`.
pub fn plan(req: &Request) -> (r: Result<Plan, UsageError>)
    ensures
        req.unpack ==> match r {
            Ok(Plan::Unpack { archive }) => req.inputs@.len() > 0 && archive == req.inputs@[0],
            Err(UsageError::NoArchive) => req.inputs@.len() == 0,
            _ => false,
        },
        !req.unpack && req.list ==> match r {
            Ok(Plan::List { archive }) => req.inputs@.len() > 0 && archive == req.inputs@[0],
            Err(UsageError::NoArchive) => req.inputs@.len() == 0,
            _ => false,
        },
        !req.unpack && !req.list && req.info ==> match r {
            Ok(Plan::Info { archive }) => req.inputs@.len() > 0 && archive == req.inputs@[0],
            Err(UsageError::NoArchive) => req.inputs@.len() == 0,
            _ => false,
        },
        !req.unpack && !req.list && !req.info && req.rename is Some ==> match r {
            Ok(Plan::Rename { archive, from, to }) => {
                let args = req.rename->0@;
                &&& args.len() == 3
                &&& archive == args[0]
                &&& from == args[1]
                &&& to == args[2]
            },
            Err(UsageError::RenameUsage) => req.rename->0@.len() != 3,
            _ => false,
        },
        !req.unpack && !req.list && !req.info && req.rename is None && wants_pack(req) ==> match r {
            Ok(Plan::Pack { sources, output, force }) => {
                &&& ends_in_archive_name(req.inputs@)
                &&& sources@ == req.inputs@.drop_last()
                &&& output == req.inputs@.last()
                &&& force == forced_format(req.zip, req.tar, req.tar_gz)
            },
            Err(UsageError::NoSource) => req.inputs@.len() == 0,
            Err(UsageError::NoOutput) => req.inputs@.len() > 0 && !ends_in_archive_name(req.inputs@),
            _ => false,
        },
        !req.unpack && !req.list && !req.info && req.rename is None && !wants_pack(req) ==> r matches Ok(Plan::Help),
{
    if req.unpack || req.list || req.info {
        if req.inputs.len() == 0 {
            return Err(UsageError::NoArchive);
        }
        let archive = req.inputs[0].clone();
        if req.unpack {
            return Ok(Plan::Unpack { archive });
        } else if req.list {
            return Ok(Plan::List { archive });
        } else {
            return Ok(Plan::Info { archive });
        }
    }
    match &req.rename {
        Some(args) => {
            if args.len() != 3 {
                return Err(UsageError::RenameUsage);
            }
            return Ok(Plan::Rename { archive: args[0].clone(), from: args[1].clone(), to: args[2].clone() });
        },
        None => {},
    }
    if req.pack || req.zip || req.tar || req.tar_gz {
        if req.inputs.len() == 0 {
            return Err(UsageError::NoSource);
        }
        let (sources, output) = split_out(req.inputs.as_slice());
        match output {
            Some(output) => {
                return Ok(Plan::Pack { sources, output, force: forced(req.zip, req.tar, req.tar_gz) });
            },
            None => {
                return Err(UsageError::NoOutput);
            },
        }
    }
    Ok(Plan::Help)
}

} // verus!
