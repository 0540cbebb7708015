//! The command line: which directory to index and browse.
use vstd::prelude::*;
use crate::text::{same_text, views};

verus! {

/// The directory that the command line names.
#[derive(PartialEq, Eq, Debug)]
pub enum Target {
    /// `--here`: the working directory.
    Here,
    /// `--dir <path>`.
    Dir(String),
}

/// Why a command line is refused.
#[derive(PartialEq, Eq, Debug)]
pub enum ArgError {
    /// No argument was given.
    Usage,
    /// `--dir` came last, without a path.
    MissingDirPath,
    /// An argument that is neither `--here` nor `--dir`.
    Unknown(String),
}

pub enum TargetView {
    Here,
    Dir(Seq<char>),
}

pub enum ArgErrorView {
    Usage,
    MissingDirPath,
    Unknown(Seq<char>),
}

/// Reads the arguments from index `i` on, `target` being the directory that
/// those before named: `--here` names the working directory, `--dir` the path
/// after it; the last one named counts.
pub open spec fn targets_from(args: Seq<Seq<char>>, i: int, target: Option<TargetView>) -> Result<Option<TargetView>, ArgErrorView>
    decreases args.len() - i,
{
    if i >= args.len() {
        Ok(target)
    } else if args[i] == "--here"@ {
        targets_from(args, i + 1, Some(TargetView::Here))
    } else if args[i] == "--dir"@ {
        if i + 1 < args.len() {
            targets_from(args, i + 2, Some(TargetView::Dir(args[i + 1])))
        } else {
            Err(ArgErrorView::MissingDirPath)
        }
    } else {
        Err(ArgErrorView::Unknown(args[i]))
    }
}

/// What a command line (the program's name first) asks for.
pub open spec fn target_of(args: Seq<Seq<char>>) -> Result<TargetView, ArgErrorView> {
    if args.len() < 2 {
        Err(ArgErrorView::Usage)
    } else {
        match targets_from(args, 1, None) {
            Ok(Some(t)) => Ok(t),
            Ok(None) => Err(ArgErrorView::Usage),
            Err(e) => Err(e),
        }
    }
}

pub open spec fn target_view(t: Target) -> TargetView {
    match t {
        Target::Here => TargetView::Here,
        Target::Dir(p) => TargetView::Dir(p@),
    }
}

pub open spec fn arg_error_view(e: ArgError) -> ArgErrorView {
    match e {
        ArgError::Usage => ArgErrorView::Usage,
        ArgError::MissingDirPath => ArgErrorView::MissingDirPath,
        ArgError::Unknown(a) => ArgErrorView::Unknown(a@),
    }
}

/// A command line with at least one argument that is read to its end names
/// a directory.
proof fn lemma_targets_named(args: Seq<Seq<char>>, i: int, target: Option<TargetView>)
    requires
        i < args.len() || target is Some,
    ensures
        targets_from(args, i, target) matches Ok(t) ==> t is Some,
    decreases args.len() - i,
{
    if i >= args.len() {
    } else if args[i] == "--here"@ {
        lemma_targets_named(args, i + 1, Some(TargetView::Here));
    } else if args[i] == "--dir"@ {
        if i + 1 < args.len() {
            lemma_targets_named(args, i + 2, Some(TargetView::Dir(args[i + 1])));
        }
    }
}

/// Reads the command line (the program's name first).
pub fn parse_args(args: &Vec<String>) -> (r: Result<Target, ArgError>)
    ensures
        match r {
            Ok(t) => target_of(views(args@)) == Ok::<TargetView, ArgErrorView>(target_view(t)),
            Err(e) => target_of(views(args@)) == Err::<TargetView, ArgErrorView>(
                arg_error_view(e),
            ),
        },
{
    let ghost a = views(args@);
    if args.len() < 2 {
        return Err(ArgError::Usage);
    }
    proof {
        lemma_targets_named(a, 1, None);
    }
    let mut target: Option<Target> = None;
    let mut i: usize = 1;
    while i < args.len()
        invariant
            a == views(args@),
            1 <= i <= args.len(),
            i > 1 ==> target is Some,
            targets_from(a, 1, None) == targets_from(
                a,
                i as int,
                match target {
                    Some(t) => Some(target_view(t)),
                    None => None,
                },
            ),
        decreases args.len() - i,
    {
        let arg = args[i].as_str();
        if same_text(arg, "--here") {
            target = Some(Target::Here);
            i = i + 1;
        } else if same_text(arg, "--dir") {
            if i + 1 < args.len() {
                target = Some(Target::Dir(args[i + 1].clone()));
                i = i + 2;
            } else {
                return Err(ArgError::MissingDirPath);
            }
        } else {
            return Err(ArgError::Unknown(args[i].clone()));
        }
    }
    match target {
        Some(t) => Ok(t),
        None => Err(ArgError::Usage),
    }
}

} // verus!
