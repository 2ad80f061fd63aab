//! What is done with one file: the decision that a worker takes for each work item.

use vstd::prelude::*;
use crate::command::ArgView;
use crate::command::CodecCommand;
use crate::command::CommandView;
use crate::config::Config;
use crate::config::ConfigView;
use crate::config::Disposition;
use crate::config::FailurePolicy;
use crate::encoding::Encoding;
use crate::names::extension;
use crate::names::replace_extension;
use crate::names::spec_extension;
use crate::names::spec_replace_extension;
use crate::paths::PathView;
use crate::paths::child;
use crate::paths::copy_path;
use crate::paths::spec_file_name;

verus! {

/// What a worker does with one file.
#[derive(Clone, Debug, PartialEq, Eq)]
pub enum FileAction {
    /// The file has no extension: it is reported and nothing else happens.
    NoExtension,
    /// The extension `ext` is neither audio nor pass-through: it is reported
    /// and nothing else happens.
    Unexpected { ext: String },
    /// The file is copied to `dest_file`, under its own name, once `dest_dir`
    /// exists. A copy replaces a destination that is already there.
    Copy { dest_dir: Vec<String>, dest_file: Vec<String> },
    /// The file is converted into `dest_file` once `dest_dir` exists. A
    /// conversion keeps a destination that is already there: see `transcode_step`.
    Transcode { dest_dir: Vec<String>, dest_file: Vec<String> },
}

/// What a `FileAction` is to the contracts.
pub enum ActionView {
    NoExtension,
    Unexpected { ext: Seq<char> },
    Copy { dest_dir: PathView, dest_file: PathView },
    Transcode { dest_dir: PathView, dest_file: PathView },
}

impl View for FileAction {
    type V = ActionView;

    open spec fn view(&self) -> ActionView {
        match self {
            FileAction::NoExtension => ActionView::NoExtension,
            FileAction::Unexpected { ext } => ActionView::Unexpected { ext: ext@ },
            FileAction::Copy { dest_dir, dest_file } => ActionView::Copy {
                dest_dir: dest_dir.deep_view(),
                dest_file: dest_file.deep_view(),
            },
            FileAction::Transcode { dest_dir, dest_file } => ActionView::Transcode {
                dest_dir: dest_dir.deep_view(),
                dest_file: dest_file.deep_view(),
            },
        }
    }
}

impl ActionView {
    /// The file that the action leaves in the destination tree, if any.
    pub open spec fn dest_file(self) -> Option<PathView> {
        match self {
            ActionView::Copy { dest_file, .. } => Some(dest_file),
            ActionView::Transcode { dest_file, .. } => Some(dest_file),
            _ => None,
        }
    }
}

/// The action for the file `in_file` whose output belongs in the directory
/// `out_path`. The last component of `in_file` is the file's name and decides:
/// without an extension the file is left alone; with an audio extension other
/// than the target's it is converted, and its name gets the target's extension;
/// with a pass-through extension or the target's own it is copied under its
/// name; with any other extension it is left alone.
pub open spec fn spec_process_file(
    in_file: PathView,
    out_path: PathView,
    encoding: Encoding,
    config: ConfigView,
) -> ActionView {
    match spec_file_name(in_file) {
        None => ActionView::NoExtension,
        Some(name) => match spec_extension(name) {
            None => ActionView::NoExtension,
            Some(ext) => match config.classify(ext, encoding) {
                Disposition::Transcode => ActionView::Transcode {
                    dest_dir: out_path,
                    dest_file: out_path.push(spec_replace_extension(name, encoding.spec_ext())),
                },
                Disposition::PassThrough => ActionView::Copy {
                    dest_dir: out_path,
                    dest_file: out_path.push(name),
                },
                Disposition::Unrecognized => ActionView::Unexpected { ext },
            },
        },
    }
}

/// Decides what is done with the file `in_file`, whose output belongs in the
/// directory `out_path`, when the target codec is `encoding`.
pub fn process_file(
    in_file: &Vec<String>,
    out_path: &Vec<String>,
    encoding: Encoding,
    config: &Config,
) -> (r: FileAction)
    ensures
        r@ == spec_process_file(in_file.deep_view(), out_path.deep_view(), encoding, config@),
{
    if in_file.len() == 0 {
        return FileAction::NoExtension;
    }
    let name = &in_file[in_file.len() - 1];
    assert(spec_file_name(in_file.deep_view()) == Some(name@));
    match extension(name.as_str()) {
        None => FileAction::NoExtension,
        Some(ext) => match config.classify(ext.as_str(), encoding) {
            Disposition::Transcode => match replace_extension(name.as_str(), encoding.ext()) {
                Some(renamed) => FileAction::Transcode {
                    dest_dir: copy_path(out_path),
                    dest_file: child(out_path, renamed),
                },
                None => {
                    proof {
                        assert(false);
                    }
                    FileAction::NoExtension
                },
            },
            Disposition::PassThrough => FileAction::Copy {
                dest_dir: copy_path(out_path),
                dest_file: child(out_path, name.clone()),
            },
            Disposition::Unrecognized => FileAction::Unexpected { ext },
        },
    }
}

/// The codec engine run that converts `in_file` into `out_file`: the engine,
/// `-i` and the input, the arguments that select the codec, then the output.
pub open spec fn spec_transcode_command(
    in_file: PathView,
    out_file: PathView,
    encoding: Encoding,
) -> CommandView {
    CommandView {
        program: "ffmpeg"@,
        args: seq![ArgView::Text("-i"@), ArgView::Path(in_file)] + encoding.spec_encoding_args()
            + seq![ArgView::Path(out_file)],
    }
}

/// The codec engine run that converts `in_file` into `out_file`.
pub fn transcode_command(in_file: &Vec<String>, out_file: &Vec<String>, encoding: Encoding) -> (r:
    CodecCommand)
    ensures
        r@ == spec_transcode_command(in_file.deep_view(), out_file.deep_view(), encoding),
{
    let mut command = CodecCommand::new("ffmpeg");
    command.arg("-i");
    command.arg_path(in_file);
    encoding.add_encoding_args(&mut command);
    command.arg_path(out_file);
    proof {
        assert(command@.args =~= spec_transcode_command(
            in_file.deep_view(),
            out_file.deep_view(),
            encoding,
        ).args);
    }
    command
}

/// What a conversion comes to once it is known whether its output is there:
/// nothing when `out_exists`, else the codec engine run.
pub open spec fn spec_transcode_step(
    in_file: PathView,
    out_file: PathView,
    encoding: Encoding,
    out_exists: bool,
) -> Option<CommandView> {
    if out_exists {
        None
    } else {
        Some(spec_transcode_command(in_file, out_file, encoding))
    }
}

/// The second half of a conversion, taken once the destination directory
/// exists and the caller has looked for `out_file`: an output that is already
/// there is kept and the file is skipped, else the codec engine is to be run.
pub fn transcode_step(
    in_file: &Vec<String>,
    out_file: &Vec<String>,
    encoding: Encoding,
    out_exists: bool,
) -> (r: Option<CodecCommand>)
    ensures
        match r {
            Some(command) => spec_transcode_step(
                in_file.deep_view(),
                out_file.deep_view(),
                encoding,
                out_exists,
            ) == Some(command@),
            None => out_exists,
        },
{
    if out_exists {
        None
    } else {
        Some(transcode_command(in_file, out_file, encoding))
    }
}

/// What a finished codec engine run means for the worker.
#[derive(Clone, Copy, Debug, PartialEq, Eq, Structural)]
pub enum CodecVerdict {
    /// The file was converted.
    Converted,
    /// The engine failed; the file is reported as failed and the worker goes on.
    FileFailed,
    /// The engine failed and the run ends with an error.
    Abort,
}

/// The verdict on a codec engine run that ended with `succeeded`, under `policy`.
pub open spec fn spec_codec_verdict(policy: FailurePolicy, succeeded: bool) -> CodecVerdict {
    if succeeded {
        CodecVerdict::Converted
    } else {
        match policy {
            FailurePolicy::Abort => CodecVerdict::Abort,
            FailurePolicy::Continue => CodecVerdict::FileFailed,
        }
    }
}

/// The verdict on a codec engine run: `succeeded` says whether the engine
/// exited with status 0.
pub fn codec_verdict(policy: FailurePolicy, succeeded: bool) -> (r: CodecVerdict)
    ensures
        r == spec_codec_verdict(policy, succeeded),
{
    if succeeded {
        CodecVerdict::Converted
    } else {
        match policy {
            FailurePolicy::Abort => CodecVerdict::Abort,
            FailurePolicy::Continue => CodecVerdict::FileFailed,
        }
    }
}

} // verus!
