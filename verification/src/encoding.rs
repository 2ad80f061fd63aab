//! The codec that a run converts audio files to.

use vstd::prelude::*;
use crate::command::ArgView;
use crate::command::CodecCommand;
use crate::command::CommandView;

verus! {

/// The audio codec that a run converts to. It is chosen once, at startup.
#[derive(Clone, Copy, Debug, PartialEq, Eq, Structural)]
pub enum Encoding {
    MP3,
    OPUS,
}

impl Encoding {
    /// The canonical file extension of the codec, without the dot.
    pub open spec fn spec_ext(self) -> Seq<char> {
        match self {
            Encoding::MP3 => "mp3"@,
            Encoding::OPUS => "opus"@,
        }
    }

    /// The flag and the value that make the codec engine produce this codec:
    /// the best variable-bitrate quality for MP3, 128000 bits per second for Opus.
    pub open spec fn spec_encoding_args(self) -> Seq<ArgView> {
        match self {
            Encoding::MP3 => seq![ArgView::Text("-aq"@), ArgView::Text("0"@)],
            Encoding::OPUS => seq![ArgView::Text("-b"@), ArgView::Text("128000"@)],
        }
    }

    /// The canonical file extension of the codec, without the dot.
    pub fn ext(self) -> (r: &'static str)
        ensures
            r@ == self.spec_ext(),
    {
        match self {
            Encoding::MP3 => "mp3",
            Encoding::OPUS => "opus",
        }
    }

    /// Appends to `command` the arguments that select this codec.
    pub fn add_encoding_args(self, command: &mut CodecCommand)
        ensures
            final(command)@ == (CommandView {
                program: old(command)@.program,
                args: old(command)@.args + self.spec_encoding_args(),
            }),
    {
        match self {
            Encoding::MP3 => {
                command.arg("-aq");
                command.arg("0");
            },
            Encoding::OPUS => {
                command.arg("-b");
                command.arg("128000");
            },
        }
        proof {
            assert(command@.args =~= old(command)@.args + self.spec_encoding_args());
        }
    }

    /// A canonical extension is not empty and holds no dot.
    pub proof fn lemma_ext_is_plain(self)
        ensures
            self.spec_ext().len() > 0,
            !self.spec_ext().contains('.'),
    {
        reveal_strlit("mp3");
        reveal_strlit("opus");
        let ext = self.spec_ext();
        assert forall|i: int| 0 <= i < ext.len() implies ext[i] != '.' by {}
    }
}

} // verus!
