//! What a run is started with: the size of the worker pool, the two sets of
//! known file extensions, and what a failed codec run means.

use vstd::prelude::*;
use crate::encoding::Encoding;
use crate::paths::copy_path;

verus! {

/// What becomes of a run when the codec engine fails on one file.
#[derive(Clone, Copy, Debug, PartialEq, Eq, Structural)]
pub enum FailurePolicy {
    /// The run ends with an error.
    Abort,
    /// The file is reported as failed and the run goes on.
    Continue,
}

/// What is done with a file, decided by its extension and the target codec.
#[derive(Clone, Copy, Debug, PartialEq, Eq, Structural)]
pub enum Disposition {
    /// Audio in another codec than the target: it is converted.
    Transcode,
    /// An image, or audio already in the target codec: it is copied.
    PassThrough,
    /// Anything else: it is reported and left out.
    Unrecognized,
}

/// Why a configuration was refused.
#[derive(Clone, Copy, Debug, PartialEq, Eq, Structural)]
pub enum ConfigError {
    /// The worker pool would be empty.
    NoWorkers,
    /// An extension is listed both as audio and as pass-through.
    OverlappingExtensions,
}

/// What a `Config` is to the contracts.
pub struct ConfigView {
    pub pool_size: nat,
    pub music: Seq<Seq<char>>,
    pub images: Seq<Seq<char>>,
    pub policy: FailurePolicy,
}

impl ConfigView {
    /// No extension is both audio and pass-through.
    pub open spec fn disjoint(self) -> bool {
        forall|ext: Seq<char>| !(self.music.contains(ext) && self.images.contains(ext))
    }

    /// A configuration is well formed when it has at least one worker and its
    /// two extension sets share nothing.
    pub open spec fn wf(self) -> bool {
        self.pool_size >= 1 && self.disjoint()
    }

    /// The disposition of a file with extension `ext` when the target is `target`.
    pub open spec fn classify(self, ext: Seq<char>, target: Encoding) -> Disposition {
        if self.music.contains(ext) && ext != target.spec_ext() {
            Disposition::Transcode
        } else if self.images.contains(ext) || ext == target.spec_ext() {
            Disposition::PassThrough
        } else {
            Disposition::Unrecognized
        }
    }

    /// The three dispositions partition the extensions: a file is converted
    /// exactly when its extension is audio and not the target's, copied exactly
    /// when its extension is pass-through or the target's, and left out exactly
    /// when neither holds.
    pub proof fn lemma_classify_partitions(self, ext: Seq<char>, target: Encoding)
        requires
            self.wf(),
        ensures
            self.classify(ext, target) == Disposition::Transcode <==> self.music.contains(ext)
                && ext != target.spec_ext(),
            self.classify(ext, target) == Disposition::PassThrough <==> self.images.contains(ext)
                || ext == target.spec_ext(),
            self.classify(ext, target) == Disposition::Unrecognized <==> !self.music.contains(ext)
                && !self.images.contains(ext) && ext != target.spec_ext(),
    {
    }
}

/// The configuration of a run. Every value of this type is well formed.
#[derive(Debug, PartialEq, Eq)]
pub struct Config {
    pool_size: usize,
    music_extensions: Vec<String>,
    img_extensions: Vec<String>,
    policy: FailurePolicy,
}

impl View for Config {
    type V = ConfigView;

    closed spec fn view(&self) -> ConfigView {
        ConfigView {
            pool_size: self.pool_size as nat,
            music: self.music_extensions.deep_view(),
            images: self.img_extensions.deep_view(),
            policy: self.policy,
        }
    }
}

/// Whether `list` holds `ext`.
fn holds(list: &Vec<String>, ext: &String) -> (r: bool)
    ensures
        r == list.deep_view().contains(ext@),
{
    let mut i: usize = 0;
    while i < list.len()
        invariant
            i <= list.len(),
            forall|k: int| 0 <= k < i ==> list.deep_view()[k] != ext@,
        decreases list.len() - i,
    {
        if list[i] == *ext {
            proof {
                assert(list.deep_view()[i as int] == ext@);
            }
            return true;
        }
        i = i + 1;
    }
    false
}

/// Whether `a` and `b` share no element.
fn share_nothing(a: &Vec<String>, b: &Vec<String>) -> (r: bool)
    ensures
        r == forall|ext: Seq<char>| !(a.deep_view().contains(ext) && b.deep_view().contains(ext)),
{
    let mut i: usize = 0;
    while i < a.len()
        invariant
            i <= a.len(),
            forall|k: int| 0 <= k < i ==> !b.deep_view().contains(#[trigger] a.deep_view()[k]),
        decreases a.len() - i,
    {
        if holds(b, &a[i]) {
            proof {
                let ext = a.deep_view()[i as int];
                assert(a.deep_view().contains(ext) && b.deep_view().contains(ext));
            }
            return false;
        }
        i = i + 1;
    }
    true
}

impl Clone for Config {
    fn clone(&self) -> (r: Config)
        ensures
            r@ == self@,
    {
        proof {
            use_type_invariant(self);
        }
        Config {
            pool_size: self.pool_size,
            music_extensions: copy_path(&self.music_extensions),
            img_extensions: copy_path(&self.img_extensions),
            policy: self.policy,
        }
    }
}

impl Default for Config {
    /// The configuration that a run has unless told otherwise: one worker;
    /// `mp3`, `flac`, `m4a` and `m4p` are audio; `jpg`, `jpeg` and `png` pass
    /// through; a failed codec run ends the run.
    fn default() -> (r: Config)
        ensures
            r@ == (ConfigView {
                pool_size: 1,
                music: seq!["mp3"@, "flac"@, "m4a"@, "m4p"@],
                images: seq!["jpg"@, "jpeg"@, "png"@],
                policy: FailurePolicy::Abort,
            }),
            r@.wf(),
    {
        let mut music: Vec<String> = Vec::new();
        music.push(String::from_str("mp3"));
        music.push(String::from_str("flac"));
        music.push(String::from_str("m4a"));
        music.push(String::from_str("m4p"));
        let mut images: Vec<String> = Vec::new();
        images.push(String::from_str("jpg"));
        images.push(String::from_str("jpeg"));
        images.push(String::from_str("png"));
        proof {
            assert(music.deep_view() =~= seq!["mp3"@, "flac"@, "m4a"@, "m4p"@]);
            assert(images.deep_view() =~= seq!["jpg"@, "jpeg"@, "png"@]);
            lemma_default_sets_disjoint();
        }
        Config {
            pool_size: 1,
            music_extensions: music,
            img_extensions: images,
            policy: FailurePolicy::Abort,
        }
    }
}

impl Config {
    #[verifier::type_invariant]
    spec fn inv(&self) -> bool {
        self@.wf()
    }

    /// A configuration with `pool_size` workers, the audio extensions
    /// `music_extensions` and the pass-through extensions `img_extensions`.
    /// It is refused when the pool is empty, else when the two sets overlap.
    pub fn new(
        pool_size: usize,
        music_extensions: &Vec<String>,
        img_extensions: &Vec<String>,
        policy: FailurePolicy,
    ) -> (r: Result<Config, ConfigError>)
        ensures
            match r {
                Ok(config) => config@ == (ConfigView {
                    pool_size: pool_size as nat,
                    music: music_extensions.deep_view(),
                    images: img_extensions.deep_view(),
                    policy,
                }) && config@.wf(),
                Err(ConfigError::NoWorkers) => pool_size == 0,
                Err(ConfigError::OverlappingExtensions) => pool_size > 0 && exists|ext: Seq<char>|
                    music_extensions.deep_view().contains(ext) && img_extensions.deep_view().contains(
                        ext,
                    ),
            },
    {
        if pool_size == 0 {
            return Err(ConfigError::NoWorkers);
        }
        if !share_nothing(music_extensions, img_extensions) {
            return Err(ConfigError::OverlappingExtensions);
        }
        Ok(
            Config {
                pool_size,
                music_extensions: copy_path(music_extensions),
                img_extensions: copy_path(img_extensions),
                policy,
            },
        )
    }

    /// The number of workers of the pool; it is at least 1.
    pub fn pool_size(&self) -> (r: usize)
        ensures
            r == self@.pool_size,
            r >= 1,
    {
        proof {
            use_type_invariant(self);
        }
        self.pool_size
    }

    /// What a failed codec run means for the run.
    pub fn policy(&self) -> (r: FailurePolicy)
        ensures
            r == self@.policy,
    {
        self.policy
    }

    /// The extensions of audio files that can be converted.
    pub fn music_extensions(&self) -> (r: &Vec<String>)
        ensures
            r.deep_view() == self@.music,
    {
        &self.music_extensions
    }

    /// The extensions of files that are copied as they are.
    pub fn img_extensions(&self) -> (r: &Vec<String>)
        ensures
            r.deep_view() == self@.images,
    {
        &self.img_extensions
    }

    /// The disposition of a file with extension `ext` when the target is `encoding`.
    pub fn classify(&self, ext: &str, encoding: Encoding) -> (r: Disposition)
        ensures
            self@.wf(),
            r == self@.classify(ext@, encoding),
    {
        proof {
            use_type_invariant(self);
        }
        let ext = String::from_str(ext);
        let target = String::from_str(encoding.ext());
        let is_target = ext == target;
        if holds(&self.music_extensions, &ext) && !is_target {
            Disposition::Transcode
        } else if holds(&self.img_extensions, &ext) || is_target {
            Disposition::PassThrough
        } else {
            Disposition::Unrecognized
        }
    }
}

/// The extension sets of the default configuration share nothing.
proof fn lemma_default_sets_disjoint()
    ensures
        forall|ext: Seq<char>|
            !(seq!["mp3"@, "flac"@, "m4a"@, "m4p"@].contains(ext) && seq![
                "jpg"@,
                "jpeg"@,
                "png"@,
            ].contains(ext)),
{
    reveal_strlit("mp3");
    reveal_strlit("flac");
    reveal_strlit("m4a");
    reveal_strlit("m4p");
    reveal_strlit("jpg");
    reveal_strlit("jpeg");
    reveal_strlit("png");
    let music = seq!["mp3"@, "flac"@, "m4a"@, "m4p"@];
    let images = seq!["jpg"@, "jpeg"@, "png"@];
    assert forall|ext: Seq<char>| !(music.contains(ext) && images.contains(ext)) by {
        if music.contains(ext) && images.contains(ext) {
            let i = choose|i: int| 0 <= i < music.len() && music[i] == ext;
            let j = choose|j: int| 0 <= j < images.len() && images[j] == ext;
            assert(music[i][0] == 'm' || music[i][0] == 'f');
            assert(images[j][0] == 'j' || images[j][0] == 'p');
        }
    }
}

} // verus!
