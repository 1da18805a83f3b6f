//! The files of an open project and how far each has loaded.
use vstd::prelude::*;

use sha2::Digest;

verus! {

/// `uuid::Uuid`: the identifier of a project, carried through unread.
#[verifier::external_type_specification]
#[verifier::external_body]
pub struct ExUuid(uuid::Uuid);

/// What SHA-256 makes of a sequence of bytes.
pub uninterp spec fn sha256(bytes: Seq<u8>) -> Seq<u8>;

/// `sha2::Sha256::digest`: the SHA-256 digest of the bytes, which is 32
/// bytes long; the contract names the digest and does not spell out the
/// algorithm.
#[verifier::external_body]
fn sha256_digest(bytes: &[u8]) -> (r: Vec<u8>)
    ensures
        r@ == sha256(bytes@),
        r@.len() == 32,
{
    sha2::Sha256::digest(bytes).to_vec()
}

/// The digest that identifies loaded audio: SHA-256 of the bytes of its
/// interleaved samples.
pub fn samples_digest(sample_bytes: &[u8]) -> (r: Vec<u8>)
    ensures
        r@ == sha256(sample_bytes@),
        r@.len() == 32,
{
    sha256_digest(sample_bytes)
}

/// How far a file of a project has loaded: not asked for, loading, loaded,
/// or failed with a message.
pub enum LoadLifeCycle<T> {
    Absent,
    Loading,
    Loaded(T),
    Error(String),
}

/// The life cycle of a project's audio.
pub type ProjectAudioLifeCycle<A> = LoadLifeCycle<A>;

/// The life cycle of a project's TextGrid.
pub type ProjectTextGridLifeCycle<G> = LoadLifeCycle<G>;

/// The life cycle after a load's outcome may have arrived: a loading file
/// takes the outcome that arrived; otherwise nothing changes.
pub open spec fn after_outcome<T>(c: LoadLifeCycle<T>, outcome: Option<Result<T, String>>) -> (
    LoadLifeCycle<T>,
    bool,
) {
    match (c, outcome) {
        (LoadLifeCycle::Loading, Some(Ok(v))) => (LoadLifeCycle::Loaded(v), true),
        (LoadLifeCycle::Loading, Some(Err(e))) => (LoadLifeCycle::Error(e), true),
        (c, _) => (c, false),
    }
}

fn take_outcome<T>(c: LoadLifeCycle<T>, outcome: Option<Result<T, String>>) -> (r: (
    LoadLifeCycle<T>,
    bool,
))
    ensures
        r == after_outcome(c, outcome),
{
    match c {
        LoadLifeCycle::Loading => match outcome {
            Some(Ok(v)) => (LoadLifeCycle::Loaded(v), true),
            Some(Err(e)) => (LoadLifeCycle::Error(e), true),
            None => (LoadLifeCycle::Loading, false),
        },
        c => (c, false),
    }
}

/// An open project: its identifier, and for its audio and its TextGrid, the
/// path and how far loading has come. `A` is the loaded audio and `G` the
/// loaded TextGrid.
pub struct ProjectState<A, G> {
    uuid: uuid::Uuid,
    audio_path: Option<String>,
    audio: LoadLifeCycle<A>,
    textgrid_path: Option<String>,
    textgrid: LoadLifeCycle<G>,
}

/// The view of an optional path.
pub open spec fn opt_path(p: Option<String>) -> Option<Seq<char>> {
    match p {
        Some(s) => Some(s@),
        None => None,
    }
}

impl<A, G> ProjectState<A, G> {
    /// A file that is loading, loaded or failed has its path.
    #[verifier::type_invariant]
    pub closed spec fn wf(self) -> bool {
        &&& !(self.audio is Absent) ==> self.audio_path is Some
        &&& !(self.textgrid is Absent) ==> self.textgrid_path is Some
    }

    /// The project's identifier.
    pub closed spec fn id(&self) -> uuid::Uuid {
        self.uuid
    }

    /// The audio path, if one was given.
    pub closed spec fn audio_file(&self) -> Option<Seq<char>> {
        opt_path(self.audio_path)
    }

    /// How far the audio has loaded.
    pub closed spec fn audio_state(&self) -> LoadLifeCycle<A> {
        self.audio
    }

    /// The TextGrid path, if one was given.
    pub closed spec fn textgrid_file(&self) -> Option<Seq<char>> {
        opt_path(self.textgrid_path)
    }

    /// How far the TextGrid has loaded.
    pub closed spec fn textgrid_state(&self) -> LoadLifeCycle<G> {
        self.textgrid
    }

    /// A project with neither file.
    pub fn new(uuid: uuid::Uuid) -> (r: Self)
        ensures
            r.id() == uuid,
            r.audio_file() is None,
            r.audio_state() is Absent,
            r.textgrid_file() is None,
            r.textgrid_state() is Absent,
    {
        ProjectState {
            uuid,
            audio_path: None,
            audio: LoadLifeCycle::Absent,
            textgrid_path: None,
            textgrid: LoadLifeCycle::Absent,
        }
    }

    /// The project's identifier.
    pub fn uuid(&self) -> (r: &uuid::Uuid)
        ensures
            *r == self.id(),
    {
        &self.uuid
    }

    /// The audio path, if one was given.
    pub fn audio_path(&self) -> (r: Option<&str>)
        ensures
            r is Some == self.audio_file() is Some,
            r is Some ==> r->Some_0@ == self.audio_file()->Some_0,
    {
        match &self.audio_path {
            Some(p) => Some(p.as_str()),
            None => None,
        }
    }

    /// How far the audio has loaded; a file that is not absent has its path.
    pub fn audio(&self) -> (r: &LoadLifeCycle<A>)
        ensures
            *r == self.audio_state(),
            !(r is Absent) ==> self.audio_file() is Some,
    {
        proof {
            use_type_invariant(self);
        }
        &self.audio
    }

    /// The TextGrid path, if one was given.
    pub fn textgrid_path(&self) -> (r: Option<&str>)
        ensures
            r is Some == self.textgrid_file() is Some,
            r is Some ==> r->Some_0@ == self.textgrid_file()->Some_0,
    {
        match &self.textgrid_path {
            Some(p) => Some(p.as_str()),
            None => None,
        }
    }

    /// How far the TextGrid has loaded; a file that is not absent has its
    /// path.
    pub fn textgrid(&self) -> (r: &LoadLifeCycle<G>)
        ensures
            *r == self.textgrid_state(),
            !(r is Absent) ==> self.textgrid_file() is Some,
    {
        proof {
            use_type_invariant(self);
        }
        &self.textgrid
    }

    /// Starts loading audio from a path: the path is kept and the audio is
    /// loading until its outcome arrives.
    pub fn load_audio(&mut self, path: String)
        ensures
            final(self).audio_file() == Some(path@),
            final(self).audio_state() is Loading,
            final(self).id() == old(self).id(),
            final(self).textgrid_file() == old(self).textgrid_file(),
            final(self).textgrid_state() == old(self).textgrid_state(),
    {
        proof {
            use_type_invariant(&*self);
        }
        self.audio_path = Some(path);
        self.audio = LoadLifeCycle::Loading;
    }

    /// Starts loading a TextGrid from a path.
    pub fn load_textgrid(&mut self, path: String)
        ensures
            final(self).textgrid_file() == Some(path@),
            final(self).textgrid_state() is Loading,
            final(self).id() == old(self).id(),
            final(self).audio_file() == old(self).audio_file(),
            final(self).audio_state() == old(self).audio_state(),
    {
        proof {
            use_type_invariant(&*self);
        }
        self.textgrid_path = Some(path);
        self.textgrid = LoadLifeCycle::Loading;
    }

    /// Forgets the audio.
    pub fn clear_audio(&mut self)
        ensures
            final(self).audio_file() is None,
            final(self).audio_state() is Absent,
            final(self).id() == old(self).id(),
            final(self).textgrid_file() == old(self).textgrid_file(),
            final(self).textgrid_state() == old(self).textgrid_state(),
    {
        proof {
            use_type_invariant(&*self);
        }
        self.audio = LoadLifeCycle::Absent;
        self.audio_path = None;
    }

    /// Forgets the TextGrid.
    pub fn clear_textgrid(&mut self)
        ensures
            final(self).textgrid_file() is None,
            final(self).textgrid_state() is Absent,
            final(self).id() == old(self).id(),
            final(self).audio_file() == old(self).audio_file(),
            final(self).audio_state() == old(self).audio_state(),
    {
        proof {
            use_type_invariant(&*self);
        }
        self.textgrid = LoadLifeCycle::Absent;
        self.textgrid_path = None;
    }

    /// Takes the outcome of loading the audio, if one arrived; says whether
    /// anything changed.
    pub fn update_audio(&mut self, outcome: Option<Result<A, String>>) -> (changed: bool)
        ensures
            (final(self).audio_state(), changed) == after_outcome(old(self).audio_state(), outcome),
            final(self).id() == old(self).id(),
            final(self).audio_file() == old(self).audio_file(),
            final(self).textgrid_file() == old(self).textgrid_file(),
            final(self).textgrid_state() == old(self).textgrid_state(),
    {
        proof {
            use_type_invariant(&*self);
        }
        let mut audio = LoadLifeCycle::Absent;
        std::mem::swap(&mut audio, &mut self.audio);
        let (next, changed) = take_outcome(audio, outcome);
        self.audio = next;
        changed
    }

    /// Takes the outcome of loading the TextGrid, if one arrived; says
    /// whether anything changed.
    pub fn update_textgrid(&mut self, outcome: Option<Result<G, String>>) -> (changed: bool)
        ensures
            (final(self).textgrid_state(), changed) == after_outcome(
                old(self).textgrid_state(),
                outcome,
            ),
            final(self).id() == old(self).id(),
            final(self).audio_file() == old(self).audio_file(),
            final(self).audio_state() == old(self).audio_state(),
            final(self).textgrid_file() == old(self).textgrid_file(),
    {
        proof {
            use_type_invariant(&*self);
        }
        let mut textgrid = LoadLifeCycle::Absent;
        std::mem::swap(&mut textgrid, &mut self.textgrid);
        let (next, changed) = take_outcome(textgrid, outcome);
        self.textgrid = next;
        changed
    }
}

/// A load's outcome is taken once: after it, the file no longer waits, and
/// a later outcome changes nothing.
pub proof fn law_outcome_taken_once<T>(
    c: LoadLifeCycle<T>,
    first: Option<Result<T, String>>,
    later: Option<Result<T, String>>,
)
    requires
        after_outcome(c, first).1,
    ensures
        !(after_outcome(c, first).0 is Loading),
        after_outcome(after_outcome(c, first).0, later) == (after_outcome(c, first).0, false),
{
}

} // verus!
