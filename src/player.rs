use vstd::prelude::*;
use vstd::string::*;

verus! {

/// Why a playback request failed.
#[derive(Debug, Clone, PartialEq, Eq)]
pub enum PlayerError {
    /// The file to load does not exist.
    FileNotFound(String),
    /// Play was asked for before any file was loaded.
    NoFileLoaded,
    /// None of the candidate players could be started.
    NoPlayerAvailable,
}

/// Where a session stands.
#[derive(Debug, Clone, Copy, PartialEq, Eq, Structural)]
pub enum PlaybackState {
    /// No file loaded.
    Idle,
    /// A file loaded, nothing playing.
    Loaded,
    /// A player process supervised for the loaded file.
    Playing,
}

/// What the supervisor must do to the player process it holds.
#[derive(Debug, Clone, Copy, PartialEq, Eq, Structural)]
pub enum ProcessAction {
    /// Leave it as it is (there may be none).
    Keep,
    /// Terminate it and drop its handle.
    Terminate,
}

/// An external player to start: the program and its arguments.
#[derive(Debug, Clone)]
pub struct SpawnCommand {
    pub program: String,
    pub args: Vec<String>,
}

/// The programs tried, in order, to play a file.
pub open spec fn candidate_program(i: int) -> Option<Seq<char>> {
    if i == 0 {
        Some("mpv"@)
    } else if i == 1 {
        Some("vlc"@)
    } else if i == 2 {
        Some("ffplay"@)
    } else {
        None
    }
}

/// The arguments every candidate is given: audio only, no terminal, the file.
pub open spec fn player_args(file: Seq<char>) -> Seq<Seq<char>> {
    seq!["--no-video"@, "--no-terminal"@, file]
}

/// The decisions of a playback session that supervises at most one external
/// player process. The process itself is held by the caller, which performs
/// the `ProcessAction`s returned here.
#[derive(Debug, Clone)]
pub struct MusicPlayer {
    current_file: Option<String>,
    is_playing: bool,
}

/// The value of a session: the loaded file and the playing flag.
pub struct PlayerView {
    pub current_file: Option<Seq<char>>,
    pub playing: bool,
}

impl View for MusicPlayer {
    type V = PlayerView;

    closed spec fn view(&self) -> PlayerView {
        PlayerView {
            current_file: crate::song::opt_text(self.current_file),
            playing: self.is_playing,
        }
    }
}

/// The state a session value is in.
pub open spec fn state_of(v: PlayerView) -> PlaybackState {
    if v.current_file is None {
        PlaybackState::Idle
    } else if v.playing {
        PlaybackState::Playing
    } else {
        PlaybackState::Loaded
    }
}

/// What stopping asks of the caller: terminate the process when one plays.
pub open spec fn stop_action(v: PlayerView) -> ProcessAction {
    if v.playing {
        ProcessAction::Terminate
    } else {
        ProcessAction::Keep
    }
}

impl MusicPlayer {
    /// The session's invariant: it plays only a loaded file.
    pub open spec fn wf(&self) -> bool {
        self@.playing ==> self@.current_file is Some
    }

    pub fn new() -> (r: MusicPlayer)
        ensures
            r.wf(),
            r@.current_file is None,
            !r@.playing,
    {
        MusicPlayer { current_file: None, is_playing: false }
    }

    /// Loads `file_path`, whose existence on disk is `exists`. A missing file
    /// fails and changes nothing. Otherwise the file becomes current and
    /// nothing plays; a process that was playing must be terminated.
    pub fn load_file(&mut self, file_path: &str, exists: bool) -> (r: Result<
        ProcessAction,
        PlayerError,
    >)
        requires
            old(self).wf(),
        ensures
            final(self).wf(),
            !exists ==> (r matches Err(PlayerError::FileNotFound(p)) && p@ == file_path@),
            !exists ==> final(self)@ == old(self)@,
            exists ==> r == Ok::<ProcessAction, PlayerError>(stop_action(old(self)@)),
            exists ==> final(self)@.current_file == Some(file_path@) && !final(self)@.playing,
    {
        if !exists {
            return Err(PlayerError::FileNotFound(file_path.to_owned()));
        }
        let action = self.stop();
        self.current_file = Some(file_path.to_owned());
        Ok(action)
    }

    /// Starts a play request. Without a loaded file it fails and changes
    /// nothing. Otherwise it returns the file to hand to a player and what to
    /// do first with a process already playing, which it counts as stopped.
    pub fn play(&mut self) -> (r: Result<(ProcessAction, String), PlayerError>)
        requires
            old(self).wf(),
        ensures
            final(self).wf(),
            old(self)@.current_file is None ==> r is Err && r->Err_0 == PlayerError::NoFileLoaded,
            old(self)@.current_file is None ==> final(self)@ == old(self)@,
            old(self)@.current_file matches Some(f) ==> (r matches Ok(p) && p.0 == stop_action(
                old(self)@,
            ) && p.1@ == f),
            old(self)@.current_file is Some ==> final(self)@.current_file == old(self)@.current_file
                && !final(self)@.playing,
    {
        match &self.current_file {
            None => Err(PlayerError::NoFileLoaded),
            Some(f) => {
                let file = f.clone();
                let action = self.stop();
                Ok((action, file))
            },
        }
    }

    /// The command of the `attempt`-th candidate player for `file`, or `None`
    /// once all three have been tried.
    pub fn spawn_command(file: &str, attempt: usize) -> (r: Option<SpawnCommand>)
        ensures
            candidate_program(attempt as int) is None <==> r is None,
            r matches Some(c) ==> Some(c.program@) == candidate_program(attempt as int)
                && c.args@.map_values(|a: String| a@) == player_args(file@),
    {
        let program = if attempt == 0 {
            String::from_str("mpv")
        } else if attempt == 1 {
            String::from_str("vlc")
        } else if attempt == 2 {
            String::from_str("ffplay")
        } else {
            return None;
        };
        let mut args: Vec<String> = Vec::new();
        args.push(String::from_str("--no-video"));
        args.push(String::from_str("--no-terminal"));
        args.push(file.to_owned());
        assert(args@.map_values(|a: String| a@) =~= player_args(file@));
        Some(SpawnCommand { program, args })
    }

    /// Ends a play request begun by `play`: with a player started the
    /// session plays; with none it fails with `NoPlayerAvailable` and stays loaded.
    pub fn finish_play(&mut self, spawned: bool) -> (r: Result<(), PlayerError>)
        requires
            old(self).wf(),
            old(self)@.current_file is Some,
        ensures
            final(self).wf(),
            final(self)@.current_file == old(self)@.current_file,
            spawned ==> r is Ok && final(self)@.playing,
            !spawned ==> r == Err::<(), PlayerError>(PlayerError::NoPlayerAvailable),
            !spawned ==> !final(self)@.playing,
    {
        if spawned {
            self.is_playing = true;
            Ok(())
        } else {
            self.is_playing = false;
            Err(PlayerError::NoPlayerAvailable)
        }
    }

    /// There is no resuming: pausing stops.
    pub fn pause(&mut self) -> (r: ProcessAction)
        requires
            old(self).wf(),
        ensures
            final(self).wf(),
            r == stop_action(old(self)@),
            final(self)@.current_file == old(self)@.current_file,
            !final(self)@.playing,
    {
        self.stop()
    }

    /// Stops playing; the process, if one plays, must be terminated. Stopping
    /// a stopped session changes nothing.
    pub fn stop(&mut self) -> (r: ProcessAction)
        requires
            old(self).wf(),
        ensures
            final(self).wf(),
            r == stop_action(old(self)@),
            final(self)@.current_file == old(self)@.current_file,
            !final(self)@.playing,
    {
        let r = if self.is_playing {
            ProcessAction::Terminate
        } else {
            ProcessAction::Keep
        };
        self.is_playing = false;
        r
    }

    /// The playing flag as last set; it is not checked against the process.
    pub fn is_playing(&self) -> (r: bool)
        ensures
            r == self@.playing,
    {
        self.is_playing
    }

    pub fn current_file(&self) -> (r: Option<&String>)
        ensures
            match r {
                Some(f) => self@.current_file == Some(f@),
                None => self@.current_file is None,
            },
    {
        match &self.current_file {
            Some(f) => Some(f),
            None => None,
        }
    }

    /// Idle, Loaded or Playing.
    pub fn state(&self) -> (r: PlaybackState)
        ensures
            r == state_of(self@),
    {
        if self.current_file.is_none() {
            PlaybackState::Idle
        } else if self.is_playing {
            PlaybackState::Playing
        } else {
            PlaybackState::Loaded
        }
    }
}

} // verus!
