//! Script bookkeeping: the capped log shown in the scripting panel, the
//! registry of loaded scripts, and the kinds of commands scripts queue.
use vstd::prelude::*;
use std::collections::VecDeque;

verus! {

/// Most log lines kept.
pub const MAX_LOG_LINES: usize = 50;

/// Recent log lines, oldest first, at most `MAX_LOG_LINES` of them.
pub struct ScriptLog {
    lines: VecDeque<String>,
}

/// The log after appending `msg`: the oldest line is dropped first when
/// the log is full.
pub open spec fn spec_push_log(lines: Seq<String>, msg: String) -> Seq<String> {
    if lines.len() >= MAX_LOG_LINES {
        lines.drop_first().push(msg)
    } else {
        lines.push(msg)
    }
}

impl ScriptLog {
    /// The lines, oldest first.
    pub closed spec fn lines(&self) -> Seq<String> {
        self.lines@
    }

    /// An empty log.
    pub fn new() -> (l: Self)
        ensures
            l.lines() == Seq::<String>::empty(),
    {
        ScriptLog { lines: VecDeque::new() }
    }

    /// Append a line, dropping the oldest one when the log is full.
    pub fn push_log(&mut self, msg: String)
        ensures
            final(self).lines() == spec_push_log(old(self).lines(), msg),
    {
        if self.lines.len() >= MAX_LOG_LINES {
            let _ = self.lines.pop_front();
        }
        self.lines.push_back(msg);
    }

    /// Number of lines.
    pub fn len(&self) -> (n: usize)
        ensures
            n == self.lines().len(),
    {
        self.lines.len()
    }

    /// The lines, oldest first.
    pub fn to_vec(&self) -> (v: Vec<String>)
        ensures
            v@ == self.lines(),
    {
        let mut v: Vec<String> = Vec::new();
        let mut i: usize = 0;
        while i < self.lines.len()
            invariant
                i <= self.lines@.len(),
                v@ == self.lines@.take(i as int),
            decreases self.lines@.len() - i,
        {
            v.push(self.lines[i].clone());
            i = i + 1;
            assert(v@ =~= self.lines@.take(i as int));
        }
        assert(self.lines@.take(i as int) =~= self.lines@);
        v
    }
}

/// The log never holds more than `MAX_LOG_LINES` lines, and the newest line
/// is always the last one.
pub proof fn lemma_log_capped(lines: Seq<String>, msg: String)
    requires
        lines.len() <= MAX_LOG_LINES,
    ensures
        spec_push_log(lines, msg).len() <= MAX_LOG_LINES,
        spec_push_log(lines, msg).last() == msg,
{
}

/// Metadata of a loaded script (shown in the scripting panel).
#[derive(Debug, Clone)]
pub struct ScriptInfo {
    pub path: String,
    pub enabled: bool,
    pub last_error: Option<String>,
}

/// The scripts loaded so far, in load order, each path once.
pub struct ScriptRegistry {
    pub scripts: Vec<ScriptInfo>,
}

/// Index of the first script with path `p`.
pub open spec fn find_script(scripts: Seq<ScriptInfo>, p: Seq<char>) -> Option<int>
    decreases scripts.len(),
{
    if scripts.len() == 0 {
        None
    } else {
        match find_script(scripts.drop_last(), p) {
            Some(i) => Some(i),
            None => if scripts.last().path@ == p {
                Some(scripts.len() - 1)
            } else {
                None
            },
        }
    }
}

impl ScriptRegistry {
    /// No script loaded.
    pub fn new() -> (r: Self)
        ensures
            r.scripts@.len() == 0,
    {
        ScriptRegistry { scripts: Vec::new() }
    }

    /// Forget every script (a new scene's scripts are about to be loaded).
    pub fn clear(&mut self)
        ensures
            final(self).scripts@.len() == 0,
    {
        self.scripts.clear();
    }

    /// Record the outcome of loading the script at `path`: the entry for the
    /// path is updated if there is one, otherwise one is appended.  A
    /// successful load enables the script and clears its error; a failed
    /// one disables it and keeps the error.
    pub fn record_load(&mut self, path: &str, outcome: Result<(), String>)
        ensures
            match find_script(old(self).scripts@, path@) {
                Some(i) => final(self).scripts@.len() == old(self).scripts@.len()
                    && forall|k: int| 0 <= k < old(self).scripts@.len() && k != i
                        ==> #[trigger] final(self).scripts@[k] == old(self).scripts@[k],
                None => final(self).scripts@.len() == old(self).scripts@.len() + 1
                    && forall|k: int| 0 <= k < old(self).scripts@.len()
                        ==> #[trigger] final(self).scripts@[k] == old(self).scripts@[k],
            },
            ({
                let i = match find_script(old(self).scripts@, path@) {
                    Some(i) => i,
                    None => old(self).scripts@.len() as int,
                };
                let e = final(self).scripts@[i];
                &&& e.path@ == path@
                &&& e.enabled == (outcome is Ok)
                &&& match outcome {
                    Ok(_) => e.last_error is None,
                    Err(msg) => e.last_error == Some(msg),
                }
            }),
    {
        let (enabled, last_error) = match outcome {
            Ok(()) => (true, None),
            Err(msg) => (false, Some(msg)),
        };
        let target = path.to_owned();
        let mut i: usize = 0;
        while i < self.scripts.len()
            invariant
                i <= self.scripts@.len(),
                self.scripts@ == old(self).scripts@,
                target@ == path@,
                enabled == (outcome is Ok),
                match outcome {
                    Ok(_) => last_error is None,
                    Err(msg) => last_error == Some(msg),
                },
                find_script(self.scripts@.take(i as int), path@) is None,
            decreases self.scripts@.len() - i,
        {
            assert(self.scripts@.take(i + 1).drop_last() =~= self.scripts@.take(i as int));
            if self.scripts[i].path == target {
                proof {
                    lemma_find_extends(old(self).scripts@, path@, i as int + 1);
                }
                let info = ScriptInfo { path: target, enabled, last_error };
                self.scripts.set(i, info);
                return;
            }
            i = i + 1;
        }
        assert(self.scripts@.take(i as int) =~= self.scripts@);
        self.scripts.push(ScriptInfo { path: target, enabled, last_error });
    }
}

proof fn lemma_find_extends(s: Seq<ScriptInfo>, p: Seq<char>, k: int)
    requires
        0 < k <= s.len(),
        find_script(s.take(k - 1), p) is None,
        s[k - 1].path@ == p,
    ensures
        find_script(s, p) == Some(k - 1),
    decreases s.len() - k,
{
    assert(s.take(k).drop_last() =~= s.take(k - 1));
    if k < s.len() {
        lemma_find_prefix(s, p, k);
    } else {
        assert(s.take(k) =~= s);
    }
}

proof fn lemma_find_prefix(s: Seq<ScriptInfo>, p: Seq<char>, k: int)
    requires
        0 <= k <= s.len(),
        find_script(s.take(k), p) is Some,
    ensures
        find_script(s, p) == find_script(s.take(k), p),
    decreases s.len() - k,
{
    if k < s.len() {
        assert(s.take(k + 1).drop_last() =~= s.take(k));
        lemma_find_prefix(s, p, k + 1);
    } else {
        assert(s.take(k) =~= s);
    }
}

/// Kind of a queued script command, read from its `type` field.
#[derive(Debug, Clone, Copy, PartialEq, Eq, Structural)]
pub enum CommandKind {
    SpawnCube,
    Destroy,
    SetPosition,
    PlaySound,
    Log,
    /// A type the engine does not know (reported as a warning).
    Unknown,
    /// No type at all (ignored silently).
    Empty,
}

/// The kind named by a command's `type` string.
pub open spec fn spec_command_kind(t: Seq<char>) -> CommandKind {
    if t == "spawn_cube"@ {
        CommandKind::SpawnCube
    } else if t == "destroy"@ {
        CommandKind::Destroy
    } else if t == "set_position"@ {
        CommandKind::SetPosition
    } else if t == "play_sound"@ {
        CommandKind::PlaySound
    } else if t == "log"@ {
        CommandKind::Log
    } else if t.len() == 0 {
        CommandKind::Empty
    } else {
        CommandKind::Unknown
    }
}

/// Classify a queued command by its `type` field.
pub fn command_kind(t: &str) -> (k: CommandKind)
    ensures
        k == spec_command_kind(t@),
{
    let s = t.to_owned();
    if s == "spawn_cube".to_owned() {
        CommandKind::SpawnCube
    } else if s == "destroy".to_owned() {
        CommandKind::Destroy
    } else if s == "set_position".to_owned() {
        CommandKind::SetPosition
    } else if s == "play_sound".to_owned() {
        CommandKind::PlaySound
    } else if s == "log".to_owned() {
        CommandKind::Log
    } else if t.is_empty() {
        CommandKind::Empty
    } else {
        CommandKind::Unknown
    }
}

} // verus!
