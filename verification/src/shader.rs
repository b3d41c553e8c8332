use vstd::prelude::*;

verus! {

/// Which pipeline a vertex/fragment shader pair belongs to.
#[derive(Debug, Clone, Copy, PartialEq, Eq, Structural)]
pub enum ShaderTarget {
    /// `triangle.vert` + `triangle.frag`
    Main,
    /// `shadow.vert` + `shadow.frag`
    Shadow,
    /// `skybox.vert` + `skybox.frag`
    Skybox,
}

/// File name of the vertex shader of a target.
pub open spec fn spec_vert_name(t: ShaderTarget) -> Seq<char> {
    match t {
        ShaderTarget::Main => "triangle.vert"@,
        ShaderTarget::Shadow => "shadow.vert"@,
        ShaderTarget::Skybox => "skybox.vert"@,
    }
}

/// File name of the fragment shader of a target.
pub open spec fn spec_frag_name(t: ShaderTarget) -> Seq<char> {
    match t {
        ShaderTarget::Main => "triangle.frag"@,
        ShaderTarget::Shadow => "shadow.frag"@,
        ShaderTarget::Skybox => "skybox.frag"@,
    }
}

/// The target whose vertex or fragment shader carries the file name `name`.
pub open spec fn spec_from_filename(name: Seq<char>) -> Option<ShaderTarget> {
    if name == "triangle.vert"@ || name == "triangle.frag"@ {
        Some(ShaderTarget::Main)
    } else if name == "shadow.vert"@ || name == "shadow.frag"@ {
        Some(ShaderTarget::Shadow)
    } else if name == "skybox.vert"@ || name == "skybox.frag"@ {
        Some(ShaderTarget::Skybox)
    } else {
        None
    }
}

/// Equality of two string slices by their characters.
fn str_eq(a: &str, b: &str) -> (r: bool)
    ensures
        r == (a@ == b@),
{
    let x = a.to_owned();
    let y = b.to_owned();
    x == y
}

impl ShaderTarget {
    /// File name of this target's vertex shader.
    pub fn vert_name(self) -> (r: &'static str)
        ensures
            r@ == spec_vert_name(self),
    {
        match self {
            ShaderTarget::Main => "triangle.vert",
            ShaderTarget::Shadow => "shadow.vert",
            ShaderTarget::Skybox => "skybox.vert",
        }
    }

    /// File name of this target's fragment shader.
    pub fn frag_name(self) -> (r: &'static str)
        ensures
            r@ == spec_frag_name(self),
    {
        match self {
            ShaderTarget::Main => "triangle.frag",
            ShaderTarget::Shadow => "shadow.frag",
            ShaderTarget::Skybox => "skybox.frag",
        }
    }

    /// Map a shader file name (e.g. `"triangle.frag"`) to its target.
    pub fn from_filename(name: &str) -> (r: Option<ShaderTarget>)
        ensures
            r == spec_from_filename(name@),
    {
        if str_eq(name, "triangle.vert") || str_eq(name, "triangle.frag") {
            Some(ShaderTarget::Main)
        } else if str_eq(name, "shadow.vert") || str_eq(name, "shadow.frag") {
            Some(ShaderTarget::Shadow)
        } else if str_eq(name, "skybox.vert") || str_eq(name, "skybox.frag") {
            Some(ShaderTarget::Skybox)
        } else {
            None
        }
    }
}

/// A shader's file name maps back to the target it belongs to: for every
/// target, both its vertex and its fragment file name are recognised as that
/// target.
pub proof fn lemma_filename_round_trip(t: ShaderTarget)
    ensures
        spec_from_filename(spec_vert_name(t)) == Some(t),
        spec_from_filename(spec_frag_name(t)) == Some(t),
{
    reveal_strlit("triangle.vert");
    reveal_strlit("triangle.frag");
    reveal_strlit("shadow.vert");
    reveal_strlit("shadow.frag");
    reveal_strlit("skybox.vert");
    reveal_strlit("skybox.frag");
    // The three name families differ in their first character and the two
    // members of a family differ in their last one.
    assert("shadow.vert"@[0] != "triangle.vert"@[0]);
    assert("shadow.vert"@[0] != "triangle.frag"@[0]);
    assert("shadow.frag"@[0] != "triangle.vert"@[0]);
    assert("shadow.frag"@[0] != "triangle.frag"@[0]);
    assert("skybox.vert"@[0] != "triangle.vert"@[0]);
    assert("skybox.vert"@[0] != "triangle.frag"@[0]);
    assert("skybox.frag"@[0] != "triangle.vert"@[0]);
    assert("skybox.frag"@[0] != "triangle.frag"@[0]);
    assert("skybox.vert"@[1] != "shadow.vert"@[1]);
    assert("skybox.vert"@[1] != "shadow.frag"@[1]);
    assert("skybox.frag"@[1] != "shadow.vert"@[1]);
    assert("skybox.frag"@[1] != "shadow.frag"@[1]);
}

/// Each pipeline is built from its own pair of files: the main pipeline
/// from `triangle.vert`/`triangle.frag`, the shadow pipeline from
/// `shadow.vert`/`shadow.frag` and the skybox pipeline from
/// `skybox.vert`/`skybox.frag`; and a change to any of these files is
/// attributed to the pipeline built from it.
pub proof fn lemma_shader_file_names()
    ensures
        spec_vert_name(ShaderTarget::Main) == "triangle.vert"@,
        spec_frag_name(ShaderTarget::Main) == "triangle.frag"@,
        spec_vert_name(ShaderTarget::Shadow) == "shadow.vert"@,
        spec_frag_name(ShaderTarget::Shadow) == "shadow.frag"@,
        spec_vert_name(ShaderTarget::Skybox) == "skybox.vert"@,
        spec_frag_name(ShaderTarget::Skybox) == "skybox.frag"@,
        spec_from_filename("triangle.vert"@) == Some(ShaderTarget::Main),
        spec_from_filename("triangle.frag"@) == Some(ShaderTarget::Main),
        spec_from_filename("shadow.vert"@) == Some(ShaderTarget::Shadow),
        spec_from_filename("shadow.frag"@) == Some(ShaderTarget::Shadow),
        spec_from_filename("skybox.vert"@) == Some(ShaderTarget::Skybox),
        spec_from_filename("skybox.frag"@) == Some(ShaderTarget::Skybox),
{
    lemma_filename_round_trip(ShaderTarget::Main);
    lemma_filename_round_trip(ShaderTarget::Shadow);
    lemma_filename_round_trip(ShaderTarget::Skybox);
}

/// Kind of a file-system change notification.
#[derive(Debug, Clone, Copy, PartialEq, Eq, Structural)]
pub enum FileEventKind {
    Create,
    Modify,
    Remove,
    /// Access and anything else: ignored.
    Other,
}

/// One changed path of a notification, by its file name.
#[derive(Debug, Clone)]
pub struct FileEvent {
    pub kind: FileEventKind,
    pub file_name: String,
}

/// Some create, modify or remove event names a shader file of `t`.
pub open spec fn touched(events: Seq<FileEvent>, t: ShaderTarget) -> bool {
    exists|i: int|
        0 <= i < events.len() && events[i].kind != FileEventKind::Other && spec_from_filename(
            #[trigger] events[i].file_name@,
        ) == Some(t)
}

/// The targets to rebuild, each once, in the fixed order main, shadow,
/// skybox.
pub open spec fn spec_changed_targets(events: Seq<FileEvent>) -> Seq<ShaderTarget> {
    let main = if touched(events, ShaderTarget::Main) {
        seq![ShaderTarget::Main]
    } else {
        Seq::empty()
    };
    let shadow = if touched(events, ShaderTarget::Shadow) {
        seq![ShaderTarget::Shadow]
    } else {
        Seq::empty()
    };
    let skybox = if touched(events, ShaderTarget::Skybox) {
        seq![ShaderTarget::Skybox]
    } else {
        Seq::empty()
    };
    main + shadow + skybox
}

/// The shader targets touched by a batch of file events (creations,
/// modifications and removals of their files), each once, in the order in
/// which they are rebuilt.
pub fn changed_targets(events: &Vec<FileEvent>) -> (r: Vec<ShaderTarget>)
    ensures
        r@ == spec_changed_targets(events@),
{
    let mut main = false;
    let mut shadow = false;
    let mut skybox = false;
    let mut i: usize = 0;
    while i < events.len()
        invariant
            i <= events@.len(),
            main == touched(events@.take(i as int), ShaderTarget::Main),
            shadow == touched(events@.take(i as int), ShaderTarget::Shadow),
            skybox == touched(events@.take(i as int), ShaderTarget::Skybox),
        decreases events@.len() - i,
    {
        let ghost prev = events@.take(i as int);
        let ghost next = events@.take(i + 1);
        let e = &events[i];
        let relevant = match e.kind {
            FileEventKind::Other => false,
            _ => true,
        };
        let t = ShaderTarget::from_filename(e.file_name.as_str());
        proof {
            assert forall|u: ShaderTarget| #[trigger] touched(next, u) == (touched(prev, u) || (
            e.kind != FileEventKind::Other && spec_from_filename(e.file_name@) == Some(u))) by {
                if touched(prev, u) {
                    let w = choose|w: int|
                        0 <= w < prev.len() && prev[w].kind != FileEventKind::Other
                            && spec_from_filename(#[trigger] prev[w].file_name@) == Some(u);
                    assert(next[w] == prev[w]);
                }
                if touched(next, u) {
                    let w = choose|w: int|
                        0 <= w < next.len() && next[w].kind != FileEventKind::Other
                            && spec_from_filename(#[trigger] next[w].file_name@) == Some(u);
                    if w < i {
                        assert(prev[w] == next[w]);
                    }
                }
                if e.kind != FileEventKind::Other && spec_from_filename(e.file_name@) == Some(u) {
                    assert(next[i as int] == *e);
                }
            }
        }
        if relevant {
            match t {
                Some(ShaderTarget::Main) => {
                    main = true;
                },
                Some(ShaderTarget::Shadow) => {
                    shadow = true;
                },
                Some(ShaderTarget::Skybox) => {
                    skybox = true;
                },
                None => {},
            }
        }
        i = i + 1;
    }
    proof {
        assert(events@.take(i as int) =~= events@);
    }
    let mut r: Vec<ShaderTarget> = Vec::new();
    if main {
        r.push(ShaderTarget::Main);
    }
    if shadow {
        r.push(ShaderTarget::Shadow);
    }
    if skybox {
        r.push(ShaderTarget::Skybox);
    }
    assert(r@ =~= spec_changed_targets(events@));
    r
}

/// Most lines the shader reload log keeps.
pub const RELOAD_LOG_LINES: usize = 5;

/// The reload log after appending `msgs`: only its newest
/// `RELOAD_LOG_LINES` lines stay, oldest first.
pub open spec fn spec_log_reloads(log: Seq<String>, msgs: Seq<String>) -> Seq<String> {
    let all = log + msgs;
    if all.len() > RELOAD_LOG_LINES {
        all.skip(all.len() - RELOAD_LOG_LINES)
    } else {
        all
    }
}

/// Append the messages of one reload check to the log and drop its oldest
/// lines beyond `RELOAD_LOG_LINES`.
pub fn log_reloads(log: &mut Vec<String>, msgs: Vec<String>)
    requires
        old(log)@.len() + msgs@.len() <= usize::MAX,
    ensures
        final(log)@ == spec_log_reloads(old(log)@, msgs@),
{
    let ghost all = old(log)@ + msgs@;
    let mut rest = msgs;
    log.append(&mut rest);
    assert(log@ =~= all);
    let ghost mut dropped: int = 0;
    while log.len() > RELOAD_LOG_LINES
        invariant
            0 <= dropped <= all.len(),
            log@ == all.skip(dropped),
            log@.len() >= RELOAD_LOG_LINES || dropped == 0,
        decreases log@.len(),
    {
        log.remove(0);
        proof {
            dropped = dropped + 1;
        }
        assert(log@ =~= all.skip(dropped));
    }
    assert(log@ =~= spec_log_reloads(old(log)@, msgs@)) by {
        if dropped == 0 {
            assert(all.skip(0) =~= all);
        }
    }
}

/// The reload log never holds more than `RELOAD_LOG_LINES` lines, and its
/// newest line is the last message appended.
pub proof fn lemma_reload_log_capped(log: Seq<String>, msgs: Seq<String>)
    ensures
        spec_log_reloads(log, msgs).len() <= RELOAD_LOG_LINES,
        spec_log_reloads(log, msgs).len() == if log.len() + msgs.len() > RELOAD_LOG_LINES {
            RELOAD_LOG_LINES as int
        } else {
            (log.len() + msgs.len()) as int
        },
        msgs.len() > 0 ==> spec_log_reloads(log, msgs).last() == msgs.last(),
{
}

} // verus!
