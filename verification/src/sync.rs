//! The decisions of a GitHub synchronisation: commit, fetch, merge and push, as a state
//! machine. The caller performs each action on the repository and reports what
//! happened; the machine decides what comes next and how the run ends.

use vstd::prelude::*;
use crate::text;
use crate::text::{append_vec, chars_of, contains_vec, string_of};

verus! {

/// Where a synchronisation stands.
#[derive(Clone, Copy, Debug, PartialEq, Eq, Structural)]
pub enum SyncStage {
    /// Opening the repository.
    Opening,
    /// Staging the content and asset folders and committing them.
    Committing,
    /// Reading the current branch and the `origin` remote.
    Locating,
    /// Fetching the branch from `origin`.
    Fetching,
    /// Analysing what was fetched.
    Analysing,
    /// Bringing the fetched commits in (fast-forward or merge).
    Integrating,
    /// Pushing the branch to `origin`.
    Pushing,
    /// Done, successfully or not.
    Finished,
}

/// A synchronisation in progress.
pub struct SyncState {
    pub stage: SyncStage,
    pub repo_path: String,
    pub commit_message: String,
    pub content_dir: String,
    pub assets_dir: String,
    pub branch: String,
    pub remote_url: String,
}

/// What the caller reports after carrying out an action.
pub enum SyncEvent {
    /// The repository was opened.
    Opened,
    /// The repository could not be opened; `not_owner` when git refused it because
    /// another user owns it.
    OpenFailed { not_owner: bool, reason: String },
    /// A repository operation failed with the given error text.
    StepFailed(String),
    /// The folders were staged and committed.
    Committed,
    /// The branch name (`None` when HEAD has none) and the remote's URL (`None` when
    /// it has none).
    Located { branch: Option<String>, remote_url: Option<String> },
    /// The fetch ended, with its error text if it failed.
    FetchFinished { error: Option<String> },
    /// The merge analysis: whether `FETCH_HEAD` exists, and whether a fast-forward or
    /// a normal merge is possible.
    Analysed { fetch_head: bool, fast_forward: bool, normal: bool },
    /// The fetched commits were brought in; `conflicts` when the merge left conflicts
    /// (the merge state has then been cleaned up).
    Integrated { conflicts: bool },
    /// The push ended, with its error text if it failed.
    PushFinished { error: Option<String> },
}

/// What the caller does next.
pub enum SyncAction {
    /// Open the repository at the path.
    Open(String),
    /// Stage these folders and commit them with this message on top of HEAD.
    Commit { paths: Vec<String>, message: String },
    /// Read the current branch and the `origin` remote.
    Locate,
    /// Fetch this branch from `origin`, authenticating with the token.
    Fetch(String),
    /// Analyse `FETCH_HEAD` against HEAD.
    Analyse,
    /// Move this reference to the fetched commit, make it HEAD and check it out.
    FastForward(String),
    /// Merge the fetched commit and commit the merge with this message.
    Merge(String),
    /// Push with this refspec, authenticating with the token.
    Push(String),
    /// The run is over with this outcome.
    Finish(Result<String, String>),
}

/// The content of a synchronisation in progress.
pub struct SyncStateV {
    pub stage: SyncStage,
    pub repo_path: Seq<char>,
    pub commit_message: Seq<char>,
    pub content_dir: Seq<char>,
    pub assets_dir: Seq<char>,
    pub branch: Seq<char>,
    pub remote_url: Seq<char>,
}

/// The content of a report.
pub enum SyncEventV {
    Opened,
    OpenFailed(bool, Seq<char>),
    StepFailed(Seq<char>),
    Committed,
    Located(Option<Seq<char>>, Option<Seq<char>>),
    FetchFinished(Option<Seq<char>>),
    Analysed(bool, bool, bool),
    Integrated(bool),
    PushFinished(Option<Seq<char>>),
}

/// The content of an action.
pub enum SyncActionV {
    Open(Seq<char>),
    Commit(Seq<Seq<char>>, Seq<char>),
    Locate,
    Fetch(Seq<char>),
    Analyse,
    FastForward(Seq<char>),
    Merge(Seq<char>),
    Push(Seq<char>),
    Finish(Result<Seq<char>, Seq<char>>),
}

/// An optional string as its characters.
pub open spec fn opt_chars(o: Option<String>) -> Option<Seq<char>> {
    match o {
        Some(s) => Some(s@),
        None => None,
    }
}

impl View for SyncState {
    type V = SyncStateV;

    open spec fn view(&self) -> SyncStateV {
        SyncStateV {
            stage: self.stage,
            repo_path: self.repo_path@,
            commit_message: self.commit_message@,
            content_dir: self.content_dir@,
            assets_dir: self.assets_dir@,
            branch: self.branch@,
            remote_url: self.remote_url@,
        }
    }
}

impl View for SyncEvent {
    type V = SyncEventV;

    open spec fn view(&self) -> SyncEventV {
        match self {
            SyncEvent::Opened => SyncEventV::Opened,
            SyncEvent::OpenFailed { not_owner, reason } => SyncEventV::OpenFailed(*not_owner, reason@),
            SyncEvent::StepFailed(e) => SyncEventV::StepFailed(e@),
            SyncEvent::Committed => SyncEventV::Committed,
            SyncEvent::Located { branch, remote_url } => SyncEventV::Located(opt_chars(*branch), opt_chars(*remote_url)),
            SyncEvent::FetchFinished { error } => SyncEventV::FetchFinished(opt_chars(*error)),
            SyncEvent::Analysed { fetch_head, fast_forward, normal } => SyncEventV::Analysed(
                *fetch_head,
                *fast_forward,
                *normal,
            ),
            SyncEvent::Integrated { conflicts } => SyncEventV::Integrated(*conflicts),
            SyncEvent::PushFinished { error } => SyncEventV::PushFinished(opt_chars(*error)),
        }
    }
}

impl View for SyncAction {
    type V = SyncActionV;

    open spec fn view(&self) -> SyncActionV {
        match self {
            SyncAction::Open(p) => SyncActionV::Open(p@),
            SyncAction::Commit { paths, message } => SyncActionV::Commit(paths@.map_values(|p: String| p@), message@),
            SyncAction::Locate => SyncActionV::Locate,
            SyncAction::Fetch(b) => SyncActionV::Fetch(b@),
            SyncAction::Analyse => SyncActionV::Analyse,
            SyncAction::FastForward(r) => SyncActionV::FastForward(r@),
            SyncAction::Merge(m) => SyncActionV::Merge(m@),
            SyncAction::Push(r) => SyncActionV::Push(r@),
            SyncAction::Finish(res) => SyncActionV::Finish(
                match res {
                    Ok(m) => Ok(m@),
                    Err(e) => Err(e@),
                },
            ),
        }
    }
}

/// The refused-owner message, with the command that marks the repository as safe.
pub open spec fn owner_message(repo_path: Seq<char>) -> Seq<char> {
    "Error de seguridad: el repositorio no es de tu propiedad.\nEjecuta este comando en tu terminal:\ngit config --global --add safe.directory "@
        + repo_path
}

/// The message for a fetch refused with 403.
pub open spec fn fetch_denied_message(url: Seq<char>) -> Seq<char> {
    "Error 403 (Fetch): Acceso denegado a "@ + url
        + ".\nVerifica que tu token tenga permisos de lectura y acceso al repositorio."@
}

/// The message for a merge that left conflicts.
pub open spec fn conflict_message() -> Seq<char> {
    "Conflictos de mezcla detectados. Por favor, resuélvelos manualmente en tu terminal."@
}

/// The message for a push refused with 403.
pub open spec fn push_denied_message(url: Seq<char>) -> Seq<char> {
    "Error 403: Acceso denegado al subir a "@ + url
        + ".\nPosibles soluciones:\n1. Verifica que tu Token tenga el permiso 'repo' habilitado.\n2. Si usas un Fine-grained token, asegúrate de que el repositorio '"@
        + url
        + "' esté incluido en su acceso.\n3. Verifica si tu organización requiere autorizar el token para SSO.\n4. Asegúrate de que tu usuario tenga permisos de escritura en el repositorio."@
}

/// The message for a push refused with 401.
pub open spec fn unauthorized_message() -> Seq<char> {
    "Error 401: No autorizado. Verifica que tu Token de GitHub sea correcto y no haya expirado."@
}

/// The message of a successful run.
pub open spec fn synced_message() -> Seq<char> {
    "✅ Sincronizado correctamente"@
}

/// The refspec that pushes a branch to the branch of the same name.
pub open spec fn refspec(branch: Seq<char>) -> Seq<char> {
    "refs/heads/"@ + branch + ":refs/heads/"@ + branch
}

/// The report fits the stage: the one the stage's action produces, or a failure.
pub open spec fn expected(stage: SyncStage, e: SyncEventV) -> bool {
    match e {
        SyncEventV::StepFailed(_) => stage != SyncStage::Finished,
        SyncEventV::Opened | SyncEventV::OpenFailed(_, _) => stage == SyncStage::Opening,
        SyncEventV::Committed => stage == SyncStage::Committing,
        SyncEventV::Located(_, _) => stage == SyncStage::Locating,
        SyncEventV::FetchFinished(_) => stage == SyncStage::Fetching,
        SyncEventV::Analysed(_, _, _) => stage == SyncStage::Analysing,
        SyncEventV::Integrated(_) => stage == SyncStage::Integrating,
        SyncEventV::PushFinished(_) => stage == SyncStage::Pushing,
    }
}

/// The state moved to `stage`.
pub open spec fn at(s: SyncStateV, stage: SyncStage) -> SyncStateV {
    SyncStateV { stage, ..s }
}

/// The run over with `outcome`.
pub open spec fn finish(s: SyncStateV, outcome: Result<Seq<char>, Seq<char>>) -> (SyncStateV, SyncActionV) {
    (at(s, SyncStage::Finished), SyncActionV::Finish(outcome))
}

/// The push of the current branch.
pub open spec fn push_next(s: SyncStateV) -> (SyncStateV, SyncActionV) {
    (at(s, SyncStage::Pushing), SyncActionV::Push(refspec(s.branch)))
}

/// The next state and action after a report. Any failure ends the run with its error;
/// a repository owned by someone else ends it with the owner message; the branch
/// defaults to `main` and the remote URL to `desconocido`; a fetch error other than a
/// 403 is ignored; without `FETCH_HEAD`, or when there is nothing to merge, the branch
/// is pushed as it is; a conflicted merge ends the run; a push refused with 403 or 401
/// ends it with a message that says what to check.
pub open spec fn sync_next(s: SyncStateV, e: SyncEventV) -> (SyncStateV, SyncActionV) {
    match e {
        SyncEventV::StepFailed(err) => finish(s, Err(err)),
        SyncEventV::Opened => (
            at(s, SyncStage::Committing),
            SyncActionV::Commit(seq![s.content_dir, s.assets_dir], s.commit_message),
        ),
        SyncEventV::OpenFailed(not_owner, err) => if not_owner {
            finish(s, Err(owner_message(s.repo_path)))
        } else {
            finish(s, Err(err))
        },
        SyncEventV::Committed => (at(s, SyncStage::Locating), SyncActionV::Locate),
        SyncEventV::Located(branch, url) => {
            let b = match branch {
                Some(b) => b,
                None => "main"@,
            };
            let u = match url {
                Some(u) => u,
                None => "desconocido"@,
            };
            (SyncStateV { stage: SyncStage::Fetching, branch: b, remote_url: u, ..s }, SyncActionV::Fetch(b))
        },
        SyncEventV::FetchFinished(err) => match err {
            Some(t) => if text::contains_seq(t, "403"@) {
                finish(s, Err(fetch_denied_message(s.remote_url)))
            } else {
                (at(s, SyncStage::Analysing), SyncActionV::Analyse)
            },
            None => (at(s, SyncStage::Analysing), SyncActionV::Analyse),
        },
        SyncEventV::Analysed(fetch_head, fast_forward, normal) => if !fetch_head {
            push_next(s)
        } else if fast_forward {
            (at(s, SyncStage::Integrating), SyncActionV::FastForward("refs/heads/"@ + s.branch))
        } else if normal {
            (at(s, SyncStage::Integrating), SyncActionV::Merge("Merge remote-tracking branch"@))
        } else {
            push_next(s)
        },
        SyncEventV::Integrated(conflicts) => if conflicts {
            finish(s, Err(conflict_message()))
        } else {
            push_next(s)
        },
        SyncEventV::PushFinished(err) => match err {
            None => finish(s, Ok(synced_message())),
            Some(t) => if text::contains_seq(t, "403"@) {
                finish(s, Err(push_denied_message(s.remote_url)))
            } else if text::contains_seq(t, "401"@) {
                finish(s, Err(unauthorized_message()))
            } else {
                finish(s, Err(t))
            },
        },
    }
}

/// Starts a synchronisation of the repository at `repo_path`: the first action opens
/// it.
pub fn sync_start(repo_path: &str, commit_message: &str, content_dir: &str, assets_dir: &str) -> (r: (
    SyncState,
    SyncAction,
))
    ensures
        r.0@ == (SyncStateV {
            stage: SyncStage::Opening,
            repo_path: repo_path@,
            commit_message: commit_message@,
            content_dir: content_dir@,
            assets_dir: assets_dir@,
            branch: seq![],
            remote_url: seq![],
        }),
        r.1@ == SyncActionV::Open(repo_path@),
{
    (
        SyncState {
            stage: SyncStage::Opening,
            repo_path: String::from_str(repo_path),
            commit_message: String::from_str(commit_message),
            content_dir: String::from_str(content_dir),
            assets_dir: String::from_str(assets_dir),
            branch: String::new(),
            remote_url: String::new(),
        },
        SyncAction::Open(String::from_str(repo_path)),
    )
}

/// A copy of the state at another stage.
fn moved(s: &SyncState, stage: SyncStage) -> (r: SyncState)
    ensures
        r@ == at(s@, stage),
{
    SyncState {
        stage,
        repo_path: s.repo_path.clone(),
        commit_message: s.commit_message.clone(),
        content_dir: s.content_dir.clone(),
        assets_dir: s.assets_dir.clone(),
        branch: s.branch.clone(),
        remote_url: s.remote_url.clone(),
    }
}

/// The state after `s` and the push of its branch (see `push_next`).
fn push_step(s: &SyncState) -> (r: (SyncState, SyncAction))
    ensures
        r.0@ == push_next(s@).0,
        r.1@ == push_next(s@).1,
{
    let mut v = chars_of("refs/heads/");
    append_vec(&mut v, &chars_of(s.branch.as_str()));
    append_vec(&mut v, &chars_of(":refs/heads/"));
    append_vec(&mut v, &chars_of(s.branch.as_str()));
    (moved(s, SyncStage::Pushing), SyncAction::Push(string_of(&v)))
}

/// The end of the run with `outcome`.
fn finish_step(s: &SyncState, outcome: Result<String, String>) -> (r: (SyncState, SyncAction))
    ensures
        r.0@ == at(s@, SyncStage::Finished),
        r.1@ == SyncActionV::Finish(
            match outcome {
                Ok(m) => Ok(m@),
                Err(e) => Err(e@),
            },
        ),
{
    (moved(s, SyncStage::Finished), SyncAction::Finish(outcome))
}

/// The next state and action after a report (see `sync_next`).
pub fn sync_step(s: &SyncState, e: SyncEvent) -> (r: (SyncState, SyncAction))
    requires
        expected(s.stage, e@),
    ensures
        r.0@ == sync_next(s@, e@).0,
        r.1@ == sync_next(s@, e@).1,
{
    match e {
        SyncEvent::StepFailed(err) => finish_step(s, Err(err)),
        SyncEvent::Opened => {
            let paths = vec![s.content_dir.clone(), s.assets_dir.clone()];
            assert(paths@.map_values(|p: String| p@) =~= seq![s.content_dir@, s.assets_dir@]);
            (
                moved(s, SyncStage::Committing),
                SyncAction::Commit { paths, message: s.commit_message.clone() },
            )
        },
        SyncEvent::OpenFailed { not_owner, reason } => {
            if not_owner {
                let mut m = chars_of(
                    "Error de seguridad: el repositorio no es de tu propiedad.\nEjecuta este comando en tu terminal:\ngit config --global --add safe.directory ",
                );
                append_vec(&mut m, &chars_of(s.repo_path.as_str()));
                finish_step(s, Err(string_of(&m)))
            } else {
                finish_step(s, Err(reason))
            }
        },
        SyncEvent::Committed => (moved(s, SyncStage::Locating), SyncAction::Locate),
        SyncEvent::Located { branch, remote_url } => {
            let b = match branch {
                Some(b) => b,
                None => String::from_str("main"),
            };
            let u = match remote_url {
                Some(u) => u,
                None => String::from_str("desconocido"),
            };
            let st = SyncState {
                stage: SyncStage::Fetching,
                repo_path: s.repo_path.clone(),
                commit_message: s.commit_message.clone(),
                content_dir: s.content_dir.clone(),
                assets_dir: s.assets_dir.clone(),
                branch: b.clone(),
                remote_url: u,
            };
            (st, SyncAction::Fetch(b))
        },
        SyncEvent::FetchFinished { error } => match error {
            Some(t) => {
                if contains_vec(&chars_of(t.as_str()), &chars_of("403")) {
                    let mut m = chars_of("Error 403 (Fetch): Acceso denegado a ");
                    append_vec(&mut m, &chars_of(s.remote_url.as_str()));
                    append_vec(
                        &mut m,
                        &chars_of(".\nVerifica que tu token tenga permisos de lectura y acceso al repositorio."),
                    );
                    finish_step(s, Err(string_of(&m)))
                } else {
                    (moved(s, SyncStage::Analysing), SyncAction::Analyse)
                }
            },
            None => (moved(s, SyncStage::Analysing), SyncAction::Analyse),
        },
        SyncEvent::Analysed { fetch_head, fast_forward, normal } => {
            if !fetch_head {
                push_step(s)
            } else if fast_forward {
                let mut r = chars_of("refs/heads/");
                append_vec(&mut r, &chars_of(s.branch.as_str()));
                (moved(s, SyncStage::Integrating), SyncAction::FastForward(string_of(&r)))
            } else if normal {
                (
                    moved(s, SyncStage::Integrating),
                    SyncAction::Merge(String::from_str("Merge remote-tracking branch")),
                )
            } else {
                push_step(s)
            }
        },
        SyncEvent::Integrated { conflicts } => {
            if conflicts {
                finish_step(
                    s,
                    Err(
                        String::from_str(
                            "Conflictos de mezcla detectados. Por favor, resuélvelos manualmente en tu terminal.",
                        ),
                    ),
                )
            } else {
                push_step(s)
            }
        },
        SyncEvent::PushFinished { error } => match error {
            None => finish_step(s, Ok(String::from_str("✅ Sincronizado correctamente"))),
            Some(t) => {
                let tv = chars_of(t.as_str());
                if contains_vec(&tv, &chars_of("403")) {
                    let mut m = chars_of("Error 403: Acceso denegado al subir a ");
                    append_vec(&mut m, &chars_of(s.remote_url.as_str()));
                    append_vec(
                        &mut m,
                        &chars_of(
                            ".\nPosibles soluciones:\n1. Verifica que tu Token tenga el permiso 'repo' habilitado.\n2. Si usas un Fine-grained token, asegúrate de que el repositorio '",
                        ),
                    );
                    append_vec(&mut m, &chars_of(s.remote_url.as_str()));
                    append_vec(
                        &mut m,
                        &chars_of(
                            "' esté incluido en su acceso.\n3. Verifica si tu organización requiere autorizar el token para SSO.\n4. Asegúrate de que tu usuario tenga permisos de escritura en el repositorio.",
                        ),
                    );
                    finish_step(s, Err(string_of(&m)))
                } else if contains_vec(&tv, &chars_of("401")) {
                    finish_step(
                        s,
                        Err(
                            String::from_str(
                                "Error 401: No autorizado. Verifica que tu Token de GitHub sea correcto y no haya expirado.",
                            ),
                        ),
                    )
                } else {
                    finish_step(s, Err(t))
                }
            },
        },
    }
}

/// The user name offered with the token: the one in the remote URL, or
/// `x-access-token`.
pub fn credential_user(username_from_url: Option<&str>) -> (r: String)
    ensures
        r@ == match username_from_url {
            Some(u) => u@,
            None => "x-access-token"@,
        },
{
    match username_from_url {
        Some(u) => String::from_str(u),
        None => String::from_str("x-access-token"),
    }
}

/// The status line after a run: its message, or the error after `❌ Error en Git: `.
pub fn sync_status_message(outcome: &Result<String, String>) -> (r: String)
    ensures
        r@ == match outcome {
            Ok(m) => m@,
            Err(e) => "❌ Error en Git: "@ + e@,
        },
{
    match outcome {
        Ok(m) => m.clone(),
        Err(e) => {
            let mut v = chars_of("❌ Error en Git: ");
            append_vec(&mut v, &chars_of(e.as_str()));
            string_of(&v)
        },
    }
}

} // verus!

verus! {

/// A run ends exactly when the machine says how it ends, and it ends in success only
/// after a push that reported no error.
pub proof fn law_sync_outcome(s: SyncStateV, e: SyncEventV)
    ensures
        (sync_next(s, e).1 is Finish) <==> sync_next(s, e).0.stage == SyncStage::Finished,
        sync_next(s, e).1 matches SyncActionV::Finish(Ok(m)) ==> e == SyncEventV::PushFinished(None) && m
            == synced_message(),
        e is StepFailed ==> sync_next(s, e).1 == SyncActionV::Finish(Err(e->StepFailed_0)),
{
}

/// Every push sends the current branch to the branch of the same name.
pub proof fn law_sync_pushes_current_branch(s: SyncStateV, e: SyncEventV)
    ensures
        sync_next(s, e).1 matches SyncActionV::Push(r) ==> r == refspec(sync_next(s, e).0.branch),
{
}

/// When the analysis finds no `FETCH_HEAD`, or finds one with neither a fast-forward
/// nor a normal merge possible (nothing new to take), the run goes on by pushing the
/// current branch to the branch of the same name; it does not end there. The analysis
/// never ends a run: a merge conflict is reported only after an integration that left
/// conflicts, and such an integration always ends the run with the conflict message.
pub proof fn law_sync_push_after_analysis(s: SyncStateV, fetch_head: bool, fast_forward: bool, normal: bool)
    ensures
        (!fetch_head || (!fast_forward && !normal)) ==> sync_next(
            s,
            SyncEventV::Analysed(fetch_head, fast_forward, normal),
        ) == (SyncStateV { stage: SyncStage::Pushing, ..s }, SyncActionV::Push(
            "refs/heads/"@ + s.branch + ":refs/heads/"@ + s.branch,
        )),
        sync_next(s, SyncEventV::Analysed(fetch_head, fast_forward, normal)).0.stage != SyncStage::Finished,
        !(sync_next(s, SyncEventV::Analysed(fetch_head, fast_forward, normal)).1 is Finish),
        sync_next(s, SyncEventV::Integrated(true)) == (SyncStateV { stage: SyncStage::Finished, ..s }, SyncActionV::Finish(
            Err("Conflictos de mezcla detectados. Por favor, resuélvelos manualmente en tu terminal."@),
        )),
        sync_next(s, SyncEventV::Integrated(false)).1 == SyncActionV::Push(
            "refs/heads/"@ + s.branch + ":refs/heads/"@ + s.branch,
        ),
{
}

} // verus!
