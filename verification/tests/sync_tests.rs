use interstellar_writer_astro::sync::{
    credential_user, sync_start, sync_status_message, sync_step, SyncAction, SyncEvent, SyncStage,
};

fn finish(a: &SyncAction) -> Result<String, String> {
    match a {
        SyncAction::Finish(r) => r.clone(),
        _ => panic!("expected the end of the run"),
    }
}

#[test]
fn full_run_with_merge() {
    let (s, a) = sync_start("/repo", "Update", "src/content", "src/assets");
    assert!(matches!(a, SyncAction::Open(ref p) if p == "/repo"));
    let (s, a) = sync_step(&s, SyncEvent::Opened);
    match a {
        SyncAction::Commit { paths, message } => {
            assert_eq!(paths, vec!["src/content".to_string(), "src/assets".to_string()]);
            assert_eq!(message, "Update");
        },
        _ => panic!("expected a commit"),
    }
    let (s, a) = sync_step(&s, SyncEvent::Committed);
    assert!(matches!(a, SyncAction::Locate));
    let (s, a) = sync_step(&s, SyncEvent::Located { branch: None, remote_url: None });
    assert!(matches!(a, SyncAction::Fetch(ref b) if b == "main"));
    assert_eq!(s.remote_url, "desconocido");
    let (s, a) = sync_step(&s, SyncEvent::FetchFinished { error: Some("timeout 500".to_string()) });
    assert!(matches!(a, SyncAction::Analyse));
    let (s, a) = sync_step(&s, SyncEvent::Analysed { fetch_head: true, fast_forward: false, normal: true });
    assert!(matches!(a, SyncAction::Merge(ref m) if m == "Merge remote-tracking branch"));
    let (s, a) = sync_step(&s, SyncEvent::Integrated { conflicts: false });
    assert!(matches!(a, SyncAction::Push(ref r) if r == "refs/heads/main:refs/heads/main"));
    let (s, a) = sync_step(&s, SyncEvent::PushFinished { error: None });
    assert_eq!(finish(&a), Ok("✅ Sincronizado correctamente".to_string()));
    assert_eq!(s.stage, SyncStage::Finished);
}

#[test]
fn fast_forward_and_nothing_fetched() {
    let (s, _) = sync_start("/r", "m", "c", "a");
    let (s, _) = sync_step(&s, SyncEvent::Opened);
    let (s, _) = sync_step(&s, SyncEvent::Committed);
    let (s, _) = sync_step(&s, SyncEvent::Located { branch: Some("dev".to_string()), remote_url: Some("https://x/y.git".to_string()) });
    let (s, _) = sync_step(&s, SyncEvent::FetchFinished { error: None });
    let (s2, a) = sync_step(&s, SyncEvent::Analysed { fetch_head: true, fast_forward: true, normal: false });
    assert!(matches!(a, SyncAction::FastForward(ref r) if r == "refs/heads/dev"));
    assert_eq!(s2.stage, SyncStage::Integrating);
    let (_, a) = sync_step(&s, SyncEvent::Analysed { fetch_head: false, fast_forward: true, normal: true });
    assert!(matches!(a, SyncAction::Push(ref r) if r == "refs/heads/dev:refs/heads/dev"));
}

#[test]
fn failures_end_the_run_with_their_messages() {
    let (s, _) = sync_start("/mi/repo", "m", "c", "a");
    let (_, a) = sync_step(&s, SyncEvent::OpenFailed { not_owner: true, reason: "owner".to_string() });
    assert_eq!(
        finish(&a),
        Err("Error de seguridad: el repositorio no es de tu propiedad.\nEjecuta este comando en tu terminal:\ngit config --global --add safe.directory /mi/repo".to_string())
    );
    let (_, a) = sync_step(&s, SyncEvent::OpenFailed { not_owner: false, reason: "not found".to_string() });
    assert_eq!(finish(&a), Err("not found".to_string()));

    let (s, _) = sync_step(&s, SyncEvent::Opened);
    let (_, a) = sync_step(&s, SyncEvent::StepFailed("index locked".to_string()));
    assert_eq!(finish(&a), Err("index locked".to_string()));

    let (s, _) = sync_step(&s, SyncEvent::Committed);
    let (s, _) = sync_step(&s, SyncEvent::Located { branch: Some("main".to_string()), remote_url: Some("URL".to_string()) });
    let (_, a) = sync_step(&s, SyncEvent::FetchFinished { error: Some("status 403".to_string()) });
    assert_eq!(
        finish(&a),
        Err("Error 403 (Fetch): Acceso denegado a URL.\nVerifica que tu token tenga permisos de lectura y acceso al repositorio.".to_string())
    );

    let (s, _) = sync_step(&s, SyncEvent::FetchFinished { error: None });
    let (s, _) = sync_step(&s, SyncEvent::Analysed { fetch_head: true, fast_forward: false, normal: true });
    let (_, a) = sync_step(&s, SyncEvent::Integrated { conflicts: true });
    assert_eq!(
        finish(&a),
        Err("Conflictos de mezcla detectados. Por favor, resuélvelos manualmente en tu terminal.".to_string())
    );

    let (s, _) = sync_step(&s, SyncEvent::Integrated { conflicts: false });
    let (_, a) = sync_step(&s, SyncEvent::PushFinished { error: Some("HTTP 401".to_string()) });
    assert_eq!(
        finish(&a),
        Err("Error 401: No autorizado. Verifica que tu Token de GitHub sea correcto y no haya expirado.".to_string())
    );
    let (_, a) = sync_step(&s, SyncEvent::PushFinished { error: Some("403 forbidden".to_string()) });
    let msg = finish(&a).unwrap_err();
    assert!(msg.starts_with("Error 403: Acceso denegado al subir a URL.\nPosibles soluciones:"));
    assert!(msg.contains("el repositorio 'URL' esté incluido"));
    let (_, a) = sync_step(&s, SyncEvent::PushFinished { error: Some("other".to_string()) });
    assert_eq!(finish(&a), Err("other".to_string()));
}

#[test]
fn status_and_credentials() {
    assert_eq!(sync_status_message(&Ok("listo".to_string())), "listo");
    assert_eq!(sync_status_message(&Err("x".to_string())), "❌ Error en Git: x");
    assert_eq!(credential_user(Some("juan")), "juan");
    assert_eq!(credential_user(None), "x-access-token");
}
