use pawchat_kv::server::{
    authentifier, chemin_db, erreur, garder, gerer_surcharge, health, limite_concurrence, port,
    rate_limit_check, rate_limit_check_at, revocation_get, revocation_set, secret_depuis_env,
    secret_valide, verifier_requete, Body, Reply, VarError, LIMITE_CONCURRENCE_DEFAUT, PORT_DEFAUT,
    WINDOW_SECS_MAX,
};
use pawchat_kv::{KvError, RateLimiter, RevocationCache};

const SECRET_TEST: &str = "secret-de-test";

fn allowed(reply: &Reply) -> bool {
    assert_eq!(reply.status, 200);
    match reply.body {
        Body::Allowed(allowed) => allowed,
        _ => panic!("unexpected {reply:?}"),
    }
}

fn version(reply: &Reply) -> Option<u32> {
    assert_eq!(reply.status, 200);
    match reply.body {
        Body::Version(version) => version,
        _ => panic!("unexpected {reply:?}"),
    }
}

fn error(reply: &Reply) -> (u16, &str) {
    match &reply.body {
        Body::Error(message) => (reply.status, message.as_str()),
        _ => panic!("unexpected {reply:?}"),
    }
}

fn assert_unauthorized(passed: Result<(), Reply>) {
    let reply = passed.unwrap_err();
    assert_eq!(error(&reply), (401, "authentification requise"));
    assert!(reply.challenge);
}

#[test]
fn secret_valide_accepte_le_bon_secret() {
    assert!(secret_valide("abc123", Some("abc123")));
}

#[test]
fn secret_valide_refuse_un_mauvais_secret_meme_longueur() {
    assert!(!secret_valide("abc123", Some("xbc123")));
}

#[test]
fn secret_valide_refuse_une_longueur_differente() {
    assert!(!secret_valide("abc123", Some("abc1234")));
    assert!(!secret_valide("abc123", Some("abc12")));
}

#[test]
fn secret_valide_refuse_l_absence_de_secret() {
    assert!(!secret_valide("abc123", None));
}

#[test]
fn secret_depuis_env_accepte_une_valeur_non_vide() {
    assert_eq!(secret_depuis_env(Ok("x".to_string())), Ok("x".to_string()));
}

#[test]
fn secret_depuis_env_refuse_une_valeur_vide() {
    assert!(secret_depuis_env(Ok(String::new())).is_err());
}

#[test]
fn secret_depuis_env_refuse_une_variable_absente() {
    assert!(secret_depuis_env(Err(VarError::NotPresent)).is_err());
    assert_eq!(
        secret_depuis_env(Err(VarError::NotUnicode)),
        Err("PAWCHAT_KV_INTERNAL_SECRET manquant ou vide")
    );
}

#[test]
fn health_reste_public_sans_secret() {
    assert!(garder("/health", SECRET_TEST, None).is_ok());
    let reply = health();
    assert_eq!(reply.status, 200);
    assert!(matches!(reply.body, Body::Healthy("pawchat-kv-server")));
    assert!(!reply.challenge);
}

#[test]
fn rate_limit_sans_secret_est_rejete_401() {
    assert_unauthorized(garder("/rate-limit/check", SECRET_TEST, None));
}

#[test]
fn rate_limit_sans_aucun_header_est_rejete_401_pas_415() {
    // The guard is given no body: it decides before there is one to refuse.
    let reply = garder("/rate-limit/check", SECRET_TEST, None).unwrap_err();
    assert_eq!(reply.status, 401);
    assert_unauthorized(garder("/rate-limit/check", SECRET_TEST, Some("")));
}

#[test]
fn revocation_get_sans_secret_est_rejete_401() {
    assert_unauthorized(garder("/revocation/42", SECRET_TEST, None));
}

#[test]
fn revocation_set_sans_secret_est_rejete_401() {
    let mut cache = RevocationCache::new_in_memory();
    if garder("/revocation/42", SECRET_TEST, None).is_ok() {
        cache.set_cv(42, 3).unwrap();
    }
    assert_unauthorized(garder("/revocation/42", SECRET_TEST, None));
    assert_eq!(version(&revocation_get(&mut cache, 42)), None);
}

#[test]
fn rate_limit_avec_mauvais_secret_est_rejete_401() {
    assert_unauthorized(garder(
        "/rate-limit/check",
        SECRET_TEST,
        Some("Bearer mauvais-secret"),
    ));
}

#[test]
fn every_path_but_health_is_guarded() {
    let bearer = Some("Bearer secret-de-test");
    for path in ["/rate-limit/check", "/revocation/42", "/", "", "/inconnu"] {
        assert!(garder(path, SECRET_TEST, bearer).is_ok());
        assert_unauthorized(garder(path, SECRET_TEST, None));
    }
    for path in ["/healthz", "/health/", "/Health", "health", "//health"] {
        assert_unauthorized(garder(path, SECRET_TEST, None));
    }
    assert!(garder("/health", SECRET_TEST, None).is_ok());
    assert!(garder("/health", SECRET_TEST, Some("Bearer mauvais-secret")).is_ok());
}

#[test]
fn only_the_exact_bearer_header_passes() {
    assert!(authentifier(SECRET_TEST, Some("Bearer secret-de-test")).is_ok());
    assert_unauthorized(authentifier(SECRET_TEST, Some("secret-de-test")));
    assert_unauthorized(authentifier(SECRET_TEST, Some("bearer secret-de-test")));
    assert_unauthorized(authentifier(SECRET_TEST, Some("Bearer  secret-de-test")));
    assert_unauthorized(authentifier(SECRET_TEST, Some("Bearer secret-de-test ")));
    assert_unauthorized(authentifier(SECRET_TEST, Some("Bearer")));
    assert_unauthorized(authentifier(SECRET_TEST, Some("")));
}

#[test]
fn rate_limit_autorise_jusqu_a_la_limite_puis_refuse() {
    let mut limiter = RateLimiter::without_purge_task();
    for _ in 0..3 {
        let reply = rate_limit_check(&mut limiter, "login:1.2.3.4", 3, 60);
        assert!(allowed(&reply));
    }
    let reply = rate_limit_check(&mut limiter, "login:1.2.3.4", 3, 60);
    assert!(!allowed(&reply));
}

#[test]
fn rate_limit_isole_les_cles_entre_elles() {
    let mut limiter = RateLimiter::without_purge_task();
    rate_limit_check(&mut limiter, "a", 1, 60);
    let reply = rate_limit_check(&mut limiter, "b", 1, 60);
    assert!(allowed(&reply));
}

#[test]
fn rate_limit_window_secs_nul_rejete_400() {
    let mut limiter = RateLimiter::without_purge_task();
    let reply = rate_limit_check(&mut limiter, "k", 5, 0);
    assert_eq!(error(&reply), (400, "window_secs hors domaine (1..=86400)"));
    assert!(limiter.is_empty());
}

#[test]
fn rate_limit_window_secs_hors_domaine_rejete_400() {
    let mut limiter = RateLimiter::without_purge_task();
    let reply = rate_limit_check(&mut limiter, "k", 5, WINDOW_SECS_MAX + 1);
    assert_eq!(error(&reply), (400, "window_secs hors domaine (1..=86400)"));
    assert!(limiter.is_empty());
    assert!(allowed(&rate_limit_check(&mut limiter, "k", 5, WINDOW_SECS_MAX)));
}

#[test]
fn rate_limit_cle_vide_rejetee_400() {
    let mut limiter = RateLimiter::without_purge_task();
    let reply = rate_limit_check(&mut limiter, "", 5, 60);
    assert_eq!(error(&reply), (400, "key ne doit pas etre vide"));
    assert!(!reply.challenge);
    assert!(limiter.is_empty());
    // An empty key is reported first.
    assert_eq!(
        error(&verifier_requete("", 0).unwrap_err()),
        (400, "key ne doit pas etre vide")
    );
}

#[test]
fn a_check_at_a_moment_slides_with_it() {
    let mut limiter = RateLimiter::without_purge_task();
    let second: u128 = 1_000_000_000;
    assert!(allowed(&rate_limit_check_at(&mut limiter, "k", 1, 1, 0)));
    assert!(!allowed(&rate_limit_check_at(&mut limiter, "k", 1, 1, second - 1)));
    assert!(allowed(&rate_limit_check_at(&mut limiter, "k", 1, 1, second)));
    assert_eq!(
        error(&rate_limit_check_at(&mut limiter, "k", 1, 0, second)),
        (400, "window_secs hors domaine (1..=86400)")
    );
}

#[test]
fn revocation_inconnue_renvoie_version_null() {
    let mut cache = RevocationCache::new_in_memory();
    assert_eq!(version(&revocation_get(&mut cache, 7)), None);
}

#[test]
fn revocation_ecriture_puis_lecture() {
    let mut cache = RevocationCache::new_in_memory();
    let outcome = cache.set_cv(42, 3).map(|_| ());
    let reply = revocation_set(&outcome);
    assert_eq!(reply.status, 200);
    assert!(matches!(reply.body, Body::Written));
    assert_eq!(version(&revocation_get(&mut cache, 42)), Some(3));
}

#[test]
fn revocation_ecriture_ecrase_la_version_precedente() {
    let mut cache = RevocationCache::new_in_memory();
    cache.set_cv(42, 3).unwrap();
    cache.set_cv(42, 4).unwrap();
    assert_eq!(version(&revocation_get(&mut cache, 42)), Some(4));
}

#[test]
fn a_failed_write_is_answered_500_with_its_text() {
    let outcome = Err(KvError::Transaction("locked".to_string()));
    let reply = revocation_set(&outcome);
    assert_eq!(error(&reply), (500, "redb transaction error: locked"));
}

#[test]
fn overload_is_answered_503() {
    assert_eq!(error(&gerer_surcharge()), (503, "serveur sature, reessayer"));
    assert_eq!(error(&erreur(418, "m")), (418, "m"));
}

#[test]
fn the_port_falls_back_to_the_default() {
    assert_eq!(PORT_DEFAUT, 3210);
    assert_eq!(port(None), 3210);
    assert_eq!(port(Some("")), 3210);
    assert_eq!(port(Some("+")), 3210);
    assert_eq!(port(Some("-1")), 3210);
    assert_eq!(port(Some(" 80")), 3210);
    assert_eq!(port(Some("80a")), 3210);
    assert_eq!(port(Some("65536")), 3210);
    assert_eq!(port(Some("65535")), 65535);
    assert_eq!(port(Some("+0080")), 80);
    assert_eq!(port(Some("0")), 0);
}

#[test]
fn the_concurrency_limit_falls_back_to_the_default() {
    assert_eq!(LIMITE_CONCURRENCE_DEFAUT, 256);
    assert_eq!(limite_concurrence(None), 256);
    assert_eq!(limite_concurrence(Some("beaucoup")), 256);
    assert_eq!(limite_concurrence(Some("99999999999999999999999")), 256);
    assert_eq!(limite_concurrence(Some("12")), 12);
    assert_eq!(limite_concurrence(Some("+007")), 7);
}

#[test]
fn an_empty_path_means_no_file() {
    assert_eq!(chemin_db(None), None);
    assert_eq!(chemin_db(Some(String::new())), None);
    assert_eq!(
        chemin_db(Some("/data/revocation.redb".to_string())),
        Some("/data/revocation.redb".to_string())
    );
}
