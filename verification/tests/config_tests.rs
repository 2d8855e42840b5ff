use encodeck::config::{check_presets, Config, ConfigError, Installed, PresetError, PresetShape, RemoveError};
use encodeck::versions::{import, ImportError, VersionError};
use encodeck::err;
use encodeck::queue::{enqueue, Queue};

fn engine(id: &str, path: &str, managed: bool) -> Installed {
    Installed {
        id: id.into(),
        name: id.into(),
        path: path.into(),
        managed,
        checksum: String::new(),
    }
}

fn config() -> Config {
    Config {
        active: "a".into(),
        versions: vec![engine("a", "/e/a/ffmpeg", true), engine("b", "/e/b/ffmpeg", false)],
        presets: vec![],
    }
}

#[test]
fn binary_is_the_active_engine() {
    assert_eq!(config().binary().ok().unwrap(), "/e/a/ffmpeg");
    let mut c = config();
    c.active = String::new();
    let e = c.binary().unwrap_err();
    assert!(matches!(e, ConfigError::NoEngine));
}

#[test]
fn select_then_binary() {
    let mut c = config();
    c.select("b".into()).unwrap();
    assert_eq!(c.active, "b");
    assert_eq!(c.binary().ok().unwrap(), "/e/b/ffmpeg");
    let e = c.select("zz".into()).unwrap_err();
    assert_eq!(e.message(), "Version inconnue");
    assert_eq!(c.active, "b");
}

#[test]
fn import_of_a_known_path_selects_it() {
    let mut c = config();
    c.import_version("6.0".into(), "/e/b/ffmpeg".into());
    assert_eq!(c.versions.len(), 2);
    assert_eq!(c.active, "b");
}

#[test]
fn import_of_a_new_path_records_it() {
    let mut c = config();
    c.import_version("6.0".into(), "/usr/bin/ffmpeg".into());
    assert_eq!(c.versions.len(), 3);
    let v = &c.versions[2];
    assert_eq!(v.name, "6.0");
    assert_eq!(v.path, "/usr/bin/ffmpeg");
    assert!(!v.managed);
    assert_eq!(v.checksum, "");
    assert_eq!(v.id.len(), 36);
    assert_eq!(c.active, v.id);
    assert_eq!(c.binary().ok().unwrap(), "/usr/bin/ffmpeg");
}

#[test]
fn register_managed_engine() {
    let mut c = config();
    c.register_managed("7.1".into(), "7.1".into(), "/e/7.1/ffmpeg".into(), "ffmpeg:x;ffprobe:y".into());
    assert_eq!(c.active, "7.1");
    assert!(c.versions[2].managed);
    assert_eq!(c.binary().ok().unwrap(), "/e/7.1/ffmpeg");
    assert!(c.has_version("7.1"));
}

#[test]
fn removal_refusals() {
    let c = config();
    let mut q = Queue::new();
    assert!(matches!(c.check_removal("a", &q), Err(RemoveError::ActiveVersion)));
    assert!(matches!(c.check_removal("zz", &q), Err(RemoveError::UnknownVersion)));
    assert_eq!(c.check_removal("b", &q).ok(), Some(1));
    let mut using_b = c.clone();
    using_b.active = "b".into();
    enqueue(
        &mut q,
        &using_b,
        vec![vec!["-i".into(), "in".into(), "out".into()]],
        "out".into(),
        &[],
        0,
        0,
    )
    .unwrap();
    let e = c.check_removal("b", &q).unwrap_err();
    assert!(matches!(e, RemoveError::InUse));
    assert_eq!(e.message(), "Cette version est utilisée par une tâche.");
    assert_eq!(
        RemoveError::ActiveVersion.message(),
        "Sélectionnez une autre version avant de retirer la version active."
    );
    assert_eq!(RemoveError::OutsideRoot.message(), "Chemin hors du dossier des versions");
}

#[test]
fn remove_version_forgets_only_that_id() {
    let mut c = config();
    c.remove_version("b");
    assert_eq!(c.versions.len(), 1);
    assert_eq!(c.versions[0].id, "a");
    assert_eq!(c.binary().ok().unwrap(), "/e/a/ffmpeg");
}

#[test]
fn presets_are_checked() {
    let good = PresetShape { id_is_string: true, name_is_string: true, data_is_object: true };
    let bad = PresetShape { id_is_string: true, name_is_string: false, data_is_object: true };
    assert!(check_presets(&[]).is_ok());
    assert!(check_presets(&[good]).is_ok());
    let e = check_presets(&[
        PresetShape { id_is_string: true, name_is_string: true, data_is_object: true },
        bad,
    ])
    .unwrap_err();
    assert!(matches!(e, PresetError::Invalid));
    assert_eq!(e.message(), "Preset invalide");
    let many: Vec<PresetShape> = (0..501)
        .map(|_| PresetShape { id_is_string: true, name_is_string: true, data_is_object: true })
        .collect();
    let e = check_presets(&many).unwrap_err();
    assert_eq!(e.message(), "Maximum 500 presets");
}

#[test]
fn err_keeps_the_text() {
    assert_eq!(err("disque plein"), "disque plein");
}

#[test]
fn import_checks_the_binary_then_ffprobe() {
    let out = b"ffmpeg version 6.1.1 Copyright (c) 2000-2023\n";
    let mut c = config();
    import(&mut c, "/usr/bin/ffmpeg".into(), true, out, true).unwrap();
    assert_eq!(c.versions.len(), 3);
    assert_eq!(c.versions[2].name, "6.1.1");
    assert_eq!(c.versions[2].path, "/usr/bin/ffmpeg");
    assert!(!c.versions[2].managed);
    assert_eq!(c.active, c.versions[2].id);
    assert_eq!(c.active.len(), 36);

    let mut c = config();
    let e = import(&mut c, "/usr/bin/ffmpeg".into(), true, out, false).unwrap_err();
    assert!(matches!(e, ImportError::ProbeNotBeside));
    assert_eq!(e.message(), "ffprobe doit être dans le même dossier que FFmpeg.");
    assert_eq!(c.versions.len(), 2);
    assert_eq!(c.active, "a");

    let e = import(&mut c, "/usr/bin/ffprobe".into(), true, b"ffprobe version 6.1\n", false).unwrap_err();
    assert!(matches!(e, ImportError::Version(VersionError::NotFfmpeg)));
    assert_eq!(e.message(), "Ce fichier n’est pas FFmpeg");
    let e = import(&mut c, "/usr/bin/ffmpeg".into(), false, out, true).unwrap_err();
    assert_eq!(e.message(), "Le binaire FFmpeg ne démarre pas");
    assert_eq!(c.versions.len(), 2);

    import(&mut c, "/e/b/ffmpeg".into(), true, out, true).unwrap();
    assert_eq!(c.versions.len(), 2);
    assert_eq!(c.active, "b");
}
