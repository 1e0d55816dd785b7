use vocal_magic::apps::{all_apps, find_app, model_availability, model_files, ParamValue};

#[test]
fn the_catalogue_lists_three_apps() {
    let ids: Vec<String> = all_apps().iter().map(|a| a.id.clone()).collect();
    assert_eq!(ids, vec!["vocal-enhance", "vocal2midi", "source-separation"]);
    let labels: Vec<String> = all_apps().iter().map(|a| a.label.clone()).collect();
    assert_eq!(labels, vec!["Vocal enhance", "Vocal to MIDI", "Source separation"]);
    let icons: Vec<String> = all_apps().iter().map(|a| a.icon.clone()).collect();
    assert_eq!(icons, vec!["sparkle", "piano-keys", "arrows-split"]);
    assert_eq!(
        all_apps()[0].description,
        "Restore and enhance a vocal recording with the Smule Renaissance model. 48 kHz mono output."
    );
}

#[test]
fn apps_and_models_are_found_by_id() {
    for app in all_apps() {
        let found = find_app(&app.id).unwrap_or_else(|| panic!("no app"));
        assert_eq!(found.label, app.label);
        for model in &app.models {
            let m = found.find_model(&model.id).unwrap_or_else(|| panic!("no model"));
            assert_eq!(m.checkpoint, model.checkpoint);
            assert_eq!(m.variant, model.variant);
        }
    }
    assert!(find_app("nothing").is_none());
    assert!(all_apps()[0].find_model("nothing").is_none());
}

#[test]
fn models_of_source_separation() {
    let app = find_app("source-separation").unwrap_or_else(|| panic!("no app"));
    assert_eq!(app.models.len(), 2);
    assert_eq!(app.models[0].checkpoint, "melband-roformer.mlx.safetensors");
    assert_eq!(app.models[0].variant, "full");
    assert_eq!(app.models[1].checkpoint, "mbr-win10-sink8.mlx.safetensors");
    assert_eq!(app.models[1].variant, "wsa");
    let keys: Vec<String> = app.models[1].params.iter().map(|p| p.key.clone()).collect();
    assert_eq!(keys, vec!["chunk_size", "batch_size"]);
}

#[test]
fn an_integer_parameter() {
    let app = find_app("vocal2midi").unwrap_or_else(|| panic!("no app"));
    let p = &app.models[0].params[1];
    assert_eq!(p.key, "nsteps");
    assert_eq!(p.label, "Denoising steps");
    assert_eq!(p.kind, "int");
    assert!(matches!(p.default, ParamValue::Int(8)));
    let max = p.max.unwrap_or_else(|| panic!("no max"));
    assert_eq!((max.mantissa, max.places), (64, 0));
    let step = p.step.unwrap_or_else(|| panic!("no step"));
    assert_eq!((step.mantissa, step.places), (1, 0));
    assert_eq!(p.unit, Some("steps".to_string()));
    assert!(p.options.is_none());
}

#[test]
fn a_fractional_parameter() {
    let app = find_app("vocal2midi").unwrap_or_else(|| panic!("no app"));
    let p = &app.models[0].params[3];
    assert_eq!(p.key, "seg_radius");
    assert_eq!(p.kind, "float");
    match &p.default {
        ParamValue::Number(d) => {
            let value: f64 = format!("{}e-{}", d.mantissa, d.places).parse().unwrap();
            assert_eq!(value, 0.02);
        }
        _ => panic!("not a number"),
    }
    assert!(p.unit.is_none());
}

#[test]
fn a_choice_parameter() {
    let app = find_app("vocal-enhance").unwrap_or_else(|| panic!("no app"));
    let p = &app.models[0].params[0];
    assert_eq!(p.key, "device");
    assert_eq!(p.kind, "select");
    match &p.default {
        ParamValue::Text(t) => assert_eq!(t, "gpu"),
        _ => panic!("not a text"),
    }
    assert_eq!(p.options, Some(vec!["gpu".to_string(), "cpu".to_string()]));
    assert!(p.min.is_none() && p.max.is_none() && p.step.is_none() && p.unit.is_none());
}

#[test]
fn files_of_a_model() {
    let app = find_app("vocal2midi").unwrap_or_else(|| panic!("no app"));
    let (weights, config) = model_files("/ckpt", &app.models[0]);
    assert_eq!(weights, "/ckpt/GAME-1.0-large/GAME-1.0-large.safetensors");
    assert_eq!(config, "/ckpt/GAME-1.0-large/config.yaml");
}

#[test]
fn availability_of_models() {
    let game = find_app("vocal2midi").unwrap_or_else(|| panic!("no app")).models.remove(0);
    let all = model_availability("vocal2midi", &game, true, true);
    assert!(all.available);
    assert_eq!(all.reason, "");
    let no_config = model_availability("vocal2midi", &game, true, false);
    assert!(!no_config.available);
    assert_eq!(no_config.reason, "missing GAME-1.0-large/config.yaml");
    let nothing = model_availability("vocal2midi", &game, false, false);
    assert!(!nothing.available);
    assert_eq!(nothing.reason, "missing checkpoint GAME-1.0-large/GAME-1.0-large.safetensors");
    let srs = find_app("vocal-enhance").unwrap_or_else(|| panic!("no app")).models.remove(0);
    assert!(model_availability("vocal-enhance", &srs, true, false).available);
    assert_eq!(
        model_availability("vocal-enhance", &srs, false, true).reason,
        "missing checkpoint renaissance/smule-renaissance-small.safetensors"
    );
}

#[test]
fn each_model_has_a_directory_of_its_own() {
    let mut weights: Vec<String> = Vec::new();
    for app in all_apps() {
        for model in &app.models {
            weights.push(model_files("checkpoints", model).0);
        }
    }
    assert_eq!(
        weights,
        vec![
            "checkpoints/renaissance/smule-renaissance-small.safetensors",
            "checkpoints/GAME-1.0-large/GAME-1.0-large.safetensors",
            "checkpoints/melband-roformer/melband-roformer.mlx.safetensors",
            "checkpoints/mbr-win10-sink8/mbr-win10-sink8.mlx.safetensors",
        ]
    );
}
