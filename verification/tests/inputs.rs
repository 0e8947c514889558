use bevy_typst_textures::input::{overlay_onto, unify_inputs};
use bevy_typst_textures::options::{InputUnifyMode, TypstJobOptions};
use bevy_typst_textures::server::{PathBufOrTemplate, TypstTextureServer};
use typst::foundations::{Dict, Value};

fn dict(pairs: &[(&str, i64)]) -> Dict {
    let mut dict = Dict::new();
    for (key, value) in pairs {
        dict.insert((*key).into(), Value::Int(*value));
    }
    dict
}

fn ints(dict: &Dict) -> Vec<(String, i64)> {
    dict.iter()
        .map(|(key, value)| match value {
            Value::Int(i) => (key.as_str().to_string(), *i),
            other => panic!("{other:?}"),
        })
        .collect()
}

fn pairs(list: &[(&str, i64)]) -> Vec<(String, i64)> {
    list.iter().map(|(k, v)| (k.to_string(), *v)).collect()
}

fn separate(serde_key: &str, dict_key: &str) -> InputUnifyMode {
    InputUnifyMode::SeparateKeys {
        serde_key: serde_key.to_string(),
        dict_key: dict_key.to_string(),
    }
}

#[test]
fn serde_input_overrides_where_it_is_told_to() {
    let serde = dict(&[("shared", 1), ("only_serde", 2)]);
    let plain = dict(&[("only_dict", 3), ("shared", 4)]);
    let unified = unify_inputs(&InputUnifyMode::SerdeOverridesDict, serde, plain);
    assert_eq!(
        ints(&unified),
        pairs(&[("only_dict", 3), ("shared", 1), ("only_serde", 2)])
    );
}

#[test]
fn dict_input_overrides_where_it_is_told_to() {
    let serde = dict(&[("shared", 1), ("only_serde", 2)]);
    let plain = dict(&[("only_dict", 3), ("shared", 4)]);
    let unified = unify_inputs(&InputUnifyMode::DictOverridesSerde, serde, plain);
    assert_eq!(
        ints(&unified),
        pairs(&[("shared", 4), ("only_serde", 2), ("only_dict", 3)])
    );
}

#[test]
fn overriding_modes_agree_without_a_shared_key() {
    let one = unify_inputs(
        &InputUnifyMode::SerdeOverridesDict,
        dict(&[("a", 1)]),
        dict(&[("b", 2)]),
    );
    let other = unify_inputs(
        &InputUnifyMode::DictOverridesSerde,
        dict(&[("a", 1)]),
        dict(&[("b", 2)]),
    );
    assert_eq!(ints(&one), pairs(&[("b", 2), ("a", 1)]));
    assert_eq!(ints(&other), pairs(&[("a", 1), ("b", 2)]));
    assert_eq!(one, other);
}

#[test]
fn overlay_keeps_the_place_of_a_key_that_is_there() {
    let merged = overlay_onto(dict(&[("x", 1), ("y", 2), ("z", 3)]), dict(&[("y", 20), ("w", 40)]));
    assert_eq!(ints(&merged), pairs(&[("x", 1), ("y", 20), ("z", 3), ("w", 40)]));
    let same = overlay_onto(dict(&[("x", 1)]), Dict::new());
    assert_eq!(ints(&same), pairs(&[("x", 1)]));
    let filled = overlay_onto(Dict::new(), dict(&[("x", 1)]));
    assert_eq!(ints(&filled), pairs(&[("x", 1)]));
}

#[test]
fn separate_keys_hold_both_inputs_whole() {
    let serde = dict(&[("shared", 1)]);
    let plain = dict(&[("shared", 4), ("more", 5)]);
    let unified = unify_inputs(&separate("from_serde", "from_dict"), serde.clone(), plain.clone());
    assert_eq!(unified.len(), 2);
    let keys: Vec<&str> = unified.iter().map(|(key, _)| key.as_str()).collect();
    assert_eq!(keys, ["from_serde", "from_dict"]);
    assert_eq!(unified.get("from_serde").unwrap(), &Value::Dict(serde));
    assert_eq!(unified.get("from_dict").unwrap(), &Value::Dict(plain));
}

#[test]
fn separate_keys_that_are_the_same_keep_the_dict_input() {
    let serde = dict(&[("a", 1)]);
    let plain = dict(&[("b", 2)]);
    let unified = unify_inputs(&separate("both", "both"), serde, plain.clone());
    assert_eq!(unified.len(), 1);
    assert_eq!(unified.get("both").unwrap(), &Value::Dict(plain));
}

fn json(pairs: &[(&str, i64)]) -> serde_json::Value {
    let mut map = serde_json::Map::new();
    for (key, value) in pairs {
        map.insert(key.to_string(), serde_json::Value::from(*value));
    }
    serde_json::Value::Object(map)
}

#[test]
fn job_input_is_made_of_both_inputs() {
    let mut server: TypstTextureServer<u8> = TypstTextureServer::new();
    let source = || PathBufOrTemplate::PathBuf("t".to_string());
    server.add_job_with_dict_and_serde_input(
        source(),
        Some(json(&[("k", 1), ("s", 2)])),
        dict(&[("k", 3), ("d", 4)]),
        TypstJobOptions::default(),
        0,
    );
    assert_eq!(ints(&server.jobs[0].input), pairs(&[("k", 1), ("d", 4), ("s", 2)]));
    let mut options = TypstJobOptions::default();
    options.input_unify_mode = InputUnifyMode::DictOverridesSerde;
    server.add_job_with_dict_and_serde_input(
        source(),
        Some(json(&[("k", 1), ("s", 2)])),
        dict(&[("k", 3), ("d", 4)]),
        options,
        0,
    );
    assert_eq!(ints(&server.jobs[1].input), pairs(&[("k", 3), ("s", 2), ("d", 4)]));
    assert_eq!(server.jobs.len(), 2);
    assert_eq!(server.templates.len(), 1);
}

#[test]
fn serde_input_that_is_no_dictionary_leaves_the_dict_input() {
    let mut server: TypstTextureServer<u8> = TypstTextureServer::new();
    let source = || PathBufOrTemplate::PathBuf("t".to_string());
    for serde in [None, Some(serde_json::Value::from(3)), Some(serde_json::Value::Null)] {
        let mut options = TypstJobOptions::default();
        options.input_unify_mode = separate("a", "b");
        server.add_job_with_dict_and_serde_input(source(), serde, dict(&[("d", 4)]), options, 0);
    }
    for job in server.jobs.iter() {
        assert_eq!(ints(&job.input), pairs(&[("d", 4)]));
    }
    assert_eq!(server.jobs.len(), 3);
}

#[test]
fn serde_input_alone_sets_the_overriding_mode() {
    let mut server: TypstTextureServer<u8> = TypstTextureServer::new();
    let mut options = TypstJobOptions::default();
    options.input_unify_mode = separate("a", "b");
    options.specific_page = Some(2);
    server.add_job_with_serde_input(
        PathBufOrTemplate::PathBuf("t".to_string()),
        Some(json(&[("n", 5)])),
        options,
        0,
    );
    assert_eq!(ints(&server.jobs[0].input), pairs(&[("n", 5)]));
    assert!(matches!(
        server.jobs[0].job_options.input_unify_mode,
        InputUnifyMode::SerdeOverridesDict
    ));
    assert_eq!(server.jobs[0].job_options.specific_page, Some(2));
    server.add_job_with_serde_input(
        PathBufOrTemplate::PathBuf("t".to_string()),
        None,
        TypstJobOptions::default(),
        0,
    );
    assert!(server.jobs[1].input.is_empty());
}

#[test]
fn serde_input_alone_is_queued_as_it_is_read() {
    let mut server: TypstTextureServer<u8> = TypstTextureServer::new();
    let mut map = serde_json::Map::new();
    map.insert("text".to_string(), serde_json::Value::from("hi"));
    map.insert("count".to_string(), serde_json::Value::from(2));
    let mut options = TypstJobOptions::default();
    options.input_unify_mode = InputUnifyMode::DictOverridesSerde;
    server.add_job_with_serde_input(
        PathBufOrTemplate::PathBuf("example.zip".to_string()),
        Some(serde_json::Value::Object(map)),
        options,
        0,
    );
    assert_eq!(server.jobs.len(), 1);
    let input = &server.jobs[0].input;
    assert_eq!(input.len(), 2);
    assert_eq!(input.get("text").unwrap(), &Value::Str("hi".into()));
    assert_eq!(input.get("count").unwrap(), &Value::Int(2));
    assert_eq!(server.templates, vec![("example.zip".to_string(), 0)]);
    assert_eq!(server.jobs[0].use_template, 0);
    server.add_job_with_serde_input(
        PathBufOrTemplate::PathBuf("example.zip".to_string()),
        Some(serde_json::Value::from("no dictionary")),
        TypstJobOptions::default(),
        0,
    );
    assert!(server.jobs[1].input.is_empty());
}

#[test]
fn two_dictionaries_are_unified_by_the_options_mode() {
    let mut server: TypstTextureServer<u8> = TypstTextureServer::new();
    server.add_job_with_two_dict_inputs(
        PathBufOrTemplate::PathBuf("t".to_string()),
        Some(dict(&[("k", 1)])),
        dict(&[("k", 2)]),
        TypstJobOptions::default(),
        0,
    );
    server.add_job_with_two_dict_inputs(
        PathBufOrTemplate::PathBuf("t".to_string()),
        None,
        dict(&[("k", 2)]),
        TypstJobOptions::default(),
        0,
    );
    server.add_job_with_dict_input(
        PathBufOrTemplate::PathBuf("t".to_string()),
        dict(&[("k", 7)]),
        TypstJobOptions::default(),
        0,
    );
    assert_eq!(ints(&server.jobs[0].input), pairs(&[("k", 1)]));
    assert_eq!(ints(&server.jobs[1].input), pairs(&[("k", 2)]));
    assert_eq!(ints(&server.jobs[2].input), pairs(&[("k", 7)]));
}
