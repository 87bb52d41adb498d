use rustic_config::error::ConfigError;
use rustic_config::file_reader::{config_from_parsed, JsonConfigReader, Reader, YamlConfigReader};
use rustic_config::manager::{collect_step, decoded_struct, load_source, needs_file};
use rustic_config::{ConfigManager, ConfigManagerBuilder, ConfigMap, ConfigSource, FilePath, FileType};
use std::collections::HashMap;

const TEST_YAML_PATH: &str = "test/test.yaml";
const TEST_JSON_PATH: &str = "test/test.json";

const TEST_YAML: &str = "SOME_INT: 1\nSOME_FLOAT: 1.1\nSOME_UINT: 999\nSOME_VEC:\n  - \"1\"\n  - \"2\"\n  - \"3\"\nSOME_OBJ:\n  TEST_KEY_INT: 1\n  TEST_KEY_FLOAT: 1.1\n  TEST_KEY_VEC:\n    - \"a\"\n    - \"b\"\n    - \"c\"\n";
const TEST_JSON: &str =
    "{\"someInt\": 42, \"someFloat\": 42.1, \"someString\": \"Hello World!\"}";

fn found(text: &str) -> Result<Vec<u8>, String> {
    Ok(text.as_bytes().to_vec())
}

fn build_one(path: &str, text: &str) -> Result<ConfigManager, ConfigError> {
    let mut cmb = ConfigManagerBuilder::new();
    cmb.add_source(ConfigSource::File(FilePath::new(path)));
    cmb.build(&vec![found(text)])
}

#[test]
fn setup_yaml() {
    let cm = build_one(TEST_YAML_PATH, TEST_YAML);
    assert_eq!(cm.is_ok(), true);
    let cfg = cm.unwrap();
    assert_eq!(cfg.get_i64("SOME_INT"), Some(1));
    assert_eq!(cfg.try_get("SOME_FLOAT").unwrap().as_f64(), Some(1.1));
    assert_eq!(cfg.get_u64("SOME_UINT"), Some(999));
}

#[test]
fn setup_json() {
    let cm = build_one(TEST_JSON_PATH, TEST_JSON);
    println!("{:?}", cm);
    assert_eq!(cm.is_ok(), true);
    let cfg = cm.unwrap();
    assert_eq!(cfg.get_i64("someInt"), Some(42));
    assert_eq!(cfg.try_get("someFloat").unwrap().as_f64(), Some(42.1));
    assert_eq!(cfg.get_str("someString"), Some("Hello World!"));
}

#[test]
fn no_file_error() {
    let mut cmb = ConfigManagerBuilder::new();
    cmb.add_source(ConfigSource::File(FilePath::new("no_file.yaml")));
    let cm = cmb.build(&vec![Err("No such file or directory (os error 2)".to_string())]);
    assert_eq!(
        cm.unwrap_err().message(),
        "Failed to read configuration file: No such file or directory (os error 2) [no_file.yaml]"
    );
}

#[test]
fn test_try() {
    let cm = build_one(TEST_YAML_PATH, TEST_YAML);
    assert_eq!(cm.is_ok(), true);
    let cfg = cm.unwrap();
    assert_eq!(*cfg.try_get("SOME_INT").unwrap(), 1);
}

#[test]
fn test_vec() {
    let cm = build_one(TEST_YAML_PATH, TEST_YAML);
    assert_eq!(cm.is_ok(), true);
    let cfg = cm.unwrap();
    let new_vec: Vec<String> = cfg.get_vec("SOME_VEC").unwrap();
    assert_eq!(new_vec, vec!["1", "2", "3"]);
}

#[allow(non_snake_case)]
#[derive(Debug)]
struct MyConfig {
    TEST_KEY_INT: i64,
    TEST_KEY_FLOAT: f64,
    TEST_KEY_VEC: Vec<String>,
}

impl<'de> serde::Deserialize<'de> for MyConfig {
    fn deserialize<D: serde::Deserializer<'de>>(deserializer: D) -> Result<Self, D::Error> {
        let fields = HashMap::<String, serde_json::Value>::deserialize(deserializer)?;
        let int = fields.get("TEST_KEY_INT").and_then(|v| v.as_i64());
        let float = fields.get("TEST_KEY_FLOAT").and_then(|v| v.as_f64());
        let list = fields
            .get("TEST_KEY_VEC")
            .and_then(|v| serde_json::from_value::<Vec<String>>(v.clone()).ok());
        match (int, float, list) {
            (Some(int), Some(float), Some(list)) => Ok(MyConfig {
                TEST_KEY_INT: int,
                TEST_KEY_FLOAT: float,
                TEST_KEY_VEC: list,
            }),
            _ => Err(serde::de::Error::custom("not a MyConfig")),
        }
    }
}

#[test]
fn test_struct() {
    let cm = build_one(TEST_YAML_PATH, TEST_YAML).unwrap();
    let my_cfg = cm.get_struct::<MyConfig>("SOME_OBJ").unwrap();
    assert_eq!(my_cfg.TEST_KEY_INT, 1);
    assert_eq!(my_cfg.TEST_KEY_FLOAT, 1.1);
    assert_eq!(my_cfg.TEST_KEY_VEC.len(), 3);
}

#[test]
fn get_struct_rejects_another_shape() {
    let cm = build_one(TEST_YAML_PATH, TEST_YAML).unwrap();
    let e = cm.get_struct::<MyConfig>("SOME_VEC").unwrap_err();
    assert!(matches!(e, ConfigError::ParseError(_)));
    let e = cm.get_struct::<MyConfig>("SOME_TUPLE").unwrap_err();
    assert_eq!(e, ConfigError::KeyNotFoundError("SOME_TUPLE".to_string()));
    let whole = cm.get_struct::<HashMap<String, serde_json::Value>>("SOME_OBJ").unwrap();
    assert_eq!(whole.len(), 3);
}

#[test]
fn test_iter() {
    let cm = build_one(TEST_YAML_PATH, TEST_YAML).unwrap();
    assert_eq!(cm.values().len(), 5);
}

#[test]
fn file_type_goes_by_suffix() {
    assert_eq!(FilePath::new("a/b.yaml").file_type(), FileType::Yaml);
    assert_eq!(FilePath::new("a/b.json").file_type(), FileType::Json);
    assert_eq!(FilePath::new(".json").file_type(), FileType::Json);
    assert_eq!(
        FilePath::new("a/b.yml").file_type(),
        FileType::Unsupported(FilePath::new("a/b.yml"))
    );
    assert_eq!(
        FilePath::new("json").file_type(),
        FileType::Unsupported(FilePath::new("json"))
    );
    assert_eq!(
        FilePath::new("b.json.bak").file_type(),
        FileType::Unsupported(FilePath::new("b.json.bak"))
    );
    assert_eq!(FilePath::new("").file_type(), FileType::Unsupported(FilePath::new("")));
    assert_eq!(FilePath::new("x.yaml").as_str(), "x.yaml");
}

#[test]
fn same_source_tells_sources_apart() {
    let a = ConfigSource::File(FilePath::new("a.json"));
    let b = ConfigSource::File(FilePath::new("b.json"));
    let args = ConfigSource::CommandLine(vec!["-v".to_string(), "x".to_string()]);
    let other_args = ConfigSource::CommandLine(vec!["-v".to_string(), "y".to_string()]);
    let fewer_args = ConfigSource::CommandLine(vec!["-v".to_string()]);
    assert!(a.same_source(&a.duplicate()));
    assert!(!a.same_source(&b));
    assert!(!a.same_source(&ConfigSource::Environment));
    assert!(ConfigSource::Environment.same_source(&ConfigSource::Environment));
    assert!(args.same_source(&args.duplicate()));
    assert!(!args.same_source(&other_args));
    assert!(!args.same_source(&fewer_args));
    assert_eq!(args.duplicate(), args);
}

#[test]
fn build_without_sources_fails() {
    let cmb = ConfigManagerBuilder::new();
    assert_eq!(cmb.build(&vec![]).unwrap_err(), ConfigError::EmptySources);
}

#[test]
fn same_file_twice_is_one_source() {
    let mut cmb = ConfigManagerBuilder::new();
    cmb.add_source(ConfigSource::File(FilePath::new(TEST_JSON_PATH)));
    cmb.add_source(ConfigSource::File(FilePath::new(TEST_JSON_PATH)));
    assert_eq!(cmb.sources().len(), 1);
    let cm = cmb.build(&vec![found(TEST_JSON)]).unwrap();
    assert_eq!(cm.sources().len(), 1);
    assert_eq!(cm.values().len(), 3);
    assert_eq!(cm.get_i64("someInt"), Some(42));
}

#[test]
fn sources_keep_their_order() {
    let mut cmb = ConfigManagerBuilder::new();
    cmb.add_source(ConfigSource::File(FilePath::new("a.json")));
    cmb.add_source(ConfigSource::File(FilePath::new("b.yaml")));
    cmb.add_source(ConfigSource::File(FilePath::new("a.json")));
    assert_eq!(
        *cmb.sources(),
        vec![
            ConfigSource::File(FilePath::new("a.json")),
            ConfigSource::File(FilePath::new("b.yaml"))
        ]
    );
}

#[test]
fn default_builder_declares_environment_and_yaml() {
    let cmb = ConfigManagerBuilder::default();
    assert_eq!(
        *cmb.sources(),
        vec![ConfigSource::Environment, ConfigSource::File(FilePath::new("config.yaml"))]
    );
}

#[test]
fn later_source_overrides_earlier() {
    let mut cmb = ConfigManagerBuilder::new();
    cmb.add_source(ConfigSource::File(FilePath::new("a.json")));
    cmb.add_source(ConfigSource::File(FilePath::new("b.yaml")));
    let cm = cmb
        .build(&vec![found("{\"x\": 1, \"y\": 2}"), found("y: 3\nz: 4\n")])
        .unwrap();
    assert_eq!(cm.get_i64("x"), Some(1));
    assert_eq!(cm.get_i64("y"), Some(3));
    assert_eq!(cm.get_i64("z"), Some(4));
    assert_eq!(cm.values().len(), 3);
    let values: Vec<i64> = cm.values().iter().map(|v| v.as_i64().unwrap()).collect();
    assert_eq!(values, vec![1, 3, 4]);
}

#[test]
fn unsupported_suffix_is_a_read_error() {
    let mut cmb = ConfigManagerBuilder::new();
    cmb.add_source(ConfigSource::File(FilePath::new("config.toml")));
    let e = cmb.build(&vec![found("x = 1")]).unwrap_err();
    assert_eq!(
        e,
        ConfigError::FileReadError(FilePath::new("config.toml"), "Unsupported".to_string())
    );
    assert_eq!(e.message(), "Failed to read configuration file: Unsupported [config.toml]");
}

#[test]
fn environment_and_command_line_are_not_supported() {
    let mut cmb = ConfigManagerBuilder::new();
    cmb.add_source(ConfigSource::Environment);
    assert_eq!(
        cmb.build(&vec![Err(String::new())]).unwrap_err(),
        ConfigError::FeatureNotSupported(ConfigSource::Environment)
    );
    let args = ConfigSource::CommandLine(vec!["--port".to_string(), "80".to_string()]);
    assert_eq!(
        load_source(&args, &Err(String::new())).unwrap_err(),
        ConfigError::FeatureNotSupported(args.duplicate())
    );
}

#[test]
fn one_failing_source_fails_the_build() {
    let mut cmb = ConfigManagerBuilder::new();
    cmb.add_source(ConfigSource::File(FilePath::new("a.json")));
    cmb.add_source(ConfigSource::File(FilePath::new("b.json")));
    cmb.add_source(ConfigSource::File(FilePath::new("c.txt")));
    let e = cmb
        .build(&vec![found("{\"x\": 1}"), Err("denied".to_string()), found("")])
        .unwrap_err();
    assert_eq!(e, ConfigError::FileReadError(FilePath::new("b.json"), "denied".to_string()));
}

#[test]
fn text_that_does_not_parse_is_a_parse_error() {
    let e = build_one("a.json", "{\"x\": ").unwrap_err();
    assert!(matches!(e, ConfigError::ParseError(_)));
    assert!(e.message().starts_with("Error parsing configuration: "));
    let e = build_one("a.json", "[1, 2]").unwrap_err();
    assert!(matches!(e, ConfigError::ParseError(_)));
    let e = build_one("a.yaml", "- 1\n- 2\n").unwrap_err();
    assert!(matches!(e, ConfigError::ParseError(_)));
}

#[test]
fn readers_read_their_own_format() {
    let json = JsonConfigReader.read("a.json", &found("{\"k\": true}")).unwrap();
    assert_eq!(json.get("k").unwrap().as_bool(), Some(true));
    assert_eq!(json.len(), 1);
    let yaml = YamlConfigReader.read("a.yaml", &found("k: false\n")).unwrap();
    assert_eq!(yaml.get("k").unwrap().as_bool(), Some(false));
    assert!(JsonConfigReader.read("a.json", &found("k: false\n")).is_err());
    assert_eq!(
        YamlConfigReader.read("a.yaml", &Err("gone".to_string())).unwrap_err(),
        ConfigError::FileReadError(FilePath::new("a.yaml"), "gone".to_string())
    );
    assert_eq!(
        JsonConfigReader.read("a.json", &Err("gone".to_string())).unwrap_err(),
        ConfigError::FileReadError(FilePath::new("a.json"), "gone".to_string())
    );
}

#[test]
fn parsed_entries_become_a_map() {
    let entries = vec![
        ("a".to_string(), serde_json::Value::from(1)),
        ("b".to_string(), serde_json::Value::from(2)),
        ("a".to_string(), serde_json::Value::from(3)),
    ];
    let map = config_from_parsed(Ok(entries)).unwrap();
    assert_eq!(map.len(), 2);
    assert_eq!(map.get("a").unwrap().as_i64(), Some(3));
    assert_eq!(map.get("b").unwrap().as_i64(), Some(2));
    assert_eq!(
        config_from_parsed(Err("bad".to_string())).unwrap_err(),
        ConfigError::ParseError("bad".to_string())
    );
}

#[test]
fn typed_getters_round_trip() {
    let text = "{\"s\": \"text\", \"b\": true, \"i\": -7, \"u\": 18446744073709551615, \"f\": 2.5, \"n\": null, \"o\": {\"in\": 1}, \"a\": [1, 2]}";
    let cm = build_one("all.json", text).unwrap();
    assert_eq!(cm.get_string("s"), Some("text".to_string()));
    assert_eq!(cm.get_str("s"), Some("text"));
    assert_eq!(cm.get_bool("b"), Some(true));
    assert_eq!(cm.get_i64("i"), Some(-7));
    assert_eq!(cm.get_u64("i"), None);
    assert_eq!(cm.get_u64("u"), Some(u64::MAX));
    assert_eq!(cm.get_i64("u"), None);
    assert_eq!(cm.get_i64("f"), None);
    assert_eq!(cm.get_number("f").unwrap().as_f64(), Some(2.5));
    assert_eq!(cm.get_number("i").unwrap().as_i64(), Some(-7));
    assert_eq!(cm.get_number("s"), None);
    assert_eq!(cm.get_object("o").unwrap().get("in").unwrap().as_i64(), Some(1));
    assert!(cm.get_object("a").is_none());
    assert!(cm.get_object("missing").is_none());
    assert!(cm.try_get("n").unwrap().is_null());
    assert_eq!(cm.get_str("b"), None);
    assert_eq!(cm.get_bool("s"), None);
    assert_eq!(cm.get_str("missing"), None);
    assert_eq!(cm.get_string("missing"), None);
    assert_eq!(cm.get_bool("missing"), None);
    assert_eq!(cm.get_i64("missing"), None);
    assert_eq!(cm.get_u64("missing"), None);
    assert!(cm.contains_key("n"));
    assert!(!cm.contains_key("N"));
    let (k, v) = cm.get_key_value("b").unwrap();
    assert_eq!(k, "b");
    assert_eq!(v.as_bool(), Some(true));
    assert!(cm.get_key_value("missing").is_none());
}

#[test]
fn try_get_names_the_missing_key() {
    let cm = build_one(TEST_JSON_PATH, TEST_JSON).unwrap();
    let e = cm.try_get("nothing").unwrap_err();
    assert_eq!(e, ConfigError::NullValue("nothing".to_string()));
    assert_eq!(e.message(), "Value: nothing not found in configs map");
}

#[test]
fn get_vec_is_all_or_nothing() {
    let cm = build_one(
        "v.json",
        "{\"good\": [\"1\", \"2\", \"3\"], \"mixed\": [\"1\", 2, \"3\"], \"none\": [], \"text\": \"1,2,3\"}",
    )
    .unwrap();
    assert_eq!(
        cm.get_vec::<String>("good"),
        Some(vec!["1".to_string(), "2".to_string(), "3".to_string()])
    );
    assert_eq!(cm.get_vec::<String>("mixed"), None);
    assert_eq!(cm.get_vec::<String>("none"), Some(vec![]));
    assert_eq!(cm.get_vec::<String>("text"), None);
    assert_eq!(cm.get_vec::<String>("missing"), None);
    assert_eq!(cm.get_vec::<i64>("good"), None);
}

#[test]
fn collect_step_keeps_all_or_nothing() {
    assert_eq!(collect_step(Some(vec![1, 2]), Ok(3)), Some(vec![1, 2, 3]));
    assert_eq!(collect_step(Some(vec![1, 2]), Err("bad".to_string())), None);
    assert_eq!(collect_step::<i32>(None, Ok(3)), None);
    assert_eq!(collect_step::<i32>(None, Err("bad".to_string())), None);
}

#[test]
fn get_struct_tells_missing_from_mismatched() {
    let cm = build_one(TEST_YAML_PATH, TEST_YAML).unwrap();
    let missing = cm.get_struct::<Vec<String>>("NOT_THERE").unwrap_err();
    assert_eq!(missing, ConfigError::KeyNotFoundError("NOT_THERE".to_string()));
    assert_eq!(missing.message(), "The key NOT_THERE not found on configurations");
    let mismatched = cm.get_struct::<Vec<String>>("SOME_INT").unwrap_err();
    assert!(matches!(mismatched, ConfigError::ParseError(_)));
    assert_eq!(cm.get_struct::<i64>("SOME_INT"), Ok(1));
    assert_eq!(
        cm.get_struct::<Vec<String>>("SOME_VEC"),
        Ok(vec!["1".to_string(), "2".to_string(), "3".to_string()])
    );
    assert_eq!(decoded_struct(Ok(5)), Ok(5));
    assert_eq!(
        decoded_struct::<i32>(Err("no".to_string())),
        Err(ConfigError::ParseError("no".to_string()))
    );
}

#[test]
fn parse_decodes_the_whole_configuration() {
    let cm = build_one("p.json", "{\"a\": 1, \"b\": 2}").unwrap();
    let whole: HashMap<String, i64> = cm.parse().unwrap();
    assert_eq!(whole.len(), 2);
    assert_eq!(whole["a"], 1);
    assert_eq!(whole["b"], 2);
    let e = cm.parse::<Vec<i64>>().unwrap_err();
    assert!(matches!(e, ConfigError::ParseError(_)));
}

#[test]
fn take_leaves_null_behind() {
    let mut cm = build_one(TEST_JSON_PATH, TEST_JSON).unwrap();
    let taken = cm.take("someInt");
    assert_eq!(taken, serde_json::Value::from(42));
    assert!(cm.try_get("someInt").unwrap().is_null());
    assert_eq!(cm.get_i64("someInt"), None);
    assert_eq!(cm.values().len(), 3);
    assert_eq!(cm.get_str("someString"), Some("Hello World!"));
}

#[test]
fn get_mut_changes_the_value_in_place() {
    let mut cm = build_one(TEST_JSON_PATH, TEST_JSON).unwrap();
    if let Some(v) = cm.get_mut("someInt") {
        *v = serde_json::Value::from(1);
    }
    assert_eq!(cm.get_i64("someInt"), Some(1));
    assert!(cm.get_mut("missing").is_none());
    assert_eq!(cm.values().len(), 3);
}

#[test]
fn config_map_inserts_and_extends() {
    let mut a = ConfigMap::new();
    assert!(a.is_empty());
    a.insert("x".to_string(), serde_json::Value::from(1));
    a.insert("y".to_string(), serde_json::Value::from(2));
    a.insert("x".to_string(), serde_json::Value::from(3));
    assert_eq!(a.len(), 2);
    assert_eq!(a.get("x").unwrap().as_i64(), Some(3));
    let mut b = ConfigMap::new();
    b.insert("y".to_string(), serde_json::Value::from(20));
    b.insert("z".to_string(), serde_json::Value::from(30));
    a.extend(&b);
    assert_eq!(a.len(), 3);
    let values: Vec<i64> = a.values().iter().map(|v| v.as_i64().unwrap()).collect();
    assert_eq!(values, vec![3, 20, 30]);
    assert_eq!(a.take("z").as_i64(), Some(30));
    assert!(a.get("z").unwrap().is_null());
    *a.get_mut("z").unwrap() = serde_json::Value::from("back");
    assert_eq!(a.get_key_value("z").unwrap().1.as_str(), Some("back"));
    assert!(a.get("w").is_none());
    assert!(!a.contains_key("w"));
    let cm = ConfigManager::new(a, vec![]);
    assert_eq!(cm.get_i64("y"), Some(20));
    assert!(cm.can_watch());
    assert!(cm.watch_target().is_none());
}

#[test]
fn error_messages() {
    assert_eq!(
        ConfigError::FeatureNotSupported(ConfigSource::Environment).message(),
        "Feature not passed 0"
    );
    assert_eq!(ConfigError::EmptySources.message(), "Must pass sources to read from");
    assert_eq!(
        ConfigError::ParseError("eof".to_string()).message(),
        "Error parsing configuration: eof"
    );
    assert_eq!(
        ConfigError::ValidationError("too big".to_string()).message(),
        "Validation error: too big"
    );
    assert_eq!(
        ConfigError::ProfileNotFoundError("dev".to_string()).message(),
        "Configuration profile not found: dev"
    );
    assert_eq!(
        ConfigError::FileWatchError("no inotify".to_string()).message(),
        "Failed to watch configuration file: no inotify"
    );
}

#[test]
fn only_files_of_a_supported_type_are_read() {
    assert!(needs_file(&ConfigSource::File(FilePath::new("a.json"))));
    assert!(needs_file(&ConfigSource::File(FilePath::new("a.yaml"))));
    assert!(!needs_file(&ConfigSource::File(FilePath::new("a.ini"))));
    assert!(!needs_file(&ConfigSource::Environment));
    assert!(!needs_file(&ConfigSource::CommandLine(vec![])));
}
