use soft65c02::{
    config_load_order, expand_env_vars, replace_env_vars, substitute_placeholders, tester_arguments, CompilerType, Config,
    ConfigFile,
};

fn strings(v: &[&str]) -> Option<Vec<String>> {
    Some(v.iter().map(|s| s.to_string()).collect())
}

fn env(pairs: &[(&str, &str)]) -> Vec<(String, String)> {
    pairs.iter().map(|(k, v)| (k.to_string(), v.to_string())).collect()
}

#[test]
fn test_realistic_config_usage() {
    let platform = Config {
        compiler: Some(CompilerType::CC65),
        target: Some("atari".to_string()),
        config_file: Some("platform/atari.cfg".to_string()),
        include_paths: strings(&["platform/include"]),
        ..Config::default()
    };
    let common = Config {
        src_files: strings(&["lib/common/io.s", "lib/common/math.s"]),
        include_paths: strings(&["lib/common/include"]),
        ..Config::default()
    };
    let game = Config {
        src_files: strings(&["lib/game/sprites.s", "lib/game/sound.s"]),
        include_paths: strings(&["lib/game/include"]),
        ..Config::default()
    };
    let project = Config {
        configs: strings(&["atari.yaml", "common_lib.yaml", "game_lib.yaml"]),
        name: Some("awesome_game".to_string()),
        src_files: strings(&["src/main.s", "src/levels.s"]),
        include_paths: strings(&["src/include"]),
        ..Config::default()
    };
    let config = Config::merge_all(vec![platform, common, game, project]);

    assert_eq!(config.compiler, Some(CompilerType::CC65));
    assert_eq!(config.target, Some("atari".to_string()));
    assert_eq!(config.config_file, Some("platform/atari.cfg".to_string()));
    assert_eq!(config.name, Some("awesome_game".to_string()));
    assert_eq!(config.configs, None);
    assert_eq!(
        config.include_paths,
        strings(&["platform/include", "lib/common/include", "lib/game/include", "src/include"])
    );
    assert_eq!(
        config.src_files,
        strings(&[
            "lib/common/io.s",
            "lib/common/math.s",
            "lib/game/sprites.s",
            "lib/game/sound.s",
            "src/main.s",
            "src/levels.s"
        ])
    );
}

#[test]
fn merge_prefers_later_values() {
    let base = Config { name: Some("base".to_string()), c_flags: strings(&["-O"]), ..Config::default() };
    let other = Config { name: Some("other".to_string()), c_flags: None, ld_flags: strings(&["-m"]), ..Config::default() };
    let merged = base.merge(other);
    assert_eq!(merged.name, Some("other".to_string()));
    assert_eq!(merged.c_flags, strings(&["-O"]));
    assert_eq!(merged.ld_flags, strings(&["-m"]));

    let base = Config { target: Some("nes".to_string()), ..Config::default() };
    let merged = base.merge(Config::default());
    assert_eq!(merged.target, Some("nes".to_string()));
}

#[test]
fn merge_is_associative_on_an_example() {
    let make = |n: &str, f: &[&str]| Config { name: Some(n.to_string()), asm_flags: strings(f), ..Config::default() };
    let left = make("a", &["1"]).merge(make("b", &["2"])).merge(make("c", &["3"]));
    let right = make("a", &["1"]).merge(make("b", &["2"]).merge(make("c", &["3"])));
    assert_eq!(left.name, right.name);
    assert_eq!(left.asm_flags, right.asm_flags);
    assert_eq!(left.asm_flags, strings(&["1", "2", "3"]));
}

#[test]
fn test_env_vars() {
    let content = "\nname: ${PROJECT_NAME}\ninclude_paths:\n  - \"${SDK_PATH}/include\"\ncompiler: cc65\n";
    let environment = env(&[("PROJECT_NAME", "test_game"), ("SDK_PATH", "sdk")]);
    let replaced = replace_env_vars(content, &environment).unwrap();
    assert_eq!(replaced, "\nname: test_game\ninclude_paths:\n  - \"sdk/include\"\ncompiler: cc65\n");
}

#[test]
fn env_vars_missing_variable() {
    let result = replace_env_vars("name: ${NOT_THERE}", &env(&[("OTHER", "x")]));
    assert!(result.unwrap_err().to_string().contains("Environment variable 'NOT_THERE' not found"));
    assert_eq!(replace_env_vars("no variables here", &vec![]).unwrap(), "no variables here");
}

#[test]
fn placeholders_replaced_everywhere() {
    let matches = vec![("${A}".to_string(), "A".to_string())];
    let result = substitute_placeholders("${A}-${A}", &matches, &env(&[("A", "1")])).unwrap();
    assert_eq!(result, "1-1");
    assert!(substitute_placeholders("${B}", &vec![("${B}".to_string(), "B".to_string())], &vec![]).is_err());
}

#[test]
fn path_variables_expanded() {
    let environment = env(&[("BUILD_DIR", "/tmp/build"), ("HOME", "/home/me")]);
    assert_eq!(expand_env_vars("${BUILD_DIR}/test-file.bin", &environment), "/tmp/build/test-file.bin");
    assert_eq!(expand_env_vars("$HOME/roms/a.bin", &environment), "/home/me/roms/a.bin");
    assert_eq!(expand_env_vars("${MISSING}/x", &environment), "/x");
    assert_eq!(expand_env_vars("plain/path.bin", &environment), "plain/path.bin");
    assert_eq!(expand_env_vars("cost$", &environment), "cost$");
    assert_eq!(expand_env_vars("${UNCLOSED", &environment), "${UNCLOSED");
}

#[test]
fn tester_arguments_for_a_project() {
    let script = Some("tests/test.s65".to_string());
    assert_eq!(tester_arguments(false, &script).unwrap(), vec!["-i".to_string(), "tests/test.s65".to_string()]);
    assert_eq!(
        tester_arguments(true, &script).unwrap(),
        vec!["-v".to_string(), "-i".to_string(), "tests/test.s65".to_string()]
    );
    let error = tester_arguments(true, &None).unwrap_err();
    assert!(error.to_string().contains("No test script specified in config"));
}

fn file(path: &str, dir: &str, references: &[(&str, &str)]) -> ConfigFile {
    ConfigFile {
        path: path.to_string(),
        dir: dir.to_string(),
        references: references.iter().map(|(w, f)| (w.to_string(), f.to_string())).collect(),
    }
}

#[test]
fn test_circular_dependency() {
    let files = vec![
        file("/t/config1.yaml", "/t", &[("config2.yaml", "/t/config2.yaml")]),
        file("/t/config2.yaml", "/t", &[("config1.yaml", "/t/config1.yaml")]),
    ];
    let result = config_load_order(&files, &"/t/config1.yaml".to_string());
    let message = result.unwrap_err().to_string();
    assert!(message.contains("Circular dependency"));
    assert_eq!("Circular dependency detected while loading config: /t/config1.yaml", message);
}

#[test]
fn load_order_puts_dependencies_first() {
    let files = vec![
        file("/p/game.yaml", "/p", &[
            ("atari.yaml", "/p/atari.yaml"),
            ("common_lib.yaml", "/p/common_lib.yaml"),
            ("game_lib.yaml", "/p/game_lib.yaml"),
        ]),
        file("/p/atari.yaml", "/p", &[]),
        file("/p/common_lib.yaml", "/p", &[]),
        file("/p/game_lib.yaml", "/p", &[]),
    ];
    let order = config_load_order(&files, &"/p/game.yaml".to_string()).unwrap();
    assert_eq!(vec!["/p/atari.yaml", "/p/common_lib.yaml", "/p/game_lib.yaml", "/p/game.yaml"], order);
}

#[test]
fn load_order_reports_missing_reference() {
    let files = vec![file("/p/game.yaml", "/p", &[("lib/missing.yaml", "/p/lib/missing.yaml")])];
    let e = config_load_order(&files, &"/p/game.yaml".to_string()).unwrap_err();
    assert_eq!(
        "Config file not found: lib/missing.yaml. Paths are resolved relative to the config file directory: /p",
        e.to_string()
    );
}

#[test]
fn shared_dependency_is_reported_as_circular() {
    let files = vec![
        file("/p/a.yaml", "/p", &[("b.yaml", "/p/b.yaml"), ("c.yaml", "/p/c.yaml")]),
        file("/p/b.yaml", "/p", &[("d.yaml", "/p/d.yaml")]),
        file("/p/c.yaml", "/p", &[("d.yaml", "/p/d.yaml")]),
        file("/p/d.yaml", "/p", &[]),
    ];
    let e = config_load_order(&files, &"/p/a.yaml".to_string()).unwrap_err();
    assert_eq!("Circular dependency detected while loading config: /p/d.yaml", e.to_string());
}

#[test]
fn placeholders_are_found_left_to_right() {
    let environment = env(&[("A", "1"), ("B", "2")]);
    assert_eq!("x${}y12${A", replace_env_vars("x${}y${A}${B}${A", &environment).unwrap());
    assert_eq!("1", replace_env_vars("${${A}", &env(&[("${A", "1")])).unwrap());
}
