use melos_rs::expand::{expand_command, substitute_env_vars};

#[test]
fn test_expand_simple_command() {
    let result = expand_command("flutter analyze .");
    assert_eq!(result, vec!["flutter analyze ."]);
}

#[test]
fn test_expand_chained_command() {
    let result = expand_command("melos run generate:dart && melos run generate:flutter");
    assert_eq!(result, vec!["melos-rs run generate:dart", "melos-rs run generate:flutter"]);
}

#[test]
fn test_expand_exec_command() {
    let result = expand_command("melos exec -c 1 -- flutter analyze .");
    assert_eq!(result, vec!["melos-rs exec -c 1 -- flutter analyze ."]);
}

#[test]
fn test_expand_preserves_melos_rs() {
    let result = expand_command("melos-rs run generate && melos run build");
    assert_eq!(result, vec!["melos-rs run generate", "melos-rs run build"]);
}

#[test]
fn test_expand_keeps_melos_inside_words() {
    let result = expand_command("  echo melos_x xmelos melos.yaml  ");
    assert_eq!(result, vec!["echo melos_x xmelos melos-rs.yaml"]);
}

#[test]
fn test_expand_empty_parts() {
    assert_eq!(expand_command(""), vec![""]);
    assert_eq!(expand_command("a &&&& b"), vec!["a", "", "b"]);
}

#[test]
fn test_substitute_env_vars() {
    let env = vec![("MELOS_ROOT_PATH".to_string(), "/workspace".to_string())];

    assert_eq!(substitute_env_vars("echo $MELOS_ROOT_PATH", &env), "echo /workspace");
    assert_eq!(substitute_env_vars("echo ${MELOS_ROOT_PATH}/bin", &env), "echo /workspace/bin");
}

#[test]
fn test_substitute_env_vars_word_boundary() {
    let env = vec![
        ("MELOS_ROOT".to_string(), "/root".to_string()),
        ("MELOS_ROOT_PATH".to_string(), "/workspace".to_string()),
    ];

    assert_eq!(substitute_env_vars("echo $MELOS_ROOT_PATH", &env), "echo /workspace");
    assert_eq!(substitute_env_vars("echo $MELOS_ROOT end", &env), "echo /root end");
    assert_eq!(substitute_env_vars("$MELOS_ROOT and $MELOS_ROOT_PATH", &env), "/root and /workspace");
    assert_eq!(
        substitute_env_vars("${MELOS_ROOT} and ${MELOS_ROOT_PATH}", &env),
        "/root and /workspace"
    );
    assert_eq!(substitute_env_vars("path=$MELOS_ROOT", &env), "path=/root");
}

#[test]
fn test_substitute_env_vars_unknown_and_suffixed_names_stay() {
    let env = vec![("A".to_string(), "1".to_string())];
    assert_eq!(substitute_env_vars("$AB $A_ $A-x ${A}B $B", &env), "$AB $A_ 1-x 1B $B");
}
