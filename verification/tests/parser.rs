use rpi_imgpatcher::patcher::parser::{extract_arguments, interpolate_env, parse_instructions, EnvVars};
use rpi_imgpatcher::patcher::{Instruction, PatchError};

fn parse(text: &str) -> Result<Vec<Instruction>, PatchError> {
    parse_instructions(text, &EnvVars::new())
}

fn chars(s: &str) -> Vec<char> {
    s.chars().collect()
}

#[test]
fn parse_instructions_rejects_empty_patcherfile() {
    assert!(matches!(parse(""), Err(PatchError::EmptyPatcherfile)));
}

#[test]
fn parse_instructions_allows_exec_before_from() {
    let patcherfile = r#"
      EXEC echo "prepare"
      FROM "base.img"
      SAVE "out.img"
    "#;

    let instructions = parse(patcherfile).unwrap();
    assert!(matches!(
        instructions[0],
        Instruction::Exec {
            program: _,
            args: _
        }
    ));
    assert!(matches!(instructions[1], Instruction::From { .. }));
    assert!(matches!(instructions[2], Instruction::Save { .. }));
}

#[test]
fn parse_instructions_parses_exec_program_and_args() {
    let patcherfile = r#"
      EXEC cp "file a.txt" "file b.txt"
      FROM "base.img"
      SAVE "out.img"
    "#;

    let instructions = parse(patcherfile).unwrap();
    assert!(matches!(
        &instructions[0],
        Instruction::Exec { program, args } if program == "cp" && args == &vec!["file a.txt".to_owned(), "file b.txt".to_owned()]
    ));
}

#[test]
fn parse_instructions_allows_shell_before_from() {
    let patcherfile = r#"
      SHELL echo "prepare" | cat
      FROM "base.img"
      SAVE "out.img"
    "#;

    let instructions = parse(patcherfile).unwrap();
    assert!(matches!(
        &instructions[0],
        Instruction::Shell { command } if command == "echo \"prepare\" | cat"
    ));
}

#[test]
fn parse_instructions_trims_shell_command() {
    let patcherfile = r#"
      SHELL     echo "prepare"
      FROM "base.img"
      SAVE "out.img"
    "#;

    let instructions = parse(patcherfile).unwrap();
    assert!(matches!(
        &instructions[0],
        Instruction::Shell { command } if command == "echo \"prepare\""
    ));
}

#[test]
fn parse_instructions_ignores_comments_and_blank_lines() {
    let patcherfile = r#"
      # comment 1

      FROM "base.img"
      # comment 2
      SAVE "out.img"
    "#;

    let instructions = parse(patcherfile).unwrap();
    assert_eq!(instructions.len(), 2);
    assert!(matches!(instructions[0], Instruction::From { .. }));
    assert!(matches!(instructions[1], Instruction::Save { .. }));
}

#[test]
fn parse_instructions_rejects_multiple_save_instructions() {
    let patcherfile = r#"
      FROM "base.img"
      SAVE "out-a.img"
      SAVE "out-b.img"
    "#;

    assert!(matches!(parse(patcherfile), Err(PatchError::MultipleSaveInstructions)));
}

#[test]
fn parse_instructions_rejects_save_not_last() {
    let patcherfile = r#"
      FROM "base.img"
      SAVE "out.img"
      SHELL echo "should fail"
    "#;

    assert!(matches!(parse(patcherfile), Err(PatchError::SaveMustBeLastInstruction)));
}

#[test]
fn rejects_missing_from() {
    assert!(matches!(parse("SAVE out.img"), Err(PatchError::MissingFromInstruction)));
}

#[test]
fn rejects_missing_save() {
    assert!(matches!(parse("FROM base.img"), Err(PatchError::MissingSaveInstruction)));
}

#[test]
fn rejects_multiple_from() {
    let text = "FROM a.img\nFROM b.img\nSAVE out.img";
    assert!(matches!(parse(text), Err(PatchError::MultipleFromInstructions)));
}

#[test]
fn rejects_unknown_instruction() {
    let text = "FROM a.img\nCOPY x y\nSAVE out.img";
    assert!(matches!(parse(text), Err(PatchError::UnknownInstruction(name)) if name == "COPY"));
}

#[test]
fn lowercase_instruction_names_are_unknown() {
    let text = "from a.img\nSAVE out.img";
    assert!(matches!(parse(text), Err(PatchError::UnknownInstruction(name)) if name == "from"));
}

#[test]
fn rejects_missing_arguments() {
    assert!(matches!(parse("FROM\nSAVE o"), Err(PatchError::MissingArgument(i)) if i == "FROM"));
    assert!(matches!(parse("FROM a\nSAVE"), Err(PatchError::MissingArgument(i)) if i == "SAVE"));
    assert!(matches!(parse("FROM a\nEXEC\nSAVE o"), Err(PatchError::MissingArgument(i)) if i == "EXEC"));
    assert!(matches!(parse("FROM a\nSHELL   \nSAVE o"), Err(PatchError::MissingArgument(i)) if i == "SHELL"));
}

#[test]
fn rejects_invalid_arguments() {
    assert!(matches!(
        parse("FROM a b\nSAVE o"),
        Err(PatchError::InvalidArguments(i, args)) if i == "FROM" && args == vec!["a".to_owned(), "b".to_owned()]
    ));
    assert!(matches!(
        parse("FROM a\nADD DIR x y\nSAVE o"),
        Err(PatchError::InvalidArguments(i, _)) if i == "ADD"
    ));
    assert!(matches!(
        parse("FROM a\nAPPEND FILE x\nSAVE o"),
        Err(PatchError::InvalidArguments(i, _)) if i == "APPEND"
    ));
}

#[test]
fn parses_every_instruction_kind() {
    let text = "FROM \"base.img\"\nADD FILE \"boot/a b.txt\" ./a.txt\nAPPEND FILE boot/c.txt ./c.txt\nAPPEND CMDLINE quiet\nSAVE out.img extra";
    let v = parse(text).unwrap();
    assert_eq!(v.len(), 5);
    assert!(matches!(&v[0], Instruction::From { source_image } if source_image == "base.img"));
    assert!(matches!(&v[1], Instruction::AddFile { fat_path, host_file } if fat_path == "boot/a b.txt" && host_file == "./a.txt"));
    assert!(matches!(&v[2], Instruction::AppendFile { fat_path, host_file } if fat_path == "boot/c.txt" && host_file == "./c.txt"));
    assert!(matches!(&v[3], Instruction::AppendCmdline { append_conf } if append_conf == "quiet"));
    assert!(matches!(&v[4], Instruction::Save { output_image } if output_image == "out.img"));
}

#[test]
fn expands_variables_in_arguments() {
    let mut env = EnvVars::new();
    env.set("CLIENT".to_owned(), "client-a".to_owned());
    let text = "FROM \"base.img\"\nADD FILE \"boot/firstrun-$CLIENT.sh\" \"./firstrun-$CLIENT.sh\"\nSAVE \"image-$CLIENT.img\"";
    let v = parse_instructions(text, &env).unwrap();
    assert!(matches!(&v[1], Instruction::AddFile { fat_path, host_file } if fat_path == "boot/firstrun-client-a.sh" && host_file == "./firstrun-client-a.sh"));
    assert!(matches!(&v[2], Instruction::Save { output_image } if output_image == "image-client-a.img"));
}

#[test]
fn variables_are_not_expanded_in_instruction_names() {
    let mut env = EnvVars::new();
    env.set("CMD".to_owned(), "SAVE".to_owned());
    let text = "FROM a\n$CMD out.img";
    assert!(matches!(parse_instructions(text, &env), Err(PatchError::UnknownInstruction(name)) if name == "$CMD"));
}

#[test]
fn interpolation_replaces_defined_and_undefined_variables() {
    let mut env = EnvVars::new();
    env.set("NAME".to_owned(), "pi".to_owned());
    env.set("NAME".to_owned(), "zero".to_owned());
    let out: String = interpolate_env(&chars("a-$NAME-$MISSING-$-$_x"), &env).into_iter().collect();
    assert_eq!(out, "a-zero--$-");
}

#[test]
fn text_without_dollar_is_unchanged() {
    let env = EnvVars::new();
    let out: String = interpolate_env(&chars("plain text, no variables"), &env).into_iter().collect();
    assert_eq!(out, "plain text, no variables");
}

#[test]
fn quoted_text_is_one_argument() {
    assert_eq!(extract_arguments(&chars("\"a b  c\"")), vec!["a b  c".to_owned()]);
}

#[test]
fn spaces_outside_quotes_separate_arguments() {
    assert_eq!(
        extract_arguments(&chars("  one two\"3 4\"  five ")),
        vec!["one".to_owned(), "two3 4".to_owned(), "five".to_owned()]
    );
    assert_eq!(extract_arguments(&chars("")), Vec::<String>::new());
    assert_eq!(extract_arguments(&chars("\"\"")), Vec::<String>::new());
}

#[test]
fn comment_line_inserted_anywhere_changes_nothing() {
    let base = "FROM a.img\nEXEC true\nSAVE out.img";
    let with_comment = "FROM a.img\n   # a comment\nEXEC true\n\t\nSAVE out.img";
    let a = parse(base).unwrap();
    let b = parse(with_comment).unwrap();
    assert_eq!(a.len(), b.len());
    assert_eq!(b.len(), 3);
}

#[test]
fn windows_line_endings_are_trimmed() {
    let v = parse("FROM a.img\r\nSAVE out.img\r\n").unwrap();
    assert!(matches!(&v[0], Instruction::From { source_image } if source_image == "a.img"));
    assert!(matches!(&v[1], Instruction::Save { output_image } if output_image == "out.img"));
}

#[test]
fn arguments_rejoin_to_the_text_without_quotes_and_outer_spaces() {
    let text = "a \"b c\"  d\"e\" ";
    let args = extract_arguments(&chars(text));
    assert_eq!(args.concat(), "ab cde");
    assert!(args.iter().all(|a| !a.is_empty() && !a.contains('"')));
}

#[test]
fn text_without_quotes_splits_at_spaces() {
    let text = "  one two   three ";
    let expected: Vec<String> = text.split(' ').filter(|w| !w.is_empty()).map(String::from).collect();
    assert_eq!(extract_arguments(&chars(text)), expected);
}

#[test]
fn variable_names_stop_at_ascii_punctuation() {
    let mut env = EnvVars::new();
    env.set("HOME".to_owned(), "/root".to_owned());
    let out: String = interpolate_env(&chars("$HOME.{$HOME}\\\"$HOME\""), &env).into_iter().collect();
    assert_eq!(out, "/root.{/root}\\\"/root\"");
}
