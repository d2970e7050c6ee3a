use crussh::command::args::Args;
use crussh::command::filename::FileName;
use crussh::command::pipe::Pipe;
use crussh::command::Command;
use crussh::parse;

fn name(s: &str) -> FileName {
    FileName(s.to_string())
}

fn args(words: &[&str], red_in: Option<&str>, red_out: Option<&str>) -> Args {
    Args {
        arg_vec: words.iter().map(|w| w.to_string()).collect(),
        red_in: red_in.map(name),
        red_out: red_out.map(name),
    }
}

fn cmd(filename: &str, a: Args, pipe: Option<Command>, background: bool) -> Command {
    Command {
        filename: name(filename),
        args: a,
        pipe: pipe.map(|c| Box::new(Pipe(c))),
        background,
    }
}

#[test]
fn parse_simple_command() {
    assert_eq!(
        Command::new("ls"),
        Ok(("", cmd("ls", args(&[], None, None), None, false)))
    );
}

#[test]
fn parse_command_with_args() {
    assert_eq!(
        Command::new("ls -la"),
        Ok(("", cmd("ls", args(&["-la"], None, None), None, false)))
    );
}

#[test]
fn parse_command_with_multiple_args() {
    assert_eq!(
        Command::new("ls -l -a"),
        Ok(("", cmd("ls", args(&["-l", "-a"], None, None), None, false)))
    );
}

#[test]
fn parse_command_with_dir_in() {
    assert_eq!(
        Command::new("wc < hello.txt"),
        Ok(("", cmd("wc", args(&[], Some("hello.txt"), None), None, false)))
    );
}

#[test]
fn parse_command_with_dir_out() {
    assert_eq!(
        Command::new("ls >hello.txt"),
        Ok(("", cmd("ls", args(&[], None, Some("hello.txt")), None, false)))
    );
}

#[test]
fn parse_command_with_pipe() {
    assert_eq!(
        Command::new("ls | grep \"hello world.c\""),
        Ok((
            "",
            cmd(
                "ls",
                args(&[], None, None),
                Some(cmd("grep", args(&["hello world.c"], None, None), None, false)),
                false
            )
        ))
    );
}

#[test]
fn parse_command_with_dirs() {
    assert_eq!(
        Command::new("wc < hello.c > \"good bye\""),
        Ok(("", cmd("wc", args(&[], Some("hello.c"), Some("good bye")), None, false)))
    );
}

#[test]
fn parse_command_with_dirs_pipe() {
    assert_eq!(
        Command::new("wc < hello.c -a | grep -b > fdaf32r_cdg.txt -s"),
        Ok((
            "",
            cmd(
                "wc",
                args(&["-a"], Some("hello.c"), None),
                Some(cmd(
                    "grep",
                    args(&["-b", "-s"], None, Some("fdaf32r_cdg.txt")),
                    None,
                    false
                )),
                false
            )
        ))
    );
}

#[test]
fn parse_command_with_multiple_pipes() {
    assert_eq!(
        Command::new("ls -la | grep foo | wc"),
        Ok((
            "",
            cmd(
                "ls",
                args(&["-la"], None, None),
                Some(cmd(
                    "grep",
                    args(&["foo"], None, None),
                    Some(cmd("wc", args(&[], None, None), None, false)),
                    false
                )),
                false
            )
        ))
    );
}

#[test]
fn parse_command_complex() {
    assert_eq!(
        Command::new("ls -la | grep foo | wc > hello.rs"),
        Ok((
            "",
            cmd(
                "ls",
                args(&["-la"], None, None),
                Some(cmd(
                    "grep",
                    args(&["foo"], None, None),
                    Some(cmd("wc", args(&[], None, Some("hello.rs")), None, false)),
                    false
                )),
                false
            )
        ))
    );
}

#[test]
fn parse_command_complex_background() {
    assert_eq!(
        Command::new("ls -la | grep foo | wc > hello.rs &"),
        Ok((
            "",
            cmd(
                "ls",
                args(&["-la"], None, None),
                Some(cmd(
                    "grep",
                    args(&["foo"], None, None),
                    Some(cmd("wc", args(&[], None, Some("hello.rs")), None, true)),
                    false
                )),
                false
            )
        ))
    );
}

#[test]
fn lone_program_has_no_arguments() {
    let p = parse("ls").unwrap();
    assert_eq!(p.get_filename(), "ls");
    assert!(p.get_args().is_empty());
    let stages = p.pipeline();
    assert_eq!(stages.len(), 1);
    assert_eq!(stages[0].argv, vec!["ls".to_string()]);
    assert_eq!(stages[0].red_in, None);
    assert_eq!(stages[0].red_out, None);
    assert!(!stages[0].background);
}

#[test]
fn arguments_keep_their_order() {
    let p = parse("ls -l -a").unwrap();
    assert_eq!(p.get_filename(), "ls");
    assert_eq!(p.get_args(), &vec!["-l".to_string(), "-a".to_string()]);
}

#[test]
fn redirection_is_taken_out_of_the_arguments() {
    let p = parse("wc < in.txt -a").unwrap();
    assert_eq!(p.get_args(), &vec!["-a".to_string()]);
    let stages = p.pipeline();
    assert_eq!(stages[0].red_in, Some("in.txt".to_string()));
    assert_eq!(stages[0].red_out, None);
    assert_eq!(stages[0].argv, vec!["wc".to_string(), "-a".to_string()]);
}

#[test]
fn last_redirection_of_a_direction_wins() {
    let p = parse("cat < a.txt > x < b.txt > y").unwrap();
    let stages = p.pipeline();
    assert_eq!(stages[0].red_in, Some("b.txt".to_string()));
    assert_eq!(stages[0].red_out, Some("y".to_string()));
    assert!(p.get_args().is_empty());
}

#[test]
fn pipes_nest_to_the_right() {
    assert_eq!(
        Command::new("a | b | c"),
        Ok((
            "",
            cmd(
                "a",
                args(&[], None, None),
                Some(cmd(
                    "b",
                    args(&[], None, None),
                    Some(cmd("c", args(&[], None, None), None, false)),
                    false
                )),
                false
            )
        ))
    );
    let stages = parse("a | b | c").unwrap().pipeline();
    let names: Vec<String> = stages.iter().map(|s| s.argv[0].clone()).collect();
    assert_eq!(names, vec!["a".to_string(), "b".to_string(), "c".to_string()]);
}

#[test]
fn trailing_ampersand_runs_in_background() {
    let p = parse("sleep 5 &").unwrap();
    assert_eq!(p.get_args(), &vec!["5".to_string()]);
    let stages = p.pipeline();
    assert!(stages[0].background);
    assert_eq!(stages[0].red_out, Some("sleep-log".to_string()));
}

#[test]
fn background_keeps_an_explicit_output() {
    let stages = parse("sleep 5 > out.txt &").unwrap().pipeline();
    assert!(stages[0].background);
    assert_eq!(stages[0].red_out, Some("out.txt".to_string()));
}

#[test]
fn background_of_a_quoted_program_logs_under_its_whole_name() {
    let stages = parse("\"my prog\" &").unwrap().pipeline();
    assert!(stages[0].background);
    assert_eq!(stages[0].red_out, Some("my prog-log".to_string()));
}

#[test]
fn dangling_redirection_is_an_error() {
    assert_eq!(parse("wc <"), Err("expected at least one character".to_string()));
    assert_eq!(parse("wc >   "), Err("expected at least one character".to_string()));
}

#[test]
fn unclosed_quote_is_an_error() {
    assert_eq!(parse("echo \"abc"), Err("expected \"".to_string()));
}

#[test]
fn empty_quotes_are_an_error() {
    assert_eq!(parse("echo \"\""), Err("expected at least one character".to_string()));
}

#[test]
fn empty_line_is_an_error() {
    assert_eq!(parse(""), Err("expected at least one character".to_string()));
    assert_eq!(parse(" ls"), Err("expected at least one character".to_string()));
}

#[test]
fn whole_line_is_consumed() {
    assert_eq!(Command::new("ls -l | wc").unwrap().0, "");
    assert!(parse("ls   \n").is_ok());
    assert_eq!(parse("ls |"), Err("expected at least one character".to_string()));
}
