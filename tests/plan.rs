use crussh::builtin::{check_built_ins, change_dir, terminate, BuiltIn};
use crussh::parse;
use crussh::plan::Step;

#[test]
fn single_stage_plan() {
    let p = parse("ls -l").unwrap();
    assert_eq!(p.plan(), vec![Step::Spawn(0), Step::WaitAny]);
}

#[test]
fn pipeline_plan_starts_left_to_right_and_waits_right_to_left() {
    let p = parse("a | b & | c").unwrap();
    assert_eq!(
        p.plan(),
        vec![
            Step::OpenPipe,
            Step::Spawn(0),
            Step::CloseWriteEnd,
            Step::OpenPipe,
            Step::Spawn(1),
            Step::CloseWriteEnd,
            Step::Spawn(2),
            Step::WaitAny,
            Step::ReapNoHang(1),
            Step::WaitAny,
            Step::WaitAny,
        ]
    );
}

#[test]
fn background_stage_is_reaped_without_blocking() {
    let p = parse("sleep 5 &").unwrap();
    assert_eq!(p.plan(), vec![Step::Spawn(0), Step::ReapNoHang(0), Step::WaitAny]);
}

#[test]
fn pipeline_stages_carry_argv() {
    let stages = parse("cat < in | sort -r > out").unwrap().pipeline();
    assert_eq!(stages.len(), 2);
    assert_eq!(stages[0].argv, vec!["cat".to_string()]);
    assert_eq!(stages[0].red_in, Some("in".to_string()));
    assert_eq!(stages[1].argv, vec!["sort".to_string(), "-r".to_string()]);
    assert_eq!(stages[1].red_out, Some("out".to_string()));
}

#[test]
fn cd_takes_at_most_one_argument() {
    assert_eq!(change_dir(&vec![]), Ok(BuiltIn::ChangeDir(None)));
    assert_eq!(
        change_dir(&vec!["/tmp".to_string()]),
        Ok(BuiltIn::ChangeDir(Some("/tmp".to_string())))
    );
    assert_eq!(
        change_dir(&vec!["a".to_string(), "b".to_string()]),
        Err("crussh: cd: too many arguments".to_string())
    );
}

#[test]
fn exit_reads_a_status() {
    assert_eq!(terminate(&vec![]), Ok(BuiltIn::Exit(0)));
    assert_eq!(terminate(&vec!["3".to_string()]), Ok(BuiltIn::Exit(3)));
    assert_eq!(terminate(&vec!["-7".to_string()]), Ok(BuiltIn::Exit(-7)));
    assert_eq!(
        terminate(&vec!["abc".to_string()]),
        Err("crussh: exit: abc: numeric argument required".to_string())
    );
    assert_eq!(
        terminate(&vec!["1".to_string(), "2".to_string()]),
        Err("crussh: exit: too many arguments".to_string())
    );
}

#[test]
fn built_ins_are_recognised_by_name() {
    assert_eq!(check_built_ins("cd", &vec![]), Some(Ok(BuiltIn::ChangeDir(None))));
    assert_eq!(check_built_ins("exit", &vec![]), Some(Ok(BuiltIn::Exit(0))));
    assert_eq!(check_built_ins("ls", &vec![]), None);
}
