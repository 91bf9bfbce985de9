use poxhash::options::{
    all_are_false, arg_has_flag, assert_file, assert_int, classify_arg, get_exec_name,
    search_for_flag_reocurrance, to_int, validate_flags, ArgError, ArgKind, Command,
};

fn s(x: &str) -> String {
    x.to_string()
}

fn argv(items: &[&str]) -> Vec<String> {
    items.iter().map(|x| x.to_string()).collect()
}

#[test]
fn flag_presence_ignores_the_closing_dash() {
    assert!(arg_has_flag(&s("-h8-"), 'h'));
    assert!(arg_has_flag(&s("-h8-"), '8'));
    assert!(arg_has_flag(&s("-h8-"), '-'));
    assert!(!arg_has_flag(&s("-h8"), '8'));
    assert!(!arg_has_flag(&s("-h8-"), 'g'));
}

#[test]
fn no_true_value() {
    assert!(all_are_false(vec![]));
    assert!(all_are_false(vec![false, false]));
    assert!(!all_are_false(vec![false, true, false]));
}

#[test]
fn argument_prefixes() {
    assert!(assert_file(&s("file=a.txt")));
    assert!(!assert_file(&s("file=")));
    assert!(!assert_file(&s("fil=a")));
    assert!(assert_int(&s("int=1,2")));
    assert!(!assert_int(&s("int=")));
    assert_eq!(classify_arg(&s("int=0x10")), ArgKind::Ints);
    assert_eq!(classify_arg(&s("file=x")), ArgKind::File);
    assert_eq!(classify_arg(&s("hello")), ArgKind::Text);
    assert_eq!(classify_arg(&s("int=")), ArgKind::Text);
}

#[test]
fn repeated_flags() {
    assert_eq!(search_for_flag_reocurrance(&s("^h^")), Ok('^'));
    assert_eq!(search_for_flag_reocurrance(&s("^^^")), Err(ArgError::TooManyBenchmarks));
    assert_eq!(search_for_flag_reocurrance(&s("hgbg")), Ok('g'));
    assert_eq!(search_for_flag_reocurrance(&s("hgb")), Ok('\0'));
    assert_eq!(search_for_flag_reocurrance(&s("")), Ok('\0'));
}

#[test]
fn byte_lists() {
    assert_eq!(to_int(&s("0b101,0o17,0xff,200")), Ok(vec![5, 15, 255, 200]));
    assert_eq!(to_int(&s("0xAb")), Ok(vec![0xab]));
    assert_eq!(to_int(&s("7")), Ok(vec![7]));
    assert_eq!(to_int(&s("0x100")), Err(ArgError::NumberTooLong));
    assert_eq!(to_int(&s("0b111111111")), Err(ArgError::NumberTooLong));
    assert_eq!(to_int(&s("0o777")), Err(ArgError::BadNumber));
    assert_eq!(to_int(&s("256")), Err(ArgError::BadNumber));
    assert_eq!(to_int(&s("0b102")), Err(ArgError::BadNumber));
    assert_eq!(to_int(&s("0x")), Err(ArgError::BadNumber));
    assert_eq!(to_int(&s("12a")), Err(ArgError::NotDecimal));
    assert_eq!(to_int(&s("1,,2")), Err(ArgError::BadNumber));
    assert_eq!(to_int(&s("12a,0x100")), Err(ArgError::NotDecimal));
}

#[test]
fn valid_command_lines() {
    assert_eq!(validate_flags(&argv(&["pox", "-?-"])), Ok(Command::Help));
    assert_eq!(validate_flags(&argv(&["pox", "-h-", "msg"])), Ok(Command::Hash));
    assert_eq!(validate_flags(&argv(&["pox", "-^^+N-", "a", "b"])), Ok(Command::Hash));
    assert_eq!(validate_flags(&argv(&["pox", "-^3*-", "a"])), Ok(Command::Hash));
}

#[test]
fn refused_command_lines() {
    assert_eq!(validate_flags(&argv(&["pox"])), Err(ArgError::NoFlags));
    assert_eq!(validate_flags(&argv(&["pox", "-h"])), Err(ArgError::BadFlagLength));
    assert_eq!(validate_flags(&argv(&["pox", "+hg-"])), Err(ArgError::NotDashed));
    assert_eq!(validate_flags(&argv(&["pox", "-hG-", "a"])), Err(ArgError::WrongFlag('G', 'g')));
    assert_eq!(validate_flags(&argv(&["pox", "-E-", "a"])), Err(ArgError::WrongFlag('E', '*')));
    assert_eq!(validate_flags(&argv(&["pox", "-?h-", "a"])), Err(ArgError::HelpWithOthers));
    assert_eq!(validate_flags(&argv(&["pox", "-^^^-", "a"])), Err(ArgError::TooManyBenchmarks));
    assert_eq!(validate_flags(&argv(&["pox", "-hh-", "a"])), Err(ArgError::RepeatedFlag('h')));
    assert_eq!(validate_flags(&argv(&["pox", "-h-"])), Err(ArgError::NoMessage));
    assert_eq!(validate_flags(&argv(&["pox", "-h9-", "a"])), Err(ArgError::TimeWithoutBenchmark));
    assert_eq!(validate_flags(&argv(&["pox", "-^^9-", "a"])), Err(ArgError::TimeWithDoubleBenchmark));
    assert_eq!(validate_flags(&argv(&["pox", "-*N-", "a"])), Err(ArgError::EverythingWithGroup));
    assert_eq!(validate_flags(&argv(&["pox", "-D*-", "a"])), Err(ArgError::GroupWithEverything));
    assert_eq!(validate_flags(&argv(&["pox", "-D8-", "a"])), Err(ArgError::DecimalWithGroup));
    assert_eq!(validate_flags(&argv(&["pox", "-Nh-", "a"])), Err(ArgError::NonDecimalWithGroup));
    assert_eq!(validate_flags(&argv(&["pox", "-h-g-", "a"])), Err(ArgError::DashInside));
    assert_eq!(validate_flags(&argv(&["pox", "-hk-", "a"])), Err(ArgError::UnknownFlag('k')));
}

#[test]
fn program_name_is_the_last_path_segment() {
    assert_eq!(get_exec_name(&s("/usr/local/bin/pox")), "pox");
    assert_eq!(get_exec_name(&s("pox")), "pox");
    assert_eq!(get_exec_name(&s("./target/")), "");
    assert_eq!(get_exec_name(&s("")), "");
}
