use cat_clone::cli::Cli;
use cat_clone::commands::{
    get_lines_from_files, show_ends, show_line_numbers, show_nonblank_line_numbers, show_tabs,
    squeeze_blanks, CatCommands, Command,
};

fn to_lines(parts: &[&str]) -> Vec<String> {
    parts.iter().map(|s| s.to_string()).collect()
}

fn test_data() -> Vec<String> {
    to_lines(&["test", "test", "", "test\ttest", "", "", "test"])
}

#[test]
fn test_squeeze_blanks() {
    let lines: Vec<String> = test_data();

    let out: Vec<String> = squeeze_blanks(lines);

    assert_eq!(out, vec!["test", "test", "", "test\ttest", "", "test"]);
}

#[test]
fn test_show_line_numbers() {
    let lines: Vec<String> = test_data();

    let out: Vec<String> = show_line_numbers(lines);

    assert_eq!(
        out,
        vec![
            "     1  test",
            "     2  test",
            "     3  ",
            "     4  test\ttest",
            "     5  ",
            "     6  ",
            "     7  test"
        ]
    );
}

#[test]
fn test_show_nonblank_line_numbers() {
    let lines: Vec<String> = test_data();

    let out: Vec<String> = show_nonblank_line_numbers(lines);

    assert_eq!(
        out,
        vec![
            "     1  test",
            "     2  test",
            "",
            "     3  test\ttest",
            "",
            "",
            "     4  test"
        ]
    );
}

#[test]
fn test_show_tabs() {
    let lines: Vec<String> = test_data();

    let out: Vec<String> = show_tabs(lines);

    assert_eq!(out, vec!["test", "test", "", "test^Itest", "", "", "test"]);
}

#[test]
fn test_show_ends() {
    let lines: Vec<String> = test_data();

    let out: Vec<String> = show_ends(lines);

    assert_eq!(
        out,
        vec!["test$", "test$", "$", "test\ttest$", "$", "$", "test$"]
    );
}

#[test]
fn test_modify_lines() {
    let lines: Vec<String> = test_data();

    let commands: Vec<Command> = vec![
        Command::SqueezeBlanks,
        Command::ShowNonblankLineNumbers,
        Command::ShowTabs,
        Command::ShowEnds,
    ];

    let cat_commands: CatCommands = CatCommands { lines, commands };

    let cat_commands = cat_commands.modify_lines();

    assert_eq!(
        cat_commands,
        CatCommands {
            lines: vec![
                "     1  test$".to_string(),
                "     2  test$".to_string(),
                "$".to_string(),
                "     3  test^Itest$".to_string(),
                "$".to_string(),
                "     4  test$".to_string()
            ],
            commands: vec![
                Command::SqueezeBlanks,
                Command::ShowNonblankLineNumbers,
                Command::ShowTabs,
                Command::ShowEnds
            ]
        }
    );
}

#[test]
fn test_squeeze_blanks_is_idempotent() {
    let once = squeeze_blanks(test_data());
    let twice = squeeze_blanks(once.clone());
    assert_eq!(twice, once);
}

#[test]
fn test_show_ends_twice_appends_twice() {
    let once = show_ends(to_lines(&["test"]));
    let twice = show_ends(once.clone());
    assert_eq!(once, vec!["test$"]);
    assert_eq!(twice, vec!["test$$"]);
    assert_ne!(twice, once);
}

#[test]
fn test_squeeze_blanks_leading_and_trailing_runs() {
    let out = squeeze_blanks(to_lines(&["", "", "a", "", "", "", "b", "", ""]));
    assert_eq!(out, vec!["", "a", "", "b", ""]);
}

#[test]
fn test_squeeze_blanks_empty_input() {
    let out = squeeze_blanks(Vec::new());
    assert_eq!(out, Vec::<String>::new());
}

#[test]
fn test_show_line_numbers_two_digits() {
    let lines = to_lines(&["a", "b", "c", "d", "e", "f", "g", "h", "i", "j", "k"]);
    let out = show_line_numbers(lines);
    assert_eq!(out[9], "     10  j");
    assert_eq!(out[10], "     11  k");
}

#[test]
fn test_show_nonblank_line_numbers_all_blank() {
    let out = show_nonblank_line_numbers(to_lines(&["", "", ""]));
    assert_eq!(out, vec!["", "", ""]);
}

#[test]
fn test_show_tabs_multiple_tabs_in_one_line() {
    let out = show_tabs(to_lines(&["\ta\t\tb"]));
    assert_eq!(out, vec!["^Ia^I^Ib"]);
}

#[test]
fn test_get_lines_from_files_concatenates_sources() {
    let contents = to_lines(&["a\nb\n", "c\nd"]);
    let out = get_lines_from_files(&contents);
    assert_eq!(out, vec!["a", "b", "c", "d"]);
}

#[test]
fn test_get_lines_from_files_trailing_newline_adds_no_line() {
    let contents = to_lines(&["a\nb\n"]);
    let out = get_lines_from_files(&contents);
    assert_eq!(out, vec!["a", "b"]);
}

#[test]
fn test_get_lines_from_files_partial_final_line_kept() {
    let contents = to_lines(&["abc"]);
    let out = get_lines_from_files(&contents);
    assert_eq!(out, vec!["abc"]);
}

#[test]
fn test_get_lines_from_files_source_boundary_kept() {
    let contents = to_lines(&["a", "b"]);
    let out = get_lines_from_files(&contents);
    assert_eq!(out, vec!["a", "b"]);
}

#[test]
fn test_get_lines_from_files_unterminated_source_does_not_merge() {
    let contents = to_lines(&["a\nb", "c\nd\n", "e"]);
    let out = get_lines_from_files(&contents);
    assert_eq!(out, vec!["a", "b", "c", "d", "e"]);
}

#[test]
fn test_get_lines_from_files_empty_source_adds_no_line() {
    let contents = to_lines(&["a\n", "", "b"]);
    let out = get_lines_from_files(&contents);
    assert_eq!(out, vec!["a", "b"]);
}

#[test]
fn test_get_lines_from_files_empty() {
    let contents: Vec<String> = Vec::new();
    let out = get_lines_from_files(&contents);
    assert_eq!(out, Vec::<String>::new());
}

#[test]
fn test_get_lines_from_files_blank_lines_kept() {
    let contents = to_lines(&["a\n\n\nb\n"]);
    let out = get_lines_from_files(&contents);
    assert_eq!(out, vec!["a", "", "", "b"]);
}

#[test]
fn test_cli_new_defaults() {
    let cli = Cli::new();
    assert_eq!(cli.files, Vec::<String>::new());
    assert!(!cli.show_all);
    assert!(!cli.show_ends);
    assert!(!cli.number);
    assert!(!cli.number_nonblank);
    assert!(!cli.show_tabs);
    assert!(!cli.squeeze_blanks);
}

#[test]
fn test_from_cli_show_all_forces_tabs_and_ends() {
    let mut cli = Cli::new();
    cli.show_all = true;
    let cat = CatCommands::from_cli(&cli, to_lines(&["x"]));
    assert_eq!(cat.commands, vec![Command::ShowTabs, Command::ShowEnds]);
    assert_eq!(cat.lines, vec!["x"]);
}

#[test]
fn test_from_cli_number_nonblank_overrides_number() {
    let mut cli = Cli::new();
    cli.number = true;
    cli.number_nonblank = true;
    let cat = CatCommands::from_cli(&cli, Vec::new());
    assert_eq!(cat.commands, vec![Command::ShowNonblankLineNumbers]);
}

#[test]
fn test_from_cli_fixed_order_all_switches() {
    let mut cli = Cli::new();
    cli.squeeze_blanks = true;
    cli.number_nonblank = true;
    cli.show_tabs = true;
    cli.show_ends = true;
    let cat = CatCommands::from_cli(&cli, Vec::new());
    assert_eq!(
        cat.commands,
        vec![
            Command::SqueezeBlanks,
            Command::ShowNonblankLineNumbers,
            Command::ShowTabs,
            Command::ShowEnds
        ]
    );
}

#[test]
fn test_from_cli_plain_numbering_alone() {
    let mut cli = Cli::new();
    cli.squeeze_blanks = true;
    cli.number = true;
    let cat = CatCommands::from_cli(&cli, Vec::new());
    assert_eq!(
        cat.commands,
        vec![Command::SqueezeBlanks, Command::ShowLineNumbers]
    );
}

#[test]
fn test_modify_lines_keeps_commands_and_lines_without_switches() {
    let cat = CatCommands {
        lines: test_data(),
        commands: Vec::new(),
    };
    let out = cat.modify_lines();
    assert_eq!(out.lines, test_data());
    assert_eq!(out.commands, Vec::<Command>::new());
}

#[test]
fn test_modify_lines_numbering_before_ends() {
    let cat = CatCommands {
        lines: to_lines(&["x"]),
        commands: vec![Command::ShowLineNumbers, Command::ShowEnds],
    };
    let out = cat.modify_lines();
    assert_eq!(out.lines, vec!["     1  x$"]);
}
