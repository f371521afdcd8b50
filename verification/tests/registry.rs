use soban::registry::{Command, Commands, Duplicate};

fn bot() -> Vec<Command<u32>> {
    vec![
        Command { name: "ping", aliases: &["p"], run: 1 },
        Command { name: "osu", aliases: &[], run: 2 },
        Command { name: "recent", aliases: &["rs", "r"], run: 3 },
        Command { name: "recentpass", aliases: &["rp"], run: 4 },
    ]
}

fn duplicate_of(cmds: &[Command<u32>]) -> Option<String> {
    match Commands::build(cmds) {
        Ok(_) => None,
        Err(duplicate) => Some(duplicate.name),
    }
}

#[test]
fn names_and_aliases_are_bound_to_their_handler() {
    let commands = Commands::build(&bot()).ok().unwrap();
    assert_eq!(commands.command("ping"), Some(1));
    assert_eq!(commands.command("p"), Some(1));
    assert_eq!(commands.command("osu"), Some(2));
    assert_eq!(commands.command("recent"), Some(3));
    assert_eq!(commands.command("rs"), Some(3));
    assert_eq!(commands.command("r"), Some(3));
    assert_eq!(commands.command("recentpass"), Some(4));
    assert_eq!(commands.command("rp"), Some(4));
}

#[test]
fn alias_and_name_give_the_same_handler() {
    let commands = Commands::build(&[Command { name: "recent", aliases: &["rs"], run: 7u8 }])
        .ok()
        .unwrap();
    assert_eq!(commands.command("rs"), commands.command("recent"));
    assert_eq!(commands.command("rs"), Some(7));
}

#[test]
fn nothing_else_is_bound() {
    let commands = Commands::build(&bot()).ok().unwrap();
    assert_eq!(commands.command(""), None);
    assert_eq!(commands.command("nonexistentcmd"), None);
    assert_eq!(commands.command("Ping"), None);
    assert_eq!(commands.command("PING"), None);
    assert_eq!(commands.command("ping "), None);
    assert_eq!(commands.command("pin"), None);
    assert_eq!(commands.command("recent1"), None);
}

#[test]
fn empty_list_gives_empty_table() {
    let commands = Commands::<u32>::build(&[]).ok().unwrap();
    assert_eq!(commands.command("ping"), None);
    assert_eq!(commands.command(""), None);
}

#[test]
fn get_builds_the_same_table() {
    let commands = Commands::get(&bot());
    assert_eq!(commands.command("rs"), Some(3));
    assert_eq!(commands.command("osu"), Some(2));
    assert_eq!(commands.command("nope"), None);
}

#[test]
fn name_defined_twice_is_refused() {
    let mut cmds = bot();
    cmds.push(Command { name: "osu", aliases: &[], run: 9 });
    assert_eq!(duplicate_of(&cmds), Some("osu".to_string()));
}

#[test]
fn alias_that_is_a_name_is_refused() {
    let mut cmds = bot();
    cmds.push(Command { name: "profile", aliases: &["ping"], run: 9 });
    assert_eq!(duplicate_of(&cmds), Some("ping".to_string()));
}

#[test]
fn name_that_is_an_alias_is_refused() {
    let mut cmds = bot();
    cmds.push(Command { name: "rs", aliases: &[], run: 9 });
    assert_eq!(duplicate_of(&cmds), Some("rs".to_string()));
}

#[test]
fn alias_given_twice_is_refused() {
    let cmds = [Command { name: "top", aliases: &["t", "best", "t"], run: 1u32 }];
    assert_eq!(duplicate_of(&cmds), Some("t".to_string()));
    let cmds = [Command { name: "top", aliases: &["top"], run: 1u32 }];
    assert_eq!(duplicate_of(&cmds), Some("top".to_string()));
}

#[test]
fn same_handler_under_two_commands_is_still_a_duplicate() {
    let cmds = [
        Command { name: "a", aliases: &[], run: 1u32 },
        Command { name: "a", aliases: &[], run: 1u32 },
    ];
    assert_eq!(duplicate_of(&cmds), Some("a".to_string()));
}

#[test]
fn the_first_repeat_is_the_one_reported() {
    let cmds = [
        Command { name: "a", aliases: &["b"], run: 1u32 },
        Command { name: "c", aliases: &["d", "b", "a"], run: 2 },
        Command { name: "c", aliases: &[], run: 3 },
    ];
    assert_eq!(duplicate_of(&cmds), Some("b".to_string()));
}

#[test]
fn names_differing_in_case_are_different() {
    let cmds = [
        Command { name: "osu", aliases: &["OSU", "Osu"], run: 1u32 },
        Command { name: "oSu", aliases: &[], run: 2 },
    ];
    let commands = Commands::build(&cmds).ok().unwrap();
    assert_eq!(commands.command("OSU"), Some(1));
    assert_eq!(commands.command("oSu"), Some(2));
    assert_eq!(commands.command("osU"), None);
}

#[test]
fn duplicate_is_told_in_a_sentence() {
    let duplicate = Duplicate { name: "rs".to_string() };
    assert_eq!(duplicate.message(), "command `rs` has been defined multiple times");
    let duplicate = Commands::build(&[
        Command { name: "x", aliases: &[], run: 0u8 },
        Command { name: "y", aliases: &["x"], run: 1 },
    ])
    .err()
    .unwrap();
    assert_eq!(duplicate.message(), "command `x` has been defined multiple times");
}

#[test]
fn handlers_can_be_functions() {
    fn double(n: u32) -> u32 {
        2 * n
    }
    fn square(n: u32) -> u32 {
        n * n
    }
    let cmds: [Command<fn(u32) -> u32>; 2] = [
        Command { name: "double", aliases: &["d"], run: double },
        Command { name: "square", aliases: &["s"], run: square },
    ];
    let commands = Commands::build(&cmds).ok().unwrap();
    assert_eq!(commands.command("d").map(|run| run(7)), Some(14));
    assert_eq!(commands.command("square").map(|run| run(7)), Some(49));
}
