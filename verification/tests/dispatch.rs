use soban::dispatch::{handle_command, step, Action, Event, State};
use soban::registry::{Command, Commands};

fn table() -> Commands<u32> {
    Commands::get(&[
        Command { name: "ping", aliases: &["p"], run: 1 },
        Command { name: "recent", aliases: &["rs"], run: 2 },
    ])
}

#[test]
fn alias_invokes_the_same_handler_with_the_same_arguments() {
    let commands = table();
    let by_alias = handle_command(&commands, "!rs 1").unwrap();
    let by_name = handle_command(&commands, "!recent 1").unwrap();
    assert_eq!(by_alias.run, 2);
    assert_eq!(by_alias.run, by_name.run);
    assert_eq!(by_alias.args.msg, "1");
    assert_eq!(by_alias.args.msg, by_name.args.msg);
    assert_eq!(by_alias.args.num, None);
    assert_eq!(by_alias.args.num, by_name.args.num);
    assert_eq!(by_alias.name, "rs");
    assert_eq!(by_name.name, "recent");
}

#[test]
fn alias_with_number_invokes_the_same_handler_with_the_same_arguments() {
    let commands = table();
    let by_alias = handle_command(&commands, "!rs3 peppy").unwrap();
    let by_name = handle_command(&commands, "!recent3 peppy").unwrap();
    assert_eq!(by_alias.run, by_name.run);
    assert_eq!(by_alias.args.num, Some(3));
    assert_eq!(by_name.args.num, Some(3));
    assert_eq!(by_alias.args.msg, "peppy");
    assert_eq!(by_name.args.msg, "peppy");
}

#[test]
fn unknown_command_calls_for_nothing() {
    let commands = table();
    assert!(handle_command(&commands, "!nonexistentcmd arg").is_none());
    let (state, action) = step::<u32, String>(
        &commands,
        State::Idle,
        Event::Message("!nonexistentcmd arg"),
    );
    assert_eq!(state, State::Idle);
    assert!(matches!(action, Action::Nothing));
}

#[test]
fn what_is_no_command_calls_for_nothing() {
    let commands = table();
    assert!(handle_command(&commands, "").is_none());
    assert!(handle_command(&commands, "ping").is_none());
    assert!(handle_command(&commands, "hello !ping").is_none());
    let (state, action) = step::<u32, String>(&commands, State::Idle, Event::Message("ping"));
    assert_eq!(state, State::Idle);
    assert!(matches!(action, Action::Nothing));
}

#[test]
fn name_is_matched_exactly() {
    let commands = table();
    assert!(handle_command(&commands, "!Ping").is_none());
    assert!(handle_command(&commands, "!pin").is_none());
    assert!(handle_command(&commands, "!pingg").is_none());
    assert!(handle_command(&commands, "!").is_none());
    assert!(handle_command(&commands, "! ping").is_none());
    assert!(handle_command(&commands, "!!ping").is_none());
    assert!(handle_command(&commands, "!ping-1").is_none());
    assert_eq!(handle_command(&commands, "!ping").map(|call| call.run), Some(1));
    assert_eq!(handle_command(&commands, "!p").map(|call| call.run), Some(1));
}

#[test]
fn name_of_digits_can_be_bound() {
    let commands = Commands::get(&[Command { name: "123", aliases: &["a1"], run: 5u32 }]);
    let call = handle_command(&commands, "!123 x").unwrap();
    assert_eq!(call.run, 5);
    assert_eq!(call.args.num, None);
    // Behind a letter the digits are a number, so the alias is out of reach.
    assert!(handle_command(&commands, "!a1 x").is_none());
}

#[test]
fn message_that_calls_a_command_starts_processing() {
    let commands = table();
    let (state, action) =
        step::<u32, String>(&commands, State::Idle, Event::Message("!p2 hi there"));
    assert_eq!(state, State::Processing);
    match action {
        Action::Invoke(call) => {
            assert_eq!(call.run, 1);
            assert_eq!(call.name, "p");
            assert_eq!(call.args.num, Some(2));
            assert_eq!(call.args.msg, "hi there");
        }
        _ => panic!("a handler was called for"),
    }
}

#[test]
fn handler_that_returns_leaves_the_dispatcher_idle() {
    let commands = table();
    let (state, action) =
        step::<u32, String>(&commands, State::Processing, Event::Finished(Ok(())));
    assert_eq!(state, State::Idle);
    assert!(matches!(action, Action::Nothing));
}

#[test]
fn failure_is_reported_and_leaves_the_dispatcher_idle() {
    let commands = table();
    let (state, action) = step::<u32, String>(
        &commands,
        State::Processing,
        Event::Finished(Err("send failed".to_string())),
    );
    assert_eq!(state, State::Idle);
    match action {
        Action::Report(error) => assert_eq!(error, "send failed"),
        _ => panic!("the failure was to be reported"),
    }
}

#[test]
fn failing_handler_does_not_stop_the_next_message() {
    let commands = table();
    let mut state = State::Idle;
    let mut invoked = Vec::new();
    let mut reported = Vec::new();
    for text in ["!ping", "hello", "!rs 1", "!nope", "!p"] {
        let (next, action) = step::<u32, String>(&commands, state, Event::Message(text));
        state = next;
        if let Action::Invoke(call) = action {
            assert_eq!(state, State::Processing);
            invoked.push(call.run);
            // The handler of `ping` fails every time.
            let result = if call.run == 1 { Err(format!("{} failed", call.name)) } else { Ok(()) };
            let (next, action) = step::<u32, String>(&commands, state, Event::Finished(result));
            state = next;
            if let Action::Report(error) = action {
                reported.push(error);
            }
        }
        assert_eq!(state, State::Idle);
    }
    assert_eq!(invoked, vec![1, 2, 1]);
    assert_eq!(reported, vec!["ping failed".to_string(), "p failed".to_string()]);
}

#[test]
fn handler_gets_what_the_message_holds_and_its_result_comes_back() {
    type Handler = fn(u32, &str, soban::Args<'_>) -> String;
    fn echo(ctx: u32, origin: &str, args: soban::Args<'_>) -> String {
        format!("{ctx}|{origin}|{}|{:?}", args.msg, args.num)
    }
    fn count(ctx: u32, _origin: &str, args: soban::Args<'_>) -> String {
        (ctx + args.num.unwrap_or(0)).to_string()
    }
    let commands = Commands::<Handler>::get(&[
        Command { name: "echo", aliases: &["e"], run: echo },
        Command { name: "count", aliases: &[], run: count },
    ]);
    let call = handle_command(&commands, "!e12 some  text").unwrap();
    assert_eq!(call.invoke(7, "#osu"), "7|#osu|some  text|Some(12)");
    let call = handle_command(&commands, "!echo").unwrap();
    assert_eq!(call.invoke(0, ""), "0|||None");
    let call = handle_command(&commands, "!count5").unwrap();
    assert_eq!(call.invoke(37, "#osu"), "42");
}
