use apatite::commands::{BotAction, CommandHandler, CommandTarget, HandleOutcome, HelpCommand, StopCommand};
use apatite::text::{chars_of, is_whitespace, words_of};

fn words(s: &str) -> Vec<String> {
    words_of(&chars_of(s), 0)
}

#[test]
fn words_split_at_runs_of_whitespace() {
    assert_eq!(words("  a b\tc  "), vec!["a", "b", "c"]);
    assert_eq!(words("one"), vec!["one"]);
    assert!(words("").is_empty());
    assert!(words(" \t\n ").is_empty());
}

#[test]
fn words_agree_with_split_whitespace() {
    let samples = ["x\u{3000}y", "a\u{a0}b  c", "\u{2028}lead", "trail\u{85}", "mixed \u{2009} spaces"];
    for s in samples {
        let expected: Vec<String> = s.split_whitespace().map(|w| w.to_string()).collect();
        assert_eq!(words(s), expected, "on {:?}", s);
    }
}

#[test]
fn whitespace_class_matches_std() {
    for u in 0u32..0x3100 {
        if let Some(c) = char::from_u32(u) {
            assert_eq!(is_whitespace(c), c.is_whitespace(), "on U+{:04X}", u);
        }
    }
}

#[test]
fn new_handler_lists_builtins() {
    let h = CommandHandler::new();
    assert_eq!(h.help_text(), "!help - Lists all commands | !stop - Stops the bot");
    assert_eq!(h.lookup("help"), Some(CommandTarget::Help));
    assert_eq!(h.lookup("stop"), Some(CommandTarget::Stop));
    assert_eq!(h.lookup("dice"), None);
}

#[test]
fn register_then_lookup_finds_the_command() {
    let mut h = CommandHandler::new();
    h.register("dice".to_string(), "Rolls a die".to_string(), CommandTarget::Plugin(0));
    assert_eq!(h.lookup("dice"), Some(CommandTarget::Plugin(0)));
    assert_eq!(h.lookup("help"), Some(CommandTarget::Help));
    assert_eq!(
        h.help_text(),
        "!help - Lists all commands | !stop - Stops the bot | !dice - Rolls a die"
    );
}

#[test]
fn register_same_name_replaces_in_place() {
    let mut h = CommandHandler::new();
    h.register("help".to_string(), "Other help".to_string(), CommandTarget::Plugin(3));
    assert_eq!(h.lookup("help"), Some(CommandTarget::Plugin(3)));
    assert_eq!(h.help_text(), "!help - Other help | !stop - Stops the bot");
}

#[test]
fn handle_reads_name_and_arguments() {
    let mut h = CommandHandler::new();
    h.register("dice".to_string(), "Rolls a die".to_string(), CommandTarget::Plugin(1));
    match h.handle("!dice  2 \t6", "alice".to_string()) {
        HandleOutcome::Run(inv) => {
            assert_eq!(inv.name, "dice");
            assert_eq!(inv.args, vec!["2", "6"]);
            assert_eq!(inv.user, "alice");
            assert_eq!(inv.message, "!dice  2 \t6");
            assert_eq!(inv.target, CommandTarget::Plugin(1));
        }
        other => panic!("unexpected {:?}", other),
    }
}

#[test]
fn handle_builtin_without_arguments() {
    let h = CommandHandler::new();
    match h.handle("!help", "bob".to_string()) {
        HandleOutcome::Run(inv) => {
            assert_eq!(inv.target, CommandTarget::Help);
            assert!(inv.args.is_empty());
        }
        other => panic!("unexpected {:?}", other),
    }
}

#[test]
fn handle_missing_name() {
    let h = CommandHandler::new();
    assert_eq!(h.handle("!", "bob".to_string()), HandleOutcome::MissingName);
    assert_eq!(h.handle("!   ", "bob".to_string()), HandleOutcome::MissingName);
}

#[test]
fn handle_unknown_command() {
    let h = CommandHandler::new();
    assert_eq!(
        h.handle("!nope x", "bob".to_string()),
        HandleOutcome::UnknownCommand("nope".to_string())
    );
    // the name must match exactly, case included
    assert_eq!(
        h.handle("!HELP", "bob".to_string()),
        HandleOutcome::UnknownCommand("HELP".to_string())
    );
}

#[test]
fn handle_skips_leading_whitespace_after_bang() {
    let h = CommandHandler::new();
    match h.handle("! stop now", "bob".to_string()) {
        HandleOutcome::Run(inv) => {
            assert_eq!(inv.target, CommandTarget::Stop);
            assert_eq!(inv.args, vec!["now"]);
        }
        other => panic!("unexpected {:?}", other),
    }
}

#[test]
fn help_command_sends_help_text() {
    let h = CommandHandler::new();
    assert_eq!(HelpCommand.name(), "help");
    assert_eq!(HelpCommand.help(), "Lists all commands");
    assert_eq!(
        HelpCommand.execute(&h),
        vec![BotAction::SendMessage("!help - Lists all commands | !stop - Stops the bot".to_string())]
    );
}

#[test]
fn stop_command_announces_then_stops() {
    assert_eq!(StopCommand.name(), "stop");
    assert_eq!(StopCommand.help(), "Stops the bot");
    assert_eq!(
        StopCommand.execute(),
        vec![BotAction::SendMessage("Stopping...".to_string()), BotAction::Stop]
    );
}
