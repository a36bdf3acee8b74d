//! The chat commands of the bot: the registry that maps a command's name to
//! the command, the parsing of a `!name arg ...` message into an invocation,
//! and the two built-in commands `help` and `stop`.
use vstd::prelude::*;
use vstd::string::*;
use crate::text::{chars_of, is_ws, views, words, words_of, ws_free};

verus! {

/// `a` and `b` hold the same text.
pub fn same_text(a: &str, b: &str) -> (r: bool)
    ensures
        r == (a@ == b@),
{
    a.to_owned() == b.to_owned()
}

/// What carries out a registered command.
#[derive(Clone, Copy, Debug, PartialEq, Eq, Structural)]
pub enum CommandTarget {
    /// The built-in `help` command.
    Help,
    /// The built-in `stop` command.
    Stop,
    /// A command that a plugin registered; the number tells the plugin
    /// commands apart in the order they were handed over.
    Plugin(usize),
}

/// A registered command: its name, its help line and what carries it out.
#[derive(Clone, Debug, PartialEq, Eq)]
pub struct CommandEntry {
    pub name: String,
    pub help: String,
    pub target: CommandTarget,
}

/// A registered command as a mathematical value.
pub type EntryView = (Seq<char>, Seq<char>, CommandTarget);

impl View for CommandEntry {
    type V = EntryView;

    open spec fn view(&self) -> EntryView {
        (self.name@, self.help@, self.target)
    }
}

/// The views of a list of entries.
pub open spec fn entry_views(v: Seq<CommandEntry>) -> Seq<EntryView> {
    v.map_values(|e: CommandEntry| e@)
}

/// No two entries share a name.
pub open spec fn names_unique(es: Seq<EntryView>) -> bool {
    forall|i: int, j: int| 0 <= i < es.len() && 0 <= j < es.len() && i != j ==> es[i].0 != es[j].0
}

/// The help line and target registered under `name`, if any.
pub open spec fn lookup_spec(es: Seq<EntryView>, name: Seq<char>) -> Option<(Seq<char>, CommandTarget)>
    decreases es.len(),
{
    if es.len() == 0 {
        None
    } else if es.last().0 == name {
        Some((es.last().1, es.last().2))
    } else {
        lookup_spec(es.drop_last(), name)
    }
}

/// The registry as a map from a command's name to its help line and target.
pub open spec fn registry_map(es: Seq<EntryView>) -> Map<Seq<char>, (Seq<char>, CommandTarget)> {
    Map::new(|n: Seq<char>| lookup_spec(es, n) is Some, |n: Seq<char>| lookup_spec(es, n)->0)
}

/// A name is found exactly when some entry carries it, and then it is found
/// with that entry's help line and target.
pub proof fn lemma_lookup_index(es: Seq<EntryView>, name: Seq<char>)
    requires
        names_unique(es),
    ensures
        lookup_spec(es, name) is Some <==> exists|i: int| 0 <= i < es.len() && es[i].0 == name,
        forall|i: int|
            0 <= i < es.len() && es[i].0 == name ==> lookup_spec(es, name) == Some(
                (es[i].1, es[i].2),
            ),
    decreases es.len(),
{
    if es.len() > 0 {
        let p = es.drop_last();
        assert(names_unique(p)) by {
            assert forall|i: int, j: int|
                0 <= i < p.len() && 0 <= j < p.len() && i != j implies p[i].0 != p[j].0 by {
                assert(p[i] == es[i] && p[j] == es[j]);
            }
        }
        lemma_lookup_index(p, name);
        if es.last().0 != name {
            assert forall|i: int| 0 <= i < es.len() && es[i].0 == name implies i < p.len() && p[i]
                == es[i] by {}
            if exists|i: int| 0 <= i < p.len() && p[i].0 == name {
                let i = choose|i: int| 0 <= i < p.len() && p[i].0 == name;
                assert(es[i] == p[i]);
            }
        } else {
            assert(es[es.len() - 1].0 == name);
        }
    }
}

/// Looking a name up after the entry with that name was replaced.
proof fn lemma_lookup_update(es: Seq<EntryView>, i: int, e: EntryView, n: Seq<char>)
    requires
        names_unique(es),
        0 <= i < es.len(),
        es[i].0 == e.0,
    ensures
        names_unique(es.update(i, e)),
        lookup_spec(es.update(i, e), n) == if n == e.0 {
            Some((e.1, e.2))
        } else {
            lookup_spec(es, n)
        },
{
    let u = es.update(i, e);
    assert(names_unique(u)) by {
        assert forall|a: int, b: int| 0 <= a < u.len() && 0 <= b < u.len() && a != b implies u[a].0
            != u[b].0 by {
            assert(u[a].0 == es[a].0);
            assert(u[b].0 == es[b].0);
        }
    }
    lemma_lookup_index(es, n);
    lemma_lookup_index(u, n);
    if n != e.0 {
        if exists|j: int| 0 <= j < u.len() && u[j].0 == n {
            let j = choose|j: int| 0 <= j < u.len() && u[j].0 == n;
            assert(j != i);
            assert(u[j] == es[j]);
        }
        if exists|j: int| 0 <= j < es.len() && es[j].0 == n {
            let j = choose|j: int| 0 <= j < es.len() && es[j].0 == n;
            assert(u[j] == es[j]);
        }
    } else {
        assert(u[i] == e);
    }
}

/// The registry of chat commands, keyed by name.
pub struct CommandHandler {
    commands: Vec<CommandEntry>,
}

impl CommandHandler {
    #[verifier::type_invariant]
    spec fn inv(self) -> bool {
        names_unique(entry_views(self.commands@))
    }

    /// The registered commands, in the order they were first registered.
    pub closed spec fn entries(&self) -> Seq<EntryView> {
        entry_views(self.commands@)
    }

    /// The registered commands as a map from name to help line and target.
    pub open spec fn registry(&self) -> Map<Seq<char>, (Seq<char>, CommandTarget)> {
        registry_map(self.entries())
    }

    /// A handler that knows the two built-in commands, `help` and `stop`.
    pub fn new() -> (h: Self)
        ensures
            h.entries() == seq![
                (HelpCommand::name_spec(), HelpCommand::help_spec(), CommandTarget::Help),
                (StopCommand::name_spec(), StopCommand::help_spec(), CommandTarget::Stop),
            ],
    {
        let mut h = CommandHandler { commands: Vec::new() };
        proof {
            assert(entry_views(h.commands@) =~= seq![]);
        }
        h.register(HelpCommand.name().to_owned(), HelpCommand.help().to_owned(), CommandTarget::Help);
        proof {
            reveal_strlit("help");
            reveal_strlit("stop");
            assert(HelpCommand::name_spec()[0] != StopCommand::name_spec()[0]);
        }
        h.register(StopCommand.name().to_owned(), StopCommand.help().to_owned(), CommandTarget::Stop);
        h
    }

    /// The index of the command called `name`, if there is one.
    fn position(&self, name: &str) -> (r: Option<usize>)
        ensures
            match r {
                Some(i) => i < self.entries().len() && self.entries()[i as int].0 == name@,
                None => forall|i: int| 0 <= i < self.entries().len() ==> self.entries()[i].0 != name@,
            },
    {
        let mut i: usize = 0;
        while i < self.commands.len()
            invariant
                i <= self.commands@.len(),
                forall|j: int| 0 <= j < i ==> self.entries()[j].0 != name@,
            decreases self.commands.len() - i,
        {
            if same_text(self.commands[i].name.as_str(), name) {
                return Some(i);
            }
            i = i + 1;
        }
        None
    }

    /// Registers a command under `name`; an earlier command of that name is
    /// replaced, in its place.
    pub fn register(&mut self, name: String, help: String, target: CommandTarget)
        ensures
            names_unique(final(self).entries()),
            final(self).registry() == old(self).registry().insert(name@, (help@, target)),
            forall|n: Seq<char>| #[trigger]
                lookup_spec(final(self).entries(), n) == if n == name@ {
                    Some((help@, target))
                } else {
                    lookup_spec(old(self).entries(), n)
                },
            (exists|i: int|
                0 <= i < old(self).entries().len() && old(self).entries()[i].0 == name@) ==> (
            exists|i: int|
                0 <= i < old(self).entries().len() && old(self).entries()[i].0 == name@
                    && final(self).entries() == old(self).entries().update(
                    i,
                    (name@, help@, target),
                )),
            !(exists|i: int|
                0 <= i < old(self).entries().len() && old(self).entries()[i].0 == name@) ==> final(self).entries() == old(self).entries().push((name@, help@, target)),
    {
        proof {
            use_type_invariant(&*self);
        }
        let ghost es = self.entries();
        let ghost e: EntryView = (name@, help@, target);
        match self.position(name.as_str()) {
            Some(i) => {
                proof {
                    assert forall|n: Seq<char>| #[trigger]
                        lookup_spec(es.update(i as int, e), n) == if n == name@ {
                            Some((help@, target))
                        } else {
                            lookup_spec(es, n)
                        } by {
                        lemma_lookup_update(es, i as int, e, n);
                    }
                    lemma_lookup_update(es, i as int, e, name@);
                    assert(entry_views(self.commands@.update(i as int, CommandEntry { name, help, target }))
                        =~= es.update(i as int, e));
                }
                let entry = CommandEntry { name, help, target };
                let mut commands: Vec<CommandEntry> = Vec::new();
                std::mem::swap(&mut commands, &mut self.commands);
                commands.set(i, entry);
                proof {
                    assert(entry_views(commands@) =~= es.update(i as int, e));
                }
                self.commands = commands;
                proof {
                    assert(self.entries() =~= es.update(i as int, e));
                }
            },
            None => {
                let ghost pushed = es.push(e);
                proof {
                    assert(names_unique(pushed)) by {
                        assert forall|a: int, b: int|
                            0 <= a < pushed.len() && 0 <= b < pushed.len() && a != b implies pushed[a].0
                            != pushed[b].0 by {
                            if a < es.len() {
                                assert(pushed[a] == es[a]);
                            }
                            if b < es.len() {
                                assert(pushed[b] == es[b]);
                            }
                        }
                    }
                    assert(pushed.drop_last() =~= es);
                }
                let entry = CommandEntry { name, help, target };
                let mut commands: Vec<CommandEntry> = Vec::new();
                std::mem::swap(&mut commands, &mut self.commands);
                commands.push(entry);
                proof {
                    assert(entry_views(commands@) =~= pushed);
                }
                self.commands = commands;
                proof {
                    assert(self.entries() =~= pushed);
                }
            },
        }
        proof {
            use_type_invariant(&*self);
            assert(self.registry() =~= old(self).registry().insert(name@, (help@, target)));
        }
    }

    /// What the command called `name` runs, if such a command is registered.
    pub fn lookup(&self, name: &str) -> (r: Option<CommandTarget>)
        ensures
            r == (match lookup_spec(self.entries(), name@) {
                Some(p) => Some(p.1),
                None => None,
            }),
            r is Some <==> self.registry().contains_key(name@),
    {
        proof {
            use_type_invariant(self);
            lemma_lookup_index(self.entries(), name@);
        }
        match self.position(name) {
            Some(i) => Some(self.commands[i].target),
            None => None,
        }
    }
}

/// One line of the help text: `!name - help`.
pub open spec fn help_line(e: EntryView) -> Seq<char> {
    "!"@ + e.0 + " - "@ + e.1
}

/// Lines joined with a separator between each two of them.
pub open spec fn join(lines: Seq<Seq<char>>, sep: Seq<char>) -> Seq<char>
    decreases lines.len(),
{
    if lines.len() == 0 {
        seq![]
    } else if lines.len() == 1 {
        lines[0]
    } else {
        join(lines.drop_last(), sep) + sep + lines.last()
    }
}

/// The help text for a list of commands: their help lines joined by ` | `.
pub open spec fn help_text_spec(es: Seq<EntryView>) -> Seq<char> {
    join(es.map_values(|e: EntryView| help_line(e)), " | "@)
}

/// The first word after the `!` names the command and the rest are its
/// arguments: `!name` reads as the word `name` alone, and `!name`, a
/// whitespace character and `rest` read as `name` followed by the words of
/// `rest`.
pub proof fn lemma_command_message_words(name: Seq<char>, c: char, rest: Seq<char>)
    requires
        name.len() > 0,
        ws_free(name),
        is_ws(c),
    ensures
        words((seq!['!'] + name).drop_first()) == seq![name],
        words((seq!['!'] + name.push(c) + rest).drop_first()) == seq![name] + words(rest),
{
    assert((seq!['!'] + name).drop_first() =~= name);
    assert((seq!['!'] + name.push(c) + rest).drop_first() =~= name.push(c) + rest);
    crate::text::lemma_words_single(name);
    crate::text::lemma_words_split(name, c, rest);
}

/// The help text of no commands is empty. Registering a new command adds
/// the line `!name - help`, with the whole name and help text, at the end of
/// the help text, after ` | ` when other commands came before it.
pub proof fn lemma_help_text_push(es: Seq<EntryView>, e: EntryView)
    ensures
        help_text_spec(seq![]) == Seq::<char>::empty(),
        es.len() == 0 ==> help_text_spec(es.push(e)) == "!"@ + e.0 + " - "@ + e.1,
        es.len() > 0 ==> help_text_spec(es.push(e)) == help_text_spec(es) + " | "@ + ("!"@ + e.0
            + " - "@ + e.1),
{
    assert(Seq::<EntryView>::empty().map_values(|x: EntryView| help_line(x)) =~= seq![]);
    let f = |x: EntryView| help_line(x);
    let lines = es.push(e).map_values(f);
    assert(lines.drop_last() =~= es.map_values(f));
    assert(lines.last() == help_line(e));
    if es.len() == 0 {
        assert(lines.len() == 1);
    }
}

/// What a command asks the bot to do.
#[derive(Clone, Debug, PartialEq, Eq)]
pub enum BotAction {
    /// Send this text to the chat.
    SendMessage(String),
    /// Stop the bot.
    Stop,
}

/// A bot action as a mathematical value.
pub enum ActionView {
    SendMessage(Seq<char>),
    Stop,
}

impl View for BotAction {
    type V = ActionView;

    open spec fn view(&self) -> ActionView {
        match self {
            BotAction::SendMessage(t) => ActionView::SendMessage(t@),
            BotAction::Stop => ActionView::Stop,
        }
    }
}

/// The views of a list of actions.
pub open spec fn action_views(v: Seq<BotAction>) -> Seq<ActionView> {
    v.map_values(|a: BotAction| a@)
}

/// A parsed command message, ready to be carried out.
#[derive(Clone, Debug, PartialEq, Eq)]
pub struct Invocation {
    /// Who sent the message.
    pub user: String,
    /// The whole message, `!` included.
    pub message: String,
    /// The command's name, the first word after the `!`.
    pub name: String,
    /// The words that follow the name.
    pub args: Vec<String>,
    /// What carries the command out.
    pub target: CommandTarget,
}

/// How a command message was understood.
#[derive(Clone, Debug, PartialEq, Eq)]
pub enum HandleOutcome {
    /// Nothing but whitespace follows the `!`.
    MissingName,
    /// No command of this name is registered.
    UnknownCommand(String),
    /// A registered command was called.
    Run(Invocation),
}

impl CommandHandler {
    /// The help text: one `!name - help` line per registered command,
    /// joined by ` | `.
    pub fn help_text(&self) -> (r: String)
        ensures
            r@ == help_text_spec(self.entries()),
    {
        let ghost lines = self.entries().map_values(|e: EntryView| help_line(e));
        let mut r = String::new();
        let mut i: usize = 0;
        while i < self.commands.len()
            invariant
                i <= self.commands@.len(),
                lines == self.entries().map_values(|e: EntryView| help_line(e)),
                lines.len() == self.commands@.len(),
                r@ == join(lines.take(i as int), " | "@),
            decreases self.commands.len() - i,
        {
            let ghost before = r@;
            if i > 0 {
                r.append(" | ");
            }
            r.append("!");
            r.append(self.commands[i].name.as_str());
            r.append(" - ");
            r.append(self.commands[i].help.as_str());
            proof {
                let t = lines.take(i + 1);
                assert(t.drop_last() =~= lines.take(i as int));
                assert(t.last() == help_line(self.entries()[i as int]));
                assert(self.entries()[i as int] == self.commands@[i as int]@);
                if i == 0 {
                    assert(r@ =~= help_line(self.entries()[0]));
                } else {
                    assert(r@ =~= before + " | "@ + t.last());
                }
            }
            i = i + 1;
        }
        proof {
            assert(lines.take(i as int) =~= lines);
        }
        r
    }

    /// Reads a command message (`!name arg ...`) and finds the command that
    /// it calls. The text after the leading character is split into words at
    /// whitespace; the first word names the command and the rest are its
    /// arguments.
    pub fn handle(&self, msg: &str, user: String) -> (r: HandleOutcome)
        requires
            msg@.len() > 0,
            (msg@[0] as u32) < 0x80,
        ensures
            ({
                let ws = words(msg@.drop_first());
                match r {
                    HandleOutcome::MissingName => ws.len() == 0,
                    HandleOutcome::UnknownCommand(n) => ws.len() > 0 && n@ == ws[0]
                        && !self.registry().contains_key(ws[0]),
                    HandleOutcome::Run(inv) => ws.len() > 0 && inv.name@ == ws[0]
                        && self.registry().contains_key(ws[0])
                        && inv.target == self.registry()[ws[0]].1
                        && views(inv.args@) == ws.drop_first() && inv.user == user
                        && inv.message@ == msg@,
                }
            }),
    {
        let cs = chars_of(msg);
        let ws = words_of(&cs, 1);
        proof {
            assert(cs@.subrange(1, cs@.len() as int) =~= msg@.drop_first());
        }
        if ws.len() == 0 {
            return HandleOutcome::MissingName;
        }
        let mut args: Vec<String> = Vec::new();
        let mut k: usize = 1;
        while k < ws.len()
            invariant
                1 <= k <= ws@.len(),
                views(args@) == views(ws@).subrange(1, k as int),
            decreases ws.len() - k,
        {
            let ghost before = args@;
            args.push(ws[k].clone());
            proof {
                assert(views(args@) =~= views(before).push(ws@[k as int]@));
                assert(views(ws@).subrange(1, k + 1) =~= views(ws@).subrange(1, k as int).push(ws@[k as int]@));
            }
            k = k + 1;
        }
        proof {
            assert(views(ws@).subrange(1, ws@.len() as int) =~= views(ws@).drop_first());
        }
        let name = ws[0].clone();
        match self.lookup(name.as_str()) {
            Some(target) => HandleOutcome::Run(
                Invocation { user, message: msg.to_owned(), name, args, target },
            ),
            None => HandleOutcome::UnknownCommand(name),
        }
    }
}

/// The built-in command that lists every registered command.
pub struct HelpCommand;

impl HelpCommand {
    /// The name under which the command is registered: `help`.
    pub open spec fn name_spec() -> Seq<char> {
        "help"@
    }

    /// The command's own help line.
    pub open spec fn help_spec() -> Seq<char> {
        "Lists all commands"@
    }

    /// The name under which the command is registered.
    pub fn name(&self) -> (r: &'static str)
        ensures
            r@ == Self::name_spec(),
    {
        "help"
    }

    /// The command's own help line.
    pub fn help(&self) -> (r: &'static str)
        ensures
            r@ == Self::help_spec(),
    {
        "Lists all commands"
    }

    /// Sends the help text of every registered command to the chat.
    pub fn execute(&self, commands: &CommandHandler) -> (r: Vec<BotAction>)
        ensures
            action_views(r@) == seq![ActionView::SendMessage(help_text_spec(commands.entries()))],
    {
        let text = commands.help_text();
        let mut r: Vec<BotAction> = Vec::new();
        r.push(BotAction::SendMessage(text));
        proof {
            assert(action_views(r@) =~= seq![ActionView::SendMessage(help_text_spec(commands.entries()))]);
        }
        r
    }
}

/// The built-in command that stops the bot.
pub struct StopCommand;

impl StopCommand {
    /// The name under which the command is registered: `stop`.
    pub open spec fn name_spec() -> Seq<char> {
        "stop"@
    }

    /// The command's own help line.
    pub open spec fn help_spec() -> Seq<char> {
        "Stops the bot"@
    }

    /// The text sent to the chat before the bot stops.
    pub open spec fn farewell_spec() -> Seq<char> {
        "Stopping..."@
    }

    /// The name under which the command is registered.
    pub fn name(&self) -> (r: &'static str)
        ensures
            r@ == Self::name_spec(),
    {
        "stop"
    }

    /// The command's own help line.
    pub fn help(&self) -> (r: &'static str)
        ensures
            r@ == Self::help_spec(),
    {
        "Stops the bot"
    }

    /// Announces the stop in the chat, then stops the bot.
    pub fn execute(&self) -> (r: Vec<BotAction>)
        ensures
            action_views(r@) == seq![ActionView::SendMessage(Self::farewell_spec()), ActionView::Stop],
    {
        let mut r: Vec<BotAction> = Vec::new();
        r.push(BotAction::SendMessage("Stopping...".to_owned()));
        r.push(BotAction::Stop);
        proof {
            assert(action_views(r@) =~= seq![ActionView::SendMessage(Self::farewell_spec()), ActionView::Stop]);
        }
        r
    }
}

} // verus!
