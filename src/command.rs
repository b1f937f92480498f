//! Command dispatch: one line of input, with the issuer's permissions, to
//! one typed command.
use vstd::prelude::*;
use vstd::string::*;

use crate::combat::CombatStance;
use crate::text::{head_of, lower_of, lowercase, same_text, split_once_space, tail_of, trim, trim_of};
use crate::world::{direction_of, parse_direction, Direction};

verus! {

/// The reply to a command refused while in custody.
pub const CUSTODY_REPLY: &'static str = "\x1B[31mThe velvet chains pull tight. You can only look and scream.\x1B[0m";
pub const BUY_USAGE: &'static str = "\x1B[33mBuy what? (buy <item>)\x1B[0m";
pub const SELL_USAGE: &'static str = "\x1B[33mSell what? (sell <item>)\x1B[0m";
pub const USE_USAGE: &'static str = "\x1B[33mUse what? (use <item>)\x1B[0m";
pub const ATTACK_USAGE: &'static str = "\x1B[33mAttack whom? (attack <target>)\x1B[0m";
pub const CHAIN_USAGE: &'static str = "\x1B[33mChain whom? (chain <target>)\x1B[0m";
pub const STANCE_USAGE: &'static str = "\x1B[33mStance options: aggressive, defensive, balanced\x1B[0m";

/// The class of a case-folded verb.
#[derive(PartialEq, Eq, Structural, Debug, Clone, Copy)]
pub enum Verb {
    Look,
    Move(Direction),
    Say,
    Emote,
    Get,
    Drop,
    Buy,
    Sell,
    List,
    Use,
    Help,
    Utility,
    Shift,
    Attack,
    Flee,
    Stance,
    Chain,
    Release,
    Struggle,
    Torment,
    Other,
}

/// The class of the case-folded verb `c`, by the synonym table.
pub open spec fn verb_of(c: Seq<char>) -> Verb {
    if c == "look"@ || c == "l"@ {
        Verb::Look
    } else if direction_of(c) is Some {
        Verb::Move(direction_of(c).unwrap())
    } else if c == "say"@ {
        Verb::Say
    } else if c == "emote"@ {
        Verb::Emote
    } else if c == "get"@ || c == "take"@ {
        Verb::Get
    } else if c == "drop"@ {
        Verb::Drop
    } else if c == "buy"@ || c == "purchase"@ {
        Verb::Buy
    } else if c == "sell"@ {
        Verb::Sell
    } else if c == "list"@ || c == "browse"@ || c == "wares"@ {
        Verb::List
    } else if c == "use"@ || c == "drink"@ || c == "consume"@ || c == "activate"@ {
        Verb::Use
    } else if c == "help"@ || c == "commands"@ || c == "?"@ {
        Verb::Help
    } else if c == "inventory"@ || c == "i"@ || c == "score"@ || c == "who"@ || c == "promote"@
        || c == "demote"@ || c == "link"@ || c == "weather"@ || c == "abide"@ || c == "balance"@
        || c == "bal"@ || c == "money"@ {
        Verb::Utility
    } else if c == "shift"@ || c == "substantiate"@ {
        Verb::Shift
    } else if c == "attack"@ || c == "kill"@ || c == "hit"@ {
        Verb::Attack
    } else if c == "flee"@ || c == "escape"@ || c == "run"@ {
        Verb::Flee
    } else if c == "stance"@ {
        Verb::Stance
    } else if c == "chain"@ || c == "bind"@ {
        Verb::Chain
    } else if c == "release"@ || c == "unchain"@ || c == "free"@ {
        Verb::Release
    } else if c == "struggle"@ || c == "resist"@ || c == "break"@ {
        Verb::Struggle
    } else if c == "torment"@ {
        Verb::Torment
    } else {
        Verb::Other
    }
}

/// The class of the case-folded verb `c`.
pub fn classify_verb(c: &str) -> (r: Verb)
    ensures
        r == verb_of(c@),
{
    if same_text(c, "look") || same_text(c, "l") {
        return Verb::Look;
    }
    if let Some(d) = parse_direction(c) {
        return Verb::Move(d);
    }
    if same_text(c, "say") {
        Verb::Say
    } else if same_text(c, "emote") {
        Verb::Emote
    } else if same_text(c, "get") || same_text(c, "take") {
        Verb::Get
    } else if same_text(c, "drop") {
        Verb::Drop
    } else if same_text(c, "buy") || same_text(c, "purchase") {
        Verb::Buy
    } else if same_text(c, "sell") {
        Verb::Sell
    } else if same_text(c, "list") || same_text(c, "browse") || same_text(c, "wares") {
        Verb::List
    } else if same_text(c, "use") || same_text(c, "drink") || same_text(c, "consume") || same_text(
        c,
        "activate",
    ) {
        Verb::Use
    } else if same_text(c, "help") || same_text(c, "commands") || same_text(c, "?") {
        Verb::Help
    } else if same_text(c, "inventory") || same_text(c, "i") || same_text(c, "score") || same_text(
        c,
        "who",
    ) || same_text(c, "promote") || same_text(c, "demote") || same_text(c, "link") || same_text(
        c,
        "weather",
    ) || same_text(c, "abide") || same_text(c, "balance") || same_text(c, "bal") || same_text(
        c,
        "money",
    ) {
        Verb::Utility
    } else if same_text(c, "shift") || same_text(c, "substantiate") {
        Verb::Shift
    } else if same_text(c, "attack") || same_text(c, "kill") || same_text(c, "hit") {
        Verb::Attack
    } else if same_text(c, "flee") || same_text(c, "escape") || same_text(c, "run") {
        Verb::Flee
    } else if same_text(c, "stance") {
        Verb::Stance
    } else if same_text(c, "chain") || same_text(c, "bind") {
        Verb::Chain
    } else if same_text(c, "release") || same_text(c, "unchain") || same_text(c, "free") {
        Verb::Release
    } else if same_text(c, "struggle") || same_text(c, "resist") || same_text(c, "break") {
        Verb::Struggle
    } else if same_text(c, "torment") {
        Verb::Torment
    } else {
        Verb::Other
    }
}

/// The stance a case-folded word names.
pub open spec fn stance_of(w: Seq<char>) -> Option<CombatStance> {
    if w == "aggressive"@ || w == "agg"@ || w == "attack"@ {
        Some(CombatStance::Aggressive)
    } else if w == "defensive"@ || w == "def"@ || w == "defend"@ {
        Some(CombatStance::Defensive)
    } else if w == "balanced"@ || w == "bal"@ || w == "normal"@ {
        Some(CombatStance::Balanced)
    } else {
        None
    }
}

/// The stance `word`, case-folded, names.
pub fn parse_stance(word: &str) -> (r: Option<CombatStance>)
    ensures
        r == stance_of(lower_of(word@)),
{
    let w = lowercase(word);
    let w = w.as_str();
    if same_text(w, "aggressive") || same_text(w, "agg") || same_text(w, "attack") {
        Some(CombatStance::Aggressive)
    } else if same_text(w, "defensive") || same_text(w, "def") || same_text(w, "defend") {
        Some(CombatStance::Defensive)
    } else if same_text(w, "balanced") || same_text(w, "bal") || same_text(w, "normal") {
        Some(CombatStance::Balanced)
    } else {
        None
    }
}

/// A typed command.
pub enum Command {
    Look { thing: Option<String> },
    Move { direction: Direction },
    Say { message: String },
    Emote { message: String },
    Get { target: String },
    Drop { target: String },
    Buy { item: String },
    Sell { item: String },
    List,
    Use { item: String },
    Help,
    /// A status or admin command, by its verb, with its arguments.
    Utility { command: String, args: String },
    Shift,
    Attack { target: String },
    Flee,
    Stance { stance: CombatStance },
    Chain { target: String },
    Release,
    Struggle,
    Torment { target: String, description: String },
    /// Nothing to do but answer the issuer with `text`.
    Reply { text: String },
}

/// A command with its texts as character sequences.
pub ghost enum CommandView {
    Look { thing: Option<Seq<char>> },
    Move { direction: Direction },
    Say { message: Seq<char> },
    Emote { message: Seq<char> },
    Get { target: Seq<char> },
    Drop { target: Seq<char> },
    Buy { item: Seq<char> },
    Sell { item: Seq<char> },
    List,
    Use { item: Seq<char> },
    Help,
    Utility { command: Seq<char>, args: Seq<char> },
    Shift,
    Attack { target: Seq<char> },
    Flee,
    Stance { stance: CombatStance },
    Chain { target: Seq<char> },
    Release,
    Struggle,
    Torment { target: Seq<char>, description: Seq<char> },
    Reply { text: Seq<char> },
}

impl View for Command {
    type V = CommandView;

    open spec fn view(&self) -> CommandView {
        match self {
            Command::Look { thing } => CommandView::Look {
                thing: match thing {
                    Some(t) => Some(t@),
                    None => None,
                },
            },
            Command::Move { direction } => CommandView::Move { direction: *direction },
            Command::Say { message } => CommandView::Say { message: message@ },
            Command::Emote { message } => CommandView::Emote { message: message@ },
            Command::Get { target } => CommandView::Get { target: target@ },
            Command::Drop { target } => CommandView::Drop { target: target@ },
            Command::Buy { item } => CommandView::Buy { item: item@ },
            Command::Sell { item } => CommandView::Sell { item: item@ },
            Command::List => CommandView::List,
            Command::Use { item } => CommandView::Use { item: item@ },
            Command::Help => CommandView::Help,
            Command::Utility { command, args } => CommandView::Utility { command: command@, args: args@ },
            Command::Shift => CommandView::Shift,
            Command::Attack { target } => CommandView::Attack { target: target@ },
            Command::Flee => CommandView::Flee,
            Command::Stance { stance } => CommandView::Stance { stance: *stance },
            Command::Chain { target } => CommandView::Chain { target: target@ },
            Command::Release => CommandView::Release,
            Command::Struggle => CommandView::Struggle,
            Command::Torment { target, description } => CommandView::Torment {
                target: target@,
                description: description@,
            },
            Command::Reply { text } => CommandView::Reply { text: text@ },
        }
    }
}

/// `a`, a space, then `b`, with surrounding whitespace trimmed.
pub open spec fn joined(a: Seq<char>, b: Seq<char>) -> Seq<char> {
    trim_of(a + " "@ + b)
}

/// The verb may be used while in custody.
pub open spec fn custody_allows(c: Seq<char>) -> bool {
    c == "look"@ || c == "l"@ || c == "say"@ || c == "emote"@ || c == "score"@ || (c.len() > 0
        && c[0] == ':')
}

/// The reply to a verb nobody knows.
pub open spec fn unknown_reply(line: Seq<char>) -> Seq<char> {
    "Unknown command: "@ + line + ". Type 'help' for commands."@
}

/// The command a line stands for, for an issuer with or without admin
/// permission and in custody or not. The line is trimmed and split at its
/// first two spaces into a verb, case-folded, and two arguments.
pub open spec fn command_of(line: Seq<char>, admin: bool, in_custody: bool) -> CommandView {
    let t = trim_of(line);
    let c = lower_of(head_of(t));
    let rest = tail_of(t);
    let arg1 = head_of(rest);
    let arg2 = tail_of(rest);
    if in_custody && !custody_allows(c) {
        CommandView::Reply { text: CUSTODY_REPLY@ }
    } else {
        match verb_of(c) {
            Verb::Look => CommandView::Look { thing: if arg1.len() == 0 { None } else { Some(arg1) } },
            Verb::Move(d) => CommandView::Move { direction: d },
            Verb::Say => CommandView::Say { message: joined(arg1, arg2) },
            Verb::Emote => CommandView::Emote { message: joined(arg1, arg2) },
            Verb::Get => CommandView::Get { target: arg1 },
            Verb::Drop => CommandView::Drop { target: arg1 },
            Verb::Buy => if arg1.len() == 0 {
                CommandView::Reply { text: BUY_USAGE@ }
            } else {
                CommandView::Buy { item: arg1 }
            },
            Verb::Sell => if arg1.len() == 0 {
                CommandView::Reply { text: SELL_USAGE@ }
            } else {
                CommandView::Sell { item: arg1 }
            },
            Verb::List => CommandView::List,
            Verb::Use => if arg1.len() == 0 {
                CommandView::Reply { text: USE_USAGE@ }
            } else {
                CommandView::Use { item: arg1 }
            },
            Verb::Help => CommandView::Help,
            Verb::Utility => CommandView::Utility { command: c, args: joined(arg1, arg2) },
            Verb::Shift if admin => CommandView::Shift,
            Verb::Attack => if arg1.len() == 0 {
                CommandView::Reply { text: ATTACK_USAGE@ }
            } else {
                CommandView::Attack { target: arg1 }
            },
            Verb::Flee => CommandView::Flee,
            Verb::Stance => match stance_of(lower_of(arg1)) {
                Some(s) => CommandView::Stance { stance: s },
                None => CommandView::Reply { text: STANCE_USAGE@ },
            },
            Verb::Chain if admin => if arg1.len() == 0 {
                CommandView::Reply { text: CHAIN_USAGE@ }
            } else {
                CommandView::Chain { target: arg1 }
            },
            Verb::Release => CommandView::Release,
            Verb::Struggle => CommandView::Struggle,
            Verb::Torment if admin => CommandView::Torment { target: arg1, description: arg2 },
            _ => if c.len() > 0 && c[0] == ':' {
                CommandView::Emote { message: trim_of(c.subrange(1, c.len() as int) + " "@ + arg1 + " "@ + arg2) }
            } else {
                CommandView::Reply { text: unknown_reply(line) }
            },
        }
    }
}

fn join_trim(a: &str, b: &str) -> (r: String)
    ensures
        r@ == joined(a@, b@),
{
    let s = String::from_str(a).concat(" ").concat(b);
    String::from_str(trim(s.as_str()))
}

fn text(s: &str) -> (r: String)
    ensures
        r@ == s@,
{
    String::from_str(s)
}

/// Parses one line of input from an issuer with or without admin
/// permission, in custody or not.
///
/// Privileged verbs from an issuer without permission fall through to the
/// generic unknown-command reply, as any unknown verb does.
pub fn parse_command(line: &str, admin: bool, in_custody: bool) -> (r: Command)
    ensures
        r@ == command_of(line@, admin, in_custody),
{
    let t = trim(line);
    let (verb, rest) = split_once_space(t);
    let (arg1, arg2) = split_once_space(rest.as_str());
    let c = lowercase(verb.as_str());
    let c = c.as_str();
    let n = c.unicode_len();
    let colon = n > 0 && c.get_char(0) == ':';
    if in_custody {
        let allowed = same_text(c, "look") || same_text(c, "l") || same_text(c, "say") || same_text(c, "emote")
            || same_text(c, "score") || colon;
        if !allowed {
            return Command::Reply { text: text(CUSTODY_REPLY) };
        }
    }
    let a1 = arg1.as_str();
    let a2 = arg2.as_str();
    let empty = a1.unicode_len() == 0;
    match classify_verb(c) {
        Verb::Look => Command::Look { thing: if empty { None } else { Some(text(a1)) } },
        Verb::Move(d) => Command::Move { direction: d },
        Verb::Say => Command::Say { message: join_trim(a1, a2) },
        Verb::Emote => Command::Emote { message: join_trim(a1, a2) },
        Verb::Get => Command::Get { target: text(a1) },
        Verb::Drop => Command::Drop { target: text(a1) },
        Verb::Buy => if empty {
            Command::Reply { text: text(BUY_USAGE) }
        } else {
            Command::Buy { item: text(a1) }
        },
        Verb::Sell => if empty {
            Command::Reply { text: text(SELL_USAGE) }
        } else {
            Command::Sell { item: text(a1) }
        },
        Verb::List => Command::List,
        Verb::Use => if empty {
            Command::Reply { text: text(USE_USAGE) }
        } else {
            Command::Use { item: text(a1) }
        },
        Verb::Help => Command::Help,
        Verb::Utility => Command::Utility { command: text(c), args: join_trim(a1, a2) },
        Verb::Shift if admin => Command::Shift,
        Verb::Attack => if empty {
            Command::Reply { text: text(ATTACK_USAGE) }
        } else {
            Command::Attack { target: text(a1) }
        },
        Verb::Flee => Command::Flee,
        Verb::Stance => match parse_stance(a1) {
            Some(s) => Command::Stance { stance: s },
            None => Command::Reply { text: text(STANCE_USAGE) },
        },
        Verb::Chain if admin => if empty {
            Command::Reply { text: text(CHAIN_USAGE) }
        } else {
            Command::Chain { target: text(a1) }
        },
        Verb::Release => Command::Release,
        Verb::Struggle => Command::Struggle,
        Verb::Torment if admin => Command::Torment { target: text(a1), description: text(a2) },
        _ => if colon {
            let s = String::from_str(c.substring_char(1, n)).concat(" ").concat(a1).concat(" ").concat(a2);
            Command::Emote { message: String::from_str(trim(s.as_str())) }
        } else {
            let s = String::from_str("Unknown command: ").concat(line).concat(". Type 'help' for commands.");
            Command::Reply { text: s }
        },
    }
}

} // verus!
