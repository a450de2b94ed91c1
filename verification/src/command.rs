//! The command line of the key-value client: one line of input becomes a
//! request, or an error.
use vstd::prelude::*;
use crate::number::{parse_i64, parsed_i64};
use crate::text::{
    all_ascii, ascii_lower_code, contains, contains_lowered, contains_lowered_str, contains_str, is_ascii_text,
    lowers_to, lowers_to_str, split_once, split_once_at, str_eq, trim, trimmed,
};

verus! {

/// What `str::to_lowercase` gives for a text (Unicode lowercase mapping).
pub uninterp spec fn lowercase(s: Seq<char>) -> Seq<char>;

/// Calls `str::to_lowercase`; its result is named `lowercase` of the input.
#[verifier::external_body]
fn to_lower(s: &str) -> (r: String)
    ensures
        r@ == lowercase(s@),
{
    s.to_lowercase()
}

/// A request that the client sends.
#[derive(Debug, PartialEq, Eq)]
pub enum Command {
    /// `get key`
    Get { key: String },
    /// `set key "value" [ex seconds | px milliseconds]`; `ex` is in milliseconds.
    SetItem { key: String, value: String, ex: Option<i64> },
    /// `ping [text]`
    Ping { text: String },
    /// `del key ...`
    Del { keys: String },
    /// `subscribe channel`
    Subscribe { channel: String },
    /// `publish channel message`
    Publish { channel: String, msg: String },
    /// `exit`
    Exit,
}

/// What a command line stands for.
pub enum CommandSpec {
    Get(Seq<char>),
    SetItem(Seq<char>, Seq<char>, Option<i64>),
    Ping(Seq<char>),
    Del(Seq<char>),
    Subscribe(Seq<char>),
    Publish(Seq<char>, Seq<char>),
    Exit,
}

impl View for Command {
    type V = CommandSpec;

    open spec fn view(&self) -> CommandSpec {
        match self {
            Command::Get { key } => CommandSpec::Get(key@),
            Command::SetItem { key, value, ex } => CommandSpec::SetItem(key@, value@, *ex),
            Command::Ping { text } => CommandSpec::Ping(text@),
            Command::Del { keys } => CommandSpec::Del(keys@),
            Command::Subscribe { channel } => CommandSpec::Subscribe(channel@),
            Command::Publish { channel, msg } => CommandSpec::Publish(channel@, msg@),
            Command::Exit => CommandSpec::Exit,
        }
    }
}

/// Why a command line is refused.
#[derive(Debug, Clone, Copy, PartialEq, Eq, Structural)]
pub enum CommandError {
    /// The first word names no command.
    Unknown,
    /// The expiry of a `set` lacks its number, the number is not an `i64`,
    /// or the time in milliseconds overflows `i64`.
    BadExpiry,
}

/// The piece after `s`'s first `c`, or the empty text.
pub open spec fn after(s: Seq<char>, c: char) -> Seq<char> {
    match split_once(s, c).1 {
        Some(t) => t,
        None => Seq::<char>::empty(),
    }
}

/// The expiry clause of `set`: `ex N` gives `N * 1000` milliseconds, `px N`
/// gives `N`; the number is the second space-separated field; a clause with
/// neither keyword gives none.
///
/// The keywords are found without regard to case: in an ASCII clause by
/// lowering its ASCII capitals (which is what `str::to_lowercase` does to
/// ASCII text), otherwise in `lowercase` of the clause.
pub open spec fn expiry_spec(clause: Seq<char>) -> Result<Option<i64>, CommandError> {
    if all_ascii(clause) {
        expiry_flags_spec(
            contains_lowered(clause, "ex"@),
            contains_lowered(clause, "px"@),
            clause,
        )
    } else {
        expiry_lowered_spec(lowercase(clause), clause)
    }
}

/// The expiry clause of `set`, given whether it names `ex` and whether it
/// names `px`: the number is the second space-separated field of `clause`;
/// `ex` takes precedence and counts seconds.
pub open spec fn expiry_flags_spec(has_ex: bool, has_px: bool, clause: Seq<char>) -> Result<
    Option<i64>,
    CommandError,
> {
    let field = split_once(clause, ' ').1;
    if has_ex || has_px {
        match field {
            None => Err(CommandError::BadExpiry),
            Some(rest) => match parsed_i64(split_once(rest, ' ').0) {
                None => Err(CommandError::BadExpiry),
                Some(n) => if has_ex {
                    if i64::MIN <= n * 1000 <= i64::MAX {
                        Ok(Some((n * 1000) as i64))
                    } else {
                        Err(CommandError::BadExpiry)
                    }
                } else {
                    Ok(Some(n))
                },
            },
        }
    } else {
        Ok(None)
    }
}

/// The expiry clause of `set`, given the clause and its lowercase form `lower`:
/// the keyword is looked for in `lower`, the number in `clause`.
pub open spec fn expiry_lowered_spec(lower: Seq<char>, clause: Seq<char>) -> Result<
    Option<i64>,
    CommandError,
> {
    expiry_flags_spec(contains(lower, "ex"@), contains(lower, "px"@), clause)
}

/// The arguments of `set`: the key before the first `"`, the value up to the
/// next `"`, and the expiry clause after it, each trimmed.
pub open spec fn set_args_spec(args: Seq<char>) -> Result<CommandSpec, CommandError> {
    let key = trimmed(split_once(args, '"').0);
    let rest = after(args, '"');
    let value = trimmed(split_once(rest, '"').0);
    let clause = trimmed(after(rest, '"'));
    match expiry_spec(clause) {
        Ok(ex) => Ok(CommandSpec::SetItem(key, value, ex)),
        Err(e) => Err(e),
    }
}

/// A line of input: the command word (matched without regard to case) up to
/// the first space, and its trimmed arguments after it.
///
/// An ASCII command word is matched by lowering its ASCII capitals (which is
/// what `str::to_lowercase` does to ASCII text); any other word through
/// `lowercase`.
pub open spec fn parse_spec(line: Seq<char>) -> Result<CommandSpec, CommandError> {
    let raw = trimmed(split_once(line, ' ').0);
    let args = trimmed(after(line, ' '));
    if all_ascii(raw) {
        match ascii_keyword(raw) {
            Some(k) => command_spec(k, args),
            None => Err(CommandError::Unknown),
        }
    } else {
        command_spec(lowercase(raw), args)
    }
}

/// The command name that an ASCII word lowers to, if it lowers to one.
pub open spec fn ascii_keyword(raw: Seq<char>) -> Option<Seq<char>> {
    if lowers_to(raw, "get"@) {
        Some("get"@)
    } else if lowers_to(raw, "set"@) {
        Some("set"@)
    } else if lowers_to(raw, "ping"@) {
        Some("ping"@)
    } else if lowers_to(raw, "del"@) {
        Some("del"@)
    } else if lowers_to(raw, "subscribe"@) {
        Some("subscribe"@)
    } else if lowers_to(raw, "publish"@) {
        Some("publish"@)
    } else if lowers_to(raw, "exit"@) {
        Some("exit"@)
    } else {
        None
    }
}

/// The command that a lowercase command word and its trimmed arguments stand for.
pub open spec fn command_spec(word: Seq<char>, args: Seq<char>) -> Result<CommandSpec, CommandError> {
    if word == "get"@ {
        Ok(CommandSpec::Get(trimmed(args)))
    } else if word == "set"@ {
        set_args_spec(args)
    } else if word == "ping"@ {
        if args.len() == 0 {
            Ok(CommandSpec::Ping("PONG"@))
        } else {
            Ok(CommandSpec::Ping(args))
        }
    } else if word == "del"@ {
        Ok(CommandSpec::Del(args))
    } else if word == "subscribe"@ {
        Ok(CommandSpec::Subscribe(trimmed(args)))
    } else if word == "publish"@ {
        Ok(CommandSpec::Publish(split_once(args, ' ').0, after(args, ' ')))
    } else if word == "exit"@ {
        Ok(CommandSpec::Exit)
    } else {
        Err(CommandError::Unknown)
    }
}

/// A command word typed in any mix of capital and small ASCII letters gives
/// the same command as the command name in small letters: each character of
/// the word is the name's character or its capital (32 codes below it).
pub proof fn law_command_word_any_case(line: Seq<char>, k: Seq<char>)
    requires
        k == "get"@ || k == "set"@ || k == "ping"@ || k == "del"@ || k == "subscribe"@ || k
            == "publish"@ || k == "exit"@,
        trimmed(split_once(line, ' ').0).len() == k.len(),
        forall|i: int|
            0 <= i < k.len() ==> ((#[trigger] trimmed(split_once(line, ' ').0)[i]) as u32 == k[i] as u32
                || (trimmed(split_once(line, ' ').0)[i] as u32) + 32 == k[i] as u32),
    ensures
        parse_spec(line) == command_spec(k, trimmed(after(line, ' '))),
{
    reveal_strlit("get");
    reveal_strlit("set");
    reveal_strlit("ping");
    reveal_strlit("del");
    reveal_strlit("subscribe");
    reveal_strlit("publish");
    reveal_strlit("exit");
    let raw = trimmed(split_once(line, ' ').0);
    assert forall|i: int| 0 <= i < k.len() implies 97 <= #[trigger] (k[i] as u32) <= 122 by {}
    assert(all_ascii(raw));
    assert(lowers_to(raw, k));
    assert forall|k1: Seq<char>| #[trigger] lowers_to(raw, k1) implies k1 == k by {
        lemma_lowers_to_unique(raw, k1, k);
    }
    assert(ascii_keyword(raw) == Some(k));
}

proof fn lemma_lowers_to_unique(raw: Seq<char>, k1: Seq<char>, k2: Seq<char>)
    requires
        lowers_to(raw, k1),
        lowers_to(raw, k2),
    ensures
        k1 == k2,
{
    assert forall|i: int| 0 <= i < k1.len() implies k1[i] == k2[i] by {
        assert(ascii_lower_code(raw[i] as u32) == k1[i] as u32);
        assert(ascii_lower_code(raw[i] as u32) == k2[i] as u32);
        vstd::utf8::char_u32_cast(k1[i], k1[i] as u32);
        vstd::utf8::char_u32_cast(k2[i], k2[i] as u32);
    }
    assert(k1 =~= k2);
}

/// The piece of `s` after its first `c`, or the empty text.
fn after_at(s: &str, c: char) -> (r: &str)
    ensures
        r@ == after(s@, c),
{
    match split_once_at(s, c).1 {
        Some(t) => t,
        None => {
            proof {
                reveal_strlit("");
            }
            ""
        },
    }
}

/// The expiry clause of `set`, as `expiry_spec` describes it.
pub fn parse_expiry(clause: &str) -> (r: Result<Option<i64>, CommandError>)
    ensures
        r == expiry_spec(clause@),
{
    proof {
        reveal_strlit("ex");
        reveal_strlit("px");
    }
    if is_ascii_text(clause) {
        let has_ex = contains_lowered_str(clause, "ex");
        let has_px = contains_lowered_str(clause, "px");
        expiry_from_flags(has_ex, has_px, clause)
    } else {
        let lower = to_lower(clause);
        expiry_from_lowered(lower.as_str(), clause)
    }
}

/// The expiry clause of `set`, given the clause and its lowercase form.
pub fn expiry_from_lowered(lower: &str, clause: &str) -> (r: Result<Option<i64>, CommandError>)
    ensures
        r == expiry_lowered_spec(lower@, clause@),
{
    proof {
        reveal_strlit("ex");
        reveal_strlit("px");
    }
    let has_ex = contains_str(lower, "ex");
    let has_px = contains_str(lower, "px");
    expiry_from_flags(has_ex, has_px, clause)
}

/// The expiry clause of `set`, given whether it names `ex` and `px`.
fn expiry_from_flags(has_ex: bool, has_px: bool, clause: &str) -> (r: Result<
    Option<i64>,
    CommandError,
>)
    ensures
        r == expiry_flags_spec(has_ex, has_px, clause@),
{
    if !has_ex && !has_px {
        return Ok(None);
    }
    let field = match split_once_at(clause, ' ').1 {
        Some(rest) => split_once_at(rest, ' ').0,
        None => {
            return Err(CommandError::BadExpiry);
        },
    };
    match parse_i64(field) {
        None => Err(CommandError::BadExpiry),
        Some(n) => {
            if has_ex {
                match n.checked_mul(1000) {
                    Some(ms) => Ok(Some(ms)),
                    None => Err(CommandError::BadExpiry),
                }
            } else {
                Ok(Some(n))
            }
        },
    }
}

/// Parses one line of client input.
pub fn parse_command(line: &str) -> (r: Result<Command, CommandError>)
    ensures
        match (r, parse_spec(line@)) {
            (Ok(c), Ok(cs)) => c@ == cs,
            (Err(e), Err(es)) => e == es,
            _ => false,
        },
{
    let raw = trim(split_once_at(line, ' ').0);
    let args = trim(after_at(line, ' '));
    if is_ascii_text(raw) {
        match keyword_of(raw) {
            Some(k) => command_from_word(k, args),
            None => Err(CommandError::Unknown),
        }
    } else {
        let word = to_lower(raw);
        command_from_word(word.as_str(), args)
    }
}

/// The command name that an ASCII word lowers to, if any.
fn keyword_of(raw: &str) -> (r: Option<&'static str>)
    ensures
        r is Some == ascii_keyword(raw@) is Some,
        r matches Some(k) ==> ascii_keyword(raw@) == Some(k@),
{
    if lowers_to_str(raw, "get") {
        Some("get")
    } else if lowers_to_str(raw, "set") {
        Some("set")
    } else if lowers_to_str(raw, "ping") {
        Some("ping")
    } else if lowers_to_str(raw, "del") {
        Some("del")
    } else if lowers_to_str(raw, "subscribe") {
        Some("subscribe")
    } else if lowers_to_str(raw, "publish") {
        Some("publish")
    } else if lowers_to_str(raw, "exit") {
        Some("exit")
    } else {
        None
    }
}

/// The command for a lowercase command word `w` and its trimmed arguments.
pub fn command_from_word(w: &str, args: &str) -> (r: Result<Command, CommandError>)
    ensures
        match (r, command_spec(w@, args@)) {
            (Ok(c), Ok(cs)) => c@ == cs,
            (Err(e), Err(es)) => e == es,
            _ => false,
        },
{
    proof {
        reveal_strlit("get");
        reveal_strlit("set");
        reveal_strlit("ping");
        reveal_strlit("del");
        reveal_strlit("subscribe");
        reveal_strlit("publish");
        reveal_strlit("exit");
        reveal_strlit("PONG");
    }
    if str_eq(w, "get") {
        Ok(Command::Get { key: String::from_str(trim(args)) })
    } else if str_eq(w, "set") {
        let key = trim(split_once_at(args, '"').0);
        let rest = after_at(args, '"');
        let value = trim(split_once_at(rest, '"').0);
        let clause = trim(after_at(rest, '"'));
        match parse_expiry(clause) {
            Ok(ex) => Ok(
                Command::SetItem { key: String::from_str(key), value: String::from_str(value), ex },
            ),
            Err(e) => Err(e),
        }
    } else if str_eq(w, "ping") {
        if args.unicode_len() == 0 {
            Ok(Command::Ping { text: String::from_str("PONG") })
        } else {
            Ok(Command::Ping { text: String::from_str(args) })
        }
    } else if str_eq(w, "del") {
        Ok(Command::Del { keys: String::from_str(args) })
    } else if str_eq(w, "subscribe") {
        Ok(Command::Subscribe { channel: String::from_str(trim(args)) })
    } else if str_eq(w, "publish") {
        let channel = split_once_at(args, ' ').0;
        let msg = after_at(args, ' ');
        Ok(Command::Publish { channel: String::from_str(channel), msg: String::from_str(msg) })
    } else if str_eq(w, "exit") {
        Ok(Command::Exit)
    } else {
        Err(CommandError::Unknown)
    }
}

} // verus!
