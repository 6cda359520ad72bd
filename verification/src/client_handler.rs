//! The per-connection command protocol: newline-delimited ASCII lines are
//! split on `#` into command units, each unit on `=` into a code and its
//! arguments, and dispatched over a fixed command vocabulary.
//!
//! Every recognized, well-argumented unit is acknowledged by echoing its
//! code; anything else draws the literal error token. A `EXIT` unit ends
//! the session at once, leaving later units unprocessed. The session also
//! tracks an idle timer: a connection silent for longer than the timeout
//! delay is closed, and the timeout is logged exactly once.
//!
//! Commands are acknowledged, not bridged into the simulation: a handler
//! never mutates `GameLogic` directly. An embedder that wants commands to
//! act queues them against the tick owner and drains the queue through the
//! `GameLogic` operations once per tick, keeping the simulation
//! single-writer.

use crate::types::{MessageType, StyledMessage};
use vstd::prelude::*;

verus! {

/// Commands of the wire protocol, one per command code, plus the rejection
/// of everything else.
#[derive(Clone, Copy, PartialEq, Eq, Structural, Debug)]
pub enum Command {
    SetName,
    SetColor,
    Quit,
    Alive,
    Message,
    QueryClosestBot,
    QueryClosestProjectile,
    QueryByName,
    QueryNameList,
    QueryOrientation,
    QueryMessagesFromUser,
    EmptyReply,
    Unknown,
}

/// The unit separator within a line.
pub open spec fn command_sep() -> u8 {
    35u8
}

/// The argument separator within a unit.
pub open spec fn argument_sep() -> u8 {
    61u8
}

/// The bytes of each command's code on the wire; empty for `Unknown`.
pub open spec fn code_bytes(cmd: Command) -> Seq<u8> {
    match cmd {
        Command::SetName => seq![78u8, 65u8, 77u8, 69u8],
        Command::SetColor => seq![67u8, 79u8, 76u8],
        Command::Quit => seq![69u8, 88u8, 73u8, 84u8],
        Command::Alive => seq![76u8, 73u8, 86u8, 69u8],
        Command::Message => seq![77u8, 83u8, 71u8],
        Command::QueryClosestBot => seq![67u8, 66u8, 79u8, 84u8],
        Command::QueryClosestProjectile => seq![67u8, 80u8, 82u8, 79u8, 74u8],
        Command::QueryByName => seq![78u8, 66u8, 79u8, 84u8],
        Command::QueryNameList => seq![78u8, 76u8, 73u8, 83u8, 84u8],
        Command::QueryOrientation => seq![79u8, 82u8, 73u8, 69u8, 78u8, 84u8],
        Command::QueryMessagesFromUser => seq![85u8, 83u8, 82u8, 77u8, 83u8, 71u8],
        Command::EmptyReply => seq![69u8, 77u8, 80u8, 84u8, 89u8],
        Command::Unknown => Seq::empty(),
    }
}

/// The command a code designates; `Unknown` for anything off-vocabulary.
pub open spec fn command_of(code: Seq<u8>) -> Command {
    if code == code_bytes(Command::SetName) {
        Command::SetName
    } else if code == code_bytes(Command::SetColor) {
        Command::SetColor
    } else if code == code_bytes(Command::Quit) {
        Command::Quit
    } else if code == code_bytes(Command::Alive) {
        Command::Alive
    } else if code == code_bytes(Command::Message) {
        Command::Message
    } else if code == code_bytes(Command::QueryClosestBot) {
        Command::QueryClosestBot
    } else if code == code_bytes(Command::QueryClosestProjectile) {
        Command::QueryClosestProjectile
    } else if code == code_bytes(Command::QueryByName) {
        Command::QueryByName
    } else if code == code_bytes(Command::QueryNameList) {
        Command::QueryNameList
    } else if code == code_bytes(Command::QueryOrientation) {
        Command::QueryOrientation
    } else if code == code_bytes(Command::QueryMessagesFromUser) {
        Command::QueryMessagesFromUser
    } else if code == code_bytes(Command::EmptyReply) {
        Command::EmptyReply
    } else {
        Command::Unknown
    }
}

/// The parts of `s` between occurrences of `sep`, in order; always at
/// least one part, and no part contains the separator.
pub open spec fn split_bytes(s: Seq<u8>, sep: u8) -> Seq<Seq<u8>>
    decreases s.len(),
{
    if s.len() == 0 {
        seq![Seq::<u8>::empty()]
    } else if s[0] == sep {
        seq![Seq::<u8>::empty()] + split_bytes(s.drop_first(), sep)
    } else {
        let rest = split_bytes(s.drop_first(), sep);
        seq![seq![s[0]] + rest[0]] + rest.drop_first()
    }
}

/// A split always yields at least one part.
pub proof fn lemma_split_nonempty(s: Seq<u8>, sep: u8)
    ensures
        split_bytes(s, sep).len() >= 1,
    decreases s.len(),
{
    if s.len() > 0 {
        lemma_split_nonempty(s.drop_first(), sep);
    }
}

/// The parts joined back with `sep` between them; empty for no parts.
pub open spec fn join_bytes(parts: Seq<Seq<u8>>, sep: u8) -> Seq<u8>
    decreases parts.len(),
{
    if parts.len() == 0 {
        Seq::empty()
    } else if parts.len() == 1 {
        parts[0]
    } else {
        join_bytes(parts.drop_last(), sep) + seq![sep] + parts.last()
    }
}

/// An ASCII whitespace byte: space, tab, carriage return, or line feed.
pub open spec fn is_ws(b: u8) -> bool {
    b == 32 || b == 9 || b == 13 || b == 10
}

/// `s` without leading whitespace.
pub open spec fn ltrim_spec(s: Seq<u8>) -> Seq<u8>
    decreases s.len(),
{
    if s.len() > 0 && is_ws(s[0]) {
        ltrim_spec(s.drop_first())
    } else {
        s
    }
}

/// `s` without trailing whitespace.
pub open spec fn rtrim_spec(s: Seq<u8>) -> Seq<u8>
    decreases s.len(),
{
    if s.len() > 0 && is_ws(s.last()) {
        rtrim_spec(s.drop_last())
    } else {
        s
    }
}

/// `s` without leading or trailing whitespace.
pub open spec fn trim_spec(s: Seq<u8>) -> Seq<u8> {
    rtrim_spec(ltrim_spec(s))
}

/// A non-empty run of ASCII decimal digits.
pub open spec fn all_digits(s: Seq<u8>) -> bool {
    s.len() >= 1 && forall|i: int| 0 <= i < s.len() ==> 48 <= #[trigger] s[i] <= 57
}

/// How many parts a well-formed unit of this command has, code included.
pub open spec fn expected_parts(cmd: Command) -> int {
    match cmd {
        Command::SetName => 2,
        Command::SetColor => 4,
        Command::Message => 2,
        Command::QueryByName => 2,
        Command::QueryMessagesFromUser => 2,
        Command::Unknown => 0,
        _ => 1,
    }
}

/// Whether a parsed unit carries well-formed arguments for its command:
/// the right argument count, decimal color components, and a chat message
/// within the configured length.
pub open spec fn unit_ok(cmd: Command, parts: Seq<Seq<u8>>, max_msg_len: int) -> bool {
    &&& parts.len() == expected_parts(cmd)
    &&& (cmd is SetColor ==> all_digits(parts[1]) && all_digits(parts[2]) && all_digits(
        parts[3],
    ))
    &&& (cmd is Message ==> parts[1].len() <= max_msg_len)
}

/// The literal error token sent for unknown or malformed units.
pub open spec fn error_reply() -> Seq<u8> {
    seq![69u8, 82u8, 82u8, 79u8, 82u8]
}

/// The reply to one command unit: the echoed code as acknowledgment of a
/// recognized, well-argumented command, the error token otherwise.
pub open spec fn unit_reply(unit: Seq<u8>, max_msg_len: int) -> Seq<u8> {
    let parts = split_bytes(unit, argument_sep());
    let cmd = command_of(parts[0]);
    if cmd is Unknown {
        error_reply()
    } else if unit_ok(cmd, parts, max_msg_len) {
        parts[0]
    } else {
        error_reply()
    }
}

/// The replies to a line's units in order, stopping at a `EXIT` unit, and
/// whether the line quits the session.
pub open spec fn process_units(units: Seq<Seq<u8>>, max_msg_len: int) -> (Seq<Seq<u8>>, bool)
    decreases units.len(),
{
    if units.len() == 0 {
        (Seq::empty(), false)
    } else if units[0] == code_bytes(Command::Quit) {
        (Seq::empty(), true)
    } else {
        let rest = process_units(units.drop_first(), max_msg_len);
        (seq![unit_reply(units[0], max_msg_len)] + rest.0, rest.1)
    }
}

/// The full treatment of one received line: the reply bytes to send, and
/// whether the session ends. The reply joins the unit replies with the
/// unit separator and ends with a newline; a line quitting on its first
/// unit draws no reply at all.
pub open spec fn line_reply(line: Seq<u8>, max_msg_len: int) -> (Seq<u8>, bool) {
    let units = split_bytes(trim_spec(line), command_sep());
    let pr = process_units(units, max_msg_len);
    if pr.0.len() == 0 {
        (Seq::empty(), pr.1)
    } else {
        (join_bytes(pr.0, command_sep()).push(10u8), pr.1)
    }
}

/// A line that does not quit always draws a non-empty, newline-terminated
/// reply, whatever it held.
pub proof fn lemma_reply_well_formed(line: Seq<u8>, max_msg_len: int)
    ensures
        !line_reply(line, max_msg_len).1 ==> {
            let r = line_reply(line, max_msg_len).0;
            r.len() > 0 && r.last() == 10u8
        },
{
    let units = split_bytes(trim_spec(line), command_sep());
    lemma_split_nonempty(trim_spec(line), command_sep());
    let pr = process_units(units, max_msg_len);
    if !pr.1 {
        assert(units.len() >= 1);
        assert(units[0] != code_bytes(Command::Quit));
        assert(pr.0.len() >= 1);
    }
}

/// Units never quit unless one of them is the quit code itself.
proof fn lemma_no_exit_units_no_quit(units: Seq<Seq<u8>>, max_msg_len: int)
    requires
        forall|i: int| 0 <= i < units.len() ==> #[trigger] units[i] != code_bytes(Command::Quit),
    ensures
        !process_units(units, max_msg_len).1,
    decreases units.len(),
{
    if units.len() > 0 {
        assert(units[0] != code_bytes(Command::Quit));
        assert forall|i: int|
            0 <= i < units.drop_first().len() implies #[trigger] units.drop_first()[i]
            != code_bytes(Command::Quit) by {
            assert(units.drop_first()[i] == units[i + 1]);
        }
        lemma_no_exit_units_no_quit(units.drop_first(), max_msg_len);
    }
}

/// A line none of whose units is the quit code leaves the session open.
pub proof fn lemma_no_exit_no_quit(line: Seq<u8>, max_msg_len: int)
    requires
        forall|i: int|
            0 <= i < split_bytes(trim_spec(line), command_sep()).len() ==> #[trigger] split_bytes(
                trim_spec(line),
                command_sep(),
            )[i] != code_bytes(Command::Quit),
    ensures
        !line_reply(line, max_msg_len).1,
{
    lemma_no_exit_units_no_quit(split_bytes(trim_spec(line), command_sep()), max_msg_len);
}

/// A quit unit ends the line wherever it stands: the session quits, and
/// the replies are exactly the unit replies of the units before the first
/// quit unit, in order.
pub proof fn lemma_exit_unit_quits(units: Seq<Seq<u8>>, max_msg_len: int, i: int)
    requires
        0 <= i < units.len(),
        units[i] == code_bytes(Command::Quit),
        forall|k: int| 0 <= k < i ==> #[trigger] units[k] != code_bytes(Command::Quit),
    ensures
        process_units(units, max_msg_len).1,
        process_units(units, max_msg_len).0 == units.take(i).map_values(
            |u: Seq<u8>| unit_reply(u, max_msg_len),
        ),
    decreases i,
{
    let reply_of = |u: Seq<u8>| unit_reply(u, max_msg_len);
    if i == 0 {
        assert(units.take(0).map_values(reply_of) =~= Seq::<Seq<u8>>::empty());
    } else {
        let rest = units.drop_first();
        assert(rest[i - 1] == units[i]);
        assert forall|k: int| 0 <= k < i - 1 implies #[trigger] rest[k] != code_bytes(
            Command::Quit,
        ) by {
            assert(rest[k] == units[k + 1]);
        }
        lemma_exit_unit_quits(rest, max_msg_len, i - 1);
        assert(units.take(i).map_values(reply_of) =~= seq![reply_of(units[0])]
            + rest.take(i - 1).map_values(reply_of)) by {
            assert(units.take(i).map_values(reply_of).len() == i);
            assert forall|k: int|
                0 <= k < i implies #[trigger] units.take(i).map_values(reply_of)[k] == (seq![
                reply_of(units[0]),
            ] + rest.take(i - 1).map_values(reply_of))[k] by {
                if k > 0 {
                    assert(rest.take(i - 1)[k - 1] == units[k]);
                }
            }
        }
    }
}

/// Decides whether a byte is ASCII whitespace.
fn is_ws_exec(b: u8) -> (r: bool)
    ensures
        r == is_ws(b),
{
    b == 32 || b == 9 || b == 13 || b == 10
}

/// Copies a byte slice into a fresh vector.
fn copy_bytes(s: &[u8]) -> (r: Vec<u8>)
    ensures
        r@ == s@,
{
    let mut r: Vec<u8> = Vec::new();
    let n = s.len();
    let mut i: usize = 0;
    while i < n
        invariant
            n == s@.len(),
            i <= n,
            r@ == s@.take(i as int),
        decreases n - i,
    {
        r.push(s[i]);
        proof {
            assert(r@ =~= s@.take(i + 1));
        }
        i += 1;
    }
    proof {
        assert(s@.take(n as int) =~= s@);
    }
    r
}

/// Appends a byte slice to a vector.
fn push_all(out: &mut Vec<u8>, s: &[u8])
    ensures
        final(out)@ == old(out)@ + s@,
{
    let ghost pre = old(out)@;
    let n = s.len();
    let mut i: usize = 0;
    while i < n
        invariant
            n == s@.len(),
            i <= n,
            out@ == pre + s@.take(i as int),
        decreases n - i,
    {
        out.push(s[i]);
        proof {
            assert(out@ =~= pre + s@.take(i + 1));
        }
        i += 1;
    }
    proof {
        assert(pre + s@.take(n as int) =~= pre + s@);
    }
}

/// Strips leading and trailing ASCII whitespace from a byte slice.
fn trim_bytes(s: &[u8]) -> (r: Vec<u8>)
    ensures
        r@ == trim_spec(s@),
{
    let n = s.len();
    let mut start: usize = 0;
    proof {
        assert(s@.skip(0) =~= s@);
    }
    while start < n && is_ws_exec(s[start])
        invariant
            n == s@.len(),
            start <= n,
            ltrim_spec(s@) == ltrim_spec(s@.skip(start as int)),
        decreases n - start,
    {
        proof {
            assert(s@.skip(start as int).drop_first() =~= s@.skip(start + 1));
        }
        start += 1;
    }
    proof {
        assert(ltrim_spec(s@) =~= s@.skip(start as int));
        assert(s@.skip(start as int) =~= s@.subrange(start as int, n as int));
    }
    let mut end: usize = n;
    while end > start && is_ws_exec(s[end - 1])
        invariant
            n == s@.len(),
            start <= end <= n,
            rtrim_spec(s@.subrange(start as int, n as int)) == rtrim_spec(
                s@.subrange(start as int, end as int),
            ),
        decreases end,
    {
        proof {
            assert(s@.subrange(start as int, end as int).drop_last() =~= s@.subrange(
                start as int,
                end - 1,
            ));
        }
        end -= 1;
    }
    proof {
        assert(rtrim_spec(s@.subrange(start as int, end as int)) =~= s@.subrange(
            start as int,
            end as int,
        ));
    }
    let mut r: Vec<u8> = Vec::new();
    let mut i: usize = start;
    while i < end
        invariant
            start <= i <= end <= n,
            n == s@.len(),
            r@ == s@.subrange(start as int, i as int),
        decreases end - i,
    {
        r.push(s[i]);
        proof {
            assert(r@ =~= s@.subrange(start as int, i + 1));
        }
        i += 1;
    }
    r
}

/// Splits a byte slice on a separator into its parts, in order.
fn split_units(s: &[u8], sep: u8) -> (r: Vec<Vec<u8>>)
    ensures
        r@.map_values(|v: Vec<u8>| v@) == split_bytes(s@, sep),
{
    let n = s.len();
    let mut parts: Vec<Vec<u8>> = Vec::new();
    let mut cur: Vec<u8> = Vec::new();
    let mut i: usize = 0;
    proof {
        lemma_split_nonempty(s@, sep);
        assert(split_bytes(s@, sep) =~= parts@.map_values(|v: Vec<u8>| v@) + seq![
            cur@ + split_bytes(s@.skip(0), sep)[0],
        ] + split_bytes(s@.skip(0), sep).drop_first()) by {
            assert(s@.skip(0) =~= s@);
            assert(cur@ + split_bytes(s@, sep)[0] =~= split_bytes(s@, sep)[0]);
        }
    }
    while i < n
        invariant
            n == s@.len(),
            i <= n,
            split_bytes(s@, sep) == parts@.map_values(|v: Vec<u8>| v@) + seq![
                cur@ + split_bytes(s@.skip(i as int), sep)[0],
            ] + split_bytes(s@.skip(i as int), sep).drop_first(),
        decreases n - i,
    {
        let ghost old_parts = parts@;
        let ghost old_cur = cur@;
        let ghost tail = split_bytes(s@.skip(i as int), sep);
        let ghost tail1 = split_bytes(s@.skip(i + 1), sep);
        proof {
            lemma_split_nonempty(s@.skip(i + 1), sep);
            assert(s@.skip(i as int).drop_first() =~= s@.skip(i + 1));
            assert(s@.skip(i as int)[0] == s@[i as int]);
            assert(s@.skip(i as int).len() > 0);
        }
        if s[i] == sep {
            proof {
                assert(tail =~= seq![Seq::<u8>::empty()] + tail1);
            }
            parts.push(cur);
            cur = Vec::new();
            proof {
                assert(parts@.map_values(|v: Vec<u8>| v@) =~= old_parts.map_values(
                    |v: Vec<u8>| v@,
                ).push(old_cur));
                assert(old_cur + tail[0] =~= old_cur);
                assert(split_bytes(s@, sep) =~= parts@.map_values(|v: Vec<u8>| v@) + seq![
                    cur@ + tail1[0],
                ] + tail1.drop_first());
            }
        } else {
            proof {
                assert(tail =~= seq![seq![s@[i as int]] + tail1[0]] + tail1.drop_first());
            }
            cur.push(s[i]);
            proof {
                assert(cur@ =~= old_cur.push(s@[i as int]));
                assert(cur@ + tail1[0] =~= old_cur + (seq![s@[i as int]] + tail1[0]));
                assert(split_bytes(s@, sep) =~= parts@.map_values(|v: Vec<u8>| v@) + seq![
                    cur@ + tail1[0],
                ] + tail1.drop_first());
            }
        }
        i += 1;
    }
    let ghost old_parts = parts@;
    let ghost old_cur = cur@;
    proof {
        assert(s@.skip(n as int) =~= Seq::<u8>::empty());
        assert(split_bytes(Seq::<u8>::empty(), sep) =~= seq![Seq::<u8>::empty()]);
        assert(old_cur + split_bytes(s@.skip(n as int), sep)[0] =~= old_cur);
    }
    parts.push(cur);
    proof {
        assert(parts@.map_values(|v: Vec<u8>| v@) =~= old_parts.map_values(|v: Vec<u8>| v@).push(
            old_cur,
        ));
        assert(parts@.map_values(|v: Vec<u8>| v@) =~= split_bytes(s@, sep));
    }
    parts
}

/// Decides whether a byte slice holds only decimal digits, at least one.
fn digits_exec(s: &[u8]) -> (r: bool)
    ensures
        r == all_digits(s@),
{
    let n = s.len();
    if n == 0 {
        return false;
    }
    let mut i: usize = 0;
    while i < n
        invariant
            n == s@.len(),
            i <= n,
            forall|k: int| 0 <= k < i ==> 48 <= #[trigger] s@[k] <= 57,
        decreases n - i,
    {
        if s[i] < 48 || s[i] > 57 {
            return false;
        }
        i += 1;
    }
    true
}

/// Builds the literal error token.
fn error_vec() -> (r: Vec<u8>)
    ensures
        r@ == error_reply(),
{
    let mut r: Vec<u8> = Vec::new();
    r.push(69);
    r.push(82);
    r.push(82);
    r.push(79);
    r.push(82);
    proof {
        assert(r@ =~= error_reply());
    }
    r
}

/// Classifies a command code.
fn parse_command(code: &[u8]) -> (c: Command)
    ensures
        c == command_of(code@),
{
    let n = code.len();
    if n == 4 && code[0] == 78 && code[1] == 65 && code[2] == 77 && code[3] == 69 {
        proof {
            assert(code@ =~= code_bytes(Command::SetName));
        }
        Command::SetName
    } else if n == 3 && code[0] == 67 && code[1] == 79 && code[2] == 76 {
        proof {
            assert(code@ =~= code_bytes(Command::SetColor));
        }
        Command::SetColor
    } else if n == 4 && code[0] == 69 && code[1] == 88 && code[2] == 73 && code[3] == 84 {
        proof {
            assert(code@ =~= code_bytes(Command::Quit));
        }
        Command::Quit
    } else if n == 4 && code[0] == 76 && code[1] == 73 && code[2] == 86 && code[3] == 69 {
        proof {
            assert(code@ =~= code_bytes(Command::Alive));
        }
        Command::Alive
    } else if n == 3 && code[0] == 77 && code[1] == 83 && code[2] == 71 {
        proof {
            assert(code@ =~= code_bytes(Command::Message));
        }
        Command::Message
    } else if n == 4 && code[0] == 67 && code[1] == 66 && code[2] == 79 && code[3] == 84 {
        proof {
            assert(code@ =~= code_bytes(Command::QueryClosestBot));
        }
        Command::QueryClosestBot
    } else if n == 5 && code[0] == 67 && code[1] == 80 && code[2] == 82 && code[3] == 79 && code[4]
        == 74 {
        proof {
            assert(code@ =~= code_bytes(Command::QueryClosestProjectile));
        }
        Command::QueryClosestProjectile
    } else if n == 4 && code[0] == 78 && code[1] == 66 && code[2] == 79 && code[3] == 84 {
        proof {
            assert(code@ =~= code_bytes(Command::QueryByName));
        }
        Command::QueryByName
    } else if n == 5 && code[0] == 78 && code[1] == 76 && code[2] == 73 && code[3] == 83 && code[4]
        == 84 {
        proof {
            assert(code@ =~= code_bytes(Command::QueryNameList));
        }
        Command::QueryNameList
    } else if n == 6 && code[0] == 79 && code[1] == 82 && code[2] == 73 && code[3] == 69 && code[4]
        == 78 && code[5] == 84 {
        proof {
            assert(code@ =~= code_bytes(Command::QueryOrientation));
        }
        Command::QueryOrientation
    } else if n == 6 && code[0] == 85 && code[1] == 83 && code[2] == 82 && code[3] == 77 && code[4]
        == 83 && code[5] == 71 {
        proof {
            assert(code@ =~= code_bytes(Command::QueryMessagesFromUser));
        }
        Command::QueryMessagesFromUser
    } else if n == 5 && code[0] == 69 && code[1] == 77 && code[2] == 80 && code[3] == 84 && code[4]
        == 89 {
        proof {
            assert(code@ =~= code_bytes(Command::EmptyReply));
        }
        Command::EmptyReply
    } else {
        Command::Unknown
    }
}

/// A struct representing a client handler: the protocol-visible state of
/// one client connection. The socket itself and its buffered reader and
/// writer live with the embedder, which feeds received lines in and sends
/// the returned replies.
pub struct ClientHandler {
    /// The time in seconds since the Unix epoch of the client's last activity.
    pub previous_time: u64,
    /// Whether the connection is still open.
    pub connected: bool,
    /// Whether this session has already logged an idle timeout.
    pub timeout_logged: bool,
}

/// How one idle check moves the session state: an open connection idle for
/// longer than the delay closes and records the timeout; anything else is
/// left alone.
pub open spec fn timeout_transition(c: ClientHandler, now: u64, delay: u64) -> (
    ClientHandler,
    bool,
) {
    if c.connected && now - c.previous_time > delay {
        (ClientHandler { connected: false, timeout_logged: true, ..c }, true)
    } else {
        (c, false)
    }
}

/// Once a session has timed out, no later idle check times out again, so
/// the timeout event is logged at most once per session.
pub proof fn lemma_timeout_logged_once(c: ClientHandler, now1: u64, now2: u64, delay: u64)
    ensures
        !(timeout_transition(c, now1, delay).1 && timeout_transition(
            timeout_transition(c, now1, delay).0,
            now2,
            delay,
        ).1),
{
}

impl ClientHandler {
    /// Creates a new client handler for a connection that just opened,
    /// with its idle timer anchored at `now`.
    pub fn new(now: u64) -> (r: ClientHandler)
        ensures
            r.previous_time == now,
            r.connected,
            !r.timeout_logged,
    {
        ClientHandler { previous_time: now, connected: true, timeout_logged: false }
    }

    /// Checks if the client has exceeded the inactivity timeout.
    ///
    /// On a timeout the connection closes, the event is appended to the
    /// message log as a warning exactly once, and `true` comes back so the
    /// embedder can shut the socket down.
    pub fn check_timeout(
        &mut self,
        now: u64,
        timeout_delay: u64,
        messages: &mut Vec<StyledMessage>,
        peer: &str,
    ) -> (timed_out: bool)
        requires
            old(self).previous_time <= now,
        ensures
            (*final(self), timed_out) == timeout_transition(*old(self), now, timeout_delay),
            timed_out ==> {
                &&& final(messages)@.len() == old(messages)@.len() + 1
                &&& final(messages)@.last().color == MessageType::Warning.color_spec()
                &&& final(messages)@.last().text@ == "[WARNING] Connection timeout: "@ + peer@
                &&& forall|i: int|
                    0 <= i < old(messages)@.len() ==> final(messages)@[i] == old(messages)@[i]
            },
            !timed_out ==> *final(messages) == *old(messages),
    {
        if !self.connected {
            return false;
        }
        if now - self.previous_time > timeout_delay {
            let mut text = String::from_str("[WARNING] Connection timeout: ");
            text.append(peer);
            crate::types::add_message(messages, text, MessageType::Warning);
            self.connected = false;
            self.timeout_logged = true;
            true
        } else {
            false
        }
    }

    /// Handles a message received from the client: one full line, which
    /// may hold several `#`-separated command units.
    ///
    /// Returns the reply bytes to send and whether the session ends on a
    /// `EXIT` unit; processing a line with at least one non-quit unit
    /// resets the idle timer to `now`.
    pub fn handle_received_message(
        &mut self,
        received_message: &[u8],
        max_message_length: usize,
        now: u64,
    ) -> (r: (Vec<u8>, bool))
        requires
            old(self).connected,
        ensures
            r.0@ == line_reply(received_message@, max_message_length as int).0,
            r.1 == line_reply(received_message@, max_message_length as int).1,
            final(self).connected == !r.1,
            final(self).previous_time == if r.0@.len() > 0 {
                now
            } else {
                old(self).previous_time
            },
            final(self).timeout_logged == old(self).timeout_logged,
    {
        let ghost max_len = max_message_length as int;
        let trimmed = trim_bytes(received_message);
        let units = split_units(trimmed.as_slice(), 35);
        let ghost gunits = split_bytes(trim_spec(received_message@), 35);
        let ghost target = process_units(gunits, max_len);
        let mut replies: Vec<Vec<u8>> = Vec::new();
        let mut quit = false;
        let nu = units.len();
        let mut k: usize = 0;
        proof {
            assert(gunits.skip(0) =~= gunits);
            assert(target.0 =~= replies@.map_values(|v: Vec<u8>| v@) + process_units(
                gunits.skip(0),
                max_len,
            ).0);
        }
        while k < nu
            invariant_except_break
                !quit,
                target.0 == replies@.map_values(|v: Vec<u8>| v@) + process_units(
                    gunits.skip(k as int),
                    max_len,
                ).0,
                target.1 == process_units(gunits.skip(k as int), max_len).1,
            invariant
                nu == units@.len(),
                k <= nu,
                gunits == units@.map_values(|v: Vec<u8>| v@),
                max_len == max_message_length as int,
                target == process_units(gunits, max_len),
            ensures
                target.0 == replies@.map_values(|v: Vec<u8>| v@),
                target.1 == quit,
            decreases nu - k,
        {
            let ghost old_replies = replies@;
            proof {
                assert(gunits.skip(k as int)[0] == gunits[k as int]);
                assert(gunits.skip(k as int).drop_first() =~= gunits.skip(k + 1));
                assert(units@[k as int]@ == gunits[k as int]);
            }
            let u = &units[k];
            let un = u.len();
            if un == 4 && u[0] == 69 && u[1] == 88 && u[2] == 73 && u[3] == 84 {
                proof {
                    assert(u@ =~= code_bytes(Command::Quit));
                    assert(process_units(gunits.skip(k as int), max_len).0
                        =~= Seq::<Seq<u8>>::empty());
                    assert(target.0 =~= replies@.map_values(|v: Vec<u8>| v@));
                }
                quit = true;
                break ;
            }
            proof {
                assert(u@ != code_bytes(Command::Quit));
            }
            let rep = self.process_message(u.as_slice(), max_message_length);
            replies.push(rep);
            proof {
                assert(replies@.map_values(|v: Vec<u8>| v@) =~= old_replies.map_values(
                    |v: Vec<u8>| v@,
                ).push(rep@));
                assert(target.0 =~= replies@.map_values(|v: Vec<u8>| v@) + process_units(
                    gunits.skip(k + 1),
                    max_len,
                ).0);
            }
            k += 1;
        }
        proof {
            if k == nu && !quit {
                assert(gunits.skip(nu as int) =~= Seq::<Seq<u8>>::empty());
            }
        }
        let mut out: Vec<u8> = Vec::new();
        let nr = replies.len();
        if nr > 0 {
            let ghost rv = replies@.map_values(|v: Vec<u8>| v@);
            let mut idx: usize = 0;
            while idx < nr
                invariant
                    nr == replies@.len(),
                    0 < nr,
                    idx <= nr,
                    rv == replies@.map_values(|v: Vec<u8>| v@),
                    idx == 0 ==> out@ == Seq::<u8>::empty(),
                    idx > 0 ==> out@ == join_bytes(rv.take(idx as int), 35),
                decreases nr - idx,
            {
                let ghost out0 = out@;
                if idx > 0 {
                    out.push(35);
                }
                push_all(&mut out, replies[idx].as_slice());
                proof {
                    assert(rv.take(idx + 1).drop_last() =~= rv.take(idx as int));
                    assert(rv.take(idx + 1).last() == rv[idx as int]);
                    if idx == 0 {
                        assert(rv.take(1) =~= seq![rv[0]]);
                        assert(out@ =~= rv[0]);
                    } else {
                        assert(out@ =~= join_bytes(rv.take(idx as int), 35) + seq![35u8]
                            + rv[idx as int]);
                    }
                }
                idx += 1;
            }
            proof {
                assert(rv.take(nr as int) =~= rv);
            }
            out.push(10);
        }
        if quit {
            self.connected = false;
        }
        if nr > 0 {
            self.previous_time = now;
        }
        (out, quit)
    }

    /// Processes an individual command unit from the client, returning the
    /// reply bytes: the echoed code for a recognized, well-argumented
    /// command, the error token otherwise.
    pub fn process_message(&self, received: &[u8], max_message_length: usize) -> (response: Vec<
        u8,
    >)
        ensures
            response@ == unit_reply(received@, max_message_length as int),
    {
        let parts = split_units(received, 61);
        proof {
            lemma_split_nonempty(received@, 61);
            assert(parts@.map_values(|v: Vec<u8>| v@).len() == parts@.len());
            assert(parts@[0]@ == split_bytes(received@, 61)[0]);
        }
        let cmd = parse_command(parts[0].as_slice());
        let np = parts.len();
        let ok: bool = match cmd {
            Command::Unknown => false,
            Command::SetColor => np == 4 && digits_exec(parts[1].as_slice()) && digits_exec(
                parts[2].as_slice(),
            ) && digits_exec(parts[3].as_slice()),
            Command::Message => np == 2 && parts[1].len() <= max_message_length,
            Command::SetName => np == 2,
            Command::QueryByName => np == 2,
            Command::QueryMessagesFromUser => np == 2,
            _ => np == 1,
        };
        proof {
            let gparts = split_bytes(received@, 61);
            assert forall|i: int| 0 <= i < parts@.len() implies parts@[i]@ == gparts[i] by {
                assert(parts@.map_values(|v: Vec<u8>| v@)[i] == parts@[i]@);
            }
        }
        if ok {
            copy_bytes(parts[0].as_slice())
        } else {
            error_vec()
        }
    }

    /// Marks the session as over after the peer left or quit, logging the
    /// disconnection.
    pub fn handle_disconnection(&mut self, messages: &mut Vec<StyledMessage>, peer: &str)
        ensures
            !final(self).connected,
            final(self).previous_time == old(self).previous_time,
            final(self).timeout_logged == old(self).timeout_logged,
            final(messages)@.len() == old(messages)@.len() + 1,
            final(messages)@.last().color == MessageType::Info.color_spec(),
            final(messages)@.last().text@ == "[INFO] Client disconnected: "@ + peer@,
            forall|i: int|
                0 <= i < old(messages)@.len() ==> final(messages)@[i] == old(messages)@[i],
    {
        let mut text = String::from_str("[INFO] Client disconnected: ");
        text.append(peer);
        crate::types::add_message(messages, text, MessageType::Info);
        self.connected = false;
    }

    /// Adds a message to the response string, separating it from what is
    /// already there with the command separator.
    pub fn add_to_reponse(reponse: String, message: String) -> (r: String)
        ensures
            reponse@.len() == 0 ==> r@ == message@,
            reponse@.len() > 0 ==> r@ == reponse@ + "#"@ + message@,
    {
        if reponse.as_str().is_empty() {
            message
        } else {
            let mut r = reponse;
            r.append("#");
            r.append(message.as_str());
            r
        }
    }
}

} // verus!
