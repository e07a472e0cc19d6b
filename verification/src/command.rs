//! One framed line in, one SMTP command out.
//!
//! The RFC 5321 command grammar itself lives in the rustyknife crate; this
//! adapter recognizes the RFC 3207 STARTTLS extension command, hands
//! everything else to that grammar, and rejects any line with unconsumed
//! residue, so that parsing is all-or-nothing.

use crate::error::ServerError;
use crate::reply::{clone_bytes, CR, LF};
use rustyknife::rfc5321::Command as RkCommand;
use vstd::prelude::*;

verus! {

/// Relies on rustyknife::rfc5321::ReversePath: the MAIL sender path,
/// carried through to the policy handler untouched.
#[verifier::external_type_specification]
#[verifier::external_body]
pub struct ExReversePath(rustyknife::rfc5321::ReversePath);

/// Relies on rustyknife::rfc5321::ForwardPath: the RCPT recipient path,
/// carried through to the policy handler untouched.
#[verifier::external_type_specification]
#[verifier::external_body]
pub struct ExForwardPath(rustyknife::rfc5321::ForwardPath);

/// Relies on rustyknife::rfc5321::Param: an ESMTP extension parameter,
/// carried through to the policy handler untouched.
#[verifier::external_type_specification]
#[verifier::external_body]
pub struct ExParam(rustyknife::rfc5321::Param);

/// Relies on rustyknife::rfc5321::SMTPString: an SMTP string argument,
/// carried but never read by the engine.
#[verifier::external_type_specification]
#[verifier::external_body]
pub struct ExSMTPString(rustyknife::rfc5321::SMTPString);

/// Relies on rustyknife::types::DomainPart: the EHLO client identity.
#[verifier::external_type_specification]
#[verifier::external_body]
pub struct ExDomainPart(rustyknife::types::DomainPart);

/// Relies on rustyknife::types::Domain: the HELO client identity.
#[verifier::external_type_specification]
#[verifier::external_body]
pub struct ExDomain(rustyknife::types::Domain);

/// Relies on rustyknife::rfc5321::Command: the parsed base command set.
#[verifier::external_type_specification]
#[verifier::external_body]
pub struct ExRkCommand(RkCommand);

/// One SMTP command, as the state machine dispatches it: the RFC 5321
/// base set plus the STARTTLS extension.
pub enum Command {
    Ehlo(rustyknife::types::DomainPart),
    Helo(rustyknife::types::Domain),
    Mail(rustyknife::rfc5321::ReversePath, Vec<rustyknife::rfc5321::Param>),
    Rcpt(rustyknife::rfc5321::ForwardPath, Vec<rustyknife::rfc5321::Param>),
    Data,
    Rset,
    Noop(Option<rustyknife::rfc5321::SMTPString>),
    Quit,
    Vrfy(rustyknife::rfc5321::SMTPString),
    Expn(rustyknife::rfc5321::SMTPString),
    Help(Option<rustyknife::rfc5321::SMTPString>),
    StartTls,
}

// The outcome of the base-command grammar on a line: `None` when the
// grammar rejects it, `Some(n)` when it parses with `n` unconsumed
// trailing octets.  The outcome depends on the line's bytes alone.
pub uninterp spec fn base_parse_residue(line: Seq<u8>) -> Option<nat>;

/// Relies on rustyknife::rfc5321::command with the internationalized
/// (SMTPUTF8) behaviour: it parses one base SMTP command from the front
/// of `line`; on success the command is returned with the length of the
/// unconsumed remainder, a suffix of the input.  The grammar's outcome is
/// named `base_parse_residue`.
#[verifier::external_body]
fn parse_base_command(line: &[u8]) -> (r: Option<(RkCommand, usize)>)
    ensures
        match r {
            Option::Some(p) => base_parse_residue(line@) == Option::Some(p.1 as nat) && p.1
                <= line@.len(),
            Option::None => base_parse_residue(line@) matches Option::None,
        },
{
    match rustyknife::rfc5321::command::<rustyknife::behaviour::Intl>(line) {
        Ok((rem, cmd)) => Some((cmd, rem.len())),
        Err(_) => None,
    }
}

/// Relies on the variants of rustyknife::rfc5321::Command: each arm moves
/// the payload of one base-command variant into the engine's own command
/// type; no arm yields the STARTTLS extension command.
#[verifier::external_body]
fn convert_command(c: RkCommand) -> (r: Command)
    ensures
        !(r matches Command::StartTls),
{
    match c {
        RkCommand::EHLO(d) => Command::Ehlo(d),
        RkCommand::HELO(d) => Command::Helo(d),
        RkCommand::MAIL(p, ps) => Command::Mail(p, ps),
        RkCommand::RCPT(p, ps) => Command::Rcpt(p, ps),
        RkCommand::DATA => Command::Data,
        RkCommand::RSET => Command::Rset,
        RkCommand::NOOP(s) => Command::Noop(s),
        RkCommand::QUIT => Command::Quit,
        RkCommand::VRFY(s) => Command::Vrfy(s),
        RkCommand::EXPN(s) => Command::Expn(s),
        RkCommand::HELP(s) => Command::Help(s),
    }
}

/// The ASCII upper-case image of a byte.
pub open spec fn ascii_upper(b: u8) -> u8 {
    if 97 <= b <= 122 {
        (b - 32) as u8
    } else {
        b
    }
}

/// The line is the RFC 3207 STARTTLS command: the word STARTTLS in any
/// case, then CR LF, and nothing else.
pub open spec fn is_starttls_line(s: Seq<u8>) -> bool {
    &&& s.len() == 10
    &&& ascii_upper(s[0]) == 'S' as u8
    &&& ascii_upper(s[1]) == 'T' as u8
    &&& ascii_upper(s[2]) == 'A' as u8
    &&& ascii_upper(s[3]) == 'R' as u8
    &&& ascii_upper(s[4]) == 'T' as u8
    &&& ascii_upper(s[5]) == 'T' as u8
    &&& ascii_upper(s[6]) == 'L' as u8
    &&& ascii_upper(s[7]) == 'S' as u8
    &&& s[8] == CR
    &&& s[9] == LF
}

/// The ASCII upper-case image of a byte.
fn to_upper(b: u8) -> (r: u8)
    ensures
        r == ascii_upper(b),
{
    if 97 <= b && b <= 122 {
        b - 32
    } else {
        b
    }
}

/// Recognize the STARTTLS command line.
fn line_is_starttls(line: &Vec<u8>) -> (r: bool)
    ensures
        r == is_starttls_line(line@),
{
    if line.len() != 10 {
        return false;
    }
    to_upper(line[0]) == 'S' as u8 && to_upper(line[1]) == 'T' as u8 && to_upper(line[2])
        == 'A' as u8 && to_upper(line[3]) == 'R' as u8 && to_upper(line[4]) == 'T' as u8
        && to_upper(line[5]) == 'T' as u8 && to_upper(line[6]) == 'L' as u8 && to_upper(line[7])
        == 'S' as u8 && line[8] == CR && line[9] == LF
}

/// Parse one framed command line, all-or-nothing: a STARTTLS line or a
/// line the base grammar consumes in full comes back as a command; any
/// other line, including one with unconsumed residue, is a syntax error
/// carrying the offending line unchanged, and never any other error.
pub fn parse_command(line: &Vec<u8>) -> (r: Result<Command, ServerError>)
    ensures
        r matches Result::Err(e) ==> (e matches ServerError::SyntaxError(l) && l@ == line@),
        is_starttls_line(line@) <==> (r matches Result::Ok(c) && c matches Command::StartTls),
        !is_starttls_line(line@) ==> ((r matches Result::Ok(_)) <==> base_parse_residue(line@)
            == Option::Some(0nat)),
{
    if line_is_starttls(line) {
        return Result::Ok(Command::StartTls);
    }
    match parse_base_command(line.as_slice()) {
        Option::Some((cmd, rem)) => {
            if rem == 0 {
                Result::Ok(convert_command(cmd))
            } else {
                Result::Err(ServerError::SyntaxError(clone_bytes(line)))
            }
        },
        Option::None => Result::Err(ServerError::SyntaxError(clone_bytes(line))),
    }
}

} // verus!
