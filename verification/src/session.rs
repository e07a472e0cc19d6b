//! The SMTP session state machine (RFC 5321 section 4.1.4).
//!
//! The engine makes every protocol decision as a pure function over plain
//! values: the embedding application reads and parses one line, asks
//! `handle_command` what to do, performs the requested policy callback,
//! and hands the callback's answer back to the matching `apply`
//! function, which produces the reply to write and the next state.

use crate::command::Command;
use crate::error::ServerError;
use crate::reply::{split_msg, Reply};
use vstd::prelude::*;
use vstd::string::StringSliceAdditionalSpecFns;

verus! {

/// A policy answer: `Ok` accepts, `Err` rejects; either way the handler
/// may substitute its own reply for the engine's default.
pub type HandlerResult = Result<Option<Reply>, Option<Reply>>;

/// Protocol state of a mail transaction.
#[derive(Clone, Copy, PartialEq, Eq, Structural, Debug)]
pub enum State {
    /// No transaction in progress.
    Initial,
    /// A MAIL command has been accepted.
    Mail,
    /// At least one RCPT command has been accepted.
    Rcpt,
}

/// One SMTP session: the transaction state and whether the transport is
/// TLS, which is immutable within a session instance.
pub struct Session {
    pub state: State,
    pub tls_active: bool,
}

/// What the engine asks of its caller after reading one command.
pub enum Action {
    /// Write this reply and continue the loop.
    Send(Reply),
    /// Write this reply, flush, and end the session normally.
    SendQuit(Reply),
    /// Call the handler's `mail` with these arguments, then `apply_mail`.
    CallMail(rustyknife::rfc5321::ReversePath, Vec<rustyknife::rfc5321::Param>),
    /// Call the handler's `rcpt` with these arguments, then `apply_rcpt`.
    CallRcpt(rustyknife::rfc5321::ForwardPath, Vec<rustyknife::rfc5321::Param>),
    /// Call the handler's `data_start`, then `apply_data_start`.
    CallDataStart,
    /// Call the handler's `tls_request`, then `apply_tls_request`.
    CallTlsRequest,
}

/// How the session continues after one command has been answered.
#[derive(Clone, Copy, PartialEq, Eq, Structural, Debug)]
pub enum Control {
    /// Read the next command.
    Continue,
    /// QUIT was answered; close normally.
    Quit,
    /// STARTTLS was accepted; flush, check for pipelined bytes, upgrade.
    StartTls,
    /// The handler aborted the DATA stream; the session must end.
    Abort,
}

/// The default reply texts, as byte sequences.
pub open spec fn txt_ok() -> Seq<u8> {
    "ok".spec_bytes()
}

pub open spec fn txt_bye() -> Seq<u8> {
    "bye".spec_bytes()
}

pub open spec fn txt_not_implemented() -> Seq<u8> {
    "command not implemented".spec_bytes()
}

pub open spec fn txt_bad_sequence() -> Seq<u8> {
    "bad sequence of commands".spec_bytes()
}

pub open spec fn txt_mail_refused() -> Seq<u8> {
    "mail transaction refused".spec_bytes()
}

pub open spec fn txt_rcpt_refused() -> Seq<u8> {
    "recipient not accepted".spec_bytes()
}

pub open spec fn txt_no_mail() -> Seq<u8> {
    "mail transaction not started".spec_bytes()
}

pub open spec fn txt_no_rcpt() -> Seq<u8> {
    "must have at least one valid recipient".spec_bytes()
}

pub open spec fn txt_data_refused() -> Seq<u8> {
    "data not accepted".spec_bytes()
}

pub open spec fn txt_send_data() -> Seq<u8> {
    "send data".spec_bytes()
}

pub open spec fn txt_body_ok() -> Seq<u8> {
    "body ok".spec_bytes()
}

pub open spec fn txt_data_abort() -> Seq<u8> {
    "data abort".spec_bytes()
}

pub open spec fn txt_syntax() -> Seq<u8> {
    "Invalid command syntax".spec_bytes()
}

pub open spec fn txt_starting_tls() -> Seq<u8> {
    "starting TLS".spec_bytes()
}

/// A reply with the engine's default shape: the given code, no enhanced
/// status code, and the given message text.
pub open spec fn is_default(r: Reply, code: u16, text: Seq<u8>) -> bool {
    &&& r.code == code
    &&& r.ecode matches Option::None
    &&& r.lines_view() == split_msg(text)
}

/// The handler's substitute reply when it gave one, the default otherwise.
pub open spec fn override_or(h: Option<Reply>, code: u16, text: Seq<u8>, r: Reply) -> bool {
    match h {
        Option::Some(rep) => r == rep,
        Option::None => is_default(r, code, text),
    }
}

/// The EHLO greeting line.
pub open spec fn ehlo_greeting() -> Seq<u8> {
    seq![
        'l' as u8,
        'o' as u8,
        'c' as u8,
        'a' as u8,
        'l' as u8,
        'h' as u8,
        'o' as u8,
        's' as u8,
        't' as u8,
    ]
}

pub open spec fn kw_chunking() -> Seq<u8> {
    seq!['C' as u8, 'H' as u8, 'U' as u8, 'N' as u8, 'K' as u8, 'I' as u8, 'N' as u8, 'G' as u8]
}

pub open spec fn kw_enhancedstatuscodes() -> Seq<u8> {
    seq![
        'E' as u8,
        'N' as u8,
        'H' as u8,
        'A' as u8,
        'N' as u8,
        'C' as u8,
        'E' as u8,
        'D' as u8,
        'S' as u8,
        'T' as u8,
        'A' as u8,
        'T' as u8,
        'U' as u8,
        'S' as u8,
        'C' as u8,
        'O' as u8,
        'D' as u8,
        'E' as u8,
        'S' as u8,
    ]
}

pub open spec fn kw_pipelining() -> Seq<u8> {
    seq![
        'P' as u8,
        'I' as u8,
        'P' as u8,
        'E' as u8,
        'L' as u8,
        'I' as u8,
        'N' as u8,
        'I' as u8,
        'N' as u8,
        'G' as u8,
    ]
}

pub open spec fn kw_smtputf8() -> Seq<u8> {
    seq!['S' as u8, 'M' as u8, 'T' as u8, 'P' as u8, 'U' as u8, 'T' as u8, 'F' as u8, '8' as u8]
}

pub open spec fn kw_starttls() -> Seq<u8> {
    seq!['S' as u8, 'T' as u8, 'A' as u8, 'R' as u8, 'T' as u8, 'T' as u8, 'L' as u8, 'S' as u8]
}

/// The message lines of the EHLO reply: the greeting, then the keyword
/// list in sorted order, with STARTTLS present exactly when the session
/// is not yet TLS.
pub open spec fn ehlo_lines(tls: bool) -> Seq<Seq<u8>> {
    let base = seq![
        ehlo_greeting(),
        kw_chunking(),
        kw_enhancedstatuscodes(),
        kw_pipelining(),
        kw_smtputf8(),
    ];
    if tls {
        base
    } else {
        base + seq![kw_starttls()]
    }
}

/// The STARTTLS keyword stands among the EHLO reply lines if and only if
/// the session is not yet TLS.
pub proof fn lemma_starttls_advertised(tls: bool)
    ensures
        (exists|i: int| 0 <= i < ehlo_lines(tls).len() && ehlo_lines(tls)[i] == kw_starttls())
            <==> !tls,
{
    if tls {
        assert(forall|i: int|
            0 <= i < ehlo_lines(true).len() ==> ehlo_lines(true)[i] != kw_starttls()) by {
            assert(ehlo_greeting().len() != kw_starttls().len());
            assert(kw_chunking()[0] != kw_starttls()[0]);
            assert(kw_enhancedstatuscodes().len() != kw_starttls().len());
            assert(kw_pipelining().len() != kw_starttls().len());
            assert(kw_smtputf8()[1] != kw_starttls()[1]);
        }
    } else {
        assert(ehlo_lines(false)[5] == kw_starttls());
    }
}

/// Build one keyword line from its octets.
fn byte_line(bytes: &[u8]) -> (v: Vec<u8>)
    ensures
        v@ == bytes@,
{
    let mut v: Vec<u8> = Vec::new();
    let mut i: usize = 0;
    while i < bytes.len()
        invariant
            i <= bytes@.len(),
            v@ == bytes@.take(i as int),
        decreases bytes@.len() - i,
    {
        v.push(bytes[i]);
        i = i + 1;
        assert(v@ =~= bytes@.take(i as int));
    }
    assert(v@ =~= bytes@);
    v
}

/// The EHLO reply: code 250, the greeting and the keyword list.
pub fn ehlo_reply(tls: bool) -> (r: Reply)
    ensures
        r.code == 250,
        r.ecode matches Option::None,
        r.lines_view() == ehlo_lines(tls),
{
    let mut lines: Vec<Vec<u8>> = Vec::new();
    let greeting = byte_line("localhost".as_bytes());
    proof {
        reveal_strlit("localhost");
        assert(vstd::utf8::is_ascii_chars("localhost"@));
        vstd::utf8::is_ascii_chars_encode_utf8("localhost"@);
        assert(greeting@ =~= ehlo_greeting());
    }
    lines.push(greeting);
    let chunking = byte_line("CHUNKING".as_bytes());
    proof {
        reveal_strlit("CHUNKING");
        assert(vstd::utf8::is_ascii_chars("CHUNKING"@));
        vstd::utf8::is_ascii_chars_encode_utf8("CHUNKING"@);
        assert(chunking@ =~= kw_chunking());
    }
    lines.push(chunking);
    let enh = byte_line("ENHANCEDSTATUSCODES".as_bytes());
    proof {
        reveal_strlit("ENHANCEDSTATUSCODES");
        assert(vstd::utf8::is_ascii_chars("ENHANCEDSTATUSCODES"@));
        vstd::utf8::is_ascii_chars_encode_utf8("ENHANCEDSTATUSCODES"@);
        assert(enh@ =~= kw_enhancedstatuscodes());
    }
    lines.push(enh);
    let pipelining = byte_line("PIPELINING".as_bytes());
    proof {
        reveal_strlit("PIPELINING");
        assert(vstd::utf8::is_ascii_chars("PIPELINING"@));
        vstd::utf8::is_ascii_chars_encode_utf8("PIPELINING"@);
        assert(pipelining@ =~= kw_pipelining());
    }
    lines.push(pipelining);
    let utf8 = byte_line("SMTPUTF8".as_bytes());
    proof {
        reveal_strlit("SMTPUTF8");
        assert(vstd::utf8::is_ascii_chars("SMTPUTF8"@));
        vstd::utf8::is_ascii_chars_encode_utf8("SMTPUTF8"@);
        assert(utf8@ =~= kw_smtputf8());
    }
    lines.push(utf8);
    if !tls {
        let starttls = byte_line("STARTTLS".as_bytes());
        proof {
            reveal_strlit("STARTTLS");
            assert(vstd::utf8::is_ascii_chars("STARTTLS"@));
            vstd::utf8::is_ascii_chars_encode_utf8("STARTTLS"@);
            assert(starttls@ =~= kw_starttls());
        }
        lines.push(starttls);
    }
    assert(lines.deep_view() =~~= ehlo_lines(tls));
    Reply::from_lines(250, Option::None, lines)
}

/// The greeting written when a session opens with a banner.
pub fn banner_reply(text: &str) -> (r: Reply)
    ensures
        is_default(r, 220, text.spec_bytes()),
{
    Reply::new(220, Option::None, text)
}

/// The recovery reply to a line the parser rejected.
pub fn syntax_error_reply() -> (r: Reply)
    ensures
        is_default(r, 500, txt_syntax()),
{
    Reply::new(500, Option::None, "Invalid command syntax")
}

/// What the handler decided, packaged as a plain value: `Pure` for the
/// commands that never consult the handler; for DATA, the `data_start`
/// answer, the final reply of `data`, and whether the body stream was
/// driven to exhaustion; for STARTTLS, whether a TLS configuration was
/// offered.
pub enum Decision {
    Pure,
    MailD(HandlerResult),
    RcptD(HandlerResult),
    DataD(HandlerResult, Option<Reply>, bool),
    TlsD(bool),
}

/// The decision kind a command calls for.
pub open spec fn decision_fits(cmd: Command, d: Decision) -> bool {
    match cmd {
        Command::Mail(_, _) => d matches Decision::MailD(_),
        Command::Rcpt(_, _) => d matches Decision::RcptD(_),
        Command::Data => d matches Decision::DataD(_, _, _),
        Command::StartTls => d matches Decision::TlsD(_),
        _ => d matches Decision::Pure,
    }
}

/// The state after one command, per the RFC 5321 sequencing rules:
/// EHLO, HELO and RSET reset unconditionally; an accepted MAIL advances
/// to Mail from Initial; an accepted RCPT advances to Rcpt from Mail or
/// Rcpt; a completed DATA resets to Initial; everything else leaves the
/// state alone.
pub open spec fn next_state(st: State, cmd: Command, d: Decision) -> State {
    match cmd {
        Command::Ehlo(_) => State::Initial,
        Command::Helo(_) => State::Initial,
        Command::Rset => State::Initial,
        Command::Mail(_, _) => if st == State::Initial && (d matches Decision::MailD(
            Result::Ok(_),
        )) {
            State::Mail
        } else {
            st
        },
        Command::Rcpt(_, _) => if (st == State::Mail || st == State::Rcpt) && (d
            matches Decision::RcptD(Result::Ok(_))) {
            State::Rcpt
        } else {
            st
        },
        Command::Data => if st == State::Rcpt && (d matches Decision::DataD(
            Result::Ok(_),
            _,
            true,
        )) {
            State::Initial
        } else {
            st
        },
        _ => st,
    }
}

/// How the session continues after one command.
pub open spec fn step_control(st: State, tls: bool, cmd: Command, d: Decision) -> Control {
    match cmd {
        Command::Quit => Control::Quit,
        Command::StartTls => if !tls && (d matches Decision::TlsD(true)) {
            Control::StartTls
        } else {
            Control::Continue
        },
        Command::Data => if st == State::Rcpt && (d matches Decision::DataD(
            Result::Ok(_),
            _,
            false,
        )) {
            Control::Abort
        } else {
            Control::Continue
        },
        _ => Control::Continue,
    }
}

/// The replies answering one command, in order.  Every command is
/// answered by exactly one reply, except an accepted DATA, which is
/// answered by the 354 go-ahead and then the final answer, and an
/// accepted STARTTLS, whose 220 is written on the raw transport after
/// the pipelining check rather than through the codec.
pub open spec fn bundle_ok(st: State, tls: bool, cmd: Command, d: Decision, rs: Seq<Reply>) -> bool {
    match cmd {
        Command::Ehlo(_) => rs.len() == 1 && rs[0].code == 250 && (rs[0].ecode
            matches Option::None) && rs[0].lines_view() == ehlo_lines(tls),
        Command::Helo(_) => rs.len() == 1 && is_default(rs[0], 250, txt_ok()),
        Command::Rset => rs.len() == 1 && is_default(rs[0], 250, txt_ok()),
        Command::Noop(_) => rs.len() == 1 && is_default(rs[0], 250, txt_ok()),
        Command::Quit => rs.len() == 1 && is_default(rs[0], 250, txt_bye()),
        Command::Vrfy(_) => rs.len() == 1 && is_default(rs[0], 502, txt_not_implemented()),
        Command::Expn(_) => rs.len() == 1 && is_default(rs[0], 502, txt_not_implemented()),
        Command::Help(_) => rs.len() == 1 && is_default(rs[0], 502, txt_not_implemented()),
        Command::Mail(_, _) => match d {
            Decision::MailD(res) => rs.len() == 1 && (if st != State::Initial {
                is_default(rs[0], 503, txt_bad_sequence())
            } else {
                match res {
                    Result::Ok(h) => override_or(h, 250, txt_ok(), rs[0]),
                    Result::Err(h) => override_or(h, 550, txt_mail_refused(), rs[0]),
                }
            }),
            _ => false,
        },
        Command::Rcpt(_, _) => match d {
            Decision::RcptD(res) => rs.len() == 1 && (if st != State::Mail && st != State::Rcpt {
                is_default(rs[0], 503, txt_bad_sequence())
            } else {
                match res {
                    Result::Ok(h) => override_or(h, 250, txt_ok(), rs[0]),
                    Result::Err(h) => override_or(h, 550, txt_rcpt_refused(), rs[0]),
                }
            }),
            _ => false,
        },
        Command::Data => match d {
            Decision::DataD(res, dres, exhausted) => if st == State::Initial {
                rs.len() == 1 && is_default(rs[0], 503, txt_no_mail())
            } else if st == State::Mail {
                rs.len() == 1 && is_default(rs[0], 503, txt_no_rcpt())
            } else {
                match res {
                    Result::Err(h) => rs.len() == 1 && override_or(
                        h,
                        550,
                        txt_data_refused(),
                        rs[0],
                    ),
                    Result::Ok(h) => rs.len() == 2 && override_or(h, 354, txt_send_data(), rs[0])
                        && (if exhausted {
                        override_or(dres, 250, txt_body_ok(), rs[1])
                    } else {
                        override_or(dres, 550, txt_data_abort(), rs[1])
                    }),
                }
            },
            _ => false,
        },
        Command::StartTls => match d {
            Decision::TlsD(accepted) => if tls || !accepted {
                rs.len() == 1 && is_default(rs[0], 502, txt_not_implemented())
            } else {
                rs.len() == 0
            },
            _ => false,
        },
    }
}

impl Session {
    /// A fresh session on a transport whose TLS state is known.
    pub fn start(tls_active: bool) -> (s: Session)
        ensures
            s.state == State::Initial,
            s.tls_active == tls_active,
    {
        Session { state: State::Initial, tls_active }
    }

    /// Decide what one command calls for.  Commands with a precondition
    /// that fails are answered at once; commands that consult the policy
    /// handler come back as a `Call` action, to be completed by the
    /// matching `apply` function.  After EHLO, HELO or RSET the state is
    /// Initial whatever it was before.
    pub fn handle_command(&mut self, cmd: Command) -> (a: Action)
        ensures
            final(self).tls_active == old(self).tls_active,
            cmd matches Command::Ehlo(_) ==> (final(self).state == State::Initial && (a
                matches Action::Send(r) && r.code == 250 && (r.ecode matches Option::None)
                && r.lines_view() == ehlo_lines(old(self).tls_active))),
            cmd matches Command::Helo(_) ==> (final(self).state == State::Initial && (a
                matches Action::Send(r) && is_default(r, 250, txt_ok()))),
            cmd matches Command::Rset ==> (final(self).state == State::Initial && (a
                matches Action::Send(r) && is_default(r, 250, txt_ok()))),
            cmd matches Command::Noop(_) ==> (final(self).state == old(self).state && (a
                matches Action::Send(r) && is_default(r, 250, txt_ok()))),
            cmd matches Command::Quit ==> (final(self).state == old(self).state && (a
                matches Action::SendQuit(r) && is_default(r, 250, txt_bye()))),
            cmd matches Command::Vrfy(_) ==> (final(self).state == old(self).state && (a
                matches Action::Send(r) && is_default(r, 502, txt_not_implemented()))),
            cmd matches Command::Expn(_) ==> (final(self).state == old(self).state && (a
                matches Action::Send(r) && is_default(r, 502, txt_not_implemented()))),
            cmd matches Command::Help(_) ==> (final(self).state == old(self).state && (a
                matches Action::Send(r) && is_default(r, 502, txt_not_implemented()))),
            cmd matches Command::Mail(p, ps) ==> (final(self).state == old(self).state && (if old(
                self,
            ).state == State::Initial {
                a matches Action::CallMail(q, qs) && q == p && qs == ps
            } else {
                a matches Action::Send(r) && is_default(r, 503, txt_bad_sequence())
            })),
            cmd matches Command::Rcpt(p, ps) ==> (final(self).state == old(self).state && (if old(
                self,
            ).state == State::Mail || old(self).state == State::Rcpt {
                a matches Action::CallRcpt(q, qs) && q == p && qs == ps
            } else {
                a matches Action::Send(r) && is_default(r, 503, txt_bad_sequence())
            })),
            cmd matches Command::Data ==> (final(self).state == old(self).state && (match old(
                self,
            ).state {
                State::Rcpt => a matches Action::CallDataStart,
                State::Initial => a matches Action::Send(r) && is_default(r, 503, txt_no_mail()),
                State::Mail => a matches Action::Send(r) && is_default(r, 503, txt_no_rcpt()),
            })),
            cmd matches Command::StartTls ==> (final(self).state == old(self).state && (if old(
                self,
            ).tls_active {
                a matches Action::Send(r) && is_default(r, 502, txt_not_implemented())
            } else {
                a matches Action::CallTlsRequest
            })),
            a matches Action::CallMail(_, _) ==> (cmd matches Command::Mail(_, _) && old(
                self,
            ).state == State::Initial),
            a matches Action::CallRcpt(_, _) ==> (cmd matches Command::Rcpt(_, _) && (old(
                self,
            ).state == State::Mail || old(self).state == State::Rcpt)),
            a matches Action::CallDataStart ==> (cmd matches Command::Data && old(self).state
                == State::Rcpt),
            a matches Action::CallTlsRequest ==> (cmd matches Command::StartTls && !old(
                self,
            ).tls_active),
    {
        match cmd {
            Command::Ehlo(_) => {
                self.state = State::Initial;
                Action::Send(ehlo_reply(self.tls_active))
            },
            Command::Helo(_) => {
                self.state = State::Initial;
                Action::Send(Reply::new(250, Option::None, "ok"))
            },
            Command::Rset => {
                self.state = State::Initial;
                Action::Send(Reply::new(250, Option::None, "ok"))
            },
            Command::Noop(_) => Action::Send(Reply::new(250, Option::None, "ok")),
            Command::Quit => Action::SendQuit(Reply::new(250, Option::None, "bye")),
            Command::Vrfy(_) => Action::Send(
                Reply::new(502, Option::None, "command not implemented"),
            ),
            Command::Expn(_) => Action::Send(
                Reply::new(502, Option::None, "command not implemented"),
            ),
            Command::Help(_) => Action::Send(
                Reply::new(502, Option::None, "command not implemented"),
            ),
            Command::Mail(p, ps) => {
                if self.state == State::Initial {
                    Action::CallMail(p, ps)
                } else {
                    Action::Send(Reply::new(503, Option::None, "bad sequence of commands"))
                }
            },
            Command::Rcpt(p, ps) => {
                if self.state == State::Mail || self.state == State::Rcpt {
                    Action::CallRcpt(p, ps)
                } else {
                    Action::Send(Reply::new(503, Option::None, "bad sequence of commands"))
                }
            },
            Command::Data => {
                match self.state {
                    State::Rcpt => Action::CallDataStart,
                    State::Initial => Action::Send(
                        Reply::new(503, Option::None, "mail transaction not started"),
                    ),
                    State::Mail => Action::Send(
                        Reply::new(503, Option::None, "must have at least one valid recipient"),
                    ),
                }
            },
            Command::StartTls => {
                if self.tls_active {
                    Action::Send(Reply::new(502, Option::None, "command not implemented"))
                } else {
                    Action::CallTlsRequest
                }
            },
        }
    }

    /// Complete a MAIL command with the handler's answer: acceptance
    /// advances the state to Mail, rejection leaves it alone; the reply
    /// is the handler's substitute or the default.
    pub fn apply_mail(&mut self, res: HandlerResult) -> (r: Reply)
        ensures
            final(self).tls_active == old(self).tls_active,
            match res {
                Result::Ok(h) => final(self).state == State::Mail && override_or(
                    h,
                    250,
                    txt_ok(),
                    r,
                ),
                Result::Err(h) => final(self).state == old(self).state && override_or(
                    h,
                    550,
                    txt_mail_refused(),
                    r,
                ),
            },
    {
        match res {
            Result::Ok(h) => {
                self.state = State::Mail;
                match h {
                    Option::Some(rep) => rep,
                    Option::None => Reply::new(250, Option::None, "ok"),
                }
            },
            Result::Err(h) => match h {
                Option::Some(rep) => rep,
                Option::None => Reply::new(550, Option::None, "mail transaction refused"),
            },
        }
    }

    /// Complete an RCPT command with the handler's answer: acceptance
    /// advances the state to Rcpt, rejection leaves it alone.
    pub fn apply_rcpt(&mut self, res: HandlerResult) -> (r: Reply)
        ensures
            final(self).tls_active == old(self).tls_active,
            match res {
                Result::Ok(h) => final(self).state == State::Rcpt && override_or(
                    h,
                    250,
                    txt_ok(),
                    r,
                ),
                Result::Err(h) => final(self).state == old(self).state && override_or(
                    h,
                    550,
                    txt_rcpt_refused(),
                    r,
                ),
            },
    {
        match res {
            Result::Ok(h) => {
                self.state = State::Rcpt;
                match h {
                    Option::Some(rep) => rep,
                    Option::None => Reply::new(250, Option::None, "ok"),
                }
            },
            Result::Err(h) => match h {
                Option::Some(rep) => rep,
                Option::None => Reply::new(550, Option::None, "recipient not accepted"),
            },
        }
    }

    /// Complete a DATA command once the handler has consumed the body:
    /// with the stream exhausted the state resets to Initial and the
    /// answer is written; otherwise the abort reply is written and the
    /// second component says the session must fail with `DataAbort`.
    pub fn finish_data(&mut self, rep: Option<Reply>, exhausted: bool) -> (r: (Reply, bool))
        ensures
            final(self).tls_active == old(self).tls_active,
            exhausted ==> (final(self).state == State::Initial && override_or(
                rep,
                250,
                txt_body_ok(),
                r.0,
            ) && r.1 == false),
            !exhausted ==> (final(self).state == old(self).state && override_or(
                rep,
                550,
                txt_data_abort(),
                r.0,
            ) && r.1 == true),
    {
        if exhausted {
            self.state = State::Initial;
            match rep {
                Option::Some(rr) => (rr, false),
                Option::None => (Reply::new(250, Option::None, "body ok"), false),
            }
        } else {
            match rep {
                Option::Some(rr) => (rr, true),
                Option::None => (Reply::new(550, Option::None, "data abort"), true),
            }
        }
    }
}

/// Complete the `data_start` consultation: acceptance yields the 354
/// go-ahead to write before streaming the body, rejection the refusal.
pub fn apply_data_start(res: HandlerResult) -> (r: Result<Reply, Reply>)
    ensures
        match res {
            Result::Ok(h) => r matches Result::Ok(rep) && override_or(
                h,
                354,
                txt_send_data(),
                rep,
            ),
            Result::Err(h) => r matches Result::Err(rep) && override_or(
                h,
                550,
                txt_data_refused(),
                rep,
            ),
        },
{
    match res {
        Result::Ok(h) => Result::Ok(
            match h {
                Option::Some(rep) => rep,
                Option::None => Reply::new(354, Option::None, "send data"),
            },
        ),
        Result::Err(h) => Result::Err(
            match h {
                Option::Some(rep) => rep,
                Option::None => Reply::new(550, Option::None, "data not accepted"),
            },
        ),
    }
}

/// Complete the STARTTLS consultation: with no TLS configuration offered
/// the command is refused as not implemented; with one, the upgrade
/// proceeds and no reply goes through the codec.
pub fn apply_tls_request(accepted: bool) -> (r: Option<Reply>)
    ensures
        accepted ==> (r matches Option::None),
        !accepted ==> (r matches Option::Some(rep) && is_default(rep, 502, txt_not_implemented())),
{
    if accepted {
        Option::None
    } else {
        Option::Some(Reply::new(502, Option::None, "command not implemented"))
    }
}

/// The RFC 3207 pipelining check, made on the codec's remaining read
/// buffer after STARTTLS was accepted and output was flushed: any
/// already-buffered bytes mean the client wrote past STARTTLS, and the
/// session must fail without a reply; otherwise the 220 go-ahead is to
/// be written on the raw transport.
pub fn starttls_check(pending: &Vec<u8>) -> (r: Result<Reply, ServerError>)
    ensures
        pending@.len() == 0 ==> (r matches Result::Ok(rep) && is_default(
            rep,
            220,
            txt_starting_tls(),
        )),
        pending@.len() > 0 ==> (r matches Result::Err(e) && e matches ServerError::Pipelining),
{
    if pending.len() == 0 {
        Result::Ok(Reply::new(220, Option::None, "starting TLS"))
    } else {
        Result::Err(ServerError::Pipelining)
    }
}

impl Session {
    /// Answer one command in full, the handler's decisions given as a
    /// plain value: the replies for this command in order, and how the
    /// session continues.
    pub fn respond_to(&mut self, cmd: Command, d: Decision) -> (out: (Vec<Reply>, Control))
        requires
            decision_fits(cmd, d),
        ensures
            final(self).tls_active == old(self).tls_active,
            final(self).state == next_state(old(self).state, cmd, d),
            out.1 == step_control(old(self).state, old(self).tls_active, cmd, d),
            bundle_ok(old(self).state, old(self).tls_active, cmd, d, out.0@),
    {
        let mut rs: Vec<Reply> = Vec::new();
        let a = self.handle_command(cmd);
        match a {
            Action::Send(r) => {
                rs.push(r);
                (rs, Control::Continue)
            },
            Action::SendQuit(r) => {
                rs.push(r);
                (rs, Control::Quit)
            },
            Action::CallMail(_p, _ps) => match d {
                Decision::MailD(res) => {
                    let r = self.apply_mail(res);
                    rs.push(r);
                    (rs, Control::Continue)
                },
                _ => {
                    proof {
                        assert(false);
                    }
                    (rs, Control::Continue)
                },
            },
            Action::CallRcpt(_p, _ps) => match d {
                Decision::RcptD(res) => {
                    let r = self.apply_rcpt(res);
                    rs.push(r);
                    (rs, Control::Continue)
                },
                _ => {
                    proof {
                        assert(false);
                    }
                    (rs, Control::Continue)
                },
            },
            Action::CallDataStart => match d {
                Decision::DataD(res, dres, exhausted) => match apply_data_start(res) {
                    Result::Ok(go_ahead) => {
                        rs.push(go_ahead);
                        let (fin, abort) = self.finish_data(dres, exhausted);
                        rs.push(fin);
                        (rs, if abort {
                            Control::Abort
                        } else {
                            Control::Continue
                        })
                    },
                    Result::Err(refusal) => {
                        rs.push(refusal);
                        (rs, Control::Continue)
                    },
                },
                _ => {
                    proof {
                        assert(false);
                    }
                    (rs, Control::Continue)
                },
            },
            Action::CallTlsRequest => match d {
                Decision::TlsD(accepted) => match apply_tls_request(accepted) {
                    Option::Some(r) => {
                        rs.push(r);
                        (rs, Control::Continue)
                    },
                    Option::None => (rs, Control::StartTls),
                },
                _ => {
                    proof {
                        assert(false);
                    }
                    (rs, Control::Continue)
                },
            },
        }
    }
}

/// The session state after the first `n` commands of a script.
pub open spec fn state_after(st0: State, cmds: Seq<Command>, ds: Seq<Decision>, n: int) -> State
    decreases n,
{
    if n <= 0 {
        st0
    } else {
        next_state(state_after(st0, cmds, ds, n - 1), cmds[n - 1], ds[n - 1])
    }
}

impl Session {
    /// Run a whole command script, the handler's decisions given
    /// alongside.  The reply bundles come back in one-to-one order
    /// correspondence with the commands processed: bundle `i` answers
    /// command `i`, and processing stops only past a command whose
    /// control is not `Continue` (QUIT, a STARTTLS upgrade, or a DATA
    /// abort).
    #[verifier::rlimit(100)]
    pub fn run_commands(&mut self, cmds: Vec<Command>, ds: Vec<Decision>) -> (out: Vec<Vec<Reply>>)
        requires
            cmds@.len() == ds@.len(),
            forall|i: int|
                0 <= i < cmds@.len() ==> decision_fits(#[trigger] cmds@[i], #[trigger] ds@[i]),
        ensures
            final(self).tls_active == old(self).tls_active,
            out@.len() <= cmds@.len(),
            final(self).state == state_after(old(self).state, cmds@, ds@, out@.len() as int),
            forall|i: int|
                0 <= i < out@.len() ==> bundle_ok(
                    state_after(old(self).state, cmds@, ds@, i),
                    old(self).tls_active,
                    #[trigger] cmds@[i],
                    ds@[i],
                    out@[i]@,
                ),
            forall|i: int|
                0 <= i < out@.len() - 1 ==> step_control(
                    state_after(old(self).state, cmds@, ds@, i),
                    old(self).tls_active,
                    #[trigger] cmds@[i],
                    ds@[i],
                ) == Control::Continue,
            out@.len() < cmds@.len() ==> (out@.len() > 0 && step_control(
                state_after(old(self).state, cmds@, ds@, out@.len() - 1),
                old(self).tls_active,
                cmds@[out@.len() - 1],
                ds@[out@.len() - 1],
            ) != Control::Continue),
    {
        let ghost cs = cmds@;
        let ghost dds = ds@;
        let ghost st0 = self.state;
        let ghost tls0 = self.tls_active;
        let total: usize = cmds.len();
        let mut pending = cmds;
        let mut rest_ds = ds;
        let mut out: Vec<Vec<Reply>> = Vec::new();
        let mut k: usize = 0;
        while pending.len() > 0
            invariant
                cs == cmds@,
                dds == ds@,
                st0 == old(self).state,
                tls0 == old(self).tls_active,
                cs.len() == dds.len(),
                cs.len() == total as int,
                k + pending@.len() == cs.len(),
                k + rest_ds@.len() == dds.len(),
                pending@ == cs.skip(k as int),
                rest_ds@ == dds.skip(k as int),
                out@.len() == k,
                self.tls_active == tls0,
                self.state == state_after(st0, cs, dds, k as int),
                forall|i: int|
                    0 <= i < cs.len() ==> decision_fits(#[trigger] cs[i], #[trigger] dds[i]),
                forall|i: int|
                    0 <= i < k ==> bundle_ok(
                        state_after(st0, cs, dds, i),
                        tls0,
                        #[trigger] cs[i],
                        dds[i],
                        out@[i]@,
                    ),
                forall|i: int|
                    0 <= i < k ==> step_control(
                        state_after(st0, cs, dds, i),
                        tls0,
                        #[trigger] cs[i],
                        dds[i],
                    ) == Control::Continue,
            decreases pending@.len(),
        {
            let cmd = pending.remove(0);
            let d = rest_ds.remove(0);
            proof {
                assert(cmd == cs[k as int]);
                assert(d == dds[k as int]);
                assert(pending@ =~= cs.skip(k + 1));
                assert(rest_ds@ =~= dds.skip(k + 1));
            }
            let (rs, ctl) = self.respond_to(cmd, d);
            out.push(rs);
            k = k + 1;
            if ctl != Control::Continue {
                return out;
            }
        }
        out
    }
}

/// After EHLO, HELO or RSET the state is Initial, whatever it was
/// before and whatever the handler would have decided.
pub proof fn lemma_reset_to_initial(st: State, cmd: Command, d: Decision)
    requires
        cmd matches Command::Ehlo(_) || cmd matches Command::Helo(_) || cmd
            matches Command::Rset,
    ensures
        next_state(st, cmd, d) == State::Initial,
{
}

} // verus!
