//! Building log records.

use vstd::prelude::*;

use crate::logger::log_config::{LogConfig, LogKind};
use crate::text::{
    chars_of, digit_char, number_text, number_text_has_its_value, push_number, value_of,
};

verus! {

/// A record for the log queue.
#[derive(Debug)]
pub enum ELog {
    Log(String),
    Error(String),
}

/// [`ELog`] over views.
pub enum ELogView {
    Log(Seq<char>),
    Error(Seq<char>),
}

impl View for ELog {
    type V = ELogView;

    open spec fn view(&self) -> ELogView {
        match self {
            ELog::Log(s) => ELogView::Log(s@),
            ELog::Error(s) => ELogView::Error(s@),
        }
    }
}

/// The control characters of Unicode.
pub open spec fn is_control(c: char) -> bool {
    c as u32 <= 0x1f || 0x7f <= c as u32 <= 0x9f
}

/// Whether a character is a control character.
pub fn control(c: char) -> (r: bool)
    ensures
        r == is_control(c),
{
    let n: u32 = c as u32;
    n <= 0x1f || (0x7f <= n && n <= 0x9f)
}

/// How a character stands in the log: a control character as an escape.
pub open spec fn escaped_char(c: char) -> Seq<char> {
    if !is_control(c) {
        seq![c]
    } else if c == '\t' {
        seq!['\\', 't']
    } else if c == '\r' {
        seq!['\\', 'r']
    } else if c == '\n' {
        seq!['\\', 'n']
    } else {
        seq!['\\', 'u', '{'] + number_text(c as u32 as nat, 16) + seq!['}']
    }
}

/// How a message stands in the log.
pub open spec fn escaped(s: Seq<char>) -> Seq<char>
    decreases s.len(),
{
    if s.len() == 0 {
        seq![]
    } else {
        escaped(s.drop_last()) + escaped_char(s.last())
    }
}

/// Escapes the control characters of a message.
pub fn escape_controls(message: &str) -> (r: String)
    ensures
        r@ == escaped(message@),
{
    let v = chars_of(message);
    let mut out = String::new();
    let mut i: usize = 0;
    while i < v.len()
        invariant
            i <= v@.len(),
            v@ == message@,
            out@ == escaped(message@.take(i as int)),
        decreases v@.len() - i,
    {
        let c = v[i];
        assert(message@.take(i + 1).drop_last() =~= message@.take(i as int));
        let ghost before = out@;
        if !control(c) {
            out.push(c);
        } else if c == '\t' {
            out.push('\\');
            out.push('t');
        } else if c == '\r' {
            out.push('\\');
            out.push('r');
        } else if c == '\n' {
            out.push('\\');
            out.push('n');
        } else {
            out.push('\\');
            out.push('u');
            out.push('{');
            let n: u32 = c as u32;
            push_number(&mut out, n as u64, 16);
            out.push('}');
        }
        assert(out@ =~= before + escaped_char(c));
        i += 1;
    }
    assert(message@.take(message@.len() as int) =~= message@);
    out
}

/// Whether a kind of log line is written as an error.
pub open spec fn is_error_kind(kind: LogKind) -> bool {
    kind == LogKind::ProxyFailure || kind == LogKind::BannedTarget || kind
        == LogKind::ConnectionError
}

/// The record of a message.
pub open spec fn record_of(kind: LogKind, message: Seq<char>) -> ELogView {
    if is_error_kind(kind) {
        ELogView::Error(escaped(message))
    } else {
        ELogView::Log(escaped(message))
    }
}

/// Whether `r` is what a log call gives: a record of a message that the
/// closure can return if the flag is on and there is a slot, else nothing.
pub open spec fn is_sent<F: FnOnce() -> String>(
    r: Option<ELog>,
    cfg: LogConfig,
    kind: LogKind,
    has_slot: bool,
    msg: F,
) -> bool {
    &&& r is Some <==> cfg.is_on(kind) && has_slot
    &&& r matches Some(e) ==> exists|m: String| #[trigger]
        msg.ensures((), m) && e@ == record_of(kind, m@)
}

/// The log policy. A message is handed over as a closure, which is called only
/// if the line is going to be written: a line that is switched off, or finds
/// no slot, asks nothing of its closure.
pub struct Logger {
    cfg: LogConfig,
}

impl Logger {
    /// The flags.
    pub closed spec fn config(self) -> LogConfig {
        self.cfg
    }

    /// A logger with these flags.
    pub fn new(cfg: LogConfig) -> (r: Self)
        ensures
            r.config() == cfg,
    {
        Logger { cfg }
    }

    /// Whether a kind of log line is on: whether a queue slot is worth
    /// reserving.
    pub fn wants(&self, kind: LogKind) -> (r: bool)
        ensures
            r == self.config().is_on(kind),
    {
        self.cfg.enabled(kind)
    }

    /// The record for a line of this kind, if its flag is on and there is a
    /// free slot in the queue. A slow consumer loses lines; it never stalls a
    /// tunnel.
    pub fn send<F: FnOnce() -> String>(&self, kind: LogKind, has_slot: bool, msg: F) -> (r: Option<
        ELog,
    >)
        requires
            self.config().is_on(kind) && has_slot ==> msg.requires(()),
        ensures
            is_sent(r, self.config(), kind, has_slot, msg),
    {
        if !self.cfg.enabled(kind) || !has_slot {
            return None;
        }
        let message = msg();
        let text = escape_controls(&message);
        match kind {
            LogKind::ProxyFailure => Some(ELog::Error(text)),
            LogKind::BannedTarget => Some(ELog::Error(text)),
            LogKind::ConnectionError => Some(ELog::Error(text)),
            _ => Some(ELog::Log(text)),
        }
    }

    /// A line about the server itself.
    pub fn lifecycle<F: FnOnce() -> String>(&self, has_slot: bool, msg: F) -> (r: Option<ELog>)
        requires
            self.config().is_on(LogKind::Lifecycle) && has_slot ==> msg.requires(()),
        ensures
            is_sent(r, self.config(), LogKind::Lifecycle, has_slot, msg),
    {
        self.send(LogKind::Lifecycle, has_slot, msg)
    }

    /// A line about a cache lookup.
    pub fn cache_attempt<F: FnOnce() -> String>(&self, has_slot: bool, msg: F) -> (r: Option<ELog>)
        requires
            self.config().is_on(LogKind::CacheAttempt) && has_slot ==> msg.requires(()),
        ensures
            is_sent(r, self.config(), LogKind::CacheAttempt, has_slot, msg),
    {
        self.send(LogKind::CacheAttempt, has_slot, msg)
    }

    /// A line about a cache hit.
    pub fn cache_hit<F: FnOnce() -> String>(&self, has_slot: bool, msg: F) -> (r: Option<ELog>)
        requires
            self.config().is_on(LogKind::CacheHit) && has_slot ==> msg.requires(()),
        ensures
            is_sent(r, self.config(), LogKind::CacheHit, has_slot, msg),
    {
        self.send(LogKind::CacheHit, has_slot, msg)
    }

    /// A line about a cache entry.
    pub fn cache_write<F: FnOnce() -> String>(&self, has_slot: bool, msg: F) -> (r: Option<ELog>)
        requires
            self.config().is_on(LogKind::CacheWrite) && has_slot ==> msg.requires(()),
        ensures
            is_sent(r, self.config(), LogKind::CacheWrite, has_slot, msg),
    {
        self.send(LogKind::CacheWrite, has_slot, msg)
    }

    /// A line about a failed upstream attempt.
    pub fn proxy_failure<F: FnOnce() -> String>(&self, has_slot: bool, msg: F) -> (r: Option<ELog>)
        requires
            self.config().is_on(LogKind::ProxyFailure) && has_slot ==> msg.requires(()),
        ensures
            is_sent(r, self.config(), LogKind::ProxyFailure, has_slot, msg),
    {
        self.send(LogKind::ProxyFailure, has_slot, msg)
    }

    /// A line about a banned target.
    pub fn banned_target<F: FnOnce() -> String>(&self, has_slot: bool, msg: F) -> (r: Option<ELog>)
        requires
            self.config().is_on(LogKind::BannedTarget) && has_slot ==> msg.requires(()),
        ensures
            is_sent(r, self.config(), LogKind::BannedTarget, has_slot, msg),
    {
        self.send(LogKind::BannedTarget, has_slot, msg)
    }

    /// A line about a failed client connection.
    pub fn connection_error<F: FnOnce() -> String>(&self, has_slot: bool, msg: F) -> (r: Option<ELog>)
        requires
            self.config().is_on(LogKind::ConnectionError) && has_slot ==> msg.requires(()),
        ensures
            is_sent(r, self.config(), LogKind::ConnectionError, has_slot, msg),
    {
        self.send(LogKind::ConnectionError, has_slot, msg)
    }

    /// A line about an upstream attempt.
    pub fn attempt<F: FnOnce() -> String>(&self, has_slot: bool, msg: F) -> (r: Option<ELog>)
        requires
            self.config().is_on(LogKind::Attempt) && has_slot ==> msg.requires(()),
        ensures
            is_sent(r, self.config(), LogKind::Attempt, has_slot, msg),
    {
        self.send(LogKind::Attempt, has_slot, msg)
    }
}

/// The digits of a number are no control characters.
proof fn lemma_number_is_printable(n: nat, base: nat)
    requires
        2 <= base <= 16,
    ensures
        forall|i: int|
            0 <= i < number_text(n, base).len() ==> !is_control(
                #[trigger] number_text(n, base)[i],
            ),
    decreases n,
{
    assert forall|d: nat| d < 16 implies !is_control(#[trigger] digit_char(d)) by {}
    if n >= base {
        assert(n / base < n) by (nonlinear_arith)
            requires
                base >= 2,
                n >= base,
        ;
        assert(n % base < base) by (nonlinear_arith)
            requires
                base >= 2,
        ;
        lemma_number_is_printable(n / base, base);
        let start = number_text(n / base, base);
        assert forall|i: int| 0 <= i < number_text(n, base).len() implies !is_control(
            #[trigger] number_text(n, base)[i],
        ) by {
            if i < start.len() {
                assert(number_text(n, base)[i] == start[i]);
            }
        }
    }
}

/// No message can put a control character into the log, and so forge a line.
pub proof fn log_holds_no_control_character(s: Seq<char>, i: int)
    requires
        0 <= i < escaped(s).len(),
    ensures
        !is_control(escaped(s)[i]),
    decreases s.len(),
{
    let start = escaped(s.drop_last());
    let c = s.last();
    if i < start.len() {
        log_holds_no_control_character(s.drop_last(), i);
    } else {
        lemma_number_is_printable(c as u32 as nat, 16);
        assert(escaped(s)[i] == escaped_char(c)[i - start.len()]);
    }
}

/// A message without control characters stands in the log as it is.
pub proof fn plain_message_is_logged_as_is(s: Seq<char>)
    requires
        forall|i: int| 0 <= i < s.len() ==> !is_control(#[trigger] s[i]),
    ensures
        escaped(s) == s,
    decreases s.len(),
{
    if s.len() > 0 {
        let start = s.drop_last();
        assert forall|i: int| 0 <= i < start.len() implies !is_control(#[trigger] start[i]) by {
            assert(start[i] == s[i]);
        }
        plain_message_is_logged_as_is(start);
        assert(!is_control(s[s.len() - 1]));
        assert(escaped(s) =~= s);
    } else {
        assert(escaped(s) =~= s);
    }
}

/// A message is escaped character by character, in order: none is lost, and
/// none changes what becomes of another.
pub proof fn messages_are_escaped_piece_by_piece(a: Seq<char>, b: Seq<char>)
    ensures
        escaped(a + b) == escaped(a) + escaped(b),
    decreases b.len(),
{
    if b.len() == 0 {
        assert(a + b =~= a);
        assert(escaped(a) + escaped(b) =~= escaped(a));
    } else {
        assert((a + b).drop_last() =~= a + b.drop_last());
        messages_are_escaped_piece_by_piece(a, b.drop_last());
        assert(escaped(a + b) =~= escaped(a) + escaped(b));
    }
}

/// One character stands in the log as itself, but for the control characters:
/// tab, return and line feed as `\t`, `\r` and `\n`, the others as `\u{..}`
/// with their number in hexadecimal digits.
pub proof fn character_is_escaped_by_its_number(c: char)
    ensures
        c > '\u{9f}' || ('\u{1f}' < c && c < '\u{7f}') ==> escaped(seq![c]) == seq![c],
        c == '\t' ==> escaped(seq![c]) == seq!['\\', 't'],
        c == '\r' ==> escaped(seq![c]) == seq!['\\', 'r'],
        c == '\n' ==> escaped(seq![c]) == seq!['\\', 'n'],
        (c <= '\u{1f}' || ('\u{7f}' <= c && c <= '\u{9f}')) && c != '\t' && c != '\r' && c != '\n'
            ==> exists|digits: Seq<char>|
            {
                &&& escaped(seq![c]) == seq!['\\', 'u', '{'] + digits + seq!['}']
                &&& #[trigger] value_of(digits, 16) == c as u32
            },
{
    let s = seq![c];
    assert(s.drop_last() =~= seq![]);
    assert(escaped(s.drop_last()) =~= seq![]);
    assert(escaped(s) =~= escaped_char(c));
    number_text_has_its_value(c as u32 as nat, 16);
    assert(value_of(number_text(c as u32 as nat, 16), 16) == c as u32);
}

/// A record is the escaped message, as an error for the kinds that are errors.
pub proof fn record_is_the_escaped_message(kind: LogKind, message: Seq<char>, e: ELog)
    ensures
        record_of(kind, message) == (match kind {
            LogKind::ProxyFailure => ELogView::Error(escaped(message)),
            LogKind::BannedTarget => ELogView::Error(escaped(message)),
            LogKind::ConnectionError => ELogView::Error(escaped(message)),
            _ => ELogView::Log(escaped(message)),
        }),
        match e {
            ELog::Log(s) => e@ == ELogView::Log(s@),
            ELog::Error(s) => e@ == ELogView::Error(s@),
        },
{
}

/// A line is sent exactly if its flag is on and there is a slot, and it is a
/// record of a message that the closure can return.
pub proof fn line_is_sent_if_wanted<F: FnOnce() -> String>(
    r: Option<ELog>,
    cfg: LogConfig,
    kind: LogKind,
    has_slot: bool,
    msg: F,
)
    requires
        is_sent(r, cfg, kind, has_slot, msg),
    ensures
        r is Some <==> has_slot && match kind {
            LogKind::Lifecycle => cfg.lifecycle,
            LogKind::CacheAttempt => cfg.cache_attempts,
            LogKind::CacheHit => cfg.cache_hits,
            LogKind::CacheWrite => cfg.cache_writes,
            LogKind::ProxyFailure => cfg.proxy_failures,
            LogKind::BannedTarget => cfg.banned_targets,
            LogKind::ConnectionError => cfg.connection_errors,
            LogKind::Attempt => cfg.attempts,
        },
        r matches Some(e) ==> exists|m: String| #[trigger]
            msg.ensures((), m) && e@ == record_of(kind, m@),
{
}

} // verus!
