//! Pulling a guest disk off a remote host over SSH: the remote command
//! (with the path quoted for the shell), the bookkeeping of the channel's
//! messages while the disk streams in, and the outcome once it closes.
//! Connecting, authenticating and writing the staging file are the
//! caller's; it reports each channel message here.
use vstd::prelude::*;
use crate::text::{extend_str, str_chars, string_from_chars};

verus! {

/// The most stderr bytes kept from the remote command.
pub const STDERR_CAPTURE_CAP: usize = 8192;

/// How one character is written inside a single-quoted shell word: a
/// single quote closes the quotes, is escaped, and reopens them.
pub open spec fn quote_char(c: char) -> Seq<char> {
    if c == '\'' {
        seq!['\'', '\\', '\'', '\'']
    } else {
        seq![c]
    }
}

/// The inside of the single-quoted form of `s`.
pub open spec fn quote_body(s: Seq<char>) -> Seq<char>
    decreases s.len(),
{
    if s.len() == 0 {
        Seq::empty()
    } else {
        quote_body(s.drop_last()) + quote_char(s.last())
    }
}

/// `s` as one single-quoted shell word.
pub open spec fn spec_shell_quote(s: Seq<char>) -> Seq<char> {
    seq!['\''] + quote_body(s) + seq!['\'']
}

/// Wraps `s` in single quotes for a remote shell, escaping the single
/// quotes it holds.
pub fn shell_single_quote(s: &str) -> (r: String)
    ensures
        r@ == spec_shell_quote(s@),
{
    let c = str_chars(s);
    let n = c.len();
    let mut out: Vec<char> = Vec::new();
    out.push('\'');
    let mut i: usize = 0;
    while i < n
        invariant
            i <= n,
            n == s@.len(),
            c@ == s@,
            out@ == seq!['\''] + quote_body(s@.subrange(0, i as int)),
        decreases n - i,
    {
        assert(s@.subrange(0, i + 1).drop_last() =~= s@.subrange(0, i as int));
        if c[i] == '\'' {
            out.push('\'');
            out.push('\\');
            out.push('\'');
            out.push('\'');
        } else {
            out.push(c[i]);
        }
        assert(out@ =~= seq!['\''] + quote_body(s@.subrange(0, i + 1)));
        i = i + 1;
    }
    out.push('\'');
    assert(s@.subrange(0, n as int) =~= s@);
    assert(out@ =~= spec_shell_quote(s@));
    string_from_chars(out.as_slice())
}

/// `c` in front of a parsed word.
pub open spec fn prepend(c: char, r: Option<Seq<char>>) -> Option<Seq<char>> {
    match r {
        Some(t) => Some(seq![c] + t),
        None => None,
    }
}

/// How a POSIX shell reads the word `w` made of plain characters,
/// backslash escapes and single-quoted runs (`in_quotes`: inside a
/// single-quoted run); `None` when the word is not closed.
pub open spec fn sh_parse(w: Seq<char>, in_quotes: bool) -> Option<Seq<char>>
    decreases w.len(),
{
    if w.len() == 0 {
        if in_quotes {
            None
        } else {
            Some(Seq::empty())
        }
    } else if in_quotes {
        if w[0] == '\'' {
            sh_parse(w.drop_first(), false)
        } else {
            prepend(w[0], sh_parse(w.drop_first(), true))
        }
    } else if w[0] == '\'' {
        sh_parse(w.drop_first(), true)
    } else if w[0] == '\\' {
        if w.len() >= 2 {
            prepend(w[1], sh_parse(w.subrange(2, w.len() as int), false))
        } else {
            None
        }
    } else {
        prepend(w[0], sh_parse(w.drop_first(), false))
    }
}

proof fn lemma_quote_body_front(s: Seq<char>)
    requires
        s.len() > 0,
    ensures
        quote_body(s) == quote_char(s[0]) + quote_body(s.drop_first()),
    decreases s.len(),
{
    if s.len() == 1 {
        assert(s.drop_first() =~= Seq::<char>::empty());
        assert(s.drop_last() =~= Seq::<char>::empty());
        assert(quote_body(s) =~= quote_char(s[0]));
    } else {
        lemma_quote_body_front(s.drop_last());
        assert(s.drop_last().drop_first() =~= s.drop_first().drop_last());
        assert(s.drop_first().last() == s.last());
        assert(quote_body(s) =~= quote_char(s[0]) + quote_body(s.drop_first()));
    }
}

proof fn lemma_quoted_tail(s: Seq<char>)
    ensures
        sh_parse(quote_body(s) + seq!['\''], true) == Some(s),
    decreases s.len(),
{
    if s.len() == 0 {
        assert(quote_body(s) + seq!['\''] =~= seq!['\'']);
        assert(seq!['\''].drop_first() =~= Seq::<char>::empty());
        assert(sh_parse(Seq::<char>::empty(), false) == Some(Seq::<char>::empty()));
        assert(s =~= Seq::<char>::empty());
    } else {
        lemma_quote_body_front(s);
        let rest = quote_body(s.drop_first()) + seq!['\''];
        lemma_quoted_tail(s.drop_first());
        let w = quote_body(s) + seq!['\''];
        if s[0] == '\'' {
            assert(w =~= seq!['\'', '\\', '\'', '\''] + rest);
            let w1 = w.drop_first();
            assert(w1 =~= seq!['\\', '\'', '\''] + rest);
            assert(w1.subrange(2, w1.len() as int) =~= seq!['\''] + rest);
            assert((seq!['\''] + rest).drop_first() =~= rest);
            assert(sh_parse(seq!['\''] + rest, false) == sh_parse(rest, true));
            assert(sh_parse(w1, false) == prepend('\'', sh_parse(seq!['\''] + rest, false)));
            assert(sh_parse(w, true) == sh_parse(w1, false));
            assert(seq!['\''] + s.drop_first() =~= s);
        } else {
            assert(w =~= seq![s[0]] + rest);
            assert(w.drop_first() =~= rest);
            assert(sh_parse(w, true) == prepend(s[0], sh_parse(rest, true)));
            assert(seq![s[0]] + s.drop_first() =~= s);
        }
    }
}

/// A remote shell reads the quoted form of any text back as that text, so
/// no path can break out of its quotes.
pub proof fn lemma_shell_quote_roundtrip(s: Seq<char>)
    ensures
        sh_parse(spec_shell_quote(s), false) == Some(s),
{
    lemma_quoted_tail(s);
    let w = spec_shell_quote(s);
    assert(w.drop_first() =~= quote_body(s) + seq!['\'']);
}

/// The remote command that streams a file: `cat` and the quoted path.
pub fn remote_cat_command(remote_path: &str) -> (r: String)
    ensures
        r@ == "cat "@ + spec_shell_quote(remote_path@),
{
    let mut v = str_chars("cat ");
    let q = shell_single_quote(remote_path);
    extend_str(&mut v, q.as_str());
    string_from_chars(v.as_slice())
}

/// The text of bytes decoded as UTF-8 with invalid sequences replaced.
pub uninterp spec fn utf8_lossy(b: Seq<u8>) -> Seq<char>;

/// Calls `String::from_utf8_lossy` on the bytes; the text it gives is a
/// function of the bytes alone (invalid sequences become U+FFFD).
#[verifier::external_body]
fn decode_lossy(b: &[u8]) -> (r: String)
    ensures
        r@ == utf8_lossy(b@),
{
    String::from_utf8_lossy(b).into_owned()
}

/// A failure of the acquisition that the library decides on.
pub enum AcquireError {
    /// The private key could not be loaded.
    Key(String),
    /// The server refused the credentials.
    AuthFailed,
    /// The remote command ended with `code` (or without an exit status,
    /// reported as `u32::MAX`); its first stderr bytes are kept.
    RemoteCommandFailed { code: u32, stderr: String },
}

impl AcquireError {
    /// The message shown for the error.
    pub fn message(&self) -> (r: String)
        ensures
            r@ == (match *self {
                AcquireError::Key(e) => "key error: "@ + e@,
                AcquireError::AuthFailed => "ssh authentication failed"@,
                AcquireError::RemoteCommandFailed { code, stderr } => "remote command failed (code "@
                    + crate::text::dec(code as nat) + "): "@ + stderr@,
            }),
    {
        match self {
            AcquireError::Key(e) => {
                let mut v = str_chars("key error: ");
                extend_str(&mut v, e.as_str());
                string_from_chars(v.as_slice())
            },
            AcquireError::AuthFailed => "ssh authentication failed".to_owned(),
            AcquireError::RemoteCommandFailed { code, stderr } => {
                let mut v = str_chars("remote command failed (code ");
                crate::text::push_dec(&mut v, *code as u64);
                extend_str(&mut v, "): ");
                extend_str(&mut v, stderr.as_str());
                string_from_chars(v.as_slice())
            },
        }
    }
}

/// The outcome of an authentication attempt.
pub fn check_auth(success: bool) -> (r: Result<(), AcquireError>)
    ensures
        success <==> r is Ok,
        !success ==> r matches Err(AcquireError::AuthFailed),
{
    if success {
        Ok(())
    } else {
        Err(AcquireError::AuthFailed)
    }
}

/// A message on the SSH channel, as far as the transfer cares.
pub enum ChannelEvent {
    /// `len` bytes of the file arrived (and were written to staging).
    Data { len: u64 },
    /// Bytes on an extended stream (`ext` 1 is stderr).
    ExtendedData { data: Vec<u8>, ext: u32 },
    /// The remote command's exit status.
    ExitStatus { status: u32 },
    /// Anything else.
    Other,
}

/// The stderr capture after `data` arrives on extended stream `ext`: for
/// stderr (1), as much of `data` as still fits under the cap is appended.
pub open spec fn captured(kept: Seq<u8>, data: Seq<u8>, ext: u32) -> Seq<u8> {
    let room = STDERR_CAPTURE_CAP - kept.len();
    if ext == 1 && room > 0 {
        let take = if data.len() < room {
            data.len() as int
        } else {
            room
        };
        kept + data.subrange(0, take)
    } else {
        kept
    }
}

/// What has been seen on the channel so far.
pub struct Transfer {
    pub written: u64,
    pub stderr: Vec<u8>,
    pub exit_code: Option<u32>,
}

impl Transfer {
    /// The captured stderr never exceeds the cap.
    pub open spec fn wf(&self) -> bool {
        self.stderr@.len() <= STDERR_CAPTURE_CAP
    }

    /// Nothing seen yet.
    pub fn new() -> (r: Transfer)
        ensures
            r.wf(),
            r.written == 0,
            r.stderr@.len() == 0,
            r.exit_code is None,
    {
        Transfer { written: 0, stderr: Vec::new(), exit_code: None }
    }

    /// Takes in one channel message: file bytes are counted; stderr bytes
    /// are kept up to the cap; the last exit status is remembered (more
    /// data may follow it); anything else is ignored.
    pub fn on_event(&mut self, ev: ChannelEvent)
        requires
            old(self).wf(),
            ev matches ChannelEvent::Data { len } ==> old(self).written + len <= u64::MAX,
        ensures
            final(self).wf(),
            ev is Data ==> final(self).written == old(self).written + ev->len
                && final(self).stderr@ == old(self).stderr@ && final(self).exit_code == old(
                self,
            ).exit_code,
            ev is ExtendedData ==> final(self).written == old(self).written && final(self).exit_code
                == old(self).exit_code && final(self).stderr@ == captured(
                old(self).stderr@,
                ev->data@,
                ev->ext,
            ),
            ev is ExitStatus ==> final(self).exit_code == Some(ev->status) && final(self).written
                == old(self).written && final(self).stderr@ == old(self).stderr@,
            ev is Other ==> *final(self) == *old(self),
    {
        match &ev {
            ChannelEvent::Data { len } => {
                self.written = self.written + *len;
            },
            ChannelEvent::ExtendedData { data, ext } => {
                if *ext == 1 && self.stderr.len() < STDERR_CAPTURE_CAP {
                    let room = STDERR_CAPTURE_CAP - self.stderr.len();
                    let take = if room < data.len() {
                        room
                    } else {
                        data.len()
                    };
                    let ghost before = self.stderr@;
                    let mut i: usize = 0;
                    while i < take
                        invariant
                            i <= take,
                            take <= data@.len(),
                            before.len() + take <= STDERR_CAPTURE_CAP,
                            self.stderr@ == before + data@.subrange(0, i as int),
                            self.written == old(self).written,
                            self.exit_code == old(self).exit_code,
                        decreases take - i,
                    {
                        self.stderr.push(data[i]);
                        i = i + 1;
                        assert(self.stderr@ =~= before + data@.subrange(0, i as int));
                    }
                } else {
                    assert(data@.subrange(0, 0) =~= Seq::<u8>::empty());
                    assert(self.stderr@ + data@.subrange(0, 0) =~= self.stderr@);
                }
            },
            ChannelEvent::ExitStatus { status } => {
                self.exit_code = Some(*status);
            },
            ChannelEvent::Other => {},
        }
    }

    /// The outcome once the channel is closed: the byte count when the
    /// command exited with 0, else the exit code (`u32::MAX` when none
    /// came) with the captured stderr, decoded.
    pub fn finish(&self) -> (r: Result<u64, AcquireError>)
        ensures
            match self.exit_code {
                Some(0) => r == Ok::<u64, AcquireError>(self.written),
                Some(code) => r matches Err(AcquireError::RemoteCommandFailed { code: c, stderr })
                    && c == code && stderr@ == utf8_lossy(self.stderr@),
                None => r matches Err(AcquireError::RemoteCommandFailed { code: c, stderr }) && c
                    == u32::MAX && stderr@ == utf8_lossy(self.stderr@),
            },
    {
        match self.exit_code {
            Some(0) => Ok(self.written),
            Some(code) => Err(
                AcquireError::RemoteCommandFailed {
                    code,
                    stderr: decode_lossy(self.stderr.as_slice()),
                },
            ),
            None => Err(
                AcquireError::RemoteCommandFailed {
                    code: u32::MAX,
                    stderr: decode_lossy(self.stderr.as_slice()),
                },
            ),
        }
    }
}

} // verus!
