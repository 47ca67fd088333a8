//! Host calls that a plugin makes: what each one asks of the capability checker, and what
//! each one answers the plugin.

use crate::lion_core::logging::LogLevel;
use crate::text::{append_decimal, decimal_text, push_char};
use vstd::prelude::*;
use vstd::string::*;
use vstd::utf8::encode_utf8;

verus! {

/// A host call, with the values that were read from the plugin's memory.
#[derive(Debug, Clone, PartialEq, Eq)]
pub enum HostCall {
    /// Read the file at a path.
    ReadFile(String),
    /// Write a number of bytes to the file at a path.
    WriteFile(String, usize),
    /// Connect to a host on a port.
    Connect(String, u16),
    /// Send a number of bytes on a descriptor.
    Send(i32, usize),
    /// Receive at most a number of bytes on a descriptor.
    Recv(i32, usize),
    /// Close a descriptor.
    Close(i32),
    /// Log a message at a level (0 trace, 1 debug, 2 info, 3 warn, 4 error).
    Log(i32, String),
    /// Read the clock.
    GetTime,
    /// End the plugin with an exit code.
    Exit(i32),
}

/// The decimal text of a signed number, with a leading `-` when it is negative.
pub open spec fn signed_decimal(n: int) -> Seq<char> {
    if n < 0 {
        seq!['-'] + decimal_text((-n) as nat)
    } else {
        decimal_text(n as nat)
    }
}

/// The text that a plugin receives from a `recv` call.
pub open spec fn greeting() -> Seq<char> {
    "Hello from host!"@
}

/// How many bytes a `recv` call into a buffer of `capacity` bytes hands the plugin.
pub open spec fn received_len(capacity: nat) -> nat {
    let n = encode_utf8(greeting()).len();
    if capacity < n {
        capacity
    } else {
        n
    }
}

/// Appends the decimal text of a signed number.
fn append_signed(s: &mut String, n: i32)
    ensures
        final(s)@ == old(s)@ + signed_decimal(n as int),
{
    if n < 0 {
        push_char(s, '-');
        let m: i64 = -(n as i64);
        append_decimal(s, m as u64);
        assert(final(s)@ =~= old(s)@ + signed_decimal(n as int));
    } else {
        append_decimal(s, n as u64);
    }
}

/// The decimal text of a signed number.
pub fn signed_text(n: i32) -> (r: String)
    ensures
        r@ == signed_decimal(n as int),
{
    let mut s = String::new();
    append_signed(&mut s, n);
    assert(s@ =~= signed_decimal(n as int));
    s
}

impl HostCall {
    /// The name of the operation that the capability checker is asked about.
    pub open spec fn spec_operation(self) -> Seq<char> {
        match self {
            HostCall::ReadFile(_) => "read_file"@,
            HostCall::WriteFile(_, _) => "write_file"@,
            HostCall::Connect(_, _) => "connect"@,
            HostCall::Send(_, _) => "send"@,
            HostCall::Recv(_, _) => "recv"@,
            HostCall::Close(_) => "close"@,
            HostCall::Log(_, _) => "log"@,
            HostCall::GetTime => "get_time"@,
            HostCall::Exit(_) => "exit"@,
        }
    }

    /// The text whose UTF-8 bytes are the parameters handed to the capability checker: the
    /// path, `host:port`, the descriptor, the level or the exit code, and nothing for the
    /// clock.
    pub open spec fn param_text(self) -> Seq<char> {
        match self {
            HostCall::ReadFile(path) => path@,
            HostCall::WriteFile(path, _) => path@,
            HostCall::Connect(host, port) => host@ + ":"@ + decimal_text(port as nat),
            HostCall::Send(fd, _) => signed_decimal(fd as int),
            HostCall::Recv(fd, _) => signed_decimal(fd as int),
            HostCall::Close(fd) => signed_decimal(fd as int),
            HostCall::Log(level, _) => signed_decimal(level as int),
            HostCall::GetTime => Seq::empty(),
            HostCall::Exit(code) => signed_decimal(code as int),
        }
    }

    /// What the call answers the plugin when it is carried out; `now_ms` is the clock's
    /// reading in milliseconds since the UNIX epoch.
    pub open spec fn success_code(self, now_ms: i64) -> i64 {
        match self {
            HostCall::ReadFile(_) => 0i64,
            HostCall::WriteFile(_, n) => (n as i32) as i64,
            HostCall::Connect(_, _) => 3i64,
            HostCall::Send(_, n) => (n as i32) as i64,
            HostCall::Recv(_, n) => (received_len(n as nat) as i32) as i64,
            HostCall::Close(_) => 0i64,
            HostCall::Log(_, _) => 0i64,
            HostCall::GetTime => now_ms,
            HostCall::Exit(code) => code as i64,
        }
    }

    /// What the call answers the plugin when the capability checker refuses it.
    pub open spec fn denied_code(self) -> i64 {
        match self {
            HostCall::GetTime => -1i64,
            _ => -2i64,
        }
    }

    /// The name of the operation that the capability checker is asked about.
    pub fn operation(&self) -> (r: &'static str)
        ensures
            r@ == self.spec_operation(),
    {
        match self {
            HostCall::ReadFile(_) => "read_file",
            HostCall::WriteFile(_, _) => "write_file",
            HostCall::Connect(_, _) => "connect",
            HostCall::Send(_, _) => "send",
            HostCall::Recv(_, _) => "recv",
            HostCall::Close(_) => "close",
            HostCall::Log(_, _) => "log",
            HostCall::GetTime => "get_time",
            HostCall::Exit(_) => "exit",
        }
    }

    /// The parameters handed to the capability checker.
    pub fn capability_params(&self) -> (r: Vec<u8>)
        ensures
            r@ == encode_utf8(self.param_text()),
    {
        let text: String = match self {
            HostCall::ReadFile(path) => path.clone(),
            HostCall::WriteFile(path, _) => path.clone(),
            HostCall::Connect(host, port) => {
                let mut s = host.clone();
                push_char(&mut s, ':');
                append_decimal(&mut s, *port as u64);
                assert(s@ =~= host@ + ":"@ + decimal_text(*port as nat)) by {
                    reveal_strlit(":");
                }
                s
            },
            HostCall::Send(fd, _) => signed_text(*fd),
            HostCall::Recv(fd, _) => signed_text(*fd),
            HostCall::Close(fd) => signed_text(*fd),
            HostCall::Log(level, _) => signed_text(*level),
            HostCall::GetTime => String::new(),
            HostCall::Exit(code) => signed_text(*code),
        };
        text.as_str().as_bytes_vec()
    }

    /// What the call answers the plugin. `checked` is the capability checker's verdict, or
    /// `None` where no checker is installed; `now_ms` is the clock's reading, used by
    /// `GetTime` alone.
    pub fn result_code(&self, checked: &Option<Result<(), String>>, now_ms: i64) -> (r: i64)
        ensures
            r == match checked {
                Some(Err(_)) => self.denied_code(),
                _ => self.success_code(now_ms),
            },
    {
        if let Some(Err(_)) = checked {
            return match self {
                HostCall::GetTime => -1,
                _ => -2,
            };
        }
        match self {
            HostCall::ReadFile(_) => 0,
            HostCall::WriteFile(_, n) => (*n as i32) as i64,
            HostCall::Connect(_, _) => 3,
            HostCall::Send(_, n) => (*n as i32) as i64,
            HostCall::Recv(_, n) => {
                let data = received_bytes(*n);
                (data.len() as i32) as i64
            },
            HostCall::Close(_) => 0,
            HostCall::Log(_, _) => 0,
            HostCall::GetTime => now_ms,
            HostCall::Exit(code) => *code as i64,
        }
    }
}

/// The bytes that a `recv` call into a buffer of `capacity` bytes writes into the plugin's
/// memory: as much of the greeting as fits.
pub fn received_bytes(capacity: usize) -> (r: Vec<u8>)
    ensures
        r@ == encode_utf8(greeting()).take(received_len(capacity as nat) as int),
{
    let bytes = "Hello from host!".as_bytes();
    let n: usize = if capacity < bytes.len() {
        capacity
    } else {
        bytes.len()
    };
    let mut r: Vec<u8> = Vec::new();
    let mut i: usize = 0;
    while i < n
        invariant
            i <= n,
            n <= bytes@.len(),
            r@ == bytes@.take(i as int),
        decreases n - i,
    {
        r.push(bytes[i]);
        i = i + 1;
        assert(r@ =~= bytes@.take(i as int));
    }
    r
}

/// The level and line to log for a plugin's `log` call: a known level logs the message
/// under the plugin's name; an unknown one logs, as an error, that the level is unknown.
pub open spec fn host_log_entry(plugin_id: Seq<char>, level: int, message: Seq<char>) -> (
    LogLevel,
    Seq<char>,
) {
    let head = "[Plugin "@ + plugin_id + "] "@;
    if level == 0 {
        (LogLevel::Trace, head + message)
    } else if level == 1 {
        (LogLevel::Debug, head + message)
    } else if level == 2 {
        (LogLevel::Info, head + message)
    } else if level == 3 {
        (LogLevel::Warning, head + message)
    } else if level == 4 {
        (LogLevel::Error, head + message)
    } else {
        (LogLevel::Error, head + "Unknown log level: "@ + signed_decimal(level))
    }
}

/// The level and line to log for a plugin's `log` call.
pub fn host_log(plugin_id: &str, level: i32, message: &str) -> (r: (LogLevel, String))
    ensures
        (r.0, r.1@) == host_log_entry(plugin_id@, level as int, message@),
{
    let mut line = String::from_str("[Plugin ");
    line.append(plugin_id);
    line.append("] ");
    let lvl = if level == 0 {
        LogLevel::Trace
    } else if level == 1 {
        LogLevel::Debug
    } else if level == 2 {
        LogLevel::Info
    } else if level == 3 {
        LogLevel::Warning
    } else {
        LogLevel::Error
    };
    if 0 <= level && level <= 4 {
        line.append(message);
    } else {
        line.append("Unknown log level: ");
        append_signed(&mut line, level);
    }
    (lvl, line)
}

/// A plugin's log call at levels 0 to 4 logs, at trace, debug, info, warning and error
/// respectively, the line `[Plugin <id>] ` followed by the plugin's message; any other level
/// logs at error level that the level is unknown, naming it.
pub proof fn lemma_host_log_lines(plugin_id: Seq<char>, level: int, message: Seq<char>)
    ensures
        0 <= level <= 4 ==> host_log_entry(plugin_id, level, message).1 == "[Plugin "@
            + plugin_id + "] "@ + message,
        level == 0 ==> host_log_entry(plugin_id, level, message).0 == LogLevel::Trace,
        level == 1 ==> host_log_entry(plugin_id, level, message).0 == LogLevel::Debug,
        level == 2 ==> host_log_entry(plugin_id, level, message).0 == LogLevel::Info,
        level == 3 ==> host_log_entry(plugin_id, level, message).0 == LogLevel::Warning,
        level == 4 ==> host_log_entry(plugin_id, level, message).0 == LogLevel::Error,
        !(0 <= level <= 4) ==> host_log_entry(plugin_id, level, message) == (
            LogLevel::Error,
            "[Plugin "@ + plugin_id + "] "@ + "Unknown log level: "@ + signed_decimal(level),
        ),
{
}

} // verus!
