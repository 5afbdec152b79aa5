//! The log file: where it lives, the lines appended to it, and how it is
//! rotated when it grows too large.

use std::path::PathBuf;
use vstd::prelude::*;
use crate::domain::{joined_path, path_join};
use crate::output::{level_text, message_text, CliMessage};
use crate::text::{chars_of, push_str, string_of};

verus! {

/// Size in bytes from which the log is rotated.
pub const MAX_LOG_SIZE: u64 = 1048576;

/// Number of rotated copies kept.
pub const MAX_BACKUPS: u32 = 3;

/// The decimal digit for `d` (below ten).
pub open spec fn digit(d: nat) -> char {
    (48 + d) as char
}

/// The decimal representation of `n`, without leading zeros.
pub open spec fn decimal(n: nat) -> Seq<char>
    decreases n,
{
    if n < 10 {
        seq![digit(n)]
    } else {
        decimal(n / 10) + seq![digit(n % 10)]
    }
}

/// The decimal representation of `n`.
pub fn decimal_text(n: u64) -> (s: String)
    ensures
        s@ == decimal(n as nat),
{
    let mut acc: Vec<char> = Vec::new();
    let mut m: u64 = n;
    while m >= 10
        invariant
            decimal(n as nat) == decimal(m as nat) + acc@,
        decreases m,
    {
        let d = (m % 10) as u8;
        let c = (48u8 + d) as char;
        assert(c == digit((m % 10) as nat));
        let ghost old_acc = acc@;
        acc.insert(0, c);
        assert(decimal(m as nat) == decimal((m / 10) as nat) + seq![c]);
        assert(decimal(n as nat) =~= decimal((m / 10) as nat) + acc@);
        m = m / 10;
    }
    let c = (48u8 + (m as u8)) as char;
    assert(c == digit(m as nat));
    acc.insert(0, c);
    assert(decimal(n as nat) =~= acc@);
    string_of(acc.as_slice())
}

/// The line appended to the log for a message of `level` at `timestamp`
/// (seconds since the Unix epoch): `[<timestamp>] [<level>] <message>`.
pub open spec fn entry_line(timestamp: nat, level: Seq<char>, message: Seq<char>) -> Seq<char> {
    "["@ + decimal(timestamp) + "] ["@ + level + "] "@ + message + "\n"@
}

/// `path`, a dot, and `n`.
pub open spec fn backup_name(path: Seq<char>, n: nat) -> Seq<char> {
    path + "."@ + decimal(n)
}

/// The log file, appended to with a timestamp per entry.
#[derive(Debug)]
pub struct FileLogger {
    path: PathBuf,
}

impl FileLogger {
    /// The file the logger appends to.
    pub closed spec fn path_of(self) -> PathBuf {
        self.path
    }

    /// The logger of the data directory: `mdocs/mdocs.log` under `data_home`.
    pub fn new(data_home: &PathBuf) -> (l: Self)
        ensures
            l.path_of() == joined_path(joined_path(*data_home, "mdocs"@), "mdocs.log"@),
    {
        let dir = path_join(data_home, "mdocs");
        FileLogger { path: path_join(&dir, "mdocs.log") }
    }

    /// A logger appending to `path`.
    pub fn with_path(path: PathBuf) -> (l: Self)
        ensures
            l.path_of() == path,
    {
        FileLogger { path }
    }

    /// The file the logger appends to.
    pub fn path(&self) -> (p: &PathBuf)
        ensures
            *p == self.path_of(),
    {
        &self.path
    }

    /// The line this logger appends for `message` at `level`, written at
    /// `timestamp`: `[<timestamp>] [<level>] <message>` and a newline.
    pub fn log(&self, timestamp: u64, level: &str, message: &str) -> (line: String)
        ensures
            line@ == entry_line(timestamp as nat, level@, message@),
    {
        let mut out: Vec<char> = Vec::new();
        push_str(&mut out, "[");
        let digits = decimal_text(timestamp);
        push_str(&mut out, digits.as_str());
        push_str(&mut out, "] [");
        push_str(&mut out, level);
        push_str(&mut out, "] ");
        push_str(&mut out, message);
        push_str(&mut out, "\n");
        string_of(out.as_slice())
    }

    /// The line for a message: its level (`SUCCESS`, `INFO`, `DEBUG`, `WARN`,
    /// `ERROR`; `INFO` for plain text) and its text.
    pub fn log_message(&self, timestamp: u64, msg: &CliMessage) -> (line: String)
        ensures
            line@ == entry_line(timestamp as nat, level_text(*msg), message_text(*msg)),
    {
        self.log(timestamp, msg.level(), msg.text().as_str())
    }

    /// The renames that rotate the log at `path` when it has `size` bytes:
    /// none below `MAX_LOG_SIZE`; else `.2` to `.3`, `.1` to `.2`, then the
    /// log itself to `.1`, so that three copies are kept.
    pub fn rotation_renames(path: &str, size: u64) -> (renames: Vec<(String, String)>)
        ensures
            size < MAX_LOG_SIZE ==> renames@.len() == 0,
            size >= MAX_LOG_SIZE ==> {
                &&& renames@.len() == 3
                &&& renames@[0].0@ == backup_name(path@, 2) && renames@[0].1@ == backup_name(path@, 3)
                &&& renames@[1].0@ == backup_name(path@, 1) && renames@[1].1@ == backup_name(path@, 2)
                &&& renames@[2].0@ == path@ && renames@[2].1@ == backup_name(path@, 1)
            },
    {
        let mut renames: Vec<(String, String)> = Vec::new();
        if size < MAX_LOG_SIZE {
            return renames;
        }
        let mut i: u32 = MAX_BACKUPS - 1;
        while i >= 1
            invariant
                0 <= i <= 2,
                renames@.len() == 2 - i,
                i <= 1 ==> renames@[0].0@ == backup_name(path@, 2) && renames@[0].1@ == backup_name(path@, 3),
                i == 0 ==> renames@[1].0@ == backup_name(path@, 1) && renames@[1].1@ == backup_name(path@, 2),
            decreases i,
        {
            let from = Self::backup(path, i as u64);
            let to = Self::backup(path, (i + 1) as u64);
            renames.push((from, to));
            i = i - 1;
        }
        let last = Self::backup(path, 1);
        renames.push((String::from_str(path), last));
        renames
    }

    /// `path.n`.
    fn backup(path: &str, n: u64) -> (s: String)
        ensures
            s@ == backup_name(path@, n as nat),
    {
        let mut out = chars_of(path);
        push_str(&mut out, ".");
        let digits = decimal_text(n);
        push_str(&mut out, digits.as_str());
        string_of(out.as_slice())
    }
}

} // verus!
