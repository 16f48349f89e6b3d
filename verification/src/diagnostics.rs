//! Diagnostics of a desktop session: the hang dump taken once per session, which files go
//! into an exported archive, and what of a log record reaches the log file.
use vstd::prelude::*;

use crate::format::{decimal, decimal_text};
use crate::text::{chars_of, is_control, is_control_char, owned, push_char};
use crate::update_rules::filter_take;

verus! {

pub const LOG_NAME: &'static str = "stemred.jsonl";

pub const MAX_LOG_BYTES: u64 = 5 * 1024 * 1024;

pub const LOG_GENERATIONS: usize = 3;

/// The diagnostics of one run of the shell.
pub struct DesktopDiagnostics {
    directory: String,
    session_id: String,
    dump_captured: bool,
}

/// The file a hang dump of a session is written to.
pub open spec fn hang_dump_name(session_id: Seq<char>) -> Seq<char> {
    "hang-"@ + session_id + ".dmp"@
}

/// The archive a session's diagnostics are exported to.
pub open spec fn export_archive_name(session_id: Seq<char>) -> Seq<char> {
    "stemred-diagnostics-"@ + session_id + ".zip"@
}

/// Whether a file of the diagnostics folder goes into the export: the current and rotated
/// logs, the panic marker, and this session's hang dump when it is asked for.
pub open spec fn exported_file(name: Seq<char>, session_id: Seq<char>, include_dump: bool) -> bool {
    ||| name == LOG_NAME@
    ||| (name.len() >= 14 && name.subrange(0, 14) == "stemred.jsonl."@)
    ||| name == "panic-marker.json"@
    ||| (include_dump && name == hang_dump_name(session_id))
}

/// A session's hang dump goes into the export exactly when the dump is asked for; the logs
/// and the panic marker go in either way.
pub proof fn law_hang_dump_exported_only_when_asked(session_id: Seq<char>, include_dump: bool)
    ensures
        exported_file(hang_dump_name(session_id), session_id, include_dump) == include_dump,
        exported_file("stemred.jsonl"@, session_id, include_dump),
        exported_file("panic-marker.json"@, session_id, include_dump),
{
    reveal_strlit("hang-");
    reveal_strlit(".dmp");
    reveal_strlit("stemred.jsonl");
    reveal_strlit("stemred.jsonl.");
    reveal_strlit("panic-marker.json");
    let name = hang_dump_name(session_id);
    assert(name[0] == 'h');
    assert(name != LOG_NAME@) by {
        assert(LOG_NAME@[0] == 's');
    }
    assert(name != "panic-marker.json"@) by {
        assert("panic-marker.json"@[0] == 'p');
    }
    if name.len() >= 14 {
        assert(name.subrange(0, 14)[0] == 'h');
        assert("stemred.jsonl."@[0] == 's');
    }
}

fn join3(a: &str, b: &str, c: &str) -> (r: String)
    ensures
        r@ == a@ + b@ + c@,
{
    let mut s = owned(a);
    s.append(b);
    s.append(c);
    s
}

impl DesktopDiagnostics {
    pub closed spec fn directory_view(&self) -> Seq<char> {
        self.directory@
    }

    pub closed spec fn session(&self) -> Seq<char> {
        self.session_id@
    }

    pub closed spec fn dump_taken(&self) -> bool {
        self.dump_captured
    }

    pub fn new(directory: String, session_id: String) -> (r: Self)
        ensures
            r.directory_view() == directory@,
            r.session() == session_id@,
            !r.dump_taken(),
    {
        DesktopDiagnostics { directory, session_id, dump_captured: false }
    }

    /// Starts a session under a fresh random id: the canonical text of a random UUID.
    pub fn start(directory: String) -> (r: Self)
        ensures
            r.directory_view() == directory@,
            !r.dump_taken(),
            crate::ids::uuid_text(r.session()) == Some(r.session()),
    {
        Self::new(directory, crate::ids::new_uuid_v4())
    }

    pub fn directory(&self) -> (r: &str)
        ensures
            r@ == self.directory_view(),
    {
        self.directory.as_str()
    }

    pub fn session_id(&self) -> (r: &str)
        ensures
            r@ == self.session(),
    {
        self.session_id.as_str()
    }

    /// The file the session's hang dump is to be written to, while none has been taken;
    /// nothing once one has, so that a dump is written at most once.
    pub fn pending_hang_dump(&self) -> (r: Option<String>)
        ensures
            r is None <==> self.dump_taken(),
            r matches Some(name) ==> name@ == hang_dump_name(self.session()),
    {
        if self.dump_captured {
            None
        } else {
            Some(join3("hang-", self.session_id.as_str(), ".dmp"))
        }
    }

    /// Records how writing the hang dump went: a successful write marks the dump taken, a
    /// failed one leaves it to be tried again.
    pub fn record_hang_dump(&mut self, written: Result<(), String>) -> (r: Result<(), String>)
        ensures
            r == written,
            final(self).dump_taken() == (old(self).dump_taken() || written is Ok),
            final(self).session() == old(self).session(),
            final(self).directory_view() == old(self).directory_view(),
    {
        if written.is_ok() {
            self.dump_captured = true;
        }
        written
    }

    /// Takes a hang dump once per session: `write_dump` is given the dump's file name, and a
    /// successful write marks the dump taken. Later calls do nothing.
    pub fn capture_hang_dump<F: FnOnce(String) -> Result<(), String>>(&mut self, write_dump: F) -> (r: Result<(), String>)
        requires
            forall|name: String| write_dump.requires((name,)),
        ensures
            final(self).session() == old(self).session(),
            final(self).directory_view() == old(self).directory_view(),
            old(self).dump_taken() ==> r is Ok && final(self).dump_taken(),
            !old(self).dump_taken() ==> (exists|name: String| name@ == hang_dump_name(old(self).session())
                && write_dump.ensures((name,), r)) && final(self).dump_taken() == r is Ok,
    {
        match self.pending_hang_dump() {
            None => Ok(()),
            Some(name) => {
                let ghost given = name;
                let written = write_dump(name);
                assert(write_dump.ensures((given,), written));
                self.record_hang_dump(written)
            },
        }
    }

    pub fn export_file_name(&self) -> (r: String)
        ensures
            r@ == export_archive_name(self.session()),
    {
        join3("stemred-diagnostics-", self.session_id.as_str(), ".zip")
    }

    /// Whether a file of the diagnostics folder goes into the exported archive.
    pub fn is_exported_file(&self, name: &str, include_dump: bool) -> (r: bool)
        ensures
            r == exported_file(name@, self.session(), include_dump),
    {
        let chars = chars_of(name);
        let prefix = chars_of("stemred.jsonl.");
        proof {
            reveal_strlit("stemred.jsonl.");
        }
        let own = owned(name);
        own == owned(LOG_NAME) || starts_with_prefix(&chars, &prefix) || own == owned(
            "panic-marker.json",
        ) || (include_dump && own == join3("hang-", self.session_id.as_str(), ".dmp"))
    }
}

fn starts_with_prefix(s: &Vec<char>, prefix: &Vec<char>) -> (r: bool)
    ensures
        r == (s@.len() >= prefix@.len() && s@.subrange(0, prefix@.len() as int) == prefix@),
{
    if s.len() < prefix.len() {
        return false;
    }
    let mut i: usize = 0;
    while i < prefix.len()
        invariant
            prefix@.len() <= s@.len(),
            i <= prefix@.len(),
            forall|j: int| 0 <= j < i ==> s@[j] == prefix@[j],
        decreases prefix@.len() - i,
    {
        if s[i] != prefix[i] {
            proof {
                assert(s@.subrange(0, prefix@.len() as int)[i as int] != prefix@[i as int]);
            }
            return false;
        }
        i = i + 1;
    }
    proof {
        assert(s@.subrange(0, prefix@.len() as int) =~= prefix@);
    }
    true
}

/// The logger keeps the records of the shell's own `stem::` targets.
pub fn log_target_enabled(target: &str) -> (r: bool)
    ensures
        r == (target@.len() >= 6 && target@.subrange(0, 6) == "stem::"@),
{
    proof {
        reveal_strlit("stem::");
    }
    starts_with_prefix(&chars_of(target), &chars_of("stem::"))
}

/// At most `limit` characters of `value`, control characters left out.
pub fn sanitize(value: &str, limit: usize) -> (r: String)
    ensures
        r@ == filter_take(value@, |c: char| !is_control_char(c), limit as nat),
{
    let chars = chars_of(value);
    let ghost keep = |c: char| !is_control_char(c);
    let mut out = String::new();
    let mut taken: usize = 0;
    let mut i: usize = 0;
    proof {
        assert(chars@.subrange(0, chars@.len() as int) =~= value@);
        assert(out@ + value@ =~= value@);
    }
    while i < chars.len() && taken < limit
        invariant
            keep == (|c: char| !is_control_char(c)),
            chars@ == value@,
            i <= chars@.len(),
            taken <= limit,
            out@.len() == taken,
            out@ + filter_take(chars@.subrange(i as int, chars@.len() as int), keep, (limit - taken) as nat)
                == filter_take(value@, keep, limit as nat),
        decreases chars@.len() - i,
    {
        let c = chars[i];
        let ghost old_out = out@;
        let ghost lim = (limit - taken) as nat;
        let ghost rest_i = chars@.subrange(i as int, chars@.len() as int);
        let ghost rest_next = chars@.subrange(i + 1, chars@.len() as int);
        proof {
            assert(rest_i.drop_first() =~= rest_next);
            assert(rest_i[0] == c);
        }
        if !is_control(c) {
            proof {
                assert(keep(c));
                assert(filter_take(rest_i, keep, lim) == seq![c] + filter_take(rest_next, keep, (lim - 1) as nat));
            }
            push_char(&mut out, c);
            taken = taken + 1;
            proof {
                assert(out@ + filter_take(rest_next, keep, (limit - taken) as nat) =~= old_out
                    + filter_take(rest_i, keep, lim));
            }
        } else {
            proof {
                assert(!keep(c));
            }
        }
        i = i + 1;
    }
    proof {
        if i == chars@.len() {
            assert(chars@.subrange(i as int, chars@.len() as int) =~= Seq::<char>::empty());
        }
        assert(out@ + Seq::<char>::empty() =~= out@);
    }
    out
}

/// The log is rotated once it reaches 5 MiB.
pub fn log_rotation_needed(size: u64) -> (r: bool)
    ensures
        r == (size >= MAX_LOG_BYTES),
{
    size >= MAX_LOG_BYTES
}

/// The name of the `generation`-th rotated log.
pub fn rotated_log_name(generation: u64) -> (r: String)
    ensures
        r@ == LOG_NAME@ + "."@ + decimal(generation),
{
    let mut name = owned(LOG_NAME);
    name.append(".");
    name.append(decimal_text(generation).as_str());
    name
}

/// Milliseconds since the epoch, capped at `u64::MAX`.
pub fn clamp_millis(millis: u128) -> (r: u64)
    ensures
        r == if millis > u64::MAX {
            u64::MAX as int
        } else {
            millis as int
        },
{
    if millis > u64::MAX as u128 {
        u64::MAX
    } else {
        millis as u64
    }
}

} // verus!
