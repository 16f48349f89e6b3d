//! Small rules of the desktop shell: the tray tooltip, Windows autostart, and the registry of
//! chunked saves into the downloads folder.
use vstd::prelude::*;

use crate::format::{decimal, decimal_text};
use crate::files::{desktop_download_result, DesktopDownloadSaveResult};
use crate::ids::{base64_std_decoded, decode_base64_standard};
use crate::text::{ascii_lower, chars_of, fails_with, owned, to_ascii_lower, trim, trim_ws};

verus! {

/// The tray tooltip: the app name, and the unread count when there is one.
pub fn unread_tooltip(count: u32) -> (r: String)
    ensures
        r@ == if count == 0 {
            "StemRed"@
        } else {
            "StemRed - "@ + decimal(count as u64) + " unread"@
        },
{
    if count == 0 {
        owned("StemRed")
    } else {
        let mut text = owned("StemRed - ");
        text.append(decimal_text(count as u64).as_str());
        text.append(" unread");
        text
    }
}

/// The command line registered to start the shell with Windows: the quoted executable path.
pub fn autostart_command(executable: &str) -> (r: String)
    ensures
        r@ == "\""@ + executable@ + "\""@,
{
    let mut command = owned("\"");
    command.append(executable);
    command.append("\"");
    command
}

/// Autostart counts as enabled when the registered command is not blank and equals the
/// expected one, ignoring ASCII case.
pub fn autostart_value_matches(value: &str, expected: &str) -> (r: bool)
    ensures
        r == (trim_ws(value@).len() > 0 && ascii_lower(value@) == ascii_lower(expected@)),
{
    if trim(value).is_empty() {
        return false;
    }
    let a = chars_of(value);
    let b = chars_of(expected);
    if a.len() != b.len() {
        proof {
            assert(ascii_lower(a@).len() != ascii_lower(b@).len());
        }
        return false;
    }
    let mut i: usize = 0;
    while i < a.len()
        invariant
            a@ == value@,
            b@ == expected@,
            a@.len() == b@.len(),
            i <= a@.len(),
            forall|j: int| 0 <= j < i ==> ascii_lower(a@)[j] == ascii_lower(b@)[j],
        decreases a@.len() - i,
    {
        if to_ascii_lower(a[i]) != to_ascii_lower(b[i]) {
            proof {
                assert(ascii_lower(a@)[i as int] != ascii_lower(b@)[i as int]);
            }
            return false;
        }
        i = i + 1;
    }
    proof {
        assert(ascii_lower(a@) =~= ascii_lower(b@));
    }
    true
}

/// What the first start does about autostart: nothing once initialized; otherwise enable it
/// when it is off, then remember that it was initialized. Returns (enable, mark initialized).
pub fn autostart_first_run(initialized: bool, enabled: bool) -> (r: (bool, bool))
    ensures
        r == (!initialized && !enabled, !initialized),
{
    (!initialized && !enabled, !initialized)
}

/// What an entry of the tray menu does.
pub enum TrayMenuAction {
    Open,
    Retry,
    ToggleMicrophone,
    ToggleAutostart,
    Quit,
}

pub open spec fn tray_action_of(id: Seq<char>) -> Option<TrayMenuAction> {
    if id == "open"@ {
        Some(TrayMenuAction::Open)
    } else if id == "retry"@ {
        Some(TrayMenuAction::Retry)
    } else if id == "microphone_access"@ {
        Some(TrayMenuAction::ToggleMicrophone)
    } else if id == "autostart"@ {
        Some(TrayMenuAction::ToggleAutostart)
    } else if id == "quit"@ {
        Some(TrayMenuAction::Quit)
    } else {
        None
    }
}

/// The action of a tray menu entry, by its id.
pub fn tray_menu_action(id: &str) -> (r: Option<TrayMenuAction>)
    ensures
        r == tray_action_of(id@),
{
    let id = owned(id);
    if id == owned("open") {
        Some(TrayMenuAction::Open)
    } else if id == owned("retry") {
        Some(TrayMenuAction::Retry)
    } else if id == owned("microphone_access") {
        Some(TrayMenuAction::ToggleMicrophone)
    } else if id == owned("autostart") {
        Some(TrayMenuAction::ToggleAutostart)
    } else if id == owned("quit") {
        Some(TrayMenuAction::Quit)
    } else {
        None
    }
}

/// A chunked save in progress: the file's name, the folder and the full path.
pub struct DesktopPendingDownload {
    pub filename: String,
    pub directory: String,
    pub path: String,
}

pub struct PendingView {
    pub filename: Seq<char>,
    pub directory: Seq<char>,
    pub path: Seq<char>,
}

impl View for DesktopPendingDownload {
    type V = PendingView;

    open spec fn view(&self) -> PendingView {
        PendingView { filename: self.filename@, directory: self.directory@, path: self.path@ }
    }
}

/// The chunked saves in progress, by transfer id.
pub struct DownloadRegistry {
    entries: Vec<(String, DesktopPendingDownload)>,
}

pub open spec fn missing_id_message() -> Seq<char> {
    "Не найден идентификатор сохранения"@
}

pub open spec fn inactive_message() -> Seq<char> {
    "Сохранение файла уже не активно"@
}

impl DownloadRegistry {
    /// The saves in progress, as a map from transfer id.
    pub closed spec fn saves(&self) -> Map<Seq<char>, PendingView> {
        Map::new(
            |id: Seq<char>| exists|i: int| 0 <= i < self.entries@.len() && self.entries@[i].0@ == id,
            |id: Seq<char>|
                {
                    let i = choose|i: int| 0 <= i < self.entries@.len() && self.entries@[i].0@ == id;
                    self.entries@[i].1@
                },
        )
    }

    /// No transfer id occurs twice.
    pub closed spec fn well_formed(&self) -> bool {
        forall|i: int, j: int|
            0 <= i < self.entries@.len() && 0 <= j < self.entries@.len() && i != j
                ==> self.entries@[i].0@ != self.entries@[j].0@
    }

    /// Every registry is well formed: it starts empty and each change keeps ids unique.
    #[verifier::type_invariant]
    spec fn ids_unique(self) -> bool {
        self.well_formed()
    }

    pub fn new() -> (r: Self)
        ensures
            r.well_formed(),
            r.saves() == Map::<Seq<char>, PendingView>::empty(),
    {
        let r = DownloadRegistry { entries: Vec::new() };
        proof {
            assert(r.saves() =~= Map::<Seq<char>, PendingView>::empty());
        }
        r
    }

    fn position(&self, id: &String) -> (r: Option<usize>)
        requires
            self.well_formed(),
        ensures
            match r {
                Some(i) => i < self.entries@.len() && self.entries@[i as int].0@ == id@,
                None => !self.saves().contains_key(id@),
            },
    {
        let mut i: usize = 0;
        while i < self.entries.len()
            invariant
                i <= self.entries@.len(),
                forall|j: int| 0 <= j < i ==> self.entries@[j].0@ != id@,
            decreases self.entries@.len() - i,
        {
            if self.entries[i].0 == *id {
                return Some(i);
            }
            i = i + 1;
        }
        None
    }

    proof fn lemma_lookup(&self, i: int)
        requires
            self.well_formed(),
            0 <= i < self.entries@.len(),
        ensures
            self.saves().contains_key(self.entries@[i].0@),
            self.saves()[self.entries@[i].0@] == self.entries@[i].1@,
    {
        let id = self.entries@[i].0@;
        assert(self.saves().dom().contains(id));
        let k = choose|k: int| 0 <= k < self.entries@.len() && self.entries@[k].0@ == id;
        assert(k == i);
    }

    /// Records a save under `transfer_id`, replacing one with the same id.
    pub fn register(&mut self, transfer_id: String, pending: DesktopPendingDownload)
        ensures
            final(self).well_formed(),
            final(self).saves() == old(self).saves().insert(transfer_id@, pending@),
    {
        proof {
            use_type_invariant(&*self);
        }
        let ghost before = self.saves();
        match self.position(&transfer_id) {
            Some(i) => {
                let ghost old_entries = self.entries@;
                let mut entries: Vec<(String, DesktopPendingDownload)> = Vec::new();
                std::mem::swap(&mut entries, &mut self.entries);
                entries.set(i, (transfer_id, pending));
                proof {
                    assert forall|a: int, b: int|
                        0 <= a < entries@.len() && 0 <= b < entries@.len() && a != b
                            implies entries@[a].0@ != entries@[b].0@ by {
                        assert(old_entries[a].0@ != old_entries[b].0@);
                    }
                }
                self.entries = entries;
                proof {
                    use_type_invariant(&*self);
                    assert forall|id: Seq<char>| #[trigger] self.saves().contains_key(id) <==> before.insert(
                        old_entries[i as int].0@,
                        self.entries@[i as int].1@,
                    ).contains_key(id) by {
                        if before.contains_key(id) {
                            let k = choose|k: int| 0 <= k < old_entries.len() && old_entries[k].0@ == id;
                            assert(self.entries@[k].0@ == id);
                        }
                        if self.saves().contains_key(id) {
                            let k = choose|k: int| 0 <= k < self.entries@.len() && self.entries@[k].0@ == id;
                            if k != i {
                                assert(old_entries[k].0@ == id);
                            }
                        }
                    }
                    assert forall|id: Seq<char>| #[trigger] self.saves().contains_key(id) implies self.saves()[id]
                        == before.insert(old_entries[i as int].0@, self.entries@[i as int].1@)[id] by {
                        let k = choose|k: int| 0 <= k < self.entries@.len() && self.entries@[k].0@ == id;
                        self.lemma_lookup(k);
                        if k != i {
                            assert(old_entries[k].0@ == id);
                            let k2 = choose|k2: int| 0 <= k2 < old_entries.len() && old_entries[k2].0@ == id;
                            assert(k2 == k);
                        }
                    }
                    assert(self.saves() =~= before.insert(transfer_id@, pending@));
                }
            },
            None => {
                let ghost old_entries = self.entries@;
                let ghost n = old_entries.len() as int;
                let mut entries: Vec<(String, DesktopPendingDownload)> = Vec::new();
                std::mem::swap(&mut entries, &mut self.entries);
                entries.push((transfer_id, pending));
                proof {
                    assert forall|a: int, b: int|
                        0 <= a < entries@.len() && 0 <= b < entries@.len() && a != b
                            implies entries@[a].0@ != entries@[b].0@ by {
                        if a < n && b < n {
                            assert(old_entries[a].0@ != old_entries[b].0@);
                        } else if a < n {
                            assert(before.contains_key(old_entries[a].0@));
                        } else {
                            assert(before.contains_key(old_entries[b].0@));
                        }
                    }
                }
                self.entries = entries;
                proof {
                    use_type_invariant(&*self);
                    assert forall|id: Seq<char>| #[trigger] self.saves().contains_key(id) <==> before.insert(
                        self.entries@[n].0@,
                        self.entries@[n].1@,
                    ).contains_key(id) by {
                        if before.contains_key(id) {
                            let k = choose|k: int| 0 <= k < old_entries.len() && old_entries[k].0@ == id;
                            assert(self.entries@[k].0@ == id);
                        }
                        if self.saves().contains_key(id) {
                            let k = choose|k: int| 0 <= k < self.entries@.len() && self.entries@[k].0@ == id;
                            if k != n {
                                assert(old_entries[k].0@ == id);
                            }
                        }
                    }
                    assert forall|id: Seq<char>| #[trigger] self.saves().contains_key(id) implies self.saves()[id]
                        == before.insert(self.entries@[n].0@, self.entries@[n].1@)[id] by {
                        let k = choose|k: int| 0 <= k < self.entries@.len() && self.entries@[k].0@ == id;
                        self.lemma_lookup(k);
                        if k != n {
                            assert(old_entries[k].0@ == id);
                            let k2 = choose|k2: int| 0 <= k2 < old_entries.len() && old_entries[k2].0@ == id;
                            assert(old_entries[k2].0@ == id);
                        }
                    }
                    assert(self.saves() =~= before.insert(transfer_id@, pending@));
                }
            },
        }
    }

    /// The file a chunk of a save is appended to.
    pub fn chunk_target(&self, transfer_id: &str) -> (r: Result<String, String>)
        ensures
            trim_ws(transfer_id@).len() == 0 ==> fails_with(r, missing_id_message()),
            trim_ws(transfer_id@).len() > 0 && !self.saves().contains_key(trim_ws(transfer_id@))
                ==> fails_with(r, inactive_message()),
            trim_ws(transfer_id@).len() > 0 && self.saves().contains_key(trim_ws(transfer_id@))
                ==> (r matches Ok(path) && path@ == self.saves()[trim_ws(transfer_id@)].path),
    {
        proof {
            use_type_invariant(&*self);
        }
        let id = trim(transfer_id);
        if id.is_empty() {
            return Err(owned("Не найден идентификатор сохранения"));
        }
        match self.position(&owned(id)) {
            Some(i) => {
                proof {
                    self.lemma_lookup(i as int);
                }
                Ok(self.entries[i].1.path.clone())
            },
            None => Err(owned("Сохранение файла уже не активно")),
        }
    }

    /// Ends a save and hands back its record.
    pub fn finish(&mut self, transfer_id: &str) -> (r: Result<DesktopPendingDownload, String>)
        ensures
            final(self).well_formed(),
            trim_ws(transfer_id@).len() == 0 ==> fails_with(r, missing_id_message()) && final(self).saves()
                == old(self).saves(),
            trim_ws(transfer_id@).len() > 0 && !old(self).saves().contains_key(trim_ws(transfer_id@))
                ==> fails_with(r, inactive_message()) && final(self).saves() == old(self).saves(),
            trim_ws(transfer_id@).len() > 0 && old(self).saves().contains_key(trim_ws(transfer_id@))
                ==> (r matches Ok(p) && p@ == old(self).saves()[trim_ws(transfer_id@)])
                && final(self).saves() == old(self).saves().remove(trim_ws(transfer_id@)),
    {
        proof {
            use_type_invariant(&*self);
        }
        let id = trim(transfer_id);
        if id.is_empty() {
            return Err(owned("Не найден идентификатор сохранения"));
        }
        match self.remove_entry(&owned(id)) {
            Some(p) => Ok(p),
            None => Err(owned("Сохранение файла уже не активно")),
        }
    }

    /// Cancels a save, handing back its record when there was one.
    pub fn cancel(&mut self, transfer_id: &str) -> (r: Option<DesktopPendingDownload>)
        ensures
            final(self).well_formed(),
            trim_ws(transfer_id@).len() == 0 ==> r is None && final(self).saves() == old(self).saves(),
            trim_ws(transfer_id@).len() > 0 ==> final(self).saves() == old(self).saves().remove(
                trim_ws(transfer_id@),
            ) && match r {
                Some(p) => old(self).saves().contains_key(trim_ws(transfer_id@)) && p@ == old(
                    self,
                ).saves()[trim_ws(transfer_id@)],
                None => !old(self).saves().contains_key(trim_ws(transfer_id@)),
            },
    {
        proof {
            use_type_invariant(&*self);
        }
        let id = trim(transfer_id);
        if id.is_empty() {
            return None;
        }
        self.remove_entry(&owned(id))
    }

    fn remove_entry(&mut self, id: &String) -> (r: Option<DesktopPendingDownload>)
        requires
            old(self).well_formed(),
        ensures
            final(self).well_formed(),
            final(self).saves() == old(self).saves().remove(id@),
            match r {
                Some(p) => old(self).saves().contains_key(id@) && p@ == old(self).saves()[id@],
                None => !old(self).saves().contains_key(id@),
            },
    {
        let ghost before = self.saves();
        match self.position(id) {
            None => {
                proof {
                    assert(before.remove(id@) =~= before);
                }
                None
            },
            Some(i) => {
                proof {
                    self.lemma_lookup(i as int);
                }
                let ghost old_entries = self.entries@;
                let mut entries: Vec<(String, DesktopPendingDownload)> = Vec::new();
                std::mem::swap(&mut entries, &mut self.entries);
                let (_, pending) = entries.remove(i);
                proof {
                    assert forall|a: int, b: int|
                        0 <= a < entries@.len() && 0 <= b < entries@.len() && a != b
                            implies entries@[a].0@ != entries@[b].0@ by {
                        let oa = if a < i { a } else { a + 1 };
                        let ob = if b < i { b } else { b + 1 };
                        assert(entries@[a] == old_entries[oa]);
                        assert(entries@[b] == old_entries[ob]);
                    }
                }
                self.entries = entries;
                proof {
                    use_type_invariant(&*self);
                    assert forall|k: Seq<char>| #[trigger] self.saves().contains_key(k) <==> before.remove(id@).contains_key(k) by {
                        if before.contains_key(k) && k != id@ {
                            let m = choose|m: int| 0 <= m < old_entries.len() && old_entries[m].0@ == k;
                            assert(m != i);
                            let nm = if m < i { m } else { m - 1 };
                            assert(self.entries@[nm] == old_entries[m]);
                        }
                        if self.saves().contains_key(k) {
                            let m = choose|m: int| 0 <= m < self.entries@.len() && self.entries@[m].0@ == k;
                            let om = if m < i { m } else { m + 1 };
                            assert(self.entries@[m] == old_entries[om]);
                            assert(om != i);
                        }
                    }
                    assert forall|k: Seq<char>| #[trigger] self.saves().contains_key(k) implies self.saves()[k]
                        == before.remove(id@)[k] by {
                        let m = choose|m: int| 0 <= m < self.entries@.len() && self.entries@[m].0@ == k;
                        self.lemma_lookup(m);
                        let om = if m < i { m } else { m + 1 };
                        assert(self.entries@[m] == old_entries[om]);
                        let m2 = choose|m2: int| 0 <= m2 < old_entries.len() && old_entries[m2].0@ == k;
                        assert(old_entries[om].0@ == k);
                    }
                    assert(self.saves() =~= before.remove(id@));
                }
                Some(pending)
            },
        }
    }
}

/// A save registered under an id is what its chunks are written to and what finishing it
/// hands back; once finished or cancelled, the id names no save.
pub proof fn law_registered_save_finishes_once(saves: Map<Seq<char>, PendingView>, id: Seq<char>, pending: PendingView)
    ensures
        saves.insert(id, pending).contains_key(id),
        saves.insert(id, pending)[id] == pending,
        !saves.insert(id, pending).remove(id).contains_key(id),
        forall|other: Seq<char>| other != id ==> (#[trigger] saves.insert(id, pending).remove(id).contains_key(other)
            <==> saves.contains_key(other)),
{
}

pub open spec fn chunk_error_prefix() -> Seq<char> {
    "Не удалось прочитать часть файла: "@
}

/// The bytes of a chunk sent as standard Base64, surrounding whitespace ignored.
pub fn decode_chunk(chunk_base64: &str) -> (r: Result<Vec<u8>, String>)
    ensures
        match base64_std_decoded(vstd::utf8::encode_utf8(trim_ws(chunk_base64@))) {
            Ok(bytes) => r matches Ok(b) && b@ == bytes,
            Err(text) => r matches Err(e) && e@ == chunk_error_prefix() + text,
        },
{
    match decode_base64_standard(trim(chunk_base64).as_bytes()) {
        Ok(bytes) => Ok(bytes),
        Err(text) => {
            let mut message = owned("Не удалось прочитать часть файла: ");
            message.append(text.as_str());
            Err(message)
        },
    }
}

pub open spec fn file_error_prefix() -> Seq<char> {
    "Не удалось прочитать файл: "@
}

/// The content of a file saved in one piece, sent as standard Base64: an empty file is
/// refused.
pub fn decode_whole_file(content_base64: &str) -> (r: Result<Vec<u8>, String>)
    ensures
        match base64_std_decoded(vstd::utf8::encode_utf8(trim_ws(content_base64@))) {
            Ok(bytes) => if bytes.len() == 0 {
                fails_with(r, "Файл пустой"@)
            } else {
                r matches Ok(b) && b@ == bytes
            },
            Err(text) => r matches Err(e) && e@ == file_error_prefix() + text,
        },
{
    match decode_base64_standard(trim(content_base64).as_bytes()) {
        Ok(bytes) => {
            if bytes.len() == 0 {
                Err(owned("Файл пустой"))
            } else {
                Ok(bytes)
            }
        },
        Err(text) => {
            let mut message = owned("Не удалось прочитать файл: ");
            message.append(text.as_str());
            Err(message)
        },
    }
}

/// A saved file counts as found when something was asked for and a file of exactly that size
/// is there.
pub fn download_matches(requested_size: u64, is_file: bool, actual_size: u64) -> (r: bool)
    ensures
        r == (requested_size > 0 && is_file && actual_size == requested_size),
{
    requested_size > 0 && is_file && actual_size == requested_size
}

/// The result of a finished save: an empty file is an error (and is removed by the caller).
pub fn saved_download_result(pending: DesktopPendingDownload, target_file_name: Option<&str>, size: u64) -> (r: Result<DesktopDownloadSaveResult, String>)
    ensures
        size == 0 <==> r is Err,
        r matches Err(e) ==> e@ == "Файл пустой"@,
        r matches Ok(saved) ==> saved.directory@ == pending.directory@ && saved.path@ == pending.path@
            && saved.filename@ == match target_file_name {
            Some(name) => name@,
            None => pending.filename@,
        },
{
    if size == 0 {
        return Err(owned("Файл пустой"));
    }
    Ok(desktop_download_result(
        pending.directory.as_str(),
        pending.path.as_str(),
        target_file_name,
        pending.filename.as_str(),
    ))
}

impl DownloadRegistry {
    /// Where a chunk goes and what it holds: the save's file and the decoded bytes, or nothing
    /// to write for an empty chunk.
    pub fn prepare_chunk(&self, transfer_id: &str, chunk_base64: &str) -> (r: Result<Option<(String, Vec<u8>)>, String>)
        ensures
            trim_ws(transfer_id@).len() == 0 ==> fails_with(r, missing_id_message()),
            trim_ws(transfer_id@).len() > 0 && !self.saves().contains_key(trim_ws(transfer_id@))
                ==> fails_with(r, inactive_message()),
            trim_ws(transfer_id@).len() > 0 && self.saves().contains_key(trim_ws(transfer_id@))
                ==> match base64_std_decoded(vstd::utf8::encode_utf8(trim_ws(chunk_base64@))) {
                Ok(bytes) => if bytes.len() == 0 {
                    r matches Ok(None)
                } else {
                    r matches Ok(Some((path, b))) && path@ == self.saves()[trim_ws(transfer_id@)].path
                        && b@ == bytes
                },
                Err(text) => r matches Err(e) && e@ == chunk_error_prefix() + text,
            },
    {
        proof {
            use_type_invariant(&*self);
        }
        let path = match self.chunk_target(transfer_id) {
            Ok(p) => p,
            Err(e) => return Err(e),
        };
        let bytes = match decode_chunk(chunk_base64) {
            Ok(b) => b,
            Err(e) => return Err(e),
        };
        if bytes.len() == 0 {
            return Ok(None);
        }
        Ok(Some((path, bytes)))
    }
}

} // verus!
