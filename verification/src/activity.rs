//! What the shell reports of the user's activity: idle time and the kind of application in
//! the foreground.
use vstd::prelude::*;

use crate::text::{ascii_lower, ascii_lower_char, chars_of, opt_str, owned, push_char, to_ascii_lower};

verus! {

/// What the web client is told of the user's activity.
pub struct DesktopActivitySnapshot {
    pub idle_seconds: u64,
    pub active_app_category: Option<String>,
}

pub open spec fn game_processes() -> Seq<Seq<char>> {
    seq![
        "steam.exe"@, "steamwebhelper.exe"@, "epicgameslauncher.exe"@, "battle.net.exe"@,
        "riotclientservices.exe"@, "leagueclientux.exe"@, "valorant.exe"@,
        "fortniteclient-win64-shipping.exe"@, "cs2.exe"@, "dota2.exe"@, "gta5.exe"@,
        "minecraft.exe"@, "minecraftlauncher.exe"@, "minecraft.windows.exe"@,
        "robloxplayerbeta.exe"@, "cyberpunk2077.exe"@,
    ]
}

pub open spec fn work_processes() -> Seq<Seq<char>> {
    seq![
        "code.exe"@, "cursor.exe"@, "devenv.exe"@, "rider64.exe"@, "idea64.exe"@,
        "pycharm64.exe"@, "webstorm64.exe"@, "phpstorm64.exe"@, "datagrip64.exe"@,
        "studio64.exe"@, "figma.exe"@, "winword.exe"@, "excel.exe"@, "powerpnt.exe"@,
        "onenote.exe"@, "outlook.exe"@, "teams.exe"@, "slack.exe"@, "zoom.exe"@, "notion.exe"@,
        "obsidian.exe"@, "postman.exe"@, "docker desktop.exe"@,
    ]
}

fn listed(name: &str, names: &[&str]) -> (r: bool)
    ensures
        r == exists|k: int| 0 <= k < names@.len() && names@[k]@ == name@,
{
    let own = owned(name);
    let mut i: usize = 0;
    while i < names.len()
        invariant
            own@ == name@,
            i <= names@.len(),
            forall|k: int| 0 <= k < i ==> names@[k]@ != name@,
        decreases names@.len() - i,
    {
        if owned(names[i]) == own {
            return true;
        }
        i = i + 1;
    }
    false
}

/// Whether a lower-cased executable name is a known game or launcher.
pub fn is_game_process(name: &str) -> (r: bool)
    ensures
        r == game_processes().contains(name@),
{
    let names: [&str; 16] = [
        "steam.exe", "steamwebhelper.exe", "epicgameslauncher.exe", "battle.net.exe",
        "riotclientservices.exe", "leagueclientux.exe", "valorant.exe",
        "fortniteclient-win64-shipping.exe", "cs2.exe", "dota2.exe", "gta5.exe", "minecraft.exe",
        "minecraftlauncher.exe", "minecraft.windows.exe", "robloxplayerbeta.exe",
        "cyberpunk2077.exe",
    ];
    let r = listed(name, names.as_slice());
    proof {
        assert(Seq::new(16, |k: int| names@[k]@) =~= game_processes());
        if r {
            let k = choose|k: int| 0 <= k < 16 && names@[k]@ == name@;
            assert(game_processes()[k] == name@);
        } else {
            assert forall|k: int| 0 <= k < 16 implies game_processes()[k] != name@ by {
                assert(game_processes()[k] == names@[k]@);
            }
        }
    }
    r
}

/// Whether a lower-cased executable name is a known work application.
pub fn is_work_process(name: &str) -> (r: bool)
    ensures
        r == work_processes().contains(name@),
{
    let names: [&str; 23] = [
        "code.exe", "cursor.exe", "devenv.exe", "rider64.exe", "idea64.exe", "pycharm64.exe",
        "webstorm64.exe", "phpstorm64.exe", "datagrip64.exe", "studio64.exe", "figma.exe",
        "winword.exe", "excel.exe", "powerpnt.exe", "onenote.exe", "outlook.exe", "teams.exe",
        "slack.exe", "zoom.exe", "notion.exe", "obsidian.exe", "postman.exe",
        "docker desktop.exe",
    ];
    let r = listed(name, names.as_slice());
    proof {
        assert(Seq::new(23, |k: int| names@[k]@) =~= work_processes());
        if r {
            let k = choose|k: int| 0 <= k < 23 && names@[k]@ == name@;
            assert(work_processes()[k] == name@);
        } else {
            assert forall|k: int| 0 <= k < 23 implies work_processes()[k] != name@ by {
                assert(work_processes()[k] == names@[k]@);
            }
        }
    }
    r
}

pub open spec fn process_category(name: Seq<char>) -> Option<Seq<char>> {
    if game_processes().contains(name) {
        Some("game"@)
    } else if work_processes().contains(name) {
        Some("work"@)
    } else {
        None
    }
}

/// `game` for games and launchers, `work` for work applications, nothing otherwise.
pub fn category_for_process(process_name: &str) -> (r: Option<String>)
    ensures
        opt_str(r) == process_category(process_name@),
{
    if is_game_process(process_name) {
        return Some(owned("game"));
    }
    if is_work_process(process_name) {
        return Some(owned("work"));
    }
    None
}

/// The part of a path after its last `\` or `/`.
pub open spec fn last_component(path: Seq<char>) -> Seq<char>
    decreases path.len(),
{
    if path.len() == 0 {
        path
    } else if path.last() == '\\' || path.last() == '/' {
        path.subrange(path.len() as int, path.len() as int)
    } else {
        last_component(path.drop_last()).push(path.last())
    }
}

/// The executable name of a path is what follows its last separator, whether that is `\\`
/// or `/`, whatever the folders before it.
pub proof fn law_last_component_after_separator(dir: Seq<char>, sep: char, name: Seq<char>)
    requires
        sep == '\\' || sep == '/',
        forall|i: int| 0 <= i < name.len() ==> name[i] != '\\' && name[i] != '/',
    ensures
        last_component(dir.push(sep) + name) == name,
    decreases name.len(),
{
    let x = dir.push(sep) + name;
    if name.len() == 0 {
        assert(x =~= dir.push(sep));
        assert(x.subrange(x.len() as int, x.len() as int) =~= name);
    } else {
        assert(x.last() == name.last());
        assert(x.drop_last() =~= dir.push(sep) + name.drop_last());
        law_last_component_after_separator(dir, sep, name.drop_last());
        assert(name.drop_last().push(name.last()) =~= name);
    }
}

/// The lower-cased executable name of a process image path.
pub fn process_name_from_path(path: &str) -> (r: String)
    ensures
        r@ == ascii_lower(last_component(path@)),
{
    let chars = chars_of(path);
    let mut start = chars.len();
    proof {
        assert(chars@.subrange(start as int, chars@.len() as int) =~= Seq::<char>::empty());
        assert(chars@.subrange(0, chars@.len() as int) =~= chars@);
    }
    while start > 0 && chars[start - 1] != '\\' && chars[start - 1] != '/'
        invariant
            chars@ == path@,
            start <= chars@.len(),
            last_component(path@) == last_component(chars@.subrange(0, start as int)) + chars@.subrange(
                start as int,
                chars@.len() as int,
            ),
        decreases start,
    {
        proof {
            let prefix = chars@.subrange(0, start as int);
            assert(prefix.drop_last() =~= chars@.subrange(0, start - 1));
            assert(last_component(chars@.subrange(0, start - 1)).push(prefix.last()) + chars@.subrange(
                start as int,
                chars@.len() as int,
            ) =~= last_component(chars@.subrange(0, start - 1)) + chars@.subrange(start - 1, chars@.len() as int));
        }
        start = start - 1;
    }
    proof {
        let prefix = chars@.subrange(0, start as int);
        assert(last_component(prefix) =~= Seq::<char>::empty());
        assert(Seq::<char>::empty() + chars@.subrange(start as int, chars@.len() as int) =~= chars@.subrange(
            start as int,
            chars@.len() as int,
        ));
    }
    let mut out = String::new();
    let mut i = start;
    while i < chars.len()
        invariant
            chars@ == path@,
            start <= i <= chars@.len(),
            last_component(path@) == chars@.subrange(start as int, chars@.len() as int),
            out@ == ascii_lower(chars@.subrange(start as int, i as int)),
        decreases chars@.len() - i,
    {
        push_char(&mut out, to_ascii_lower(chars[i]));
        proof {
            assert(ascii_lower(chars@.subrange(start as int, i + 1)) =~= ascii_lower(
                chars@.subrange(start as int, i as int),
            ).push(ascii_lower_char(chars@[i as int])));
        }
        i = i + 1;
    }
    out
}

/// Seconds since the last input, from the tick counts of now and of that input.
pub fn idle_seconds_from(now_ticks_ms: u64, last_input_ticks_ms: u32) -> (r: u64)
    ensures
        r == (if now_ticks_ms >= last_input_ticks_ms {
            now_ticks_ms - last_input_ticks_ms
        } else {
            0
        }) / 1000,
{
    now_ticks_ms.saturating_sub(last_input_ticks_ms as u64) / 1000
}

/// The activity snapshot from the idle time and the foreground process, if one is known.
pub fn snapshot(idle_seconds: u64, active_process_name: Option<String>) -> (r: DesktopActivitySnapshot)
    ensures
        r.idle_seconds == idle_seconds,
        opt_str(r.active_app_category) == match active_process_name {
            Some(name) => process_category(name@),
            None => None,
        },
{
    DesktopActivitySnapshot {
        idle_seconds,
        active_app_category: match active_process_name {
            Some(name) => category_for_process(name.as_str()),
            None => None,
        },
    }
}

} // verus!
