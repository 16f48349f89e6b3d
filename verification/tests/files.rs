use stem_desktop::files::MusicScan;
use stem_desktop::files::remember_music_folder;
use stem_desktop::files::desktop_music_file;
use stem_desktop::files::{
    desktop_download_result, desktop_music_directory, desktop_music_directory_id,
    desktop_music_mime, desktop_music_title, desktop_music_track, download_transfer_id,
    file_extension_of, file_stem_of, is_desktop_music_file, last_resort_download_name,
    music_scan_exhausted, numbered_download_name, sanitize_download_filename, sort_music_tracks,
    DesktopMusicTrack,
};
use stem_desktop::format::{decimal_text, stable_hash};

#[test]
fn sanitize_replaces_forbidden_characters() {
    assert_eq!(sanitize_download_filename("report.pdf"), "report.pdf");
    assert_eq!(sanitize_download_filename("a<b>:c\"d/e\\f|g?h*.txt"), "a_b__c_d_e_f_g_h_.txt");
    assert_eq!(sanitize_download_filename("tab\there.txt"), "tab_here.txt");
}

#[test]
fn sanitize_trims_dots_and_spaces() {
    assert_eq!(sanitize_download_filename("  ..hidden.txt. . "), "hidden.txt");
    assert_eq!(sanitize_download_filename(" ... "), "stem-file");
    assert_eq!(sanitize_download_filename(""), "stem-file");
}

#[test]
fn sanitize_prefixes_reserved_device_names() {
    assert_eq!(sanitize_download_filename("con.txt"), "_con.txt");
    assert_eq!(sanitize_download_filename("NUL"), "_NUL");
    assert_eq!(sanitize_download_filename("Com1.tar.gz"), "Com1.tar.gz");
    assert_eq!(sanitize_download_filename("lpt9.log"), "_lpt9.log");
    assert_eq!(sanitize_download_filename("console.txt"), "console.txt");
}

#[test]
fn stems_and_extensions_follow_path() {
    assert_eq!(file_stem_of("archive.tar.gz"), "archive.tar");
    assert_eq!(file_extension_of("archive.tar.gz"), Some("gz".to_string()));
    assert_eq!(file_stem_of(".bashrc"), ".bashrc");
    assert_eq!(file_extension_of(".bashrc"), None);
    assert_eq!(file_stem_of("noext"), "noext");
    assert_eq!(file_extension_of("noext"), None);
    assert_eq!(file_stem_of("trailing."), "trailing");
    assert_eq!(file_extension_of("trailing."), Some(String::new()));
}

#[test]
fn numbered_copies_keep_the_extension() {
    assert_eq!(numbered_download_name("report.pdf", 1), "report (1).pdf");
    assert_eq!(numbered_download_name("notes", 12), "notes (12)");
    assert_eq!(numbered_download_name("trailing.", 3), "trailing (3)");
    assert_eq!(last_resort_download_name("report.pdf", "17"), "report-17");
}

#[test]
fn transfer_id_is_time_and_path_hash() {
    assert_eq!(
        download_transfer_id(1_700_000_000_000, "C:/Users/me/Downloads/report.pdf"),
        "1700000000000-a2ab7febbba39fa7"
    );
}

#[test]
fn download_result_prefers_the_saved_name() {
    let saved = desktop_download_result("D", "D/report (1).pdf", Some("report (1).pdf"), "report.pdf");
    assert_eq!(saved.filename, "report (1).pdf");
    assert_eq!(saved.directory, "D");
    assert_eq!(saved.path, "D/report (1).pdf");
    let fallback = desktop_download_result("D", "D", None, "report.pdf");
    assert_eq!(fallback.filename, "report.pdf");
}

#[test]
fn music_files_by_extension_in_any_case() {
    assert!(is_desktop_music_file("song.mp3"));
    assert!(is_desktop_music_file("Song.FLAC"));
    assert!(is_desktop_music_file("a.b.Opus"));
    assert!(!is_desktop_music_file("cover.jpg"));
    assert!(!is_desktop_music_file("mp3"));
    assert!(!is_desktop_music_file(".mp3"));
}

#[test]
fn music_mime_types() {
    assert_eq!(desktop_music_mime("a.aac"), "audio/aac");
    assert_eq!(desktop_music_mime("a.FLAC"), "audio/flac");
    assert_eq!(desktop_music_mime("a.m4a"), "audio/mp4");
    assert_eq!(desktop_music_mime("a.ogg"), "audio/ogg");
    assert_eq!(desktop_music_mime("a.opus"), "audio/ogg");
    assert_eq!(desktop_music_mime("a.wav"), "audio/wav");
    assert_eq!(desktop_music_mime("a.mp3"), "audio/mpeg");
    assert_eq!(desktop_music_mime("unknown"), "audio/mpeg");
}

#[test]
fn music_titles_drop_the_extension() {
    assert_eq!(desktop_music_title("Artist - Song.mp3"), "Artist - Song");
    assert_eq!(desktop_music_title(" .mp3"), " .mp3");
    assert_eq!(desktop_music_title(".hidden"), ".hidden");
}

#[test]
fn music_folder_entries() {
    assert_eq!(desktop_music_directory_id("C:/Music"), "desktop-folder:ab2d7abce4dcde24");
    let folder = desktop_music_directory("C:/Music", Some("Music"));
    assert_eq!(folder.id, "desktop-folder:ab2d7abce4dcde24");
    assert_eq!(folder.name, "Music");
    assert_eq!(folder.path, "C:/Music");
    assert_eq!(desktop_music_directory("C:/", None).name, "Локальная музыка");
}

#[test]
fn music_track_entries() {
    let track = desktop_music_track("C:/Music/Song.MP3", "Song.MP3", "Album\\Song.MP3", 1234, 99);
    assert_eq!(track.id, "desktop-track:73104ffacccb38bc:1234:99");
    assert_eq!(track.title, "Song");
    assert_eq!(track.filename, "Song.MP3");
    assert_eq!(track.relative_path, "Album/Song.MP3");
    assert_eq!(track.mime, "audio/mpeg");
    assert_eq!(track.size, 1234);
    assert_eq!(track.modified_ms, 99);
}

#[test]
fn music_scan_limits() {
    assert!(!music_scan_exhausted(0, 0));
    assert!(!music_scan_exhausted(4, 599));
    assert!(music_scan_exhausted(5, 0));
    assert!(music_scan_exhausted(0, 600));
}

fn track(title: &str) -> DesktopMusicTrack {
    desktop_music_track(title, title, title, 0, 0)
}

#[test]
fn tracks_sort_by_lower_case_title() {
    let sorted = sort_music_tracks(vec![
        track("beta.mp3"),
        track("Alpha.mp3"),
        track("ЯБЛОКО.mp3"),
        track("gamma.mp3"),
        track("Beta.mp3"),
    ]);
    let titles: Vec<&str> = sorted.iter().map(|t| t.title.as_str()).collect();
    assert_eq!(titles, vec!["Alpha", "beta", "Beta", "gamma", "ЯБЛОКО"]);
    assert!(sort_music_tracks(Vec::new()).is_empty());
}

#[test]
fn fnv_hash_known_values() {
    assert_eq!(stable_hash(b""), "cbf29ce484222325");
    assert_eq!(stable_hash(b"a"), "af63dc4c8601ec8c");
    assert_eq!(stable_hash(b"foobar"), "85944171f73967e8");
}

#[test]
fn decimal_text_values() {
    assert_eq!(decimal_text(0), "0");
    assert_eq!(decimal_text(7), "7");
    assert_eq!(decimal_text(1_000), "1000");
    assert_eq!(decimal_text(u64::MAX), "18446744073709551615");
}

#[test]
fn remembered_folders_are_unique_by_path() {
    let folders = vec![desktop_music_directory("C:/Music", Some("Music"))];
    let same = remember_music_folder(folders, desktop_music_directory("C:/Music", Some("Other")));
    assert_eq!(same.len(), 1);
    assert_eq!(same[0].name, "Music");
    let more = remember_music_folder(same, desktop_music_directory("D:/Songs", Some("Songs")));
    assert_eq!(more.len(), 2);
    assert_eq!(more[1].path, "D:/Songs");
}

#[test]
fn music_file_content_is_standard_base64() {
    let file = desktop_music_file(Some("Track.OGG"), 4, 7, &[0xfb, 0xff, 0x00, 0x61]);
    assert_eq!(file.filename, "Track.OGG");
    assert_eq!(file.mime, "audio/ogg");
    assert_eq!(file.size, 4);
    assert_eq!(file.modified_ms, 7);
    assert_eq!(file.content_base64, "+/8AYQ==");
    let unnamed = desktop_music_file(None, 0, 0, b"ab");
    assert_eq!(unnamed.filename, "music");
    assert_eq!(unnamed.mime, "audio/mpeg");
    assert_eq!(unnamed.content_base64, "YWI=");
}

#[test]
fn sanitized_reserved_names_and_empty_names() {
    assert_eq!(sanitize_download_filename("CON.txt"), "_CON.txt");
    assert_eq!(sanitize_download_filename("Lpt1"), "_Lpt1");
    assert_eq!(sanitize_download_filename(". . ."), "stem-file");
    assert_eq!(sanitize_download_filename("  \t "), "stem-file");
    assert_eq!(sanitize_download_filename("a\\b"), "a_b");
}

#[test]
fn music_scan_stops_at_the_limits() {
    let mut scan = MusicScan::new();
    assert!(scan.enter_directory(0));
    assert!(scan.enter_directory(4));
    assert!(!scan.enter_directory(5));
    for index in 0..600 {
        assert!(scan.room_for_entry());
        scan.add_track(track(&format!("t{index:03}.mp3")));
    }
    assert!(!scan.room_for_entry());
    scan.add_track(track("late.mp3"));
    let (tracks, truncated) = scan.finish();
    assert!(truncated);
    assert_eq!(tracks.len(), 600);
    assert_eq!(tracks[0].title, "t000");
    assert!(tracks.iter().all(|t| t.title != "late"));

    let mut fresh = MusicScan::new();
    fresh.add_track(track("b.mp3"));
    fresh.add_track(track("A.mp3"));
    let (tracks, truncated) = fresh.finish();
    assert!(!truncated);
    let titles: Vec<&str> = tracks.iter().map(|t| t.title.as_str()).collect();
    assert_eq!(titles, vec!["A", "b"]);
}
