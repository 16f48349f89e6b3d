use stem_desktop::shell::decode_whole_file;
use stem_desktop::shell::{tray_menu_action, TrayMenuAction};
use stem_desktop::shell::decode_chunk;
use stem_desktop::shell::{download_matches, saved_download_result};
use stem_desktop::activity::{
    category_for_process, idle_seconds_from, is_game_process, is_work_process,
    process_name_from_path, snapshot,
};
use stem_desktop::shell::{
    autostart_command, autostart_first_run, autostart_value_matches, unread_tooltip,
    DesktopPendingDownload, DownloadRegistry,
};
use stem_desktop::taskbar::{
    command_for_button, high_word, icon_bits, low_word, taskbar_buttons, tip_units, wide_null,
    BUTTON_FAVORITE, BUTTON_NEXT, BUTTON_PLAY, BUTTON_PREVIOUS,
};

#[test]
fn tray_tooltip_shows_unread_count() {
    assert_eq!(unread_tooltip(0), "StemRed");
    assert_eq!(unread_tooltip(3), "StemRed - 3 unread");
    assert_eq!(unread_tooltip(4_294_967_295), "StemRed - 4294967295 unread");
}

#[test]
fn autostart_command_is_quoted() {
    assert_eq!(
        autostart_command("C:\\Program Files\\StemRed\\StemRed.exe"),
        "\"C:\\Program Files\\StemRed\\StemRed.exe\""
    );
}

#[test]
fn autostart_value_compares_ignoring_ascii_case() {
    assert!(autostart_value_matches("\"C:\\APP.EXE\"", "\"c:\\app.exe\""));
    assert!(!autostart_value_matches("\"C:\\other.exe\"", "\"c:\\app.exe\""));
    assert!(!autostart_value_matches("   ", "   "));
    assert!(!autostart_value_matches("", ""));
}

#[test]
fn autostart_is_enabled_once_on_first_run() {
    assert_eq!(autostart_first_run(false, false), (true, true));
    assert_eq!(autostart_first_run(false, true), (false, true));
    assert_eq!(autostart_first_run(true, false), (false, false));
    assert_eq!(autostart_first_run(true, true), (false, false));
}

fn pending(name: &str) -> DesktopPendingDownload {
    DesktopPendingDownload {
        filename: name.to_string(),
        directory: "D".to_string(),
        path: format!("D/{name}"),
    }
}

#[test]
fn download_registry_tracks_saves_by_id() {
    let mut registry = DownloadRegistry::new();
    registry.register("t1".to_string(), pending("a.bin"));
    registry.register("t2".to_string(), pending("b.bin"));
    assert_eq!(registry.chunk_target(" t1 "), Ok("D/a.bin".to_string()));
    assert_eq!(
        registry.chunk_target(""),
        Err("Не найден идентификатор сохранения".to_string())
    );
    assert_eq!(
        registry.chunk_target("t3"),
        Err("Сохранение файла уже не активно".to_string())
    );
    registry.register("t1".to_string(), pending("c.bin"));
    assert_eq!(registry.chunk_target("t1"), Ok("D/c.bin".to_string()));

    let finished = registry.finish("t1").expect("active save");
    assert_eq!(finished.filename, "c.bin");
    assert_eq!(
        registry.finish("t1").err(),
        Some("Сохранение файла уже не активно".to_string())
    );
    assert_eq!(
        registry.finish("  ").err(),
        Some("Не найден идентификатор сохранения".to_string())
    );
    let cancelled = registry.cancel("t2").expect("active save");
    assert_eq!(cancelled.path, "D/b.bin");
    assert!(registry.cancel("t2").is_none());
    assert!(registry.cancel("").is_none());
}

#[test]
fn thumbnail_buttons_send_player_commands() {
    assert_eq!(command_for_button(BUTTON_FAVORITE), Some("favorite".to_string()));
    assert_eq!(command_for_button(BUTTON_PREVIOUS), Some("previous".to_string()));
    assert_eq!(command_for_button(BUTTON_PLAY), Some("playPause".to_string()));
    assert_eq!(command_for_button(BUTTON_NEXT), Some("next".to_string()));
    assert_eq!(command_for_button(4100), None);
}

#[test]
fn words_of_a_message_parameter() {
    assert_eq!(low_word(0x1234_5678), 0x5678);
    assert_eq!(high_word(0x1234_5678), 0x1234);
    assert_eq!(low_word(0x1_0000), 0);
    assert_eq!(high_word(0xffff), 0);
}

#[test]
fn thumbnail_buttons_follow_player_state() {
    let idle = taskbar_buttons(false, false);
    assert_eq!(idle[0].tip, "Добавить в избранное");
    assert_eq!(idle[2].icon, 2);
    assert_eq!(idle[2].tip, "Проиграть");
    let playing = taskbar_buttons(true, true);
    assert_eq!(playing[0].tip, "Убрать из избранного");
    assert_eq!(playing[2].icon, 3);
    assert_eq!(playing[2].tip, "Пауза");
    assert_eq!(playing[1].id, BUTTON_PREVIOUS);
    assert_eq!(playing[3].id, BUTTON_NEXT);
    assert_eq!(playing[3].icon, 4);
}

#[test]
fn icon_masks_from_coverage() {
    let mut alpha = vec![0u8; 24 * 24];
    alpha[0] = 255;
    alpha[23] = 10;
    alpha[24 + 8] = 1;
    let (and_bits, xor_bits) = icon_bits(&alpha);
    assert_eq!(and_bits.len(), 96);
    assert_eq!(xor_bits.len(), 24 * 24 * 4);
    assert_eq!(&and_bits[0..4], &[0x7f, 0xff, 0xfe, 0xff]);
    assert_eq!(&and_bits[4..8], &[0xff, 0x7f, 0xff, 0xff]);
    assert_eq!(&xor_bits[0..4], &[255, 255, 255, 255]);
    assert_eq!(&xor_bits[4..8], &[0, 0, 0, 0]);
    assert_eq!(&xor_bits[(24 + 8) * 4..(24 + 8) * 4 + 4], &[1, 1, 1, 1]);
}

#[test]
fn utf16_with_terminating_zero() {
    assert_eq!(wide_null("Ab"), vec![0x41, 0x62, 0]);
    assert_eq!(wide_null(""), vec![0]);
    assert_eq!(wide_null("Я😀"), vec![0x042f, 0xd83d, 0xde00, 0]);
    let long = "x".repeat(300);
    let units = tip_units(&long);
    assert_eq!(units.len(), 260);
    assert!(units.iter().all(|unit| *unit == 0x78));
    assert_eq!(tip_units("Пауза"), "Пауза\0".encode_utf16().collect::<Vec<u16>>());
}

#[test]
fn process_categories() {
    assert!(is_game_process("steam.exe"));
    assert!(!is_game_process("Steam.exe"));
    assert!(is_work_process("code.exe"));
    assert!(is_work_process("docker desktop.exe"));
    assert_eq!(category_for_process("cs2.exe"), Some("game".to_string()));
    assert_eq!(category_for_process("excel.exe"), Some("work".to_string()));
    assert_eq!(category_for_process("explorer.exe"), None);
}

#[test]
fn process_names_from_image_paths() {
    assert_eq!(process_name_from_path("C:\\Games\\Steam\\Steam.EXE"), "steam.exe");
    assert_eq!(process_name_from_path("/usr/bin/Code.exe"), "code.exe");
    assert_eq!(process_name_from_path("Zoom.exe"), "zoom.exe");
    assert_eq!(process_name_from_path("C:\\dir\\"), "");
}

#[test]
fn idle_time_in_whole_seconds() {
    assert_eq!(idle_seconds_from(10_999, 1_000), 9);
    assert_eq!(idle_seconds_from(500, 1_000), 0);
    let snap = snapshot(42, Some("dota2.exe".to_string()));
    assert_eq!(snap.idle_seconds, 42);
    assert_eq!(snap.active_app_category, Some("game".to_string()));
    assert_eq!(snapshot(0, None).active_app_category, None);
}

#[test]
fn tray_menu_entries() {
    assert!(matches!(tray_menu_action("open"), Some(TrayMenuAction::Open)));
    assert!(matches!(tray_menu_action("retry"), Some(TrayMenuAction::Retry)));
    assert!(matches!(tray_menu_action("microphone_access"), Some(TrayMenuAction::ToggleMicrophone)));
    assert!(matches!(tray_menu_action("autostart"), Some(TrayMenuAction::ToggleAutostart)));
    assert!(matches!(tray_menu_action("quit"), Some(TrayMenuAction::Quit)));
    assert!(tray_menu_action("Quit").is_none());
}

#[test]
fn chunks_are_decoded_for_their_save() {
    let mut registry = DownloadRegistry::new();
    registry.register("t1".to_string(), pending("a.bin"));
    assert_eq!(
        registry.prepare_chunk("t1", " QUJD \n"),
        Ok(Some(("D/a.bin".to_string(), b"ABC".to_vec())))
    );
    assert_eq!(registry.prepare_chunk("t1", ""), Ok(None));
    assert_eq!(
        registry.prepare_chunk("t9", "QUJD"),
        Err("Сохранение файла уже не активно".to_string())
    );
    assert_eq!(
        registry.prepare_chunk(" ", "QUJD"),
        Err("Не найден идентификатор сохранения".to_string())
    );
    let error = registry.prepare_chunk("t1", "@@@@").unwrap_err();
    assert!(error.starts_with("Не удалось прочитать часть файла: "));
    assert!(error.len() > "Не удалось прочитать часть файла: ".len());
    assert_eq!(decode_chunk("YWI="), Ok(b"ab".to_vec()));
}

#[test]
fn finished_saves_must_not_be_empty() {
    assert_eq!(
        saved_download_result(pending("a.bin"), None, 0).err(),
        Some("Файл пустой".to_string())
    );
    let saved = saved_download_result(pending("a.bin"), Some("a (1).bin"), 10).unwrap();
    assert_eq!(saved.filename, "a (1).bin");
    assert_eq!(saved.directory, "D");
    assert_eq!(saved.path, "D/a.bin");
    assert!(download_matches(10, true, 10));
    assert!(!download_matches(10, true, 9));
    assert!(!download_matches(10, false, 10));
    assert!(!download_matches(0, true, 0));
}

#[test]
fn whole_files_must_decode_and_not_be_empty() {
    assert_eq!(decode_whole_file(" QUJD "), Ok(b"ABC".to_vec()));
    assert_eq!(decode_whole_file(""), Err("Файл пустой".to_string()));
    let error = decode_whole_file("*").unwrap_err();
    assert!(error.starts_with("Не удалось прочитать файл: "));
}
