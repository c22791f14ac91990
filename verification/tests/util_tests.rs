use buildhub::alias::AliasInfo;
use buildhub::alias::AliasParent;
use buildhub::alias::AliasTarget;
use buildhub::alias::AliasVolume;
use buildhub::alias::ExtraItem;
use buildhub::branches;
use buildhub::clock::ClockParts;
use buildhub::clock;
use buildhub::dsstore::Entry;
use buildhub::dsstore;
use buildhub::idfinder::IdFinder;
use buildhub::installer::InstallerKind;
use buildhub::installer;
use buildhub::manager::TaskManager;
use buildhub::oem;
use buildhub::state::TaskState;
use buildhub::text;

#[test]
fn message_ids_come_from_the_digest() {
    // The digest of "test" starts d41d... only for the empty string; for
    // "test" the combined value is fixed, so an implementation that echoed
    // its input would fail here.
    assert_eq!(IdFinder::generate_message_id("test", None), "688887797400064883");
    assert_eq!(
        IdFinder::generate_message_id("Hello, world!", Some("greeting")),
        "4847190331832636234"
    );
}

#[test]
fn extracting_ids_and_messages_from_translation_lines() {
    let line = "<translation id=\"8914504000324227558\">Settings</translation>";
    assert_eq!(IdFinder::extract_id(line), Some("8914504000324227558"));
    assert_eq!(IdFinder::extract_message(line), Some("Settings"));
    assert_eq!(IdFinder::extract_id("no id here"), None);
    assert_eq!(IdFinder::extract_id("id=\"unterminated"), None);
    assert_eq!(IdFinder::extract_message("<empty/"), None);
    assert_eq!(IdFinder::extract_message(">hello<world"), Some("hello"));
    assert_eq!(IdFinder::extract_message("never closed >text"), None);
}

#[test]
fn filenames_are_sanitized() {
    assert_eq!(text::sanitize_filename("my file (1).dmg"), "myfile1.dmg");
    assert_eq!(text::sanitize_filename("app-2.0_beta"), "app-2.0_beta");
    assert_eq!(text::sanitize_filename("../../etc/passwd"), "....etcpasswd");
}

#[test]
fn decimal_rendering() {
    assert_eq!(text::u64_to_string(0), "0");
    assert_eq!(text::u64_to_string(90210), "90210");
    assert_eq!(text::i64_to_string(-42), "-42");
    assert_eq!(text::i64_to_string(i64::MIN), "-9223372036854775808");
    assert_eq!(text::u64_to_string_padded(7, 2), "07");
    assert_eq!(text::u64_to_string_padded(2024, 2), "2024");
}

#[test]
fn timestamps_are_zero_padded() {
    let p = ClockParts { year: 2024, month: 3, day: 7, hour: 9, minute: 5, second: 2 };
    assert_eq!(clock::format_timestamp(p), "2024-03-07 09:05:02");
    assert_eq!(clock::format_folder_stamp(p), "2024-03-07-09-05");
}

#[test]
fn the_clock_renders_a_full_stamp() {
    let stamp = clock::format_date_time().unwrap();
    assert_eq!(stamp.chars().count(), 19);
    let bytes: Vec<char> = stamp.chars().collect();
    assert_eq!(bytes[4], '-');
    assert_eq!(bytes[7], '-');
    assert_eq!(bytes[10], ' ');
    assert_eq!(bytes[13], ':');
    assert_eq!(bytes[16], ':');
    let folder = clock::format_date_folder().unwrap();
    assert_eq!(folder.chars().count(), 16);
}

#[test]
fn default_branch_priorities() {
    let with_main = vec![String::from("dev"), String::from("main"), String::from("master")];
    assert_eq!(branches::pick_default_branch(&with_main).as_deref(), Some("main"));
    let with_master = vec![String::from("master"), String::from("topic")];
    assert_eq!(branches::pick_default_branch(&with_master).as_deref(), Some("master"));
    let odd = vec![String::from("topic")];
    assert_eq!(branches::pick_default_branch(&odd).as_deref(), Some("topic"));
    assert_eq!(branches::pick_default_branch(&Vec::new()), None);
    assert_eq!(branches::get_main_branches(&with_main), vec![String::from("main"), String::from("master")]);
    assert_eq!(branches::get_main_branches(&odd), vec![String::from("topic")]);
}

#[test]
fn apple_dates_shift_the_epoch() {
    assert_eq!(dsstore::to_apple_date(0), 2082844800);
    assert_eq!(dsstore::to_apple_date(1), 2082844801);
}

#[test]
fn utf16_encoding_is_big_endian() {
    assert_eq!(dsstore::utf16be("ab"), vec![0x00, 0x61, 0x00, 0x62]);
    assert_eq!(dsstore::utf16be(""), Vec::<u8>::new());
    // A supplementary-plane character becomes a surrogate pair.
    assert_eq!(dsstore::utf16be("\u{10400}"), vec![0xD8, 0x01, 0xDC, 0x00]);
}

#[test]
fn icon_location_records() {
    let e = Entry::new_iloc("App.app", 170, 190);
    assert_eq!(e.filename, "App.app");
    assert_eq!(e.structure_id, "Iloc");
    assert_eq!(e.data_type, "blob");
    assert_eq!(
        e.blob,
        vec![
            0, 0, 0, 16, 0, 0, 0, 170, 0, 0, 0, 190, 0xff, 0xff, 0xff, 0xff, 0, 0, 0, 0,
        ]
    );
    let bytes = e.to_bytes();
    // Length (7 units), the name in UTF-16, the two tags, then the payload.
    assert_eq!(&bytes[0..4], &[0, 0, 0, 7]);
    assert_eq!(&bytes[4..8], &[0, b'A', 0, b'p']);
    assert_eq!(&bytes[18..22], b"Iloc");
    assert_eq!(&bytes[22..26], b"blob");
    assert_eq!(bytes.len(), 4 + 14 + 4 + 4 + 20);
}

#[test]
fn store_image_splices_records_into_the_template() {
    let template = vec![9u8; 6148];
    let entries = vec![
        Entry::new_iloc("B.app", 1, 2),
        Entry::new_iloc("A.app", 3, 4),
    ];
    let image = dsstore::ds_store_image(&template, &entries);
    assert_eq!(image.len(), 4100 + 3840);
    // The template survives before the record area.
    assert_eq!(image[0], 9);
    assert_eq!(image[4099], 9);
    // The block header: a zero word, then the record count.
    assert_eq!(&image[4100..4108], &[0, 0, 0, 0, 0, 0, 0, 2]);
    // Records are sorted by file name: A.app comes first.
    assert_eq!(&image[4108..4112], &[0, 0, 0, 5]);
    assert_eq!(&image[4112..4114], &[0, b'A']);
}

#[test]
fn app_bundle_choice_prefers_the_main_application() {
    let names = vec![
        String::from("Chromium Helper.app"),
        String::from("Chromium.app"),
        String::from("notes.txt"),
    ];
    let lowered = vec![
        String::from("chromium helper.app"),
        String::from("chromium.app"),
        String::from("notes.txt"),
    ];
    assert_eq!(installer::pick_app_name(&names, &lowered), Some(1));
    let only_helper = vec![String::from("Gpu.app")];
    let only_helper_low = vec![String::from("gpu.app")];
    assert_eq!(installer::pick_app_name(&only_helper, &only_helper_low), Some(0));
    let none = vec![String::from("readme.md")];
    let none_low = vec![String::from("readme.md")];
    assert_eq!(installer::pick_app_name(&none, &none_low), None);
}

#[test]
fn artifact_names_and_formats() {
    assert_eq!(installer::artifact_name("Chromium.app", "1.2.3", "dmg"), "Chromium-1.2.3.dmg");
    assert_eq!(installer::artifact_name("tool", "9", "pkg"), "tool-9.pkg");
    assert_eq!(installer::plan_installer_format(None), InstallerKind::Dmg);
    assert_eq!(installer::plan_installer_format(Some("dmg")), InstallerKind::Dmg);
    assert_eq!(installer::plan_installer_format(Some("pkg")), InstallerKind::Pkg);
    assert_eq!(installer::plan_installer_format(Some("zip")), InstallerKind::Unsupported);
}

#[test]
fn mount_points_come_from_the_tool_output() {
    let line = "/dev/disk4s1 Apple_HFS /Volumes/Chromium 1";
    assert_eq!(installer::parse_mount_point(line), Some("/Volumes/Chromium 1"));
    assert_eq!(installer::parse_mount_point("no volumes here"), None);
}

#[test]
fn component_plist_pins_the_bundle_path() {
    let plist = installer::component_plist("Chromium.app");
    assert!(plist.contains("<string>Chromium.app</string>"));
    assert!(plist.contains("<key>BundleIsRelocatable</key>"));
    assert!(plist.starts_with("<?xml version=\"1.0\""));
}

#[test]
fn registry_honors_cancel_before_start() {
    let mut mgr = TaskManager::new(1);
    mgr.create_cancelled_flag(5);
    assert!(mgr.may_start(5));
    mgr.cancel_task(5).unwrap();
    assert!(!mgr.may_start(5));
    assert_eq!(mgr.get_cancelled_flag(5), Some(true));
    assert!(mgr.cancel_task(6).is_err());
    mgr.update_task_state(5, TaskState::Failed);
    assert_eq!(mgr.get_task_state(5), Some(TaskState::Failed));
    mgr.remove_task(5);
    assert!(!mgr.has_task(5));
    assert!(!mgr.is_processing());
}

#[test]
fn oem_defaults() {
    assert_eq!(oem::default_format(), "png");
    let gen = oem::ThemeGenerator::new("/tmp/theme", "brand");
    assert_eq!(gen.base_path, "/tmp/theme");
    assert_eq!(gen.oem_name, "brand");
    assert_eq!(oem::ThemeGenerator::sized_image_name("product_logo", 128), "product_logo_128.png");
}

#[test]
fn alias_records_lay_out_their_header() {
    let info = AliasInfo::new(
        2,
        AliasTarget {
            id: 77,
            is_directory: false,
            filename: String::from("background.png"),
            created_apple: 2082844800,
        },
        AliasParent { id: 55, name: String::from(".background") },
        AliasVolume { name: String::from("Macintosh HD"), created_apple: 2082844800 },
        vec![ExtraItem { kind: 0, data: b"AB".to_vec() }],
    );
    let bytes = info.encode();
    // 150 header bytes, one extra of six bytes, four trailer bytes.
    assert_eq!(bytes.len(), 160);
    assert_eq!(&bytes[0..4], &[0, 0, 0, 0]);
    assert_eq!(&bytes[4..6], &[0, 160]);
    assert_eq!(&bytes[6..8], &[0, 2]);
    assert_eq!(&bytes[8..10], &[0, 0]);
    assert_eq!(bytes[10], 12);
    assert_eq!(&bytes[11..23], b"Macintosh HD");
    assert_eq!(&bytes[23..38], &[0u8; 15]);
    assert_eq!(&bytes[42..44], b"H+");
    assert_eq!(&bytes[46..50], &[0, 0, 0, 55]);
    assert_eq!(bytes[50], 14);
    assert_eq!(&bytes[51..65], b"background.png");
    assert_eq!(&bytes[114..118], &[0, 0, 0, 77]);
    // The extra item: tag, length, payload; then the closing tag pair.
    assert_eq!(&bytes[150..156], &[0, 0, 0, 2, b'A', b'B']);
    assert_eq!(&bytes[156..160], &[0xFF, 0xFF, 0, 0]);
}
