use steam_icons::fetch::{build_icon_url, destination_path, plan_download};
use steam_icons::parse::ParsedShortcut;
use steam_icons::scan::{plan_entry, EntryPlan, FileKind, SkipReason};

#[test]
fn interrupt_halts_the_iteration() {
    // An interrupt observed before the iteration wins over everything
    // else the entry would have led to.
    assert_eq!(plan_entry(true, FileKind::Regular, "a.url"), EntryPlan::Halt);
    assert_eq!(plan_entry(true, FileKind::Directory, "d"), EntryPlan::Halt);
    assert_eq!(plan_entry(true, FileKind::Other, ""), EntryPlan::Halt);
}

#[test]
fn non_regular_entries_are_skipped() {
    assert_eq!(
        plan_entry(false, FileKind::Directory, "games.url"),
        EntryPlan::Skip(SkipReason::IsDirectory)
    );
    assert_eq!(
        plan_entry(false, FileKind::Symlink, "games.url"),
        EntryPlan::Skip(SkipReason::IsSymlink)
    );
    assert_eq!(
        plan_entry(false, FileKind::Other, "games.url"),
        EntryPlan::Skip(SkipReason::NotRegularFile)
    );
}

#[test]
fn names_without_the_extension_are_skipped() {
    assert_eq!(
        plan_entry(false, FileKind::Regular, "notes.txt"),
        EntryPlan::Skip(SkipReason::NoShortcutExtension)
    );
    assert_eq!(
        plan_entry(false, FileKind::Regular, "url"),
        EntryPlan::Skip(SkipReason::NoShortcutExtension)
    );
    assert_eq!(
        plan_entry(false, FileKind::Regular, ""),
        EntryPlan::Skip(SkipReason::NoShortcutExtension)
    );
    assert_eq!(
        plan_entry(false, FileKind::Regular, "GAME.URL"),
        EntryPlan::Skip(SkipReason::NoShortcutExtension)
    );
}

#[test]
fn eligible_entries_are_parsed() {
    assert_eq!(plan_entry(false, FileKind::Regular, "Counter-Strike 2.url"), EntryPlan::Parse);
    assert_eq!(plan_entry(false, FileKind::Regular, ".url"), EntryPlan::Parse);
}

#[test]
fn builds_the_download_address() {
    assert_eq!(
        build_icon_url("730", "730.ico"),
        "https://cdn.cloudflare.steamstatic.com/steamcommunity/public/images/apps/730/730.ico"
    );
}

#[test]
fn joins_the_destination_path() {
    assert_eq!(destination_path("C:\\icons\\", "7.ico"), "C:\\icons\\7.ico");
}

#[test]
fn existing_icon_plans_no_download() {
    let p = ParsedShortcut { key: "730".to_string(), icon_filename: "730.ico".to_string() };
    assert!(plan_download(&p, "C:\\icons\\", true).is_none());
}

#[test]
fn missing_icon_plans_the_download() {
    let p = ParsedShortcut { key: "730".to_string(), icon_filename: "730.ico".to_string() };
    let plan = plan_download(&p, "C:\\icons\\", false).unwrap();
    assert_eq!(
        plan.url,
        "https://cdn.cloudflare.steamstatic.com/steamcommunity/public/images/apps/730/730.ico"
    );
    assert_eq!(plan.destination, "C:\\icons\\730.ico");
}
