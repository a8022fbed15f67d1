use knot::display::accent;
use knot::display::centered_margins;
use knot::display::hint;
use knot::display::preview;
use knot::display::Accent;
use knot::model::InputMode;
use knot::model::NEVER_SYNCED;
use knot::model::NOTE_HEADING;
use knot::model::NOTE_SUFFIX;
use knot::setup::repository_marker;
use knot::setup::vault_root;
use knot::setup::VaultError;
use knot::setup::REPOSITORY_DIR;
use knot::setup::VAULT_DIR;
use knot::sync::init_arguments;
use knot::sync::plan_sync;
use knot::sync::sync_report;
use knot::sync::COMMIT_PREFIX;
use knot::sync::EDITOR_PROGRAM;
use knot::sync::STAMP_FORMAT;
use knot::sync::SYNC_PROGRAM;

fn strings(items: &[&str]) -> Vec<String> {
    items.iter().map(|s| s.to_string()).collect()
}

#[test]
fn the_vault_lies_in_the_home_directory() {
    assert_eq!(vault_root(Some("/home/ann".to_string())), Ok(strings(&["/home/ann", ".knot_vault"])));
    assert_eq!(VAULT_DIR, ".knot_vault");
}

#[test]
fn without_a_home_directory_there_is_no_vault() {
    assert_eq!(vault_root(None), Err(VaultError::HomeNotFound));
    assert_eq!(VaultError::HomeNotFound.message(), "Home dir not found");
}

#[test]
fn the_repository_is_marked_in_the_root() {
    assert_eq!(
        repository_marker(&strings(&["/home/ann", ".knot_vault"])),
        strings(&["/home/ann", ".knot_vault", ".git"])
    );
    assert_eq!(REPOSITORY_DIR, ".git");
}

#[test]
fn a_synchronization_stages_commits_and_pushes() {
    assert_eq!(
        plan_sync("2024-05-06 07:08:09"),
        vec![
            strings(&["add", "."]),
            strings(&["commit", "-m", "Manual Sync: 2024-05-06 07:08:09"]),
            strings(&["push"]),
        ]
    );
    assert_eq!(plan_sync("")[1], strings(&["commit", "-m", "Manual Sync: "]));
    assert_eq!(COMMIT_PREFIX, "Manual Sync: ");
}

#[test]
fn the_vault_is_made_a_repository_by_init() {
    assert_eq!(init_arguments(), strings(&["init"]));
    assert_eq!(SYNC_PROGRAM, "git");
}

#[test]
fn the_report_follows_the_push() {
    assert_eq!(sync_report(true), "Sync Successful!");
    assert_eq!(sync_report(false), "Sync Failed. Check your network or remote settings.");
}

#[test]
fn the_programs_and_formats_are_fixed() {
    assert_eq!(EDITOR_PROGRAM, "helix");
    assert_eq!(STAMP_FORMAT, "%Y-%m-%d %H:%M:%S");
    assert_eq!(NOTE_HEADING, "# New Note");
    assert_eq!(NOTE_SUFFIX, ".md");
    assert_eq!(NEVER_SYNCED, "Manual");
}

#[test]
fn each_mode_has_its_hint() {
    assert_eq!(
        hint(InputMode::Normal),
        " [TAB] Focus | [S] Sync to Cloud | [C/F/N] New | [D] Delete | [/] Search | [Enter] Edit "
    );
    assert_eq!(hint(InputMode::ConfirmDelete), " !!! PERMANENT DELETE? [y/n] !!! ");
    assert_eq!(hint(InputMode::NewCat), " Name: [ENTER] Save | [ESC] Cancel ");
    assert_eq!(hint(InputMode::NewFolder), " Name: [ENTER] Save | [ESC] Cancel ");
    assert_eq!(hint(InputMode::NewNote), " Name: [ENTER] Save | [ESC] Cancel ");
    assert_eq!(hint(InputMode::Searching), " Search: [ENTER] Apply | [ESC] Cancel ");
}

#[test]
fn the_colours_come_in_turn() {
    assert_eq!(accent(0), Accent::Cyan);
    assert_eq!(accent(1), Accent::Magenta);
    assert_eq!(accent(2), Accent::Green);
    assert_eq!(accent(3), Accent::Yellow);
    assert_eq!(accent(4), Accent::Blue);
    assert_eq!(accent(5), Accent::Cyan);
    assert_eq!(accent(12), Accent::Green);
    assert_eq!(accent(usize::MAX), accent(usize::MAX % 5));
}

#[test]
fn the_preview_shows_the_note_or_says_why_not() {
    assert_eq!(preview(None), "---");
    assert_eq!(preview(Some(None)), "Error reading file");
    assert_eq!(preview(Some(Some("# New Note".to_string()))), "# New Note");
    assert_eq!(preview(Some(Some(String::new()))), "");
}

#[test]
fn the_margins_share_what_the_middle_leaves() {
    assert_eq!(centered_margins(50), (25, 50, 25));
    assert_eq!(centered_margins(15), (42, 15, 42));
    assert_eq!(centered_margins(100), (0, 100, 0));
    assert_eq!(centered_margins(0), (50, 0, 50));
    assert_eq!(centered_margins(99), (0, 99, 0));
}
